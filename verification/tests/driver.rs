//! The USBFS driver.

use ra4_hal::mmio::InterruptEvent;
use ra4_hal::usb::driver::{bring_up, CAPTURED_INTSTS0};
use ra4_hal::usb::types::{Bempsts, Brdysts, Intsts0, Nrdysts};
use ra4_hal::usb::{Config, Driver, Error, InterruptHandler};
use ra4_hal::mmio::{Access, IrqOp, Mmio, Reg16, Reg32, Reg8, Shadow};
use ra4_hal::usb::{Instance, UsbIrqEvent, UsbIrqLocalState};
use std::cell::RefCell;
use std::rc::Rc;

/// What the simulated chip holds.
#[derive(Default)]
struct Cells {
    log: Vec<Access>,
    quiet: bool,
    memory8: Vec<(Reg8, u8)>,
    memory16: Vec<(Reg16, u16)>,
    memory32: Vec<(Reg32, u32)>,
    script8: Vec<(Reg8, u8)>,
    script16: Vec<(Reg16, u16)>,
    fixed16: Vec<(Reg16, u16)>,
    fixed32: Vec<(Reg32, u32)>,
    shadow: [u16; 3],
    pending: bool,
    latched: UsbIrqEvent,
    local: UsbIrqLocalState,
}

/// A chip whose registers read as what was written last, unless a test says otherwise.
#[derive(Clone, Default)]
struct Chip(Rc<RefCell<Cells>>);

#[allow(dead_code)]
impl Chip {
    fn log(&self) -> Vec<Access> {
        self.0.borrow().log.clone()
    }
    fn forget(&self) {
        self.0.borrow_mut().log.clear();
    }
    fn quiet(&self) {
        self.0.borrow_mut().quiet = true;
    }
    /// The register reads as `value` for good.
    fn fix16(&self, reg: Reg16, value: u16) {
        self.0.borrow_mut().fixed16.retain(|e| e.0 != reg);
        self.0.borrow_mut().fixed16.push((reg, value));
    }
    fn stick32(&self, reg: Reg32, value: u32) {
        self.0.borrow_mut().fixed32.push((reg, value));
    }
    fn unfix16(&self, reg: Reg16) {
        self.0.borrow_mut().fixed16.retain(|e| e.0 != reg);
    }
    /// The next read of the register returns `value`.
    fn next16(&self, reg: Reg16, value: u16) {
        self.0.borrow_mut().script16.push((reg, value));
    }
    fn next8(&self, reg: Reg8, value: u8) {
        self.0.borrow_mut().script8.push((reg, value));
    }
    fn set8(&self, reg: Reg8, value: u8) {
        self.0.borrow_mut().memory8.retain(|e| e.0 != reg);
        self.0.borrow_mut().memory8.push((reg, value));
    }
    fn set16(&self, reg: Reg16, value: u16) {
        self.0.borrow_mut().memory16.retain(|e| e.0 != reg);
        self.0.borrow_mut().memory16.push((reg, value));
    }
    fn set32(&self, reg: Reg32, value: u32) {
        self.0.borrow_mut().memory32.retain(|e| e.0 != reg);
        self.0.borrow_mut().memory32.push((reg, value));
    }
    fn get16(&self, reg: Reg16) -> u16 {
        let cells = self.0.borrow();
        cells.memory16.iter().find(|e| e.0 == reg).map_or(0, |e| e.1)
    }
    fn note(&self, access: Access) {
        let mut cells = self.0.borrow_mut();
        if !cells.quiet {
            cells.log.push(access);
        }
    }
}

impl Instance for Chip {
    fn read8(&mut self, reg: Reg8) -> u8 {
        let mut cells = self.0.borrow_mut();
        let value = match cells.script8.iter().position(|e| e.0 == reg) {
            Some(at) => cells.script8.remove(at).1,
            None => cells.memory8.iter().find(|e| e.0 == reg).map_or(0, |e| e.1),
        };
        drop(cells);
        self.note(Access::Read8 { reg, value });
        value
    }
    fn write8(&mut self, reg: Reg8, value: u8) {
        self.set8(reg, value);
        self.note(Access::Write8 { reg, value });
    }
    fn read16(&mut self, reg: Reg16) -> u16 {
        let mut cells = self.0.borrow_mut();
        let value = match cells.script16.iter().position(|e| e.0 == reg) {
            Some(at) => cells.script16.remove(at).1,
            None => match cells.fixed16.iter().find(|e| e.0 == reg) {
                Some(e) => e.1,
                None => cells.memory16.iter().find(|e| e.0 == reg).map_or(0, |e| e.1),
            },
        };
        drop(cells);
        self.note(Access::Read16 { reg, value });
        value
    }
    fn write16(&mut self, reg: Reg16, value: u16) {
        self.set16(reg, value);
        self.note(Access::Write16 { reg, value });
    }
    fn read32(&mut self, reg: Reg32) -> u32 {
        let cells = self.0.borrow();
        let value = match cells.fixed32.iter().find(|e| e.0 == reg) {
            Some(e) => e.1,
            None => cells.memory32.iter().find(|e| e.0 == reg).map_or(0, |e| e.1),
        };
        drop(cells);
        self.note(Access::Read32 { reg, value });
        value
    }
    fn write32(&mut self, reg: Reg32, value: u32) {
        self.set32(reg, value);
        self.note(Access::Write32 { reg, value });
    }
    fn wait8(&mut self, reg: Reg8, mask: u8, value: u8) {
        self.note(Access::Wait8 { reg, mask, value });
    }
    fn wait16(&mut self, reg: Reg16, mask: u16, value: u16) {
        self.note(Access::Wait16 { reg, mask, value });
    }
    fn delay(&mut self, cycles: u32) {
        self.note(Access::Delay { cycles });
    }
    fn irq(&mut self, op: IrqOp) {
        self.note(Access::Irq { op });
    }
    fn enter(&mut self) {
        self.note(Access::Enter);
    }
    fn leave(&mut self) {
        self.note(Access::Leave);
    }
    fn load_shadow(&mut self, which: Shadow) -> u16 {
        let value = self.0.borrow().shadow[which as usize];
        self.note(Access::LoadShadow { which, value });
        value
    }
    fn store_shadow(&mut self, which: Shadow, value: u16) {
        self.0.borrow_mut().shadow[which as usize] = value;
        self.note(Access::StoreShadow { which, value });
    }
    fn load_pending(&mut self) -> bool {
        let value = self.0.borrow().pending;
        self.note(Access::LoadPending { value });
        value
    }
    fn store_pending(&mut self, value: bool) {
        self.0.borrow_mut().pending = value;
        self.note(Access::StorePending { value });
    }
    fn load_latched(&mut self) -> UsbIrqEvent {
        let value = self.0.borrow().latched;
        self.note(Access::LoadLatched { value });
        value
    }
    fn store_latched(&mut self, value: UsbIrqEvent) {
        self.0.borrow_mut().latched = value;
        self.note(Access::StoreLatched { value });
    }
    fn load_local(&mut self) -> UsbIrqLocalState {
        let value = self.0.borrow().local;
        self.note(Access::LoadLocal { value });
        value
    }
    fn store_local(&mut self, value: UsbIrqLocalState) {
        self.0.borrow_mut().local = value;
        self.note(Access::StoreLocal { value });
    }
}

fn driver(chip: &Chip) -> Driver<Chip> {
    let driver = Driver::new(chip.clone(), Config { force_reset_on_init: false }).unwrap();
    chip.forget();
    driver
}

#[test]
fn bring_up_without_reset() {
    let chip = Chip::default();
    chip.set32(Reg32::Mstpcrb, 0xffff_ffff);
    chip.set16(Reg16::Syscfg, 0x0070);
    let driver = Driver::new(chip.clone(), Config { force_reset_on_init: false }).unwrap();
    assert!(!driver.is_attached());
    let pin = (0x13u32 << 24) | (1 << 16);
    assert_eq!(
        chip.log(),
        vec![
            Access::Write16 { reg: Reg16::Prcr, value: 0xA503 },
            Access::Read32 { reg: Reg32::Mstpcrb, value: 0xffff_ffff },
            Access::Write32 { reg: Reg32::Mstpcrb, value: 0xffff_f7ff },
            Access::Write16 { reg: Reg16::Prcr, value: 0xA500 },
            Access::Read32 { reg: Reg32::Mstpcrb, value: 0xffff_f7ff },
            Access::Write8 { reg: Reg8::Pwpr, value: 0x00 },
            Access::Write8 { reg: Reg8::Pwpr, value: 0x40 },
            Access::Write32 { reg: Reg32::PmnPfs { port: 4, pin: 7 }, value: pin },
            Access::Write32 { reg: Reg32::PmnPfs { port: 9, pin: 14 }, value: pin },
            Access::Write32 { reg: Reg32::PmnPfs { port: 9, pin: 15 }, value: pin },
            Access::Write8 { reg: Reg8::Pwpr, value: 0x80 },
            Access::Read16 { reg: Reg16::Syscfg, value: 0x0070 },
            Access::Write16 { reg: Reg16::Syscfg, value: 0x0470 },
            Access::Wait16 { reg: Reg16::Syscfg, mask: 0x0400, value: 0x0400 },
            Access::Read16 { reg: Reg16::Syscfg, value: 0x0470 },
            Access::Write16 { reg: Reg16::Syscfg, value: 0x0401 },
            Access::Write16 { reg: Reg16::Cfifosel, value: 0 },
            Access::Write16 { reg: Reg16::D0fifosel, value: 0x0400 },
            Access::Write16 { reg: Reg16::D1fifosel, value: 0 },
            Access::Write16 { reg: Reg16::Intsts0, value: 0 },
            Access::Write16 { reg: Reg16::Intenb0, value: 0x9f00 },
            Access::Write16 { reg: Reg16::Intenb1, value: 0 },
        ]
    );
}

#[test]
fn bring_up_with_reset_attaches() {
    let chip = Chip::default();
    let driver = Driver::new(chip.clone(), Config::default()).unwrap();
    assert!(driver.is_attached());
    assert_eq!(chip.get16(Reg16::Syscfg), 0x0411);
    let log = chip.log();
    assert_eq!(log[log.len() - 1], Access::Irq { op: IrqOp::Unpend });
}

#[test]
fn bring_up_fails_on_a_stopped_peripheral() {
    let chip = Chip::default();
    chip.stick32(Reg32::Mstpcrb, 0x0000_0800);
    let result = Driver::new(chip.clone(), Config::default());
    assert!(matches!(result, Err(Error::Busy)));
    assert_eq!(chip.log().len(), 5);
}

#[test]
fn bring_up_goes_by_the_stop_bit_alone() {
    for (mstpcrb, expected) in [
        (0x0000_0800u32, Err(Error::Busy)),
        (0xffff_ffff, Err(Error::Busy)),
        (0xffff_f7ff, Ok(true)),
        (0x0000_0000, Ok(true)),
    ] {
        let chip = Chip::default();
        chip.stick32(Reg32::Mstpcrb, mstpcrb);
        let mut io = Mmio::new(chip.clone());
        assert_eq!(bring_up(&mut io, Config::default()), expected);
        let touched = chip.log().iter().any(|a| {
            matches!(
                a,
                Access::Write8 { reg: Reg8::Pwpr, .. } | Access::Write16 { reg: Reg16::Syscfg, .. }
            )
        });
        assert_eq!(touched, expected.is_ok());
        assert_eq!(chip.get16(Reg16::Prcr), 0xA500);
    }
    let mut io = Mmio::new(Chip::default());
    assert_eq!(bring_up(&mut io, Config { force_reset_on_init: false }), Ok(false));
}

#[test]
fn register_values_agree_with_the_register_definition() {
    let mut intenb0 = ra4m1_ctpac::usbfs::regs::Intenb0::default();
    intenb0.set_bempe(true);
    intenb0.set_brdye(true);
    intenb0.set_nrdye(true);
    intenb0.set_vbse(true);
    intenb0.set_dvse(true);
    intenb0.set_ctre(true);
    assert_eq!(intenb0.0, 0x9f00);
    let mut syscfg = ra4m1_ctpac::usbfs::regs::Syscfg(0x0470);
    syscfg.set_dcfm(false);
    syscfg.set_drpd(false);
    syscfg.set_dprpu(false);
    syscfg.set_usbe(true);
    syscfg.set_scke(true);
    assert_eq!(syscfg.0, 0x0401);
    let mut mstpcrb = ra4m1_ctpac::mstp::regs::Mstpcrb(0xffff_ffff);
    mstpcrb.set_mstpb11(false);
    assert_eq!(mstpcrb.0, 0xffff_f7ff);
    let mut d0fifosel = ra4m1_ctpac::usbfs::regs::D0fifosel::default();
    d0fifosel.set_mbw(true);
    assert_eq!(d0fifosel.0, 0x0400);
}

#[test]
fn attach_and_detach_switch_the_pull_up_only() {
    let chip = Chip::default();
    let mut driver = driver(&chip);
    chip.set16(Reg16::Syscfg, 0xa5a1);
    driver.attach();
    assert!(driver.is_attached());
    assert_eq!(chip.get16(Reg16::Syscfg), 0xa5b1);
    driver.detach();
    assert!(!driver.is_attached());
    assert_eq!(chip.get16(Reg16::Syscfg), 0xa5a1);
    assert_eq!(chip.log().len(), 4);
}

#[test]
fn forced_reset_leaves_and_rejoins_the_bus() {
    let chip = Chip::default();
    let mut driver = driver(&chip);
    chip.set16(Reg16::Syscfg, 0x0471);
    chip.set16(Reg16::Dcpmaxp, 0x0040);
    assert_eq!(driver.force_reset(), Ok(()));
    assert!(driver.is_attached());
    assert_eq!(
        chip.log(),
        vec![
            Access::Read16 { reg: Reg16::Syscfg, value: 0x0471 },
            Access::Write16 { reg: Reg16::Syscfg, value: 0x0461 },
            Access::Read16 { reg: Reg16::Syscfg, value: 0x0461 },
            Access::Write16 { reg: Reg16::Syscfg, value: 0x0401 },
            Access::Write16 { reg: Reg16::Dcpcfg, value: 0 },
            Access::Read16 { reg: Reg16::Dcpmaxp, value: 0x0040 },
            Access::Write16 { reg: Reg16::Dcpmaxp, value: 0x0040 },
            Access::Write16 { reg: Reg16::Dcpctr, value: 0x0100 },
            Access::Delay { cycles: 480_000 },
            Access::Read16 { reg: Reg16::Syscfg, value: 0x0401 },
            Access::Write16 { reg: Reg16::Syscfg, value: 0x0411 },
            Access::Irq { op: IrqOp::Unpend },
        ]
    );
}

#[test]
fn interrupts_are_enabled_once() {
    let chip = Chip::default();
    let mut driver = driver(&chip);
    driver.enable_interrupts();
    driver.enable_interrupts();
    assert_eq!(
        chip.log(),
        vec![
            Access::Irq { op: IrqOp::Disable },
            Access::Irq { op: IrqOp::Link(InterruptEvent::UsbfsUsbi) },
            Access::Irq { op: IrqOp::Unpend },
            Access::Irq { op: IrqOp::Enable },
        ]
    );
}

#[test]
fn interrupt_without_cause_is_dropped() {
    let chip = Chip::default();
    let mut driver = driver(&chip);
    driver.on_interrupt();
    let log = chip.log();
    assert!(!driver.irq_pending());
    assert_eq!(log[0], Access::Enter);
    assert_eq!(log[2], Access::Leave);
    assert!(!log.iter().any(|a| matches!(a, Access::StoreLatched { .. })));
    assert_eq!(log[log.len() - 1], Access::Irq { op: IrqOp::Unpend });
}

#[test]
fn interrupt_latches_enabled_reports() {
    let chip = Chip::default();
    let mut driver = driver(&chip);
    chip.set16(Reg16::Intenb0, 0x9f00);
    chip.set16(Reg16::Intsts0, 0xf0ff);
    chip.set16(Reg16::Brdysts, 0xffff);
    chip.set16(Reg16::Nrdysts, 0x0003);
    chip.set16(Reg16::Bempsts, 0x0018);
    chip.0.borrow_mut().shadow = [0xfc02, 0x0002, 0x0008];
    driver.on_interrupt();
    assert!(driver.irq_pending());
    let event = driver.take_events();
    assert!(!driver.irq_pending());
    assert_eq!(event.intsts0, Intsts0(0x1000));
    assert_eq!(event.brdysts, Brdysts(0x0002));
    assert_eq!(event.nrdysts, Nrdysts(0x0002));
    assert_eq!(event.bempsts, Bempsts(0x0008));
    assert_eq!(event.seqno, 1);
    assert!(driver.take_events().is_empty());
}

#[test]
fn interrupt_captures_a_setup_packet_on_the_rising_edge() {
    let chip = Chip::default();
    let mut driver = driver(&chip);
    chip.set16(Reg16::Intsts0, 0x0008);
    chip.set16(Reg16::Usbreq, 0x0680);
    chip.set16(Reg16::Usbval, 0x0100);
    chip.set16(Reg16::Usbindx, 0x0000);
    chip.set16(Reg16::Usbleng, 0x0040);
    driver.on_interrupt();
    let event = driver.take_events();
    assert!(event.valid_high && event.valid_rising && event.setup_valid);
    assert_eq!(event.setup_packet, [0x80, 0x06, 0x00, 0x01, 0x00, 0x00, 0x40, 0x00]);
    driver.on_interrupt();
    let event = driver.take_events();
    assert!(event.valid_high && !event.valid_rising && !event.setup_valid);
    assert_eq!(event.setup_packet, [0; 8]);
    chip.set16(Reg16::Intsts0, 0x0000);
    driver.on_interrupt();
    chip.set16(Reg16::Intsts0, 0x0008);
    driver.on_interrupt();
    assert!(driver.take_events().valid_rising);
}

#[test]
fn interrupt_captures_a_setup_packet_with_its_stage() {
    for (ctsq, captured) in
        [(0u16, false), (1, true), (2, false), (3, true), (4, false), (5, true), (6, false)]
    {
        let chip = Chip::default();
        let mut driver = driver(&chip);
        chip.set16(Reg16::Intenb0, 0x0800);
        chip.next16(Reg16::Intsts0, 0x0800);
        chip.next16(Reg16::Intsts0, 0x0800 | ctsq);
        chip.set16(Reg16::Usbreq, 0x2301);
        driver.on_interrupt();
        let event = driver.take_events();
        assert_eq!(event.intsts0, Intsts0(0x0800));
        assert_eq!(event.ctrt_ctsq, ctsq);
        assert_eq!(event.setup_valid, captured);
        assert_eq!(event.setup_packet[0], if captured { 0x01 } else { 0 });
        assert_eq!(event.setup_packet[1], if captured { 0x23 } else { 0 });
    }
}

#[test]
fn interrupts_merge_until_they_are_taken() {
    let chip = Chip::default();
    let mut driver = driver(&chip);
    chip.0.borrow_mut().shadow = [0x03ff; 3];
    chip.set16(Reg16::Brdysts, 0x0002);
    driver.on_interrupt();
    chip.set16(Reg16::Brdysts, 0x0004);
    let mut io = Mmio::new(chip.clone());
    InterruptHandler::<Chip>::on_interrupt(&mut io);
    Driver::<Chip>::on_interrupt_static(&mut io);
    let event = driver.take_events();
    assert_eq!(event.brdysts, Brdysts(0x0006));
    assert_eq!(event.seqno, 3);
}

#[test]
fn sequence_number_wraps() {
    let chip = Chip::default();
    let mut driver = driver(&chip);
    chip.0.borrow_mut().local.capture_seqno = u32::MAX;
    chip.0.borrow_mut().shadow = [1, 1, 1];
    chip.set16(Reg16::Brdysts, 1);
    driver.on_interrupt();
    assert_eq!(driver.take_events().seqno, 0);
}

#[test]
fn taking_events_happens_in_a_critical_section() {
    let chip = Chip::default();
    let mut driver = driver(&chip);
    let event = driver.take_events();
    assert_eq!(
        chip.log(),
        vec![
            Access::StorePending { value: false },
            Access::Enter,
            Access::LoadLatched { value: event },
            Access::StoreLatched { value: UsbIrqEvent::default() },
            Access::Leave,
        ]
    );
}

#[test]
fn clearing_the_capture_state_forgets_the_valid_flag() {
    let chip = Chip::default();
    let mut driver = driver(&chip);
    chip.set16(Reg16::Intsts0, 0x0008);
    driver.on_interrupt();
    let mut io = Mmio::new(chip.clone());
    Driver::<Chip>::clear_capture_state_static(&mut io);
    assert!(!driver.irq_pending());
    assert!(driver.take_events().is_empty());
    driver.on_interrupt();
    let event = driver.take_events();
    assert!(event.valid_rising);
    assert_eq!(event.seqno, 2);
}

#[test]
fn captured_flags_agree_with_the_register_definition() {
    for raw in 0..=0xffffu16 {
        let status = ra4m1_ctpac::usbfs::regs::Intsts0(raw);
        let mut kept = ra4m1_ctpac::usbfs::regs::Intsts0::default();
        kept.set_dvsq(status.dvsq());
        kept.set_resm(status.resm());
        kept.set_sofr(status.sofr());
        kept.set_dvst(status.dvst());
        kept.set_ctrt(status.ctrt());
        assert_eq!(raw & CAPTURED_INTSTS0, kept.0);
    }
}
