//! The serial port program.

use ra4_hal::cdc::{
    attach_settle_pause, boot_pause, decode_state, encode_state, lock_prcr, log_state,
    quickstart_sckdivcr, setup_pll_48mhz, unlock_prcr, ClockTimeout, Echo, EchoAction, Monitor,
    UsbDeviceState,
};
use ra4_hal::usb::endpoint::UsbError;
use ra4_hal::mmio::{Access, IrqOp, Mmio, Reg16, Reg32, Reg8, Shadow};
use ra4_hal::usb::{Instance, UsbIrqEvent, UsbIrqLocalState};
use std::cell::RefCell;
use std::rc::Rc;

/// What the simulated chip holds.
#[derive(Default)]
struct Cells {
    log: Vec<Access>,
    quiet: bool,
    memory8: Vec<(Reg8, u8)>,
    memory16: Vec<(Reg16, u16)>,
    memory32: Vec<(Reg32, u32)>,
    script8: Vec<(Reg8, u8)>,
    script16: Vec<(Reg16, u16)>,
    fixed16: Vec<(Reg16, u16)>,
    fixed32: Vec<(Reg32, u32)>,
    shadow: [u16; 3],
    pending: bool,
    latched: UsbIrqEvent,
    local: UsbIrqLocalState,
}

/// A chip whose registers read as what was written last, unless a test says otherwise.
#[derive(Clone, Default)]
struct Chip(Rc<RefCell<Cells>>);

#[allow(dead_code)]
impl Chip {
    fn log(&self) -> Vec<Access> {
        self.0.borrow().log.clone()
    }
    fn forget(&self) {
        self.0.borrow_mut().log.clear();
    }
    fn quiet(&self) {
        self.0.borrow_mut().quiet = true;
    }
    /// The register reads as `value` for good.
    fn fix16(&self, reg: Reg16, value: u16) {
        self.0.borrow_mut().fixed16.retain(|e| e.0 != reg);
        self.0.borrow_mut().fixed16.push((reg, value));
    }
    fn stick32(&self, reg: Reg32, value: u32) {
        self.0.borrow_mut().fixed32.push((reg, value));
    }
    fn unfix16(&self, reg: Reg16) {
        self.0.borrow_mut().fixed16.retain(|e| e.0 != reg);
    }
    /// The next read of the register returns `value`.
    fn next16(&self, reg: Reg16, value: u16) {
        self.0.borrow_mut().script16.push((reg, value));
    }
    fn next8(&self, reg: Reg8, value: u8) {
        self.0.borrow_mut().script8.push((reg, value));
    }
    fn set8(&self, reg: Reg8, value: u8) {
        self.0.borrow_mut().memory8.retain(|e| e.0 != reg);
        self.0.borrow_mut().memory8.push((reg, value));
    }
    fn set16(&self, reg: Reg16, value: u16) {
        self.0.borrow_mut().memory16.retain(|e| e.0 != reg);
        self.0.borrow_mut().memory16.push((reg, value));
    }
    fn set32(&self, reg: Reg32, value: u32) {
        self.0.borrow_mut().memory32.retain(|e| e.0 != reg);
        self.0.borrow_mut().memory32.push((reg, value));
    }
    fn get16(&self, reg: Reg16) -> u16 {
        let cells = self.0.borrow();
        cells.memory16.iter().find(|e| e.0 == reg).map_or(0, |e| e.1)
    }
    fn note(&self, access: Access) {
        let mut cells = self.0.borrow_mut();
        if !cells.quiet {
            cells.log.push(access);
        }
    }
}

impl Instance for Chip {
    fn read8(&mut self, reg: Reg8) -> u8 {
        let mut cells = self.0.borrow_mut();
        let value = match cells.script8.iter().position(|e| e.0 == reg) {
            Some(at) => cells.script8.remove(at).1,
            None => cells.memory8.iter().find(|e| e.0 == reg).map_or(0, |e| e.1),
        };
        drop(cells);
        self.note(Access::Read8 { reg, value });
        value
    }
    fn write8(&mut self, reg: Reg8, value: u8) {
        self.set8(reg, value);
        self.note(Access::Write8 { reg, value });
    }
    fn read16(&mut self, reg: Reg16) -> u16 {
        let mut cells = self.0.borrow_mut();
        let value = match cells.script16.iter().position(|e| e.0 == reg) {
            Some(at) => cells.script16.remove(at).1,
            None => match cells.fixed16.iter().find(|e| e.0 == reg) {
                Some(e) => e.1,
                None => cells.memory16.iter().find(|e| e.0 == reg).map_or(0, |e| e.1),
            },
        };
        drop(cells);
        self.note(Access::Read16 { reg, value });
        value
    }
    fn write16(&mut self, reg: Reg16, value: u16) {
        self.set16(reg, value);
        self.note(Access::Write16 { reg, value });
    }
    fn read32(&mut self, reg: Reg32) -> u32 {
        let cells = self.0.borrow();
        let value = match cells.fixed32.iter().find(|e| e.0 == reg) {
            Some(e) => e.1,
            None => cells.memory32.iter().find(|e| e.0 == reg).map_or(0, |e| e.1),
        };
        drop(cells);
        self.note(Access::Read32 { reg, value });
        value
    }
    fn write32(&mut self, reg: Reg32, value: u32) {
        self.set32(reg, value);
        self.note(Access::Write32 { reg, value });
    }
    fn wait8(&mut self, reg: Reg8, mask: u8, value: u8) {
        self.note(Access::Wait8 { reg, mask, value });
    }
    fn wait16(&mut self, reg: Reg16, mask: u16, value: u16) {
        self.note(Access::Wait16 { reg, mask, value });
    }
    fn delay(&mut self, cycles: u32) {
        self.note(Access::Delay { cycles });
    }
    fn irq(&mut self, op: IrqOp) {
        self.note(Access::Irq { op });
    }
    fn enter(&mut self) {
        self.note(Access::Enter);
    }
    fn leave(&mut self) {
        self.note(Access::Leave);
    }
    fn load_shadow(&mut self, which: Shadow) -> u16 {
        let value = self.0.borrow().shadow[which as usize];
        self.note(Access::LoadShadow { which, value });
        value
    }
    fn store_shadow(&mut self, which: Shadow, value: u16) {
        self.0.borrow_mut().shadow[which as usize] = value;
        self.note(Access::StoreShadow { which, value });
    }
    fn load_pending(&mut self) -> bool {
        let value = self.0.borrow().pending;
        self.note(Access::LoadPending { value });
        value
    }
    fn store_pending(&mut self, value: bool) {
        self.0.borrow_mut().pending = value;
        self.note(Access::StorePending { value });
    }
    fn load_latched(&mut self) -> UsbIrqEvent {
        let value = self.0.borrow().latched;
        self.note(Access::LoadLatched { value });
        value
    }
    fn store_latched(&mut self, value: UsbIrqEvent) {
        self.0.borrow_mut().latched = value;
        self.note(Access::StoreLatched { value });
    }
    fn load_local(&mut self) -> UsbIrqLocalState {
        let value = self.0.borrow().local;
        self.note(Access::LoadLocal { value });
        value
    }
    fn store_local(&mut self, value: UsbIrqLocalState) {
        self.0.borrow_mut().local = value;
        self.note(Access::StoreLocal { value });
    }
}

fn running_chip() -> (Chip, Mmio<Chip>) {
    let chip = Chip::default();
    chip.set8(Reg8::Oscsf, 0x29);
    let io = Mmio::new(chip.clone());
    (chip, io)
}

#[test]
fn state_codes() {
    assert_eq!(encode_state(UsbDeviceState::Default), 0);
    assert_eq!(encode_state(UsbDeviceState::Addressed), 1);
    assert_eq!(encode_state(UsbDeviceState::Configured), 2);
    assert_eq!(encode_state(UsbDeviceState::Suspend), 3);
    for code in 0..4u8 {
        assert_eq!(encode_state(decode_state(code).unwrap()), code);
    }
    for code in 4..=255u8 {
        assert_eq!(decode_state(code), None);
    }
}

#[test]
fn state_lines() {
    assert_eq!(log_state(UsbDeviceState::Default), "usb state=Default");
    assert_eq!(log_state(UsbDeviceState::Addressed), "usb state=Addressed");
    assert_eq!(log_state(UsbDeviceState::Configured), "usb state=Configured");
    assert_eq!(log_state(UsbDeviceState::Suspend), "usb state=Suspend");
}

#[test]
fn dividers_for_the_pll() {
    let expected = (1u32) << 28 | (0u32) << 24 | (1u32) << 16 | (0u32) << 12 | (1u32) << 8;
    assert_eq!(quickstart_sckdivcr(), expected);
    assert_eq!(quickstart_sckdivcr(), 0x1001_0100);
}

#[test]
fn protection_values_agree_with_the_register_definition() {
    let (chip, mut io) = running_chip();
    unlock_prcr(&mut io);
    lock_prcr(&mut io);
    let mut open = ra4m1_ctpac::system::regs::Prcr::default();
    open.set_prkey(ra4m1_ctpac::system::vals::Prkey::PROTECT_KEY);
    open.set_prc0(ra4m1_ctpac::system::vals::Prc0::NotProtected);
    open.set_prc1(ra4m1_ctpac::system::vals::Prc1::NotProtected);
    let mut closed = ra4m1_ctpac::system::regs::Prcr::default();
    closed.set_prkey(ra4m1_ctpac::system::vals::Prkey::PROTECT_KEY);
    closed.set_prc0(ra4m1_ctpac::system::vals::Prc0::Protected);
    closed.set_prc1(ra4m1_ctpac::system::vals::Prc1::Protected);
    assert_eq!(
        chip.log(),
        vec![
            Access::Write16 { reg: Reg16::Prcr, value: open.0 },
            Access::Write16 { reg: Reg16::Prcr, value: closed.0 },
        ]
    );
}

#[test]
fn pauses() {
    let (chip, mut io) = running_chip();
    boot_pause(&mut io);
    attach_settle_pause(&mut io);
    assert_eq!(
        chip.log(),
        vec![Access::Delay { cycles: 4_800_000 }, Access::Delay { cycles: 480_000 }]
    );
}

#[test]
fn pll_comes_up_from_running_oscillators() {
    let (chip, mut io) = running_chip();
    chip.set8(Reg8::Hococr, 0xff);
    chip.next8(Reg8::Opccr, 0xef);
    chip.set8(Reg8::Memwait, 0x80);
    chip.set8(Reg8::Sckscr, 0xfa);
    assert_eq!(setup_pll_48mhz(&mut io), Ok(()));
    assert_eq!(
        chip.log(),
        vec![
            Access::Write16 { reg: Reg16::Prcr, value: 0xA503 },
            Access::Read8 { reg: Reg8::Hococr, value: 0xff },
            Access::Write8 { reg: Reg8::Hococr, value: 0xfe },
            Access::Read8 { reg: Reg8::Oscsf, value: 0x29 },
            Access::Read8 { reg: Reg8::Opccr, value: 0xef },
            Access::Write8 { reg: Reg8::Opccr, value: 0xec },
            Access::Read8 { reg: Reg8::Opccr, value: 0xec },
            Access::Read8 { reg: Reg8::Mosccr, value: 0 },
            Access::Read8 { reg: Reg8::Oscsf, value: 0x29 },
            Access::Read8 { reg: Reg8::Pllcr, value: 0 },
            Access::Read8 { reg: Reg8::Oscsf, value: 0x29 },
            Access::Read8 { reg: Reg8::Memwait, value: 0x80 },
            Access::Write8 { reg: Reg8::Memwait, value: 0x81 },
            Access::Write32 { reg: Reg32::Sckdivcr, value: 0x1001_0100 },
            Access::Read8 { reg: Reg8::Sckscr, value: 0xfa },
            Access::Write8 { reg: Reg8::Sckscr, value: 0xfd },
            Access::Write16 { reg: Reg16::Prcr, value: 0xA500 },
        ]
    );
}

#[test]
fn pll_comes_up_from_stopped_oscillators() {
    let (chip, mut io) = running_chip();
    chip.next8(Reg8::Mosccr, 1);
    chip.set8(Reg8::Momcr, 0xff);
    chip.next8(Reg8::Pllcr, 1);
    assert_eq!(setup_pll_48mhz(&mut io), Ok(()));
    let log = chip.log();
    let from = log
        .iter()
        .position(|a| *a == Access::Read8 { reg: Reg8::Mosccr, value: 1 })
        .unwrap();
    assert_eq!(
        log[from..from + 13].to_vec(),
        vec![
            Access::Read8 { reg: Reg8::Mosccr, value: 1 },
            Access::Wait8 { reg: Reg8::Oscsf, mask: 0x08, value: 0 },
            Access::Read8 { reg: Reg8::Momcr, value: 0xff },
            Access::Write8 { reg: Reg8::Momcr, value: 0xb7 },
            Access::Write8 { reg: Reg8::Moscwtcr, value: 0x09 },
            Access::Read8 { reg: Reg8::Mosccr, value: 0 },
            Access::Write8 { reg: Reg8::Mosccr, value: 0 },
            Access::Read8 { reg: Reg8::Oscsf, value: 0x29 },
            Access::Read8 { reg: Reg8::Pllcr, value: 1 },
            Access::Write8 { reg: Reg8::Pllccr2, value: 0x47 },
            Access::Delay { cycles: 64 },
            Access::Write8 { reg: Reg8::Pllcr, value: 0 },
            Access::Read8 { reg: Reg8::Oscsf, value: 0x29 },
        ]
    );
}

#[test]
fn oscillator_fields_agree_with_the_register_definition() {
    let flags = ra4m1_ctpac::system::regs::Oscsf(0x29);
    assert!(flags.hocosf() && flags.moscsf() && flags.pllsf());
    let mut momcr = ra4m1_ctpac::system::regs::Momcr(0xff);
    momcr.set_mosel(false);
    momcr.set_modrv1(false);
    assert_eq!(momcr.0, 0xb7);
    let mut sckscr = ra4m1_ctpac::system::regs::Sckscr(0xfa);
    sckscr.set_cksel(ra4m1_ctpac::system::vals::Cksel::Pll);
    assert_eq!(sckscr.0, 0xfd);
    let mut opccr = ra4m1_ctpac::system::regs::Opccr(0xef);
    opccr.set_opcm(ra4m1_ctpac::system::vals::Opcm::HighSpeed);
    assert_eq!(opccr.0, 0xec);
    assert!(!opccr.opcmtsf());
    let mut memwait = ra4m1_ctpac::system::regs::Memwait(0x80);
    memwait.set_memwait(true);
    assert_eq!(memwait.0, 0x81);
}

#[test]
fn hoco_timeout() {
    let (chip, mut io) = running_chip();
    chip.set8(Reg8::Oscsf, 0x28);
    assert_eq!(setup_pll_48mhz(&mut io), Err(ClockTimeout::Hoco));
    let log = chip.log();
    assert_eq!(log.len(), 1 + 2 + 100_000 + 1);
    assert_eq!(log[log.len() - 1], Access::Write16 { reg: Reg16::Prcr, value: 0xA500 });
    assert_eq!(ClockTimeout::Hoco.message(), "HOCO timeout");
}

#[test]
fn opcm_timeout() {
    let (chip, mut io) = running_chip();
    chip.set8(Reg8::Opccr, 0x10);
    assert_eq!(setup_pll_48mhz(&mut io), Err(ClockTimeout::Opcm));
    let log = chip.log();
    assert_eq!(log.len(), 1 + 2 + 1 + 2 + 100_000 + 1);
    assert_eq!(log[log.len() - 1], Access::Write16 { reg: Reg16::Prcr, value: 0xA500 });
    assert_eq!(ClockTimeout::Opcm.message(), "OPCM timeout");
}

#[test]
fn mosc_timeout() {
    let (chip, mut io) = running_chip();
    chip.quiet();
    chip.set8(Reg8::Oscsf, 0x21);
    assert_eq!(setup_pll_48mhz(&mut io), Err(ClockTimeout::Mosc));
    assert_eq!(chip.get16(Reg16::Prcr), 0xA500);
    assert_eq!(ClockTimeout::Mosc.message(), "MOSC timeout");
}

#[test]
fn pll_timeout() {
    let (chip, mut io) = running_chip();
    chip.set8(Reg8::Oscsf, 0x09);
    assert_eq!(setup_pll_48mhz(&mut io), Err(ClockTimeout::Pll));
    let log = chip.log();
    assert_eq!(log[log.len() - 1], Access::Write16 { reg: Reg16::Prcr, value: 0xA500 });
    assert!(!log.iter().any(|a| matches!(a, Access::Write32 { .. })));
    assert_eq!(ClockTimeout::Pll.message(), "PLL timeout");
}

#[test]
fn monitor_reports_changes_once() {
    let mut monitor = Monitor::new();
    assert_eq!(monitor.observe_state(0xff), None);
    assert_eq!(monitor.observe_state(0), None);
    assert_eq!(monitor.observe_state(1), Some(UsbDeviceState::Addressed));
    assert_eq!(monitor.observe_state(1), None);
    assert_eq!(monitor.observe_state(9), None);
    assert_eq!(monitor.observe_state(2), Some(UsbDeviceState::Configured));
    assert_eq!(monitor.observe_dtr(false), None);
    assert_eq!(monitor.observe_dtr(true), Some(true));
    assert_eq!(monitor.observe_dtr(true), None);
    assert_eq!(monitor.observe_dtr(false), Some(false));
    assert_eq!(monitor.last_state, UsbDeviceState::Configured);
}

#[test]
fn echo_listens_only_to_a_ready_host() {
    let echo = Echo::new();
    assert_eq!(echo.next_action(false), EchoAction::Wait);
    assert_eq!(echo.next_action(true), EchoAction::Read);
}

#[test]
fn echo_returns_what_it_read() {
    let mut echo = Echo::new();
    let mut buf = [0u8; 64];
    buf[..5].copy_from_slice(b"hello");
    echo.on_read(buf, Ok(5));
    assert_eq!(echo.next_action(true), EchoAction::Write);
    assert_eq!(echo.next_action(false), EchoAction::Write);
    let mut back = Vec::new();
    assert_eq!(echo.rest(), b"hello");
    back.extend_from_slice(&echo.rest()[..2]);
    echo.on_write(Ok(2));
    assert_eq!(echo.rest(), b"llo");
    echo.on_write(Ok(0));
    echo.on_write(Err(UsbError::WouldBlock));
    assert_eq!(echo.rest(), b"llo");
    back.extend_from_slice(echo.rest());
    echo.on_write(Ok(3));
    assert_eq!(back, b"hello");
    assert!(echo.rest().is_empty());
    assert_eq!(echo.next_action(true), EchoAction::Read);
}

#[test]
fn echo_takes_a_full_buffer() {
    let mut echo = Echo::new();
    echo.on_read([0x55; 64], Ok(64));
    assert_eq!(echo.rest(), &[0x55u8; 64][..]);
    echo.on_write(Ok(64));
    assert!(echo.rest().is_empty());
}

#[test]
fn echo_ignores_failed_and_empty_reads() {
    let mut echo = Echo::new();
    echo.on_read([1; 64], Err(UsbError::WouldBlock));
    assert!(echo.rest().is_empty());
    echo.on_read([1; 64], Ok(0));
    assert!(echo.rest().is_empty());
    assert_eq!(echo.next_action(true), EchoAction::Read);
}

#[test]
fn echo_drops_what_cannot_be_sent() {
    let mut echo = Echo::new();
    echo.on_read([1; 64], Ok(10));
    echo.on_write(Ok(4));
    echo.on_write(Err(UsbError::InvalidEndpoint));
    assert!(echo.rest().is_empty());
    assert_eq!(echo.next_action(false), EchoAction::Wait);
}
