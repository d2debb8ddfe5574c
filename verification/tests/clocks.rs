//! Clock set-up.

use ra4_hal::clocks::{
    divide_clocks, reset_cause, ClockReport, HocoFrequency, InitOptions, InitReport,
    ReservedClockValue, UnsupportedHoco,
};
use ra4_hal::{clock_config, init, print_clock_config, ClockConfig, ResetCause};
use ra4_hal::mmio::{Access, IrqOp, Mmio, Reg16, Reg32, Reg8, Shadow};
use ra4_hal::usb::{Instance, UsbIrqEvent, UsbIrqLocalState};
use std::cell::RefCell;
use std::rc::Rc;

/// What the simulated chip holds.
#[derive(Default)]
struct Cells {
    log: Vec<Access>,
    quiet: bool,
    memory8: Vec<(Reg8, u8)>,
    memory16: Vec<(Reg16, u16)>,
    memory32: Vec<(Reg32, u32)>,
    script8: Vec<(Reg8, u8)>,
    script16: Vec<(Reg16, u16)>,
    fixed16: Vec<(Reg16, u16)>,
    fixed32: Vec<(Reg32, u32)>,
    shadow: [u16; 3],
    pending: bool,
    latched: UsbIrqEvent,
    local: UsbIrqLocalState,
}

/// A chip whose registers read as what was written last, unless a test says otherwise.
#[derive(Clone, Default)]
struct Chip(Rc<RefCell<Cells>>);

#[allow(dead_code)]
impl Chip {
    fn log(&self) -> Vec<Access> {
        self.0.borrow().log.clone()
    }
    fn forget(&self) {
        self.0.borrow_mut().log.clear();
    }
    fn quiet(&self) {
        self.0.borrow_mut().quiet = true;
    }
    /// The register reads as `value` for good.
    fn fix16(&self, reg: Reg16, value: u16) {
        self.0.borrow_mut().fixed16.retain(|e| e.0 != reg);
        self.0.borrow_mut().fixed16.push((reg, value));
    }
    fn stick32(&self, reg: Reg32, value: u32) {
        self.0.borrow_mut().fixed32.push((reg, value));
    }
    fn unfix16(&self, reg: Reg16) {
        self.0.borrow_mut().fixed16.retain(|e| e.0 != reg);
    }
    /// The next read of the register returns `value`.
    fn next16(&self, reg: Reg16, value: u16) {
        self.0.borrow_mut().script16.push((reg, value));
    }
    fn next8(&self, reg: Reg8, value: u8) {
        self.0.borrow_mut().script8.push((reg, value));
    }
    fn set8(&self, reg: Reg8, value: u8) {
        self.0.borrow_mut().memory8.retain(|e| e.0 != reg);
        self.0.borrow_mut().memory8.push((reg, value));
    }
    fn set16(&self, reg: Reg16, value: u16) {
        self.0.borrow_mut().memory16.retain(|e| e.0 != reg);
        self.0.borrow_mut().memory16.push((reg, value));
    }
    fn set32(&self, reg: Reg32, value: u32) {
        self.0.borrow_mut().memory32.retain(|e| e.0 != reg);
        self.0.borrow_mut().memory32.push((reg, value));
    }
    fn get16(&self, reg: Reg16) -> u16 {
        let cells = self.0.borrow();
        cells.memory16.iter().find(|e| e.0 == reg).map_or(0, |e| e.1)
    }
    fn note(&self, access: Access) {
        let mut cells = self.0.borrow_mut();
        if !cells.quiet {
            cells.log.push(access);
        }
    }
}

impl Instance for Chip {
    fn read8(&mut self, reg: Reg8) -> u8 {
        let mut cells = self.0.borrow_mut();
        let value = match cells.script8.iter().position(|e| e.0 == reg) {
            Some(at) => cells.script8.remove(at).1,
            None => cells.memory8.iter().find(|e| e.0 == reg).map_or(0, |e| e.1),
        };
        drop(cells);
        self.note(Access::Read8 { reg, value });
        value
    }
    fn write8(&mut self, reg: Reg8, value: u8) {
        self.set8(reg, value);
        self.note(Access::Write8 { reg, value });
    }
    fn read16(&mut self, reg: Reg16) -> u16 {
        let mut cells = self.0.borrow_mut();
        let value = match cells.script16.iter().position(|e| e.0 == reg) {
            Some(at) => cells.script16.remove(at).1,
            None => match cells.fixed16.iter().find(|e| e.0 == reg) {
                Some(e) => e.1,
                None => cells.memory16.iter().find(|e| e.0 == reg).map_or(0, |e| e.1),
            },
        };
        drop(cells);
        self.note(Access::Read16 { reg, value });
        value
    }
    fn write16(&mut self, reg: Reg16, value: u16) {
        self.set16(reg, value);
        self.note(Access::Write16 { reg, value });
    }
    fn read32(&mut self, reg: Reg32) -> u32 {
        let cells = self.0.borrow();
        let value = match cells.fixed32.iter().find(|e| e.0 == reg) {
            Some(e) => e.1,
            None => cells.memory32.iter().find(|e| e.0 == reg).map_or(0, |e| e.1),
        };
        drop(cells);
        self.note(Access::Read32 { reg, value });
        value
    }
    fn write32(&mut self, reg: Reg32, value: u32) {
        self.set32(reg, value);
        self.note(Access::Write32 { reg, value });
    }
    fn wait8(&mut self, reg: Reg8, mask: u8, value: u8) {
        self.note(Access::Wait8 { reg, mask, value });
    }
    fn wait16(&mut self, reg: Reg16, mask: u16, value: u16) {
        self.note(Access::Wait16 { reg, mask, value });
    }
    fn delay(&mut self, cycles: u32) {
        self.note(Access::Delay { cycles });
    }
    fn irq(&mut self, op: IrqOp) {
        self.note(Access::Irq { op });
    }
    fn enter(&mut self) {
        self.note(Access::Enter);
    }
    fn leave(&mut self) {
        self.note(Access::Leave);
    }
    fn load_shadow(&mut self, which: Shadow) -> u16 {
        let value = self.0.borrow().shadow[which as usize];
        self.note(Access::LoadShadow { which, value });
        value
    }
    fn store_shadow(&mut self, which: Shadow, value: u16) {
        self.0.borrow_mut().shadow[which as usize] = value;
        self.note(Access::StoreShadow { which, value });
    }
    fn load_pending(&mut self) -> bool {
        let value = self.0.borrow().pending;
        self.note(Access::LoadPending { value });
        value
    }
    fn store_pending(&mut self, value: bool) {
        self.0.borrow_mut().pending = value;
        self.note(Access::StorePending { value });
    }
    fn load_latched(&mut self) -> UsbIrqEvent {
        let value = self.0.borrow().latched;
        self.note(Access::LoadLatched { value });
        value
    }
    fn store_latched(&mut self, value: UsbIrqEvent) {
        self.0.borrow_mut().latched = value;
        self.note(Access::StoreLatched { value });
    }
    fn load_local(&mut self) -> UsbIrqLocalState {
        let value = self.0.borrow().local;
        self.note(Access::LoadLocal { value });
        value
    }
    fn store_local(&mut self, value: UsbIrqLocalState) {
        self.0.borrow_mut().local = value;
        self.note(Access::StoreLocal { value });
    }
}

fn options() -> InitOptions {
    InitOptions { cache: false, diag: false, target: HocoFrequency::Mhz48 }
}

fn chip_at(hococr2: u8) -> (Chip, Mmio<Chip>) {
    let chip = Chip::default();
    chip.set8(Reg8::Hococr2, hococr2);
    let io = Mmio::new(chip.clone());
    (chip, io)
}

#[test]
fn oscillator_frequencies() {
    assert_eq!(HocoFrequency::decode(0x00), Some(HocoFrequency::Mhz24));
    assert_eq!(HocoFrequency::decode(0x10), Some(HocoFrequency::Mhz32));
    assert_eq!(HocoFrequency::decode(0x20), Some(HocoFrequency::Mhz48));
    assert_eq!(HocoFrequency::decode(0x28), Some(HocoFrequency::Mhz64));
    assert_eq!(HocoFrequency::decode(0x08), None);
    assert_eq!(HocoFrequency::decode(0x18), None);
    assert_eq!(HocoFrequency::decode(0x30), None);
    assert_eq!(HocoFrequency::decode(0x38), None);
    assert_eq!(HocoFrequency::Mhz24.hz(), 24_000_000);
    assert_eq!(HocoFrequency::Mhz32.hz(), 32_000_000);
    assert_eq!(HocoFrequency::Mhz48.hz(), 48_000_000);
    assert_eq!(HocoFrequency::Mhz64.hz(), 64_000_000);
}

#[test]
fn oscillator_frequency_agrees_with_the_register_definition() {
    for raw in 0..=255u8 {
        let code = ra4m1_ctpac::system::regs::Hococr2(raw).hcfrqw().to_bits();
        let expected = match code {
            0 => Some(HocoFrequency::Mhz24),
            2 => Some(HocoFrequency::Mhz32),
            4 => Some(HocoFrequency::Mhz48),
            5 => Some(HocoFrequency::Mhz64),
            _ => None,
        };
        assert_eq!(HocoFrequency::decode(raw), expected);
    }
}

#[test]
fn reset_causes() {
    assert_eq!(reset_cause(0x01, 0xffff), ResetCause::PowerOn);
    assert_eq!(reset_cause(0x02, 0xffff), ResetCause::LowVoltage);
    assert_eq!(reset_cause(0x04, 0), ResetCause::LowVoltage);
    assert_eq!(reset_cause(0x08, 0), ResetCause::LowVoltage);
    assert_eq!(reset_cause(0xf0, 0x0001), ResetCause::Watchdog);
    assert_eq!(reset_cause(0, 0x1f06), ResetCause::Watchdog);
    assert_eq!(reset_cause(0, 0x1104), ResetCause::HadwareError);
    assert_eq!(reset_cause(0, 0x0200), ResetCause::HadwareError);
    assert_eq!(reset_cause(0, 0x0400), ResetCause::HadwareError);
    assert_eq!(reset_cause(0, 0x0800), ResetCause::HadwareError);
    assert_eq!(reset_cause(0, 0x1004), ResetCause::StackPointer);
    assert_eq!(reset_cause(0, 0x0004), ResetCause::SoftwareReset);
    assert_eq!(reset_cause(0, 0), ResetCause::Unknown);
    assert_eq!(reset_cause(0, 0x20f8), ResetCause::Unknown);
}

#[test]
fn reset_cause_agrees_with_the_register_definition() {
    for low in 0..16u8 {
        for raw in 0..=0xffffu16 {
            let status_0 = ra4m1_ctpac::system::regs::Rstsr0(low);
            let status_1 = ra4m1_ctpac::system::regs::Rstsr1(raw);
            let expected = if status_0.porf() {
                ResetCause::PowerOn
            } else if status_0.lvd0rf() || status_0.lvd1rf() || status_0.lvd2rf() {
                ResetCause::LowVoltage
            } else if status_1.wdtrf() || status_1.iwdtrf() {
                ResetCause::Watchdog
            } else if status_1.rperf() || status_1.reerf() || status_1.bussrf() || status_1.busmrf()
            {
                ResetCause::HadwareError
            } else if status_1.sperf() {
                ResetCause::StackPointer
            } else if status_1.swrf() {
                ResetCause::SoftwareReset
            } else {
                ResetCause::Unknown
            };
            assert_eq!(reset_cause(low, raw), expected);
        }
    }
}

#[test]
fn dividers_are_powers_of_two() {
    let config = divide_clocks(HocoFrequency::Mhz64, 0x6504_3210 & 0x7700_7777).unwrap();
    assert_eq!(config.flash, 1_000_000);
    assert_eq!(config.system, 2_000_000);
    assert_eq!(config.peripheral_a, 8_000_000);
    assert_eq!(config.peripheral_b, 16_000_000);
    assert_eq!(config.peripheral_c, 32_000_000);
    assert_eq!(config.peripheral_d, 64_000_000);
    let config = divide_clocks(HocoFrequency::Mhz64, 0x0000_4000).unwrap();
    assert_eq!(config.peripheral_a, 4_000_000);
}

#[test]
fn reserved_dividers_give_no_configuration() {
    for shift in [0u32, 4, 8, 12, 24, 28] {
        assert_eq!(divide_clocks(HocoFrequency::Mhz48, 7 << shift), None);
    }
    assert!(divide_clocks(HocoFrequency::Mhz48, 0x0077_8888).is_some());
}

#[test]
fn dividers_agree_with_the_register_definition() {
    for code in 0..7u32 {
        for shift in [0u32, 4, 8, 12, 24, 28] {
            let raw = code << shift;
            let fields = ra4m1_ctpac::system::regs::Sckdivcr(raw);
            let config = divide_clocks(HocoFrequency::Mhz64, raw).unwrap();
            assert_eq!(config.system, 64_000_000 >> fields.ick().to_bits());
            assert_eq!(config.flash, 64_000_000 >> fields.fck().to_bits());
            assert_eq!(config.peripheral_a, 64_000_000 >> fields.pcka().to_bits());
            assert_eq!(config.peripheral_b, 64_000_000 >> fields.pckb().to_bits());
            assert_eq!(config.peripheral_c, 64_000_000 >> fields.pckc().to_bits());
            assert_eq!(config.peripheral_d, 64_000_000 >> fields.pckd().to_bits());
        }
    }
}

#[test]
fn clock_config_reads_frequency_and_dividers() {
    let (chip, mut io) = chip_at(0x20);
    chip.set32(Reg32::Sckdivcr, 0x1000_0100);
    let config = clock_config(&mut io).unwrap();
    assert_eq!(
        config,
        ClockConfig {
            system: 48_000_000,
            flash: 24_000_000,
            peripheral_a: 48_000_000,
            peripheral_b: 24_000_000,
            peripheral_c: 48_000_000,
            peripheral_d: 48_000_000,
        }
    );
    assert_eq!(
        chip.log(),
        vec![
            Access::Read8 { reg: Reg8::Hococr2, value: 0x20 },
            Access::Read32 { reg: Reg32::Sckdivcr, value: 0x1000_0100 },
        ]
    );
}

#[test]
fn clock_config_stops_at_a_reserved_frequency() {
    let (chip, mut io) = chip_at(0x38);
    assert_eq!(clock_config(&mut io), None);
    assert_eq!(chip.log(), vec![Access::Read8 { reg: Reg8::Hococr2, value: 0x38 }]);
    assert_eq!(print_clock_config(&mut io, true), Err(ReservedClockValue));
}

#[test]
fn printed_configuration_is_in_megahertz() {
    let (chip, mut io) = chip_at(0x28);
    chip.set32(Reg32::Sckdivcr, 0x1100_1100);
    chip.set8(Reg8::Sckscr, 0xfd);
    let report = print_clock_config(&mut io, true).unwrap().unwrap();
    assert_eq!(
        report,
        ClockReport {
            source: 5,
            system: 32,
            flash: 32,
            peripheral_a: 32,
            peripheral_b: 32,
            peripheral_c: 64,
            peripheral_d: 64,
        }
    );
}

#[test]
fn set_up_at_48_mhz() {
    let (chip, mut io) = chip_at(0x20);
    chip.set32(Reg32::Sckdivcr, 0xffff_ffff);
    let report = init(&mut io, options()).unwrap();
    assert_eq!(
        report,
        InitReport {
            reset_cause: None,
            hoco_started: false,
            hoco: HocoFrequency::Mhz48,
            on_target: true,
        }
    );
    assert_eq!(
        chip.log(),
        vec![
            Access::Enter,
            Access::Write16 { reg: Reg16::Prcr, value: 0xA503 },
            Access::Read8 { reg: Reg8::Hococr, value: 0 },
            Access::Read8 { reg: Reg8::Hococr2, value: 0x20 },
            Access::Write8 { reg: Reg8::Opccr, value: 0 },
            Access::Wait8 { reg: Reg8::Opccr, mask: 0x10, value: 0 },
            Access::Write8 { reg: Reg8::Memwait, value: 1 },
            Access::Write8 { reg: Reg8::Sckscr, value: 0 },
            Access::Write16 { reg: Reg16::Fcacheiv, value: 1 },
            Access::Write16 { reg: Reg16::Fcachee, value: 0 },
            Access::Read32 { reg: Reg32::Sckdivcr, value: 0xffff_ffff },
            Access::Write32 { reg: Reg32::Sckdivcr, value: 0x98ff_8988 },
            Access::Write16 { reg: Reg16::Prcr, value: 0xA500 },
            Access::Leave,
        ]
    );
}

#[test]
fn set_up_at_32_mhz_with_cache_and_stopped_oscillator() {
    let (chip, mut io) = chip_at(0x10);
    chip.next8(Reg8::Hococr, 1);
    chip.set8(Reg8::Rstsr0, 0x00);
    chip.set16(Reg16::Rstsr1, 0x0004);
    let report =
        init(&mut io, InitOptions { cache: true, diag: true, target: HocoFrequency::Mhz48 })
            .unwrap();
    assert_eq!(
        report,
        InitReport {
            reset_cause: Some(ResetCause::SoftwareReset),
            hoco_started: true,
            hoco: HocoFrequency::Mhz32,
            on_target: false,
        }
    );
    assert_eq!(
        chip.log(),
        vec![
            Access::Enter,
            Access::Read8 { reg: Reg8::Rstsr0, value: 0 },
            Access::Read16 { reg: Reg16::Rstsr1, value: 4 },
            Access::Write16 { reg: Reg16::Prcr, value: 0xA503 },
            Access::Read8 { reg: Reg8::Hococr, value: 1 },
            Access::Write8 { reg: Reg8::Hococr, value: 0 },
            Access::Read8 { reg: Reg8::Hococr2, value: 0x10 },
            Access::Write8 { reg: Reg8::Opccr, value: 0 },
            Access::Wait8 { reg: Reg8::Opccr, mask: 0x10, value: 0 },
            Access::Write8 { reg: Reg8::Sckscr, value: 0 },
            Access::Write16 { reg: Reg16::Fcacheiv, value: 1 },
            Access::Wait16 { reg: Reg16::Fcacheiv, mask: 1, value: 0 },
            Access::Write16 { reg: Reg16::Fcachee, value: 1 },
            Access::Read32 { reg: Reg32::Sckdivcr, value: 0 },
            Access::Write32 { reg: Reg32::Sckdivcr, value: 0 },
            Access::Write16 { reg: Reg16::Prcr, value: 0xA500 },
            Access::Leave,
        ]
    );
}

#[test]
fn set_up_refuses_other_frequencies() {
    for hococr2 in [0x00u8, 0x08, 0x18, 0x30, 0x38] {
        let (chip, mut io) = chip_at(hococr2);
        assert_eq!(
            init(&mut io, options()),
            Err(UnsupportedHoco { reset_cause: None, hoco_started: false, hococr2 })
        );
        let log = chip.log();
        assert!(!log.iter().any(|a| matches!(a, Access::Write32 { .. })));
        assert_eq!(log[log.len() - 2], Access::Write16 { reg: Reg16::Prcr, value: 0xA500 });
        assert_eq!(log[log.len() - 1], Access::Leave);
    }
}

#[test]
fn failed_set_up_keeps_what_it_found() {
    let (chip, mut io) = chip_at(0x38);
    chip.next8(Reg8::Hococr, 1);
    chip.set8(Reg8::Rstsr0, 0x04);
    assert_eq!(
        init(&mut io, InitOptions { diag: true, ..options() }),
        Err(UnsupportedHoco {
            reset_cause: Some(ResetCause::LowVoltage),
            hoco_started: true,
            hococr2: 0x38,
        })
    );
}

#[test]
fn nothing_is_read_where_nothing_is_logged() {
    let (chip, mut io) = chip_at(0x38);
    assert_eq!(print_clock_config(&mut io, false), Ok(None));
    assert!(chip.log().is_empty());
}

#[test]
fn clocks_after_set_up_are_within_their_limits() {
    for (hococr2, iclk) in [(0x10u8, 32_000_000), (0x20, 48_000_000), (0x28, 32_000_000)] {
        let (chip, mut io) = chip_at(hococr2);
        chip.set32(Reg32::Sckdivcr, 0x4444_4444);
        assert!(init(&mut io, options()).is_ok());
        let config = clock_config(&mut io).unwrap();
        assert_eq!(config.system, iclk);
        assert!(config.system <= 48_000_000);
        assert!(config.flash <= 32_000_000);
        assert!(config.peripheral_a <= 48_000_000);
        assert!(config.peripheral_b <= 32_000_000);
        assert!(config.peripheral_c <= 64_000_000);
        assert!(config.peripheral_d <= 64_000_000);
    }
}
