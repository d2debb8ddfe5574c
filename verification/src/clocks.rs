//! Clock set-up at boot and the frequencies that follow from it.

use crate::mmio::{
    begins, grows, in16, in32, in8, rd16, rd32, rd8, wr16, wr32, wr8, Access, Instance, Log, Mmio,
    Reg16, Reg32, Reg8,
};
use crate::summary::{lemma_summary_push, summary, Summary};
use vstd::arithmetic::power2::{lemma2_to64, pow2};
use vstd::prelude::*;

verus! {

broadcast use lemma_summary_push;

/// Value of the protection register that opens the clock and module stop registers.
pub const PRCR_UNLOCK: u16 = 0xA503;

/// Value of the protection register that closes them.
pub const PRCR_LOCK: u16 = 0xA500;

/// Stop bit of the high-speed on-chip oscillator.
pub const HCSTP: u8 = 0x01;

/// Operating power control mode transition flag.
pub const OPCMTSF: u8 = 0x10;

/// Clock source field of the system clock source register.
pub const CKSEL: u8 = 0x07;

/// Bits of the system clock division register that hold a divider.
pub const SCKDIVCR_DIVIDERS: u32 = 0x7700_7777;

/// Frequency of the high-speed on-chip oscillator.
#[derive(Clone, Copy, Debug, PartialEq, Eq, Structural)]
pub enum HocoFrequency {
    Mhz24,
    Mhz32,
    Mhz48,
    Mhz64,
}

/// System clock configuration.
///
/// Assumes that the system clock is driven by the high-speed on-chip oscillator (HOCO).
#[derive(Clone, Copy, Debug, PartialEq, Eq, Structural)]
pub struct ClockConfig {
    /// System clock frequency (`ICLK`): CPU, DMAC, DTC, SRAM and flash memory.
    pub system: u32,
    /// Flash interface clock (`FCLK`).
    pub flash: u32,
    /// Peripheral clock A (`PCLKA`).
    pub peripheral_a: u32,
    /// Peripheral clock B (`PCLKB`).
    pub peripheral_b: u32,
    /// Peripheral clock C (`PCLKC`), the conversion clock of the ADC.
    pub peripheral_c: u32,
    /// Peripheral clock D (`PCLKD`), the count clock of the timers.
    pub peripheral_d: u32,
}

/// Coarse indication of why the processor reset.
#[derive(Clone, Copy, Debug, PartialEq, Eq, Structural)]
pub enum ResetCause {
    /// Power was turned on.
    PowerOn,
    /// Low voltage monitor 0, 1 or 2 tripped.
    LowVoltage,
    /// Watchdog or independent watchdog.
    Watchdog,
    /// Bus error, parity error or ECC error.
    HadwareError,
    /// Stack pointer error.
    StackPointer,
    /// Software reset requested.
    SoftwareReset,
    /// None of the flags is set.
    Unknown,
}

impl HocoFrequency {
    /// The frequency that a value of the oscillator control register 2 stands for, where it stands
    /// for one.
    pub open spec fn encoded_in(hococr2: u8) -> Option<HocoFrequency> {
        let code = (hococr2 >> 3) & 7;
        if code == 0 {
            Some(HocoFrequency::Mhz24)
        } else if code == 2 {
            Some(HocoFrequency::Mhz32)
        } else if code == 4 {
            Some(HocoFrequency::Mhz48)
        } else if code == 5 {
            Some(HocoFrequency::Mhz64)
        } else {
            None
        }
    }

    /// Decodes a value of the oscillator control register 2.
    pub fn decode(hococr2: u8) -> (r: Option<HocoFrequency>)
        ensures
            r == HocoFrequency::encoded_in(hococr2),
    {
        let code: u8 = (hococr2 >> 3) & 7;
        if code == 0 {
            Some(HocoFrequency::Mhz24)
        } else if code == 2 {
            Some(HocoFrequency::Mhz32)
        } else if code == 4 {
            Some(HocoFrequency::Mhz48)
        } else if code == 5 {
            Some(HocoFrequency::Mhz64)
        } else {
            None
        }
    }

    pub open spec fn hz_spec(self) -> u32 {
        match self {
            HocoFrequency::Mhz24 => 24_000_000,
            HocoFrequency::Mhz32 => 32_000_000,
            HocoFrequency::Mhz48 => 48_000_000,
            HocoFrequency::Mhz64 => 64_000_000,
        }
    }

    /// The frequency in hertz.
    #[verifier::when_used_as_spec(hz_spec)]
    pub fn hz(self) -> (r: u32)
        ensures
            r == self.hz_spec(),
    {
        match self {
            HocoFrequency::Mhz24 => 24_000_000,
            HocoFrequency::Mhz32 => 32_000_000,
            HocoFrequency::Mhz48 => 48_000_000,
            HocoFrequency::Mhz64 => 64_000_000,
        }
    }
}

/// The reset flags in the order in which they are looked at: power on, low voltage (3 flags),
/// watchdogs (2), memory and bus errors (4), stack pointer, software.
pub open spec fn reset_cause_of(rstsr0: u8, rstsr1: u16) -> ResetCause {
    if rstsr0 & 0x01 != 0 {
        ResetCause::PowerOn
    } else if rstsr0 & 0x0e != 0 {
        ResetCause::LowVoltage
    } else if rstsr1 & 0x0003 != 0 {
        ResetCause::Watchdog
    } else if rstsr1 & 0x0f00 != 0 {
        ResetCause::HadwareError
    } else if rstsr1 & 0x1000 != 0 {
        ResetCause::StackPointer
    } else if rstsr1 & 0x0004 != 0 {
        ResetCause::SoftwareReset
    } else {
        ResetCause::Unknown
    }
}

/// Why the processor reset, going by the two reset status registers.
pub fn reset_cause(rstsr0: u8, rstsr1: u16) -> (r: ResetCause)
    ensures
        r == reset_cause_of(rstsr0, rstsr1),
{
    if rstsr0 & 0x01 != 0 {
        ResetCause::PowerOn
    } else if rstsr0 & 0x0e != 0 {
        ResetCause::LowVoltage
    } else if rstsr1 & 0x0003 != 0 {
        ResetCause::Watchdog
    } else if rstsr1 & 0x0f00 != 0 {
        ResetCause::HadwareError
    } else if rstsr1 & 0x1000 != 0 {
        ResetCause::StackPointer
    } else if rstsr1 & 0x0004 != 0 {
        ResetCause::SoftwareReset
    } else {
        ResetCause::Unknown
    }
}

/// The divider field of the system clock division register that starts at bit `shift`.
pub open spec fn divider(sckdivcr: u32, shift: u32) -> u32 {
    (sckdivcr >> shift) & 7
}

/// A frequency divided by the power of two that a divider field stands for. One code is reserved.
pub open spec fn divided(hz: u32, code: u32) -> Option<u32> {
    if code < 7 {
        Some((hz as nat / pow2(code as nat)) as u32)
    } else {
        None
    }
}

/// Divides a frequency as a divider field says.
fn divide(hz: u32, code: u32) -> (r: Option<u32>)
    ensures
        r == divided(hz, code),
{
    proof {
        lemma2_to64();
    }
    match code {
        0 => Some(hz),
        1 => Some(hz / 2),
        2 => Some(hz / 4),
        3 => Some(hz / 8),
        4 => Some(hz / 16),
        5 => Some(hz / 32),
        6 => Some(hz / 64),
        _ => None,
    }
}

/// The clock configuration that follows from an oscillator frequency and the division register, if
/// no divider is reserved.
pub open spec fn divided_config(hoco: HocoFrequency, sckdivcr: u32) -> Option<ClockConfig> {
    let system = divided(hoco.hz(), divider(sckdivcr, 24));
    let flash = divided(hoco.hz(), divider(sckdivcr, 28));
    let peripheral_a = divided(hoco.hz(), divider(sckdivcr, 12));
    let peripheral_b = divided(hoco.hz(), divider(sckdivcr, 8));
    let peripheral_c = divided(hoco.hz(), divider(sckdivcr, 4));
    let peripheral_d = divided(hoco.hz(), divider(sckdivcr, 0));
    if system is Some && flash is Some && peripheral_a is Some && peripheral_b is Some
        && peripheral_c is Some && peripheral_d is Some {
        Some(
            ClockConfig {
                system: system->0,
                flash: flash->0,
                peripheral_a: peripheral_a->0,
                peripheral_b: peripheral_b->0,
                peripheral_c: peripheral_c->0,
                peripheral_d: peripheral_d->0,
            },
        )
    } else {
        None
    }
}

/// Works out the clock configuration from an oscillator frequency and the division register.
pub fn divide_clocks(hoco: HocoFrequency, sckdivcr: u32) -> (r: Option<ClockConfig>)
    ensures
        r == divided_config(hoco, sckdivcr),
{
    let hz: u32 = hoco.hz();
    let system: u32 = match divide(hz, (sckdivcr >> 24) & 7) {
        Some(f) => f,
        None => {
            return None;
        },
    };
    let flash: u32 = match divide(hz, (sckdivcr >> 28) & 7) {
        Some(f) => f,
        None => {
            return None;
        },
    };
    let peripheral_a: u32 = match divide(hz, (sckdivcr >> 12) & 7) {
        Some(f) => f,
        None => {
            return None;
        },
    };
    let peripheral_b: u32 = match divide(hz, (sckdivcr >> 8) & 7) {
        Some(f) => f,
        None => {
            return None;
        },
    };
    let peripheral_c: u32 = match divide(hz, (sckdivcr >> 4) & 7) {
        Some(f) => f,
        None => {
            return None;
        },
    };
    let peripheral_d: u32 = match divide(hz, (sckdivcr >> 0) & 7) {
        Some(f) => f,
        None => {
            return None;
        },
    };
    Some(
        ClockConfig { system, flash, peripheral_a, peripheral_b, peripheral_c, peripheral_d },
    )
}

/// `log` followed by a look at the clock configuration, and the configuration. The dividers are
/// read only if the oscillator frequency is known.
pub open spec fn clock_config_log(log: Log, run: Log) -> (Log, Option<ClockConfig>) {
    let log1 = rd8(log, Reg8::Hococr2, run);
    let log2 = rd32(log1, Reg32::Sckdivcr, run);
    match HocoFrequency::encoded_in(in8(log, run)) {
        Some(hoco) => (log2, divided_config(hoco, in32(log1, run))),
        None => (log1, None),
    }
}

/// Returns the current clock configuration, or `None` if a register holds a reserved value.
pub fn clock_config<I: Instance>(io: &mut Mmio<I>) -> (r: Option<ClockConfig>)
    ensures
        grows(old(io).log(), final(io).log()),
        summary(final(io).log()) == summary(old(io).log()),
        forall|run: Log|
            #![trigger begins(final(io).log(), run)]
            begins(final(io).log(), run) ==> (final(io).log(), r) == clock_config_log(
                old(io).log(),
                run,
            ),
{
    let hococr2: u8 = io.read8(Reg8::Hococr2);
    match HocoFrequency::decode(hococr2) {
        Some(hoco) => {
            let sckdivcr: u32 = io.read32(Reg32::Sckdivcr);
            divide_clocks(hoco, sckdivcr)
        },
        None => None,
    }
}

/// What there is to print of the clock configuration: the clock source in its register encoding,
/// and the frequencies in whole megahertz.
#[derive(Clone, Copy, Debug, PartialEq, Eq, Structural)]
pub struct ClockReport {
    pub source: u8,
    pub system: u32,
    pub flash: u32,
    pub peripheral_a: u32,
    pub peripheral_b: u32,
    pub peripheral_c: u32,
    pub peripheral_d: u32,
}

impl ClockReport {
    /// The report on a configuration.
    pub open spec fn on(config: ClockConfig, source: u8) -> ClockReport {
        ClockReport {
            source,
            system: config.system / 1_000_000,
            flash: config.flash / 1_000_000,
            peripheral_a: config.peripheral_a / 1_000_000,
            peripheral_b: config.peripheral_b / 1_000_000,
            peripheral_c: config.peripheral_c / 1_000_000,
            peripheral_d: config.peripheral_d / 1_000_000,
        }
    }
}

/// A clock register holds a reserved value.
#[derive(Clone, Copy, Debug, PartialEq, Eq, Structural)]
pub struct ReservedClockValue;

/// `log` followed by a look at the clock configuration and the clock source, and the report on
/// them. Where nothing is logged there is no look and no report.
pub open spec fn clock_report_log(log: Log, logging: bool, run: Log) -> (
    Log,
    Result<Option<ClockReport>, ReservedClockValue>,
) {
    let (log1, config) = clock_config_log(log, run);
    if !logging {
        (log, Ok(None))
    } else {
        match config {
            Some(config) => (
                rd8(log1, Reg8::Sckscr, run),
                Ok(Some(ClockReport::on(config, in8(log1, run) & CKSEL))),
            ),
            None => (log1, Err(ReservedClockValue)),
        }
    }
}

/// Returns what there is to print of the current clock configuration. Does nothing unless `logging`
/// is on.
///
/// Fails exactly if `logging` is on and a register holds a reserved value.
pub fn print_clock_config<I: Instance>(io: &mut Mmio<I>, logging: bool) -> (r: Result<
    Option<ClockReport>,
    ReservedClockValue,
>)
    ensures
        grows(old(io).log(), final(io).log()),
        summary(final(io).log()) == summary(old(io).log()),
        !logging ==> r == Ok::<Option<ClockReport>, ReservedClockValue>(None) && final(io).log()
            == old(io).log(),
        forall|run: Log|
            #![trigger begins(final(io).log(), run)]
            begins(final(io).log(), run) ==> (final(io).log(), r) == clock_report_log(
                old(io).log(),
                logging,
                run,
            ),
{
    if !logging {
        return Ok(None);
    }
    let config = match clock_config(io) {
        Some(config) => config,
        None => {
            return Err(ReservedClockValue);
        },
    };
    let source: u8 = io.read8(Reg8::Sckscr) & CKSEL;
    Ok(
        Some(
            ClockReport {
                source,
                system: config.system / 1_000_000,
                flash: config.flash / 1_000_000,
                peripheral_a: config.peripheral_a / 1_000_000,
                peripheral_b: config.peripheral_b / 1_000_000,
                peripheral_c: config.peripheral_c / 1_000_000,
                peripheral_d: config.peripheral_d / 1_000_000,
            },
        ),
    )
}

/// Whether the memory needs wait states: it does for a system clock above 32 MHz, which these
/// oscillator frequencies allow.
pub open spec fn needs_wait_states(hoco: Option<HocoFrequency>) -> bool {
    hoco == Some(HocoFrequency::Mhz48) || hoco == Some(HocoFrequency::Mhz64)
}

/// The dividers that are set up for an oscillator frequency, in the encoding of the division
/// register.
pub open spec fn dividers_for(hoco: Option<HocoFrequency>) -> Option<u32> {
    match hoco {
        // All clocks undivided.
        Some(HocoFrequency::Mhz32) => Some(0),
        // FCLK and PCLKB halved.
        Some(HocoFrequency::Mhz48) => Some(0x1000_0100),
        // ICLK, FCLK, PCLKA and PCLKB halved.
        Some(HocoFrequency::Mhz64) => Some(0x1100_1100),
        _ => None,
    }
}

/// Build options that take part in the set-up.
#[derive(Clone, Copy, Debug, PartialEq, Eq, Structural)]
pub struct InitOptions {
    /// Whether to turn the flash cache on.
    pub cache: bool,
    /// Whether to find out why the processor reset.
    pub diag: bool,
    /// The oscillator frequency that the program was built for.
    pub target: HocoFrequency,
}

/// What the set-up found.
#[derive(Clone, Copy, Debug, PartialEq, Eq, Structural)]
pub struct InitReport {
    /// Why the processor reset, if this was asked for.
    pub reset_cause: Option<ResetCause>,
    /// The oscillator was stopped and had to be started.
    pub hoco_started: bool,
    /// The frequency that the oscillator runs at.
    pub hoco: HocoFrequency,
    /// The oscillator runs at the frequency that the program was built for.
    pub on_target: bool,
}

/// The oscillator runs at a frequency that there is no clock set-up for. What was found before that
/// turned out is kept.
#[derive(Clone, Copy, Debug, PartialEq, Eq, Structural)]
pub struct UnsupportedHoco {
    /// Why the processor reset, if this was asked for.
    pub reset_cause: Option<ResetCause>,
    /// The oscillator was stopped and had to be started.
    pub hoco_started: bool,
    /// What the oscillator control register 2 reads as.
    pub hococr2: u8,
}

/// `log` followed by what invalidates the flash cache and turns it on or off.
#[verifier::opaque]
pub open spec fn set_cache_log(log: Log, on: bool) -> Log {
    let log1 = wr16(log, Reg16::Fcacheiv, 1);
    if on {
        let log2 = log1.push(Access::Wait16 { reg: Reg16::Fcacheiv, mask: 1, value: 0 });
        wr16(log2, Reg16::Fcachee, 1)
    } else {
        wr16(log1, Reg16::Fcachee, 0)
    }
}

fn set_cache<I: Instance>(io: &mut Mmio<I>, on: bool)
    ensures
        grows(old(io).log(), final(io).log()),
        summary(final(io).log()) == summary(old(io).log()),
        final(io).log() == set_cache_log(old(io).log(), on),
{
    proof {
        reveal(set_cache_log);
    }
    io.write16(Reg16::Fcacheiv, 1);
    if on {
        io.wait16(Reg16::Fcacheiv, 1, 0);
        io.write16(Reg16::Fcachee, 1);
    } else {
        io.write16(Reg16::Fcachee, 0);
    }
}

/// `log` followed by a look at the reset flags, and the reset cause, if it was asked for.
#[verifier::opaque]
pub open spec fn diag_log(log: Log, diag: bool, run: Log) -> (Log, Option<ResetCause>) {
    let log1 = rd8(log, Reg8::Rstsr0, run);
    let log2 = rd16(log1, Reg16::Rstsr1, run);
    if diag {
        (log2, Some(reset_cause_of(in8(log, run), in16(log1, run))))
    } else {
        (log, None)
    }
}

fn read_reset_cause<I: Instance>(io: &mut Mmio<I>, diag: bool) -> (r: Option<ResetCause>)
    ensures
        grows(old(io).log(), final(io).log()),
        summary(final(io).log()) == summary(old(io).log()),
        forall|run: Log|
            #![trigger begins(final(io).log(), run)]
            begins(final(io).log(), run) ==> (final(io).log(), r) == diag_log(
                old(io).log(),
                diag,
                run,
            ),
{
    proof {
        reveal(diag_log);
    }
    if !diag {
        return None;
    }
    let rstsr0: u8 = io.read8(Reg8::Rstsr0);
    let rstsr1: u16 = io.read16(Reg16::Rstsr1);
    Some(reset_cause(rstsr0, rstsr1))
}

/// `log` followed by what makes the high-speed on-chip oscillator run, whether it had to be
/// started, and what its control register 2 reads as.
#[verifier::opaque]
pub open spec fn start_hoco_log(log: Log, run: Log) -> (Log, bool, u8) {
    let log1 = rd8(log, Reg8::Hococr, run);
    let stopped = in8(log, run) & HCSTP != 0;
    let log2 = if stopped {
        wr8(log1, Reg8::Hococr, 0)
    } else {
        log1
    };
    (rd8(log2, Reg8::Hococr2, run), stopped, in8(log2, run))
}

fn start_hoco<I: Instance>(io: &mut Mmio<I>) -> (r: (bool, u8))
    ensures
        grows(old(io).log(), final(io).log()),
        summary(final(io).log()) == summary(old(io).log()),
        forall|run: Log|
            #![trigger begins(final(io).log(), run)]
            begins(final(io).log(), run) ==> (final(io).log(), r.0, r.1) == start_hoco_log(
                old(io).log(),
                run,
            ),
{
    proof {
        reveal(start_hoco_log);
    }
    let hococr: u8 = io.read8(Reg8::Hococr);
    let stopped = hococr & HCSTP != 0;
    if stopped {
        io.write8(Reg8::Hococr, 0);
    }
    let hococr2: u8 = io.read8(Reg8::Hococr2);
    (stopped, hococr2)
}

/// `log` followed by the switch to high-speed mode with the oscillator as clock source.
#[verifier::opaque]
pub open spec fn select_hoco_log(log: Log, hoco: Option<HocoFrequency>) -> Log {
    let log1 = wr8(log, Reg8::Opccr, 0);
    let log2 = log1.push(Access::Wait8 { reg: Reg8::Opccr, mask: OPCMTSF, value: 0 });
    let log3 = if needs_wait_states(hoco) {
        wr8(log2, Reg8::Memwait, 1)
    } else {
        log2
    };
    wr8(log3, Reg8::Sckscr, 0)
}

fn select_hoco<I: Instance>(io: &mut Mmio<I>, hoco: Option<HocoFrequency>)
    ensures
        grows(old(io).log(), final(io).log()),
        summary(final(io).log()) == summary(old(io).log()),
        final(io).log() == select_hoco_log(old(io).log(), hoco),
{
    proof {
        reveal(select_hoco_log);
    }
    // A system clock above 12 MHz needs high-speed mode.
    io.write8(Reg8::Opccr, 0);
    io.wait8(Reg8::Opccr, OPCMTSF, 0);
    match hoco {
        Some(HocoFrequency::Mhz48) | Some(HocoFrequency::Mhz64) => {
            io.write8(Reg8::Memwait, 1);
        },
        _ => {},
    }
    io.write8(Reg8::Sckscr, 0);
}

/// `log` followed by the set-up of the dividers, and whether there is one for the frequency.
#[verifier::opaque]
pub open spec fn set_dividers_log(log: Log, hoco: Option<HocoFrequency>, run: Log) -> (Log, bool) {
    match dividers_for(hoco) {
        Some(dividers) => (
            wr32(
                rd32(log, Reg32::Sckdivcr, run),
                Reg32::Sckdivcr,
                (in32(log, run) & !SCKDIVCR_DIVIDERS) | dividers,
            ),
            true,
        ),
        None => (log, false),
    }
}

fn set_dividers<I: Instance>(io: &mut Mmio<I>, hoco: Option<HocoFrequency>) -> (r: bool)
    ensures
        r == dividers_for(hoco) is Some,
        grows(old(io).log(), final(io).log()),
        summary(final(io).log()) == summary(old(io).log()),
        forall|run: Log|
            #![trigger begins(final(io).log(), run)]
            begins(final(io).log(), run) ==> (final(io).log(), r) == set_dividers_log(
                old(io).log(),
                hoco,
                run,
            ),
{
    proof {
        reveal(set_dividers_log);
    }
    let dividers: u32 = match hoco {
        Some(HocoFrequency::Mhz32) => 0,
        Some(HocoFrequency::Mhz48) => 0x1000_0100,
        Some(HocoFrequency::Mhz64) => 0x1100_1100,
        _ => {
            return false;
        },
    };
    let sckdivcr: u32 = io.read32(Reg32::Sckdivcr);
    io.write32(Reg32::Sckdivcr, (sckdivcr & !SCKDIVCR_DIVIDERS) | dividers);
    true
}

/// `log` followed by the set-up of the chip, and what it reports.
pub open spec fn init_log(log: Log, options: InitOptions, run: Log) -> (
    Log,
    Result<InitReport, UnsupportedHoco>,
) {
    let (log1, reset_cause) = diag_log(log.push(Access::Enter), options.diag, run);
    let log2 = wr16(log1, Reg16::Prcr, PRCR_UNLOCK);
    let (log3, hoco_started, hococr2) = start_hoco_log(log2, run);
    let hoco = HocoFrequency::encoded_in(hococr2);
    let log4 = set_cache_log(select_hoco_log(log3, hoco), options.cache);
    let (log5, supported) = set_dividers_log(log4, hoco, run);
    let log6 = wr16(log5, Reg16::Prcr, PRCR_LOCK).push(Access::Leave);
    (
        log6,
        if supported {
            Ok(
                InitReport {
                    reset_cause,
                    hoco_started,
                    hoco: hoco->0,
                    on_target: hoco == Some(options.target),
                },
            )
        } else {
            Err(UnsupportedHoco { reset_cause, hoco_started, hococr2 })
        },
    )
}

/// Sets the clocks up, in a critical section and with the protection of the clock registers lifted
/// meanwhile.
///
/// Fails exactly if the high-speed on-chip oscillator runs at a frequency other than 32, 48 or
/// 64 MHz. The dividers are left alone in that case.
pub fn init<I: Instance>(io: &mut Mmio<I>, options: InitOptions) -> (r: Result<
    InitReport,
    UnsupportedHoco,
>)
    ensures
        grows(old(io).log(), final(io).log()),
        summary(old(io).log()).depth >= 0 ==> summary(final(io).log()) == (Summary {
            prcr: PRCR_LOCK,
            ..summary(old(io).log())
        }),
        forall|run: Log|
            #![trigger begins(final(io).log(), run)]
            begins(final(io).log(), run) ==> (final(io).log(), r) == init_log(
                old(io).log(),
                options,
                run,
            ),
{
    io.enter();
    let reset_cause = read_reset_cause(io, options.diag);
    io.write16(Reg16::Prcr, PRCR_UNLOCK);
    let (hoco_started, hococr2) = start_hoco(io);
    let hoco = HocoFrequency::decode(hococr2);
    select_hoco(io, hoco);
    set_cache(io, options.cache);
    let supported = set_dividers(io, hoco);
    io.write16(Reg16::Prcr, PRCR_LOCK);
    io.leave();
    match hoco {
        Some(hoco) => if supported {
            Ok(
                InitReport {
                    reset_cause,
                    hoco_started,
                    hoco,
                    on_target: hoco == options.target,
                },
            )
        } else {
            Err(UnsupportedHoco { reset_cause, hoco_started, hococr2 })
        },
        None => Err(UnsupportedHoco { reset_cause, hoco_started, hococr2 }),
    }
}

/// The limits of the clocks: 48 MHz for `ICLK` and `PCLKA`, 32 MHz for `FCLK` and `PCLKB`, 64 MHz
/// for `PCLKC` and `PCLKD`.
pub open spec fn within_limits(config: ClockConfig) -> bool {
    &&& config.system <= 48_000_000
    &&& config.flash <= 32_000_000
    &&& config.peripheral_a <= 48_000_000
    &&& config.peripheral_b <= 32_000_000
    &&& config.peripheral_c <= 64_000_000
    &&& config.peripheral_d <= 64_000_000
}

/// The clock configuration that the set-up arrives at for an oscillator frequency.
pub open spec fn resulting_config(hoco: HocoFrequency) -> Option<ClockConfig> {
    match hoco {
        HocoFrequency::Mhz24 => None,
        HocoFrequency::Mhz32 => Some(
            ClockConfig {
                system: 32_000_000,
                flash: 32_000_000,
                peripheral_a: 32_000_000,
                peripheral_b: 32_000_000,
                peripheral_c: 32_000_000,
                peripheral_d: 32_000_000,
            },
        ),
        HocoFrequency::Mhz48 => Some(
            ClockConfig {
                system: 48_000_000,
                flash: 24_000_000,
                peripheral_a: 48_000_000,
                peripheral_b: 24_000_000,
                peripheral_c: 48_000_000,
                peripheral_d: 48_000_000,
            },
        ),
        HocoFrequency::Mhz64 => Some(
            ClockConfig {
                system: 32_000_000,
                flash: 32_000_000,
                peripheral_a: 32_000_000,
                peripheral_b: 32_000_000,
                peripheral_c: 64_000_000,
                peripheral_d: 64_000_000,
            },
        ),
    }
}

/// Whatever the division register held before, the dividers that the set-up writes for an
/// oscillator frequency give the frequencies meant for it.
pub proof fn law_dividers_give_intended_clocks(hoco: HocoFrequency, before: u32)
    requires
        dividers_for(Some(hoco)) is Some,
    ensures
        divided_config(
            hoco,
            (before & !SCKDIVCR_DIVIDERS) | dividers_for(Some(hoco))->0,
        ) == resulting_config(hoco),
        resulting_config(hoco) is Some,
{
    lemma2_to64();
    let dividers = dividers_for(Some(hoco))->0;
    let written = (before & !SCKDIVCR_DIVIDERS) | dividers;
    assert forall|shift: u32|
        shift == 0 || shift == 4 || shift == 8 || shift == 12 || shift == 24 || shift
            == 28 implies #[trigger] divider(written, shift) == divider(dividers, shift) by {
        assert((((before & !0x7700_7777u32) | dividers) >> shift) & 7 == (dividers >> shift) & 7)
            by (bit_vector)
            requires
                shift == 0 || shift == 4 || shift == 8 || shift == 12 || shift == 24 || shift == 28,
        ;
    }
    assert(dividers == 0 || dividers == 0x1000_0100u32 || dividers == 0x1100_1100u32);
    assert({
        &&& (dividers >> 28u32) & 7 == (if dividers == 0 { 0u32 } else { 1u32 })
        &&& (dividers >> 24u32) & 7 == (if dividers == 0x1100_1100u32 { 1u32 } else { 0u32 })
        &&& (dividers >> 12u32) & 7 == (if dividers == 0x1100_1100u32 { 1u32 } else { 0u32 })
        &&& (dividers >> 8u32) & 7 == (if dividers == 0 { 0u32 } else { 1u32 })
        &&& (dividers >> 4u32) & 7 == 0
        &&& (dividers >> 0u32) & 7 == 0
    }) by (bit_vector)
        requires
            dividers == 0 || dividers == 0x1000_0100u32 || dividers == 0x1100_1100u32,
    ;
    assert(divider(written, 28) == divider(dividers, 28));
    assert(divider(written, 24) == divider(dividers, 24));
    assert(divider(written, 12) == divider(dividers, 12));
    assert(divider(written, 8) == divider(dividers, 8));
    assert(divider(written, 4) == divider(dividers, 4));
    assert(divider(written, 0) == divider(dividers, 0));
}

/// No clock that the set-up arrives at exceeds its limit, and the memory has wait states whenever
/// the system clock is above 32 MHz.
pub proof fn law_clocks_within_limits(hoco: HocoFrequency)
    requires
        resulting_config(hoco) is Some,
    ensures
        within_limits(resulting_config(hoco)->0),
        resulting_config(hoco)->0.system > 32_000_000 ==> needs_wait_states(Some(hoco)),
{
}

} // verus!
