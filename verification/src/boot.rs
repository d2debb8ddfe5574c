//! What the set-up of the clocks does to the chip, and what it reads off it.

use crate::clocks::{
    clock_config_log, clock_report_log, diag_log, divider, init_log, reset_cause_of,
    select_hoco_log, set_cache_log, set_dividers_log, start_hoco_log, ClockReport, HocoFrequency,
    InitOptions, ReservedClockValue, ResetCause,
};
use crate::mmio::{Access, Log, Reg16, Reg32, Reg8};
use crate::trace::{lemma_seen_push, seen};
use vstd::arithmetic::power2::{lemma2_to64, pow2};
use vstd::prelude::*;

verus! {

/// Why the processor reset: power on is bit 0 of the first status register, low voltage bits 1 to
/// 3. In the second one the watchdogs are bits 0 and 1, a software reset is bit 2, memory and bus
/// errors are bits 8 to 11 and a stack pointer error is bit 12. The first of power, voltage,
/// watchdog, hardware error, stack pointer and software that is set counts.
pub proof fn law_reset_cause(rstsr0: u8, rstsr1: u16)
    ensures
        ({
            let cause = reset_cause_of(rstsr0, rstsr1);
            let power = rstsr0 % 2 == 1;
            let voltage = rstsr0 / 2 % 8 != 0;
            let watchdog = rstsr1 % 4 != 0;
            let hardware = rstsr1 / 256 % 16 != 0;
            let stack = rstsr1 / 4096 % 2 == 1;
            let software = rstsr1 / 4 % 2 == 1;
            &&& cause == ResetCause::PowerOn <==> power
            &&& cause == ResetCause::LowVoltage <==> !power && voltage
            &&& cause == ResetCause::Watchdog <==> !power && !voltage && watchdog
            &&& cause == ResetCause::HadwareError <==> !power && !voltage && !watchdog && hardware
            &&& cause == ResetCause::StackPointer <==> !power && !voltage && !watchdog && !hardware
                && stack
            &&& cause == ResetCause::SoftwareReset <==> !power && !voltage && !watchdog && !hardware
                && !stack && software
            &&& cause == ResetCause::Unknown <==> !power && !voltage && !watchdog && !hardware
                && !stack && !software
        }),
{
    assert({
        &&& (rstsr0 & 0x01 != 0 <==> rstsr0 % 2 == 1)
        &&& (rstsr0 & 0x0e != 0 <==> rstsr0 / 2 % 8 != 0)
        &&& (rstsr1 & 0x0003 != 0 <==> rstsr1 % 4 != 0)
        &&& (rstsr1 & 0x0f00 != 0 <==> rstsr1 / 256 % 16 != 0)
        &&& (rstsr1 & 0x1000 != 0 <==> rstsr1 / 4096 % 2 == 1)
        &&& (rstsr1 & 0x0004 != 0 <==> rstsr1 / 4 % 2 == 1)
    }) by (bit_vector);
}

/// The frequency that the oscillator control register 2 stands for, in hertz: bits 3 to 5 are 0 for
/// 24 MHz, 2 for 32 MHz, 4 for 48 MHz and 5 for 64 MHz, and stand for nothing else.
pub open spec fn oscillator_hz(hococr2: u8) -> Option<u32> {
    let code = hococr2 / 8 % 8;
    if code == 0 {
        Some(24_000_000u32)
    } else if code == 2 {
        Some(32_000_000u32)
    } else if code == 4 {
        Some(48_000_000u32)
    } else if code == 5 {
        Some(64_000_000u32)
    } else {
        None
    }
}

/// The oscillator frequency is read off the register as it is encoded there.
pub proof fn law_oscillator_frequency(hococr2: u8)
    ensures
        match HocoFrequency::encoded_in(hococr2) {
            Some(hoco) => oscillator_hz(hococr2) == Some(hoco.hz()),
            None => oscillator_hz(hococr2) is None,
        },
{
    assert((hococr2 >> 3) & 7 == hococr2 / 8 % 8) by (bit_vector);
}

/// A clock divided by the power of two in three bits of the division register, from `unit` on.
pub open spec fn clock_hz(hz: u32, sckdivcr: u32, unit: u32) -> int {
    hz as int / pow2((sckdivcr / unit % 8) as nat) as int
}

/// The divider fields of the division register, by arithmetic.
proof fn lemma_dividers(sckdivcr: u32)
    ensures
        divider(sckdivcr, 0) == sckdivcr / 0x1 % 8,
        divider(sckdivcr, 4) == sckdivcr / 0x10 % 8,
        divider(sckdivcr, 8) == sckdivcr / 0x100 % 8,
        divider(sckdivcr, 12) == sckdivcr / 0x1000 % 8,
        divider(sckdivcr, 24) == sckdivcr / 0x100_0000 % 8,
        divider(sckdivcr, 28) == sckdivcr / 0x1000_0000 % 8,
{
    let s = sckdivcr;
    assert({
        &&& (s >> 0u32) & 7 == s / 0x1 % 8
        &&& (s >> 4u32) & 7 == s / 0x10 % 8
        &&& (s >> 8u32) & 7 == s / 0x100 % 8
        &&& (s >> 12u32) & 7 == s / 0x1000 % 8
        &&& (s >> 24u32) & 7 == s / 0x100_0000 % 8
        &&& (s >> 28u32) & 7 == s / 0x1000_0000 % 8
    }) by (bit_vector);
}

/// Looks at the registers that the clocks follow from.
pub open spec fn clock_looks() -> spec_fn(Access) -> bool {
    |access: Access| access is Read8 || access is Read32
}

/// The clock configuration follows from the oscillator and the dividers. The flash clock is divided
/// as bits 28 to 30 of the division register say, the system clock as bits 24 to 26, and the
/// peripheral clocks A, B, C and D as bits 12 to 14, 8 to 10, 4 to 6 and 0 to 2. There is none if
/// the oscillator is not known or one of these fields is 7, which is reserved.
pub proof fn law_clock_configuration(log: Log, run: Log)
    ensures
        ({
            let (after, config) = clock_config_log(log, run);
            let looks = seen(after, clock_looks()).skip(seen(log, clock_looks()).len() as int);
            let hz = oscillator_hz(looks[0]->Read8_value);
            let s = looks[1]->Read32_value;
            let reserved = s / 0x1000_0000 % 8 == 7 || s / 0x100_0000 % 8 == 7 || s / 0x1000 % 8
                == 7 || s / 0x100 % 8 == 7 || s / 0x10 % 8 == 7 || s % 8 == 7;
            &&& looks[0] is Read8 && looks[0]->Read8_reg == Reg8::Hococr2
            &&& hz is None ==> config is None && looks.len() == 1
            &&& hz is Some ==> {
                &&& looks.len() == 2 && looks[1] is Read32
                &&& looks[1]->Read32_reg == Reg32::Sckdivcr
                &&& config is None <==> reserved
                &&& config matches Some(c) ==> {
                    &&& c.flash == clock_hz(hz->0, s, 0x1000_0000)
                    &&& c.system == clock_hz(hz->0, s, 0x100_0000)
                    &&& c.peripheral_a == clock_hz(hz->0, s, 0x1000)
                    &&& c.peripheral_b == clock_hz(hz->0, s, 0x100)
                    &&& c.peripheral_c == clock_hz(hz->0, s, 0x10)
                    &&& c.peripheral_d == clock_hz(hz->0, s, 0x1)
                }
            }
        }),
{
    broadcast use lemma_seen_push;

    let (after, config) = clock_config_log(log, run);
    let looks = seen(after, clock_looks()).skip(seen(log, clock_looks()).len() as int);
    law_oscillator_frequency(looks[0]->Read8_value);
    lemma_dividers(looks[1]->Read32_value);
    lemma2_to64();
}

/// The report on the clocks gives the frequencies in whole megahertz and the clock source as the
/// low three bits of its register. Nothing is looked at or reported unless logging is on, and the
/// report fails exactly where there is no clock configuration.
pub proof fn law_clock_report(log: Log, logging: bool, run: Log)
    ensures
        ({
            let (after, report) = clock_report_log(log, logging, run);
            let (looked, config) = clock_config_log(log, run);
            if !logging {
                after == log && report == Ok::<Option<ClockReport>, ReservedClockValue>(None)
            } else if config is None {
                after == looked && report == Err::<Option<ClockReport>, ReservedClockValue>(
                    ReservedClockValue,
                )
            } else {
                let c = config->0;
                &&& after.len() == looked.len() + 1 && after.take(looked.len() as int) == looked
                &&& after.last() is Read8 && after.last()->Read8_reg == Reg8::Sckscr
                &&& report == Ok::<Option<ClockReport>, ReservedClockValue>(
                    Some(
                        ClockReport {
                            source: after.last()->Read8_value % 8,
                            system: c.system / 1_000_000,
                            flash: c.flash / 1_000_000,
                            peripheral_a: c.peripheral_a / 1_000_000,
                            peripheral_b: c.peripheral_b / 1_000_000,
                            peripheral_c: c.peripheral_c / 1_000_000,
                            peripheral_d: c.peripheral_d / 1_000_000,
                        },
                    ),
                )
            }
        }),
{
    let (after, report) = clock_report_log(log, logging, run);
    let (looked, config) = clock_config_log(log, run);
    if logging && config is Some {
        let source = after.last()->Read8_value;
        assert(source & 0x07 == source % 8) by (bit_vector);
        assert(after.take(looked.len() as int) =~= looked);
    }
}

/// All that changes something or waits for something.
pub open spec fn deeds() -> spec_fn(Access) -> bool {
    |access: Access|
        !(access is Read8 || access is Read16 || access is Read32)
}

/// All looks at registers.
pub open spec fn looks_taken() -> spec_fn(Access) -> bool {
    |access: Access| access is Read8 || access is Read16 || access is Read32
}

/// A step that is taken only on a condition.
pub open spec fn only_if(condition: bool, access: Access) -> Log {
    if condition {
        seq![access]
    } else {
        Seq::empty()
    }
}

/// What the division register is to be given for an oscillator frequency: no divider for 32 MHz,
/// halved flash clock and peripheral clock B for 48 MHz, and in addition halved system clock and
/// peripheral clock A for 64 MHz. The bits that hold no divider stay.
pub open spec fn divider_value(hz: u32, read: u32) -> u32 {
    let kept = read & 0x88ff_8888;
    if hz == 48_000_000 {
        kept | 0x1000_0100
    } else if hz == 64_000_000 {
        kept | 0x1100_1100
    } else {
        kept | 0
    }
}

/// The set-up of the clocks, in a critical section and with the protection lifted inside of it. The
/// oscillator is started if it is stopped, which bit 0 of its control register says. The power mode
/// is raised before the system clock is switched to the oscillator, and so are the wait states of
/// the memory if the oscillator runs at 48 or 64 MHz. The dividers come last, and only if the
/// oscillator runs at 32, 48 or 64 MHz, which is also when the set-up succeeds.
#[verifier::rlimit(60)]
pub proof fn law_init_sets_the_clocks_up(log: Log, options: InitOptions, run: Log)
    ensures
        ({
            let (after, r) = init_log(log, options, run);
            let done = seen(after, deeds()).skip(seen(log, deeds()).len() as int);
            let looks = seen(after, looks_taken()).skip(seen(log, looks_taken()).len() as int);
            let n: int = if options.diag {
                2
            } else {
                0
            };
            let stopped = looks[n]->Read8_value % 2 == 1;
            let hz = oscillator_hz(looks[n + 1]->Read8_value);
            let fast = hz == Some(48_000_000u32) || hz == Some(64_000_000u32);
            let supported = fast || hz == Some(32_000_000u32);
            let read = looks[n + 2]->Read32_value;
            let cause = if options.diag {
                Some(reset_cause_of(looks[0]->Read8_value, looks[1]->Read16_value))
            } else {
                None
            };
            &&& options.diag ==> looks[0] is Read8 && looks[0]->Read8_reg == Reg8::Rstsr0
            &&& options.diag ==> looks[1] is Read16 && looks[1]->Read16_reg == Reg16::Rstsr1
            &&& looks[n] is Read8 && looks[n]->Read8_reg == Reg8::Hococr
            &&& looks[n + 1] is Read8 && looks[n + 1]->Read8_reg == Reg8::Hococr2
            &&& supported ==> looks[n + 2] is Read32 && looks[n + 2]->Read32_reg == Reg32::Sckdivcr
            &&& done == seq![
                Access::Enter,
                Access::Write16 { reg: Reg16::Prcr, value: 0xA503 },
            ] + only_if(stopped, Access::Write8 { reg: Reg8::Hococr, value: 0 }) + seq![
                Access::Write8 { reg: Reg8::Opccr, value: 0 },
                Access::Wait8 { reg: Reg8::Opccr, mask: 0x10, value: 0 },
            ] + only_if(fast, Access::Write8 { reg: Reg8::Memwait, value: 1 }) + seq![
                Access::Write8 { reg: Reg8::Sckscr, value: 0 },
                Access::Write16 { reg: Reg16::Fcacheiv, value: 1 },
            ] + only_if(
                options.cache,
                Access::Wait16 { reg: Reg16::Fcacheiv, mask: 1, value: 0 },
            ) + seq![
                Access::Write16 {
                    reg: Reg16::Fcachee,
                    value: if options.cache {
                        1
                    } else {
                        0
                    },
                },
            ] + only_if(
                supported,
                Access::Write32 { reg: Reg32::Sckdivcr, value: divider_value(hz->0, read) },
            ) + seq![Access::Write16 { reg: Reg16::Prcr, value: 0xA500 }, Access::Leave]
            &&& match r {
                Ok(report) => {
                    &&& supported
                    &&& report.hoco.hz() == hz->0
                    &&& report.hoco_started == stopped
                    &&& report.reset_cause == cause
                    &&& report.on_target == (report.hoco == options.target)
                },
                Err(found) => {
                    &&& !supported
                    &&& found.hococr2 == looks[n + 1]->Read8_value
                    &&& found.hoco_started == stopped
                    &&& found.reset_cause == cause
                },
            }
        }),
{
    broadcast use lemma_seen_push;

    reveal(diag_log);
    reveal(start_hoco_log);
    reveal(select_hoco_log);
    reveal(set_cache_log);
    reveal(set_dividers_log);
    let (after, r) = init_log(log, options, run);
    let done = seen(after, deeds()).skip(seen(log, deeds()).len() as int);
    let looks = seen(after, looks_taken()).skip(seen(log, looks_taken()).len() as int);
    let n: int = if options.diag {
        2
    } else {
        0
    };
    let control = looks[n]->Read8_value;
    assert((control & 0x01 != 0 <==> control % 2 == 1) && !0x7700_7777u32 == 0x88ff_8888u32)
        by (bit_vector);
    law_oscillator_frequency(looks[n + 1]->Read8_value);
    let stopped = control % 2 == 1;
    let hz = oscillator_hz(looks[n + 1]->Read8_value);
    let fast = hz == Some(48_000_000u32) || hz == Some(64_000_000u32);
    let supported = fast || hz == Some(32_000_000u32);
    let read = looks[n + 2]->Read32_value;
    assert(done =~= seq![
        Access::Enter,
        Access::Write16 { reg: Reg16::Prcr, value: 0xA503 },
    ] + only_if(stopped, Access::Write8 { reg: Reg8::Hococr, value: 0 }) + seq![
        Access::Write8 { reg: Reg8::Opccr, value: 0 },
        Access::Wait8 { reg: Reg8::Opccr, mask: 0x10, value: 0 },
    ] + only_if(fast, Access::Write8 { reg: Reg8::Memwait, value: 1 }) + seq![
        Access::Write8 { reg: Reg8::Sckscr, value: 0 },
        Access::Write16 { reg: Reg16::Fcacheiv, value: 1 },
    ] + only_if(options.cache, Access::Wait16 { reg: Reg16::Fcacheiv, mask: 1, value: 0 }) + seq![
        Access::Write16 {
            reg: Reg16::Fcachee,
            value: if options.cache {
                1
            } else {
                0
            },
        },
    ] + only_if(
        supported,
        Access::Write32 { reg: Reg32::Sckdivcr, value: divider_value(hz->0, read) },
    ) + seq![Access::Write16 { reg: Reg16::Prcr, value: 0xA500 }, Access::Leave]);
}

} // verus!
