//! What the bring-up of the PLL does to the chip.

use crate::cdc::{
    bring_up_stages, hoco_stage, mosc_stage, opcm_stage, pll_stage, setup_pll_log, spin8_log,
    switch_stage, ClockTimeout,
};
use crate::mmio::{rd8, Access, Log, Reg16, Reg32, Reg8};
use crate::trace::{lemma_seen_push, seen};
use vstd::prelude::*;

verus! {

/// The values read from a byte register, oldest first.
#[verifier::opaque]
pub open spec fn looks8(log: Log, reg: Reg8) -> Seq<u8>
    decreases log.len(),
{
    if log.len() == 0 {
        Seq::empty()
    } else if log.last() is Read8 && log.last()->Read8_reg == reg {
        looks8(log.drop_last(), reg).push(log.last()->Read8_value)
    } else {
        looks8(log.drop_last(), reg)
    }
}

/// What was read after one more access.
pub broadcast proof fn lemma_looks8_push(log: Log, access: Access, reg: Reg8)
    ensures
        #[trigger] looks8(log.push(access), reg) == if access is Read8 && access->Read8_reg == reg {
            looks8(log, reg).push(access->Read8_value)
        } else {
            looks8(log, reg)
        },
{
    reveal(looks8);
    assert(log.push(access).drop_last() =~= log);
}

/// Waiting for a flag reads no other register.
pub broadcast proof fn lemma_looks8_spin8(
    log: Log,
    reg: Reg8,
    mask: u8,
    want: u8,
    tries: nat,
    run: Log,
    other: Reg8,
)
    requires
        reg != other,
    ensures
        #[trigger] looks8(spin8_log(log, reg, mask, want, tries, run).0, other) == looks8(
            log,
            other,
        ),
    decreases tries,
{
    broadcast use lemma_looks8_push;

    reveal(spin8_log);
    if tries > 0 {
        lemma_looks8_spin8(rd8(log, reg, run), reg, mask, want, (tries - 1) as nat, run, other);
    }
}

/// Waiting for a flag shows nothing to who does not watch the register.
pub broadcast proof fn lemma_seen_spin8(
    log: Log,
    reg: Reg8,
    mask: u8,
    want: u8,
    tries: nat,
    run: Log,
    keep: spec_fn(Access) -> bool,
)
    requires
        forall|value: u8| !#[trigger] keep(Access::Read8 { reg, value }),
    ensures
        #[trigger] seen(spin8_log(log, reg, mask, want, tries, run).0, keep) == seen(log, keep),
    decreases tries,
{
    broadcast use lemma_seen_push;

    reveal(spin8_log);
    if tries > 0 {
        lemma_seen_spin8(rd8(log, reg, run), reg, mask, want, (tries - 1) as nat, run, keep);
    }
}

/// What is looked at while a flag is waited for: the looks end with the first one that finds it,
/// and the wait fails only if as many looks as there are tries do not.
pub proof fn lemma_spin8_looks(log: Log, reg: Reg8, mask: u8, want: u8, tries: nat, run: Log)
    ensures
        ({
            let (after, found) = spin8_log(log, reg, mask, want, tries, run);
            let old = looks8(log, reg);
            let new = looks8(after, reg);
            &&& old.len() <= new.len() <= old.len() + tries
            &&& new.take(old.len() as int) == old
            &&& found ==> new.len() > old.len() && new.last() & mask == want
            &&& !found ==> new.len() == old.len() + tries && forall|i: int|
                old.len() <= i < new.len() ==> #[trigger] new[i] & mask != want
        }),
    decreases tries,
{
    broadcast use lemma_looks8_push;

    reveal(spin8_log);
    let old = looks8(log, reg);
    assert(old.take(old.len() as int) =~= old);
    if tries > 0 {
        let log1 = rd8(log, reg, run);
        let mid = looks8(log1, reg);
        assert(mid.take(old.len() as int) =~= old);
        lemma_spin8_looks(log1, reg, mask, want, (tries - 1) as nat, run);
        let new = looks8(spin8_log(log1, reg, mask, want, (tries - 1) as nat, run).0, reg);
        assert(new.take(old.len() as int) =~= new.take(mid.len() as int).take(old.len() as int));
        assert(new.take(mid.len() as int)[old.len() as int] == mid.last());
    }
}

/// All that changes something or waits for something, and the looks that decide on it. Looks at the
/// stability flags and at the power mode are left out.
pub open spec fn clock_steps() -> spec_fn(Access) -> bool {
    |access: Access| !(access is Read8 && (access->Read8_reg == Reg8::Oscsf || access->Read8_reg
        == Reg8::Opccr))
}

/// A byte written back with the bits of a mask cleared.
proof fn lemma_bytes(x: u8)
    ensures
        (x & !0x01u8) | 0 == x - x % 2,
        (x & !0x03u8) | 0 == x - x % 4,
        (x & !0x48u8) | 0 == x & 0xb7,
        (x & !0x01u8) | 0x01 == x - x % 2 + 1,
        (x & !0x07u8) | 0x05 == x - x % 8 + 5,
{
    assert({
        &&& (x & !0x01u8) | 0 == x - x % 2
        &&& (x & !0x03u8) | 0 == x - x % 4
        &&& (x & !0x48u8) | 0 == x & 0xb7
        &&& (x & !0x01u8) | 0x01 == x - x % 2 + 1
        &&& (x & !0x07u8) | 0x05 == x - x % 8 + 5
    }) by (bit_vector);
}

/// Whether one access writes to a byte register what the one before it read there, with the value
/// changed.
pub open spec fn rewrites(steps: Log, at: int, reg: Reg8, value: int) -> bool {
    &&& steps[at] is Read8 && steps[at]->Read8_reg == reg
    &&& steps[at + 1] is Write8 && steps[at + 1]->Write8_reg == reg
    &&& steps[at + 1]->Write8_value == value
}

/// What the bring-up of the PLL does, in order: the protection is lifted, the on-chip oscillator is
/// started, which is bit 0 of its control register cleared, the power mode is raised, which is its
/// low two bits cleared, the main oscillator is started unless it runs, with its drive set and its
/// wait time given before, the PLL is started unless it runs, with its multiplier given before, and
/// only when all of them are stable the memory gets wait states, the dividers are given, and the
/// system clock is switched to the PLL, which is source 5. The protection is restored in any case.
/// If a clock does not become stable, none of the steps after it is taken.
#[verifier::rlimit(60)]
pub proof fn law_pll_comes_up_in_order(log: Log, run: Log)
    ensures
        ({
            let (after, r) = setup_pll_log(log, run);
            let steps = seen(after, clock_steps()).skip(seen(log, clock_steps()).len() as int);
            let lock = Access::Write16 { reg: Reg16::Prcr, value: 0xA500 };
            let main_stopped = steps[4]->Read8_value != 0;
            let a: int = if main_stopped {
                11
            } else {
                5
            };
            let pll_stopped = steps[a]->Read8_value != 0;
            let b: int = if pll_stopped {
                a + 4
            } else {
                a + 1
            };
            let n: int = match r {
                Err(ClockTimeout::Hoco) => 3,
                Err(ClockTimeout::Opcm) => 4,
                Err(ClockTimeout::Mosc) => a,
                Err(ClockTimeout::Pll) => b,
                Ok(_) => b + 5,
            };
            &&& steps.len() == n + 1
            &&& steps[n] == lock
            &&& steps[0] == (Access::Write16 { reg: Reg16::Prcr, value: 0xA503 })
            &&& rewrites(
                steps,
                1,
                Reg8::Hococr,
                steps[1]->Read8_value - steps[1]->Read8_value % 2,
            )
            &&& n > 3 ==> steps[3] is Write8 && steps[3]->Write8_reg == Reg8::Opccr
                && steps[3]->Write8_value % 4 == 0
            &&& n > 4 ==> steps[4] is Read8 && steps[4]->Read8_reg == Reg8::Mosccr
            &&& n > 4 && main_stopped ==> {
                &&& steps[5] == (Access::Wait8 { reg: Reg8::Oscsf, mask: 0x08, value: 0 })
                &&& rewrites(steps, 6, Reg8::Momcr, (steps[6]->Read8_value & 0xb7) as int)
                &&& steps[8] == (Access::Write8 { reg: Reg8::Moscwtcr, value: 0x09 })
                &&& rewrites(
                    steps,
                    9,
                    Reg8::Mosccr,
                    steps[9]->Read8_value - steps[9]->Read8_value % 2,
                )
            }
            &&& n > a ==> steps[a] is Read8 && steps[a]->Read8_reg == Reg8::Pllcr
            &&& n > a && pll_stopped ==> {
                &&& steps[a + 1] == (Access::Write8 { reg: Reg8::Pllccr2, value: 0x47 })
                &&& steps[a + 2] == (Access::Delay { cycles: 64 })
                &&& steps[a + 3] == (Access::Write8 { reg: Reg8::Pllcr, value: 0 })
            }
            &&& r is Ok ==> {
                &&& rewrites(
                    steps,
                    b,
                    Reg8::Memwait,
                    steps[b]->Read8_value - steps[b]->Read8_value % 2 + 1,
                )
                &&& steps[b + 2] == (Access::Write32 { reg: Reg32::Sckdivcr, value: 0x1001_0100 })
                &&& rewrites(
                    steps,
                    b + 3,
                    Reg8::Sckscr,
                    steps[b + 3]->Read8_value - steps[b + 3]->Read8_value % 8 + 5,
                )
            }
        }),
{
    broadcast use {lemma_seen_push, lemma_seen_spin8};

    reveal(bring_up_stages);
    reveal(hoco_stage);
    reveal(opcm_stage);
    reveal(mosc_stage);
    reveal(pll_stage);
    reveal(switch_stage);
    assert forall|x: u8| {
        &&& (#[trigger] (x & !0x01u8)) | 0 == x - x % 2
        &&& (x & !0x01u8) | 0x01 == x - x % 2 + 1
    } by {
        lemma_bytes(x);
    }
    assert forall|x: u8| (#[trigger] (x & !0x03u8)) | 0 == x - x % 4 by {
        lemma_bytes(x);
    }
    assert forall|x: u8| (#[trigger] (x & !0x48u8)) | 0 == x & 0xb7 by {
        lemma_bytes(x);
    }
    assert forall|x: u8| (#[trigger] (x & !0x07u8)) | 0x05 == x - x % 8 + 5 by {
        lemma_bytes(x);
    }
}

/// Whether the last `n` of a number of looks all miss a flag.
pub open spec fn all_miss(looks: Seq<u8>, n: int, flag: u8) -> bool {
    &&& looks.len() >= n
    &&& forall|i: int| looks.len() - n <= i < looks.len() ==> #[trigger] looks[i] & flag == 0
}

/// When the PLL comes up: the flag of the on-chip oscillator, bit 0, the power mode, that of the
/// main oscillator, bit 3, and that of the PLL, bit 5, must each be found in time, in this order.
/// The bring-up fails with the first one that is not, after a hundred thousand looks, or five
/// million for the main oscillator, none of which finds it. If it succeeds, the last look at the
/// flags has found that of the PLL.
#[verifier::rlimit(60)]
pub proof fn law_pll_outcome(log: Log, run: Log)
    ensures
        ({
            let (after, r) = setup_pll_log(log, run);
            let flags = looks8(after, Reg8::Oscsf).skip(looks8(log, Reg8::Oscsf).len() as int);
            let modes = looks8(after, Reg8::Opccr).skip(looks8(log, Reg8::Opccr).len() as int);
            match r {
                Err(ClockTimeout::Hoco) => {
                    flags.len() == 100_000 && all_miss(flags, 100_000, 0x01) && modes.len() == 0
                },
                Err(ClockTimeout::Opcm) => {
                    &&& flags.len() > 0 && flags.last() & 0x01 != 0
                    &&& modes.len() == 100_001
                    &&& forall|i: int| 1 <= i < modes.len() ==> #[trigger] modes[i] & 0x13 != 0
                },
                Err(ClockTimeout::Mosc) => {
                    &&& modes.last() & 0x13 == 0
                    &&& all_miss(flags, 5_000_000, 0x08)
                },
                Err(ClockTimeout::Pll) => {
                    &&& modes.last() & 0x13 == 0
                    &&& all_miss(flags, 100_000, 0x20)
                },
                Ok(_) => modes.last() & 0x13 == 0 && flags.last() & 0x20 != 0,
            }
        }),
{
    broadcast use {lemma_looks8_push, lemma_looks8_spin8};

    reveal(bring_up_stages);
    reveal(hoco_stage);
    reveal(opcm_stage);
    reveal(mosc_stage);
    reveal(pll_stage);
    reveal(switch_stage);
    assert forall|x: u8| #[trigger] (x & 0x01u8) == 0x01 <==> x & 0x01 != 0 by {
        lemma_stable(x);
    }
    assert forall|x: u8| #[trigger] (x & 0x08u8) == 0x08 <==> x & 0x08 != 0 by {
        lemma_stable(x);
    }
    assert forall|x: u8| #[trigger] (x & 0x20u8) == 0x20 <==> x & 0x20 != 0 by {
        lemma_stable(x);
    }
    assert forall|l: Log, reg: Reg8, mask: u8, want: u8, tries: nat|
        {
            let (after, found) = #[trigger] spin8_log(l, reg, mask, want, tries, run);
            let old = looks8(l, reg);
            let new = looks8(after, reg);
            &&& old.len() <= new.len() <= old.len() + tries
            &&& new.take(old.len() as int) == old
            &&& found ==> new.len() > old.len() && new.last() & mask == want
            &&& !found ==> new.len() == old.len() + tries && forall|i: int|
                old.len() <= i < new.len() ==> #[trigger] new[i] & mask != want
        } by {
        lemma_spin8_looks(l, reg, mask, want, tries, run);
    }
}

proof fn lemma_stable(x: u8)
    ensures
        x & 0x01 == 0x01 <==> x & 0x01 != 0,
        x & 0x08 == 0x08 <==> x & 0x08 != 0,
        x & 0x20 == 0x20 <==> x & 0x20 != 0,
{
    assert({
        &&& (x & 0x01u8 == 0x01u8 <==> x & 0x01u8 != 0)
        &&& (x & 0x08u8 == 0x08u8 <==> x & 0x08u8 != 0)
        &&& (x & 0x20u8 == 0x20u8 <==> x & 0x20u8 != 0)
    }) by (bit_vector);
}

} // verus!
