//! What is waited for, and for how long.

use crate::bits::lemma_word;
use crate::mmio::{in16, rd16, Access, Log, Reg16};
use crate::trace::{
    control_register, lemma_read16_push, lemma_seen_push, lemma_written16_push,
    lemma_written16_spin, read16, seen, written16,
};
use crate::usb::regs::{
    fifo_ready_log, law_answer_field, select_cfifo_log, select_d0fifo_log, select_pipe0_log,
    set_pipe_nak_wait_log, spin_log, READY_DELAY_CYCLES,
};
use vstd::prelude::*;

verus! {

/// Whether a register was looked at until the bits under a mask were as wanted, but at most ten
/// thousand times.
pub open spec fn awaited(log: Log, after: Log, reg: Reg16, mask: u16, want: u16) -> bool {
    let looks = read16(after, reg).skip(read16(log, reg).len() as int);
    &&& 1 <= looks.len() <= 10_000
    &&& forall|i: int| 0 <= i < looks.len() - 1 ==> #[trigger] looks[i] & mask != want
    &&& looks.last() & mask == want || looks.len() == 10_000
}

/// What is looked at while a register is waited for.
pub proof fn lemma_spin_looks(log: Log, reg: Reg16, mask: u16, want: u16, tries: nat, run: Log)
    ensures
        ({
            let old = read16(log, reg);
            let new = read16(spin_log(log, reg, mask, want, tries, run), reg);
            &&& old.len() <= new.len() <= old.len() + tries
            &&& tries > 0 ==> new.len() > old.len()
            &&& new.take(old.len() as int) == old
            &&& forall|i: int| old.len() <= i < new.len() - 1 ==> #[trigger] new[i] & mask != want
            &&& tries > 0 ==> new.last() & mask == want || new.len() == old.len() + tries
        }),
    decreases tries,
{
    broadcast use lemma_read16_push;

    reveal(spin_log);
    let old = read16(log, reg);
    assert(old.take(old.len() as int) =~= old);
    if tries > 0 {
        let log1 = rd16(log, reg, run);
        let mid = read16(log1, reg);
        assert(mid.take(old.len() as int) =~= old);
        lemma_spin_looks(log1, reg, mask, want, (tries - 1) as nat, run);
        let new = read16(spin_log(log1, reg, mask, want, (tries - 1) as nat, run), reg);
        assert(new.take(old.len() as int) =~= new.take(mid.len() as int).take(old.len() as int));
        assert(new.take(mid.len() as int)[old.len() as int] == mid.last());
    }
}

proof fn lemma_awaited(log: Log, start: Log, reg: Reg16, mask: u16, want: u16, run: Log)
    requires
        read16(start, reg) == read16(log, reg),
    ensures
        awaited(log, spin_log(start, reg, mask, want, 10_000, run), reg, mask, want),
{
    lemma_spin_looks(start, reg, mask, want, 10_000, run);
    let known = read16(log, reg).len() as int;
    let new = read16(spin_log(start, reg, mask, want, 10_000, run), reg);
    assert forall|i: int| 0 <= i < new.skip(known).len() - 1 implies #[trigger] new.skip(known)[i]
        & mask != want by {
        assert(new.skip(known)[i] == new[i + known]);
    }
}

/// Connecting the CFIFO port to a pipe writes the pipe, half-word access, the direction, which is
/// bit 5, and the read count mode, which is bit 15, and waits until pipe, direction and mode read
/// back.
pub proof fn law_cfifo_is_connected(
    log: Log,
    pipe: u8,
    in_direction: bool,
    read_count: bool,
    run: Log,
)
    requires
        pipe < 16,
    ensures
        ({
            let after = select_cfifo_log(log, pipe, in_direction, read_count, run);
            let direction: int = if in_direction {
                0x0020
            } else {
                0
            };
            let mode: int = if read_count {
                0x8000
            } else {
                0
            };
            let value = (0x0400 + pipe + direction + mode) as u16;
            &&& written16(after, Reg16::Cfifosel) == written16(log, Reg16::Cfifosel).push(value)
            &&& awaited(log, after, Reg16::Cfifosel, 0x802f, value & 0x802f)
        }),
{
    broadcast use {lemma_written16_push, lemma_written16_spin, lemma_read16_push};

    reveal(select_cfifo_log);
    let p = pipe as u16;
    assert({
        &&& (0x000fu16 | 0x0020u16 | 0x8000u16) == 0x802f
        &&& (0x0400u16 | p) == 0x0400 + p
        &&& ((0x0400u16 | p) | 0x0020u16) == 0x0400 + p + 0x0020
        &&& ((0x0400u16 | p) | 0x8000u16) == 0x0400 + p + 0x8000
        &&& (((0x0400u16 | p) | 0x0020u16) | 0x8000u16) == 0x0400 + p + 0x0020 + 0x8000
    }) by (bit_vector)
        requires
            p < 16,
    ;
    assert forall|l: Log, want: u16| read16(l, Reg16::Cfifosel) == read16(
        log,
        Reg16::Cfifosel,
    ) implies awaited(
        log,
        #[trigger] spin_log(l, Reg16::Cfifosel, 0x802f, want, 10_000, run),
        Reg16::Cfifosel,
        0x802f,
        want,
    ) by {
        lemma_awaited(log, l, Reg16::Cfifosel, 0x802f, want, run);
    }
}

/// Connecting the CFIFO port to the control pipe writes the direction, which is bit 5, with byte
/// access, and waits until the direction reads back with the read count mode off.
pub proof fn law_cfifo_is_connected_to_the_control_pipe(log: Log, in_direction: bool, run: Log)
    ensures
        ({
            let after = select_pipe0_log(log, in_direction, run);
            let value: u16 = if in_direction {
                0x0020
            } else {
                0
            };
            &&& written16(after, Reg16::Cfifosel) == written16(log, Reg16::Cfifosel).push(value)
            &&& awaited(log, after, Reg16::Cfifosel, 0x8020, value)
        }),
{
    broadcast use {lemma_written16_push, lemma_written16_spin, lemma_read16_push};

    reveal(select_pipe0_log);
    assert({
        &&& (0x0020u16 | 0x8000u16) == 0x8020
        &&& (0u16 | 0x0020u16) == 0x0020
        &&& 0x0020u16 & 0x8020u16 == 0x0020
        &&& 0u16 & 0x8020u16 == 0
    }) by (bit_vector);
    assert forall|l: Log, want: u16| read16(l, Reg16::Cfifosel) == read16(
        log,
        Reg16::Cfifosel,
    ) implies awaited(
        log,
        #[trigger] spin_log(l, Reg16::Cfifosel, 0x8020, want, 10_000, run),
        Reg16::Cfifosel,
        0x8020,
        want,
    ) by {
        lemma_awaited(log, l, Reg16::Cfifosel, 0x8020, want, run);
    }
}

/// Connecting the D0FIFO port to a pipe writes the pipe with half-word access, and waits until both
/// read back.
pub proof fn law_d0fifo_is_connected(log: Log, pipe: u8, run: Log)
    requires
        pipe < 16,
    ensures
        ({
            let after = select_d0fifo_log(log, pipe, run);
            let value = (0x0400 + pipe) as u16;
            &&& written16(after, Reg16::D0fifosel) == written16(log, Reg16::D0fifosel).push(value)
            &&& awaited(log, after, Reg16::D0fifosel, 0x040f, value)
        }),
{
    broadcast use {lemma_written16_push, lemma_written16_spin, lemma_read16_push};

    reveal(select_d0fifo_log);
    lemma_word(pipe as u16);
    assert((0x000fu16 | 0x0400u16) == 0x040f) by (bit_vector);
    assert forall|l: Log, want: u16| read16(l, Reg16::D0fifosel) == read16(
        log,
        Reg16::D0fifosel,
    ) implies awaited(
        log,
        #[trigger] spin_log(l, Reg16::D0fifosel, 0x040f, want, 10_000, run),
        Reg16::D0fifosel,
        0x040f,
        want,
    ) by {
        lemma_awaited(log, l, Reg16::D0fifosel, 0x040f, want, run);
    }
}

/// Making a pipe answer NAK clears the lowest bit of its control register, leaves the others as
/// they read, and then waits until the transaction in progress has ended, which is bit 5 clear.
pub proof fn law_nak_waits_for_the_transaction(log: Log, pipe: u8, run: Log)
    requires
        1 <= pipe <= 9,
    ensures
        ({
            let after = set_pipe_nak_wait_log(log, pipe, run);
            let control = control_register(pipe as int);
            let read = read16(after, control)[read16(log, control).len() as int];
            let start = log.push(Access::Read16 { reg: control, value: read });
            &&& written16(after, control) == written16(log, control).push(
                (read - read % 2) as u16,
            )
            &&& awaited(start, after, control, 0x0020, 0)
        }),
{
    broadcast use {lemma_written16_push, lemma_written16_spin, lemma_read16_push};

    reveal(set_pipe_nak_wait_log);
    let control = control_register(pipe as int);
    let first = in16(log, run);
    law_answer_field(first);
    let start = log.push(Access::Read16 { reg: control, value: first });
    let told = start.push(
        Access::Write16 { reg: control, value: (first - first % 2) as u16 },
    );
    lemma_spin_looks(told, control, 0x0020, 0, 10_000, run);
    let new = read16(spin_log(told, control, 0x0020, 0, 10_000, run), control);
    let old = read16(start, control);
    assert(new.take(old.len() as int)[old.len() - 1] == first);
    lemma_awaited(start, told, control, 0x0020, 0, run);
}

/// Delays.
pub open spec fn pauses() -> spec_fn(Access) -> bool {
    |access: Access| access is Delay
}

/// While a port is waited for, every look that finds it not ready is followed by looks at the
/// system configuration and the line, and a delay of 480 cycles.
pub proof fn law_ready_looks_are_paced(log: Log, ctr: Reg16, tries: nat, run: Log)
    ensures
        ({
            let (after, ready) = fifo_ready_log(log, ctr, tries, run);
            let delays = seen(after, pauses()).skip(
                seen(log, pauses()).len() as int,
            );
            &&& after.len() == log.len() + 4 * delays.len() + if ready {
                1int
            } else {
                0
            }
            &&& forall|i: int|
                0 <= i < delays.len() ==> #[trigger] delays[i] == (Access::Delay { cycles: 480 })
            &&& seen(after, pauses()).len() >= seen(log, pauses()).len()
        }),
    decreases tries,
{
    broadcast use lemma_seen_push;

    reveal(fifo_ready_log);
    let keep = pauses();
    if tries > 0 && in16(log, run) & 0x2000 == 0 {
        let log1 = rd16(log, ctr, run);
        let log3 = rd16(rd16(log1, Reg16::Syscfg, run), Reg16::Syssts0, run);
        let log4 = log3.push(Access::Delay { cycles: READY_DELAY_CYCLES });
        law_ready_looks_are_paced(log4, ctr, (tries - 1) as nat, run);
        lemma_delays_stay(log4, ctr, (tries - 1) as nat, run);
        let after = fifo_ready_log(log, ctr, tries, run).0;
        let known = seen(log, keep).len() as int;
        let delays = seen(after, keep).skip(known);
        assert forall|i: int| 0 <= i < delays.len() implies #[trigger] delays[i] == (Access::Delay {
            cycles: 480,
        }) by {
            if i == 0 {
                assert(delays[0] == seen(after, keep).take(known + 1)[known]);
            } else {
                assert(delays[i] == seen(after, keep).skip(known + 1)[i - 1]);
            }
        }
    }
}

/// Waiting for a port drops none of the delays before it.
proof fn lemma_delays_stay(log: Log, ctr: Reg16, tries: nat, run: Log)
    ensures
        ({
            let old = seen(log, pauses());
            let new = seen(fifo_ready_log(log, ctr, tries, run).0, pauses());
            old.len() <= new.len() && new.take(old.len() as int) == old
        }),
    decreases tries,
{
    broadcast use lemma_seen_push;

    reveal(fifo_ready_log);
    let keep = pauses();
    let old = seen(log, keep);
    assert(old.take(old.len() as int) =~= old);
    if tries > 0 && in16(log, run) & 0x2000 == 0 {
        let log1 = rd16(log, ctr, run);
        let log3 = rd16(rd16(log1, Reg16::Syscfg, run), Reg16::Syssts0, run);
        let log4 = log3.push(Access::Delay { cycles: READY_DELAY_CYCLES });
        lemma_delays_stay(log4, ctr, (tries - 1) as nat, run);
        let mid = seen(log4, keep);
        let new = seen(fifo_ready_log(log4, ctr, (tries - 1) as nat, run).0, keep);
        assert(mid.take(old.len() as int) =~= old);
        assert(new.take(old.len() as int) =~= new.take(mid.len() as int).take(old.len() as int));
    }
}

} // verus!
