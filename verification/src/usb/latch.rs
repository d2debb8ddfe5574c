//! What happens to an event between the interrupt handler and the bus.
//!
//! The latch is a cell that the interrupt handler fills and the bus empties. Nothing here depends
//! on the hardware but this: a cell that is loaded returns what was stored in it last.

use crate::mmio::{in_pending, ld_pending, Access, Log};
use crate::summary::{latch, lemma_summary_empty, lemma_summary_push, Latch};
use crate::trace::{lemma_seen_push, seen};
use crate::usb::bus::poll::drain_log;
use crate::usb::driver::{
    capture_log, clear_capture_state_log, latch_log, sample_log, take_events_log, taken_event,
};
use crate::usb::types::{
    law_empty_event_changes_nothing, law_empty_event_has_no_flag, law_latching_is_transparent,
    UsbEventSnapshot, UsbIrqEvent,
};
use vstd::prelude::*;

verus! {

broadcast use lemma_summary_push;

/// Before any access the latch is empty.
pub proof fn law_latch_starts_empty()
    ensures
        latch(Seq::<Access>::empty()) == Latch::start(),
{
    lemma_summary_empty();
}

/// Looking for the cause of an interrupt leaves the latch alone.
proof fn lemma_sample_keeps_latch(log: Log, run: Log)
    ensures
        latch(sample_log(log, run).0) == latch(log),
{
    reveal(sample_log);
}

/// An interrupt merges its event into the latch and announces it. An interrupt without an event
/// leaves the latch alone.
pub proof fn law_interrupt_latches_its_event(log: Log, run: Log)
    requires
        latch(capture_log(log, run)).faithful,
    ensures
        ({
            let event = sample_log(log, run).1;
            let after = latch(capture_log(log, run));
            if event.is_empty() {
                after == latch(log)
            } else {
                &&& after.event == latch(log).event.merged(event)
                &&& after.pending
            }
        }),
{
    reveal(latch_log);
    lemma_sample_keeps_latch(log, run);
}

/// Taking the event returns what is in the latch and leaves it empty and unannounced.
pub proof fn law_taking_empties_the_latch(log: Log, run: Log)
    requires
        latch(take_events_log(log, run)).faithful,
    ensures
        taken_event(log, run) == latch(log).event,
        latch(take_events_log(log, run)).event == UsbIrqEvent::none(),
        !latch(take_events_log(log, run)).pending,
{
    reveal(take_events_log);
}

/// A bus reset leaves the latch empty and unannounced.
pub proof fn law_reset_empties_the_latch(log: Log, run: Log)
    ensures
        latch(clear_capture_state_log(log, run)).event == UsbIrqEvent::none(),
        !latch(clear_capture_state_log(log, run)).pending,
{
    reveal(clear_capture_state_log);
}

/// An event never waits unannounced, so a bus that takes events until none is announced misses
/// none.
pub proof fn law_waiting_events_are_announced(log: Log, run: Log)
    requires
        latch(log).announced(),
    ensures
        latch(capture_log(log, run)).faithful ==> latch(capture_log(log, run)).announced(),
        latch(take_events_log(log, run)).faithful ==> latch(take_events_log(log, run)).announced(),
        latch(clear_capture_state_log(log, run)).announced(),
{
    if latch(capture_log(log, run)).faithful {
        law_interrupt_latches_its_event(log, run);
    }
    if latch(take_events_log(log, run)).faithful {
        law_taking_empties_the_latch(log, run);
    }
    law_reset_empties_the_latch(log, run);
}

/// `log` followed by `n` interrupts.
pub open spec fn interrupts_log(log: Log, n: nat, run: Log) -> Log
    decreases n,
{
    if n == 0 {
        log
    } else {
        capture_log(interrupts_log(log, (n - 1) as nat, run), run)
    }
}

/// What the bus would see if it took the event of each of `n` interrupts right after the interrupt.
pub open spec fn told_one_by_one(
    snapshot: UsbEventSnapshot,
    log: Log,
    n: nat,
    run: Log,
) -> UsbEventSnapshot
    decreases n,
{
    if n == 0 {
        snapshot
    } else {
        let before = interrupts_log(log, (n - 1) as nat, run);
        told_one_by_one(snapshot, log, (n - 1) as nat, run).with_event(sample_log(before, run).1)
    }
}

/// No event is lost: however many interrupts come before the bus takes what they latched, it sees
/// their events as if it had taken them one by one.
pub proof fn law_no_event_is_lost(log: Log, n: nat, run: Log, snapshot: UsbEventSnapshot)
    requires
        ({
            let after = interrupts_log(log, n, run);
            latch(take_events_log(after, run)).faithful
        }),
    ensures
        ({
            let after = interrupts_log(log, n, run);
            snapshot.with_event(taken_event(after, run)) == told_one_by_one(
                snapshot.with_event(latch(log).event),
                log,
                n,
                run,
            )
        }),
{
    let after = interrupts_log(log, n, run);
    law_taking_empties_the_latch(after, run);
    lemma_taking_was_faithful(after, run);
    lemma_interrupts_add_up(log, n, run, snapshot);
}

proof fn lemma_taking_was_faithful(log: Log, run: Log)
    requires
        latch(take_events_log(log, run)).faithful,
    ensures
        latch(log).faithful,
{
    reveal(take_events_log);
}

proof fn lemma_interrupt_was_faithful(log: Log, run: Log)
    requires
        latch(capture_log(log, run)).faithful,
    ensures
        latch(log).faithful,
{
    reveal(latch_log);
    lemma_sample_keeps_latch(log, run);
}

/// What the latch holds after `n` interrupts is what they amount to for the bus.
proof fn lemma_interrupts_add_up(log: Log, n: nat, run: Log, snapshot: UsbEventSnapshot)
    requires
        latch(interrupts_log(log, n, run)).faithful,
    ensures
        snapshot.with_event(latch(interrupts_log(log, n, run)).event) == told_one_by_one(
            snapshot.with_event(latch(log).event),
            log,
            n,
            run,
        ),
    decreases n,
{
    if n > 0 {
        let before = interrupts_log(log, (n - 1) as nat, run);
        let event = sample_log(before, run).1;
        lemma_interrupt_was_faithful(before, run);
        lemma_interrupts_add_up(log, (n - 1) as nat, run, snapshot);
        law_interrupt_latches_its_event(before, run);
        if event.is_empty() {
            law_empty_event_changes_nothing(snapshot.with_event(latch(before).event), event);
        } else {
            law_latching_is_transparent(snapshot, latch(before).event, event);
        }
    }
}

proof fn lemma_draining_was_faithful(log: Log, events: UsbEventSnapshot, limit: nat, run: Log)
    requires
        latch(drain_log(log, events, limit, run).0).faithful,
    ensures
        latch(log).faithful,
    decreases limit,
{
    reveal(drain_log);
    if limit > 0 && in_pending(log, run) {
        let log1 = ld_pending(log, run);
        lemma_draining_was_faithful(
            take_events_log(log1, run),
            events.with_event(taken_event(log1, run)),
            (limit - 1) as nat,
            run,
        );
        lemma_taking_was_faithful(log1, run);
    }
}

/// A poll sees what waits in the latch, and nothing else beside what it had seen before. It leaves
/// the latch empty and unannounced.
pub proof fn law_polling_takes_the_waiting_event(
    log: Log,
    events: UsbEventSnapshot,
    limit: nat,
    run: Log,
)
    requires
        limit > 0,
        latch(log).announced(),
        latch(drain_log(log, events, limit, run).0).faithful,
    ensures
        drain_log(log, events, limit, run).1 == events.with_event(latch(log).event),
        latch(drain_log(log, events, limit, run).0).event.is_empty(),
        !latch(drain_log(log, events, limit, run).0).pending,
{
    reveal_with_fuel(drain_log, 2);
    let log1 = ld_pending(log, run);
    if in_pending(log, run) {
        let log2 = take_events_log(log1, run);
        let seen = events.with_event(taken_event(log1, run));
        lemma_draining_was_faithful(log2, seen, (limit - 1) as nat, run);
        law_taking_empties_the_latch(log1, run);
        if limit > 1 && in_pending(log2, run) {
            lemma_draining_was_faithful(
                take_events_log(ld_pending(log2, run), run),
                seen.with_event(taken_event(ld_pending(log2, run), run)),
                (limit - 2) as nat,
                run,
            );
            lemma_taking_was_faithful(ld_pending(log2, run), run);
        }
    } else {
        law_empty_event_changes_nothing(events, latch(log).event);
    }
}

/// Accesses to the latch and the limits of critical sections.
pub open spec fn latch_accesses() -> spec_fn(Access) -> bool {
    |access: Access|
        match access {
            Access::LoadLatched { .. } | Access::StoreLatched { .. } => true,
            Access::LoadPending { .. } | Access::StorePending { .. } => true,
            Access::Enter | Access::Leave => true,
            _ => false,
        }
}

/// An event is merged into what the latch holds and announced in one critical section.
pub proof fn law_latching_is_one_section(log: Log, event: UsbIrqEvent, run: Log)
    ensures
        ({
            let after = latch_log(log, event, run);
            let new = seen(after, latch_accesses()).skip(seen(log, latch_accesses()).len() as int);
            let held = new[1]->LoadLatched_value;
            &&& new == seq![
                Access::Enter,
                Access::LoadLatched { value: held },
                Access::StoreLatched { value: held.merged(event) },
                Access::StorePending { value: true },
                Access::Leave,
            ]
            &&& after.len() == log.len() + 5
        }),
{
    broadcast use lemma_seen_push;

    reveal(latch_log);
    let after = latch_log(log, event, run);
    let new = seen(after, latch_accesses()).skip(seen(log, latch_accesses()).len() as int);
    let held = new[1]->LoadLatched_value;
    assert(new =~= seq![
        Access::Enter,
        Access::LoadLatched { value: held },
        Access::StoreLatched { value: held.merged(event) },
        Access::StorePending { value: true },
        Access::Leave,
    ]);
}

/// The announcement is withdrawn before the event is taken, so that an event that is latched in
/// between is announced again. The event is taken and replaced by an empty one in one critical
/// section.
pub proof fn law_taking_is_one_section(log: Log, run: Log)
    ensures
        ({
            let after = take_events_log(log, run);
            let new = seen(after, latch_accesses()).skip(seen(log, latch_accesses()).len() as int);
            &&& new == seq![
                Access::StorePending { value: false },
                Access::Enter,
                Access::LoadLatched { value: taken_event(log, run) },
                Access::StoreLatched { value: UsbIrqEvent::none() },
                Access::Leave,
            ]
            &&& after.len() == log.len() + 5
        }),
{
    broadcast use lemma_seen_push;

    reveal(take_events_log);
    let after = take_events_log(log, run);
    let new = seen(after, latch_accesses()).skip(seen(log, latch_accesses()).len() as int);
    assert(new =~= seq![
        Access::StorePending { value: false },
        Access::Enter,
        Access::LoadLatched { value: taken_event(log, run) },
        Access::StoreLatched { value: UsbIrqEvent::none() },
        Access::Leave,
    ]);
}

/// An interrupt that has found something latches it, and one that has found nothing does not touch
/// the latch.
pub proof fn law_interrupt_latches_what_it_finds(log: Log, run: Log)
    ensures
        ({
            let (sampled, event) = sample_log(log, run);
            let something = event.intsts0.0 != 0 || event.intsts1.0 != 0 || event.brdysts.0 != 0
                || event.nrdysts.0 != 0 || event.bempsts.0 != 0 || event.valid_high
                || event.setup_valid;
            capture_log(log, run) == if something {
                latch_log(sampled, event, run)
            } else {
                sampled
            }
        }),
{
    law_empty_event_has_no_flag(sample_log(log, run).1);
    reveal(sample_log);
}

} // verus!
