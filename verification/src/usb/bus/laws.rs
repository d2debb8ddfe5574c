//! What holds across the operations of the bus.

use crate::bits::lemma_word;
use crate::mmio::Log;
use crate::usb::bus::allocate::{allocation, free_index, free_pipe, granted, Allocation};
use crate::usb::bus::pipes::{pipe_from, pipe_of, Bindings, LAST_PIPE};
use crate::usb::bus::poll::{
    endpoints_ready, endpoints_sent, endpoints_step, ep0_bit, handle_bemp_step, handle_nrdy_log,
    has_sent, poll_step, receives, restart_step, sends, stage_setup_step,
};
use crate::usb::bus::read::{read_ep0_step, read_pipe_step, read_step};
use crate::usb::bus::reset::{cleared, reopen_step, reset_step};
use crate::usb::bus::stall::{stall_ep0_step, stall_pipe_step, stall_step, stalled};
use crate::usb::bus::write::{write_ep0_step, write_pipe_step, write_step};
use crate::usb::endpoint::{
    law_address_is_its_parts, law_address_round_trip, EndpointAddress, EndpointType, PollResult,
    UsbDirection, UsbError,
};
use crate::usb::regs::{bit, has_pipes, law_mask_bits};
use crate::usb::types::{BusState, PipeBinding, UsbEventSnapshot};
use vstd::prelude::*;

verus! {

/// The index found for a new endpoint is the lowest free one, and none is found only if all fifteen
/// are in use.
pub proof fn law_free_index_is_lowest(mask: u16, from: int)
    requires
        0 <= from <= 16,
    ensures
        match free_index(mask, from) {
            Some(index) => {
                &&& from <= index < 16
                &&& mask & bit(index as int) == 0
                &&& forall|i: int| from <= i < index ==> mask & #[trigger] bit(i) != 0
            },
            None => forall|i: int| from <= i < 16 ==> mask & #[trigger] bit(i) != 0,
        },
    decreases 16 - from,
{
    if from < 16 && mask & bit(from) != 0 {
        law_free_index_is_lowest(mask, from + 1);
    }
}

/// The pipe found for a new endpoint is the lowest free one of the range, and none is found only if
/// all of the range are in use.
pub proof fn law_free_pipe_is_lowest(bindings: Bindings, from: int, to: int)
    requires
        0 <= from,
        to < 10,
    ensures
        match free_pipe(bindings, from, to) {
            Some(pipe) => {
                &&& from <= pipe <= to
                &&& bindings[pipe as int] is None
                &&& forall|p: int| from <= p < pipe ==> (#[trigger] bindings[p]) is Some
            },
            None => forall|p: int| from <= p <= to ==> (#[trigger] bindings[p]) is Some,
        },
    decreases to + 1 - from,
{
    if from <= to && bindings[from] is Some {
        law_free_pipe_is_lowest(bindings, from + 1, to);
    }
}

/// What looking an endpoint up from some pipe on finds.
pub proof fn lemma_pipe_from(bindings: Bindings, ep_addr: EndpointAddress, from: int)
    requires
        0 <= from <= 10,
    ensures
        match pipe_from(bindings, ep_addr, from) {
            Some(pipe) => {
                &&& from <= pipe < 10
                &&& bindings[pipe as int] is Some
                &&& bindings[pipe as int]->0.ep_addr == ep_addr
            },
            None => forall|p: int|
                from <= p < 10 ==> !((#[trigger] bindings[p]) is Some && bindings[p]->0.ep_addr
                    == ep_addr),
        },
    decreases 10 - from,
{
    if from < 10 {
        lemma_pipe_from(bindings, ep_addr, from + 1);
    }
}

/// In a well-formed state an endpoint is found on a pipe if and only if it is bound to it.
pub proof fn law_lookup_finds_the_pipe(state: BusState, ep_addr: EndpointAddress, pipe: u8)
    requires
        state.wf(),
    ensures
        pipe_of(state.pipe_bindings@, ep_addr) == Some(pipe) <==> 1 <= pipe <= LAST_PIPE
            && state.pipe_bindings@[pipe as int] is Some
            && state.pipe_bindings@[pipe as int]->0.ep_addr == ep_addr,
{
    reveal(BusState::wf);
    lemma_pipe_from(state.pipe_bindings@, ep_addr, 1);
    if 1 <= pipe <= LAST_PIPE && state.pipe_bindings@[pipe as int] is Some
        && state.pipe_bindings@[pipe as int]->0.ep_addr == ep_addr {
        let found = pipe_of(state.pipe_bindings@, ep_addr);
        assert(found is Some);
        if found->0 < pipe {
            assert(state.pipe_bindings@[found->0 as int]->0.ep_addr
                != state.pipe_bindings@[pipe as int]->0.ep_addr);
        } else if found->0 > pipe {
            assert(state.pipe_bindings@[pipe as int]->0.ep_addr
                != state.pipe_bindings@[found->0 as int]->0.ep_addr);
        }
    }
}

/// A granted endpoint has the requested direction, an index that was free, a pipe of its transfer
/// type and the requested packet size, and is found on this pipe from then on.
pub proof fn law_granted_endpoint_is_usable(
    state: BusState,
    ep_dir: UsbDirection,
    ep_addr: Option<EndpointAddress>,
    ep_type: EndpointType,
    max_packet_size: u16,
    log: Log,
    next: BusState,
    next_log: Log,
    r: Result<EndpointAddress, UsbError>,
)
    requires
        next.wf(),
        granted(
            allocation(state, ep_dir, ep_addr, ep_type, max_packet_size),
            ep_dir,
            state,
            log,
            next,
            next_log,
            r,
        ),
        r is Ok,
    ensures
        r->Ok_0.direction() == ep_dir,
        ep_addr is Some && ep_addr->0.index() != 0 ==> r->Ok_0.index() == ep_addr->0.index(),
        match pipe_of(next.pipe_bindings@, r->Ok_0) {
            Some(pipe) => {
                &&& next.pipe_bindings@[pipe as int] == Some(
                    PipeBinding { ep_addr: r->Ok_0, ep_type, max_packet: max_packet_size },
                )
                &&& ep_type == EndpointType::Bulk ==> 1 <= pipe <= 5
                &&& ep_type == EndpointType::Interrupt ==> 6 <= pipe <= 9
                &&& state.pipe_bindings@[pipe as int] is None
            },
            None => false,
        },
{
    let outcome = allocation(state, ep_dir, ep_addr, ep_type, max_packet_size);
    let index = outcome->Bound_index;
    let pipe = outcome->Bound_pipe;
    let binding = outcome->Bound_binding;
    assert(outcome is Bound);
    law_free_index_is_lowest(state.allocated(ep_dir), 1);
    law_free_pipe_is_lowest(state.pipe_bindings@, 1, 5);
    law_free_pipe_is_lowest(state.pipe_bindings@, 6, 9);
    assert(next.pipe_bindings@[pipe as int] == Some(binding));
    law_lookup_finds_the_pipe(next, binding.ep_addr, pipe);
    assert(1 <= binding.ep_addr.index() < 16) by {
        reveal(BusState::wf);
    }
    if ep_addr is Some && ep_addr->0.index() != 0 {
        let asked = ep_addr->0;
        assert(index == asked.index());
        law_address_is_its_parts(asked);
        law_address_round_trip(index, ep_dir);
    } else {
        law_address_round_trip(index, ep_dir);
    }
}

/// An endpoint that is in use is not granted again.
pub proof fn law_no_endpoint_is_granted_twice(
    state: BusState,
    ep_addr: EndpointAddress,
    ep_type: EndpointType,
    max_packet_size: u16,
)
    requires
        has_pipes(ep_type),
        1 <= ep_addr.index() < 16,
        state.allocated(ep_addr.direction()) & bit(ep_addr.index() as int) != 0,
    ensures
        allocation(state, ep_addr.direction(), Some(ep_addr), ep_type, max_packet_size)
            == (Allocation::Refused { error: UsbError::InvalidEndpoint }),
{
}

/// Stalling an endpoint, or ending its stall, is what a look at it then shows, and no other
/// endpoint is affected.
pub proof fn law_stall_is_observed(
    state: BusState,
    log: Log,
    ep_addr: EndpointAddress,
    stall: bool,
    run: Log,
    other: EndpointAddress,
)
    requires
        ep_addr.index() < 16,
        other.index() < 16,
        ep_addr.index() != 0 ==> pipe_of(state.pipe_bindings@, ep_addr) is Some,
    ensures
        stalled(stall_step(state, log, ep_addr, stall, run).0, ep_addr) == stall,
        other.index() != ep_addr.index() || (other.direction() != ep_addr.direction()
            && ep_addr.index() != 0) ==> stalled(
            stall_step(state, log, ep_addr, stall, run).0,
            other,
        ) == stalled(state, other),
{
    reveal(stall_ep0_step);
    reveal(stall_pipe_step);
    law_mask_bits(state.stalled_in_mask, ep_addr.index() as int, other.index() as int);
    law_mask_bits(state.stalled_out_mask, ep_addr.index() as int, other.index() as int);
}

/// Once a packet is taken for an endpoint, the next one is refused, without any access, until the
/// first one is reported as sent.
pub proof fn law_write_blocks_until_sent(
    state: BusState,
    log: Log,
    ep_addr: EndpointAddress,
    data: Seq<u8>,
    run: Log,
    next_log: Log,
    next_data: Seq<u8>,
    next_run: Log,
)
    requires
        ep_addr.index() != 0,
        write_step(state, log, ep_addr, data, run).result is Ok,
    ensures
        ({
            let state1 = write_step(state, log, ep_addr, data, run).state;
            let next = write_step(state1, next_log, ep_addr, next_data, next_run);
            &&& next.result == Err::<usize, UsbError>(UsbError::WouldBlock)
            &&& next.state == state1
            &&& next.log == next_log
        }),
{
    reveal(write_pipe_step);
    lemma_pipe_from(state.pipe_bindings@, ep_addr, 1);
    let pipe = pipe_of(state.pipe_bindings@, ep_addr)->0;
    law_mask_bits(state.in_busy_mask, pipe as int, pipe as int);
}

/// What the buffer empty reports of the first `n` pipes leave of the busy pipes.
pub proof fn lemma_bemp_frees(
    state: BusState,
    log: Log,
    bempsts: u16,
    n: nat,
    run: Log,
    pipe: int,
)
    requires
        n <= 9,
        1 <= pipe <= 9,
    ensures
        ({
            let next = handle_bemp_step(state, log, bempsts, n, run).0;
            &&& next.in_busy_mask & bit(pipe) == if pipe <= n && has_sent(
                state.pipe_bindings@,
                bempsts,
                pipe,
            ) {
                0
            } else {
                state.in_busy_mask & bit(pipe)
            }
            &&& next == (BusState {
                in_busy_mask: next.in_busy_mask,
                bempenb_shadow: next.bempenb_shadow,
                ..state
            })
        }),
    decreases n,
{
    if n > 0 {
        lemma_bemp_frees(state, log, bempsts, (n - 1) as nat, run, pipe);
        let (state1, log1) = handle_bemp_step(state, log, bempsts, (n - 1) as nat, run);
        law_mask_bits(state1.in_busy_mask, n as int, pipe);
    }
}

/// What restarting idle receivers leaves of the state: all but the interrupt enable masks.
pub proof fn lemma_restart_frame(state: BusState, log: Log, n: nat, run: Log)
    ensures
        ({
            let next = restart_step(state, log, n, run).0;
            next == state.with_masks(next.masks())
        }),
    decreases n,
{
    if n > 0 {
        lemma_restart_frame(state, log, (n - 1) as nat, run);
    }
}

/// A poll that gets to the endpoints frees exactly those pipes whose buffer empty report it
/// answers: they take the next packet, and every other pipe is as busy as before.
pub proof fn law_poll_frees_senders(
    state: BusState,
    log: Log,
    latched: UsbEventSnapshot,
    run: Log,
    pipe: int,
)
    requires
        1 <= pipe <= 9,
    ensures
        endpoints_step(state, log, latched, run).state.in_busy_mask & bit(pipe) == if has_sent(
            state.pipe_bindings@,
            latched.bempsts.0,
            pipe,
        ) {
            0
        } else {
            state.in_busy_mask & bit(pipe)
        },
{
    reveal(endpoints_step);
    reveal(stage_setup_step);
    let log1 = handle_nrdy_log(
        log,
        state.pipe_bindings@,
        latched.nrdysts.0,
        run,
    );
    lemma_restart_frame(state, log1, LAST_PIPE as nat, run);
    let (state2, log2) = restart_step(state, log1, LAST_PIPE as nat, run);
    lemma_bemp_frees(state2, log2, latched.bempsts.0, LAST_PIPE as nat, run, pipe);
}

/// What a poll that gets to the endpoints does with SETUP packets: a waiting packet is kept, a new
/// one is taken if none waits, and the stack is told whether one waits.
pub proof fn law_poll_keeps_first_setup(
    state: BusState,
    log: Log,
    latched: UsbEventSnapshot,
    run: Log,
)
    ensures
        ({
            let step = endpoints_step(state, log, latched, run);
            let waiting = state.ep0_setup_ready || latched.setup_valid;
            &&& step.state.ep0_setup_ready == waiting
            &&& state.ep0_setup_ready ==> step.state.ep0_setup_packet == state.ep0_setup_packet
            &&& !state.ep0_setup_ready && latched.setup_valid ==> step.state.ep0_setup_packet
                == latched.setup_packet
            &&& waiting ==> step.result is Data
            &&& step.result is Data ==> step.result->ep_setup == ep0_bit(waiting)
        }),
{
    reveal(endpoints_step);
    reveal(stage_setup_step);
    let log1 = handle_nrdy_log(log, state.pipe_bindings@, latched.nrdysts.0, run);
    lemma_restart_frame(state, log1, LAST_PIPE as nat, run);
    let (state2, log2) = restart_step(state, log1, LAST_PIPE as nat, run);
    lemma_bemp_frees(state2, log2, latched.bempsts.0, LAST_PIPE as nat, run, 1);
}

/// A SETUP packet that waits is what the next read of the control endpoint returns, whole and
/// without any access, and it is returned only once.
pub proof fn law_setup_packet_is_read_once(
    state: BusState,
    log: Log,
    ep_addr: EndpointAddress,
    buf: Seq<u8>,
    run: Log,
)
    requires
        ep_addr.index() == 0,
        ep_addr.direction() == UsbDirection::Out,
        state.ep0_setup_ready,
        buf.len() >= 8,
    ensures
        ({
            let step = read_step(state, log, ep_addr, buf, run);
            &&& step.result == Ok::<usize, UsbError>(8)
            &&& step.log == log
            &&& step.buf.take(8) == state.ep0_setup_packet@
            &&& step.buf.skip(8) == buf.skip(8)
            &&& !step.state.ep0_setup_ready
            &&& step.state.ep0_last_setup_dir_out == (state.ep0_setup_packet@[0] & 0x80 == 0)
        }),
{
    reveal(read_ep0_step);
    let step = read_step(state, log, ep_addr, buf, run);
    assert(step.buf.take(8) =~= state.ep0_setup_packet@);
    assert(step.buf.skip(8) =~= buf.skip(8));
}

/// An endpoint is reported as having received a packet if and only if it is an OUT endpoint bound
/// to a pipe that reported a full buffer.
pub proof fn law_ready_report_is_exact(state: BusState, brdysts: u16, n: nat, index: int)
    requires
        state.indices_fit(),
        n <= 9,
        0 <= index < 16,
    ensures
        endpoints_ready(state.pipe_bindings@, brdysts, n) & bit(index) != 0 <==> exists|pipe: int|
            1 <= pipe <= n && brdysts & bit(pipe) != 0 && #[trigger] receives(
                state.pipe_bindings@,
                pipe,
            ) && state.pipe_bindings@[pipe]->0.ep_addr.index() == index,
    decreases n,
{
    let bindings = state.pipe_bindings@;
    if n == 0 {
        let b = bit(index);
        lemma_word(b);
    } else {
        law_ready_report_is_exact(state, brdysts, (n - 1) as nat, index);
        let mask = endpoints_ready(bindings, brdysts, (n - 1) as nat);
        if brdysts & bit(n as int) != 0 && receives(bindings, n as int) {
            reveal(BusState::indices_fit);
            let added = bindings[n as int]->0.ep_addr.index() as int;
            law_mask_bits(mask, added, index);
            if added == index {
                assert(receives(bindings, n as int));
            }
        }
    }
}

/// An endpoint is reported as having sent a packet if and only if it is an IN endpoint bound to a
/// pipe that reported an empty buffer.
pub proof fn law_sent_report_is_exact(state: BusState, bempsts: u16, n: nat, index: int)
    requires
        state.indices_fit(),
        n <= 9,
        0 <= index < 16,
    ensures
        endpoints_sent(state.pipe_bindings@, bempsts, n) & bit(index) != 0 <==> exists|pipe: int|
            1 <= pipe <= n && bempsts & bit(pipe) != 0 && #[trigger] sends(
                state.pipe_bindings@,
                pipe,
            ) && state.pipe_bindings@[pipe]->0.ep_addr.index() == index,
    decreases n,
{
    let bindings = state.pipe_bindings@;
    if n == 0 {
        let b = bit(index);
        lemma_word(b);
    } else {
        law_sent_report_is_exact(state, bempsts, (n - 1) as nat, index);
        let mask = endpoints_sent(bindings, bempsts, (n - 1) as nat);
        if bempsts & bit(n as int) != 0 && sends(bindings, n as int) {
            reveal(BusState::indices_fit);
            let added = bindings[n as int]->0.ep_addr.index() as int;
            law_mask_bits(mask, added, index);
            if added == index {
                assert(sends(bindings, n as int));
            }
        }
    }
}

/// Without any report no endpoint is reported.
pub proof fn lemma_no_report(bindings: Bindings, n: nat)
    ensures
        endpoints_ready(bindings, 0, n) == 0,
        endpoints_sent(bindings, 0, n) == 0,
    decreases n,
{
    if n > 0 {
        lemma_no_report(bindings, (n - 1) as nat);
        let b = bit(n as int);
        lemma_word(b);
    }
}

/// A poll without events and without a waiting SETUP packet tells the stack nothing but whether the
/// bus is suspended.
pub proof fn law_poll_without_events_is_quiet(state: BusState, log: Log, run: Log)
    requires
        !state.ep0_setup_ready,
    ensures
        poll_step(state, log, UsbEventSnapshot::none(), run).result == if state.suspended {
            PollResult::Suspend
        } else {
            PollResult::Idle
        },
{
    reveal(endpoints_step);
    reveal(stage_setup_step);
    let latched = UsbEventSnapshot::none();
    let log1 = handle_nrdy_log(log, state.pipe_bindings@, latched.nrdysts.0, run);
    lemma_restart_frame(state, log1, LAST_PIPE as nat, run);
    let (state2, log2) = restart_step(state, log1, LAST_PIPE as nat, run);
    lemma_bemp_frees(state2, log2, latched.bempsts.0, LAST_PIPE as nat, run, 1);
    lemma_no_report(state.pipe_bindings@, LAST_PIPE as nat);
    assert({
        &&& 0u16 & 0x1000u16 == 0
        &&& 0u16 & 0x2000u16 == 0
        &&& 0u16 & 0x4000u16 == 0
        &&& 0u16 & 0x0001u16 == 0
        &&& 0u16 & 0x0007u16 == 0
        &&& 0u16 | 0u16 == 0
    }) by (bit_vector);
}

/// What setting the pipes up again leaves of the state: all but the interrupt enable masks.
pub proof fn lemma_reopen_frame(state: BusState, log: Log, n: nat, run: Log)
    ensures
        ({
            let next = reopen_step(state, log, n, run).0;
            next == state.with_masks(next.masks())
        }),
    decreases n,
{
    if n > 0 {
        lemma_reopen_frame(state, log, (n - 1) as nat, run);
    }
}

/// The interrupt enable masks once the first `n` pipes are set up again.
pub proof fn lemma_reopen_masks(state: BusState, log: Log, n: nat, run: Log, pipe: int)
    requires
        n <= 9,
        0 <= pipe < 10,
    ensures
        ({
            let next = reopen_step(cleared(state), log, n, run).0;
            let receiver = 1 <= pipe <= n && receives(state.pipe_bindings@, pipe);
            &&& next.brdyenb_shadow & bit(pipe) != 0 <==> receiver
            &&& next.nrdyenb_shadow & bit(pipe) != 0 <==> pipe == 0 || receiver
            &&& next.bempenb_shadow & bit(pipe) == 0
        }),
    decreases n,
{
    if n == 0 {
        let p = pipe as u16;
        assert({
            &&& 0u16 & (1u16 << p) == 0
            &&& 1u16 & (1u16 << p) != 0 <==> p == 0
        }) by (bit_vector)
            requires
                p < 10,
        ;
    } else {
        lemma_reopen_masks(state, log, (n - 1) as nat, run, pipe);
        let before = reopen_step(cleared(state), log, (n - 1) as nat, run).0;
        law_mask_bits(before.brdyenb_shadow, n as int, pipe);
        law_mask_bits(before.nrdyenb_shadow, n as int, pipe);
        law_mask_bits(before.bempenb_shadow, n as int, pipe);
        law_mask_bits(before.brdyenb_shadow | bit(n as int), n as int, pipe);
        law_mask_bits(before.nrdyenb_shadow | bit(n as int), n as int, pipe);
    }
}

/// After a reset no endpoint is stalled and no pipe is busy, no SETUP packet waits and the bus is
/// not suspended.
pub proof fn law_reset_forgets(state: BusState, log: Log, run: Log, ep_addr: EndpointAddress)
    ensures
        ({
            let next = reset_step(state, log, run).0;
            &&& !stalled(next, ep_addr)
            &&& next.in_busy_mask == 0
            &&& !next.ep0_setup_ready
            &&& !next.suspended
        }),
{
    reveal(reset_step);
    let b = bit(ep_addr.index() as int);
    lemma_word(b);
    assert forall|l: Log| #[trigger]
        reopen_step(cleared(state), l, LAST_PIPE as nat, run).0 == cleared(state).with_masks(
            reopen_step(cleared(state), l, LAST_PIPE as nat, run).0.masks(),
        ) by {
        lemma_reopen_frame(cleared(state), l, LAST_PIPE as nat, run);
    }
}

/// After a reset a pipe reports a full buffer if and only if an OUT endpoint is bound to it, the
/// control pipe and these pipes report that they are not ready, and no pipe reports an empty
/// buffer.
pub proof fn law_reset_enables_receivers(state: BusState, log: Log, run: Log, pipe: int)
    requires
        0 <= pipe < 10,
    ensures
        ({
            let next = reset_step(state, log, run).0;
            let receiver = 1 <= pipe && receives(state.pipe_bindings@, pipe);
            &&& next.brdyenb_shadow & bit(pipe) != 0 <==> receiver
            &&& next.nrdyenb_shadow & bit(pipe) != 0 <==> pipe == 0 || receiver
            &&& next.bempenb_shadow & bit(pipe) == 0
        }),
{
    reveal(reset_step);
    assert forall|l: Log|
        {
            let next = #[trigger] reopen_step(cleared(state), l, LAST_PIPE as nat, run).0;
            let receiver = 1 <= pipe && receives(state.pipe_bindings@, pipe);
            &&& next.brdyenb_shadow & bit(pipe) != 0 <==> receiver
            &&& next.nrdyenb_shadow & bit(pipe) != 0 <==> pipe == 0 || receiver
            &&& next.bempenb_shadow & bit(pipe) == 0
        } by {
        lemma_reopen_masks(state, l, LAST_PIPE as nat, run, pipe);
    }
}

/// A write takes no more than it was given and no more than fits into one packet, and a packet for
/// a well-formed endpoint other than the control endpoint takes something unless there is nothing
/// to take.
pub proof fn law_write_takes_one_packet(
    state: BusState,
    log: Log,
    ep_addr: EndpointAddress,
    data: Seq<u8>,
    run: Log,
)
    requires
        state.wf(),
        data.len() <= usize::MAX,
        write_step(state, log, ep_addr, data, run).result is Ok,
    ensures
        ({
            let taken = write_step(state, log, ep_addr, data, run).result->Ok_0;
            &&& taken <= data.len()
            &&& ep_addr.index() == 0 ==> taken <= state.ep0_max_packet
            &&& ep_addr.index() != 0 ==> {
                let pipe = pipe_of(state.pipe_bindings@, ep_addr)->0;
                &&& taken <= state.pipe_bindings@[pipe as int]->0.max_packet
                &&& data.len() > 0 ==> taken > 0
            }
        }),
{
    reveal(write_ep0_step);
    reveal(write_pipe_step);
    reveal(BusState::wf);
    lemma_pipe_from(state.pipe_bindings@, ep_addr, 1);
}

/// A read writes no more of the buffer than it reports, and nothing at all if it fails.
pub proof fn law_read_keeps_the_rest(
    state: BusState,
    log: Log,
    ep_addr: EndpointAddress,
    buf: Seq<u8>,
    run: Log,
)
    requires
        buf.len() <= usize::MAX,
    ensures
        ({
            let step = read_step(state, log, ep_addr, buf, run);
            &&& step.buf.len() == buf.len()
            &&& step.result is Err ==> step.buf == buf
            &&& step.result is Ok ==> step.result->Ok_0 <= buf.len() && step.buf.skip(
                step.result->Ok_0 as int,
            ) == buf.skip(step.result->Ok_0 as int)
        }),
{
    reveal(read_ep0_step);
    reveal(read_pipe_step);
    let step = read_step(state, log, ep_addr, buf, run);
    if step.result is Ok {
        let n = step.result->Ok_0 as int;
        assert(step.buf.skip(n) =~= buf.skip(n));
    }
}

} // verus!
