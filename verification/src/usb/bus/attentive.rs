//! The bus never stops listening.
//!
//! A pipe that may receive a packet has its interrupts enabled, and so has a pipe that has a packet
//! on its way to the host. This holds of a fresh state, and every operation of the bus keeps it up.

use crate::bits::lemma_word;
use crate::mmio::Log;
use crate::usb::bus::allocate::{allocation, control_allocation, granted};
use crate::usb::bus::laws::{
    law_free_pipe_is_lowest, law_reset_enables_receivers, lemma_bemp_frees, lemma_pipe_from,
    lemma_reopen_frame, lemma_restart_frame,
};
use crate::usb::bus::pipes::{pipe_of, receiving, LAST_PIPE};
use crate::usb::bus::poll::{
    endpoints_step, handle_bemp_step, handle_nrdy_log, has_sent, poll_step, receives, restart_step,
    sends, stage_setup_step,
};
use crate::usb::bus::read::{read_ep0_step, read_pipe_step, read_step};
use crate::usb::bus::reset::{cleared, reopen_step, reset_step};
use crate::usb::bus::stall::{stall_ep0_step, stall_marked, stall_pipe_step, stall_step};
use crate::usb::bus::write::{write_ep0_step, write_pipe_step, write_step};
use crate::usb::endpoint::{EndpointAddress, EndpointType, UsbDirection, UsbError};
use crate::usb::regs::{bit, law_mask_bits};
use crate::usb::types::{BusState, UsbEventSnapshot};
use vstd::prelude::*;

verus! {

/// A pipe reports received packets if and only if an OUT endpoint is bound to it.
pub open spec fn listens(state: BusState, pipe: int) -> bool {
    &&& state.brdyenb_shadow & bit(pipe) != 0 <==> receives(state.pipe_bindings@, pipe)
    &&& state.nrdyenb_shadow & bit(pipe) != 0 <==> receives(state.pipe_bindings@, pipe)
}

/// A pipe with a packet on its way to the host is bound to an IN endpoint and reports when the
/// packet is sent.
pub open spec fn awaits(state: BusState, pipe: int) -> bool {
    state.in_busy_mask & bit(pipe) != 0 ==> sends(state.pipe_bindings@, pipe)
        && state.bempenb_shadow & bit(pipe) != 0
}

/// A pipe listens, and awaits the end of its packet if it is busy.
pub open spec fn attends(state: BusState, pipe: int) -> bool {
    listens(state, pipe) && awaits(state, pipe)
}

impl BusState {
    /// Every pipe listens, and every busy pipe awaits the end of its packet.
    #[verifier::opaque]
    pub open spec fn attentive(self) -> bool {
        forall|pipe: int| 1 <= pipe <= 9 ==> #[trigger] attends(self, pipe)
    }
}

/// The fresh state is attentive.
pub proof fn law_fresh_is_attentive()
    ensures
        BusState::fresh().attentive(),
{
    reveal(BusState::attentive);
    assert forall|pipe: int| 1 <= pipe <= 9 implies #[trigger] attends(BusState::fresh(), pipe) by {
        let b = bit(pipe);
        lemma_word(b);
    }
}

/// The interrupts of the control pipe are no business of the other pipes.
proof fn lemma_ep0_bits(mask: u16, pipe: int)
    requires
        1 <= pipe <= 9,
    ensures
        ((mask | 0) & !1u16) & bit(pipe) == mask & bit(pipe),
        ((mask | 1) & !0u16) & bit(pipe) == mask & bit(pipe),
{
    let p = pipe as u16;
    assert({
        &&& ((mask | 0) & !1u16) & (1u16 << p) == mask & (1u16 << p)
        &&& ((mask | 1) & !0u16) & (1u16 << p) == mask & (1u16 << p)
    }) by (bit_vector)
        requires
            1 <= p <= 9,
    ;
}

/// A state stays attentive if its pipes keep what attention depends on.
proof fn lemma_attentive_frame(state: BusState, next: BusState)
    requires
        state.attentive(),
        next.pipe_bindings == state.pipe_bindings,
        forall|pipe: int|
            1 <= pipe <= 9 ==> {
                &&& next.brdyenb_shadow & #[trigger] bit(pipe) == state.brdyenb_shadow & bit(pipe)
                &&& next.nrdyenb_shadow & bit(pipe) == state.nrdyenb_shadow & bit(pipe)
                &&& next.bempenb_shadow & bit(pipe) == state.bempenb_shadow & bit(pipe)
                &&& next.in_busy_mask & bit(pipe) != 0 ==> state.in_busy_mask & bit(pipe) != 0
            },
    ensures
        next.attentive(),
{
    reveal(BusState::attentive);
    assert forall|pipe: int| 1 <= pipe <= 9 implies #[trigger] attends(next, pipe) by {
        assert(attends(state, pipe));
        assert(next.brdyenb_shadow & bit(pipe) == state.brdyenb_shadow & bit(pipe));
    }
}

/// Starting reception on a pipe of an OUT endpoint keeps the state attentive.
proof fn lemma_receiving_attentive(state: BusState, pipe: u8)
    requires
        state.attentive(),
        1 <= pipe <= 9,
        receives(state.pipe_bindings@, pipe as int),
    ensures
        receiving(state, pipe).attentive(),
{
    reveal(BusState::attentive);
    let next = receiving(state, pipe);
    assert forall|p: int| 1 <= p <= 9 implies #[trigger] attends(next, p) by {
        assert(attends(state, p));
        law_mask_bits(state.brdyenb_shadow, pipe as int, p);
        law_mask_bits(state.nrdyenb_shadow, pipe as int, p);
    }
}

/// Allocating an endpoint keeps the state attentive.
pub proof fn law_allocation_keeps_attention(
    state: BusState,
    ep_dir: UsbDirection,
    ep_addr: Option<EndpointAddress>,
    ep_type: EndpointType,
    max_packet_size: u16,
    log: Log,
    next: BusState,
    next_log: Log,
    r: Result<EndpointAddress, UsbError>,
)
    requires
        state.attentive(),
        granted(
            allocation(state, ep_dir, ep_addr, ep_type, max_packet_size),
            ep_dir,
            state,
            log,
            next,
            next_log,
            r,
        ),
    ensures
        next.attentive(),
{
    reveal(BusState::attentive);
    let outcome = allocation(state, ep_dir, ep_addr, ep_type, max_packet_size);
    law_free_pipe_is_lowest(state.pipe_bindings@, 1, 5);
    law_free_pipe_is_lowest(state.pipe_bindings@, 6, 9);
    assert forall|p: int| 1 <= p <= 9 implies #[trigger] attends(next, p) by {
        assert(attends(state, p));
        if outcome is Bound {
            let pipe = outcome->Bound_pipe as int;
            let binding = outcome->Bound_binding;
            assert(1 <= pipe <= 9);
            assert(state.pipe_bindings@[pipe] is None);
            assert(next.pipe_bindings@[p] == if p == pipe {
                Some(binding)
            } else {
                state.pipe_bindings@[p]
            });
            assert(attends(state, pipe));
            law_mask_bits(state.brdyenb_shadow, pipe, p);
            law_mask_bits(state.nrdyenb_shadow, pipe, p);
            law_mask_bits(state.bempenb_shadow, pipe, p);
            law_mask_bits(state.brdyenb_shadow | bit(pipe), pipe, p);
            law_mask_bits(state.nrdyenb_shadow | bit(pipe), pipe, p);
        }
    }
}

/// Allocating a control endpoint keeps the state attentive.
pub proof fn law_control_allocation_keeps_attention(
    state: BusState,
    ep_dir: UsbDirection,
    ep_addr: Option<EndpointAddress>,
    max_packet_size: u16,
)
    requires
        state.attentive(),
    ensures
        control_allocation(state, ep_dir, ep_addr, max_packet_size).0.attentive(),
{
    lemma_attentive_frame(
        state,
        control_allocation(state, ep_dir, ep_addr, max_packet_size).0,
    );
}

/// Sending keeps the state attentive.
pub proof fn law_write_keeps_attention(
    state: BusState,
    log: Log,
    ep_addr: EndpointAddress,
    data: Seq<u8>,
    run: Log,
)
    requires
        state.attentive(),
    ensures
        write_step(state, log, ep_addr, data, run).state.attentive(),
{
    reveal(write_ep0_step);
    reveal(write_pipe_step);
    let next = write_step(state, log, ep_addr, data, run).state;
    lemma_pipe_from(state.pipe_bindings@, ep_addr, 1);
    assert forall|p: int| 1 <= p <= 9 implies {
        &&& (state.brdyenb_shadow | 0) & !1u16 & #[trigger] bit(p) == state.brdyenb_shadow & bit(p)
        &&& (state.nrdyenb_shadow | 0) & !1u16 & bit(p) == state.nrdyenb_shadow & bit(p)
        &&& (state.bempenb_shadow | 0) & !1u16 & bit(p) == state.bempenb_shadow & bit(p)
        &&& (state.bempenb_shadow | 1) & !0u16 & bit(p) == state.bempenb_shadow & bit(p)
    } by {
        lemma_ep0_bits(state.brdyenb_shadow, p);
        lemma_ep0_bits(state.nrdyenb_shadow, p);
        lemma_ep0_bits(state.bempenb_shadow, p);
    }
    let pipe = pipe_of(state.pipe_bindings@, ep_addr);
    if ep_addr.direction() == UsbDirection::In && ep_addr.index() != 0 && pipe is Some && next
        != state {
        reveal(BusState::attentive);
        let n = pipe->0 as int;
        assert forall|p: int| 1 <= p <= 9 implies #[trigger] attends(next, p) by {
            assert(attends(state, p));
            law_mask_bits(state.in_busy_mask, n, p);
            law_mask_bits(state.bempenb_shadow, n, p);
            let b = state.bempenb_shadow | bit(n);
            lemma_word(b);
        }
    } else {
        lemma_attentive_frame(state, next);
    }
}

/// Receiving keeps the state attentive.
pub proof fn law_read_keeps_attention(
    state: BusState,
    log: Log,
    ep_addr: EndpointAddress,
    buf: Seq<u8>,
    run: Log,
)
    requires
        state.attentive(),
    ensures
        read_step(state, log, ep_addr, buf, run).state.attentive(),
{
    reveal(read_ep0_step);
    reveal(read_pipe_step);
    let next = read_step(state, log, ep_addr, buf, run).state;
    lemma_pipe_from(state.pipe_bindings@, ep_addr, 1);
    assert forall|p: int| 1 <= p <= 9 implies {
        &&& (state.brdyenb_shadow | 0) & !1u16 & #[trigger] bit(p) == state.brdyenb_shadow & bit(p)
        &&& (state.nrdyenb_shadow | 0) & !1u16 & bit(p) == state.nrdyenb_shadow & bit(p)
        &&& (state.bempenb_shadow | 0) & !1u16 & bit(p) == state.bempenb_shadow & bit(p)
    } by {
        lemma_ep0_bits(state.brdyenb_shadow, p);
        lemma_ep0_bits(state.nrdyenb_shadow, p);
        lemma_ep0_bits(state.bempenb_shadow, p);
    }
    let pipe = pipe_of(state.pipe_bindings@, ep_addr);
    if ep_addr.direction() == UsbDirection::Out && ep_addr.index() != 0 && pipe is Some {
        lemma_receiving_attentive(state, pipe->0);
    } else {
        lemma_attentive_frame(state, next);
    }
}

/// Stalling an endpoint, or ending its stall, keeps the state attentive.
pub proof fn law_stall_keeps_attention(
    state: BusState,
    log: Log,
    ep_addr: EndpointAddress,
    stall: bool,
    run: Log,
)
    requires
        state.attentive(),
        ep_addr.index() != 0 && pipe_of(state.pipe_bindings@, ep_addr) is Some ==> ep_addr.index()
            < 16,
    ensures
        stall_step(state, log, ep_addr, stall, run).0.attentive(),
{
    reveal(stall_ep0_step);
    reveal(stall_pipe_step);
    let next = stall_step(state, log, ep_addr, stall, run).0;
    lemma_pipe_from(state.pipe_bindings@, ep_addr, 1);
    let pipe = pipe_of(state.pipe_bindings@, ep_addr);
    if ep_addr.index() != 0 && pipe is Some {
        let index = ep_addr.index() as int;
        let marked = stall_marked(state, ep_addr, stall);
        assert forall|p: int|
            1 <= p <= 9 && marked.in_busy_mask & #[trigger] bit(p) != 0 implies state.in_busy_mask
            & bit(p) != 0 by {
            law_mask_bits(state.in_busy_mask, index, p);
        }
        lemma_attentive_frame(state, marked);
        if !stall && ep_addr.direction() == UsbDirection::Out {
            lemma_receiving_attentive(marked, pipe->0);
        }
    } else {
        lemma_attentive_frame(state, next);
    }
}

/// A reset leaves the state attentive, whatever it was before.
pub proof fn law_reset_restores_attention(state: BusState, log: Log, run: Log)
    ensures
        reset_step(state, log, run).0.attentive(),
{
    reveal(BusState::attentive);
    let next = reset_step(state, log, run).0;
    assert(next == cleared(state).with_masks(next.masks())) by {
        reveal(reset_step);
        assert forall|l: Log| #[trigger]
            reopen_step(cleared(state), l, LAST_PIPE as nat, run).0 == cleared(state).with_masks(
                reopen_step(cleared(state), l, LAST_PIPE as nat, run).0.masks(),
            ) by {
            lemma_reopen_frame(cleared(state), l, LAST_PIPE as nat, run);
        }
    }
    assert forall|p: int| 1 <= p <= 9 implies #[trigger] attends(next, p) by {
        law_reset_enables_receivers(state, log, run, p);
        let b = bit(p);
        lemma_word(b);
    }
}

/// Making idle receivers ready again keeps the state attentive.
proof fn lemma_restart_attentive(state: BusState, log: Log, n: nat, run: Log)
    requires
        state.attentive(),
        n <= 9,
    ensures
        restart_step(state, log, n, run).0.attentive(),
    decreases n,
{
    if n > 0 {
        lemma_restart_attentive(state, log, (n - 1) as nat, run);
        lemma_restart_frame(state, log, (n - 1) as nat, run);
        if receives(state.pipe_bindings@, n as int) {
            lemma_receiving_attentive(
                restart_step(state, log, (n - 1) as nat, run).0,
                n as u8,
            );
        }
    }
}

/// Answering buffer empty reports keeps the state attentive: a pipe whose report is answered is no
/// longer busy.
proof fn lemma_bemp_attentive(state: BusState, log: Log, bempsts: u16, n: nat, run: Log)
    requires
        state.attentive(),
        n <= 9,
    ensures
        handle_bemp_step(state, log, bempsts, n, run).0.attentive(),
    decreases n,
{
    if n > 0 {
        lemma_bemp_attentive(state, log, bempsts, (n - 1) as nat, run);
        lemma_bemp_frees(state, log, bempsts, (n - 1) as nat, run, 1);
        if has_sent(state.pipe_bindings@, bempsts, n as int) {
            reveal(BusState::attentive);
            let before = handle_bemp_step(state, log, bempsts, (n - 1) as nat, run).0;
            let next = handle_bemp_step(state, log, bempsts, n, run).0;
            assert forall|p: int| 1 <= p <= 9 implies #[trigger] attends(next, p) by {
                assert(attends(before, p));
                law_mask_bits(before.in_busy_mask, n as int, p);
                law_mask_bits(before.bempenb_shadow, n as int, p);
            }
        }
    }
}

/// A poll keeps the state attentive.
pub proof fn law_poll_keeps_attention(
    state: BusState,
    log: Log,
    latched: UsbEventSnapshot,
    run: Log,
)
    requires
        state.attentive(),
    ensures
        poll_step(state, log, latched, run).state.attentive(),
{
    assert forall|l: Log| #[trigger] endpoints_step(state, l, latched, run).state.attentive() by {
        reveal(endpoints_step);
        reveal(stage_setup_step);
        let log1 = handle_nrdy_log(l, state.pipe_bindings@, latched.nrdysts.0, run);
        lemma_restart_attentive(state, log1, LAST_PIPE as nat, run);
        let (state2, log2) = restart_step(state, log1, LAST_PIPE as nat, run);
        lemma_bemp_attentive(state2, log2, latched.bempsts.0, LAST_PIPE as nat, run);
        let state3 = handle_bemp_step(state2, log2, latched.bempsts.0, LAST_PIPE as nat, run).0;
        lemma_attentive_frame(state3, endpoints_step(state, l, latched, run).state);
    }
}

} // verus!
