//! What a poll tells the USB stack, and how it answers the reports of the hardware.

use crate::bits::lemma_word;
use crate::mmio::Log;
use crate::usb::bus::laws::{
    law_ready_report_is_exact, law_sent_report_is_exact, lemma_bemp_frees, lemma_restart_frame,
};
use crate::usb::bus::pipes::LAST_PIPE;
use crate::usb::bus::poll::{
    endpoints_ready, endpoints_sent, endpoints_step, handle_nrdy_log, poll_step, receives,
    restart_step, sends, stage_setup_step,
};
use crate::usb::endpoint::{law_address_by_arithmetic, PollResult};
use crate::usb::regs::{bit};
use crate::usb::types::{BusState, UsbEventSnapshot};
use vstd::prelude::*;

verus! {

/// A SETUP packet waits: one waited before, or the events hold one.
pub open spec fn setup_waits(state: BusState, events: UsbEventSnapshot) -> bool {
    state.ep0_setup_ready || events.setup_valid
}

/// An OUT endpoint has something to read, going by the buffer ready reports. The control endpoint
/// has if its pipe reports it and no SETUP packet waits, or if the control transfer has reached the
/// status stage of a read, which is stage 2.
pub open spec fn has_data(state: BusState, events: UsbEventSnapshot, index: int) -> bool {
    if index == 0 {
        events.ctrt_ctsq % 8 == 2 || (events.brdysts.0 % 2 == 1 && !setup_waits(state, events))
    } else {
        exists|pipe: int|
            1 <= pipe <= 9 && (#[trigger] state.pipe_bindings@[pipe]) is Some
                && state.pipe_bindings@[pipe]->0.ep_addr.0 == index && events.brdysts.0 & (1u16
                << pipe) != 0
    }
}

/// An IN endpoint has sent its packet, going by the buffer empty reports.
pub open spec fn has_gone(state: BusState, events: UsbEventSnapshot, index: int) -> bool {
    if index == 0 {
        events.bempsts.0 % 2 == 1
    } else {
        exists|pipe: int|
            1 <= pipe <= 9 && (#[trigger] state.pipe_bindings@[pipe]) is Some
                && state.pipe_bindings@[pipe]->0.ep_addr.0 == 128 + index && events.bempsts.0 & (
            1u16 << pipe) != 0
    }
}

/// A mask without any of the sixteen bits is zero.
proof fn lemma_mask_is_its_bits(mask: u16)
    ensures
        mask != 0 <==> exists|i: int| 0 <= i < 16 && mask & #[trigger] bit(i) != 0,
{
    assert(mask == 0 <==> {
        &&& mask & (1u16 << 0u16) == 0 && mask & (1u16 << 1u16) == 0
        &&& mask & (1u16 << 2u16) == 0 && mask & (1u16 << 3u16) == 0
        &&& mask & (1u16 << 4u16) == 0 && mask & (1u16 << 5u16) == 0
        &&& mask & (1u16 << 6u16) == 0 && mask & (1u16 << 7u16) == 0
        &&& mask & (1u16 << 8u16) == 0 && mask & (1u16 << 9u16) == 0
        &&& mask & (1u16 << 10u16) == 0 && mask & (1u16 << 11u16) == 0
        &&& mask & (1u16 << 12u16) == 0 && mask & (1u16 << 13u16) == 0
        &&& mask & (1u16 << 14u16) == 0 && mask & (1u16 << 15u16) == 0
    }) by (bit_vector);
    if mask == 0 {
        assert forall|i: int| 0 <= i < 16 implies mask & #[trigger] bit(i) == 0 by {
            let b = bit(i);
            lemma_word(b);
        }
    } else {
        assert(mask & bit(0) != 0 || mask & bit(1) != 0 || mask & bit(2) != 0 || mask & bit(3) != 0
            || mask & bit(4) != 0 || mask & bit(5) != 0 || mask & bit(6) != 0 || mask & bit(7) != 0
            || mask & bit(8) != 0 || mask & bit(9) != 0 || mask & bit(10) != 0 || mask & bit(11)
            != 0 || mask & bit(12) != 0 || mask & bit(13) != 0 || mask & bit(14) != 0 || mask & bit(
            15,
        ) != 0);
    }
}

/// The OUT endpoints that are told are those that have data.
proof fn lemma_told_out(state: BusState, events: UsbEventSnapshot, ep0: bool, index: int)
    requires
        state.wf(),
        state.indices_fit(),
        0 <= index < 16,
        ep0 == has_data(state, events, 0),
    ensures
        ({
            let mask = endpoints_ready(state.pipe_bindings@, events.brdysts.0, LAST_PIPE as nat)
                | if ep0 {
                1u16
            } else {
                0u16
            };
            mask & bit(index) != 0 <==> has_data(state, events, index)
        }),
{
    let bindings = state.pipe_bindings@;
    let mask = endpoints_ready(bindings, events.brdysts.0, LAST_PIPE as nat);
    law_ready_report_is_exact(state, events.brdysts.0, LAST_PIPE as nat, index);
    reveal(BusState::wf);
    assert forall|pipe: int| 1 <= pipe <= 9 && bindings[pipe] is Some implies #[trigger] receives(
        bindings,
        pipe,
    ) == (bindings[pipe]->0.ep_addr.0 < 128) && bindings[pipe]->0.ep_addr.index()
        == bindings[pipe]->0.ep_addr.0 % 128 by {
        law_address_by_arithmetic(bindings[pipe]->0.ep_addr);
    }
    if index != 0 && has_data(state, events, index) {
        let pipe = choose|pipe: int|
            1 <= pipe <= 9 && (#[trigger] state.pipe_bindings@[pipe]) is Some
                && state.pipe_bindings@[pipe]->0.ep_addr.0 == index && events.brdysts.0 & (1u16
                << pipe) != 0;
        assert(receives(bindings, pipe));
    }
    lemma_with_bit_0(mask, index);
}

/// The IN endpoints that are told are those whose packet has gone.
proof fn lemma_told_in(state: BusState, events: UsbEventSnapshot, ep0: bool, index: int)
    requires
        state.wf(),
        state.indices_fit(),
        0 <= index < 16,
        ep0 == has_gone(state, events, 0),
    ensures
        ({
            let mask = endpoints_sent(state.pipe_bindings@, events.bempsts.0, LAST_PIPE as nat)
                | if ep0 {
                1u16
            } else {
                0u16
            };
            mask & bit(index) != 0 <==> has_gone(state, events, index)
        }),
{
    let bindings = state.pipe_bindings@;
    let mask = endpoints_sent(bindings, events.bempsts.0, LAST_PIPE as nat);
    law_sent_report_is_exact(state, events.bempsts.0, LAST_PIPE as nat, index);
    reveal(BusState::wf);
    assert forall|pipe: int| 1 <= pipe <= 9 && bindings[pipe] is Some implies #[trigger] sends(
        bindings,
        pipe,
    ) == (bindings[pipe]->0.ep_addr.0 >= 128) && bindings[pipe]->0.ep_addr.index()
        == bindings[pipe]->0.ep_addr.0 % 128 by {
        law_address_by_arithmetic(bindings[pipe]->0.ep_addr);
    }
    if index != 0 && has_gone(state, events, index) {
        let pipe = choose|pipe: int|
            1 <= pipe <= 9 && (#[trigger] state.pipe_bindings@[pipe]) is Some
                && state.pipe_bindings@[pipe]->0.ep_addr.0 == 128 + index && events.bempsts.0 & (
            1u16 << pipe) != 0;
        assert(sends(bindings, pipe));
    }
    lemma_with_bit_0(mask, index);
}

/// Adding the control endpoint to a mask adds nothing else.
proof fn lemma_with_bit_0(mask: u16, index: int)
    requires
        0 <= index < 16,
    ensures
        (mask | 0u16) & bit(index) == mask & bit(index),
        (mask | 1u16) & bit(index) != 0 <==> index == 0 || mask & bit(index) != 0,
{
    let i = index as u16;
    assert({
        &&& (mask | 0u16) & (1u16 << i) == mask & (1u16 << i)
        &&& (mask | 1u16) & (1u16 << i) != 0 <==> i == 0 || mask & (1u16 << i) != 0
    }) by (bit_vector)
        requires
            i < 16,
    ;
}

/// Something has happened on an endpoint that the stack has to know.
pub open spec fn has_news(state: BusState, events: UsbEventSnapshot, index: int) -> bool {
    has_data(state, events, index) || has_gone(state, events, index)
}

/// What the stack is to be told of events. A bus reset is told if and only if the events report a
/// change of the device state, which is bit 12, to the default state, which is 1 in bits 4 to 6.
/// Else a resume is told if and only if they report one, which is bit 14. Else the stack is told of
/// data if there is any, with exactly the endpoints that have a packet, have sent one or have a
/// SETUP packet, else of suspension if the bus is suspended, else of nothing.
pub open spec fn tells(state: BusState, events: UsbEventSnapshot, r: PollResult) -> bool {
    let flags = events.intsts0.0;
    let reset = flags & 0x1000 != 0 && flags & 0x0070 == 0x0010;
    let resume = flags & 0x4000 != 0;
    let setup = setup_waits(state, events);
    let data = setup || exists|index: int|
        0 <= index < 16 && #[trigger] has_news(state, events, index);
    &&& r is Reset <==> reset
    &&& r is Resume <==> !reset && resume
    &&& r is Data <==> !reset && !resume && data
    &&& r is Suspend <==> !reset && !resume && !data && state.suspended
    &&& r is Idle <==> !reset && !resume && !data && !state.suspended
    &&& r is Data ==> {
        &&& r->ep_setup == if setup {
            1u16
        } else {
            0
        }
        &&& forall|index: int|
            0 <= index < 16 ==> (r->ep_out & #[trigger] (1u16 << index) != 0 <==> has_data(
                state,
                events,
                index,
            ))
        &&& forall|index: int|
            0 <= index < 16 ==> (r->ep_in_complete & #[trigger] (1u16 << index) != 0 <==> has_gone(
                state,
                events,
                index,
            ))
    }
}

/// A poll tells the stack what the events amount to, neither more nor less.
#[verifier::rlimit(60)]
pub proof fn law_poll_tells_what_happened(
    state: BusState,
    log: Log,
    events: UsbEventSnapshot,
    run: Log,
)
    requires
        state.wf(),
        state.indices_fit(),
    ensures
        tells(state, events, poll_step(state, log, events, run).result),
{
    let r = poll_step(state, log, events, run).result;
    reveal(endpoints_step);
    reveal(stage_setup_step);
    let log1 = handle_nrdy_log(log, state.pipe_bindings@, events.nrdysts.0, run);
    assert forall|l: Log| {
        let next = (#[trigger] restart_step(state, l, LAST_PIPE as nat, run)).0;
        next == state.with_masks(next.masks())
    } by {
        lemma_restart_frame(state, l, LAST_PIPE as nat, run);
    }
    assert forall|s: BusState, l: Log| {
        let next = (#[trigger] crate::usb::bus::poll::handle_bemp_step(
            s,
            l,
            events.bempsts.0,
            LAST_PIPE as nat,
            run,
        )).0;
        next == (BusState {
            in_busy_mask: next.in_busy_mask,
            bempenb_shadow: next.bempenb_shadow,
            ..s
        })
    } by {
        lemma_bemp_frees(s, l, events.bempsts.0, LAST_PIPE as nat, run, 1);
    }
    let stage = events.ctrt_ctsq;
    let brdy = events.brdysts.0;
    let bemp = events.bempsts.0;
    lemma_word(stage);
    lemma_word(brdy);
    lemma_word(bemp);
    let ep_out = endpoints_ready(state.pipe_bindings@, brdy, LAST_PIPE as nat) | if has_data(
        state,
        events,
        0,
    ) {
        1u16
    } else {
        0u16
    };
    let ep_in = endpoints_sent(state.pipe_bindings@, bemp, LAST_PIPE as nat) | if has_gone(
        state,
        events,
        0,
    ) {
        1u16
    } else {
        0u16
    };
    assert forall|index: int| 0 <= index < 16 implies {
        &&& ep_out & #[trigger] bit(index) != 0 <==> has_data(state, events, index)
        &&& ep_in & bit(index) != 0 <==> has_gone(state, events, index)
    } by {
        lemma_told_out(state, events, has_data(state, events, 0), index);
        lemma_told_in(state, events, has_gone(state, events, 0), index);
    }
    assert forall|index: int| 0 <= index < 16 implies {
        &&& ep_out & #[trigger] (1u16 << index) != 0 <==> has_data(state, events, index)
        &&& ep_in & (1u16 << index) != 0 <==> has_gone(state, events, index)
    } by {
        assert(bit(index) == 1u16 << index);
    }
    lemma_mask_is_its_bits(ep_out);
    lemma_mask_is_its_bits(ep_in);
    if ep_out != 0 {
        let i = choose|i: int| 0 <= i < 16 && ep_out & #[trigger] bit(i) != 0;
        assert(has_news(state, events, i));
    }
    if ep_in != 0 {
        let i = choose|i: int| 0 <= i < 16 && ep_in & #[trigger] bit(i) != 0;
        assert(has_news(state, events, i));
    }
    if exists|i: int| 0 <= i < 16 && #[trigger] has_news(state, events, i) {
        let i = choose|i: int| 0 <= i < 16 && #[trigger] has_news(state, events, i);
        assert(ep_out & bit(i) != 0 || ep_in & bit(i) != 0);
    }
}

} // verus!
