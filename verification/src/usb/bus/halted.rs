//! What stalling an endpoint does to the hardware.

use crate::bits::lemma_word;
use crate::mmio::{Log, Reg16};
use crate::trace::{
    control_register, lemma_read16_push, lemma_written16_push, lemma_written16_spin, read16,
    written16,
};
use crate::usb::bus::laws::{law_lookup_finds_the_pipe, lemma_pipe_from};
use crate::usb::bus::pipes::pipe_of;
use crate::usb::bus::stall::{stall_ep0_step, stall_pipe_step, stall_step};
use crate::usb::endpoint::{law_address_by_arithmetic, EndpointAddress};
use crate::usb::regs::{
    law_answer_field, reset_pipe_control_log, select_cfifo_log, set_pipe_nak_wait_log,
    set_pipe_pid_log, start_out_receive_log,
};
use crate::usb::types::BusState;
use vstd::prelude::*;

verus! {

/// Stalling an endpoint on a pipe makes the pipe answer STALL and touches nothing else. Ending the
/// stall resets the data toggle, which is bit 8, and empties the buffer by setting and clearing bit
/// 9, with the pipe answering NAK, and an OUT endpoint is ready for the next packet after that.
/// Either is marked for this endpoint alone. No other pipe is told anything.
#[verifier::rlimit(60)]
pub proof fn law_stall_of_a_pipe(
    state: BusState,
    log: Log,
    ep_addr: EndpointAddress,
    stall: bool,
    run: Log,
    pipe: int,
    other: int,
)
    requires
        state.wf(),
        1 <= pipe <= 9,
        1 <= other <= 9,
        state.pipe_bindings@[pipe] is Some,
        state.pipe_bindings@[pipe]->0.ep_addr == ep_addr,
    ensures
        ({
            let (next, after) = stall_step(state, log, ep_addr, stall, run);
            let known = written16(log, control_register(pipe)).len() as int;
            let new = written16(after, control_register(pipe)).skip(known);
            let read = read16(after, control_register(pipe)).last();
            let bit = 1u16 << pipe;
            let mark = 1u16 << (ep_addr.0 % 128);
            &&& stall ==> new == seq![(read - read % 4 + 2) as u16] && after.len() == log.len() + 2
            &&& !stall ==> {
                &&& new.len() == if ep_addr.0 >= 128 {
                    4int
                } else {
                    6
                }
                &&& new[0] == 0x0100
                &&& new[1] & 0x2000 != 0
                &&& new[2] & 0x0200 != 0
                &&& new[3] & 0x0200 == 0
                &&& ep_addr.0 < 128 ==> new.last() % 4 == 1
            }
            &&& pipe != other ==> written16(after, control_register(other)) == written16(
                log,
                control_register(other),
            )
            &&& next == if ep_addr.0 >= 128 {
                BusState {
                    stalled_in_mask: if stall {
                        state.stalled_in_mask | mark
                    } else {
                        state.stalled_in_mask & !mark
                    },
                    in_busy_mask: state.in_busy_mask & !mark,
                    ..state
                }
            } else if stall {
                BusState { stalled_out_mask: state.stalled_out_mask | mark, ..state }
            } else {
                BusState {
                    stalled_out_mask: state.stalled_out_mask & !mark,
                    brdyenb_shadow: state.brdyenb_shadow | bit,
                    nrdyenb_shadow: state.nrdyenb_shadow | bit,
                    ..state
                }
            }
        }),
{
    broadcast use {lemma_written16_push, lemma_written16_spin, lemma_read16_push};

    let (next, after) = stall_step(state, log, ep_addr, stall, run);
    law_address_by_arithmetic(ep_addr);
    law_lookup_finds_the_pipe(state, ep_addr, pipe as u8);
    assert(ep_addr.index() != 0) by {
        reveal(BusState::wf);
    }
    reveal(stall_pipe_step);
    reveal(set_pipe_pid_log);
    reveal(reset_pipe_control_log);
    reveal(start_out_receive_log);
    reveal(set_pipe_nak_wait_log);
    reveal(select_cfifo_log);
    assert forall|x: u16| {
        &&& ((#[trigger] (x & !0x0003u16)) | 0x0001) % 4 == 1
        &&& ((x & !0x0003u16) | 0x0002) == x - x % 4 + 2
    } by {
        law_answer_field(x);
    }
    assert forall|x: u16| (#[trigger] (x | 0x2000u16)) & 0x2000 != 0 by {
        lemma_word(x);
    }
    assert forall|x: u16| (#[trigger] (x | 0x0200u16)) & 0x0200 != 0 by {
        lemma_word(x);
    }
    assert forall|x: u16| (#[trigger] (x & !0x0200u16)) & 0x0200 == 0 by {
        lemma_word(x);
    }
    lemma_word(0x0100);
    let known = written16(log, control_register(pipe)).len() as int;
    let new = written16(after, control_register(pipe)).skip(known);
    let read = read16(after, control_register(pipe)).last();
    if stall {
        assert(new =~= seq![(read - read % 4 + 2) as u16]);
    }
}

/// Stalling the control endpoint makes the control pipe answer STALL. Ending the stall makes it
/// answer according to its buffer in the data and status stages of a read, which are stages 1 and
/// 2, and NAK with the data toggle reset, which is bit 8, in any other. The other bits stay as they
/// read. In the data stage of a read the bus expects the status stage from then on.
pub proof fn law_stall_of_the_control_pipe(
    state: BusState,
    log: Log,
    ep_addr: EndpointAddress,
    stall: bool,
    run: Log,
)
    requires
        ep_addr.0 % 128 == 0,
    ensures
        ({
            let (next, after) = stall_step(state, log, ep_addr, stall, run);
            let stage = read16(after, Reg16::Intsts0).last() % 8;
            let read = read16(after, Reg16::Dcpctr).last();
            let value = written16(after, Reg16::Dcpctr).last();
            &&& after.len() == log.len() + 3
            &&& written16(after, Reg16::Dcpctr).len() == written16(log, Reg16::Dcpctr).len() + 1
            &&& value % 4 == if stall {
                2int
            } else if stage == 1 || stage == 2 {
                1
            } else {
                0
            }
            &&& value & 0x0100 != 0 <==> !stall && stage != 1 && stage != 2
            &&& value & 0xfefc == read & 0xfefc
            &&& next == (BusState {
                ep0_expect_status_out: state.ep0_expect_status_out || (!stall && stage == 1),
                ep0_stalled: stall,
                ..state
            })
        }),
{
    broadcast use {lemma_written16_push, lemma_read16_push};

    law_address_by_arithmetic(ep_addr);
    reveal(stall_ep0_step);
    let (next, after) = stall_step(state, log, ep_addr, stall, run);
    let raw = read16(after, Reg16::Intsts0).last();
    let read = read16(after, Reg16::Dcpctr).last();
    let kept = read & !(0x0003u16 | 0x0100u16);
    assert({
        &&& raw & 0x0007 == raw % 8
        &&& (kept | 2 | 0) % 4 == 2 && (kept | 1 | 0) % 4 == 1 && (kept | 0 | 0x0100) % 4 == 0
        &&& (kept | 2 | 0) & 0x0100 == 0 && (kept | 1 | 0) & 0x0100 == 0
        &&& (kept | 0 | 0x0100) & 0x0100 != 0
        &&& (kept | 2 | 0) & 0xfefc == read & 0xfefc && (kept | 1 | 0) & 0xfefc == read & 0xfefc
        &&& (kept | 0 | 0x0100) & 0xfefc == read & 0xfefc
    }) by (bit_vector)
        requires
            kept == read & !(0x0003u16 | 0x0100u16),
    ;
}

/// Stalling an endpoint that is not in use does nothing.
pub proof fn law_stall_of_a_stranger(
    state: BusState,
    log: Log,
    ep_addr: EndpointAddress,
    stall: bool,
    run: Log,
)
    requires
        ep_addr.0 % 128 != 0,
        forall|pipe: int|
            1 <= pipe <= 9 && (#[trigger] state.pipe_bindings@[pipe]) is Some
                ==> state.pipe_bindings@[pipe]->0.ep_addr != ep_addr,
    ensures
        stall_step(state, log, ep_addr, stall, run) == (state, log),
{
    law_address_by_arithmetic(ep_addr);
    lemma_pipe_from(state.pipe_bindings@, ep_addr, 1);
    if let Some(pipe) = pipe_of(state.pipe_bindings@, ep_addr) {
        assert(state.pipe_bindings@[pipe as int] is Some);
    }
}

} // verus!
