//! Stalling endpoints.

use crate::mmio::{begins, grows, in16, rd16, wr16, Instance, Log, Mmio, Reg16};
use crate::summary::{latch, lemma_summary_push};
use crate::usb::bus::pipes::{
    in_step, pipe_of, receiving, same_endpoints, start_out_receive_in_state,
};
use crate::usb::endpoint::{EndpointAddress, UsbDirection};
use crate::usb::regs;
use crate::usb::regs::{
    bit, reset_pipe_control_log, set_pipe_pid_log, start_out_receive_log, PipePid, USB_CS_RDDS,
    USB_CS_RDSS, USB_CTSQ, USB_PID_MASK, USB_SQCLR,
};
use crate::usb::types::{BusState, Intsts0, PipeBinding};
use vstd::prelude::*;

verus! {

broadcast use lemma_summary_push;

/// The answer that the control pipe is to give: STALL while stalled, else according to its buffer
/// in the data and status stages of a read, else NAK.
pub open spec fn ep0_pid(stalled: bool, ctsq: u16) -> PipePid {
    if stalled {
        PipePid::Stall
    } else if ctsq == USB_CS_RDDS || ctsq == USB_CS_RDSS {
        PipePid::Buf
    } else {
        PipePid::Nak
    }
}

/// The control register of the control pipe with another answer. The toggle bit is reset where the
/// pipe goes back to NAK.
pub open spec fn stall_ep0_value(current: u16, pid: PipePid) -> u16 {
    let toggle = if pid == PipePid::Nak {
        USB_SQCLR
    } else {
        0u16
    };
    (current & !(USB_PID_MASK | USB_SQCLR)) | pid.bits() | toggle
}

/// Stalling the control pipe or ending its stall.
#[verifier::opaque]
pub open spec fn stall_ep0_step(state: BusState, log: Log, stalled: bool, run: Log) -> (
    BusState,
    Log,
) {
    let ctsq = in16(log, run) & USB_CTSQ;
    let pid = ep0_pid(stalled, ctsq);
    let log1 = rd16(log, Reg16::Intsts0, run);
    let log2 = rd16(log1, Reg16::Dcpctr, run);
    let log3 = wr16(log2, Reg16::Dcpctr, stall_ep0_value(in16(log1, run), pid));
    let expect_status_out = !stalled && ctsq == USB_CS_RDDS;
    (
        BusState {
            ep0_expect_status_out: state.ep0_expect_status_out || expect_status_out,
            ep0_stalled: stalled,
            ..state
        },
        log3,
    )
}

pub(crate) fn stall_ep0<I: Instance>(io: &mut Mmio<I>, state: &mut BusState, stalled: bool)
    ensures
        grows(old(io).log(), final(io).log()),
        forall|run: Log|
            #![trigger begins(final(io).log(), run)]
            begins(final(io).log(), run) ==> (*final(state), final(io).log()) == stall_ep0_step(
                *old(state),
                old(io).log(),
                stalled,
                run,
            ),
        in_step(old(io).log(), *old(state)) ==> in_step(final(io).log(), *final(state)),
        latch(final(io).log()) == latch(old(io).log()),
        same_endpoints(*old(state), *final(state)),
{
    proof {
        reveal(stall_ep0_step);
    }
    let live_ctsq: u16 = Intsts0(io.read16(Reg16::Intsts0)).ctsq();
    let next_pid = if stalled {
        PipePid::Stall
    } else if live_ctsq == USB_CS_RDDS || live_ctsq == USB_CS_RDSS {
        PipePid::Buf
    } else {
        PipePid::Nak
    };
    let toggle: u16 = match next_pid {
        PipePid::Nak => USB_SQCLR,
        _ => 0,
    };
    let dcpctr: u16 = io.read16(Reg16::Dcpctr);
    io.write16(
        Reg16::Dcpctr,
        (dcpctr & !(USB_PID_MASK | USB_SQCLR)) | next_pid.bits() | toggle,
    );
    if !stalled && live_ctsq == USB_CS_RDDS {
        state.ep0_expect_status_out = true;
    }
    state.ep0_stalled = stalled;
}

/// The state once an endpoint bound to a pipe is stalled or its stall is ended. For an IN endpoint
/// the bit of its index is cleared in the mask of busy pipes as well.
pub open spec fn stall_marked(
    state: BusState,
    ep_addr: EndpointAddress,
    stalled: bool,
) -> BusState {
    let bit = bit(ep_addr.index() as int);
    match ep_addr.direction() {
        UsbDirection::In => BusState {
            stalled_in_mask: if stalled {
                state.stalled_in_mask | bit
            } else {
                state.stalled_in_mask & !bit
            },
            in_busy_mask: state.in_busy_mask & !bit,
            ..state
        },
        UsbDirection::Out => BusState {
            stalled_out_mask: if stalled {
                state.stalled_out_mask | bit
            } else {
                state.stalled_out_mask & !bit
            },
            ..state
        },
    }
}

/// Stalling an endpoint bound to a pipe or ending its stall. An OUT endpoint is ready to receive
/// again when its stall ends.
#[verifier::opaque]
pub open spec fn stall_pipe_step(
    state: BusState,
    log: Log,
    pipe: u8,
    ep_addr: EndpointAddress,
    stalled: bool,
    run: Log,
) -> (BusState, Log) {
    let marked = stall_marked(state, ep_addr, stalled);
    if stalled {
        (marked, set_pipe_pid_log(log, pipe, PipePid::Stall, run))
    } else {
        let log1 = reset_pipe_control_log(log, pipe, run);
        if ep_addr.direction() == UsbDirection::Out {
            (
                receiving(marked, pipe),
                start_out_receive_log(
                    log1,
                    state.brdyenb_shadow,
                    state.nrdyenb_shadow,
                    pipe,
                    run,
                ),
            )
        } else {
            (marked, log1)
        }
    }
}

/// Marks an endpoint bound to a pipe as stalled or not.
pub(crate) fn mark_stalled(state: &mut BusState, ep_addr: EndpointAddress, stalled: bool)
    requires
        ep_addr.index() < 16,
    ensures
        *final(state) == stall_marked(*old(state), ep_addr, stalled),
{
    let bit: u16 = 1u16 << ep_addr.index();
    match ep_addr.direction() {
        UsbDirection::In => {
            if stalled {
                state.stalled_in_mask = state.stalled_in_mask | bit;
            } else {
                state.stalled_in_mask = state.stalled_in_mask & !bit;
            }
            state.in_busy_mask = state.in_busy_mask & !bit;
        },
        UsbDirection::Out => {
            if stalled {
                state.stalled_out_mask = state.stalled_out_mask | bit;
            } else {
                state.stalled_out_mask = state.stalled_out_mask & !bit;
            }
        },
    }
}

pub(crate) fn stall_pipe<I: Instance>(
    io: &mut Mmio<I>,
    state: &mut BusState,
    pipe: u8,
    binding: PipeBinding,
    ep_addr: EndpointAddress,
    stalled: bool,
)
    requires
        ep_addr.index() < 16,
    ensures
        grows(old(io).log(), final(io).log()),
        forall|run: Log|
            #![trigger begins(final(io).log(), run)]
            begins(final(io).log(), run) ==> (*final(state), final(io).log()) == stall_pipe_step(
                *old(state),
                old(io).log(),
                pipe,
                ep_addr,
                stalled,
                run,
            ),
        in_step(old(io).log(), *old(state)) ==> in_step(final(io).log(), *final(state)),
        latch(final(io).log()) == latch(old(io).log()),
        same_endpoints(*old(state), *final(state)),
{
    proof {
        reveal(stall_pipe_step);
    }
    mark_stalled(state, ep_addr, stalled);
    if stalled {
        regs::set_pipe_pid(io, pipe, PipePid::Stall);
        return ;
    }
    regs::reset_pipe_control(io, pipe);
    match ep_addr.direction() {
        UsbDirection::In => {},
        UsbDirection::Out => {
            start_out_receive_in_state(
                io,
                state,
                pipe,
                binding.max_packet,
                binding.max_packet as u32,
            );
        },
    }
}

/// Stalling an endpoint or ending its stall. Nothing happens to an endpoint that is not allocated.
pub open spec fn stall_step(
    state: BusState,
    log: Log,
    ep_addr: EndpointAddress,
    stalled: bool,
    run: Log,
) -> (BusState, Log) {
    if ep_addr.index() == 0 {
        stall_ep0_step(state, log, stalled, run)
    } else {
        match pipe_of(state.pipe_bindings@, ep_addr) {
            Some(pipe) => stall_pipe_step(state, log, pipe, ep_addr, stalled, run),
            None => (state, log),
        }
    }
}

/// Whether an endpoint is stalled.
pub open spec fn stalled(state: BusState, ep_addr: EndpointAddress) -> bool {
    let bit = bit(ep_addr.index() as int);
    if ep_addr.index() == 0 {
        state.ep0_stalled
    } else {
        match ep_addr.direction() {
            UsbDirection::In => state.stalled_in_mask & bit != 0,
            UsbDirection::Out => state.stalled_out_mask & bit != 0,
        }
    }
}

} // verus!
