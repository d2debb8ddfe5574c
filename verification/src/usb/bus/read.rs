//! Receiving packets.

use crate::mmio::{begins, grows, in16, rd16, wr16, Instance, Log, Mmio, Reg16};
use crate::summary::{latch, lemma_summary_push, summary};
use crate::usb::bus::pipes::{
    in_step, pipe_of, receiving, same_endpoints, start_out_receive_in_state,
};
use crate::usb::bus::write::{complete_status, complete_status_log, without_ep0};
use crate::usb::endpoint::{EndpointAddress, UsbDirection, UsbError};
use crate::usb::regs;
use crate::usb::regs::{
    bit, clear_status_log, fifo_bytes, fifo_ready_log, rd_words, select_cfifo_log,
    select_pipe0_ready_log, start_out_receive_log, CFIFO_READY_SPINS, PIPE0_READY_ATTEMPTS,
    USB_BCLR, USB_BRDY0, USB_DTLN,
};
use crate::usb::types::BusState;
use vstd::prelude::*;

verus! {

broadcast use lemma_summary_push;

/// What receiving on an endpoint makes of the state and of the buffer, which accesses it makes and
/// what it returns.
pub struct ReadStep {
    pub state: BusState,
    pub log: Log,
    pub result: Result<usize, UsbError>,
    pub buf: Seq<u8>,
}

/// Receiving on an endpoint that does nothing but fail.
pub open spec fn read_failed(state: BusState, log: Log, error: UsbError, buf: Seq<u8>) -> ReadStep {
    ReadStep { state, log, result: Err(error), buf }
}

/// `buf` with its beginning replaced.
pub open spec fn overwritten(buf: Seq<u8>, data: Seq<u8>) -> Seq<u8> {
    data + buf.skip(data.len() as int)
}

/// `log` followed by what empties the CFIFO port and makes a pipe ready for the next packet.
#[verifier::opaque]
pub open spec fn rearm_log(state: BusState, log: Log, pipe: u8, run: Log) -> Log {
    let log1 = wr16(log, Reg16::Cfifoctr, USB_BCLR);
    let log2 = clear_status_log(log1, Reg16::Brdysts, bit(pipe as int));
    start_out_receive_log(log2, state.brdyenb_shadow, state.nrdyenb_shadow, pipe, run)
}

/// Empties the CFIFO port and makes a pipe ready for the next packet.
pub(crate) fn rearm<I: Instance>(io: &mut Mmio<I>, state: &mut BusState, pipe: u8, max_packet: u16)
    requires
        pipe < 16,
    ensures
        grows(old(io).log(), final(io).log()),
        *final(state) == receiving(*old(state), pipe),
        forall|run: Log|
            #![trigger begins(final(io).log(), run)]
            begins(final(io).log(), run) ==> final(io).log() == rearm_log(
                *old(state),
                old(io).log(),
                pipe,
                run,
            ),
        in_step(old(io).log(), *old(state)) ==> in_step(final(io).log(), *final(state)),
        latch(final(io).log()) == latch(old(io).log()),
        same_endpoints(*old(state), *final(state)),
{
    proof {
        reveal(rearm_log);
    }
    regs::clear_cfifo_buffer(io);
    regs::clear_brdy(io, pipe);
    start_out_receive_in_state(io, state, pipe, max_packet, max_packet as u32);
}

/// Receiving a packet from a pipe. The packet stays where it is if the buffer is too short for it.
#[verifier::opaque]
pub open spec fn read_pipe_step(
    state: BusState,
    log: Log,
    pipe: u8,
    buf: Seq<u8>,
    run: Log,
) -> ReadStep {
    let (log1, ready) = fifo_ready_log(
        select_cfifo_log(log, pipe, false, false, run),
        Reg16::Cfifoctr,
        CFIFO_READY_SPINS as nat,
        run,
    );
    let dtln = (in16(log1, run) & USB_DTLN) as nat;
    let log2 = rd16(log1, Reg16::Cfifoctr, run);
    let log3 = rd_words(log2, (dtln + 1) / 2, run);
    if !ready {
        read_failed(state, log1, UsbError::WouldBlock, buf)
    } else if dtln > buf.len() {
        read_failed(state, log2, UsbError::BufferOverflow, buf)
    } else {
        ReadStep {
            state: receiving(state, pipe),
            log: rearm_log(state, log3, pipe, run),
            result: Ok(dtln as usize),
            buf: overwritten(buf, fifo_bytes(log2, dtln, run)),
        }
    }
}

/// Fills the beginning of `buf` from the CFIFO port.
pub(crate) fn read_head<I: Instance>(io: &mut Mmio<I>, buf: &mut [u8], len: usize)
    requires
        len <= old(buf)@.len(),
    ensures
        grows(old(io).log(), final(io).log()),
        summary(final(io).log()) == summary(old(io).log()),
        forall|run: Log|
            #![trigger begins(final(io).log(), run)]
            begins(final(io).log(), run) ==> {
                &&& final(io).log() == rd_words(old(io).log(), ((len + 1) / 2) as nat, run)
                &&& final(buf)@ == overwritten(
                    old(buf)@,
                    fifo_bytes(old(io).log(), len as nat, run),
                )
            },
{
    let (head, _) = buf.split_at_mut(len);
    regs::read_cfifo(io, head);
}

pub(crate) fn read_pipe<I: Instance>(
    io: &mut Mmio<I>,
    state: &mut BusState,
    pipe: u8,
    max_packet: u16,
    buf: &mut [u8],
) -> (r: Result<usize, UsbError>)
    requires
        pipe < 16,
    ensures
        grows(old(io).log(), final(io).log()),
        forall|run: Log|
            #![trigger begins(final(io).log(), run)]
            begins(final(io).log(), run) ==> (ReadStep {
                state: *final(state),
                log: final(io).log(),
                result: r,
                buf: final(buf)@,
            }) == read_pipe_step(*old(state), old(io).log(), pipe, old(buf)@, run),
        in_step(old(io).log(), *old(state)) ==> in_step(final(io).log(), *final(state)),
        latch(final(io).log()) == latch(old(io).log()),
        same_endpoints(*old(state), *final(state)),
{
    proof {
        reveal(read_pipe_step);
    }
    regs::select_cfifo(io, pipe, false, false);
    if !regs::cfifo_ready(io) {
        return Err(UsbError::WouldBlock);
    }
    let dtln: usize = regs::cfifo_dtln(io);
    if dtln > buf.len() {
        return Err(UsbError::BufferOverflow);
    }
    read_head(io, buf, dtln);
    rearm(io, state, pipe, max_packet);
    Ok(dtln)
}

/// The state once the SETUP packet is handed over.
pub open spec fn setup_taken(state: BusState) -> BusState {
    BusState {
        ep0_last_setup_dir_out: state.ep0_setup_packet@[0] & 0x80 == 0,
        ep0_setup_pending: false,
        ep0_setup_ready: false,
        ..state
    }
}

/// Receiving on the control pipe: the SETUP packet if there is one, else data. Receiving into an
/// empty buffer completes the transfer.
#[verifier::opaque]
pub open spec fn read_ep0_step(state: BusState, log: Log, buf: Seq<u8>, run: Log) -> ReadStep {
    let (log1, ready) = select_pipe0_ready_log(log, false, PIPE0_READY_ATTEMPTS as nat, run);
    let dtln = (in16(log1, run) & USB_DTLN) as nat;
    let log2 = rd16(log1, Reg16::Cfifoctr, run);
    let log3 = if dtln == 0 {
        wr16(log2, Reg16::Cfifoctr, USB_BCLR)
    } else {
        rd_words(log2, (dtln + 1) / 2, run)
    };
    if state.ep0_setup_ready {
        if buf.len() < 8 {
            read_failed(state, log, UsbError::BufferOverflow, buf)
        } else {
            ReadStep {
                state: setup_taken(state),
                log,
                result: Ok(8),
                buf: overwritten(buf, state.ep0_setup_packet@),
            }
        }
    } else if buf.len() == 0 {
        ReadStep {
            state: state.with_masks(without_ep0(state.masks())),
            log: complete_status_log(log, state.masks(), run),
            result: Ok(0),
            buf,
        }
    } else if !ready {
        read_failed(state, log1, UsbError::WouldBlock, buf)
    } else if dtln > buf.len() {
        read_failed(state, log2, UsbError::BufferOverflow, buf)
    } else {
        ReadStep {
            state,
            log: clear_status_log(log3, Reg16::Brdysts, USB_BRDY0),
            result: Ok(dtln as usize),
            buf: overwritten(buf, fifo_bytes(log2, dtln, run)),
        }
    }
}

/// Hands the SETUP packet over.
pub(crate) fn take_setup(state: &mut BusState, buf: &mut [u8])
    requires
        old(buf)@.len() >= 8,
    ensures
        *final(state) == setup_taken(*old(state)),
        final(buf)@ == overwritten(old(buf)@, old(state).ep0_setup_packet@),
{
    let mut i: usize = 0;
    while i < 8
        invariant
            i <= 8,
            *state == *old(state),
            buf@.len() == old(buf)@.len(),
            buf@.len() >= 8,
            forall|j: int| 0 <= j < i ==> buf@[j] == state.ep0_setup_packet@[j],
            forall|j: int| i <= j < buf@.len() ==> buf@[j] == old(buf)@[j],
        decreases 8 - i,
    {
        buf[i] = state.ep0_setup_packet[i];
        i += 1;
    }
    assert(buf@ =~= overwritten(old(buf)@, old(state).ep0_setup_packet@));
    state.ep0_last_setup_dir_out = state.ep0_setup_packet[0] & 0x80 == 0;
    state.ep0_setup_pending = false;
    state.ep0_setup_ready = false;
}

pub(crate) fn read_ep0<I: Instance>(
    io: &mut Mmio<I>,
    state: &mut BusState,
    buf: &mut [u8],
) -> (r: Result<usize, UsbError>)
    ensures
        grows(old(io).log(), final(io).log()),
        forall|run: Log|
            #![trigger begins(final(io).log(), run)]
            begins(final(io).log(), run) ==> (ReadStep {
                state: *final(state),
                log: final(io).log(),
                result: r,
                buf: final(buf)@,
            }) == read_ep0_step(*old(state), old(io).log(), old(buf)@, run),
        in_step(old(io).log(), *old(state)) ==> in_step(final(io).log(), *final(state)),
        latch(final(io).log()) == latch(old(io).log()),
        same_endpoints(*old(state), *final(state)),
{
    proof {
        reveal(read_ep0_step);
    }
    if state.ep0_setup_ready {
        if buf.len() < 8 {
            return Err(UsbError::BufferOverflow);
        }
        take_setup(state, buf);
        return Ok(8);
    }
    if buf.len() == 0 {
        complete_status(io, state);
        return Ok(0);
    }
    if !regs::select_pipe0_ready(io, false) {
        return Err(UsbError::WouldBlock);
    }
    let dtln: usize = regs::cfifo_dtln(io);
    if dtln > buf.len() {
        return Err(UsbError::BufferOverflow);
    }
    if dtln == 0 {
        regs::clear_cfifo_buffer(io);
        regs::clear_brdy0(io);
        proof {
            assert forall|log: Log, run: Log| overwritten(
                buf@,
                #[trigger] fifo_bytes(log, 0, run),
            ) == buf@ by {
                assert(overwritten(buf@, fifo_bytes(log, 0, run)) =~= buf@);
            }
        }
        return Ok(0);
    }
    read_head(io, buf, dtln);
    regs::clear_brdy0(io);
    Ok(dtln)
}

/// Receiving a packet from an endpoint.
pub open spec fn read_step(
    state: BusState,
    log: Log,
    ep_addr: EndpointAddress,
    buf: Seq<u8>,
    run: Log,
) -> ReadStep {
    if ep_addr.direction() != UsbDirection::Out {
        read_failed(state, log, UsbError::InvalidEndpoint, buf)
    } else if ep_addr.index() == 0 {
        read_ep0_step(state, log, buf, run)
    } else {
        match pipe_of(state.pipe_bindings@, ep_addr) {
            Some(pipe) => read_pipe_step(state, log, pipe, buf, run),
            None => read_failed(state, log, UsbError::InvalidEndpoint, buf),
        }
    }
}

} // verus!
