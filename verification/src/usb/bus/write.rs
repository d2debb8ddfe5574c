//! Sending packets.

use crate::mmio::{begins, grows, wr16, Instance, Log, Mmio, Reg16, Reg8, Shadow};
use crate::summary::{latch, lemma_summary_push, summary, EnableMasks};
use crate::usb::bus::pipes::{in_step, pipe_of, same_endpoints};
use crate::usb::endpoint::{EndpointAddress, UsbDirection, UsbError};
use crate::usb::regs;
use crate::usb::regs::{
    bit, clear_status_log, fifo_ready_log, select_d0fifo_log, select_pipe0_ready_log,
    set_dcp_pid_log, set_pipe_pid_log, updated, wr_bytes, write_d0fifo_log, write_enb_log, PipePid,
    CFIFO_READY_SPINS, PIPE0_READY_ATTEMPTS, USB_BCLR, USB_BEMP0, USB_BVAL,
};
use crate::usb::types::BusState;
use vstd::prelude::*;

verus! {

broadcast use lemma_summary_push;

/// The smaller of two numbers.
pub open spec fn min(a: nat, b: nat) -> nat {
    if a <= b {
        a
    } else {
        b
    }
}

/// What an operation on an endpoint makes of the state, which accesses it makes and what it
/// returns.
pub struct Step {
    pub state: BusState,
    pub log: Log,
    pub result: Result<usize, UsbError>,
}

/// An operation on an endpoint that does nothing but fail.
pub open spec fn failed(state: BusState, log: Log, error: UsbError) -> Step {
    Step { state, log, result: Err(error) }
}

/// Number of bytes of `data` that fit into one packet.
pub open spec fn packet_len(data: Seq<u8>, max_packet: u16) -> nat {
    min(data.len(), max_packet as nat)
}

/// `log` followed by what puts one packet of `data` into the buffer of a pipe and releases it. A
/// packet shorter than the packet size of the endpoint is released explicitly.
#[verifier::opaque]
pub open spec fn send_pipe_log(
    log: Log,
    pipe: u8,
    max_packet: u16,
    data: Seq<u8>,
    bemp: u16,
    run: Log,
) -> Log {
    let len = packet_len(data, max_packet);
    let log1 = set_pipe_pid_log(log, pipe, PipePid::Nak, run);
    let log2 = clear_status_log(log1, Reg16::Bempsts, bit(pipe as int));
    let log3 = wr16(log2, Reg16::D0fifoctr, USB_BCLR);
    let log4 = write_d0fifo_log(log3, data.take(len as int), run);
    let log5 = if len == 0 || len < max_packet {
        wr16(log4, Reg16::D0fifoctr, USB_BVAL)
    } else {
        log4
    };
    let log6 = write_enb_log(log5, Shadow::Bempenb, bemp);
    set_pipe_pid_log(log6, pipe, PipePid::Buf, run)
}

/// Puts one packet into the buffer of a pipe and releases it.
pub(crate) fn send_pipe<I: Instance>(
    io: &mut Mmio<I>,
    bempenb_shadow: &mut u16,
    pipe: u8,
    max_packet: u16,
    buf: &[u8],
) -> (r: usize)
    requires
        pipe < 16,
    ensures
        r == packet_len(buf@, max_packet),
        *final(bempenb_shadow) == updated(*old(bempenb_shadow), bit(pipe as int), 0),
        grows(old(io).log(), final(io).log()),
        summary(final(io).log()) == summary(old(io).log()).with_mask(
            Shadow::Bempenb,
            *final(bempenb_shadow),
        ),
        forall|run: Log|
            #![trigger begins(final(io).log(), run)]
            begins(final(io).log(), run) ==> final(io).log() == send_pipe_log(
                old(io).log(),
                pipe,
                max_packet,
                buf@,
                *final(bempenb_shadow),
                run,
            ),
{
    proof {
        reveal(send_pipe_log);
    }
    let write_len: usize = if buf.len() <= max_packet as usize {
        buf.len()
    } else {
        max_packet as usize
    };
    regs::set_pipe_pid(io, pipe, PipePid::Nak);
    regs::clear_bemp(io, pipe);
    regs::clear_d0fifo_buffer(io);
    let data = &buf[0..write_len];
    assert(data@ =~= buf@.take(write_len as int));
    regs::write_d0fifo(io, data);
    if write_len == 0 || write_len < max_packet as usize {
        regs::set_d0fifo_bval(io);
    }
    regs::update_bempenb(io, bempenb_shadow, 1u16 << pipe, 0);
    regs::set_pipe_pid(io, pipe, PipePid::Buf);
    write_len
}

/// Sending a packet on a pipe: nothing is sent while an earlier packet is on its way or the port is
/// not ready.
#[verifier::opaque]
pub open spec fn write_pipe_step(
    state: BusState,
    log: Log,
    pipe: u8,
    max_packet: u16,
    data: Seq<u8>,
    run: Log,
) -> Step {
    let bit = bit(pipe as int);
    let (log1, ready) = fifo_ready_log(
        select_d0fifo_log(log, pipe, run),
        Reg16::D0fifoctr,
        CFIFO_READY_SPINS as nat,
        run,
    );
    let bemp = updated(state.bempenb_shadow, bit, 0);
    if state.in_busy_mask & bit != 0 {
        failed(state, log, UsbError::WouldBlock)
    } else if !ready {
        failed(state, log1, UsbError::WouldBlock)
    } else {
        Step {
            state: BusState {
                bempenb_shadow: bemp,
                in_busy_mask: state.in_busy_mask | bit,
                ..state
            },
            log: send_pipe_log(log1, pipe, max_packet, data, bemp, run),
            result: Ok(packet_len(data, max_packet) as usize),
        }
    }
}

pub(crate) fn write_pipe<I: Instance>(
    io: &mut Mmio<I>,
    state: &mut BusState,
    pipe: u8,
    max_packet: u16,
    buf: &[u8],
) -> (r: Result<usize, UsbError>)
    requires
        pipe < 16,
    ensures
        grows(old(io).log(), final(io).log()),
        forall|run: Log|
            #![trigger begins(final(io).log(), run)]
            begins(final(io).log(), run) ==> (Step {
                state: *final(state),
                log: final(io).log(),
                result: r,
            }) == write_pipe_step(*old(state), old(io).log(), pipe, max_packet, buf@, run),
        in_step(old(io).log(), *old(state)) ==> in_step(final(io).log(), *final(state)),
        latch(final(io).log()) == latch(old(io).log()),
        same_endpoints(*old(state), *final(state)),
{
    proof {
        reveal(write_pipe_step);
    }
    let bit: u16 = 1u16 << pipe;
    if state.in_busy_mask & bit != 0 {
        return Err(UsbError::WouldBlock);
    }
    regs::select_d0fifo(io, pipe);
    if !regs::d0fifo_ready(io) {
        return Err(UsbError::WouldBlock);
    }
    let write_len: usize = send_pipe(io, &mut state.bempenb_shadow, pipe, max_packet, buf);
    state.in_busy_mask = state.in_busy_mask | bit;
    Ok(write_len)
}

/// The masks once the interrupts of the control pipe are disabled.
pub open spec fn without_ep0(masks: EnableMasks) -> EnableMasks {
    EnableMasks {
        brdy: updated(masks.brdy, 0, 1),
        nrdy: updated(masks.nrdy, 0, 1),
        bemp: updated(masks.bemp, 0, 1),
    }
}

/// `log` followed by what completes the status stage of a control transfer.
#[verifier::opaque]
pub open spec fn complete_status_log(log: Log, masks: EnableMasks, run: Log) -> Log {
    let next = without_ep0(masks);
    let log1 = clear_status_log(log, Reg16::Bempsts, USB_BEMP0);
    let log2 = write_enb_log(log1, Shadow::Brdyenb, next.brdy);
    let log3 = write_enb_log(log2, Shadow::Nrdyenb, next.nrdy);
    let log4 = write_enb_log(log3, Shadow::Bempenb, next.bemp);
    set_dcp_pid_log(log4, PipePid::Buf, true, run)
}

/// Completes the status stage of a control transfer.
pub(crate) fn complete_status<I: Instance>(io: &mut Mmio<I>, state: &mut BusState)
    ensures
        grows(old(io).log(), final(io).log()),
        *final(state) == old(state).with_masks(without_ep0(old(state).masks())),
        forall|run: Log|
            #![trigger begins(final(io).log(), run)]
            begins(final(io).log(), run) ==> final(io).log() == complete_status_log(
                old(io).log(),
                old(state).masks(),
                run,
            ),
        in_step(old(io).log(), *old(state)) ==> in_step(final(io).log(), *final(state)),
        latch(final(io).log()) == latch(old(io).log()),
        same_endpoints(*old(state), *final(state)),
{
    proof {
        reveal(complete_status_log);
    }
    regs::clear_bemp0(io);
    regs::update_brdyenb(io, &mut state.brdyenb_shadow, 0, 1u16);
    regs::update_nrdyenb(io, &mut state.nrdyenb_shadow, 0, 1u16);
    regs::update_bempenb(io, &mut state.bempenb_shadow, 0, 1u16);
    regs::set_dcp_pid(io, PipePid::Buf, true);
}

/// The buffer empty interrupt enable mask once a packet is sent on the control pipe: the interrupt
/// is wanted for a full packet, since more may follow, and not for a short one.
pub open spec fn ep0_bemp(mask: u16, short: bool) -> u16 {
    if short {
        updated(mask, 0, 1)
    } else {
        updated(mask, 1, 0)
    }
}

/// `log` followed by what puts one packet of `data` into the buffer of the control pipe and
/// releases it. A packet shorter than the packet size is released explicitly.
#[verifier::opaque]
pub open spec fn send_ep0_log(
    log: Log,
    max_packet: u16,
    data: Seq<u8>,
    bemp: u16,
    run: Log,
) -> Log {
    let len = packet_len(data, max_packet);
    let log1 = wr16(log, Reg16::Cfifoctr, USB_BCLR);
    let log2 = set_dcp_pid_log(log1, PipePid::Nak, false, run);
    let log3 = clear_status_log(log2, Reg16::Bempsts, USB_BEMP0);
    let log4 = wr_bytes(log3, Reg8::Cfifo, data.take(len as int));
    let log5 = if len == 0 || len < max_packet {
        wr16(log4, Reg16::Cfifoctr, USB_BVAL)
    } else {
        log4
    };
    let log6 = write_enb_log(log5, Shadow::Bempenb, bemp);
    set_dcp_pid_log(log6, PipePid::Buf, false, run)
}

/// Puts one packet into the buffer of the control pipe and releases it.
pub(crate) fn send_ep0<I: Instance>(
    io: &mut Mmio<I>,
    bempenb_shadow: &mut u16,
    max_packet: u16,
    buf: &[u8],
) -> (r: usize)
    ensures
        r == packet_len(buf@, max_packet),
        *final(bempenb_shadow) == ep0_bemp(*old(bempenb_shadow), r < max_packet),
        grows(old(io).log(), final(io).log()),
        summary(final(io).log()) == summary(old(io).log()).with_mask(
            Shadow::Bempenb,
            *final(bempenb_shadow),
        ),
        forall|run: Log|
            #![trigger begins(final(io).log(), run)]
            begins(final(io).log(), run) ==> final(io).log() == send_ep0_log(
                old(io).log(),
                max_packet,
                buf@,
                *final(bempenb_shadow),
                run,
            ),
{
    proof {
        reveal(send_ep0_log);
    }
    regs::clear_cfifo_buffer(io);
    let write_len: usize = if buf.len() <= max_packet as usize {
        buf.len()
    } else {
        max_packet as usize
    };
    regs::set_dcp_pid(io, PipePid::Nak, false);
    regs::clear_bemp0(io);
    let data = &buf[0..write_len];
    assert(data@ =~= buf@.take(write_len as int));
    regs::write_cfifo(io, data);

    let short_packet = write_len < max_packet as usize;
    if write_len == 0 || short_packet {
        regs::set_cfifo_bval(io);
    }
    if short_packet {
        regs::update_bempenb(io, bempenb_shadow, 0, 1u16);
    } else {
        regs::update_bempenb(io, bempenb_shadow, 1u16, 0);
    }
    regs::set_dcp_pid(io, PipePid::Buf, false);
    write_len
}

/// Sending a packet on the control pipe. An empty packet after a SETUP packet that announced data
/// from the host completes the transfer.
#[verifier::opaque]
pub open spec fn write_ep0_step(state: BusState, log: Log, data: Seq<u8>, run: Log) -> Step {
    let (log1, ready) = select_pipe0_ready_log(log, true, PIPE0_READY_ATTEMPTS as nat, run);
    let len = packet_len(data, state.ep0_max_packet);
    let short = len < state.ep0_max_packet;
    let bemp = ep0_bemp(state.bempenb_shadow, short);
    if state.ep0_stalled {
        failed(state, log, UsbError::WouldBlock)
    } else if state.ep0_last_setup_dir_out && data.len() == 0 {
        Step {
            state: BusState {
                ep0_last_setup_dir_out: false,
                ..state.with_masks(without_ep0(state.masks()))
            },
            log: complete_status_log(log, state.masks(), run),
            result: Ok(0),
        }
    } else if !ready {
        failed(state, log1, UsbError::WouldBlock)
    } else {
        Step {
            state: BusState { bempenb_shadow: bemp, ep0_short_in_waiting_status: short, ..state },
            log: send_ep0_log(log1, state.ep0_max_packet, data, bemp, run),
            result: Ok(len as usize),
        }
    }
}

pub(crate) fn write_ep0<I: Instance>(
    io: &mut Mmio<I>,
    state: &mut BusState,
    buf: &[u8],
) -> (r: Result<usize, UsbError>)
    ensures
        grows(old(io).log(), final(io).log()),
        forall|run: Log|
            #![trigger begins(final(io).log(), run)]
            begins(final(io).log(), run) ==> (Step {
                state: *final(state),
                log: final(io).log(),
                result: r,
            }) == write_ep0_step(*old(state), old(io).log(), buf@, run),
        in_step(old(io).log(), *old(state)) ==> in_step(final(io).log(), *final(state)),
        latch(final(io).log()) == latch(old(io).log()),
        same_endpoints(*old(state), *final(state)),
{
    proof {
        reveal(write_ep0_step);
    }
    if state.ep0_stalled {
        return Err(UsbError::WouldBlock);
    }
    if state.ep0_last_setup_dir_out && buf.len() == 0 {
        complete_status(io, state);
        state.ep0_last_setup_dir_out = false;
        return Ok(0);
    }
    if !regs::select_pipe0_ready(io, true) {
        return Err(UsbError::WouldBlock);
    }
    let ep0_max_packet: u16 = state.ep0_max_packet;
    let write_len: usize = send_ep0(io, &mut state.bempenb_shadow, ep0_max_packet, buf);
    state.ep0_short_in_waiting_status = write_len < ep0_max_packet as usize;
    Ok(write_len)
}

/// Sending a packet on an endpoint.
pub open spec fn write_step(
    state: BusState,
    log: Log,
    ep_addr: EndpointAddress,
    data: Seq<u8>,
    run: Log,
) -> Step {
    if ep_addr.direction() != UsbDirection::In {
        failed(state, log, UsbError::InvalidEndpoint)
    } else if ep_addr.index() == 0 {
        write_ep0_step(state, log, data, run)
    } else {
        match pipe_of(state.pipe_bindings@, ep_addr) {
            Some(pipe) => write_pipe_step(
                state,
                log,
                pipe,
                state.pipe_bindings@[pipe as int]->0.max_packet,
                data,
                run,
            ),
            None => failed(state, log, UsbError::InvalidEndpoint),
        }
    }
}

} // verus!
