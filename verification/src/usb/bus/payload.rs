//! What a write puts into the packet buffers.

use crate::mmio::{rd16, Access, Log, Reg16, Reg8};
use crate::usb::bus::pipes::pipe_of;
use crate::usb::bus::write::{
    complete_status_log, packet_len, send_ep0_log, send_pipe_log, write_ep0_step, write_pipe_step,
    write_step,
};
use crate::usb::endpoint::{EndpointAddress, UsbDirection};
use crate::usb::regs::{
    fifo_ready_log, select_d0fifo_log, select_pipe0_log, select_pipe0_ready_log, set_dcp_pid_log,
    set_pipe_pid_log, spin_log, wr_bytes, write_d0fifo_log, PipePid, CFIFO_READY_SPINS,
    PIPE0_READY_ATTEMPTS, READY_DELAY_CYCLES,
};
use crate::usb::types::BusState;
use vstd::prelude::*;

verus! {

/// The bytes that were put into a port, oldest first.
#[verifier::opaque]
pub open spec fn payload(log: Log, port: Reg8) -> Seq<u8>
    decreases log.len(),
{
    if log.len() == 0 {
        Seq::empty()
    } else {
        let before = payload(log.drop_last(), port);
        match log.last() {
            Access::Write8 { reg, value } => if reg == port {
                before.push(value)
            } else {
                before
            },
            _ => before,
        }
    }
}

/// The payload after one more access.
pub broadcast proof fn lemma_payload_push(log: Log, access: Access, port: Reg8)
    ensures
        #[trigger] payload(log.push(access), port) == match access {
            Access::Write8 { reg, value } => if reg == port {
                payload(log, port).push(value)
            } else {
                payload(log, port)
            },
            _ => payload(log, port),
        },
{
    reveal(payload);
    assert(log.push(access).drop_last() =~= log);
}

/// Writing bytes to a port adds them to its payload and to no other.
proof fn lemma_payload_bytes(log: Log, reg: Reg8, data: Seq<u8>, port: Reg8)
    ensures
        payload(wr_bytes(log, reg, data), port) == payload(log, port) + if reg == port {
            data
        } else {
            Seq::empty()
        },
    decreases data.len(),
{
    reveal(wr_bytes);
    if data.len() == 0 {
        assert(wr_bytes(log, reg, data) =~= log);
        assert(payload(log, port) + Seq::<u8>::empty() =~= payload(log, port));
        assert(data =~= Seq::<u8>::empty());
    } else {
        let head = data.drop_last();
        lemma_payload_bytes(log, reg, head, port);
        assert(wr_bytes(log, reg, data) =~= wr_bytes(log, reg, head).push(
            Access::Write8 { reg, value: data.last() },
        ));
        lemma_payload_push(
            wr_bytes(log, reg, head),
            Access::Write8 { reg, value: data.last() },
            port,
        );
        if reg == port {
            assert((payload(log, port) + head).push(data.last()) =~= payload(log, port) + data);
        }
    }
}

/// Waiting for a register adds nothing to the payload.
proof fn lemma_payload_spin(
    log: Log,
    reg: Reg16,
    mask: u16,
    want: u16,
    tries: nat,
    run: Log,
    port: Reg8,
)
    ensures
        payload(spin_log(log, reg, mask, want, tries, run), port) == payload(log, port),
    decreases tries,
{
    broadcast use lemma_payload_push;

    reveal(spin_log);
    if tries > 0 {
        lemma_payload_spin(
            rd16(log, reg, run),
            reg,
            mask,
            want,
            (tries - 1) as nat,
            run,
            port,
        );
    }
}

/// Waiting for a port adds nothing to the payload.
proof fn lemma_payload_ready(log: Log, ctr: Reg16, tries: nat, run: Log, port: Reg8)
    ensures
        payload(fifo_ready_log(log, ctr, tries, run).0, port) == payload(log, port),
    decreases tries,
{
    broadcast use lemma_payload_push;

    reveal(fifo_ready_log);
    if tries > 0 {
        let log1 = rd16(log, ctr, run);
        let log2 = rd16(log1, Reg16::Syscfg, run);
        let log3 = rd16(log2, Reg16::Syssts0, run);
        let log4 = log3.push(Access::Delay { cycles: READY_DELAY_CYCLES });
        lemma_payload_ready(log4, ctr, (tries - 1) as nat, run, port);
    }
}

/// Connecting the control pipe adds nothing to the payload.
proof fn lemma_payload_pipe0(log: Log, in_direction: bool, tries: nat, run: Log, port: Reg8)
    ensures
        payload(select_pipe0_ready_log(log, in_direction, tries, run).0, port) == payload(
            log,
            port,
        ),
    decreases tries,
{
    broadcast use lemma_payload_push;

    reveal(select_pipe0_ready_log);
    if tries > 0 {
        let log1 = select_pipe0_log(log, in_direction, run);
        assert(payload(log1, port) == payload(log, port)) by {
            reveal(select_pipe0_log);
            assert forall|l: Log, m: u16, w: u16|
                payload(
                    #[trigger] spin_log(l, Reg16::Cfifosel, m, w, CFIFO_READY_SPINS as nat, run),
                    port,
                ) == payload(l, port) by {
                lemma_payload_spin(l, Reg16::Cfifosel, m, w, CFIFO_READY_SPINS as nat, run, port);
            }
        }
        lemma_payload_ready(log1, Reg16::Cfifoctr, CFIFO_READY_SPINS as nat, run, port);
        let log2 = fifo_ready_log(log1, Reg16::Cfifoctr, CFIFO_READY_SPINS as nat, run).0;
        lemma_payload_pipe0(log2, in_direction, (tries - 1) as nat, run, port);
    }
}

/// Setting how a pipe answers adds nothing to the payload.
proof fn lemma_payload_pid(log: Log, pipe: u8, pid: PipePid, run: Log, port: Reg8)
    ensures
        payload(set_pipe_pid_log(log, pipe, pid, run), port) == payload(log, port),
{
    broadcast use lemma_payload_push;

    reveal(set_pipe_pid_log);
}

/// Setting how the control pipe answers adds nothing to the payload.
proof fn lemma_payload_dcp(log: Log, pid: PipePid, complete: bool, run: Log, port: Reg8)
    ensures
        payload(set_dcp_pid_log(log, pid, complete, run), port) == payload(log, port),
{
    broadcast use lemma_payload_push;

    reveal(set_dcp_pid_log);
}

/// Sending on a pipe puts the packet into the D0FIFO port, byte by byte.
proof fn lemma_payload_send_pipe(
    log: Log,
    pipe: u8,
    max_packet: u16,
    data: Seq<u8>,
    bemp: u16,
    run: Log,
    port: Reg8,
)
    ensures
        payload(send_pipe_log(log, pipe, max_packet, data, bemp, run), port) == payload(log, port)
            + if port == Reg8::D0fifo {
            data.take(packet_len(data, max_packet) as int)
        } else {
            Seq::empty()
        },
{
    broadcast use lemma_payload_push;

    reveal(send_pipe_log);
    reveal(write_d0fifo_log);
    let packet = data.take(packet_len(data, max_packet) as int);
    assert forall|l: Log, p: PipePid|
        payload(#[trigger] set_pipe_pid_log(l, pipe, p, run), port) == payload(l, port) by {
        lemma_payload_pid(l, pipe, p, run, port);
    }
    assert forall|l: Log|
        payload(#[trigger] wr_bytes(l, Reg8::D0fifo, packet), port) == payload(l, port) + if port
            == Reg8::D0fifo {
            packet
        } else {
            Seq::empty()
        } by {
        lemma_payload_bytes(l, Reg8::D0fifo, packet, port);
    }
    if packet.len() == 0 {
        assert(packet =~= Seq::<u8>::empty());
    }
    assert(payload(log, port) + Seq::<u8>::empty() =~= payload(log, port));
}

/// Sending on the control pipe puts the packet into the CFIFO port, byte by byte.
proof fn lemma_payload_send_ep0(
    log: Log,
    max_packet: u16,
    data: Seq<u8>,
    bemp: u16,
    run: Log,
    port: Reg8,
)
    ensures
        payload(send_ep0_log(log, max_packet, data, bemp, run), port) == payload(log, port)
            + if port == Reg8::Cfifo {
            data.take(packet_len(data, max_packet) as int)
        } else {
            Seq::empty()
        },
{
    broadcast use lemma_payload_push;

    reveal(send_ep0_log);
    let packet = data.take(packet_len(data, max_packet) as int);
    assert forall|l: Log, p: PipePid, c: bool|
        payload(#[trigger] set_dcp_pid_log(l, p, c, run), port) == payload(l, port) by {
        lemma_payload_dcp(l, p, c, run, port);
    }
    assert forall|l: Log|
        payload(#[trigger] wr_bytes(l, Reg8::Cfifo, packet), port) == payload(l, port) + if port
            == Reg8::Cfifo {
            packet
        } else {
            Seq::empty()
        } by {
        lemma_payload_bytes(l, Reg8::Cfifo, packet, port);
    }
}

/// The port that packets for an endpoint go through.
pub open spec fn port_of(ep_addr: EndpointAddress) -> Reg8 {
    if ep_addr.index() == 0 {
        Reg8::Cfifo
    } else {
        Reg8::D0fifo
    }
}

/// A write puts exactly the bytes that it reports as taken into the port of the endpoint, in order,
/// and a write that fails puts nothing into any port.
pub proof fn law_write_delivers_what_it_takes(
    state: BusState,
    log: Log,
    ep_addr: EndpointAddress,
    data: Seq<u8>,
    run: Log,
    port: Reg8,
)
    requires
        data.len() <= usize::MAX,
    ensures
        ({
            let step = write_step(state, log, ep_addr, data, run);
            payload(step.log, port) == match step.result {
                Ok(taken) => if port == port_of(ep_addr) {
                    payload(log, port) + data.take(taken as int)
                } else {
                    payload(log, port)
                },
                Err(_) => payload(log, port),
            }
        }),
{
    broadcast use lemma_payload_push;

    assert(payload(log, port) + Seq::<u8>::empty() =~= payload(log, port));
    assert(data.take(0) =~= Seq::<u8>::empty());
    if ep_addr.direction() == UsbDirection::In && ep_addr.index() == 0 {
        reveal(write_ep0_step);
        assert(payload(complete_status_log(log, state.masks(), run), port) == payload(log, port))
            by {
            reveal(complete_status_log);
            assert forall|l: Log, p: PipePid, c: bool|
                payload(#[trigger] set_dcp_pid_log(l, p, c, run), port) == payload(l, port) by {
                lemma_payload_dcp(l, p, c, run, port);
            }
        }
        lemma_payload_pipe0(
            log,
            true,
            PIPE0_READY_ATTEMPTS as nat,
            run,
            port,
        );
        assert forall|l: Log, b: u16|
            payload(#[trigger] send_ep0_log(l, state.ep0_max_packet, data, b, run), port)
                == payload(l, port) + if port == Reg8::Cfifo {
                data.take(packet_len(data, state.ep0_max_packet) as int)
            } else {
                Seq::empty()
            } by {
            lemma_payload_send_ep0(l, state.ep0_max_packet, data, b, run, port);
        }
    } else if ep_addr.direction() == UsbDirection::In && pipe_of(
        state.pipe_bindings@,
        ep_addr,
    ) is Some {
        reveal(write_pipe_step);
        let pipe = pipe_of(state.pipe_bindings@, ep_addr)->0;
        let max_packet = state.pipe_bindings@[pipe as int]->0.max_packet;
        let selected = select_d0fifo_log(log, pipe, run);
        assert(payload(selected, port) == payload(log, port)) by {
            reveal(select_d0fifo_log);
            assert forall|l: Log, m: u16, w: u16|
                payload(
                    #[trigger] spin_log(l, Reg16::D0fifosel, m, w, CFIFO_READY_SPINS as nat, run),
                    port,
                ) == payload(l, port) by {
                lemma_payload_spin(l, Reg16::D0fifosel, m, w, CFIFO_READY_SPINS as nat, run, port);
            }
        }
        lemma_payload_ready(selected, Reg16::D0fifoctr, CFIFO_READY_SPINS as nat, run, port);
        assert forall|l: Log, b: u16|
            payload(#[trigger] send_pipe_log(l, pipe, max_packet, data, b, run), port) == payload(
                l,
                port,
            ) + if port == Reg8::D0fifo {
                data.take(packet_len(data, max_packet) as int)
            } else {
                Seq::empty()
            } by {
            lemma_payload_send_pipe(l, pipe, max_packet, data, b, run, port);
        }
    }
}

} // verus!
