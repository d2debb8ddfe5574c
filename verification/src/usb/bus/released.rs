//! How a write gets its packet on the way to the host.

use crate::bits::lemma_word;
use crate::mmio::{Access, Log, Reg16, Reg8};
use crate::trace::{
    control_register, lemma_read16_bytes, lemma_read16_push, lemma_read16_spin, lemma_seen_bytes,
    lemma_seen_pipe0, lemma_seen_push, lemma_seen_ready, lemma_seen_spin, lemma_written16_bytes,
    lemma_written16_pipe0, lemma_written16_push, lemma_written16_ready, lemma_written16_spin,
    read16, seen, written16,
};
use crate::usb::bus::laws::{law_lookup_finds_the_pipe, lemma_pipe_from};
use crate::usb::bus::pipes::pipe_of;
use crate::usb::bus::received::{lemma_pipe0_looks, lemma_ready_looks};
use crate::usb::bus::write::{
    complete_status_log, send_ep0_log, send_pipe_log, write_ep0_step, write_pipe_step, write_step,
};
use crate::usb::endpoint::{law_address_by_arithmetic, EndpointAddress, UsbError};
use crate::usb::regs::{
    fifo_ready_log, law_answer_field, law_mask_bits, select_d0fifo_log, select_pipe0_ready_log,
    set_dcp_pid_log, set_pipe_pid_log, updated, write_d0fifo_log, CFIFO_READY_SPINS,
    PIPE0_READY_ATTEMPTS,
};
use crate::usb::types::BusState;
use vstd::prelude::*;

verus! {

/// What a write does to the D0FIFO port and to the pipe behind it.
pub open spec fn sending(control: Reg16) -> spec_fn(Access) -> bool {
    |access: Access|
        match access {
            Access::Write16 { reg, .. } => reg == Reg16::D0fifoctr || reg == Reg16::Bempenb || reg
                == control,
            Access::Write8 { reg, .. } => reg == Reg8::D0fifo,
            _ => false,
        }
}

/// How `taken` bytes of `data` are sent on a pipe with an endpoint of a packet size. They are put
/// into an emptied port while the pipe answers NAK, byte by byte and in order, and then the report
/// that they are sent is asked for and the pipe is told to send them. A packet that takes less than
/// the packet size, an empty one included, is released with the BVAL flag between its last byte and
/// that. A full packet is not.
pub open spec fn releases(
    log: Log,
    after: Log,
    pipe: int,
    size: int,
    data: Seq<u8>,
    taken: int,
) -> bool {
    let control = control_register(pipe);
    let known = seen(log, sending(control));
    let new = seen(after, sending(control)).skip(known.len() as int);
    &&& taken == if data.len() < size {
        data.len() as int
    } else {
        size
    }
    &&& new[0] is Write16 && new[0]->Write16_reg == control && new[0]->Write16_value % 4 == 0
    &&& new[1] == (Access::Write16 { reg: Reg16::D0fifoctr, value: 0x4000 })
    &&& forall|i: int|
        0 <= i < taken ==> #[trigger] new[2 + i] == (Access::Write8 {
            reg: Reg8::D0fifo,
            value: data[i],
        })
    &&& taken < size ==> new[2 + taken] == (Access::Write16 {
        reg: Reg16::D0fifoctr,
        value: 0x8000,
    })
    &&& new.len() == if taken < size {
        taken + 5
    } else {
        taken + 4
    }
    &&& new[new.len() - 2] is Write16 && new[new.len() - 2]->Write16_reg == Reg16::Bempenb
    &&& new[new.len() - 2]->Write16_value & (1u16 << pipe) != 0
    &&& new.last() is Write16 && new.last()->Write16_reg == control && new.last()->Write16_value % 4
        == 1
}

/// A write that succeeds gets its packet on the way.
#[verifier::rlimit(60)]
pub proof fn law_write_releases_the_packet(
    state: BusState,
    log: Log,
    ep_addr: EndpointAddress,
    data: Seq<u8>,
    run: Log,
    pipe: int,
)
    requires
        state.wf(),
        data.len() <= usize::MAX,
        1 <= pipe <= 9,
        state.pipe_bindings@[pipe] is Some,
        state.pipe_bindings@[pipe]->0.ep_addr == ep_addr,
        write_step(state, log, ep_addr, data, run).result is Ok,
    ensures
        ({
            let step = write_step(state, log, ep_addr, data, run);
            let size = state.pipe_bindings@[pipe]->0.max_packet as int;
            releases(log, step.log, pipe, size, data, step.result->Ok_0 as int)
        }),
{
    broadcast use {lemma_seen_push, lemma_seen_spin, lemma_seen_ready, lemma_seen_bytes};

    let step = write_step(state, log, ep_addr, data, run);
    law_lookup_finds_the_pipe(state, ep_addr, pipe as u8);
    assert(ep_addr.index() != 0 && state.pipe_bindings@[pipe]->0.max_packet > 0) by {
        reveal(BusState::wf);
    }
    let control = control_register(pipe);
    let keep = sending(control);
    let known = seen(log, keep);
    reveal(write_pipe_step);
    reveal(select_d0fifo_log);
    reveal(send_pipe_log);
    reveal(set_pipe_pid_log);
    reveal(write_d0fifo_log);
    let log1 = fifo_ready_log(
        select_d0fifo_log(log, pipe as u8, run),
        Reg16::D0fifoctr,
        CFIFO_READY_SPINS as nat,
        run,
    ).0;
    assert(seen(log1, keep) == known);
    assert forall|x: u16| {
        &&& ((#[trigger] (x & !0x0003u16)) | 0x0000) % 4 == 0
        &&& ((x & !0x0003u16) | 0x0001) % 4 == 1
    } by {
        law_answer_field(x);
    }
    let mask = state.bempenb_shadow;
    law_mask_bits(mask, pipe, pipe);
    lemma_word(mask | (1u16 << pipe));
    let taken = step.result->Ok_0 as int;
    let packet = data.take(taken);
    let bytes = Seq::new(
        packet.len(),
        |i: int| Access::Write8 { reg: Reg8::D0fifo, value: packet[i] },
    );
    let all = seen(step.log, keep);
    let new = all.skip(known.len() as int);
    let start = known.push(new[0]).push(new[1]);
    assert(all.len() >= known.len() + 3 + taken);
    assert(all.take(known.len() + 2 + taken) =~= start + bytes);
    assert forall|i: int| 0 <= i < taken implies #[trigger] new[2 + i] == (Access::Write8 {
        reg: Reg8::D0fifo,
        value: data[i],
    }) by {
        assert(all.take(known.len() + 2 + taken)[known.len() + 2 + i] == bytes[i]);
    }
}

/// What a write does to the width of the D0FIFO port, and the bytes that it puts there.
pub open spec fn feeding() -> spec_fn(Access) -> bool {
    |access: Access|
        match access {
            Access::Write16 { reg, .. } => reg == Reg16::D0fifosel,
            Access::Write8 { reg, .. } => reg == Reg8::D0fifo,
            _ => false,
        }
}

/// A write connects the D0FIFO port to the pipe of the endpoint before anything else, with half-
/// word access, which is 1 in bits 10 and 11. It switches the port to byte access for the bytes of
/// the packet, if there are any, and back after the last one, and leaves the rest of the selection
/// as it reads.
#[verifier::rlimit(60)]
pub proof fn law_write_connects_the_port(
    state: BusState,
    log: Log,
    ep_addr: EndpointAddress,
    data: Seq<u8>,
    run: Log,
    pipe: int,
)
    requires
        state.wf(),
        data.len() <= usize::MAX,
        1 <= pipe <= 9,
        state.pipe_bindings@[pipe] is Some,
        state.pipe_bindings@[pipe]->0.ep_addr == ep_addr,
        write_step(state, log, ep_addr, data, run).result is Ok,
    ensures
        ({
            let step = write_step(state, log, ep_addr, data, run);
            let taken = step.result->Ok_0 as int;
            let known = seen(log, feeding());
            let new = seen(step.log, feeding()).skip(known.len() as int);
            let read = read16(step.log, Reg16::D0fifosel).last();
            let bytewise = (read - read / 1024 % 4 * 1024) as u16;
            &&& new[0] == (Access::Write16 {
                reg: Reg16::D0fifosel,
                value: (0x0400 + pipe) as u16,
            })
            &&& taken == 0 ==> new.len() == 1
            &&& taken > 0 ==> {
                &&& new.len() == taken + 3
                &&& new[1] == (Access::Write16 { reg: Reg16::D0fifosel, value: bytewise })
                &&& forall|i: int|
                    0 <= i < taken ==> #[trigger] new[2 + i] == (Access::Write8 {
                        reg: Reg8::D0fifo,
                        value: data[i],
                    })
                &&& new.last() == (Access::Write16 {
                    reg: Reg16::D0fifosel,
                    value: (bytewise + 0x0400) as u16,
                })
            }
        }),
{
    broadcast use {
        lemma_seen_push,
        lemma_seen_spin,
        lemma_seen_ready,
        lemma_seen_bytes,
        lemma_read16_push,
        lemma_read16_bytes,
    };

    let step = write_step(state, log, ep_addr, data, run);
    law_lookup_finds_the_pipe(state, ep_addr, pipe as u8);
    assert(ep_addr.index() != 0) by {
        reveal(BusState::wf);
    }
    let keep = feeding();
    let known = seen(log, keep);
    reveal(write_pipe_step);
    reveal(select_d0fifo_log);
    reveal(send_pipe_log);
    reveal(set_pipe_pid_log);
    reveal(write_d0fifo_log);
    let log1 = fifo_ready_log(
        select_d0fifo_log(log, pipe as u8, run),
        Reg16::D0fifoctr,
        CFIFO_READY_SPINS as nat,
        run,
    ).0;
    let p = pipe as u16;
    lemma_word(p);
    let connect = Access::Write16 { reg: Reg16::D0fifosel, value: (0x0400 + pipe) as u16 };
    assert(seen(log1, keep) == known.push(connect));
    assert forall|x: u16| {
        &&& ((#[trigger] (x & !0x0c00u16)) | 0u16) == x - x / 1024 % 4 * 1024
        &&& ((x & !0x0c00u16) | 0x0400u16) == x - x / 1024 % 4 * 1024 + 0x0400
    } by {
        lemma_word(x);
    }
    let taken = step.result->Ok_0 as int;
    let packet = data.take(taken);
    let bytes = Seq::new(
        packet.len(),
        |i: int| Access::Write8 { reg: Reg8::D0fifo, value: packet[i] },
    );
    let all = seen(step.log, keep);
    let new = all.skip(known.len() as int);
    if taken > 0 {
        assert(all.len() == known.len() + 3 + taken);
        assert(all.take(known.len() + 2 + taken) =~= known.push(connect).push(new[1]) + bytes);
        assert forall|i: int| 0 <= i < taken implies #[trigger] new[2 + i] == (Access::Write8 {
            reg: Reg8::D0fifo,
            value: data[i],
        }) by {
            assert(all.take(known.len() + 2 + taken)[known.len() + 2 + i] == bytes[i]);
        }
    }
}

/// When a write on a pipe succeeds: the pipe must not be busy, which it is from a write until its
/// packet is reported as sent, and one of ten thousand looks at the port must find bit 13 set. A
/// write that fails changes nothing of the state. One that succeeds makes the pipe busy, clears its
/// old report and asks for the new one, and changes nothing else.
#[verifier::rlimit(60)]
pub proof fn law_write_outcome(
    state: BusState,
    log: Log,
    ep_addr: EndpointAddress,
    data: Seq<u8>,
    run: Log,
    pipe: int,
)
    requires
        state.wf(),
        data.len() <= usize::MAX,
        1 <= pipe <= 9,
        state.pipe_bindings@[pipe] is Some,
        state.pipe_bindings@[pipe]->0.ep_addr == ep_addr,
    ensures
        ({
            let step = write_step(state, log, ep_addr, data, run);
            let known = read16(log, Reg16::D0fifoctr).len() as int;
            let looks = read16(step.log, Reg16::D0fifoctr).skip(known);
            let not_ready = forall|i: int|
                0 <= i < looks.len() ==> #[trigger] looks[i] & 0x2000 == 0;
            let bit = 1u16 << pipe;
            &&& step.result is Err ==> step.state == state
            &&& if ep_addr.0 < 128 {
                step.result == Err::<usize, UsbError>(UsbError::InvalidEndpoint) && step.log == log
            } else if state.in_busy_mask & bit != 0 {
                step.result == Err::<usize, UsbError>(UsbError::WouldBlock) && step.log == log
            } else if not_ready {
                step.result == Err::<usize, UsbError>(UsbError::WouldBlock) && looks.len() == 10_000
            } else {
                &&& step.result is Ok
                &&& step.state == (BusState {
                    bempenb_shadow: state.bempenb_shadow | bit,
                    in_busy_mask: state.in_busy_mask | bit,
                    ..state
                })
                &&& written16(step.log, Reg16::Bempsts) == written16(log, Reg16::Bempsts).push(
                    0x03ff & !bit,
                )
            }
        }),
{
    broadcast use {
        lemma_read16_push,
        lemma_read16_spin,
        lemma_read16_bytes,
        lemma_written16_push,
        lemma_written16_spin,
        lemma_written16_ready,
        lemma_written16_bytes,
    };

    let step = write_step(state, log, ep_addr, data, run);
    law_address_by_arithmetic(ep_addr);
    law_lookup_finds_the_pipe(state, ep_addr, pipe as u8);
    assert(ep_addr.index() != 0) by {
        reveal(BusState::wf);
    }
    reveal(write_pipe_step);
    reveal(select_d0fifo_log);
    reveal(send_pipe_log);
    reveal(set_pipe_pid_log);
    reveal(write_d0fifo_log);
    let selected = select_d0fifo_log(log, pipe as u8, run);
    let (log1, ready) = fifo_ready_log(
        selected,
        Reg16::D0fifoctr,
        CFIFO_READY_SPINS as nat,
        run,
    );
    let known = read16(log, Reg16::D0fifoctr).len() as int;
    let looks = read16(step.log, Reg16::D0fifoctr).skip(known);
    let waited = read16(log1, Reg16::D0fifoctr);
    assert(read16(selected, Reg16::D0fifoctr) == read16(log, Reg16::D0fifoctr));
    lemma_ready_looks(selected, Reg16::D0fifoctr, CFIFO_READY_SPINS as nat, run);
    let bit = 1u16 << pipe;
    let bemp = state.bempenb_shadow;
    lemma_word(bemp | bit);
    lemma_word(bit);
    if ep_addr.0 >= 128 && state.in_busy_mask & bit == 0 {
        assert(read16(step.log, Reg16::D0fifoctr) == waited);
        if ready {
            assert(looks[waited.len() - 1 - known] & 0x2000 != 0);
        } else {
            assert forall|i: int| 0 <= i < looks.len() implies #[trigger] looks[i] & 0x2000 == 0 by {
                assert(looks[i] == waited[i + known]);
                assert(i + known == waited.len() - 1 ==> waited[i + known] == waited.last());
            }
        }
    }
}

/// A write to an address that is neither that of the control endpoint nor that of an endpoint in
/// use is refused without a trace.
pub proof fn law_write_refuses_strangers(
    state: BusState,
    log: Log,
    ep_addr: EndpointAddress,
    data: Seq<u8>,
    run: Log,
)
    requires
        ep_addr.0 != 128,
        forall|pipe: int|
            1 <= pipe <= 9 && (#[trigger] state.pipe_bindings@[pipe]) is Some
                ==> state.pipe_bindings@[pipe]->0.ep_addr != ep_addr,
    ensures
        ({
            let step = write_step(state, log, ep_addr, data, run);
            &&& step.result == Err::<usize, UsbError>(UsbError::InvalidEndpoint)
            &&& step.state == state
            &&& step.log == log
        }),
{
    law_address_by_arithmetic(ep_addr);
    lemma_pipe_from(state.pipe_bindings@, ep_addr, 1);
    if let Some(pipe) = pipe_of(state.pipe_bindings@, ep_addr) {
        assert(state.pipe_bindings@[pipe as int] is Some);
    }
}

/// What a write does to the CFIFO port and to the control pipe.
pub open spec fn control_sending() -> spec_fn(Access) -> bool {
    |access: Access|
        match access {
            Access::Write16 { reg, .. } => reg == Reg16::Cfifoctr || reg == Reg16::Dcpctr || reg
                == Reg16::Bempenb,
            Access::Write8 { reg, .. } => reg == Reg8::Cfifo,
            _ => false,
        }
}

/// The bit of the control pipe in a mask, cleared and set.
pub proof fn lemma_control_bit(mask: u16)
    ensures
        updated(mask, 0, 1) == mask & !1u16,
        updated(mask, 1, 0) == mask | 1,
{
    lemma_word(mask);
}

/// What clears the report of the control pipe and no other.
pub proof fn lemma_control_report()
    ensures
        !0x0001u16 & 0x03ff == 0x03fe,
{
    assert(!0x0001u16 & 0x03ff == 0x03fe) by (bit_vector);
}

/// A write on the control endpoint. While the endpoint is stalled it would block. The port is
/// connected to the control pipe in the direction to the host only, which is bit 5 of its
/// selection, and the old report of the pipe is cleared. An empty write
/// after a SETUP packet that announced data from the host completes the transfer, which is bit 2 of
/// the control register, and the control pipe reports nothing from then on. Any other write puts
/// the packet into the emptied port while the pipe answers NAK, releases it with the BVAL flag if
/// it is empty or short, and tells the pipe to send it. The report that it is sent is asked for if
/// and only if the packet is full.
#[verifier::rlimit(60)]
pub proof fn law_control_write(
    state: BusState,
    log: Log,
    ep_addr: EndpointAddress,
    data: Seq<u8>,
    run: Log,
)
    requires
        ep_addr.0 == 128,
        data.len() <= usize::MAX,
    ensures
        ({
            let step = write_step(state, log, ep_addr, data, run);
            let size = state.ep0_max_packet as int;
            let known = seen(log, control_sending());
            let new = seen(step.log, control_sending()).skip(known.len() as int);
            let looked = read16(log, Reg16::Cfifoctr).len() as int;
            let looks = read16(step.log, Reg16::Cfifoctr).skip(looked);
            let not_ready = forall|i: int|
                0 <= i < looks.len() ==> #[trigger] looks[i] & 0x2000 == 0;
            let selected = written16(log, Reg16::Cfifosel);
            let selections = written16(step.log, Reg16::Cfifosel);
            let reports = written16(log, Reg16::Bempsts);
            &&& step.result is Err ==> step.state == state && new.len() == 0
            &&& forall|i: int|
                selected.len() <= i < selections.len() ==> #[trigger] selections[i] == 0x0020
            &&& step.result is Ok ==> written16(step.log, Reg16::Bempsts) == reports.push(0x03fe)
            &&& if state.ep0_stalled {
                step.result == Err::<usize, UsbError>(UsbError::WouldBlock) && step.log == log
            } else if state.ep0_last_setup_dir_out && data.len() == 0 {
                &&& step.result == Ok::<usize, UsbError>(0)
                &&& new.len() == 2
                &&& new[0] == (Access::Write16 {
                    reg: Reg16::Bempenb,
                    value: state.bempenb_shadow & !1u16,
                })
                &&& new[1] is Write16 && new[1]->Write16_reg == Reg16::Dcpctr
                    && new[1]->Write16_value % 8 == 5
                &&& step.state == (BusState {
                    ep0_last_setup_dir_out: false,
                    brdyenb_shadow: state.brdyenb_shadow & !1u16,
                    nrdyenb_shadow: state.nrdyenb_shadow & !1u16,
                    bempenb_shadow: state.bempenb_shadow & !1u16,
                    ..state
                })
            } else if not_ready {
                step.result == Err::<usize, UsbError>(UsbError::WouldBlock) && looks.len() == 80_000
            } else {
                let taken = step.result->Ok_0 as int;
                &&& step.result is Ok
                &&& selections.len() > selected.len()
                &&& taken == if data.len() < size {
                    data.len() as int
                } else {
                    size
                }
                &&& new[0] == (Access::Write16 { reg: Reg16::Cfifoctr, value: 0x4000 })
                &&& new[1] is Write16 && new[1]->Write16_reg == Reg16::Dcpctr
                    && new[1]->Write16_value % 4 == 0
                &&& forall|i: int|
                    0 <= i < taken ==> #[trigger] new[2 + i] == (Access::Write8 {
                        reg: Reg8::Cfifo,
                        value: data[i],
                    })
                &&& taken == 0 || taken < size ==> new[2 + taken] == (Access::Write16 {
                    reg: Reg16::Cfifoctr,
                    value: 0x8000,
                })
                &&& new.len() == if taken == 0 || taken < size {
                    taken + 5
                } else {
                    taken + 4
                }
                &&& new[new.len() - 2] == (Access::Write16 {
                    reg: Reg16::Bempenb,
                    value: step.state.bempenb_shadow,
                })
                &&& new.last() is Write16 && new.last()->Write16_reg == Reg16::Dcpctr
                    && new.last()->Write16_value % 4 == 1
                &&& step.state == (BusState {
                    bempenb_shadow: if taken < size {
                        state.bempenb_shadow & !1u16
                    } else {
                        state.bempenb_shadow | 1
                    },
                    ep0_short_in_waiting_status: taken < size,
                    ..state
                })
            }
        }),
{
    broadcast use {
        lemma_seen_push,
        lemma_seen_pipe0,
        lemma_seen_bytes,
        lemma_read16_push,
        lemma_read16_bytes,
        lemma_written16_push,
        lemma_written16_bytes,
    };

    let step = write_step(state, log, ep_addr, data, run);
    law_address_by_arithmetic(ep_addr);
    let keep = control_sending();
    let known = seen(log, keep);
    reveal(write_ep0_step);
    reveal(send_ep0_log);
    reveal(complete_status_log);
    reveal(set_dcp_pid_log);
    assert forall|x: u16| {
        &&& ((#[trigger] (x & !0x0003u16)) | 0x0000) % 4 == 0
        &&& ((x & !0x0003u16) | 0x0001) % 4 == 1
        &&& ((x & !0x0003u16) | 0x0001 | 0x0004) % 8 == 5
    } by {
        law_answer_field(x);
    }
    lemma_control_bit(state.brdyenb_shadow);
    lemma_control_bit(state.nrdyenb_shadow);
    lemma_control_bit(state.bempenb_shadow);
    let (log1, ready) = select_pipe0_ready_log(log, true, PIPE0_READY_ATTEMPTS as nat, run);
    lemma_pipe0_looks(log, true, PIPE0_READY_ATTEMPTS as nat, run);
    lemma_written16_pipe0(log, true, PIPE0_READY_ATTEMPTS as nat, run, Reg16::Cfifosel);
    lemma_written16_pipe0(log, true, PIPE0_READY_ATTEMPTS as nat, run, Reg16::Bempsts);
    lemma_control_report();
    let looked = read16(log, Reg16::Cfifoctr).len() as int;
    let looks = read16(step.log, Reg16::Cfifoctr).skip(looked);
    let waited = read16(log1, Reg16::Cfifoctr);
    assert(seen(log1, keep) == known);
    if !state.ep0_stalled && !(state.ep0_last_setup_dir_out && data.len() == 0) {
        assert(read16(step.log, Reg16::Cfifoctr) == waited);
        if !ready {
            assert forall|i: int| 0 <= i < looks.len() implies #[trigger] looks[i] & 0x2000 == 0 by {
                assert(looks[i] == waited[i + looked]);
                assert(i + looked == waited.len() - 1 ==> waited[i + looked] == waited.last());
            }
        } else {
            assert(looks[waited.len() - 1 - looked] & 0x2000 != 0);
            let taken = step.result->Ok_0 as int;
            let packet = data.take(taken);
            let bytes = Seq::new(
                packet.len(),
                |i: int| Access::Write8 { reg: Reg8::Cfifo, value: packet[i] },
            );
            let all = seen(step.log, keep);
            let new = all.skip(known.len() as int);
            assert(all.len() >= known.len() + 3 + taken);
            assert(all.take(known.len() + 2 + taken) =~= known.push(new[0]).push(new[1]) + bytes);
            assert forall|i: int| 0 <= i < taken implies #[trigger] new[2 + i] == (Access::Write8 {
                reg: Reg8::Cfifo,
                value: data[i],
            }) by {
                assert(all.take(known.len() + 2 + taken)[known.len() + 2 + i] == bytes[i]);
            }
        }
    }
}

} // verus!
