//! What a read hands over and what it leaves behind.

use crate::bits::lemma_word;
use crate::mmio::{in16, rd16, Access, Log, Reg16};
use crate::trace::{
    control_register, lemma_read16_pipe0, lemma_read16_push, lemma_read16_ready, lemma_read16_spin,
    lemma_seen_push, lemma_seen_ready, lemma_seen_spin, lemma_written16_pipe0, lemma_written16_push,
    lemma_written16_spin, read16, seen, written16,
};
use crate::usb::bus::laws::{law_lookup_finds_the_pipe, lemma_pipe_from};
use crate::usb::bus::pipes::pipe_of;
use crate::usb::bus::read::{read_ep0_step, read_pipe_step, read_step, rearm_log};
use crate::usb::bus::released::{lemma_control_bit, lemma_control_report};
use crate::usb::bus::write::complete_status_log;
use crate::usb::endpoint::{law_address_by_arithmetic, EndpointAddress, UsbError};
use crate::usb::regs::{
    fifo_bytes, fifo_ready_log, law_answer_field, law_half_word_round_trip, rd_words,
    select_cfifo_log, select_pipe0_log, select_pipe0_ready_log, set_dcp_pid_log,
    set_pipe_nak_wait_log, set_pipe_pid_log, start_out_receive_log, CFIFO_READY_SPINS,
    PIPE0_READY_ATTEMPTS, READY_DELAY_CYCLES,
};
use crate::usb::types::BusState;
use vstd::prelude::*;

verus! {

/// The half-words that come next in a run.
spec fn words_of(log: Log, words: nat, run: Log) -> Seq<u16> {
    Seq::new(words, |i: int| run[log.len() + i]->Read16_value)
}

/// Reading half-words from the CFIFO port.
proof fn lemma_read_words(log: Log, words: nat, run: Log)
    ensures
        rd_words(log, words, run).len() == log.len() + words,
        read16(rd_words(log, words, run), Reg16::Cfifo) == read16(log, Reg16::Cfifo) + words_of(
            log,
            words,
            run,
        ),
        read16(rd_words(log, words, run), Reg16::Cfifoctr) == read16(log, Reg16::Cfifoctr),
    decreases words,
{
    broadcast use lemma_read16_push;

    reveal(rd_words);
    if words == 0 {
        assert(read16(log, Reg16::Cfifo) + words_of(log, 0, run) =~= read16(log, Reg16::Cfifo));
    } else {
        lemma_read_words(log, (words - 1) as nat, run);
        assert(read16(log, Reg16::Cfifo) + words_of(log, words, run) =~= (read16(log, Reg16::Cfifo)
            + words_of(log, (words - 1) as nat, run)).push(
            run[log.len() + words - 1]->Read16_value,
        ));
    }
}

/// Making a pipe ready for the next packet reads neither data nor the state of the port.
proof fn lemma_rearm_reads(state: BusState, log: Log, pipe: u8, run: Log, reg: Reg16)
    requires
        reg == Reg16::Cfifo || reg == Reg16::Cfifoctr,
    ensures
        read16(rearm_log(state, log, pipe, run), reg) == read16(log, reg),
{
    broadcast use {lemma_read16_push, lemma_read16_spin};

    reveal(rearm_log);
    reveal(start_out_receive_log);
    reveal(set_pipe_nak_wait_log);
    reveal(select_cfifo_log);
    reveal(set_pipe_pid_log);
}

/// The two bytes of a half-word by arithmetic.
proof fn lemma_packet_bytes(log: Log, len: nat, run: Log, i: int)
    requires
        0 <= i < len,
    ensures
        i % 2 == 0 ==> fifo_bytes(log, len, run)[i] == run[log.len() + i / 2]->Read16_value % 256,
        i % 2 == 0 && i + 1 < len ==> fifo_bytes(log, len, run)[i] + 256 * fifo_bytes(
            log,
            len,
            run,
        )[i + 1] == run[log.len() + i / 2]->Read16_value,
{
    law_half_word_round_trip(run[log.len() + i / 2]->Read16_value);
    assert(i % 2 == 0 ==> (i + 1) / 2 == i / 2);
}

/// What a read of `n` bytes hands over: the number of bytes is what the port last reported in its
/// low twelve bits, and the bytes are the half-words read from the port during the call, two per
/// half-word with the low byte first, of the last half-word only the low byte if the number is odd.
/// No more half-words are read than that takes.
pub open spec fn hands_over(log: Log, after: Log, buf: Seq<u8>, n: int) -> bool {
    let old = read16(log, Reg16::Cfifo);
    let new = read16(after, Reg16::Cfifo);
    &&& n == read16(after, Reg16::Cfifoctr).last() % 4096
    &&& n <= buf.len()
    &&& new.len() == old.len() + (n + 1) / 2
    &&& new.take(old.len() as int) == old
    &&& forall|k: int|
        0 <= k && 2 * k + 1 < n ==> buf[2 * k] + 256 * buf[2 * k + 1] == #[trigger] new[old.len()
            + k]
    &&& n % 2 == 1 ==> buf[n - 1] == new.last() % 256
}

/// A read hands over the packet in the port as it came, unless it is one of a SETUP packet or one
/// that completes a control transfer.
#[verifier::rlimit(60)]
pub proof fn law_read_hands_over_the_packet(
    state: BusState,
    log: Log,
    ep_addr: EndpointAddress,
    buf: Seq<u8>,
    run: Log,
)
    requires
        buf.len() <= usize::MAX,
        ep_addr.0 == 0 ==> !state.ep0_setup_ready && buf.len() > 0,
        read_step(state, log, ep_addr, buf, run).result is Ok,
    ensures
        ({
            let step = read_step(state, log, ep_addr, buf, run);
            hands_over(log, step.log, step.buf, step.result->Ok_0 as int) && step.buf.len()
                == buf.len()
        }),
{
    broadcast use {
        lemma_read16_push,
        lemma_read16_spin,
        lemma_read16_ready,
        lemma_read16_pipe0,
    };

    let step = read_step(state, log, ep_addr, buf, run);
    let n = step.result->Ok_0 as int;
    let before = read16(log, Reg16::Cfifo);
    let after = read16(step.log, Reg16::Cfifo);
    law_address_by_arithmetic(ep_addr);
    let log1 = if ep_addr.0 == 0 {
        select_pipe0_ready_log(log, false, PIPE0_READY_ATTEMPTS as nat, run).0
    } else {
        let pipe = pipe_of(state.pipe_bindings@, ep_addr)->0;
        fifo_ready_log(
            select_cfifo_log(log, pipe, false, false, run),
            Reg16::Cfifoctr,
            CFIFO_READY_SPINS as nat,
            run,
        ).0
    };
    let log2 = rd16(log1, Reg16::Cfifoctr, run);
    let reported = in16(log1, run);
    lemma_word(reported);
    let log3 = rd_words(log2, ((n + 1) / 2) as nat, run);
    reveal(read_ep0_step);
    reveal(read_pipe_step);
    reveal(select_cfifo_log);
    assert(n == reported % 4096);
    assert(read16(log1, Reg16::Cfifo) == before);
    lemma_read_words(log2, ((n + 1) / 2) as nat, run);
    assert forall|l: Log, s: BusState, p: u8, r: Reg16|
        r == Reg16::Cfifo || r == Reg16::Cfifoctr implies #[trigger] read16(
        rearm_log(s, l, p, run),
        r,
    ) == read16(l, r) by {
        lemma_rearm_reads(s, l, p, run, r);
    }
    let words = words_of(log2, ((n + 1) / 2) as nat, run);
    assert(after =~= before + words);
    assert(after.take(before.len() as int) =~= before);
    assert forall|k: int| 0 <= k && 2 * k + 1 < n implies step.buf[2 * k] + 256 * step.buf[2 * k
        + 1] == #[trigger] after[before.len() + k] by {
        lemma_packet_bytes(log2, n as nat, run, 2 * k);
    }
    if n % 2 == 1 {
        lemma_packet_bytes(log2, n as nat, run, n - 1);
    }
}

/// What is looked at while a port is waited for: the looks end with the first one that finds the
/// port ready, and the wait fails only if as many looks as there are tries find it not ready.
pub proof fn lemma_ready_looks(log: Log, ctr: Reg16, tries: nat, run: Log)
    requires
        ctr != Reg16::Syscfg,
        ctr != Reg16::Syssts0,
    ensures
        ({
            let (after, ready) = fifo_ready_log(log, ctr, tries, run);
            let old = read16(log, ctr);
            let new = read16(after, ctr);
            &&& old.len() <= new.len() <= old.len() + tries
            &&& new.take(old.len() as int) == old
            &&& forall|i: int| old.len() <= i < new.len() - 1 ==> #[trigger] new[i] & 0x2000 == 0
            &&& ready ==> new.len() > old.len() && new.last() & 0x2000 != 0
            &&& !ready ==> new.len() == old.len() + tries && (tries > 0 ==> new.last() & 0x2000
                == 0)
        }),
    decreases tries,
{
    broadcast use lemma_read16_push;

    reveal(fifo_ready_log);
    let old = read16(log, ctr);
    if tries == 0 {
        assert(old.take(old.len() as int) =~= old);
    } else {
        let log1 = rd16(log, ctr, run);
        let mid = read16(log1, ctr);
        assert(mid == old.push(in16(log, run)));
        assert(mid.take(old.len() as int) =~= old);
        if in16(log, run) & 0x2000 == 0 {
            let log3 = rd16(rd16(log1, Reg16::Syscfg, run), Reg16::Syssts0, run);
            let log4 = log3.push(Access::Delay { cycles: READY_DELAY_CYCLES });
            assert(read16(log4, ctr) == mid);
            lemma_ready_looks(log4, ctr, (tries - 1) as nat, run);
            let new = read16(fifo_ready_log(log4, ctr, (tries - 1) as nat, run).0, ctr);
            assert(new.take(old.len() as int) =~= new.take(mid.len() as int).take(
                old.len() as int,
            ));
            assert(new[old.len() as int] == new.take(mid.len() as int)[old.len() as int]);
        }
    }
}

/// What is looked at while the control pipe is connected: the same, but over again for every try.
pub proof fn lemma_pipe0_looks(log: Log, in_direction: bool, tries: nat, run: Log)
    ensures
        ({
            let (after, ready) = select_pipe0_ready_log(log, in_direction, tries, run);
            let old = read16(log, Reg16::Cfifoctr);
            let new = read16(after, Reg16::Cfifoctr);
            &&& old.len() <= new.len()
            &&& new.take(old.len() as int) == old
            &&& forall|i: int| old.len() <= i < new.len() - 1 ==> #[trigger] new[i] & 0x2000 == 0
            &&& ready ==> new.len() > old.len() && new.last() & 0x2000 != 0
            &&& !ready ==> new.len() == old.len() + 10_000 * tries && (tries > 0 ==> new.last()
                & 0x2000 == 0)
        }),
    decreases tries,
{
    broadcast use {lemma_read16_push, lemma_read16_spin};

    reveal(select_pipe0_ready_log);
    let old = read16(log, Reg16::Cfifoctr);
    if tries == 0 {
        assert(old.take(old.len() as int) =~= old);
    } else {
        reveal(select_pipe0_log);
        let log1 = select_pipe0_log(log, in_direction, run);
        assert(read16(log1, Reg16::Cfifoctr) == old);
        lemma_ready_looks(log1, Reg16::Cfifoctr, CFIFO_READY_SPINS as nat, run);
        let (log2, ready) = fifo_ready_log(log1, Reg16::Cfifoctr, CFIFO_READY_SPINS as nat, run);
        if !ready {
            let mid = read16(log2, Reg16::Cfifoctr);
            lemma_pipe0_looks(log2, in_direction, (tries - 1) as nat, run);
            let new = read16(
                select_pipe0_ready_log(log2, in_direction, (tries - 1) as nat, run).0,
                Reg16::Cfifoctr,
            );
            assert(new.take(old.len() as int) =~= new.take(mid.len() as int).take(
                old.len() as int,
            ));
            assert forall|i: int| old.len() <= i < new.len() - 1 implies #[trigger] new[i] & 0x2000
                == 0 by {
                if i < mid.len() {
                    assert(new[i] == new.take(mid.len() as int)[i]);
                    assert(i == mid.len() - 1 ==> mid[i] == mid.last());
                }
            }
            if tries == 1 {
                assert(new =~= new.take(mid.len() as int));
            }
        }
    }
}

/// When a read succeeds. An address that is not one of an OUT endpoint in use is invalid. Else the
/// read would block exactly if no look at the port finds it ready, that is, if its bit 13 is clear
/// in all looks, and the buffer is too short exactly if the port then reports more bytes than fit.
/// A read that fails changes neither the state nor the buffer.
#[verifier::rlimit(60)]
pub proof fn law_read_outcome(
    state: BusState,
    log: Log,
    ep_addr: EndpointAddress,
    buf: Seq<u8>,
    run: Log,
)
    requires
        buf.len() <= usize::MAX,
    ensures
        ({
            let step = read_step(state, log, ep_addr, buf, run);
            let known = read16(log, Reg16::Cfifoctr).len() as int;
            let looks = read16(step.log, Reg16::Cfifoctr).skip(known);
            let bound = exists|pipe: int|
                1 <= pipe <= 9 && (#[trigger] state.pipe_bindings@[pipe]) is Some
                    && state.pipe_bindings@[pipe]->0.ep_addr == ep_addr;
            let not_ready = forall|i: int|
                0 <= i < looks.len() ==> #[trigger] looks[i] & 0x2000 == 0;
            &&& step.result is Err ==> step.state == state && step.buf == buf
            &&& if ep_addr.0 >= 128 || (ep_addr.0 != 0 && !bound) {
                step.result == Err::<usize, UsbError>(UsbError::InvalidEndpoint) && step.log == log
            } else if ep_addr.0 == 0 && state.ep0_setup_ready {
                step.result == if buf.len() < 8 {
                    Err::<usize, UsbError>(UsbError::BufferOverflow)
                } else {
                    Ok(8)
                }
            } else if ep_addr.0 == 0 && buf.len() == 0 {
                step.result == Ok::<usize, UsbError>(0)
            } else if not_ready {
                &&& step.result == Err::<usize, UsbError>(UsbError::WouldBlock)
                &&& looks.len() == if ep_addr.0 == 0 {
                    80_000int
                } else {
                    10_000
                }
            } else {
                step.result == if looks.last() % 4096 > buf.len() {
                    Err::<usize, UsbError>(UsbError::BufferOverflow)
                } else {
                    Ok((looks.last() % 4096) as usize)
                }
            }
        }),
{
    broadcast use {lemma_read16_push, lemma_read16_spin};

    let step = read_step(state, log, ep_addr, buf, run);
    law_address_by_arithmetic(ep_addr);
    lemma_pipe_from(state.pipe_bindings@, ep_addr, 1);
    reveal(read_ep0_step);
    reveal(read_pipe_step);
    let found = pipe_of(state.pipe_bindings@, ep_addr);
    if ep_addr.0 < 128 && ep_addr.0 != 0 && found is Some {
        assert(state.pipe_bindings@[found->0 as int] is Some);
    }
    let data = (ep_addr.0 == 0 && !state.ep0_setup_ready && buf.len() > 0) || (0 < ep_addr.0 < 128
        && found is Some);
    if data {
        let (log1, ready) = if ep_addr.0 == 0 {
            select_pipe0_ready_log(log, false, PIPE0_READY_ATTEMPTS as nat, run)
        } else {
            fifo_ready_log(
                select_cfifo_log(log, found->0, false, false, run),
                Reg16::Cfifoctr,
                CFIFO_READY_SPINS as nat,
                run,
            )
        };
        let reported = in16(log1, run);
        lemma_word(reported);
        let log2 = rd16(log1, Reg16::Cfifoctr, run);
        let known = read16(log, Reg16::Cfifoctr).len() as int;
        let looks = read16(step.log, Reg16::Cfifoctr).skip(known);
        if ep_addr.0 == 0 {
            lemma_pipe0_looks(log, false, PIPE0_READY_ATTEMPTS as nat, run);
        } else {
            reveal(select_cfifo_log);
            assert(read16(select_cfifo_log(log, found->0, false, false, run), Reg16::Cfifoctr)
                == read16(log, Reg16::Cfifoctr));
            lemma_ready_looks(
                select_cfifo_log(log, found->0, false, false, run),
                Reg16::Cfifoctr,
                CFIFO_READY_SPINS as nat,
                run,
            );
        }
        let waited = read16(log1, Reg16::Cfifoctr);
        if !ready {
            assert(step.log == log1);
            assert forall|i: int| 0 <= i < looks.len() implies #[trigger] looks[i] & 0x2000 == 0 by {
                assert(looks[i] == waited[i + known]);
                assert(i + known == waited.len() - 1 ==> waited[i + known] == waited.last());
            }
        } else {
            lemma_read_words(log2, ((reported % 4096 + 1) / 2) as nat, run);
            assert forall|l: Log, s: BusState, p: u8| #[trigger]
                read16(rearm_log(s, l, p, run), Reg16::Cfifoctr) == read16(l, Reg16::Cfifoctr) by {
                lemma_rearm_reads(s, l, p, run, Reg16::Cfifoctr);
            }
            assert(read16(step.log, Reg16::Cfifoctr) == waited.push(reported));
            assert(looks[waited.len() - 1 - known] & 0x2000 != 0);
        }
    }
}

/// What a read does to the CFIFO port and to the pipe behind it.
pub open spec fn reading(control: Reg16) -> spec_fn(Access) -> bool {
    |access: Access|
        match access {
            Access::Write16 { reg, .. } => reg == Reg16::Cfifosel || reg == Reg16::Cfifoctr || reg
                == control,
            Access::Read16 { reg, .. } => reg == Reg16::Cfifo,
            _ => false,
        }
}

/// The half-words of a packet, as they are seen.
proof fn lemma_seen_words(log: Log, words: nat, run: Log, control: Reg16)
    ensures
        ({
            let old = seen(log, reading(control));
            let new = seen(rd_words(log, words, run), reading(control));
            &&& new.len() == old.len() + words
            &&& new.take(old.len() as int) == old
            &&& forall|i: int|
                old.len() <= i < new.len() ==> (#[trigger] new[i]) is Read16
                    && new[i]->Read16_reg == Reg16::Cfifo
        }),
    decreases words,
{
    broadcast use lemma_seen_push;

    reveal(rd_words);
    let old = seen(log, reading(control));
    assert(old.take(old.len() as int) =~= old);
    if words > 0 {
        lemma_seen_words(log, (words - 1) as nat, run, control);
        let before = seen(rd_words(log, (words - 1) as nat, run), reading(control));
        let new = seen(rd_words(log, words, run), reading(control));
        assert(new.take(old.len() as int) =~= before.take(old.len() as int));
    }
}

/// A read from a pipe connects the port to this pipe and to no other, takes the data, empties the
/// port after that, and ends with the pipe ready for the next packet, which it will report.
#[verifier::rlimit(60)]
pub proof fn law_read_makes_room(
    state: BusState,
    log: Log,
    ep_addr: EndpointAddress,
    buf: Seq<u8>,
    run: Log,
    pipe: int,
)
    requires
        state.wf(),
        buf.len() <= usize::MAX,
        1 <= pipe <= 9,
        state.pipe_bindings@[pipe] is Some,
        state.pipe_bindings@[pipe]->0.ep_addr == ep_addr,
        read_step(state, log, ep_addr, buf, run).result is Ok,
    ensures
        ({
            let step = read_step(state, log, ep_addr, buf, run);
            let control = control_register(pipe);
            let connect = Access::Write16 { reg: Reg16::Cfifosel, value: (0x0400 + pipe) as u16 };
            let words = (step.result->Ok_0 + 1) / 2;
            let known = seen(log, reading(control));
            let new = seen(step.log, reading(control)).skip(known.len() as int);
            let bit = 1u16 << pipe;
            &&& new.len() == words + 5
            &&& new[0] == connect
            &&& forall|i: int|
                1 <= i <= words ==> (#[trigger] new[i]) is Read16 && new[i]->Read16_reg
                    == Reg16::Cfifo
            &&& new[words + 1] == (Access::Write16 { reg: Reg16::Cfifoctr, value: 0x4000 })
            &&& new[words + 2] is Write16 && new[words + 2]->Write16_reg == control
            &&& new[words + 2]->Write16_value % 2 == 0
            &&& new[words + 3] == connect
            &&& new[words + 4] is Write16 && new[words + 4]->Write16_reg == control
            &&& new[words + 4]->Write16_value % 4 == 1
            &&& written16(step.log, Reg16::Brdysts).last() == 0x03ff & !bit
            &&& written16(step.log, Reg16::Nrdysts).last() == 0x03ff & !bit
            &&& step.state == (BusState {
                brdyenb_shadow: state.brdyenb_shadow | bit,
                nrdyenb_shadow: state.nrdyenb_shadow | bit,
                ..state
            })
        }),
{
    broadcast use {
        lemma_seen_push,
        lemma_seen_spin,
        lemma_seen_ready,
        lemma_written16_push,
        lemma_written16_spin,
    };

    let step = read_step(state, log, ep_addr, buf, run);
    law_lookup_finds_the_pipe(state, ep_addr, pipe as u8);
    assert(ep_addr.index() != 0) by {
        reveal(BusState::wf);
    }
    let control = control_register(pipe);
    let keep = reading(control);
    let known = seen(log, keep);
    let p = pipe as u16;
    lemma_word(p);
    lemma_word(1u16 << p);
    reveal(read_pipe_step);
    reveal(select_cfifo_log);
    let log1 = fifo_ready_log(
        select_cfifo_log(log, pipe as u8, false, false, run),
        Reg16::Cfifoctr,
        CFIFO_READY_SPINS as nat,
        run,
    ).0;
    let reported = in16(log1, run);
    let n = step.result->Ok_0;
    let words = ((n + 1) / 2) as nat;
    let log2 = rd16(log1, Reg16::Cfifoctr, run);
    let log3 = rd_words(log2, words, run);
    let connect = Access::Write16 { reg: Reg16::Cfifosel, value: (0x0400 + pipe) as u16 };
    assert(seen(log2, keep) == known.push(connect));
    lemma_seen_words(log2, words, run, control);
    let taken = seen(log3, keep);
    reveal(rearm_log);
    reveal(start_out_receive_log);
    reveal(set_pipe_nak_wait_log);
    reveal(set_pipe_pid_log);
    assert forall|x: u16| #[trigger] (x & !0x0001u16) % 2 == 0 by {
        law_answer_field(x);
    }
    assert forall|x: u16| ((#[trigger] (x & !0x0003u16)) | 0x0001) % 4 == 1 by {
        law_answer_field(x);
    }
    let new = seen(step.log, keep).skip(known.len() as int);
    assert(seen(step.log, keep).len() == taken.len() + 4);
    assert(seen(step.log, keep).take(taken.len() as int) =~= taken);
    assert(new[0] == taken.take((known.len() + 1) as int)[known.len() as int]);
    assert forall|i: int| 1 <= i <= words implies (#[trigger] new[i]) is Read16 && new[i]->Read16_reg
        == Reg16::Cfifo by {
        assert(new[i] == taken[known.len() + i]);
    }
}

/// Reading half-words from the CFIFO port writes nothing.
proof fn lemma_words_write_nothing(log: Log, words: nat, run: Log, other: Reg16)
    ensures
        written16(rd_words(log, words, run), other) == written16(log, other),
    decreases words,
{
    broadcast use lemma_written16_push;

    reveal(rd_words);
    if words > 0 {
        lemma_words_write_nothing(log, (words - 1) as nat, run, other);
    }
}

/// A read from the control endpoint. A waiting SETUP packet is handed over as it is, without any
/// access, and the bus remembers whether the request goes from the host to the device, which the
/// top bit of the first byte says. A read into an empty buffer completes the transfer, which is bit
/// 2 of the control register, and the control pipe reports nothing from then on. Any other read
/// connects the port to the control pipe in the direction from the host, drops an empty packet,
/// clears the report of the pipe and changes nothing of the state.
#[verifier::rlimit(60)]
pub proof fn law_control_read(
    state: BusState,
    log: Log,
    ep_addr: EndpointAddress,
    buf: Seq<u8>,
    run: Log,
)
    requires
        ep_addr.0 == 0,
        buf.len() <= usize::MAX,
        read_step(state, log, ep_addr, buf, run).result is Ok,
    ensures
        ({
            let step = read_step(state, log, ep_addr, buf, run);
            let n = step.result->Ok_0 as int;
            let answers = written16(step.log, Reg16::Dcpctr);
            let answered = written16(log, Reg16::Dcpctr);
            let drops = written16(step.log, Reg16::Cfifoctr);
            let dropped = written16(log, Reg16::Cfifoctr);
            let selections = written16(step.log, Reg16::Cfifosel);
            let selected = written16(log, Reg16::Cfifosel);
            if state.ep0_setup_ready {
                &&& n == 8
                &&& step.log == log
                &&& step.buf.len() == buf.len()
                &&& forall|i: int|
                    0 <= i < buf.len() ==> #[trigger] step.buf[i] == if i < 8 {
                        state.ep0_setup_packet@[i]
                    } else {
                        buf[i]
                    }
                &&& step.state == (BusState {
                    ep0_last_setup_dir_out: state.ep0_setup_packet@[0] < 128,
                    ep0_setup_pending: false,
                    ep0_setup_ready: false,
                    ..state
                })
            } else if buf.len() == 0 {
                &&& n == 0
                &&& answers.len() == answered.len() + 1 && answers.last() % 8 == 5
                &&& drops == dropped
                &&& written16(step.log, Reg16::Bempsts) == written16(log, Reg16::Bempsts).push(
                    0x03fe,
                )
                &&& step.state == (BusState {
                    brdyenb_shadow: state.brdyenb_shadow & !1u16,
                    nrdyenb_shadow: state.nrdyenb_shadow & !1u16,
                    bempenb_shadow: state.bempenb_shadow & !1u16,
                    ..state
                })
            } else {
                &&& step.state == state
                &&& answers == answered
                &&& drops == if n == 0 {
                    dropped.push(0x4000)
                } else {
                    dropped
                }
                &&& selections.len() > selected.len()
                &&& forall|i: int| selected.len() <= i < selections.len() ==> #[trigger] selections[i]
                    == 0
                &&& written16(step.log, Reg16::Brdysts) == written16(log, Reg16::Brdysts).push(
                    0x03fe,
                )
            }
        }),
{
    broadcast use {lemma_written16_push, lemma_written16_spin};

    let step = read_step(state, log, ep_addr, buf, run);
    law_address_by_arithmetic(ep_addr);
    reveal(read_ep0_step);
    reveal(complete_status_log);
    reveal(set_dcp_pid_log);
    lemma_control_bit(state.brdyenb_shadow);
    lemma_control_bit(state.nrdyenb_shadow);
    lemma_control_bit(state.bempenb_shadow);
    assert forall|x: u16| ((#[trigger] (x & !0x0003u16)) | 0x0001 | 0x0004) % 8 == 5 by {
        law_answer_field(x);
    }
    let first = state.ep0_setup_packet@[0];
    assert(first & 0x80 == 0 <==> first < 128) by (bit_vector);
    lemma_control_report();
    let log1 = select_pipe0_ready_log(log, false, PIPE0_READY_ATTEMPTS as nat, run).0;
    let log2 = rd16(log1, Reg16::Cfifoctr, run);
    assert forall|reg: Reg16| reg != Reg16::Cfifosel implies #[trigger] written16(log1, reg)
        == written16(log, reg) by {
        lemma_written16_pipe0(log, false, PIPE0_READY_ATTEMPTS as nat, run, reg);
    }
    lemma_written16_pipe0(log, false, PIPE0_READY_ATTEMPTS as nat, run, Reg16::Cfifosel);
    assert forall|words: nat, reg: Reg16| #[trigger]
        written16(rd_words(log2, words, run), reg) == written16(log2, reg) by {
        lemma_words_write_nothing(log2, words, run, reg);
    }
}

} // verus!
