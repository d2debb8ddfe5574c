//! How a poll answers the reports of the hardware, and what it makes of the state.

use crate::bits::lemma_word;
use crate::mmio::{in16, rd16, wr16, Log, Reg16};
use crate::trace::{
    control_register, held16, lemma_held16_push, lemma_held16_spin, lemma_read16_push,
    lemma_read16_spin, lemma_written16_push, lemma_written16_spin, read16, seen, written16,
};
use crate::usb::bus::laws::{law_poll_keeps_first_setup, lemma_bemp_frees, lemma_restart_frame};
use crate::usb::bus::pipes::{Bindings, LAST_PIPE};
use crate::usb::bus::poll::{
    answer_nrdy_log, answer_nrdys_log, endpoints_step, handle_bemp_step, has_sent, idle_log,
    poll_step, receives, restart_step, sent_log, stage_setup_step,
};
use crate::usb::bus::read::read_step;
use crate::usb::bus::received::{law_control_read, law_read_outcome};
use crate::usb::bus::released::lemma_control_report;
use crate::usb::bus::set_up::{extends, of_a_pipe};
use crate::usb::bus::told::setup_waits;
use crate::usb::captured::{law_captured_packet_is_what_the_registers_held, setup_looks};
use crate::usb::driver::sample_log;
use crate::usb::endpoint::{law_address_by_arithmetic, EndpointAddress, UsbError};
use crate::usb::regs::{
    bit, clear_intsts0_log, law_answer_field, law_mask_bits, select_cfifo_log,
    set_pipe_nak_wait_log, set_pipe_pid_log, spin_log, start_out_receive_log, CFIFO_READY_SPINS,
};
use crate::usb::types::{law_snapshot_adds_the_event, BusState, UsbEventSnapshot};
use crate::usb::waits::lemma_spin_looks;
use vstd::prelude::*;

verus! {

/// What clears the buffer empty reports of those among the first `n` pipes that have an endpoint:
/// zero for the pipe and one for the others, pipe by pipe.
pub open spec fn ends(bindings: Bindings, bempsts: u16, n: nat) -> Seq<u16>
    decreases n,
{
    if n == 0 {
        Seq::empty()
    } else {
        also(
            ends(bindings, bempsts, (n - 1) as nat),
            bindings[n as int] is Some && bempsts & (1u16 << n) != 0,
            0x03ff & !(1u16 << n),
        )
    }
}

/// What clears the not ready reports of the first `n` pipes.
pub open spec fn misses(nrdysts: u16, n: nat) -> Seq<u16>
    decreases n,
{
    if n == 0 {
        Seq::empty()
    } else {
        also(
            misses(nrdysts, (n - 1) as nat),
            nrdysts & (1u16 << n) != 0,
            0x03ff & !(1u16 << n),
        )
    }
}

/// Answering not ready reports concerns the pipes alone.
proof fn lemma_nrdy_frame(
    log: Log,
    bindings: Bindings,
    nrdysts: u16,
    n: nat,
    run: Log,
    reg: Reg16,
)
    requires
        n <= 9,
    ensures
        ({
            let after = answer_nrdys_log(log, bindings, nrdysts, n, run);
            &&& !of_a_pipe(reg) ==> written16(after, reg) == written16(log, reg)
            &&& written16(after, Reg16::Bempsts) == written16(log, Reg16::Bempsts)
            &&& written16(after, Reg16::Nrdysts) == written16(log, Reg16::Nrdysts) + misses(
                nrdysts,
                n,
            )
            &&& read16(after, Reg16::Intsts0) == read16(log, Reg16::Intsts0)
        }),
    decreases n,
{
    broadcast use {lemma_written16_push, lemma_read16_push};

    if n > 0 {
        lemma_nrdy_frame(log, bindings, nrdysts, (n - 1) as nat, run, reg);
        reveal(answer_nrdy_log);
        reveal(set_pipe_pid_log);
        let old = written16(log, Reg16::Nrdysts);
        assert(bit(n as int) == 1u16 << n);
        lemma_word(bit(n as int));
        assert(old + misses(nrdysts, (n - 1) as nat).push(0x03ff & !(1u16 << n)) =~= (old + misses(
            nrdysts,
            (n - 1) as nat,
        )).push(0x03ff & !(1u16 << n)));
    } else {
        assert(written16(log, Reg16::Nrdysts) + misses(nrdysts, 0) =~= written16(
            log,
            Reg16::Nrdysts,
        ));
    }
}

/// Restarting receivers concerns the pipes alone.
proof fn lemma_restart_writes(state: BusState, log: Log, n: nat, run: Log, reg: Reg16)
    ensures
        ({
            let after = restart_step(state, log, n, run).1;
            &&& !of_a_pipe(reg) ==> written16(after, reg) == written16(log, reg)
            &&& written16(after, Reg16::Bempsts) == written16(log, Reg16::Bempsts)
            &&& extends(written16(log, Reg16::Nrdysts), written16(after, Reg16::Nrdysts))
            &&& read16(after, Reg16::Intsts0) == read16(log, Reg16::Intsts0)
        }),
    decreases n,
{
    broadcast use {
        lemma_written16_push,
        lemma_written16_spin,
        lemma_read16_push,
        lemma_read16_spin,
    };

    if n > 0 {
        lemma_restart_writes(state, log, (n - 1) as nat, run, reg);
        reveal(start_out_receive_log);
        reveal(set_pipe_nak_wait_log);
        reveal(select_cfifo_log);
        reveal(set_pipe_pid_log);
    }
}

/// Answering buffer empty reports concerns the pipes alone.
proof fn lemma_bemp_writes(
    state: BusState,
    log: Log,
    bempsts: u16,
    n: nat,
    run: Log,
    reg: Reg16,
)
    requires
        n <= 9,
    ensures
        ({
            let after = handle_bemp_step(state, log, bempsts, n, run).1;
            &&& !of_a_pipe(reg) ==> written16(after, reg) == written16(log, reg)
            &&& written16(after, Reg16::Nrdysts) == written16(log, Reg16::Nrdysts)
            &&& written16(after, Reg16::Bempsts) == written16(log, Reg16::Bempsts) + ends(
                state.pipe_bindings@,
                bempsts,
                n,
            )
            &&& read16(after, Reg16::Intsts0) == read16(log, Reg16::Intsts0)
        }),
    decreases n,
{
    broadcast use {lemma_written16_push, lemma_read16_push};

    if n > 0 {
        lemma_bemp_writes(state, log, bempsts, (n - 1) as nat, run, reg);
        reveal(sent_log);
        reveal(set_pipe_pid_log);
        let old = written16(log, Reg16::Bempsts);
        let before = ends(state.pipe_bindings@, bempsts, (n - 1) as nat);
        assert(bit(n as int) == 1u16 << n);
        lemma_word(bit(n as int));
        assert(old + before.push(0x03ff & !(1u16 << n)) =~= (old + before).push(
            0x03ff & !(1u16 << n),
        ));
    } else {
        assert(written16(log, Reg16::Bempsts) + ends(state.pipe_bindings@, bempsts, 0)
            =~= written16(log, Reg16::Bempsts));
    }
}

/// One more acknowledgement, if it is due.
pub open spec fn also(acknowledged: Seq<u16>, due: bool, value: u16) -> Seq<u16> {
    if due {
        acknowledged.push(value)
    } else {
        acknowledged
    }
}

/// What a poll acknowledges of the device: a change of state, then, unless that was a reset, a
/// frame number, then a resume, or else a stage of the control transfer and a SETUP packet that the
/// poll takes and that the register still shows. A flag is acknowledged by writing zero to it and
/// one to all others, and no flag that the events do not report is touched.
#[verifier::rlimit(60)]
pub proof fn law_poll_acknowledges_the_device(
    state: BusState,
    log: Log,
    events: UsbEventSnapshot,
    run: Log,
)
    ensures
        ({
            let step = poll_step(state, log, events, run);
            let flags = events.intsts0.0;
            let reset = flags & 0x1000 != 0 && flags & 0x0070 == 0x0010;
            let resume = flags & 0x4000 != 0;
            let takes = events.setup_valid && !state.ep0_setup_ready;
            let shown = read16(step.log, Reg16::Intsts0).last() & 0x0008 != 0;
            let first = also(written16(log, Reg16::Intsts0), flags & 0x1000 != 0, 0xefff);
            let second = also(first, !reset && flags & 0x2000 != 0, 0xdfff);
            let third = also(second, !reset && resume, 0xbfff);
            let fourth = also(third, !reset && !resume && flags & 0x0800 != 0, 0xf7ff);
            let fifth = also(fourth, !reset && !resume && takes && shown, 0xfff7);
            &&& written16(step.log, Reg16::Intsts0) == fifth
            &&& reset || resume ==> step.state == state
        }),
{
    broadcast use {lemma_written16_push, lemma_read16_push};

    assert({
        &&& !0x1000u16 == 0xefffu16 && !0x2000u16 == 0xdfffu16 && !0x4000u16 == 0xbfffu16
        &&& !0x0800u16 == 0xf7ffu16 && !0x0008u16 == 0xfff7u16
    }) by (bit_vector);
    reveal(endpoints_step);
    reveal(stage_setup_step);
    let reg = Reg16::Intsts0;
    let bindings = state.pipe_bindings@;
    assert forall|l: Log| {
        let after = #[trigger] answer_nrdys_log(
            l,
            bindings,
            events.nrdysts.0,
            LAST_PIPE as nat,
            run,
        );
        written16(after, reg) == written16(l, reg) && read16(after, reg) == read16(l, reg)
    } by {
        lemma_nrdy_frame(l, bindings, events.nrdysts.0, LAST_PIPE as nat, run, reg);
    }
    assert forall|l: Log| {
        let (next, after) = #[trigger] restart_step(state, l, LAST_PIPE as nat, run);
        &&& written16(after, reg) == written16(l, reg) && read16(after, reg) == read16(l, reg)
        &&& next.ep0_setup_ready == state.ep0_setup_ready
    } by {
        lemma_restart_writes(state, l, LAST_PIPE as nat, run, reg);
        lemma_restart_frame(state, l, LAST_PIPE as nat, run);
    }
    assert forall|s: BusState, l: Log| {
        let (next, after) = #[trigger] handle_bemp_step(
            s,
            l,
            events.bempsts.0,
            LAST_PIPE as nat,
            run,
        );
        &&& written16(after, reg) == written16(l, reg) && read16(after, reg) == read16(l, reg)
        &&& next.ep0_setup_ready == s.ep0_setup_ready
    } by {
        lemma_bemp_writes(s, l, events.bempsts.0, LAST_PIPE as nat, run, reg);
        lemma_bemp_frees(s, l, events.bempsts.0, LAST_PIPE as nat, run, 1);
    }
}

/// Answering the not ready report of a pipe concerns no other pipe.
proof fn lemma_nrdy_control(
    log: Log,
    bindings: Bindings,
    nrdysts: u16,
    n: nat,
    run: Log,
    pipe: int,
)
    requires
        n <= 9,
        1 <= pipe <= 9,
    ensures
        ({
            let old = written16(log, control_register(pipe));
            let new = written16(
                answer_nrdys_log(log, bindings, nrdysts, n, run),
                control_register(pipe),
            );
            &&& new.len() >= old.len()
            &&& !receives(bindings, pipe) ==> new == old
        }),
    decreases n,
{
    broadcast use lemma_written16_push;

    if n > 0 {
        lemma_nrdy_control(log, bindings, nrdysts, (n - 1) as nat, run, pipe);
        reveal(answer_nrdy_log);
        reveal(set_pipe_pid_log);
    }
}

/// After the restart of the first `n` pipes, a receiver among them answers according to its buffer
/// or is busy, and a pipe that is no receiver was told nothing.
proof fn lemma_restart_control(state: BusState, log: Log, n: nat, run: Log, pipe: int)
    requires
        n <= 9,
        1 <= pipe <= 9,
    ensures
        ({
            let after = restart_step(state, log, n, run).1;
            let held = held16(after, control_register(pipe));
            &&& written16(after, control_register(pipe)).len() >= written16(
                log,
                control_register(pipe),
            ).len()
            &&& receives(state.pipe_bindings@, pipe) && pipe <= n ==> held is Some && (held->0 % 4
                == 1 || held->0 & 0x0020 != 0)
            &&& !receives(state.pipe_bindings@, pipe) ==> written16(after, control_register(pipe))
                == written16(log, control_register(pipe))
        }),
    decreases n,
{
    broadcast use {
        lemma_written16_push,
        lemma_written16_spin,
        lemma_held16_push,
        lemma_held16_spin,
    };

    if n > 0 {
        lemma_restart_control(state, log, (n - 1) as nat, run, pipe);
        reveal(start_out_receive_log);
        reveal(set_pipe_nak_wait_log);
        reveal(select_cfifo_log);
        reveal(set_pipe_pid_log);
        assert forall|x: u16| ((#[trigger] (x & !0x0003u16)) | 0x0001) % 4 == 1 by {
            law_answer_field(x);
        }
        assert forall|x: u16| #[trigger] (x & 0x0003u16) == x % 4 by {
            lemma_word(x);
        }
    }
}

/// After the buffer empty reports of the first `n` pipes, a pipe that has sent answers NAK, and a
/// pipe that has not was told nothing.
proof fn lemma_bemp_control(
    state: BusState,
    log: Log,
    bempsts: u16,
    n: nat,
    run: Log,
    pipe: int,
)
    requires
        n <= 9,
        1 <= pipe <= 9,
    ensures
        ({
            let after = handle_bemp_step(state, log, bempsts, n, run).1;
            let old = written16(log, control_register(pipe));
            let new = written16(after, control_register(pipe));
            if has_sent(state.pipe_bindings@, bempsts, pipe) && pipe <= n {
                new.len() == old.len() + 1 && new.last() % 4 == 0
            } else {
                new == old && held16(after, control_register(pipe)) == held16(
                    log,
                    control_register(pipe),
                )
            }
        }),
    decreases n,
{
    broadcast use {lemma_written16_push, lemma_held16_push};

    if n > 0 {
        lemma_bemp_control(state, log, bempsts, (n - 1) as nat, run, pipe);
        reveal(sent_log);
        reveal(set_pipe_pid_log);
        assert forall|x: u16| ((#[trigger] (x & !0x0003u16)) | 0x0000) % 4 == 0 by {
            law_answer_field(x);
        }
    }
}

/// What a poll that gets to the endpoints tells the pipes. A pipe with an endpoint that reports an
/// empty buffer is told to answer NAK. Else a pipe with an OUT endpoint is left answering according
/// to its buffer, which is 1 in the low two bits of its control register, or busy, which is bit 5.
/// Any other pipe is told nothing.
#[verifier::rlimit(60)]
pub proof fn law_poll_keeps_the_pipes_going(
    state: BusState,
    log: Log,
    events: UsbEventSnapshot,
    run: Log,
    pipe: int,
)
    requires
        1 <= pipe <= 9,
        events.intsts0.0 & 0x4000 == 0,
        events.intsts0.0 & 0x1000 == 0 || events.intsts0.0 & 0x0070 != 0x0010,
    ensures
        ({
            let after = poll_step(state, log, events, run).log;
            let bound = state.pipe_bindings@[pipe];
            let old = written16(log, control_register(pipe));
            let new = written16(after, control_register(pipe));
            let held = held16(after, control_register(pipe));
            if bound is Some && events.bempsts.0 & (1u16 << pipe) != 0 {
                new.len() > old.len() && new.last() % 4 == 0
            } else if bound is Some && bound->0.ep_addr.0 < 128 {
                held is Some && (held->0 % 4 == 1 || held->0 & 0x0020 != 0)
            } else {
                new == old
            }
        }),
{
    broadcast use {lemma_written16_push, lemma_held16_push};

    reveal(endpoints_step);
    reveal(stage_setup_step);
    let bindings = state.pipe_bindings@;
    let control = control_register(pipe);
    if bindings[pipe] is Some {
        law_address_by_arithmetic(bindings[pipe]->0.ep_addr);
    }
    assert(bit(pipe) == 1u16 << pipe);
    assert forall|l: Log| {
        let new = written16(
            #[trigger] answer_nrdys_log(l, bindings, events.nrdysts.0, LAST_PIPE as nat, run),
            control,
        );
        &&& new.len() >= written16(l, control).len()
        &&& !receives(bindings, pipe) ==> new == written16(l, control)
    } by {
        lemma_nrdy_control(l, bindings, events.nrdysts.0, LAST_PIPE as nat, run, pipe);
    }
    assert forall|l: Log| {
        let (next, after) = #[trigger] restart_step(state, l, LAST_PIPE as nat, run);
        let held = held16(after, control);
        &&& written16(after, control).len() >= written16(l, control).len()
        &&& receives(bindings, pipe) ==> held is Some && (held->0 % 4 == 1 || held->0 & 0x0020 != 0)
        &&& !receives(bindings, pipe) ==> written16(after, control) == written16(l, control)
        &&& next.pipe_bindings == state.pipe_bindings
    } by {
        lemma_restart_control(state, l, LAST_PIPE as nat, run, pipe);
        lemma_restart_frame(state, l, LAST_PIPE as nat, run);
    }
    assert forall|s: BusState, l: Log| {
        let after = (#[trigger] handle_bemp_step(
            s,
            l,
            events.bempsts.0,
            LAST_PIPE as nat,
            run,
        )).1;
        let old = written16(l, control);
        let new = written16(after, control);
        if has_sent(s.pipe_bindings@, events.bempsts.0, pipe) {
            new.len() == old.len() + 1 && new.last() % 4 == 0
        } else {
            new == old && held16(after, control) == held16(l, control)
        }
    } by {
        lemma_bemp_control(s, l, events.bempsts.0, LAST_PIPE as nat, run, pipe);
    }
}

/// A poll that gets to the endpoints clears every buffer empty report of a pipe with an endpoint
/// and of the control pipe, and every not ready report, and clears no flag that is not reported.
/// The receivers that it restarts have their own flags cleared after that.
#[verifier::rlimit(60)]
pub proof fn law_poll_clears_the_reports(
    state: BusState,
    log: Log,
    events: UsbEventSnapshot,
    run: Log,
)
    requires
        events.intsts0.0 & 0x4000 == 0,
        events.intsts0.0 & 0x1000 == 0 || events.intsts0.0 & 0x0070 != 0x0010,
    ensures
        ({
            let after = poll_step(state, log, events, run).log;
            let bemp = events.bempsts.0;
            let nrdy = events.nrdysts.0;
            &&& written16(after, Reg16::Bempsts) == also(
                written16(log, Reg16::Bempsts) + ends(state.pipe_bindings@, bemp, 9),
                bemp % 2 == 1,
                0x03fe,
            )
            &&& extends(
                also(written16(log, Reg16::Nrdysts), nrdy % 2 == 1, 0x03fe) + misses(nrdy, 9),
                written16(after, Reg16::Nrdysts),
            )
        }),
{
    broadcast use lemma_written16_push;

    reveal(endpoints_step);
    reveal(stage_setup_step);
    let bindings = state.pipe_bindings@;
    lemma_word(events.bempsts.0);
    lemma_word(events.nrdysts.0);
    lemma_control_report();
    assert forall|l: Log| {
        let after = #[trigger] answer_nrdys_log(
            l,
            bindings,
            events.nrdysts.0,
            LAST_PIPE as nat,
            run,
        );
        &&& written16(after, Reg16::Bempsts) == written16(l, Reg16::Bempsts)
        &&& written16(after, Reg16::Nrdysts) == written16(l, Reg16::Nrdysts) + misses(
            events.nrdysts.0,
            LAST_PIPE as nat,
        )
    } by {
        lemma_nrdy_frame(l, bindings, events.nrdysts.0, LAST_PIPE as nat, run, Reg16::Bempsts);
    }
    assert forall|l: Log| {
        let (next, after) = #[trigger] restart_step(state, l, LAST_PIPE as nat, run);
        &&& written16(after, Reg16::Bempsts) == written16(l, Reg16::Bempsts)
        &&& extends(written16(l, Reg16::Nrdysts), written16(after, Reg16::Nrdysts))
        &&& next.pipe_bindings == state.pipe_bindings
    } by {
        lemma_restart_writes(state, l, LAST_PIPE as nat, run, Reg16::Bempsts);
        lemma_restart_frame(state, l, LAST_PIPE as nat, run);
    }
    assert forall|s: BusState, l: Log| {
        let after = (#[trigger] handle_bemp_step(
            s,
            l,
            events.bempsts.0,
            LAST_PIPE as nat,
            run,
        )).1;
        &&& written16(after, Reg16::Nrdysts) == written16(l, Reg16::Nrdysts)
        &&& written16(after, Reg16::Bempsts) == written16(l, Reg16::Bempsts) + ends(
            s.pipe_bindings@,
            events.bempsts.0,
            LAST_PIPE as nat,
        )
    } by {
        lemma_bemp_writes(s, l, events.bempsts.0, LAST_PIPE as nat, run, Reg16::Bempsts);
    }
}

/// What answering the buffer empty reports of the first `n` pipes leaves of two masks.
proof fn lemma_bemp_bits(state: BusState, log: Log, bempsts: u16, n: nat, run: Log, pipe: int)
    requires
        n <= 9,
        0 <= pipe < 16,
    ensures
        ({
            let next = handle_bemp_step(state, log, bempsts, n, run).0;
            let gone = 1 <= pipe <= n && state.pipe_bindings@[pipe] is Some && bempsts & bit(pipe)
                != 0;
            &&& next.in_busy_mask & bit(pipe) == if gone {
                0
            } else {
                state.in_busy_mask & bit(pipe)
            }
            &&& next.bempenb_shadow & bit(pipe) == if gone {
                0
            } else {
                state.bempenb_shadow & bit(pipe)
            }
        }),
    decreases n,
{
    if n > 0 {
        lemma_bemp_bits(state, log, bempsts, (n - 1) as nat, run, pipe);
        let before = handle_bemp_step(state, log, bempsts, (n - 1) as nat, run).0;
        law_mask_bits(before.in_busy_mask, n as int, pipe);
        law_mask_bits(before.bempenb_shadow, n as int, pipe);
    }
}

/// What restarting the receivers among the first `n` pipes leaves of two masks.
proof fn lemma_restart_bits(state: BusState, log: Log, n: nat, run: Log, pipe: int)
    requires
        n <= 9,
        0 <= pipe < 16,
    ensures
        ({
            let next = restart_step(state, log, n, run).0;
            let receiver = 1 <= pipe <= 9 && receives(state.pipe_bindings@, pipe);
            &&& !receiver ==> next.brdyenb_shadow & bit(pipe) == state.brdyenb_shadow & bit(pipe)
            &&& !receiver ==> next.nrdyenb_shadow & bit(pipe) == state.nrdyenb_shadow & bit(pipe)
            &&& state.brdyenb_shadow & bit(pipe) != 0 ==> next.brdyenb_shadow & bit(pipe) != 0
            &&& state.nrdyenb_shadow & bit(pipe) != 0 ==> next.nrdyenb_shadow & bit(pipe) != 0
            &&& next.bempenb_shadow == state.bempenb_shadow
        }),
    decreases n,
{
    if n > 0 {
        lemma_restart_bits(state, log, (n - 1) as nat, run, pipe);
        let before = restart_step(state, log, (n - 1) as nat, run).0;
        law_mask_bits(before.brdyenb_shadow, n as int, pipe);
        law_mask_bits(before.nrdyenb_shadow, n as int, pipe);
    }
}

/// What a poll that gets to the endpoints makes of the state. A SETUP packet is taken if none
/// waits. The status stage of a read, which is stage 2, ends what was expected of the control
/// transfer, unless data came on the control pipe. A pipe that reports its packet as sent is free
/// for the next one, and asks for no further report. What a receiver reports is never turned off,
/// and what other pipes report of their reception is not touched. All else stays.
#[verifier::rlimit(60)]
pub proof fn law_poll_makes_of_the_state(
    state: BusState,
    log: Log,
    events: UsbEventSnapshot,
    run: Log,
    pipe: int,
)
    requires
        0 <= pipe < 16,
        events.intsts0.0 & 0x4000 == 0,
        events.intsts0.0 & 0x1000 == 0 || events.intsts0.0 & 0x0070 != 0x0010,
    ensures
        ({
            let next = poll_step(state, log, events, run).state;
            let takes = events.setup_valid && !state.ep0_setup_ready;
            let data = events.brdysts.0 % 2 == 1 && !setup_waits(state, events);
            let status = events.ctrt_ctsq % 8 == 2 && !data;
            let b = 1u16 << pipe;
            let bound = 1 <= pipe <= 9 && state.pipe_bindings@[pipe] is Some;
            let gone = bound && events.bempsts.0 & b != 0;
            let receiver = bound && state.pipe_bindings@[pipe]->0.ep_addr.0 < 128;
            &&& next == (BusState {
                ep0_setup_packet: if takes {
                    events.setup_packet
                } else {
                    state.ep0_setup_packet
                },
                ep0_setup_pending: takes || state.ep0_setup_pending,
                ep0_setup_ready: takes || state.ep0_setup_ready,
                ep0_expect_status_out: state.ep0_expect_status_out && !status,
                ep0_short_in_waiting_status: state.ep0_short_in_waiting_status && !status,
                in_busy_mask: next.in_busy_mask,
                brdyenb_shadow: next.brdyenb_shadow,
                nrdyenb_shadow: next.nrdyenb_shadow,
                bempenb_shadow: next.bempenb_shadow,
                ..state
            })
            &&& next.in_busy_mask & b == if gone {
                0
            } else {
                state.in_busy_mask & b
            }
            &&& next.bempenb_shadow & b == if gone {
                0
            } else {
                state.bempenb_shadow & b
            }
            &&& !receiver ==> next.brdyenb_shadow & b == state.brdyenb_shadow & b
            &&& !receiver ==> next.nrdyenb_shadow & b == state.nrdyenb_shadow & b
            &&& state.brdyenb_shadow & b != 0 ==> next.brdyenb_shadow & b != 0
            &&& state.nrdyenb_shadow & b != 0 ==> next.nrdyenb_shadow & b != 0
        }),
{
    reveal(endpoints_step);
    reveal(stage_setup_step);
    lemma_word(events.brdysts.0);
    lemma_word(events.ctrt_ctsq);
    assert(bit(pipe) == 1u16 << pipe);
    if 1 <= pipe <= 9 && state.pipe_bindings@[pipe] is Some {
        law_address_by_arithmetic(state.pipe_bindings@[pipe]->0.ep_addr);
    }
    assert forall|l: Log| {
        let next = (#[trigger] restart_step(state, l, LAST_PIPE as nat, run)).0;
        let receiver = 1 <= pipe <= 9 && receives(state.pipe_bindings@, pipe);
        &&& next == state.with_masks(next.masks())
        &&& !receiver ==> next.brdyenb_shadow & bit(pipe) == state.brdyenb_shadow & bit(pipe)
        &&& !receiver ==> next.nrdyenb_shadow & bit(pipe) == state.nrdyenb_shadow & bit(pipe)
        &&& state.brdyenb_shadow & bit(pipe) != 0 ==> next.brdyenb_shadow & bit(pipe) != 0
        &&& state.nrdyenb_shadow & bit(pipe) != 0 ==> next.nrdyenb_shadow & bit(pipe) != 0
        &&& next.bempenb_shadow == state.bempenb_shadow
    } by {
        lemma_restart_frame(state, l, LAST_PIPE as nat, run);
        lemma_restart_bits(state, l, LAST_PIPE as nat, run, pipe);
    }
    assert forall|s: BusState, l: Log| {
        let next = (#[trigger] handle_bemp_step(
            s,
            l,
            events.bempsts.0,
            LAST_PIPE as nat,
            run,
        )).0;
        let gone = 1 <= pipe <= 9 && s.pipe_bindings@[pipe] is Some && events.bempsts.0 & bit(pipe)
            != 0;
        &&& next == (BusState {
            in_busy_mask: next.in_busy_mask,
            bempenb_shadow: next.bempenb_shadow,
            ..s
        })
        &&& next.in_busy_mask & bit(pipe) == if gone {
            0
        } else {
            s.in_busy_mask & bit(pipe)
        }
        &&& next.bempenb_shadow & bit(pipe) == if gone {
            0
        } else {
            s.bempenb_shadow & bit(pipe)
        }
    } by {
        lemma_bemp_frees(s, l, events.bempsts.0, LAST_PIPE as nat, run, 1);
        lemma_bemp_bits(s, l, events.bempsts.0, LAST_PIPE as nat, run, pipe);
    }
}

/// Restarting a pipe concerns no other pipe. A receiver among the first `n` pipes is restarted if
/// and only if it is found idle.
proof fn lemma_restart_looks(state: BusState, log: Log, n: nat, run: Log, pipe: int)
    requires
        n <= 9,
        1 <= pipe <= 9,
    ensures
        ({
            let after = restart_step(state, log, n, run).1;
            let control = control_register(pipe);
            if receives(state.pipe_bindings@, pipe) && pipe <= n {
                restarted_if_idle(log, after, control)
            } else {
                &&& written16(after, control) == written16(log, control)
                &&& read16(after, control) == read16(log, control)
            }
        }),
    decreases n,
{
    broadcast use {
        lemma_written16_push,
        lemma_written16_spin,
        lemma_read16_push,
        lemma_read16_spin,
    };

    if n > 0 {
        lemma_restart_looks(state, log, (n - 1) as nat, run, pipe);
        reveal(start_out_receive_log);
        reveal(set_pipe_nak_wait_log);
        reveal(select_cfifo_log);
        reveal(set_pipe_pid_log);
        assert forall|x: u16| ((#[trigger] (x & !0x0003u16)) | 0x0001) % 4 == 1 by {
            law_answer_field(x);
        }
        assert forall|x: u16| #[trigger] (x & 0x0003u16) == x % 4 by {
            lemma_word(x);
        }
        let (state1, log1) = restart_step(state, log, (n - 1) as nat, run);
        let control = control_register(pipe);
        if n == pipe && receives(state.pipe_bindings@, pipe) {
            let (log2, idle) = idle_log(log1, n as u8, run);
            assert forall|l: Log, mask: u16, want: u16| {
                let old = read16(l, control);
                let new = read16(
                    #[trigger] spin_log(l, control, mask, want, CFIFO_READY_SPINS as nat, run),
                    control,
                );
                old.len() <= new.len() && new.take(old.len() as int) == old
            } by {
                lemma_spin_looks(l, control, mask, want, CFIFO_READY_SPINS as nat, run);
            }
            let after = restart_step(state, log, n, run).1;
            let old = read16(log, control);
            let new = read16(after, control);
            if idle {
                let told = spin_log(
                    wr16(
                        rd16(log2, control, run),
                        control,
                        in16(log2, run) & !0x0001u16,
                    ),
                    control,
                    0x0020,
                    0,
                    CFIFO_READY_SPINS as nat,
                    run,
                );
                let begun = read16(log2, control).push(in16(log2, run));
                let waited = read16(told, control);
                assert(waited.take(begun.len() as int) == begun);
                assert(new[old.len() as int] == waited.take(begun.len() as int)[old.len() as int]);
                assert(new[old.len() as int + 1] == waited.take(begun.len() as int)[old.len() as int
                    + 1]);
            }
        }
    }
}

/// Whether a pipe was looked at and told to receive if and only if it was idle: its answer was not
/// according to its buffer already, which is 1 in the low two bits of its control register, and a
/// second look did not find it busy, which is bit 5.
pub open spec fn restarted_if_idle(log: Log, after: Log, control: Reg16) -> bool {
    let looks = read16(after, control).skip(read16(log, control).len() as int);
    let old = written16(log, control);
    let new = written16(after, control);
    &&& looks.len() >= 1
    &&& if looks[0] % 4 == 1 {
        new == old && looks.len() == 1
    } else if looks[1] & 0x0020 != 0 {
        new == old && looks.len() == 2
    } else {
        new.len() == old.len() + 2 && new.last() % 4 == 1
    }
}

/// Answering not ready reports of other pipes does not concern a pipe.
proof fn lemma_nrdy_looks(
    log: Log,
    bindings: Bindings,
    nrdysts: u16,
    n: nat,
    run: Log,
    pipe: int,
)
    requires
        n <= 9,
        1 <= pipe <= 9,
        nrdysts & (1u16 << pipe) == 0,
    ensures
        ({
            let after = answer_nrdys_log(log, bindings, nrdysts, n, run);
            let control = control_register(pipe);
            &&& written16(after, control) == written16(log, control)
            &&& read16(after, control) == read16(log, control)
        }),
    decreases n,
{
    broadcast use {lemma_written16_push, lemma_read16_push};

    if n > 0 {
        lemma_nrdy_looks(log, bindings, nrdysts, (n - 1) as nat, run, pipe);
        reveal(answer_nrdy_log);
        reveal(set_pipe_pid_log);
        assert(bit(pipe) == 1u16 << pipe);
    }
}

/// Answering buffer empty reports of other pipes does not concern a pipe.
proof fn lemma_bemp_looks(state: BusState, log: Log, bempsts: u16, n: nat, run: Log, pipe: int)
    requires
        n <= 9,
        1 <= pipe <= 9,
        bempsts & (1u16 << pipe) == 0,
    ensures
        ({
            let after = handle_bemp_step(state, log, bempsts, n, run).1;
            let control = control_register(pipe);
            &&& written16(after, control) == written16(log, control)
            &&& read16(after, control) == read16(log, control)
        }),
    decreases n,
{
    broadcast use {lemma_written16_push, lemma_read16_push};

    if n > 0 {
        lemma_bemp_looks(state, log, bempsts, (n - 1) as nat, run, pipe);
        reveal(sent_log);
        reveal(set_pipe_pid_log);
        assert(bit(pipe) == 1u16 << pipe);
    }
}

/// A poll that gets to the endpoints restarts a receiver that reports nothing if and only if it
/// finds it idle, so that a transaction in progress is not disturbed.
#[verifier::rlimit(60)]
pub proof fn law_poll_restarts_idle_receivers(
    state: BusState,
    log: Log,
    events: UsbEventSnapshot,
    run: Log,
    pipe: int,
)
    requires
        1 <= pipe <= 9,
        state.pipe_bindings@[pipe] is Some,
        state.pipe_bindings@[pipe]->0.ep_addr.0 < 128,
        events.nrdysts.0 & (1u16 << pipe) == 0,
        events.bempsts.0 & (1u16 << pipe) == 0,
        events.intsts0.0 & 0x4000 == 0,
        events.intsts0.0 & 0x1000 == 0 || events.intsts0.0 & 0x0070 != 0x0010,
    ensures
        restarted_if_idle(
            log,
            poll_step(state, log, events, run).log,
            control_register(pipe),
        ),
{
    broadcast use {lemma_written16_push, lemma_read16_push};

    reveal(endpoints_step);
    reveal(stage_setup_step);
    let bindings = state.pipe_bindings@;
    let control = control_register(pipe);
    law_address_by_arithmetic(bindings[pipe]->0.ep_addr);
    assert forall|l: Log| {
        let after = #[trigger] answer_nrdys_log(
            l,
            bindings,
            events.nrdysts.0,
            LAST_PIPE as nat,
            run,
        );
        &&& written16(after, control) == written16(l, control)
        &&& read16(after, control) == read16(l, control)
    } by {
        lemma_nrdy_looks(l, bindings, events.nrdysts.0, LAST_PIPE as nat, run, pipe);
    }
    assert forall|l: Log|
        restarted_if_idle(
            l,
            (#[trigger] restart_step(state, l, LAST_PIPE as nat, run)).1,
            control,
        ) by {
        lemma_restart_looks(state, l, LAST_PIPE as nat, run, pipe);
    }
    assert forall|s: BusState, l: Log| {
        let after = (#[trigger] handle_bemp_step(
            s,
            l,
            events.bempsts.0,
            LAST_PIPE as nat,
            run,
        )).1;
        &&& written16(after, control) == written16(l, control)
        &&& read16(after, control) == read16(l, control)
    } by {
        lemma_bemp_looks(s, l, events.bempsts.0, LAST_PIPE as nat, run, pipe);
    }
}

/// The answer to a not ready report of a pipe: an OUT endpoint is looked at, and told to receive if
/// and only if it is idle. Any other pipe is told nothing.
pub proof fn law_missed_packet_wakes_the_receiver(
    log: Log,
    bindings: Bindings,
    pipe: u8,
    run: Log,
)
    requires
        1 <= pipe <= 9,
    ensures
        ({
            let after = answer_nrdy_log(log, bindings, pipe, run);
            let control = control_register(pipe as int);
            let bound = bindings[pipe as int];
            let looks = read16(after, control).skip(read16(log, control).len() as int);
            let old = written16(log, control);
            let new = written16(after, control);
            &&& written16(after, Reg16::Nrdysts) == written16(log, Reg16::Nrdysts).push(
                0x03ff & !(1u16 << pipe),
            )
            &&& if bound is Some && bound->0.ep_addr.0 < 128 {
                if looks[0] % 4 == 1 {
                    new == old && looks.len() == 1
                } else if looks[1] & 0x0020 != 0 {
                    new == old && looks.len() == 2
                } else {
                    new.len() == old.len() + 1 && new.last() % 4 == 1
                }
            } else {
                new == old && looks.len() == 0
            }
        }),
{
    broadcast use {lemma_written16_push, lemma_read16_push};

    reveal(answer_nrdy_log);
    reveal(set_pipe_pid_log);
    let bound = bindings[pipe as int];
    if bound is Some {
        law_address_by_arithmetic(bound->0.ep_addr);
    }
    lemma_word(1u16 << pipe);
    assert(bit(pipe as int) == 1u16 << pipe);
    assert forall|x: u16| ((#[trigger] (x & !0x0003u16)) | 0x0001) % 4 == 1 by {
        law_answer_field(x);
    }
    assert forall|x: u16| #[trigger] (x & 0x0003u16) == x % 4 by {
        lemma_word(x);
    }
}

/// A SETUP packet reaches the stack as the registers held it: an interrupt captures it, a poll that
/// gets to the endpoints takes it unless an earlier one waits, and the next read of the control
/// endpoint hands it over.
#[verifier::rlimit(60)]
pub proof fn law_setup_packet_reaches_the_stack(
    log: Log,
    run: Log,
    state: BusState,
    seen_before: UsbEventSnapshot,
    poll_log: Log,
    poll_run: Log,
    read_log: Log,
    read_run: Log,
    buf: Seq<u8>,
)
    requires
        sample_log(log, run).1.setup_valid,
        !state.ep0_setup_ready,
        8 <= buf.len() <= usize::MAX,
        ({
            let flags = seen_before.with_event(sample_log(log, run).1).intsts0.0;
            &&& flags & 0x4000 == 0
            &&& flags & 0x1000 == 0 || flags & 0x0070 != 0x0010
        }),
    ensures
        ({
            let (after, event) = sample_log(log, run);
            let looks = seen(after, setup_looks()).skip(seen(log, setup_looks()).len() as int);
            let polled = poll_step(state, poll_log, seen_before.with_event(event), poll_run);
            let step = read_step(polled.state, read_log, EndpointAddress(0), buf, read_run);
            &&& polled.result is Data && polled.result->ep_setup == 1
            &&& step.result == Ok::<usize, UsbError>(8)
            &&& looks.len() == 4
            &&& looks[0]->Read16_reg == Reg16::Usbreq && looks[0]->Read16_value == step.buf[0] + 256
                * step.buf[1]
            &&& looks[1]->Read16_reg == Reg16::Usbval && looks[1]->Read16_value == step.buf[2] + 256
                * step.buf[3]
            &&& looks[2]->Read16_reg == Reg16::Usbindx && looks[2]->Read16_value == step.buf[4]
                + 256 * step.buf[5]
            &&& looks[3]->Read16_reg == Reg16::Usbleng && looks[3]->Read16_value == step.buf[6]
                + 256 * step.buf[7]
        }),
{
    let (after, event) = sample_log(log, run);
    let events = seen_before.with_event(event);
    law_captured_packet_is_what_the_registers_held(log, run);
    law_snapshot_adds_the_event(seen_before, event, 0);
    law_poll_makes_of_the_state(state, poll_log, events, poll_run, 0);
    let polled = poll_step(state, poll_log, events, poll_run);
    law_poll_keeps_first_setup(
        state,
        if events.intsts0.sofr() {
            clear_intsts0_log(
                if events.intsts0.dvst() {
                    clear_intsts0_log(poll_log, 0x1000)
                } else {
                    poll_log
                },
                0x2000,
            )
        } else if events.intsts0.dvst() {
            clear_intsts0_log(poll_log, 0x1000)
        } else {
            poll_log
        },
        events,
        poll_run,
    );
    law_address_by_arithmetic(EndpointAddress(0));
    law_read_outcome(polled.state, read_log, EndpointAddress(0), buf, read_run);
    law_control_read(polled.state, read_log, EndpointAddress(0), buf, read_run);
    let step = read_step(polled.state, read_log, EndpointAddress(0), buf, read_run);
    let p = event.setup_packet@;
    assert forall|i: int| 0 <= i < 8 implies #[trigger] step.buf[i] == p[i] by {}
}

} // verus!
