//! How pipes are set up for the endpoints bound to them.

use crate::bits::lemma_word;
use crate::mmio::{Access, Log, Reg16, Shadow};
use crate::trace::{
    control_register, lemma_read16_push, lemma_read16_spin, lemma_seen_push, lemma_seen_spin,
    lemma_window_push, lemma_window_spin, lemma_written16_push, lemma_written16_spin, read16, seen,
    window, written16,
};
use crate::usb::bus::pipes::{open_log, LAST_PIPE};
use crate::usb::bus::reset::{
    clear_pipes_log, cleared, reopen_step, reset_registers_log, reset_step,
};
use crate::usb::driver::clear_capture_state_log;
use crate::usb::endpoint::{law_address_by_arithmetic, EndpointType};
use crate::usb::regs::{
    configure_pipe_log, has_pipes, law_answer_field, pipecfg_value, reset_pipe_control_log,
    select_cfifo_log, set_pipe_nak_wait_log, set_pipe_pid_log, setup_pipe_log,
    start_out_receive_log, write_enb_log,
};
use crate::usb::types::{BusState, PipeBinding};
use vstd::prelude::*;

verus! {

/// The configuration of a pipe, by arithmetic: the transfer type in the top two bits (1 is bulk,
/// with double buffering in bit 9, 2 is interrupt), for an IN endpoint the direction in bit 4 and
/// the end of a transfer reported per buffer in bit 10, for a bulk OUT endpoint the stop after a
/// short packet in bit 7, and the index of the endpoint at the bottom.
pub open spec fn configuration(binding: PipeBinding) -> int {
    let bulk = binding.ep_type == EndpointType::Bulk;
    let transfer: int = if bulk {
        0x4200
    } else {
        0x8000
    };
    let direction: int = if binding.ep_addr.0 >= 128 {
        0x0410
    } else if bulk {
        0x0080
    } else {
        0
    };
    transfer + direction + binding.ep_addr.0 % 128
}

proof fn lemma_configuration(binding: PipeBinding)
    requires
        has_pipes(binding.ep_type),
        binding.ep_addr.index() < 16,
    ensures
        pipecfg_value(binding) == configuration(binding),
{
    law_address_by_arithmetic(binding.ep_addr);
    let index = binding.ep_addr.index() as u16;
    assert({
        &&& (0u16 | 0x0080u16 | (0x4000u16 | 0x0200u16) | 0u16 | index) == 0x4280 + index
        &&& (0x0400u16 | 0u16 | (0x4000u16 | 0x0200u16) | 0x0010u16 | index) == 0x4610 + index
        &&& (0u16 | 0u16 | 0x8000u16 | 0u16 | index) == 0x8000 + index
        &&& (0x0400u16 | 0u16 | 0x8000u16 | 0x0010u16 | index) == 0x8410 + index
    }) by (bit_vector)
        requires
            index < 16,
    ;
}

/// Setting a pipe up tells the window about this pipe alone, and closes the window.
proof fn lemma_setup_window(log: Log, pipe: u8, config: u16, size: u16, run: Log, other: u16)
    requires
        other > 0,
    ensures
        ({
            let after = window(setup_pipe_log(log, pipe, config, size, run), other);
            &&& after.selected == 0
            &&& after.config == if pipe == other {
                Some(config)
            } else {
                window(log, other).config
            }
            &&& after.packet_size == if pipe == other {
                Some(size)
            } else {
                window(log, other).packet_size
            }
        }),
{
    broadcast use {lemma_window_push, lemma_window_spin};

    reveal(setup_pipe_log);
    reveal(set_pipe_nak_wait_log);
    reveal(reset_pipe_control_log);
}

/// Setting a pipe up writes the control register of no other pipe.
proof fn lemma_setup_control(log: Log, pipe: u8, config: u16, size: u16, run: Log, other: int)
    requires
        1 <= pipe <= 9,
        1 <= other <= 9,
        pipe != other,
    ensures
        written16(setup_pipe_log(log, pipe, config, size, run), control_register(other))
            == written16(log, control_register(other)),
{
    broadcast use {lemma_written16_push, lemma_written16_spin};

    reveal(setup_pipe_log);
    reveal(set_pipe_nak_wait_log);
    reveal(reset_pipe_control_log);
}

/// Starting reception leaves the window alone, and ends with the pipe answering according to its
/// buffer. It writes the control register of no other pipe.
proof fn lemma_receive_setup(log: Log, brdy: u16, nrdy: u16, pipe: u8, run: Log, other: int)
    requires
        1 <= pipe <= 9,
        1 <= other <= 9,
    ensures
        ({
            let after = start_out_receive_log(log, brdy, nrdy, pipe, run);
            &&& window(after, other as u16) == window(log, other as u16)
            &&& pipe != other ==> written16(after, control_register(other)) == written16(
                log,
                control_register(other),
            )
            &&& pipe == other ==> written16(after, control_register(other)).len() > 0 && written16(
                after,
                control_register(other),
            ).last() % 4 == 1
        }),
{
    broadcast use {
        lemma_window_push,
        lemma_window_spin,
        lemma_written16_push,
        lemma_written16_spin,
    };

    reveal(start_out_receive_log);
    reveal(set_pipe_nak_wait_log);
    reveal(select_cfifo_log);
    reveal(set_pipe_pid_log);
    assert forall|x: u16| ((#[trigger] (x & !0x0003u16)) | 0x0001) % 4 == 1 by {
        law_answer_field(x);
    }
}

/// Opening a pipe sets it up for the endpoint bound to it, and no other pipe.
pub proof fn lemma_open_pipe(
    state: BusState,
    log: Log,
    pipe: u8,
    binding: PipeBinding,
    run: Log,
    other: int,
)
    requires
        1 <= pipe <= 9,
        1 <= other <= 9,
        has_pipes(binding.ep_type),
        binding.ep_addr.index() < 16,
        binding.max_packet <= 256,
    ensures
        ({
            let after = open_log(state, log, pipe, binding, run);
            &&& window(after, other as u16).selected == 0
            &&& pipe == other ==> {
                &&& window(after, other as u16).config == Some(configuration(binding) as u16)
                &&& window(after, other as u16).packet_size == Some(binding.max_packet)
                &&& binding.ep_addr.0 < 128 ==> written16(after, control_register(other)).len() > 0
                    && written16(after, control_register(other)).last() % 4 == 1
            }
            &&& pipe != other ==> {
                &&& window(after, other as u16).config == window(log, other as u16).config
                &&& window(after, other as u16).packet_size == window(log, other as u16).packet_size
                &&& written16(after, control_register(other)) == written16(
                    log,
                    control_register(other),
                )
            }
        }),
{
    broadcast use {lemma_window_push, lemma_written16_push};

    lemma_configuration(binding);
    law_address_by_arithmetic(binding.ep_addr);
    let size = binding.max_packet;
    lemma_word(size);
    reveal(configure_pipe_log);
    lemma_setup_window(log, pipe, pipecfg_value(binding), size, run, other as u16);
    if pipe != other {
        lemma_setup_control(log, pipe, pipecfg_value(binding), size, run, other);
    }
    assert forall|l: Log, brdy: u16, nrdy: u16|
        {
            let after = #[trigger] start_out_receive_log(l, brdy, nrdy, pipe, run);
            &&& window(after, other as u16) == window(l, other as u16)
            &&& pipe != other ==> written16(after, control_register(other)) == written16(
                l,
                control_register(other),
            )
            &&& pipe == other ==> written16(after, control_register(other)).len() > 0 && written16(
                after,
                control_register(other),
            ).last() % 4 == 1
        } by {
        lemma_receive_setup(l, brdy, nrdy, pipe, run, other);
    }
}

/// Taking pipes out of use sets them up with nothing.
proof fn lemma_clear_pipes(log: Log, n: nat, run: Log, other: int)
    requires
        n <= 9,
        1 <= other <= 9,
    ensures
        ({
            let after = window(clear_pipes_log(log, n, run), other as u16);
            &&& n > 0 ==> after.selected == 0
            &&& other <= n ==> after.config == Some(0u16) && after.packet_size == Some(0u16)
        }),
    decreases n,
{
    if n > 0 {
        lemma_clear_pipes(log, (n - 1) as nat, run, other);
        lemma_setup_window(
            clear_pipes_log(log, (n - 1) as nat, run),
            n as u8,
            0,
            0,
            run,
            other as u16,
        );
    }
}

/// Opening the first `n` pipes sets up those among them that have an endpoint, and leaves the rest
/// alone.
proof fn lemma_reopen(state: BusState, log: Log, n: nat, run: Log, other: int)
    requires
        state.wf(),
        n <= 9,
        1 <= other <= 9,
        window(log, other as u16).selected == 0,
    ensures
        ({
            let after = reopen_step(cleared(state), log, n, run).1;
            let bound = state.pipe_bindings@[other];
            &&& window(after, other as u16).selected == 0
            &&& if other <= n && bound is Some {
                &&& window(after, other as u16).config == Some(configuration(bound->0) as u16)
                &&& window(after, other as u16).packet_size == Some(bound->0.max_packet)
                &&& bound->0.ep_addr.0 < 128 ==> written16(after, control_register(other)).len() > 0
                    && written16(after, control_register(other)).last() % 4 == 1
            } else {
                window(after, other as u16) == window(log, other as u16)
            }
        }),
    decreases n,
{
    if n > 0 {
        lemma_reopen(state, log, (n - 1) as nat, run, other);
        let (state1, log1) = reopen_step(cleared(state), log, (n - 1) as nat, run);
        if let Some(binding) = state.pipe_bindings@[n as int] {
            reveal(BusState::wf);
            lemma_open_pipe(state1, log1, n as u8, binding, run, other);
        }
    }
}

/// A pipe is set up for the endpoint bound to it: the configuration and the packet size last
/// written for it through the pipe window are those of the endpoint, or zero if none is bound, and
/// a pipe with an OUT endpoint was last told to answer according to its buffer.
pub open spec fn is_set_up(log: Log, pipe: int, bound: Option<PipeBinding>) -> bool {
    let shown = window(log, pipe as u16);
    let controls = written16(log, control_register(pipe));
    match bound {
        Some(binding) => {
            &&& shown.config == Some(configuration(binding) as u16)
            &&& shown.packet_size == Some(binding.max_packet)
            &&& binding.ep_addr.0 < 128 ==> controls.len() > 0 && controls.last() % 4 == 1
        },
        None => shown.config == Some(0u16) && shown.packet_size == Some(0u16),
    }
}

/// After a reset every pipe is set up for the endpoint bound to it.
pub proof fn law_reset_sets_the_pipes_up(state: BusState, log: Log, run: Log, pipe: int)
    requires
        state.wf(),
        1 <= pipe <= 9,
    ensures
        is_set_up(reset_step(state, log, run).1, pipe, state.pipe_bindings@[pipe]),
{
    reveal(reset_step);
    assert forall|l: Log|
        {
            let after = window(#[trigger] clear_pipes_log(l, LAST_PIPE as nat, run), pipe as u16);
            &&& after.selected == 0
            &&& after.config == Some(0u16) && after.packet_size == Some(0u16)
        } by {
        lemma_clear_pipes(l, LAST_PIPE as nat, run, pipe);
    }
    assert forall|l: Log| window(l, pipe as u16).selected == 0 implies {
        let after = (#[trigger] reopen_step(cleared(state), l, LAST_PIPE as nat, run)).1;
        let bound = state.pipe_bindings@[pipe];
        if bound is Some {
            &&& window(after, pipe as u16).config == Some(configuration(bound->0) as u16)
            &&& window(after, pipe as u16).packet_size == Some(bound->0.max_packet)
            &&& bound->0.ep_addr.0 < 128 ==> written16(after, control_register(pipe)).len() > 0
                && written16(after, control_register(pipe)).last() % 4 == 1
        } else {
            window(after, pipe as u16) == window(l, pipe as u16)
        }
    } by {
        lemma_reopen(state, l, LAST_PIPE as nat, run, pipe);
    }
}

/// A reset also brings the registers of the device and of the control pipe back. Of the system
/// configuration it keeps what it reads of bits 0, 4 and 10, that is, operation, pull-up and clock.
/// The control pipe gets its packet size, and ends up answering NAK with the data toggle reset.
/// Pending reports of all pipes are dropped before anything is set up.
#[verifier::rlimit(60)]
pub proof fn law_reset_brings_the_registers_back(state: BusState, log: Log, run: Log)
    ensures
        ({
            let after = reset_step(state, log, run).1;
            let reports = written16(log, Reg16::Brdysts).len() as int;
            let failures = written16(log, Reg16::Nrdysts).len() as int;
            let ends = written16(log, Reg16::Bempsts).len() as int;
            let selections = written16(log, Reg16::Cfifosel).len() as int;
            &&& written16(after, Reg16::Syscfg) == written16(log, Reg16::Syscfg).push(
                read16(after, Reg16::Syscfg).last() & 0x0411,
            )
            &&& written16(after, Reg16::Dvstctr0) == written16(log, Reg16::Dvstctr0).push(0)
            &&& written16(after, Reg16::Dcpcfg) == written16(log, Reg16::Dcpcfg).push(0)
            &&& written16(after, Reg16::Dcpmaxp) == written16(log, Reg16::Dcpmaxp).push(
                state.ep0_max_packet,
            )
            &&& written16(after, Reg16::Dcpctr) == written16(log, Reg16::Dcpctr).push(0x0080).push(
                0x0100,
            )
            &&& written16(after, Reg16::D0fifosel) == written16(log, Reg16::D0fifosel).push(0x0400)
            &&& written16(after, Reg16::D1fifosel) == written16(log, Reg16::D1fifosel).push(0)
            &&& written16(after, Reg16::Brdysts).len() > reports && written16(
                after,
                Reg16::Brdysts,
            )[reports] == 0
            &&& written16(after, Reg16::Nrdysts).len() > failures && written16(
                after,
                Reg16::Nrdysts,
            )[failures] == 0
            &&& written16(after, Reg16::Bempsts).len() > ends && written16(
                after,
                Reg16::Bempsts,
            )[ends] == 0
            &&& written16(after, Reg16::Cfifosel).len() > selections && written16(
                after,
                Reg16::Cfifosel,
            )[selections] == 0
        }),
{
    broadcast use {lemma_written16_push, lemma_read16_push};

    reveal(reset_step);
    reveal(clear_capture_state_log);
    reveal(reset_registers_log);
    assert((0x0001u16 | 0x0010u16 | 0x0400u16) == 0x0411u16) by (bit_vector);
    assert forall|l: Log, reg: Reg16|
        #![trigger written16(clear_pipes_log(l, LAST_PIPE as nat, run), reg)]
        {
            let after = clear_pipes_log(l, LAST_PIPE as nat, run);
            &&& !of_a_pipe(reg) ==> written16(after, reg) == written16(l, reg)
            &&& extends(written16(l, reg), written16(after, reg))
            &&& read16(after, Reg16::Syscfg) == read16(l, Reg16::Syscfg)
        } by {
        lemma_clear_pipes_frame(l, LAST_PIPE as nat, run, reg);
    }
    assert forall|l: Log, reg: Reg16|
        #![trigger written16(reopen_step(cleared(state), l, LAST_PIPE as nat, run).1, reg)]
        {
            let after = reopen_step(cleared(state), l, LAST_PIPE as nat, run).1;
            &&& !of_a_pipe(reg) ==> written16(after, reg) == written16(l, reg)
            &&& extends(written16(l, reg), written16(after, reg))
            &&& read16(after, Reg16::Syscfg) == read16(l, Reg16::Syscfg)
        } by {
        lemma_reopen_frame(cleared(state), l, LAST_PIPE as nat, run, reg);
    }
}

/// What was written stays written.
pub open spec fn extends(old: Seq<u16>, new: Seq<u16>) -> bool {
    &&& old.len() <= new.len()
    &&& forall|i: int| 0 <= i < old.len() ==> old[i] == #[trigger] new[i]
}

/// Whether setting a pipe up may write a register.
pub open spec fn of_a_pipe(reg: Reg16) -> bool {
    match reg {
        Reg16::Pipesel | Reg16::Pipecfg | Reg16::Pipemaxp | Reg16::Pipeperi => true,
        Reg16::Pipectr(_) | Reg16::Pipectr2(_) | Reg16::Cfifosel => true,
        Reg16::Brdysts | Reg16::Nrdysts | Reg16::Bempsts => true,
        Reg16::Brdyenb | Reg16::Nrdyenb | Reg16::Bempenb => true,
        _ => false,
    }
}

/// What setting a pipe up writes and reads besides what concerns the pipe: nothing.
proof fn lemma_setup_frame(log: Log, pipe: u8, config: u16, size: u16, run: Log, reg: Reg16)
    ensures
        ({
            let after = setup_pipe_log(log, pipe, config, size, run);
            &&& !of_a_pipe(reg) ==> written16(after, reg) == written16(log, reg)
            &&& extends(written16(log, reg), written16(after, reg))
            &&& read16(after, Reg16::Syscfg) == read16(log, Reg16::Syscfg)
        }),
{
    broadcast use {
        lemma_written16_push,
        lemma_written16_spin,
        lemma_read16_push,
        lemma_read16_spin,
    };

    reveal(setup_pipe_log);
    reveal(set_pipe_nak_wait_log);
    reveal(reset_pipe_control_log);
}

proof fn lemma_clear_pipes_frame(log: Log, n: nat, run: Log, reg: Reg16)
    ensures
        ({
            let after = clear_pipes_log(log, n, run);
            &&& !of_a_pipe(reg) ==> written16(after, reg) == written16(log, reg)
            &&& extends(written16(log, reg), written16(after, reg))
            &&& read16(after, Reg16::Syscfg) == read16(log, Reg16::Syscfg)
        }),
    decreases n,
{
    if n > 0 {
        lemma_clear_pipes_frame(log, (n - 1) as nat, run, reg);
        let before = clear_pipes_log(log, (n - 1) as nat, run);
        lemma_setup_frame(before, n as u8, 0, 0, run, reg);
    }
}

proof fn lemma_open_frame(
    state: BusState,
    log: Log,
    pipe: u8,
    binding: PipeBinding,
    run: Log,
    reg: Reg16,
)
    ensures
        ({
            let after = open_log(state, log, pipe, binding, run);
            &&& !of_a_pipe(reg) ==> written16(after, reg) == written16(log, reg)
            &&& extends(written16(log, reg), written16(after, reg))
            &&& read16(after, Reg16::Syscfg) == read16(log, Reg16::Syscfg)
        }),
{
    broadcast use {
        lemma_written16_push,
        lemma_written16_spin,
        lemma_read16_push,
        lemma_read16_spin,
    };

    reveal(configure_pipe_log);
    reveal(start_out_receive_log);
    reveal(set_pipe_nak_wait_log);
    reveal(select_cfifo_log);
    reveal(set_pipe_pid_log);
    assert forall|c: u16, m: u16| {
        let after = #[trigger] setup_pipe_log(log, pipe, c, m, run);
        &&& !of_a_pipe(reg) ==> written16(after, reg) == written16(log, reg)
        &&& extends(written16(log, reg), written16(after, reg))
        &&& read16(after, Reg16::Syscfg) == read16(log, Reg16::Syscfg)
    } by {
        lemma_setup_frame(log, pipe, c, m, run, reg);
    }
}

proof fn lemma_reopen_frame(state: BusState, log: Log, n: nat, run: Log, reg: Reg16)
    ensures
        ({
            let after = reopen_step(state, log, n, run).1;
            &&& !of_a_pipe(reg) ==> written16(after, reg) == written16(log, reg)
            &&& extends(written16(log, reg), written16(after, reg))
            &&& read16(after, Reg16::Syscfg) == read16(log, Reg16::Syscfg)
        }),
    decreases n,
{
    if n > 0 {
        lemma_reopen_frame(state, log, (n - 1) as nat, run, reg);
        let (state1, log1) = reopen_step(state, log, (n - 1) as nat, run);
        if let Some(binding) = state.pipe_bindings@[n as int] {
            lemma_open_frame(state1, log1, n as u8, binding, run, reg);
        }
    }
}

/// A reset leaves the allocations, and forgets all else: stalls, busy pipes, the SETUP packet and
/// what was expected of the control transfer, and suspension.
pub proof fn law_reset_keeps_the_allocations(state: BusState, log: Log, run: Log)
    ensures
        ({
            let next = reset_step(state, log, run).0;
            next == (BusState {
                ep0_stalled: false,
                stalled_in_mask: 0,
                stalled_out_mask: 0,
                ep0_last_setup_dir_out: false,
                ep0_setup_pending: false,
                ep0_setup_ready: false,
                ep0_short_in_waiting_status: false,
                ep0_expect_status_out: false,
                suspended: false,
                in_busy_mask: 0,
                brdyenb_shadow: next.brdyenb_shadow,
                nrdyenb_shadow: next.nrdyenb_shadow,
                bempenb_shadow: next.bempenb_shadow,
                ..state
            })
        }),
{
    reveal(reset_step);
    assert forall|l: Log| {
        let next = (#[trigger] reopen_step(cleared(state), l, LAST_PIPE as nat, run)).0;
        next == cleared(state).with_masks(next.masks())
    } by {
        crate::usb::bus::laws::lemma_reopen_frame(cleared(state), l, LAST_PIPE as nat, run);
    }
}

/// What concerns a pipe: the pipe window and its control register.
pub open spec fn pipe_traffic(control: Reg16) -> spec_fn(Access) -> bool {
    |access: Access|
        access is Write16 && {
            let reg = access->Write16_reg;
            reg == Reg16::Pipesel || reg == Reg16::Pipecfg || reg == Reg16::Pipemaxp || reg
                == Reg16::Pipeperi || reg == control
        }
}

/// A pipe is set up in order: it is made to answer NAK, the window is opened on it and closed again
/// with configuration, packet size and no cycle written in between, and then its control register
/// is brought back, with the data toggle reset, which is bit 8, the split state cleared, which is
/// bit 13, and the buffer emptied by setting and clearing bit 9. Its three reports are cleared
/// after that.
pub proof fn law_pipe_is_set_up_in_order(
    log: Log,
    pipe: u8,
    config: u16,
    size: u16,
    run: Log,
)
    requires
        1 <= pipe <= 9,
    ensures
        ({
            let after = setup_pipe_log(log, pipe, config, size, run);
            let control = control_register(pipe as int);
            let known = seen(log, pipe_traffic(control)).len() as int;
            let new = seen(after, pipe_traffic(control)).skip(known);
            let flag = 0x03ff & !(1u16 << pipe);
            &&& new.len() == 10
            &&& new[0]->Write16_reg == control && new[0]->Write16_value % 2 == 0
            &&& new[1] == (Access::Write16 { reg: Reg16::Pipesel, value: pipe as u16 })
            &&& new[2] == (Access::Write16 { reg: Reg16::Pipecfg, value: config })
            &&& new[3] == (Access::Write16 { reg: Reg16::Pipemaxp, value: size })
            &&& new[4] == (Access::Write16 { reg: Reg16::Pipeperi, value: 0 })
            &&& new[5] == (Access::Write16 { reg: Reg16::Pipesel, value: 0 })
            &&& new[6] == (Access::Write16 { reg: control, value: 0x0100 })
            &&& new[7]->Write16_reg == control && new[7]->Write16_value & 0x2000 != 0
            &&& new[8]->Write16_reg == control && new[8]->Write16_value & 0x0200 != 0
            &&& new[9]->Write16_reg == control && new[9]->Write16_value & 0x0200 == 0
            &&& written16(after, Reg16::Brdysts) == written16(log, Reg16::Brdysts).push(flag)
            &&& written16(after, Reg16::Nrdysts) == written16(log, Reg16::Nrdysts).push(flag)
            &&& written16(after, Reg16::Bempsts) == written16(log, Reg16::Bempsts).push(flag)
        }),
{
    broadcast use {lemma_seen_push, lemma_seen_spin, lemma_written16_push, lemma_written16_spin};

    reveal(setup_pipe_log);
    reveal(set_pipe_nak_wait_log);
    reveal(reset_pipe_control_log);
    lemma_word(1u16 << pipe);
    lemma_word(0x0100);
    assert forall|x: u16| #[trigger] (x & !0x0001u16) % 2 == 0 by {
        law_answer_field(x);
    }
    assert forall|x: u16| (#[trigger] (x | 0x2000u16)) & 0x2000 != 0 by {
        lemma_word(x);
    }
    assert forall|x: u16| (#[trigger] (x | 0x0200u16)) & 0x0200 != 0 by {
        lemma_word(x);
    }
    assert forall|x: u16| (#[trigger] (x & !0x0200u16)) & 0x0200 == 0 by {
        lemma_word(x);
    }
}

/// What concerns the reception on a pipe: its control register, the port, the reports and the masks
/// that say which of them count.
pub open spec fn reception_traffic(control: Reg16) -> spec_fn(Access) -> bool {
    |access: Access|
        match access {
            Access::Write16 { reg, .. } => reg == control || reg == Reg16::Cfifosel || reg
                == Reg16::Brdysts || reg == Reg16::Nrdysts || reg == Reg16::Brdyenb || reg
                == Reg16::Nrdyenb,
            Access::StoreShadow { .. } => true,
            _ => false,
        }
}

/// Reception is started in order: the pipe is made to answer NAK, the port is connected to it, its
/// old reports are cleared, it is made to answer according to its buffer, and then its reports are
/// asked for, of the interrupt handler before the hardware.
pub proof fn law_reception_is_started_in_order(
    log: Log,
    brdy: u16,
    nrdy: u16,
    pipe: u8,
    run: Log,
)
    requires
        1 <= pipe <= 9,
    ensures
        ({
            let after = start_out_receive_log(log, brdy, nrdy, pipe, run);
            let control = control_register(pipe as int);
            let known = seen(log, reception_traffic(control)).len() as int;
            let new = seen(after, reception_traffic(control)).skip(known);
            let b = 1u16 << pipe;
            &&& new.len() == 9
            &&& new[0] is Write16 && new[0]->Write16_reg == control && new[0]->Write16_value % 2
                == 0
            &&& new[1] == (Access::Write16 { reg: Reg16::Cfifosel, value: (0x0400 + pipe) as u16 })
            &&& new[2] == (Access::Write16 { reg: Reg16::Brdysts, value: 0x03ff & !b })
            &&& new[3] == (Access::Write16 { reg: Reg16::Nrdysts, value: 0x03ff & !b })
            &&& new[4] is Write16 && new[4]->Write16_reg == control && new[4]->Write16_value % 4
                == 1
            &&& new[5] == (Access::StoreShadow { which: Shadow::Brdyenb, value: brdy | b })
            &&& new[6] == (Access::Write16 { reg: Reg16::Brdyenb, value: brdy | b })
            &&& new[7] == (Access::StoreShadow { which: Shadow::Nrdyenb, value: nrdy | b })
            &&& new[8] == (Access::Write16 { reg: Reg16::Nrdyenb, value: nrdy | b })
        }),
{
    broadcast use {lemma_seen_push, lemma_seen_spin};

    reveal(start_out_receive_log);
    reveal(set_pipe_nak_wait_log);
    reveal(select_cfifo_log);
    reveal(set_pipe_pid_log);
    lemma_word(1u16 << pipe);
    lemma_word(pipe as u16);
    assert forall|x: u16| #[trigger] (x & !0x0001u16) % 2 == 0 by {
        law_answer_field(x);
    }
    assert forall|x: u16| ((#[trigger] (x & !0x0003u16)) | 0x0001) % 4 == 1 by {
        law_answer_field(x);
    }
}

/// A mask of reports is published to the interrupt handler before it is given to the hardware, so
/// that no report comes that the handler would overlook.
pub proof fn law_mask_is_published_first(log: Log, mask: u16)
    ensures
        write_enb_log(log, Shadow::Brdyenb, mask) == log + seq![
            Access::StoreShadow { which: Shadow::Brdyenb, value: mask },
            Access::Write16 { reg: Reg16::Brdyenb, value: mask },
        ],
        write_enb_log(log, Shadow::Nrdyenb, mask) == log + seq![
            Access::StoreShadow { which: Shadow::Nrdyenb, value: mask },
            Access::Write16 { reg: Reg16::Nrdyenb, value: mask },
        ],
        write_enb_log(log, Shadow::Bempenb, mask) == log + seq![
            Access::StoreShadow { which: Shadow::Bempenb, value: mask },
            Access::Write16 { reg: Reg16::Bempenb, value: mask },
        ],
{
    assert(write_enb_log(log, Shadow::Brdyenb, mask) =~= log + seq![
        Access::StoreShadow { which: Shadow::Brdyenb, value: mask },
        Access::Write16 { reg: Reg16::Brdyenb, value: mask },
    ]);
    assert(write_enb_log(log, Shadow::Nrdyenb, mask) =~= log + seq![
        Access::StoreShadow { which: Shadow::Nrdyenb, value: mask },
        Access::Write16 { reg: Reg16::Nrdyenb, value: mask },
    ]);
    assert(write_enb_log(log, Shadow::Bempenb, mask) =~= log + seq![
        Access::StoreShadow { which: Shadow::Bempenb, value: mask },
        Access::Write16 { reg: Reg16::Bempenb, value: mask },
    ]);
}

} // verus!
