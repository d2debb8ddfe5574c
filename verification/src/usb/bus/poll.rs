//! Turning captured events into what the USB stack is told.

use crate::mmio::{
    begins, grows, in16, in_pending, ld_pending, rd16, Instance, Log, Mmio, Reg16, Shadow,
};
use crate::summary::{latch, lemma_summary_push, summary};
use crate::usb::bus::pipes::{
    in_step, lemma_wf_frame, receiving, same_endpoints, start_out_receive_in_state, Bindings,
    LAST_PIPE,
};
use crate::usb::driver::{take_events_log, taken_event};
use crate::usb::endpoint::{PollResult, UsbDirection};
use crate::usb::regs;
use crate::usb::regs::{
    bit, clear_intsts0_log, clear_status_log, pipectr_in, read_pipectr_log, set_pipe_pid_log,
    start_out_receive_log, write_enb_log, PipePid, USB_BEMP0, USB_BRDY0, USB_CS_RDSS, USB_CTRT,
    USB_CTSQ, USB_DVST, USB_NRDY0, USB_PBUSY, USB_PID_BUF, USB_PID_MASK, USB_RESM, USB_SOFR,
    USB_VALID,
};
use crate::usb::types::{BusState, Intsts0, UsbEventSnapshot};
use vstd::prelude::*;

verus! {

broadcast use lemma_summary_push;

/// How many latched events one poll takes over at most. More cannot come in the lifetime of a chip.
pub const DRAIN_LIMIT: u64 = u64::MAX;

/// `log` followed by taking latched events over into a snapshot until none is pending, but no more
/// than `limit` of them, and the snapshot then.
#[verifier::opaque]
pub open spec fn drain_log(log: Log, events: UsbEventSnapshot, limit: nat, run: Log) -> (
    Log,
    UsbEventSnapshot,
)
    decreases limit,
{
    if limit == 0 {
        (log, events)
    } else {
        let log1 = ld_pending(log, run);
        if in_pending(log, run) {
            drain_log(
                take_events_log(log1, run),
                events.with_event(taken_event(log1, run)),
                (limit - 1) as nat,
                run,
            )
        } else {
            (log1, events)
        }
    }
}

/// Whether a look finds nothing pending before `limit` events are taken over.
pub open spec fn runs_dry(log: Log, limit: nat, run: Log) -> bool
    decreases limit,
{
    limit > 0 && (in_pending(log, run) ==> runs_dry(
        take_events_log(ld_pending(log, run), run),
        (limit - 1) as nat,
        run,
    ))
}

/// The limit makes no difference where the latch runs dry before it is reached, and a poll has the
/// highest limit that it can count to.
pub proof fn law_drain_limit_is_no_limit(
    log: Log,
    events: UsbEventSnapshot,
    limit: nat,
    other: nat,
    run: Log,
)
    requires
        runs_dry(log, limit, run),
        limit <= other,
    ensures
        drain_log(log, events, other, run) == drain_log(log, events, limit, run),
        DRAIN_LIMIT == 0xffff_ffff_ffff_ffff,
    decreases limit,
{
    reveal(drain_log);
    if in_pending(log, run) {
        let log1 = ld_pending(log, run);
        law_drain_limit_is_no_limit(
            take_events_log(log1, run),
            events.with_event(taken_event(log1, run)),
            (limit - 1) as nat,
            (other - 1) as nat,
            run,
        );
    }
}

/// Whether an OUT endpoint is bound to a pipe.
pub open spec fn receives(bindings: Bindings, pipe: int) -> bool {
    bindings[pipe] is Some && bindings[pipe]->0.ep_addr.direction() == UsbDirection::Out
}

/// Whether an IN endpoint is bound to a pipe.
pub open spec fn sends(bindings: Bindings, pipe: int) -> bool {
    bindings[pipe] is Some && bindings[pipe]->0.ep_addr.direction() == UsbDirection::In
}

/// `log` followed by a look at whether a pipe receives or is busy, and whether it is neither. The
/// second look is taken only if the first finds nothing.
pub open spec fn idle_log(log: Log, pipe: u8, run: Log) -> (Log, bool) {
    let log1 = read_pipectr_log(log, pipe, run);
    let log2 = read_pipectr_log(log1, pipe, run);
    if pipectr_in(log, pipe, run) & USB_PID_MASK == USB_PID_BUF {
        (log1, false)
    } else {
        (log2, pipectr_in(log1, pipe, run) & USB_PBUSY == 0)
    }
}

/// Whether a pipe neither receives nor is busy.
fn pipe_idle<I: Instance>(io: &mut Mmio<I>, pipe: u8) -> (r: bool)
    ensures
        grows(old(io).log(), final(io).log()),
        summary(final(io).log()) == summary(old(io).log()),
        forall|run: Log|
            #![trigger begins(final(io).log(), run)]
            begins(final(io).log(), run) ==> (final(io).log(), r) == idle_log(
                old(io).log(),
                pipe,
                run,
            ),
{
    !regs::pipe_pid_is_buf(io, pipe) && !regs::pipe_busy(io, pipe)
}

/// `log` followed by the answer to a not ready report of a pipe: the report is cleared, and an idle
/// receiver is woken up.
#[verifier::opaque]
pub open spec fn answer_nrdy_log(log: Log, bindings: Bindings, pipe: u8, run: Log) -> Log {
    let log1 = clear_status_log(log, Reg16::Nrdysts, bit(pipe as int));
    let (log2, idle) = idle_log(log1, pipe, run);
    if !receives(bindings, pipe as int) {
        log1
    } else if idle {
        set_pipe_pid_log(log2, pipe, PipePid::Buf, run)
    } else {
        log2
    }
}

fn answer_nrdy<I: Instance>(io: &mut Mmio<I>, state: &BusState, pipe: u8)
    requires
        pipe < 10,
    ensures
        grows(old(io).log(), final(io).log()),
        summary(final(io).log()) == summary(old(io).log()),
        forall|run: Log|
            #![trigger begins(final(io).log(), run)]
            begins(final(io).log(), run) ==> final(io).log() == answer_nrdy_log(
                old(io).log(),
                state.pipe_bindings@,
                pipe,
                run,
            ),
{
    proof {
        reveal(answer_nrdy_log);
    }
    regs::clear_nrdy(io, pipe);
    if let Some(binding) = state.pipe_bindings[pipe as usize] {
        if binding.ep_addr.direction() == UsbDirection::Out {
            if pipe_idle(io, pipe) {
                regs::set_pipe_pid(io, pipe, PipePid::Buf);
            }
        }
    }
}

/// `log` followed by the answers to the not ready reports of the first `n` pipes.
pub open spec fn answer_nrdys_log(
    log: Log,
    bindings: Bindings,
    nrdysts: u16,
    n: nat,
    run: Log,
) -> Log
    decreases n,
{
    if n == 0 {
        log
    } else {
        let log1 = answer_nrdys_log(log, bindings, nrdysts, (n - 1) as nat, run);
        if nrdysts & bit(n as int) == 0 {
            log1
        } else {
            answer_nrdy_log(log1, bindings, n as u8, run)
        }
    }
}

/// `log` followed by the answers to all not ready reports, that of the control pipe first.
pub open spec fn handle_nrdy_log(log: Log, bindings: Bindings, nrdysts: u16, run: Log) -> Log {
    let log1 = if nrdysts & USB_NRDY0 != 0 {
        clear_status_log(log, Reg16::Nrdysts, USB_NRDY0)
    } else {
        log
    };
    answer_nrdys_log(log1, bindings, nrdysts, LAST_PIPE as nat, run)
}

fn handle_nrdy<I: Instance>(io: &mut Mmio<I>, state: &BusState, nrdysts: u16)
    ensures
        grows(old(io).log(), final(io).log()),
        summary(final(io).log()) == summary(old(io).log()),
        forall|run: Log|
            #![trigger begins(final(io).log(), run)]
            begins(final(io).log(), run) ==> final(io).log() == handle_nrdy_log(
                old(io).log(),
                state.pipe_bindings@,
                nrdysts,
                run,
            ),
{
    if nrdysts & USB_NRDY0 != 0 {
        regs::clear_nrdy0(io);
    }
    let ghost start = io.log();
    let mut pipe: u8 = 1;
    while pipe <= LAST_PIPE
        invariant
            1 <= pipe <= 10,
            grows(start, io.log()),
            summary(io.log()) == summary(start),
            forall|run: Log|
                #![trigger begins(io.log(), run)]
                begins(io.log(), run) ==> io.log() == answer_nrdys_log(
                    start,
                    state.pipe_bindings@,
                    nrdysts,
                    (pipe - 1) as nat,
                    run,
                ),
        decreases 10 - pipe,
    {
        let bit: u16 = 1u16 << pipe;
        if nrdysts & bit != 0 {
            answer_nrdy(io, state, pipe);
        }
        pipe += 1;
    }
}

/// What making the idle receivers among the first `n` pipes ready again makes of the state, and the
/// accesses that it takes.
pub open spec fn restart_step(state: BusState, log: Log, n: nat, run: Log) -> (BusState, Log)
    decreases n,
{
    if n == 0 {
        (state, log)
    } else {
        let (state1, log1) = restart_step(state, log, (n - 1) as nat, run);
        let (log2, idle) = idle_log(log1, n as u8, run);
        if !receives(state.pipe_bindings@, n as int) {
            (state1, log1)
        } else if !idle {
            (state1, log2)
        } else {
            (
                receiving(state1, n as u8),
                start_out_receive_log(
                    log2,
                    state1.brdyenb_shadow,
                    state1.nrdyenb_shadow,
                    n as u8,
                    run,
                ),
            )
        }
    }
}

/// Makes all idle receivers ready again.
fn restart_receivers<I: Instance>(io: &mut Mmio<I>, state: &mut BusState)
    ensures
        grows(old(io).log(), final(io).log()),
        forall|run: Log|
            #![trigger begins(final(io).log(), run)]
            begins(final(io).log(), run) ==> (*final(state), final(io).log()) == restart_step(
                *old(state),
                old(io).log(),
                LAST_PIPE as nat,
                run,
            ),
        in_step(old(io).log(), *old(state)) ==> in_step(final(io).log(), *final(state)),
        latch(final(io).log()) == latch(old(io).log()),
        *final(state) == old(state).with_masks(final(state).masks()),
{
    let mut pipe: u8 = 1;
    while pipe <= LAST_PIPE
        invariant
            1 <= pipe <= 10,
            grows(old(io).log(), io.log()),
            forall|run: Log|
                #![trigger begins(io.log(), run)]
                begins(io.log(), run) ==> (*state, io.log()) == restart_step(
                    *old(state),
                    old(io).log(),
                    (pipe - 1) as nat,
                    run,
                ),
            in_step(old(io).log(), *old(state)) ==> in_step(io.log(), *state),
            latch(io.log()) == latch(old(io).log()),
            *state == old(state).with_masks(state.masks()),
        decreases 10 - pipe,
    {
        if let Some(binding) = state.pipe_bindings[pipe as usize] {
            if binding.ep_addr.direction() == UsbDirection::Out {
                if pipe_idle(io, pipe) {
                    start_out_receive_in_state(
                        io,
                        state,
                        pipe,
                        binding.max_packet,
                        binding.max_packet as u32,
                    );
                }
            }
        }
        pipe += 1;
    }
}

/// Whether a pipe has sent its packet, going by the buffer empty reports.
pub open spec fn has_sent(bindings: Bindings, bempsts: u16, pipe: int) -> bool {
    bempsts & bit(pipe) != 0 && bindings[pipe] is Some
}

/// The state once a pipe has sent its packet.
pub open spec fn sent(state: BusState, pipe: u8) -> BusState {
    BusState {
        bempenb_shadow: state.bempenb_shadow & !bit(pipe as int),
        in_busy_mask: state.in_busy_mask & !bit(pipe as int),
        ..state
    }
}

/// `log` followed by what ends the sending of a packet.
#[verifier::opaque]
pub open spec fn sent_log(log: Log, bempenb: u16, pipe: u8, run: Log) -> Log {
    let log1 = clear_status_log(log, Reg16::Bempsts, bit(pipe as int));
    let log2 = write_enb_log(log1, Shadow::Bempenb, bempenb & !bit(pipe as int));
    set_pipe_pid_log(log2, pipe, PipePid::Nak, run)
}

fn end_sending<I: Instance>(io: &mut Mmio<I>, state: &mut BusState, pipe: u8)
    requires
        pipe < 16,
    ensures
        grows(old(io).log(), final(io).log()),
        *final(state) == sent(*old(state), pipe),
        forall|run: Log|
            #![trigger begins(final(io).log(), run)]
            begins(final(io).log(), run) ==> final(io).log() == sent_log(
                old(io).log(),
                old(state).bempenb_shadow,
                pipe,
                run,
            ),
        in_step(old(io).log(), *old(state)) ==> in_step(final(io).log(), *final(state)),
        latch(final(io).log()) == latch(old(io).log()),
{
    proof {
        reveal(sent_log);
    }
    let bit: u16 = 1u16 << pipe;
    regs::clear_bemp(io, pipe);
    let next_bemp: u16 = state.bempenb_shadow & !bit;
    regs::write_bempenb(io, &mut state.bempenb_shadow, next_bemp);
    regs::set_pipe_pid(io, pipe, PipePid::Nak);
    state.in_busy_mask = state.in_busy_mask & !bit;
}

/// What the buffer empty reports of the first `n` pipes make of the state, and the accesses that
/// the answers take.
pub open spec fn handle_bemp_step(state: BusState, log: Log, bempsts: u16, n: nat, run: Log) -> (
    BusState,
    Log,
)
    decreases n,
{
    if n == 0 {
        (state, log)
    } else {
        let (state1, log1) = handle_bemp_step(state, log, bempsts, (n - 1) as nat, run);
        if has_sent(state.pipe_bindings@, bempsts, n as int) {
            (sent(state1, n as u8), sent_log(log1, state1.bempenb_shadow, n as u8, run))
        } else {
            (state1, log1)
        }
    }
}

/// The IN endpoints on the first `n` pipes whose packet was sent.
pub open spec fn endpoints_sent(bindings: Bindings, bempsts: u16, n: nat) -> u16
    decreases n,
{
    if n == 0 {
        0
    } else {
        let mask = endpoints_sent(bindings, bempsts, (n - 1) as nat);
        if bempsts & bit(n as int) != 0 && sends(bindings, n as int) {
            mask | bit(bindings[n as int]->0.ep_addr.index() as int)
        } else {
            mask
        }
    }
}

/// Answers all buffer empty reports but that of the control pipe, and tells which IN endpoints have
/// sent their packet.
fn handle_bemp<I: Instance>(io: &mut Mmio<I>, state: &mut BusState, bempsts: u16) -> (r: u16)
    requires
        old(state).indices_fit(),
    ensures
        r == endpoints_sent(old(state).pipe_bindings@, bempsts, LAST_PIPE as nat),
        grows(old(io).log(), final(io).log()),
        forall|run: Log|
            #![trigger begins(final(io).log(), run)]
            begins(final(io).log(), run) ==> (*final(state), final(io).log()) == handle_bemp_step(
                *old(state),
                old(io).log(),
                bempsts,
                LAST_PIPE as nat,
                run,
            ),
        in_step(old(io).log(), *old(state)) ==> in_step(final(io).log(), *final(state)),
        latch(final(io).log()) == latch(old(io).log()),
        *final(state) == (BusState {
            in_busy_mask: final(state).in_busy_mask,
            ..old(state).with_masks(final(state).masks())
        }),
{
    let mut ep_in_complete: u16 = 0;
    let mut pipe: u8 = 1;
    while pipe <= LAST_PIPE
        invariant
            1 <= pipe <= 10,
            old(state).indices_fit(),
            ep_in_complete == endpoints_sent(
                old(state).pipe_bindings@,
                bempsts,
                (pipe - 1) as nat,
            ),
            grows(old(io).log(), io.log()),
            forall|run: Log|
                #![trigger begins(io.log(), run)]
                begins(io.log(), run) ==> (*state, io.log()) == handle_bemp_step(
                    *old(state),
                    old(io).log(),
                    bempsts,
                    (pipe - 1) as nat,
                    run,
                ),
            in_step(old(io).log(), *old(state)) ==> in_step(io.log(), *state),
            latch(io.log()) == latch(old(io).log()),
            *state == (BusState {
                in_busy_mask: state.in_busy_mask,
                ..old(state).with_masks(state.masks())
            }),
        decreases 10 - pipe,
    {
        let bit: u16 = 1u16 << pipe;
        if bempsts & bit != 0 {
            if let Some(binding) = state.pipe_bindings[pipe as usize] {
                end_sending(io, state, pipe);
                if binding.ep_addr.direction() == UsbDirection::In {
                    proof {
                        reveal(BusState::indices_fit);
                    }
                    ep_in_complete = ep_in_complete | (1u16 << binding.ep_addr.index());
                }
            }
        }
        pipe += 1;
    }
    ep_in_complete
}

/// What a captured SETUP packet makes of the state, and the accesses that it takes. A packet that
/// comes while an earlier one waits is dropped.
#[verifier::opaque]
pub open spec fn stage_setup_step(
    state: BusState,
    log: Log,
    latched: UsbEventSnapshot,
    run: Log,
) -> (BusState, Log) {
    let log1 = rd16(log, Reg16::Intsts0, run);
    if latched.setup_valid && !state.ep0_setup_ready {
        (
            BusState {
                ep0_setup_packet: latched.setup_packet,
                ep0_setup_pending: true,
                ep0_setup_ready: true,
                ..state
            },
            if Intsts0(in16(log, run)).valid() {
                clear_intsts0_log(log1, USB_VALID)
            } else {
                log1
            },
        )
    } else {
        (state, log)
    }
}

/// Keeps a SETUP packet until it is read.
fn stage_setup_packet<I: Instance>(
    io: &mut Mmio<I>,
    state: &mut BusState,
    latched: &UsbEventSnapshot,
)
    ensures
        grows(old(io).log(), final(io).log()),
        forall|run: Log|
            #![trigger begins(final(io).log(), run)]
            begins(final(io).log(), run) ==> (*final(state), final(io).log()) == stage_setup_step(
                *old(state),
                old(io).log(),
                *latched,
                run,
            ),
        in_step(old(io).log(), *old(state)) ==> in_step(final(io).log(), *final(state)),
        latch(final(io).log()) == latch(old(io).log()),
        *final(state) == (BusState {
            ep0_setup_packet: final(state).ep0_setup_packet,
            ep0_setup_pending: final(state).ep0_setup_pending,
            ep0_setup_ready: old(state).ep0_setup_ready || latched.setup_valid,
            ..*old(state)
        }),
{
    proof {
        reveal(stage_setup_step);
    }
    if latched.setup_valid && !state.ep0_setup_ready {
        if Intsts0(io.read16(Reg16::Intsts0)).valid() {
            regs::clear_valid(io);
        }
        state.ep0_setup_packet = latched.setup_packet;
        state.ep0_setup_pending = true;
        state.ep0_setup_ready = true;
    }
}

/// The OUT endpoints on the first `n` pipes that hold a packet.
pub open spec fn endpoints_ready(bindings: Bindings, brdysts: u16, n: nat) -> u16
    decreases n,
{
    if n == 0 {
        0
    } else {
        let mask = endpoints_ready(bindings, brdysts, (n - 1) as nat);
        if brdysts & bit(n as int) != 0 && receives(bindings, n as int) {
            mask | bit(bindings[n as int]->0.ep_addr.index() as int)
        } else {
            mask
        }
    }
}

/// Tells which OUT endpoints hold a packet.
fn find_endpoints_ready(state: &BusState, brdysts: u16) -> (r: u16)
    requires
        state.indices_fit(),
    ensures
        r == endpoints_ready(state.pipe_bindings@, brdysts, LAST_PIPE as nat),
{
    let mut ep_out: u16 = 0;
    let mut pipe: u8 = 1;
    while pipe <= LAST_PIPE
        invariant
            1 <= pipe <= 10,
            state.indices_fit(),
            ep_out == endpoints_ready(state.pipe_bindings@, brdysts, (pipe - 1) as nat),
        decreases 10 - pipe,
    {
        let bit: u16 = 1u16 << pipe;
        if brdysts & bit != 0 {
            if let Some(binding) = state.pipe_bindings[pipe as usize] {
                if binding.ep_addr.direction() == UsbDirection::Out {
                    proof {
                        reveal(BusState::indices_fit);
                    }
                    ep_out = ep_out | (1u16 << binding.ep_addr.index());
                }
            }
        }
        pipe += 1;
    }
    ep_out
}

/// What a poll makes of the state, which accesses it makes and what it returns.
pub struct PollStep {
    pub state: BusState,
    pub log: Log,
    pub result: PollResult,
}

/// Bit 0 of an endpoint mask, set or not.
pub open spec fn ep0_bit(set: bool) -> u16 {
    if set {
        1
    } else {
        0
    }
}

/// What the USB stack is told of the endpoints.
pub open spec fn report(
    ep_out: u16,
    ep_in_complete: u16,
    ep_setup: u16,
    suspended: bool,
) -> PollResult {
    if ep_setup != 0 || ep_out != 0 || ep_in_complete != 0 {
        PollResult::Data { ep_out, ep_in_complete, ep_setup }
    } else if suspended {
        PollResult::Suspend
    } else {
        PollResult::Idle
    }
}

/// Whether the control transfer reached the status stage of a read.
pub open spec fn in_status_out(latched: UsbEventSnapshot) -> bool {
    latched.ctrt_ctsq & USB_CTSQ == USB_CS_RDSS
}

/// The state once the control transfer reached the status stage of a read.
pub open spec fn status_out_seen(state: BusState) -> BusState {
    BusState { ep0_expect_status_out: false, ep0_short_in_waiting_status: false, ..state }
}

/// What the reports on the control pipe make of the state.
pub open spec fn control_seen(state: BusState, latched: UsbEventSnapshot) -> BusState {
    let data_out = latched.brdysts.0 & USB_BRDY0 != 0 && !state.ep0_setup_ready;
    if !data_out && in_status_out(latched) {
        status_out_seen(state)
    } else {
        state
    }
}

/// What a poll makes of the reports on the endpoints.
#[verifier::opaque]
pub open spec fn endpoints_step(
    state: BusState,
    log: Log,
    latched: UsbEventSnapshot,
    run: Log,
) -> PollStep {
    let bindings = state.pipe_bindings@;
    let log1 = handle_nrdy_log(log, bindings, latched.nrdysts.0, run);
    let (state2, log2) = restart_step(state, log1, LAST_PIPE as nat, run);
    let (state3, log3) = handle_bemp_step(state2, log2, latched.bempsts.0, LAST_PIPE as nat, run);
    let log4 = if latched.intsts0.ctrt() {
        clear_intsts0_log(log3, USB_CTRT)
    } else {
        log3
    };
    let (state5, log5) = stage_setup_step(state3, log4, latched, run);
    let state6 = control_seen(state5, latched);
    let ep0_sent = latched.bempsts.0 & USB_BEMP0 != 0;
    let log6 = if ep0_sent {
        clear_status_log(log5, Reg16::Bempsts, USB_BEMP0)
    } else {
        log5
    };
    let ep0_ready = in_status_out(latched) || (latched.brdysts.0 & USB_BRDY0 != 0
        && !state5.ep0_setup_ready);
    PollStep {
        state: state6,
        log: log6,
        result: report(
            endpoints_ready(bindings, latched.brdysts.0, LAST_PIPE as nat) | ep0_bit(ep0_ready),
            endpoints_sent(bindings, latched.bempsts.0, LAST_PIPE as nat) | ep0_bit(ep0_sent),
            ep0_bit(state5.ep0_setup_ready),
            state.suspended,
        ),
    }
}

fn poll_endpoints<I: Instance>(
    io: &mut Mmio<I>,
    state: &mut BusState,
    latched: &UsbEventSnapshot,
) -> (r: PollResult)
    requires
        old(state).indices_fit(),
    ensures
        grows(old(io).log(), final(io).log()),
        forall|run: Log|
            #![trigger begins(final(io).log(), run)]
            begins(final(io).log(), run) ==> (PollStep {
                state: *final(state),
                log: final(io).log(),
                result: r,
            }) == endpoints_step(*old(state), old(io).log(), *latched, run),
        in_step(old(io).log(), *old(state)) ==> in_step(final(io).log(), *final(state)),
        latch(final(io).log()) == latch(old(io).log()),
        same_endpoints(*old(state), *final(state)),
{
    proof {
        reveal(endpoints_step);
    }
    handle_nrdy(io, state, latched.nrdysts.0);
    restart_receivers(io, state);
    proof {
        lemma_wf_frame(*old(state), *state);
    }
    let mut ep_in_complete: u16 = handle_bemp(io, state, latched.bempsts.0);
    if latched.intsts0.ctrt() {
        regs::clear_ctrt(io);
    }
    stage_setup_packet(io, state, latched);
    let ep_setup: u16 = if state.ep0_setup_ready {
        1
    } else {
        0
    };
    proof {
        lemma_wf_frame(*old(state), *state);
    }
    let mut ep_out: u16 = find_endpoints_ready(state, latched.brdysts.0);
    let mut ep0_out: u16 = 0;
    if latched.brdysts.0 & USB_BRDY0 != 0 && ep_setup == 0 {
        ep0_out = 1;
    } else if latched.ctrt_ctsq & USB_CTSQ == USB_CS_RDSS {
        state.ep0_expect_status_out = false;
        state.ep0_short_in_waiting_status = false;
        ep0_out = 1;
    }
    ep_out = ep_out | ep0_out;
    let ep0_in_complete: u16 = if latched.bempsts.0 & USB_BEMP0 != 0 {
        regs::clear_bemp0(io);
        1
    } else {
        0
    };
    ep_in_complete = ep_in_complete | ep0_in_complete;
    if ep_setup != 0 || ep_out != 0 || ep_in_complete != 0 {
        PollResult::Data { ep_out, ep_in_complete, ep_setup }
    } else if state.suspended {
        PollResult::Suspend
    } else {
        PollResult::Idle
    }
}

/// What a poll makes of the events that were taken from the interrupt handler. A bus reset goes
/// before a resume, and both go before what happened on the endpoints.
pub open spec fn poll_step(
    state: BusState,
    log: Log,
    latched: UsbEventSnapshot,
    run: Log,
) -> PollStep {
    let log1 = if latched.intsts0.dvst() {
        clear_intsts0_log(log, USB_DVST)
    } else {
        log
    };
    let log2 = if latched.intsts0.sofr() {
        clear_intsts0_log(log1, USB_SOFR)
    } else {
        log1
    };
    if latched.intsts0.dvst() && latched.intsts0.in_default_state() {
        PollStep { state, log: log1, result: PollResult::Reset }
    } else if latched.intsts0.resm() {
        PollStep {
            state,
            log: clear_intsts0_log(log2, USB_RESM),
            result: PollResult::Resume,
        }
    } else {
        endpoints_step(state, log2, latched, run)
    }
}

/// Answers events and tells what the USB stack has to know of them.
pub(crate) fn poll_events<I: Instance>(
    io: &mut Mmio<I>,
    state: &mut BusState,
    latched: &UsbEventSnapshot,
) -> (r: PollResult)
    requires
        old(state).indices_fit(),
    ensures
        grows(old(io).log(), final(io).log()),
        forall|run: Log|
            #![trigger begins(final(io).log(), run)]
            begins(final(io).log(), run) ==> (PollStep {
                state: *final(state),
                log: final(io).log(),
                result: r,
            }) == poll_step(*old(state), old(io).log(), *latched, run),
        in_step(old(io).log(), *old(state)) ==> in_step(final(io).log(), *final(state)),
        latch(final(io).log()) == latch(old(io).log()),
        same_endpoints(*old(state), *final(state)),
{
    if latched.intsts0.dvst() {
        regs::clear_dvst(io);
        if latched.intsts0.in_default_state() {
            return PollResult::Reset;
        }
    }
    if latched.intsts0.sofr() {
        regs::clear_sofr(io);
    }
    if latched.intsts0.resm() {
        regs::clear_resm(io);
        return PollResult::Resume;
    }
    poll_endpoints(io, state, latched)
}

} // verus!
