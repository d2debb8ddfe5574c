//! Bus reset.

use crate::bits::lemma_word;
use crate::mmio::{begins, grows, in16, rd16, wr16, Instance, Log, Mmio, Reg16};
use crate::summary::{latch, lemma_summary_push, summary, EnableMasks, Latch, Summary};
use crate::usb::bus::pipes::{in_step, open_log, open_pipe, opened, LAST_PIPE};
use crate::usb::driver::{clear_capture_state_log, Driver};
use crate::usb::regs;
use crate::usb::regs::{
    setup_pipe_log, write_masks_log, USB_DPRPU, USB_MBW_16, USB_MBW_8, USB_SCKE, USB_SQCLR,
    USB_SQSET, USB_USBE,
};
use crate::usb::types::{BusState, UsbIrqEvent};
use vstd::prelude::*;

verus! {

broadcast use lemma_summary_push;

/// What a bus reset leaves of the state, before the pipes are set up again: the allocations, with
/// the control pipe reporting nothing but that it was not ready.
pub open spec fn cleared(state: BusState) -> BusState {
    BusState {
        ep0_stalled: false,
        stalled_in_mask: 0,
        stalled_out_mask: 0,
        ep0_last_setup_dir_out: false,
        ep0_setup_pending: false,
        ep0_setup_ready: false,
        ep0_short_in_waiting_status: false,
        ep0_expect_status_out: false,
        suspended: false,
        in_busy_mask: 0,
        brdyenb_shadow: 0,
        nrdyenb_shadow: 1,
        bempenb_shadow: 0,
        ..state
    }
}

/// `log` followed by what brings the registers of the bus back to their initial state. Of the
/// system configuration only operation, pull-up and clock are kept.
#[verifier::opaque]
pub open spec fn reset_registers_log(log: Log, ep0_max_packet: u16, run: Log) -> Log {
    let log1 = rd16(log, Reg16::Syscfg, run);
    let log2 = wr16(log1, Reg16::Dvstctr0, 0);
    let log3 = wr16(log2, Reg16::Dcpctr, USB_SQSET);
    let log4 = wr16(log3, Reg16::Brdyenb, 0);
    let log5 = wr16(log4, Reg16::Nrdyenb, 0);
    let log6 = wr16(log5, Reg16::Bempenb, 0);
    let log7 = wr16(log6, Reg16::Brdysts, 0);
    let log8 = wr16(log7, Reg16::Nrdysts, 0);
    let log9 = wr16(log8, Reg16::Bempsts, 0);
    let log10 = wr16(
        log9,
        Reg16::Syscfg,
        in16(log, run) & (USB_USBE | USB_DPRPU | USB_SCKE),
    );
    let log11 = wr16(log10, Reg16::Dcpcfg, 0);
    let log12 = wr16(log11, Reg16::Dcpmaxp, ep0_max_packet);
    let log13 = wr16(log12, Reg16::Cfifosel, USB_MBW_8);
    let log14 = wr16(log13, Reg16::D0fifosel, USB_MBW_16);
    wr16(log14, Reg16::D1fifosel, USB_MBW_8)
}

/// Brings the registers of the bus back to their initial state.
pub(crate) fn reset_registers<I: Instance>(io: &mut Mmio<I>, ep0_max_packet: u16)
    ensures
        grows(old(io).log(), final(io).log()),
        summary(final(io).log()) == (Summary {
            programmed: EnableMasks::zero(),
            ..summary(old(io).log())
        }),
        forall|run: Log|
            #![trigger begins(final(io).log(), run)]
            begins(final(io).log(), run) ==> final(io).log() == reset_registers_log(
                old(io).log(),
                ep0_max_packet,
                run,
            ),
{
    proof {
        reveal(reset_registers_log);
    }
    let live_syscfg: u16 = io.read16(Reg16::Syscfg);
    io.write16(Reg16::Dvstctr0, 0);
    io.write16(Reg16::Dcpctr, USB_SQSET);
    io.write16(Reg16::Brdyenb, 0);
    io.write16(Reg16::Nrdyenb, 0);
    io.write16(Reg16::Bempenb, 0);
    io.write16(Reg16::Brdysts, 0);
    io.write16(Reg16::Nrdysts, 0);
    io.write16(Reg16::Bempsts, 0);
    io.write16(Reg16::Syscfg, live_syscfg & (USB_USBE | USB_DPRPU | USB_SCKE));
    io.write16(Reg16::Dcpcfg, 0);
    io.write16(Reg16::Dcpmaxp, ep0_max_packet);
    io.write16(Reg16::Cfifosel, USB_MBW_8);
    io.write16(Reg16::D0fifosel, USB_MBW_16);
    io.write16(Reg16::D1fifosel, USB_MBW_8);
}

/// Brings the state back to what a bus reset leaves and publishes the interrupt enable masks.
pub(crate) fn clear_state<I: Instance>(io: &mut Mmio<I>, state: &mut BusState)
    ensures
        grows(old(io).log(), final(io).log()),
        *final(state) == cleared(*old(state)),
        summary(final(io).log()) == summary(old(io).log()).with_masks(final(state).masks()),
        final(io).log() == write_masks_log(old(io).log(), cleared(*old(state)).masks()),
{
    state.ep0_stalled = false;
    state.stalled_in_mask = 0;
    state.stalled_out_mask = 0;
    state.ep0_short_in_waiting_status = false;
    state.ep0_setup_pending = false;
    state.ep0_setup_ready = false;
    state.ep0_last_setup_dir_out = false;
    state.ep0_expect_status_out = false;
    state.suspended = false;
    state.in_busy_mask = 0;
    state.brdyenb_shadow = 0;
    state.nrdyenb_shadow = 0;
    state.bempenb_shadow = 0;
    proof {
        lemma_word(0);
        lemma_word(1);
        lemma_word(!1u16);
    }
    regs::update_brdyenb(io, &mut state.brdyenb_shadow, 0, 1u16);
    regs::update_nrdyenb(io, &mut state.nrdyenb_shadow, 1u16, 0);
    regs::update_bempenb(io, &mut state.bempenb_shadow, 0, 1u16);
}

/// `log` followed by what takes the first `n` pipes out of use.
pub open spec fn clear_pipes_log(log: Log, n: nat, run: Log) -> Log
    decreases n,
{
    if n == 0 {
        log
    } else {
        setup_pipe_log(clear_pipes_log(log, (n - 1) as nat, run), n as u8, 0, 0, run)
    }
}

/// Takes all pipes out of use.
pub(crate) fn clear_pipes<I: Instance>(io: &mut Mmio<I>)
    ensures
        grows(old(io).log(), final(io).log()),
        summary(final(io).log()) == summary(old(io).log()),
        forall|run: Log|
            #![trigger begins(final(io).log(), run)]
            begins(final(io).log(), run) ==> final(io).log() == clear_pipes_log(
                old(io).log(),
                LAST_PIPE as nat,
                run,
            ),
{
    let mut pipe: u8 = 1;
    while pipe <= LAST_PIPE
        invariant
            1 <= pipe <= 10,
            grows(old(io).log(), io.log()),
            summary(io.log()) == summary(old(io).log()),
            forall|run: Log|
                #![trigger begins(io.log(), run)]
                begins(io.log(), run) ==> io.log() == clear_pipes_log(
                    old(io).log(),
                    (pipe - 1) as nat,
                    run,
                ),
        decreases 10 - pipe,
    {
        regs::clear_pipe_config(io, pipe);
        pipe += 1;
    }
}

/// What setting up the first `n` pipes for the endpoints bound to them makes of the state, and the
/// accesses that it takes.
pub open spec fn reopen_step(state: BusState, log: Log, n: nat, run: Log) -> (BusState, Log)
    decreases n,
{
    if n == 0 {
        (state, log)
    } else {
        let (state1, log1) = reopen_step(state, log, (n - 1) as nat, run);
        match state.pipe_bindings@[n as int] {
            Some(binding) => (
                opened(state1, n as u8, binding),
                open_log(state1, log1, n as u8, binding, run),
            ),
            None => (state1, log1),
        }
    }
}

/// Sets up all pipes for the endpoints bound to them.
pub(crate) fn reopen_pipes<I: Instance>(io: &mut Mmio<I>, state: &mut BusState)
    ensures
        grows(old(io).log(), final(io).log()),
        forall|run: Log|
            #![trigger begins(final(io).log(), run)]
            begins(final(io).log(), run) ==> (*final(state), final(io).log()) == reopen_step(
                *old(state),
                old(io).log(),
                LAST_PIPE as nat,
                run,
            ),
        in_step(old(io).log(), *old(state)) ==> in_step(final(io).log(), *final(state)),
        latch(final(io).log()) == latch(old(io).log()),
        *final(state) == old(state).with_masks(final(state).masks()),
{
    let mut pipe: u8 = 1;
    while pipe <= LAST_PIPE
        invariant
            1 <= pipe <= 10,
            grows(old(io).log(), io.log()),
            forall|run: Log|
                #![trigger begins(io.log(), run)]
                begins(io.log(), run) ==> (*state, io.log()) == reopen_step(
                    *old(state),
                    old(io).log(),
                    (pipe - 1) as nat,
                    run,
                ),
            in_step(old(io).log(), *old(state)) ==> in_step(io.log(), *state),
            latch(io.log()) == latch(old(io).log()),
            *state == old(state).with_masks(state.masks()),
        decreases 10 - pipe,
    {
        if let Some(binding) = state.pipe_bindings[pipe as usize] {
            open_pipe(io, state, pipe, binding);
        }
        pipe += 1;
    }
}

/// What a bus reset makes of the state, and the accesses that it takes: what was allocated stays
/// allocated and is set up anew, all else is forgotten.
#[verifier::opaque]
pub open spec fn reset_step(state: BusState, log: Log, run: Log) -> (BusState, Log) {
    let log1 = clear_capture_state_log(log, run);
    let log2 = reset_registers_log(log1, state.ep0_max_packet, run);
    let log3 = write_masks_log(log2, cleared(state).masks());
    let log4 = wr16(log3, Reg16::Dcpctr, USB_SQCLR);
    let log5 = clear_pipes_log(log4, LAST_PIPE as nat, run);
    reopen_step(cleared(state), log5, LAST_PIPE as nat, run)
}

pub(crate) fn reset_bus<I: Instance>(io: &mut Mmio<I>, state: &mut BusState)
    ensures
        grows(old(io).log(), final(io).log()),
        forall|run: Log|
            #![trigger begins(final(io).log(), run)]
            begins(final(io).log(), run) ==> (*final(state), final(io).log()) == reset_step(
                *old(state),
                old(io).log(),
                run,
            ),
        summary(old(io).log()).settled() ==> in_step(final(io).log(), *final(state)),
        latch(final(io).log()) == (Latch {
            event: UsbIrqEvent::none(),
            pending: false,
            ..latch(old(io).log())
        }),
        *final(state) == cleared(*old(state)).with_masks(final(state).masks()),
{
    proof {
        reveal(reset_step);
    }
    Driver::<I>::clear_capture_state_static(io);
    reset_registers(io, state.ep0_max_packet);
    clear_state(io, state);
    io.write16(Reg16::Dcpctr, USB_SQCLR);
    clear_pipes(io);
    reopen_pipes(io, state);
}

} // verus!
