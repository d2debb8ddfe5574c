//! The bus as a USB stack sees it: endpoints, packets and events.
//!
//! Every method comes with a specification function that says what it makes of the state, which
//! accesses it appends to the record and what it returns. See [`crate::mmio`] for how `log` and
//! `run` are to be read.

pub mod allocate;
pub mod allotted;
pub mod answered;
pub mod attentive;
pub mod halted;
pub mod laws;
pub mod payload;
pub mod pipes;
pub mod poll;
pub mod read;
pub mod received;
pub mod released;
pub mod reset;
pub mod set_up;
pub mod stall;
pub mod told;
pub mod write;

use crate::mmio::{begins, grows, in_pending, ld_pending, lemma_begins_itself, Instance, Log};
use crate::summary::{latch, lemma_summary_push, summary, EnableMasks, Latch};
use crate::usb::bus::allocate::{
    alloc_control_ep, allocation, bind, choose_endpoint, control_allocation, granted,
    lemma_control_keeps_wf, lemma_fresh_wf, mark_allocated,
};
use crate::usb::bus::attentive::{
    attends, law_allocation_keeps_attention, law_control_allocation_keeps_attention,
    law_fresh_is_attentive, law_poll_keeps_attention, law_read_keeps_attention,
    law_reset_restores_attention, law_stall_keeps_attention, law_write_keeps_attention,
};
use crate::usb::bus::laws::lemma_pipe_from;
use crate::usb::bus::pipes::{
    find_pipe, in_step, lemma_wf_frame, max_packet_for_pipe, open_pipe, pipe_of, same_endpoints,
};
use crate::usb::bus::poll::{drain_log, poll_events, poll_step, PollStep, DRAIN_LIMIT};
use crate::usb::bus::read::{read_ep0, read_pipe, read_step, ReadStep};
use crate::usb::bus::received::{hands_over, law_read_hands_over_the_packet};
use crate::usb::bus::released::{law_write_releases_the_packet, releases};
use crate::usb::bus::reset::{cleared, reset_bus, reset_step};
use crate::usb::bus::set_up::{is_set_up, law_reset_sets_the_pipes_up};
use crate::usb::bus::stall::{stall_ep0, stall_pipe, stall_step, stalled};
use crate::usb::bus::told::{law_poll_tells_what_happened, tells};
use crate::usb::bus::write::{write_ep0, write_pipe, write_step, Step};
use crate::usb::driver::{attach_log, force_reset_log, take_events_log, taken_event, Driver};
use crate::usb::endpoint::{EndpointAddress, EndpointType, PollResult, UsbDirection, UsbError};
use crate::usb::regs::has_pipes;
use crate::usb::types::{BusState, PipeBinding, UsbEventSnapshot, UsbIrqEvent};
use vstd::prelude::*;

verus! {

broadcast use lemma_summary_push;

/// A bus adapter over the USB driver.
pub struct Bus<I: Instance> {
    pub driver: Driver<I>,
    pub state: BusState,
    pub events: UsbEventSnapshot,
}

impl<I: Instance> Bus<I> {
    /// Everything that was done to the peripheral, oldest first.
    pub open spec fn log(&self) -> Log {
        self.driver.io.log()
    }

    /// The enable masks in the state, in the registers and before the interrupt handler agree, and
    /// the latched event was touched in critical sections only.
    pub open spec fn in_step(&self) -> bool {
        in_step(self.log(), self.state)
    }

    /// Creates a bus adapter around the driver.
    pub fn new(driver: Driver<I>) -> (r: Self)
        ensures
            r.driver == driver,
            r.state == BusState::fresh(),
            r.events == UsbEventSnapshot::none(),
            r.state.wf(),
            r.state.indices_fit(),
            r.state.attentive(),
            summary(driver.io.log()).settled() && summary(driver.io.log()).published
                == EnableMasks::zero() && summary(driver.io.log()).programmed
                == EnableMasks::zero() ==> r.in_step(),
    {
        proof {
            lemma_fresh_wf();
            law_fresh_is_attentive();
        }
        Bus { driver, state: BusState::default(), events: UsbEventSnapshot::default() }
    }

    /// The underlying driver.
    pub fn driver(&self) -> (r: &Driver<I>)
        ensures
            *r == self.driver,
    {
        &self.driver
    }

    /// The underlying driver.
    pub fn driver_mut(&mut self) -> (r: &mut Driver<I>)
        ensures
            *r == old(self).driver,
            final(self).driver == *final(r),
            final(self).state == old(self).state,
            final(self).events == old(self).events,
    {
        &mut self.driver
    }

    /// Merges one captured interrupt event into the snapshot.
    pub fn merge_irq_event(&mut self, event: &UsbIrqEvent)
        ensures
            final(self).events == old(self).events.with_event(*event),
            final(self).driver == old(self).driver,
            final(self).state == old(self).state,
    {
        self.events.merge_irq_event(event);
    }

    /// Takes the snapshot and leaves an empty one behind.
    pub fn take_event_snapshot(&mut self) -> (r: UsbEventSnapshot)
        ensures
            r == old(self).events,
            final(self).events == UsbEventSnapshot::none(),
            final(self).driver == old(self).driver,
            final(self).state == old(self).state,
    {
        let snapshot = self.events;
        self.events = UsbEventSnapshot::default();
        snapshot
    }

    /// The state that endpoint and control logic work on.
    pub fn state(&self) -> (r: &BusState)
        ensures
            *r == self.state,
    {
        &self.state
    }

    fn alloc_non_control_ep(
        &mut self,
        ep_dir: UsbDirection,
        ep_addr: Option<EndpointAddress>,
        ep_type: EndpointType,
        max_packet_size: u16,
    ) -> (r: Result<EndpointAddress, UsbError>)
        requires
            has_pipes(ep_type) && ep_addr is Some && ep_addr->0.direction() == ep_dir
                ==> ep_addr->0.index() < 16,
        ensures
            grows(old(self).log(), final(self).log()),
            final(self).events == old(self).events,
            final(self).driver.same_settings(&old(self).driver),
            granted(
                allocation(old(self).state, ep_dir, ep_addr, ep_type, max_packet_size),
                ep_dir,
                old(self).state,
                old(self).log(),
                final(self).state,
                final(self).log(),
                r,
            ),
            latch(final(self).log()) == latch(old(self).log()),
            old(self).in_step() ==> final(self).in_step(),
            old(self).state.wf() ==> final(self).state.wf(),
            old(self).state.indices_fit() ==> final(self).state.indices_fit(),
    {
        let (index, pipe) = match choose_endpoint(&self.state, ep_dir, ep_addr, ep_type) {
            Ok(chosen) => chosen,
            Err(error) => {
                return Err(error);
            },
        };
        let max_packet: u16 = match max_packet_for_pipe(ep_type, pipe, max_packet_size) {
            Ok(size) => size,
            Err(error) => {
                mark_allocated(&mut self.state, ep_dir, index);
                return Err(error);
            },
        };
        let binding = PipeBinding {
            ep_addr: EndpointAddress::from_parts(index, ep_dir),
            ep_type,
            max_packet,
        };
        bind(&mut self.state, ep_dir, index, pipe, binding);
        let ghost bound = self.state;
        open_pipe(&mut self.driver.io, &mut self.state, pipe, binding);
        proof {
            lemma_wf_frame(bound, self.state);
        }
        Ok(binding.ep_addr)
    }

    /// Allocates an endpoint.
    ///
    /// The interval takes no part: the host learns it from the descriptors.
    pub fn alloc_ep(
        &mut self,
        ep_dir: UsbDirection,
        ep_addr: Option<EndpointAddress>,
        ep_type: EndpointType,
        max_packet_size: u16,
        _interval: u8,
    ) -> (r: Result<EndpointAddress, UsbError>)
        requires
            has_pipes(ep_type) && ep_addr is Some && ep_addr->0.direction() == ep_dir
                ==> ep_addr->0.index() < 16,
        ensures
            grows(old(self).log(), final(self).log()),
            final(self).events == old(self).events,
            final(self).driver.same_settings(&old(self).driver),
            ep_type == EndpointType::Control ==> {
                &&& (final(self).state, r) == control_allocation(
                    old(self).state,
                    ep_dir,
                    ep_addr,
                    max_packet_size,
                )
                &&& final(self).log() == old(self).log()
            },
            ep_type != EndpointType::Control ==> granted(
                allocation(old(self).state, ep_dir, ep_addr, ep_type, max_packet_size),
                ep_dir,
                old(self).state,
                old(self).log(),
                final(self).state,
                final(self).log(),
                r,
            ),
            latch(final(self).log()) == latch(old(self).log()),
            old(self).in_step() ==> final(self).in_step(),
            old(self).state.wf() ==> final(self).state.wf(),
            old(self).state.indices_fit() ==> final(self).state.indices_fit(),
            old(self).state.attentive() ==> final(self).state.attentive(),
    {
        if ep_type != EndpointType::Control {
            let r = self.alloc_non_control_ep(ep_dir, ep_addr, ep_type, max_packet_size);
            proof {
                if old(self).state.attentive() {
                    law_allocation_keeps_attention(
                        old(self).state,
                        ep_dir,
                        ep_addr,
                        ep_type,
                        max_packet_size,
                        old(self).log(),
                        self.state,
                        self.log(),
                        r,
                    );
                }
            }
            return r;
        }
        proof {
            lemma_control_keeps_wf(self.state, ep_dir, ep_addr, max_packet_size);
            if self.state.attentive() {
                law_control_allocation_keeps_attention(
                    self.state,
                    ep_dir,
                    ep_addr,
                    max_packet_size,
                );
            }
        }
        alloc_control_ep(&mut self.state, ep_dir, ep_addr, max_packet_size)
    }

    /// Resets the bus and shows the device to the host.
    pub fn enable(&mut self)
        ensures
            grows(old(self).log(), final(self).log()),
            forall|run: Log|
                #![trigger begins(final(self).log(), run)]
                begins(final(self).log(), run) ==> {
                    let (state, log) = reset_step(old(self).state, old(self).log(), run);
                    final(self).state == state && final(self).log() == attach_log(log, run)
                },
            final(self).events == UsbEventSnapshot::none(),
            final(self).driver.attached,
            final(self).driver.irq_enabled == old(self).driver.irq_enabled,
            final(self).driver.config == old(self).driver.config,
            final(self).state == cleared(old(self).state).with_masks(final(self).state.masks()),
            latch(final(self).log()) == (Latch {
                event: UsbIrqEvent::none(),
                pending: false,
                ..latch(old(self).log())
            }),
            summary(old(self).log()).settled() ==> final(self).in_step(),
            final(self).state.wf() == old(self).state.wf(),
            final(self).state.indices_fit() == old(self).state.indices_fit(),
            final(self).state.attentive(),
    {
        self.reset();
        self.driver.attach();
    }

    /// Brings the bus back to where it was after allocation: every allocated endpoint is set up
    /// anew, and all else is forgotten.
    pub fn reset(&mut self)
        ensures
            grows(old(self).log(), final(self).log()),
            forall|run: Log|
                #![trigger begins(final(self).log(), run)]
                begins(final(self).log(), run) ==> (final(self).state, final(self).log())
                    == reset_step(old(self).state, old(self).log(), run),
            forall|pipe: int|
                old(self).state.wf() && 1 <= pipe <= 9 ==> is_set_up(
                    final(self).log(),
                    pipe,
                    #[trigger] old(self).state.pipe_bindings@[pipe],
                ),
            final(self).events == UsbEventSnapshot::none(),
            final(self).driver.same_settings(&old(self).driver),
            final(self).state == cleared(old(self).state).with_masks(final(self).state.masks()),
            latch(final(self).log()) == (Latch {
                event: UsbIrqEvent::none(),
                pending: false,
                ..latch(old(self).log())
            }),
            summary(old(self).log()).settled() ==> final(self).in_step(),
            final(self).state.wf() == old(self).state.wf(),
            final(self).state.indices_fit() == old(self).state.indices_fit(),
            final(self).state.attentive(),
    {
        reset_bus(&mut self.driver.io, &mut self.state);
        self.events = UsbEventSnapshot::default();
        proof {
            lemma_wf_frame(old(self).state, self.state);
            lemma_begins_itself(self.log());
            law_reset_restores_attention(old(self).state, old(self).log(), self.log());
            assert forall|pipe: int| old(self).state.wf() && 1 <= pipe <= 9 implies is_set_up(
                self.log(),
                pipe,
                #[trigger] old(self).state.pipe_bindings@[pipe],
            ) by {
                law_reset_sets_the_pipes_up(old(self).state, old(self).log(), self.log(), pipe);
            }
        }
    }

    /// Does nothing: the peripheral takes its address from the SET_ADDRESS request by itself.
    pub fn set_device_address(&mut self, _addr: u8)
        ensures
            *final(self) == *old(self),
    {
    }

    /// Sends a packet on an endpoint. Returns how many bytes of `buf` it took.
    pub fn write(&mut self, ep_addr: EndpointAddress, buf: &[u8]) -> (r: Result<usize, UsbError>)
        ensures
            grows(old(self).log(), final(self).log()),
            forall|run: Log|
                #![trigger begins(final(self).log(), run)]
                begins(final(self).log(), run) ==> (Step {
                    state: final(self).state,
                    log: final(self).log(),
                    result: r,
                }) == write_step(old(self).state, old(self).log(), ep_addr, buf@, run),
            forall|pipe: int|
                r is Ok && old(self).state.wf() && 1 <= pipe <= 9 && (
                #[trigger] old(self).state.pipe_bindings@[pipe]) is Some
                    && old(self).state.pipe_bindings@[pipe]->0.ep_addr == ep_addr ==> releases(
                    old(self).log(),
                    final(self).log(),
                    pipe,
                    old(self).state.pipe_bindings@[pipe]->0.max_packet as int,
                    buf@,
                    r->Ok_0 as int,
                ),
            final(self).events == old(self).events,
            final(self).driver.same_settings(&old(self).driver),
            same_endpoints(old(self).state, final(self).state),
            latch(final(self).log()) == latch(old(self).log()),
            old(self).in_step() ==> final(self).in_step(),
            final(self).state.wf() == old(self).state.wf(),
            final(self).state.indices_fit() == old(self).state.indices_fit(),
            old(self).state.attentive() ==> final(self).state.attentive(),
    {
        let r = if ep_addr.direction() != UsbDirection::In {
            Err(UsbError::InvalidEndpoint)
        } else if ep_addr.index() == 0 {
            write_ep0(&mut self.driver.io, &mut self.state, buf)
        } else {
            match find_pipe(&self.state, ep_addr) {
                Some((pipe, binding)) => write_pipe(
                    &mut self.driver.io,
                    &mut self.state,
                    pipe,
                    binding.max_packet,
                    buf,
                ),
                None => Err(UsbError::InvalidEndpoint),
            }
        };
        proof {
            lemma_wf_frame(old(self).state, self.state);
            lemma_begins_itself(self.log());
            if old(self).state.attentive() {
                law_write_keeps_attention(
                    old(self).state,
                    old(self).log(),
                    ep_addr,
                    buf@,
                    self.log(),
                );
            }
            assert(buf.len() == buf@.len());
            assert forall|pipe: int|
                r is Ok && old(self).state.wf() && 1 <= pipe <= 9 && (
                #[trigger] old(self).state.pipe_bindings@[pipe]) is Some
                    && old(self).state.pipe_bindings@[pipe]->0.ep_addr == ep_addr implies releases(
                old(self).log(),
                self.log(),
                pipe,
                old(self).state.pipe_bindings@[pipe]->0.max_packet as int,
                buf@,
                r->Ok_0 as int,
            ) by {
                law_write_releases_the_packet(
                    old(self).state,
                    old(self).log(),
                    ep_addr,
                    buf@,
                    self.log(),
                    pipe,
                );
            }
        }
        r
    }

    /// Receives a packet on an endpoint into the beginning of `buf`. Returns its length.
    pub fn read(&mut self, ep_addr: EndpointAddress, buf: &mut [u8]) -> (r: Result<usize, UsbError>)
        ensures
            grows(old(self).log(), final(self).log()),
            forall|run: Log|
                #![trigger begins(final(self).log(), run)]
                begins(final(self).log(), run) ==> (ReadStep {
                    state: final(self).state,
                    log: final(self).log(),
                    result: r,
                    buf: final(buf)@,
                }) == read_step(old(self).state, old(self).log(), ep_addr, old(buf)@, run),
            r is Ok && (ep_addr.0 == 0 ==> !old(self).state.ep0_setup_ready && old(buf)@.len() > 0)
                ==> hands_over(old(self).log(), final(self).log(), final(buf)@, r->Ok_0 as int),
            final(self).events == old(self).events,
            final(self).driver.same_settings(&old(self).driver),
            same_endpoints(old(self).state, final(self).state),
            latch(final(self).log()) == latch(old(self).log()),
            old(self).in_step() ==> final(self).in_step(),
            final(self).state.wf() == old(self).state.wf(),
            final(self).state.indices_fit() == old(self).state.indices_fit(),
            old(self).state.attentive() ==> final(self).state.attentive(),
    {
        let r = if ep_addr.direction() != UsbDirection::Out {
            Err(UsbError::InvalidEndpoint)
        } else if ep_addr.index() == 0 {
            read_ep0(&mut self.driver.io, &mut self.state, buf)
        } else {
            match find_pipe(&self.state, ep_addr) {
                Some((pipe, binding)) => read_pipe(
                    &mut self.driver.io,
                    &mut self.state,
                    pipe,
                    binding.max_packet,
                    buf,
                ),
                None => Err(UsbError::InvalidEndpoint),
            }
        };
        proof {
            lemma_wf_frame(old(self).state, self.state);
            lemma_begins_itself(self.log());
            if old(self).state.attentive() {
                law_read_keeps_attention(
                    old(self).state,
                    old(self).log(),
                    ep_addr,
                    old(buf)@,
                    self.log(),
                );
            }
            if r is Ok && (ep_addr.0 == 0 ==> !old(self).state.ep0_setup_ready && old(buf)@.len()
                > 0) {
                assert(old(buf).len() == old(buf)@.len());
                law_read_hands_over_the_packet(
                    old(self).state,
                    old(self).log(),
                    ep_addr,
                    old(buf)@,
                    self.log(),
                );
            }
        }
        r
    }

    /// Stalls an endpoint or ends its stall. Does nothing to an endpoint that is not allocated.
    pub fn set_stalled(&mut self, ep_addr: EndpointAddress, stalled: bool)
        requires
            old(self).state.indices_fit(),
        ensures
            grows(old(self).log(), final(self).log()),
            forall|run: Log|
                #![trigger begins(final(self).log(), run)]
                begins(final(self).log(), run) ==> (final(self).state, final(self).log())
                    == stall_step(old(self).state, old(self).log(), ep_addr, stalled, run),
            final(self).events == old(self).events,
            final(self).driver.same_settings(&old(self).driver),
            same_endpoints(old(self).state, final(self).state),
            latch(final(self).log()) == latch(old(self).log()),
            old(self).in_step() ==> final(self).in_step(),
            final(self).state.wf() == old(self).state.wf(),
            final(self).state.indices_fit(),
            old(self).state.attentive() ==> final(self).state.attentive(),
    {
        if ep_addr.index() == 0 {
            stall_ep0(&mut self.driver.io, &mut self.state, stalled);
        } else {
            match find_pipe(&self.state, ep_addr) {
                Some((pipe, binding)) => {
                    proof {
                        reveal(BusState::indices_fit);
                    }
                    stall_pipe(
                        &mut self.driver.io,
                        &mut self.state,
                        pipe,
                        binding,
                        ep_addr,
                        stalled,
                    );
                },
                None => {},
            }
        }
        proof {
            lemma_wf_frame(old(self).state, self.state);
            assert(pipe_of(old(self).state.pipe_bindings@, ep_addr) is Some ==> ep_addr.index()
                < 16) by {
                reveal(BusState::indices_fit);
                lemma_pipe_from(old(self).state.pipe_bindings@, ep_addr, 1);
            }
            lemma_begins_itself(self.log());
            if old(self).state.attentive() {
                law_stall_keeps_attention(
                    old(self).state,
                    old(self).log(),
                    ep_addr,
                    stalled,
                    self.log(),
                );
            }
        }
    }

    /// Whether an endpoint is stalled.
    pub fn is_stalled(&self, ep_addr: EndpointAddress) -> (r: bool)
        requires
            ep_addr.index() < 16,
        ensures
            r == stalled(self.state, ep_addr),
    {
        if ep_addr.index() == 0 {
            return self.state.ep0_stalled;
        }
        let bit: u16 = 1u16 << ep_addr.index();
        match ep_addr.direction() {
            UsbDirection::In => self.state.stalled_in_mask & bit != 0,
            UsbDirection::Out => self.state.stalled_out_mask & bit != 0,
        }
    }

    /// Remembers that the bus is suspended.
    pub fn suspend(&mut self)
        ensures
            final(self).state == (BusState { suspended: true, ..old(self).state }),
            final(self).driver == old(self).driver,
            final(self).events == old(self).events,
            final(self).in_step() == old(self).in_step(),
            final(self).state.wf() == old(self).state.wf(),
            final(self).state.indices_fit() == old(self).state.indices_fit(),
            old(self).state.attentive() ==> final(self).state.attentive(),
    {
        self.state.suspended = true;
        proof {
            lemma_wf_frame(old(self).state, self.state);
            reveal(BusState::attentive);
            assert(forall|pipe: int| #[trigger]
                attends(self.state, pipe) == attends(old(self).state, pipe));
        }
    }

    /// Remembers that the bus is no longer suspended.
    pub fn resume(&mut self)
        ensures
            final(self).state == (BusState { suspended: false, ..old(self).state }),
            final(self).driver == old(self).driver,
            final(self).events == old(self).events,
            final(self).in_step() == old(self).in_step(),
            final(self).state.wf() == old(self).state.wf(),
            final(self).state.indices_fit() == old(self).state.indices_fit(),
            old(self).state.attentive() ==> final(self).state.attentive(),
    {
        self.state.suspended = false;
        proof {
            lemma_wf_frame(old(self).state, self.state);
            reveal(BusState::attentive);
            assert(forall|pipe: int| #[trigger]
                attends(self.state, pipe) == attends(old(self).state, pipe));
        }
    }

    /// Takes the latched event over into the snapshot, if one is latched. Returns whether one was.
    fn absorb_irq_event(&mut self) -> (r: bool)
        ensures
            grows(old(self).log(), final(self).log()),
            forall|run: Log|
                #![trigger begins(final(self).log(), run)]
                begins(final(self).log(), run) ==> {
                    let log1 = ld_pending(old(self).log(), run);
                    &&& r == in_pending(old(self).log(), run)
                    &&& final(self).log() == if r {
                        take_events_log(log1, run)
                    } else {
                        log1
                    }
                    &&& final(self).events == if r {
                        old(self).events.with_event(taken_event(log1, run))
                    } else {
                        old(self).events
                    }
                },
            final(self).state == old(self).state,
            final(self).driver.same_settings(&old(self).driver),
            r ==> latch(final(self).log()).event == UsbIrqEvent::none(),
            !r ==> latch(final(self).log()).event == latch(old(self).log()).event,
            latch(final(self).log()).faithful ==> {
                &&& latch(old(self).log()).faithful
                &&& r == latch(old(self).log()).pending
                &&& !latch(final(self).log()).pending
            },
            old(self).in_step() ==> final(self).in_step(),
    {
        if !self.driver.irq_pending() {
            return false;
        }
        let event = self.driver.take_events();
        self.merge_irq_event(&event);
        true
    }

    /// Takes latched events over into the snapshot until none is pending.
    fn drain_irq_events(&mut self)
        ensures
            grows(old(self).log(), final(self).log()),
            forall|run: Log|
                #![trigger begins(final(self).log(), run)]
                begins(final(self).log(), run) ==> (final(self).log(), final(self).events)
                    == drain_log(old(self).log(), old(self).events, DRAIN_LIMIT as nat, run),
            final(self).state == old(self).state,
            final(self).driver.same_settings(&old(self).driver),
            latch(final(self).log()).faithful ==> !latch(final(self).log()).pending,
            latch(final(self).log()).faithful && latch(old(self).log()).announced() ==> latch(
                final(self).log(),
            ).event.is_empty(),
            old(self).in_step() ==> final(self).in_step(),
    {
        proof {
            reveal(drain_log);
        }
        let mut taken: u64 = 0;
        while taken < DRAIN_LIMIT
            invariant
                taken <= DRAIN_LIMIT,
                grows(old(self).log(), self.log()),
                forall|run: Log|
                    #![trigger begins(self.log(), run)]
                    begins(self.log(), run) ==> drain_log(
                        old(self).log(),
                        old(self).events,
                        DRAIN_LIMIT as nat,
                        run,
                    ) == drain_log(self.log(), self.events, (DRAIN_LIMIT - taken) as nat, run),
                self.state == old(self).state,
                self.driver.same_settings(&old(self).driver),
                taken == 0 ==> latch(self.log()) == latch(old(self).log()),
                taken > 0 ==> latch(self.log()).event == UsbIrqEvent::none(),
                taken > 0 && latch(self.log()).faithful ==> !latch(self.log()).pending,
                old(self).in_step() ==> self.in_step(),
            decreases DRAIN_LIMIT - taken,
        {
            proof {
                reveal(drain_log);
            }
            if !self.absorb_irq_event() {
                return ;
            }
            taken += 1;
        }
    }

    /// Takes all pending events over from the interrupt handler, answers them, and tells what the
    /// USB stack has to know.
    pub fn poll(&mut self) -> (r: PollResult)
        requires
            old(self).state.indices_fit(),
        ensures
            grows(old(self).log(), final(self).log()),
            forall|run: Log|
                #![trigger begins(final(self).log(), run)]
                begins(final(self).log(), run) ==> {
                    let (log, events) = drain_log(
                        old(self).log(),
                        old(self).events,
                        DRAIN_LIMIT as nat,
                        run,
                    );
                    (PollStep {
                        state: final(self).state,
                        log: final(self).log(),
                        result: r,
                    }) == poll_step(old(self).state, log, events, run)
                },
            old(self).state.wf() ==> tells(
                old(self).state,
                drain_log(
                    old(self).log(),
                    old(self).events,
                    DRAIN_LIMIT as nat,
                    final(self).log(),
                ).1,
                r,
            ),
            final(self).events == UsbEventSnapshot::none(),
            final(self).driver.same_settings(&old(self).driver),
            same_endpoints(old(self).state, final(self).state),
            latch(final(self).log()).faithful ==> !latch(final(self).log()).pending,
            latch(final(self).log()).faithful && latch(old(self).log()).announced() ==> latch(
                final(self).log(),
            ).event.is_empty(),
            old(self).in_step() ==> final(self).in_step(),
            final(self).state.wf() == old(self).state.wf(),
            final(self).state.indices_fit(),
            old(self).state.attentive() ==> final(self).state.attentive(),
    {
        self.drain_irq_events();
        let ghost drained = self.log();
        let latched = self.take_event_snapshot();
        let r = poll_events(&mut self.driver.io, &mut self.state, &latched);
        proof {
            lemma_wf_frame(old(self).state, self.state);
            lemma_begins_itself(self.log());
            if old(self).state.attentive() {
                law_poll_keeps_attention(old(self).state, drained, latched, self.log());
            }
            if old(self).state.wf() {
                law_poll_tells_what_happened(old(self).state, drained, latched, self.log());
            }
        }
        r
    }

    /// Leaves the bus and joins it again, so that the host enumerates the device anew.
    pub fn force_reset(&mut self) -> (r: Result<(), UsbError>)
        ensures
            r == Ok::<(), UsbError>(()),
            grows(old(self).log(), final(self).log()),
            forall|run: Log|
                #![trigger begins(final(self).log(), run)]
                begins(final(self).log(), run) ==> final(self).log() == force_reset_log(
                    old(self).log(),
                    run,
                ),
            final(self).driver.attached,
            final(self).driver.irq_enabled == old(self).driver.irq_enabled,
            final(self).driver.config == old(self).driver.config,
            final(self).state == old(self).state,
            final(self).events == old(self).events,
            latch(final(self).log()) == latch(old(self).log()),
            old(self).in_step() ==> final(self).in_step(),
    {
        match self.driver.force_reset() {
            Ok(_) => Ok(()),
            Err(_) => Err(UsbError::Unsupported),
        }
    }
}

} // verus!
