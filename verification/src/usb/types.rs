//! State and events of the USB device controller.

use crate::bits::{lemma_join, lemma_word};
use crate::usb::endpoint::{EndpointAddress, EndpointType};
use crate::usb::regs::{
    USB_CTRT, USB_CTSQ, USB_DS_DFLT, USB_DVSQ, USB_DVST, USB_RESM, USB_SOFR, USB_VALID,
};
use vstd::prelude::*;

verus! {

/// Error of the USB driver.
#[derive(Clone, Copy, Debug, PartialEq, Eq, Structural)]
pub enum Error {
    UnsupportedClock,
    EndpointOverflow,
    InvalidEndpoint,
    Busy,
}

impl Default for Error {
    fn default() -> (r: Self)
        ensures
            r == Error::UnsupportedClock,
    {
        Error::UnsupportedClock
    }
}

/// Value of the interrupt status register 0.
#[derive(Clone, Copy, Debug, PartialEq, Eq, Structural)]
pub struct Intsts0(pub u16);

/// Value of the interrupt status register 1.
#[derive(Clone, Copy, Debug, PartialEq, Eq, Structural)]
pub struct Intsts1(pub u16);

/// Value of the buffer ready status register, one bit per pipe.
#[derive(Clone, Copy, Debug, PartialEq, Eq, Structural)]
pub struct Brdysts(pub u16);

/// Value of the buffer not ready status register, one bit per pipe.
#[derive(Clone, Copy, Debug, PartialEq, Eq, Structural)]
pub struct Nrdysts(pub u16);

/// Value of the buffer empty status register, one bit per pipe.
#[derive(Clone, Copy, Debug, PartialEq, Eq, Structural)]
pub struct Bempsts(pub u16);

impl Intsts0 {
    pub open spec fn ctsq_spec(&self) -> u16 {
        self.0 & USB_CTSQ
    }

    pub open spec fn valid_spec(&self) -> bool {
        self.0 & USB_VALID != 0
    }

    pub open spec fn in_default_state_spec(&self) -> bool {
        self.0 & USB_DVSQ == USB_DS_DFLT
    }

    pub open spec fn ctrt_spec(&self) -> bool {
        self.0 & USB_CTRT != 0
    }

    pub open spec fn dvst_spec(&self) -> bool {
        self.0 & USB_DVST != 0
    }

    pub open spec fn sofr_spec(&self) -> bool {
        self.0 & USB_SOFR != 0
    }

    pub open spec fn resm_spec(&self) -> bool {
        self.0 & USB_RESM != 0
    }

    /// Stage of the control transfer.
    #[verifier::when_used_as_spec(ctsq_spec)]
    pub fn ctsq(&self) -> (r: u16)
        ensures
            r == self.ctsq_spec(),
    {
        self.0 & USB_CTSQ
    }

    /// A SETUP packet was received.
    #[verifier::when_used_as_spec(valid_spec)]
    pub fn valid(&self) -> (r: bool)
        ensures
            r == self.valid_spec(),
    {
        self.0 & USB_VALID != 0
    }

    /// The device is in the default state, which it enters on a bus reset.
    #[verifier::when_used_as_spec(in_default_state_spec)]
    pub fn in_default_state(&self) -> (r: bool)
        ensures
            r == self.in_default_state_spec(),
    {
        self.0 & USB_DVSQ == USB_DS_DFLT
    }

    /// The control transfer changed its stage.
    #[verifier::when_used_as_spec(ctrt_spec)]
    pub fn ctrt(&self) -> (r: bool)
        ensures
            r == self.ctrt_spec(),
    {
        self.0 & USB_CTRT != 0
    }

    /// The device changed its state.
    #[verifier::when_used_as_spec(dvst_spec)]
    pub fn dvst(&self) -> (r: bool)
        ensures
            r == self.dvst_spec(),
    {
        self.0 & USB_DVST != 0
    }

    /// The frame number was updated.
    #[verifier::when_used_as_spec(sofr_spec)]
    pub fn sofr(&self) -> (r: bool)
        ensures
            r == self.sofr_spec(),
    {
        self.0 & USB_SOFR != 0
    }

    /// The bus was resumed.
    #[verifier::when_used_as_spec(resm_spec)]
    pub fn resm(&self) -> (r: bool)
        ensures
            r == self.resm_spec(),
    {
        self.0 & USB_RESM != 0
    }
}

/// What one interrupt found, or several merged into one.
#[derive(Clone, Copy, Debug, PartialEq, Eq)]
pub struct UsbIrqEvent {
    pub intsts0: Intsts0,
    pub intsts1: Intsts1,
    pub ctrt_ctsq: u16,
    pub seqno: u32,
    pub valid_high: bool,
    pub valid_rising: bool,
    pub brdysts: Brdysts,
    pub nrdysts: Nrdysts,
    pub bempsts: Bempsts,
    pub setup_valid: bool,
    pub setup_packet: [u8; 8],
}

impl UsbIrqEvent {
    /// The event in which nothing happened.
    pub open spec fn none() -> UsbIrqEvent {
        UsbIrqEvent {
            intsts0: Intsts0(0),
            intsts1: Intsts1(0),
            ctrt_ctsq: 0,
            seqno: 0,
            valid_high: false,
            valid_rising: false,
            brdysts: Brdysts(0),
            nrdysts: Nrdysts(0),
            bempsts: Bempsts(0),
            setup_valid: false,
            setup_packet: [0u8, 0, 0, 0, 0, 0, 0, 0],
        }
    }

    pub open spec fn is_empty_spec(self) -> bool {
        &&& self.intsts0.0 == 0
        &&& self.intsts1.0 == 0
        &&& !self.valid_high
        &&& !self.valid_rising
        &&& self.brdysts.0 == 0
        &&& self.nrdysts.0 == 0
        &&& self.bempsts.0 == 0
        &&& !self.setup_valid
    }

    pub open spec fn merged_spec(self, newer: UsbIrqEvent) -> UsbIrqEvent {
        UsbIrqEvent {
            intsts0: Intsts0(self.intsts0.0 | newer.intsts0.0),
            intsts1: Intsts1(self.intsts1.0 | newer.intsts1.0),
            ctrt_ctsq: if newer.intsts0.ctrt() {
                newer.ctrt_ctsq
            } else {
                self.ctrt_ctsq
            },
            seqno: if newer.seqno != 0 {
                newer.seqno
            } else {
                self.seqno
            },
            valid_high: self.valid_high || newer.valid_high,
            valid_rising: self.valid_rising || newer.valid_rising,
            brdysts: Brdysts(self.brdysts.0 | newer.brdysts.0),
            nrdysts: Nrdysts(self.nrdysts.0 | newer.nrdysts.0),
            bempsts: Bempsts(self.bempsts.0 | newer.bempsts.0),
            setup_valid: self.setup_valid || newer.setup_valid,
            setup_packet: if newer.setup_valid {
                newer.setup_packet
            } else {
                self.setup_packet
            },
        }
    }

    /// Whether the event reports nothing.
    #[verifier::when_used_as_spec(is_empty_spec)]
    pub fn is_empty(self) -> (r: bool)
        ensures
            r == self.is_empty_spec(),
    {
        self.intsts0.0 == 0 && self.intsts1.0 == 0 && !self.valid_high && !self.valid_rising
            && self.brdysts.0 == 0 && self.nrdysts.0 == 0 && self.bempsts.0 == 0
            && !self.setup_valid
    }

    /// This event and a later one as a single event.
    #[verifier::when_used_as_spec(merged_spec)]
    pub fn merged(self, newer: UsbIrqEvent) -> (r: UsbIrqEvent)
        ensures
            r == self.merged_spec(newer),
    {
        UsbIrqEvent {
            intsts0: Intsts0(self.intsts0.0 | newer.intsts0.0),
            intsts1: Intsts1(self.intsts1.0 | newer.intsts1.0),
            ctrt_ctsq: if newer.intsts0.ctrt() {
                newer.ctrt_ctsq
            } else {
                self.ctrt_ctsq
            },
            seqno: if newer.seqno != 0 {
                newer.seqno
            } else {
                self.seqno
            },
            valid_high: self.valid_high || newer.valid_high,
            valid_rising: self.valid_rising || newer.valid_rising,
            brdysts: Brdysts(self.brdysts.0 | newer.brdysts.0),
            nrdysts: Nrdysts(self.nrdysts.0 | newer.nrdysts.0),
            bempsts: Bempsts(self.bempsts.0 | newer.bempsts.0),
            setup_valid: self.setup_valid || newer.setup_valid,
            setup_packet: if newer.setup_valid {
                newer.setup_packet
            } else {
                self.setup_packet
            },
        }
    }

    /// Merges a later event into this one.
    pub fn merge_from(&mut self, newer: UsbIrqEvent)
        ensures
            *final(self) == old(self).merged(newer),
    {
        *self = self.merged(newer);
    }
}

impl Default for UsbIrqEvent {
    fn default() -> (r: Self)
        ensures
            r == UsbIrqEvent::none(),
            r.is_empty(),
    {
        UsbIrqEvent {
            intsts0: Intsts0(0),
            intsts1: Intsts1(0),
            ctrt_ctsq: 0,
            seqno: 0,
            valid_high: false,
            valid_rising: false,
            brdysts: Brdysts(0),
            nrdysts: Nrdysts(0),
            bempsts: Bempsts(0),
            setup_valid: false,
            setup_packet: [0u8, 0, 0, 0, 0, 0, 0, 0],
        }
    }
}

/// What the interrupt handler remembers between two interrupts.
#[derive(Clone, Copy, Debug, PartialEq, Eq, Structural)]
pub struct UsbIrqLocalState {
    /// The VALID flag was high at the last interrupt.
    pub capture_valid_latched: bool,
    /// Number of the last interrupt.
    pub capture_seqno: u32,
}

impl Default for UsbIrqLocalState {
    fn default() -> (r: Self)
        ensures
            r == (UsbIrqLocalState { capture_valid_latched: false, capture_seqno: 0 }),
    {
        UsbIrqLocalState { capture_valid_latched: false, capture_seqno: 0 }
    }
}

/// Events that the bus has taken from the interrupt handler and not polled yet.
#[derive(Clone, Copy, Debug)]
pub struct UsbEventSnapshot {
    pub intsts0: Intsts0,
    pub ctrt_ctsq: u16,
    pub brdysts: Brdysts,
    pub nrdysts: Nrdysts,
    pub bempsts: Bempsts,
    pub valid_pending: bool,
    pub setup_valid: bool,
    pub setup_packet: [u8; 8],
}

impl UsbEventSnapshot {
    /// The snapshot without any event.
    pub open spec fn none() -> UsbEventSnapshot {
        UsbEventSnapshot {
            intsts0: Intsts0(0),
            ctrt_ctsq: 0,
            brdysts: Brdysts(0),
            nrdysts: Nrdysts(0),
            bempsts: Bempsts(0),
            valid_pending: false,
            setup_valid: false,
            setup_packet: [0u8, 0, 0, 0, 0, 0, 0, 0],
        }
    }

    /// The snapshot with one more event.
    pub open spec fn with_event(self, event: UsbIrqEvent) -> UsbEventSnapshot {
        UsbEventSnapshot {
            intsts0: Intsts0(self.intsts0.0 | event.intsts0.0),
            ctrt_ctsq: if event.intsts0.ctrt() {
                event.ctrt_ctsq
            } else {
                self.ctrt_ctsq
            },
            brdysts: Brdysts(self.brdysts.0 | event.brdysts.0),
            nrdysts: Nrdysts(self.nrdysts.0 | event.nrdysts.0),
            bempsts: Bempsts(self.bempsts.0 | event.bempsts.0),
            valid_pending: self.valid_pending || event.valid_rising,
            setup_valid: self.setup_valid || event.setup_valid,
            setup_packet: if event.setup_valid {
                event.setup_packet
            } else {
                self.setup_packet
            },
        }
    }

    /// Merges one captured interrupt event into the snapshot.
    pub fn merge_irq_event(&mut self, event: &UsbIrqEvent)
        ensures
            *final(self) == old(self).with_event(*event),
    {
        self.intsts0 = Intsts0(self.intsts0.0 | event.intsts0.0);
        if event.intsts0.ctrt() {
            self.ctrt_ctsq = event.ctrt_ctsq;
        }
        self.brdysts = Brdysts(self.brdysts.0 | event.brdysts.0);
        self.nrdysts = Nrdysts(self.nrdysts.0 | event.nrdysts.0);
        self.bempsts = Bempsts(self.bempsts.0 | event.bempsts.0);
        self.valid_pending = self.valid_pending || event.valid_rising;
        if event.setup_valid {
            self.setup_valid = true;
            self.setup_packet = event.setup_packet;
        }
    }
}

impl Default for UsbEventSnapshot {
    fn default() -> (r: Self)
        ensures
            r == UsbEventSnapshot::none(),
    {
        UsbEventSnapshot {
            intsts0: Intsts0(0),
            ctrt_ctsq: 0,
            brdysts: Brdysts(0),
            nrdysts: Nrdysts(0),
            bempsts: Bempsts(0),
            valid_pending: false,
            setup_valid: false,
            setup_packet: [0u8, 0, 0, 0, 0, 0, 0, 0],
        }
    }
}

/// What a pipe is used for.
#[derive(Clone, Copy, Debug, PartialEq, Eq, Structural)]
pub struct PipeBinding {
    pub ep_addr: EndpointAddress,
    pub ep_type: EndpointType,
    pub max_packet: u16,
}

/// State of the bus that endpoint and control logic work on.
#[derive(Clone, Copy, Debug)]
pub struct BusState {
    pub ep0_out_allocated: bool,
    pub ep0_in_allocated: bool,
    pub ep0_max_packet: u16,
    /// IN endpoints in use, one bit per endpoint.
    pub allocated_in_mask: u16,
    /// OUT endpoints in use, one bit per endpoint.
    pub allocated_out_mask: u16,
    pub ep0_stalled: bool,
    /// Stalled IN endpoints, one bit per endpoint.
    pub stalled_in_mask: u16,
    /// Stalled OUT endpoints, one bit per endpoint.
    pub stalled_out_mask: u16,
    pub ep0_last_setup_dir_out: bool,
    pub ep0_setup_pending: bool,
    pub ep0_setup_ready: bool,
    pub ep0_setup_packet: [u8; 8],
    pub ep0_short_in_waiting_status: bool,
    pub ep0_expect_status_out: bool,
    pub suspended: bool,
    /// Endpoint bound to each pipe. Pipe 0 is the control pipe and has no entry.
    pub pipe_bindings: [Option<PipeBinding>; 10],
    /// Pipes with a packet on its way to the host, one bit per pipe.
    pub in_busy_mask: u16,
    pub brdyenb_shadow: u16,
    pub nrdyenb_shadow: u16,
    pub bempenb_shadow: u16,
}

impl BusState {
    /// The state before any endpoint is allocated.
    pub open spec fn fresh() -> BusState {
        BusState {
            ep0_out_allocated: false,
            ep0_in_allocated: false,
            ep0_max_packet: 0,
            allocated_in_mask: 0,
            allocated_out_mask: 0,
            ep0_stalled: false,
            stalled_in_mask: 0,
            stalled_out_mask: 0,
            ep0_last_setup_dir_out: false,
            ep0_setup_pending: false,
            ep0_setup_ready: false,
            ep0_setup_packet: [0u8, 0, 0, 0, 0, 0, 0, 0],
            ep0_short_in_waiting_status: false,
            ep0_expect_status_out: false,
            suspended: false,
            pipe_bindings: [None, None, None, None, None, None, None, None, None, None],
            in_busy_mask: 0,
            brdyenb_shadow: 0,
            nrdyenb_shadow: 0,
            bempenb_shadow: 0,
        }
    }
}

impl Default for BusState {
    fn default() -> (r: Self)
        ensures
            r == BusState::fresh(),
    {
        BusState {
            ep0_out_allocated: false,
            ep0_in_allocated: false,
            ep0_max_packet: 0,
            allocated_in_mask: 0,
            allocated_out_mask: 0,
            ep0_stalled: false,
            stalled_in_mask: 0,
            stalled_out_mask: 0,
            ep0_last_setup_dir_out: false,
            ep0_setup_pending: false,
            ep0_setup_ready: false,
            ep0_setup_packet: [0u8, 0, 0, 0, 0, 0, 0, 0],
            ep0_short_in_waiting_status: false,
            ep0_expect_status_out: false,
            suspended: false,
            pipe_bindings: [None, None, None, None, None, None, None, None, None, None],
            in_busy_mask: 0,
            brdyenb_shadow: 0,
            nrdyenb_shadow: 0,
            bempenb_shadow: 0,
        }
    }
}

/// Merging is associative: it does not matter which neighbours are merged first.
pub proof fn law_merge_associative(a: UsbIrqEvent, b: UsbIrqEvent, c: UsbIrqEvent)
    ensures
        a.merged(b).merged(c) == a.merged(b.merged(c)),
{
    lemma_or_associative(a.intsts0.0, b.intsts0.0, c.intsts0.0);
    lemma_or_associative(a.intsts1.0, b.intsts1.0, c.intsts1.0);
    lemma_or_associative(a.brdysts.0, b.brdysts.0, c.brdysts.0);
    lemma_or_associative(a.nrdysts.0, b.nrdysts.0, c.nrdysts.0);
    lemma_or_associative(a.bempsts.0, b.bempsts.0, c.bempsts.0);
    lemma_or_flag(b.intsts0.0, c.intsts0.0, USB_CTRT);
}

/// Merging the event in which nothing happened into another changes nothing, and merging another
/// into it keeps all that the other reports: the stage of the control transfer and the SETUP packet
/// are dropped where no flag says that they are there.
pub proof fn law_merge_identity(a: UsbIrqEvent)
    ensures
        UsbIrqEvent::none().merged(a) == (UsbIrqEvent {
            ctrt_ctsq: if a.intsts0.ctrt() {
                a.ctrt_ctsq
            } else {
                0
            },
            setup_packet: if a.setup_valid {
                a.setup_packet
            } else {
                UsbIrqEvent::none().setup_packet
            },
            ..a
        }),
        a.merged(UsbIrqEvent::none()) == a,
{
    lemma_or_zero(a.intsts0.0);
    lemma_or_zero(a.intsts1.0);
    lemma_or_zero(a.brdysts.0);
    lemma_or_zero(a.nrdysts.0);
    lemma_or_zero(a.bempsts.0);
    lemma_word(0x0800);
}

/// What a merged event says: a flag that either event reports, and of the stage of the control
/// transfer and of the SETUP packet what the newer event says, if it says anything of it, else what
/// the older one says. A change of the stage is bit 11 of the flags.
pub proof fn law_merge_prefers_the_newer(a: UsbIrqEvent, b: UsbIrqEvent, flag: u16)
    ensures
        ({
            let m = a.merged(b);
            &&& m.intsts0.0 & flag != 0 <==> a.intsts0.0 & flag != 0 || b.intsts0.0 & flag != 0
            &&& m.intsts1.0 & flag != 0 <==> a.intsts1.0 & flag != 0 || b.intsts1.0 & flag != 0
            &&& m.brdysts.0 & flag != 0 <==> a.brdysts.0 & flag != 0 || b.brdysts.0 & flag != 0
            &&& m.nrdysts.0 & flag != 0 <==> a.nrdysts.0 & flag != 0 || b.nrdysts.0 & flag != 0
            &&& m.bempsts.0 & flag != 0 <==> a.bempsts.0 & flag != 0 || b.bempsts.0 & flag != 0
            &&& m.valid_high <==> a.valid_high || b.valid_high
            &&& m.valid_rising <==> a.valid_rising || b.valid_rising
            &&& m.setup_valid <==> a.setup_valid || b.setup_valid
            &&& b.setup_valid ==> m.setup_packet == b.setup_packet
            &&& !b.setup_valid ==> m.setup_packet == a.setup_packet
            &&& b.intsts0.0 & 0x0800 != 0 ==> m.ctrt_ctsq == b.ctrt_ctsq
            &&& b.intsts0.0 & 0x0800 == 0 ==> m.ctrt_ctsq == a.ctrt_ctsq
            &&& b.seqno != 0 ==> m.seqno == b.seqno
            &&& b.seqno == 0 ==> m.seqno == a.seqno
        }),
{
    lemma_or_flag(a.intsts0.0, b.intsts0.0, flag);
    lemma_or_flag(a.intsts1.0, b.intsts1.0, flag);
    lemma_or_flag(a.brdysts.0, b.brdysts.0, flag);
    lemma_or_flag(a.nrdysts.0, b.nrdysts.0, flag);
    lemma_or_flag(a.bempsts.0, b.bempsts.0, flag);
}

/// What the bus has seen after one more event: a flag that it had seen or that the event reports,
/// and of the stage of the control transfer and of the SETUP packet what the event says, if it says
/// anything of it.
pub proof fn law_snapshot_adds_the_event(s: UsbEventSnapshot, event: UsbIrqEvent, flag: u16)
    ensures
        ({
            let next = s.with_event(event);
            &&& next.intsts0.0 & flag != 0 <==> s.intsts0.0 & flag != 0 || event.intsts0.0 & flag
                != 0
            &&& next.brdysts.0 & flag != 0 <==> s.brdysts.0 & flag != 0 || event.brdysts.0 & flag
                != 0
            &&& next.nrdysts.0 & flag != 0 <==> s.nrdysts.0 & flag != 0 || event.nrdysts.0 & flag
                != 0
            &&& next.bempsts.0 & flag != 0 <==> s.bempsts.0 & flag != 0 || event.bempsts.0 & flag
                != 0
            &&& next.valid_pending <==> s.valid_pending || event.valid_rising
            &&& next.setup_valid <==> s.setup_valid || event.setup_valid
            &&& event.setup_valid ==> next.setup_packet == event.setup_packet
            &&& !event.setup_valid ==> next.setup_packet == s.setup_packet
            &&& event.intsts0.0 & 0x0800 != 0 ==> next.ctrt_ctsq == event.ctrt_ctsq
            &&& event.intsts0.0 & 0x0800 == 0 ==> next.ctrt_ctsq == s.ctrt_ctsq
        }),
{
    lemma_or_flag(s.intsts0.0, event.intsts0.0, flag);
    lemma_or_flag(s.brdysts.0, event.brdysts.0, flag);
    lemma_or_flag(s.nrdysts.0, event.nrdysts.0, flag);
    lemma_or_flag(s.bempsts.0, event.bempsts.0, flag);
}

/// An event reports nothing if and only if none of its flags is set: neither one of the device nor
/// one of a pipe nor one of a SETUP packet.
pub proof fn law_empty_event_has_no_flag(event: UsbIrqEvent)
    ensures
        event.is_empty() <==> event.intsts0.0 == 0 && event.intsts1.0 == 0 && event.brdysts.0 == 0
            && event.nrdysts.0 == 0 && event.bempsts.0 == 0 && !event.valid_high
            && !event.valid_rising && !event.setup_valid,
{
}

/// Merging loses nothing: the merged event is empty only if both events are.
pub proof fn law_merge_keeps_reports(a: UsbIrqEvent, b: UsbIrqEvent)
    ensures
        a.merged(b).is_empty() <==> a.is_empty() && b.is_empty(),
{
    lemma_or_empty(a.intsts0.0, b.intsts0.0);
    lemma_or_empty(a.intsts1.0, b.intsts1.0);
    lemma_or_empty(a.brdysts.0, b.brdysts.0);
    lemma_or_empty(a.nrdysts.0, b.nrdysts.0);
    lemma_or_empty(a.bempsts.0, b.bempsts.0);
}

/// The bus sees the same whether two events reach it one by one or merged in the latch.
pub proof fn law_latching_is_transparent(s: UsbEventSnapshot, a: UsbIrqEvent, b: UsbIrqEvent)
    ensures
        s.with_event(a.merged(b)) == s.with_event(a).with_event(b),
{
    lemma_or_associative(s.intsts0.0, a.intsts0.0, b.intsts0.0);
    lemma_or_associative(s.brdysts.0, a.brdysts.0, b.brdysts.0);
    lemma_or_associative(s.nrdysts.0, a.nrdysts.0, b.nrdysts.0);
    lemma_or_associative(s.bempsts.0, a.bempsts.0, b.bempsts.0);
    lemma_or_flag(a.intsts0.0, b.intsts0.0, USB_CTRT);
}

/// An event that reports nothing changes nothing for the bus, so it may be dropped.
pub proof fn law_empty_event_changes_nothing(s: UsbEventSnapshot, event: UsbIrqEvent)
    requires
        event.is_empty(),
    ensures
        s.with_event(event) == s,
{
    lemma_or_zero(s.intsts0.0);
    lemma_or_zero(s.brdysts.0);
    lemma_or_zero(s.nrdysts.0);
    lemma_or_zero(s.bempsts.0);
    lemma_word(0x0800);
}

proof fn lemma_or_associative(a: u16, b: u16, c: u16)
    ensures
        (a | b) | c == a | (b | c),
{
    lemma_join(a, b, c);
}

proof fn lemma_or_zero(a: u16)
    ensures
        a | 0 == a,
        0 | a == a,
{
    lemma_word(a);
}

proof fn lemma_or_empty(a: u16, b: u16)
    ensures
        a | b == 0 <==> a == 0 && b == 0,
{
    lemma_join(a, b, 0);
}

proof fn lemma_or_flag(a: u16, b: u16, flag: u16)
    ensures
        (a | b) & flag != 0 <==> a & flag != 0 || b & flag != 0,
{
    lemma_join(a, b, flag);
}

} // verus!
