//! Pipes and the endpoints bound to them.

use crate::mmio::{begins, grows, Instance, Log, Mmio};
use crate::summary::{latch, lemma_summary_push, summary, EnableMasks};
use crate::usb::endpoint::{EndpointAddress, EndpointType, UsbDirection, UsbError};
use crate::usb::regs;
use crate::usb::regs::{
    bit, configure_pipe_log, configured_masks, receiving_mask, start_out_receive_log,
};
use crate::usb::types::{BusState, PipeBinding};
use vstd::prelude::*;

verus! {

broadcast use lemma_summary_push;

/// Number of the last pipe.
pub const LAST_PIPE: u8 = 9;

/// Endpoint bound to each pipe.
pub type Bindings = Seq<Option<PipeBinding>>;

impl BusState {
    /// The interrupt enable masks that the bus believes in.
    pub open spec fn masks(self) -> EnableMasks {
        EnableMasks {
            brdy: self.brdyenb_shadow,
            nrdy: self.nrdyenb_shadow,
            bemp: self.bempenb_shadow,
        }
    }

    /// The state with other interrupt enable masks.
    pub open spec fn with_masks(self, masks: EnableMasks) -> BusState {
        BusState {
            brdyenb_shadow: masks.brdy,
            nrdyenb_shadow: masks.nrdy,
            bempenb_shadow: masks.bemp,
            ..self
        }
    }

    /// The endpoints in use in one direction.
    pub open spec fn allocated(self, dir: UsbDirection) -> u16 {
        match dir {
            UsbDirection::In => self.allocated_in_mask,
            UsbDirection::Out => self.allocated_out_mask,
        }
    }

    /// The state with one more endpoint in use.
    pub open spec fn with_allocated(self, dir: UsbDirection, index: usize) -> BusState {
        match dir {
            UsbDirection::In => BusState {
                allocated_in_mask: self.allocated_in_mask | bit(index as int),
                ..self
            },
            UsbDirection::Out => BusState {
                allocated_out_mask: self.allocated_out_mask | bit(index as int),
                ..self
            },
        }
    }

    /// Every endpoint bound to a pipe has an index that fits the endpoint masks.
    #[verifier::opaque]
    pub open spec fn indices_fit(self) -> bool {
        forall|pipe: int|
            0 <= pipe < 10 ==> (#[trigger] self.pipe_bindings@[pipe] matches Some(binding)
                ==> binding.ep_addr.index() < 16)
    }

    /// What allocation keeps up: every bound endpoint is marked as in use, sits on a pipe of its
    /// transfer type with a packet size that the pipe takes, and is bound to no other pipe.
    #[verifier::opaque]
    pub open spec fn wf(self) -> bool {
        &&& self.ep0_max_packet <= 64
        &&& self.pipe_bindings@[0] is None
        &&& forall|pipe: int|
            1 <= pipe < 10 ==> (#[trigger] self.pipe_bindings@[pipe] matches Some(binding) ==> {
                &&& 1 <= binding.ep_addr.index() < 16
                &&& self.allocated(binding.ep_addr.direction()) & bit(
                    binding.ep_addr.index() as int,
                ) != 0
                &&& packet_fits(binding.ep_type, pipe as u8, binding.max_packet)
            })
        &&& forall|p: int, q: int|
            1 <= p < q < 10 && (#[trigger] self.pipe_bindings@[p]) is Some && (
            #[trigger] self.pipe_bindings@[q]) is Some ==> self.pipe_bindings@[p]->0.ep_addr
                != self.pipe_bindings@[q]->0.ep_addr
    }
}

/// Whether a pipe takes packets of a size: any up to 256 bytes on bulk pipes 1 and 2, four sizes on
/// bulk pipes 3 to 5, any up to 64 bytes on interrupt pipes.
pub open spec fn packet_fits(ep_type: EndpointType, pipe: u8, size: u16) -> bool {
    match ep_type {
        EndpointType::Bulk => {
            ||| pipe <= 2 && 1 <= size <= 256
            ||| 3 <= pipe <= 5 && (size == 8 || size == 16 || size == 32 || size == 64)
        },
        EndpointType::Interrupt => 6 <= pipe <= 9 && 1 <= size <= 64,
        _ => false,
    }
}

/// The packet size that a pipe is to be set up with.
pub fn max_packet_for_pipe(ep_type: EndpointType, pipe: u8, requested: u16) -> (r: Result<
    u16,
    UsbError,
>)
    ensures
        r == if packet_fits(ep_type, pipe, requested) {
            Ok::<u16, UsbError>(requested)
        } else {
            Err::<u16, UsbError>(UsbError::Unsupported)
        },
{
    let fits = match ep_type {
        EndpointType::Bulk => (pipe <= 2 && requested <= 256 && requested != 0) || (3 <= pipe
            && pipe <= 5 && (requested == 8 || requested == 16 || requested == 32 || requested
            == 64)),
        EndpointType::Interrupt => 6 <= pipe && pipe <= 9 && requested <= 64 && requested != 0,
        _ => false,
    };
    if fits {
        Ok(requested)
    } else {
        Err(UsbError::Unsupported)
    }
}

/// The first pipe from `from` on that an endpoint is bound to.
pub open spec fn pipe_from(bindings: Bindings, ep_addr: EndpointAddress, from: int) -> Option<u8>
    decreases 10 - from,
{
    if from >= 10 {
        None
    } else if bindings[from] is Some && bindings[from]->0.ep_addr == ep_addr {
        Some(from as u8)
    } else {
        pipe_from(bindings, ep_addr, from + 1)
    }
}

/// The pipe that an endpoint is bound to.
pub open spec fn pipe_of(bindings: Bindings, ep_addr: EndpointAddress) -> Option<u8> {
    pipe_from(bindings, ep_addr, 1)
}

/// Finds the pipe that an endpoint is bound to.
pub(crate) fn find_pipe(state: &BusState, ep_addr: EndpointAddress) -> (r: Option<
    (u8, PipeBinding),
>)
    ensures
        match pipe_of(state.pipe_bindings@, ep_addr) {
            Some(pipe) => r == Some((pipe, state.pipe_bindings@[pipe as int]->0)),
            None => r is None,
        },
        r matches Some((pipe, binding)) ==> {
            &&& 1 <= pipe <= LAST_PIPE
            &&& state.pipe_bindings@[pipe as int] == Some(binding)
            &&& binding.ep_addr == ep_addr
        },
{
    let mut pipe: u8 = 1;
    while pipe <= LAST_PIPE
        invariant
            1 <= pipe <= 10,
            pipe_of(state.pipe_bindings@, ep_addr) == pipe_from(
                state.pipe_bindings@,
                ep_addr,
                pipe as int,
            ),
        decreases 10 - pipe,
    {
        if let Some(binding) = state.pipe_bindings[pipe as usize] {
            if binding.ep_addr.0 == ep_addr.0 {
                return Some((pipe, binding));
            }
        }
        pipe += 1;
    }
    None
}

/// The record and the state agree on the interrupt enable masks, no critical section is open and
/// the latched event was never touched outside of one.
pub open spec fn in_step(log: Log, state: BusState) -> bool {
    &&& summary(log).published == state.masks()
    &&& summary(log).programmed == state.masks()
    &&& summary(log).settled()
}

/// The state once reception on a pipe is started.
pub open spec fn receiving(state: BusState, pipe: u8) -> BusState {
    BusState {
        brdyenb_shadow: receiving_mask(state.brdyenb_shadow, pipe),
        nrdyenb_shadow: receiving_mask(state.nrdyenb_shadow, pipe),
        ..state
    }
}

/// The state once a pipe is set up for the endpoint bound to it, receiving if it is an OUT
/// endpoint.
pub open spec fn opened(state: BusState, pipe: u8, binding: PipeBinding) -> BusState {
    let state1 = state.with_masks(configured_masks(state.masks(), pipe, binding));
    if binding.ep_addr.direction() == UsbDirection::Out {
        receiving(state1, pipe)
    } else {
        state1
    }
}

/// `log` followed by what sets up a pipe for the endpoint bound to it and starts reception if it is
/// an OUT endpoint.
pub open spec fn open_log(
    state: BusState,
    log: Log,
    pipe: u8,
    binding: PipeBinding,
    run: Log,
) -> Log {
    let masks = configured_masks(state.masks(), pipe, binding);
    let log1 = configure_pipe_log(log, state.masks(), pipe, binding, run);
    if binding.ep_addr.direction() == UsbDirection::Out {
        start_out_receive_log(log1, masks.brdy, masks.nrdy, pipe, run)
    } else {
        log1
    }
}

/// Starts reception on a pipe.
pub(crate) fn start_out_receive_in_state<I: Instance>(
    io: &mut Mmio<I>,
    state: &mut BusState,
    pipe: u8,
    max_packet: u16,
    requested_len: u32,
)
    ensures
        grows(old(io).log(), final(io).log()),
        *final(state) == receiving(*old(state), pipe),
        forall|run: Log|
            #![trigger begins(final(io).log(), run)]
            begins(final(io).log(), run) ==> final(io).log() == start_out_receive_log(
                old(io).log(),
                old(state).brdyenb_shadow,
                old(state).nrdyenb_shadow,
                pipe,
                run,
            ),
        in_step(old(io).log(), *old(state)) ==> in_step(final(io).log(), *final(state)),
        latch(final(io).log()) == latch(old(io).log()),
{
    regs::start_out_receive(
        io,
        &mut state.brdyenb_shadow,
        &mut state.nrdyenb_shadow,
        pipe,
        max_packet,
        requested_len,
    );
}

/// Sets up a pipe for the endpoint bound to it and starts reception if it is an OUT endpoint.
pub(crate) fn open_pipe<I: Instance>(
    io: &mut Mmio<I>,
    state: &mut BusState,
    pipe: u8,
    binding: PipeBinding,
)
    requires
        pipe < 16,
    ensures
        grows(old(io).log(), final(io).log()),
        *final(state) == opened(*old(state), pipe, binding),
        forall|run: Log|
            #![trigger begins(final(io).log(), run)]
            begins(final(io).log(), run) ==> final(io).log() == open_log(
                *old(state),
                old(io).log(),
                pipe,
                binding,
                run,
            ),
        in_step(old(io).log(), *old(state)) ==> in_step(final(io).log(), *final(state)),
        latch(final(io).log()) == latch(old(io).log()),
{
    regs::configure_pipe(
        io,
        &mut state.brdyenb_shadow,
        &mut state.nrdyenb_shadow,
        &mut state.bempenb_shadow,
        pipe,
        binding,
    );
    match binding.ep_addr.direction() {
        UsbDirection::Out => {
            start_out_receive_in_state(
                io,
                state,
                pipe,
                binding.max_packet,
                binding.max_packet as u32,
            );
        },
        UsbDirection::In => {},
    }
}

/// Two states have the same endpoints allocated.
pub open spec fn same_endpoints(a: BusState, b: BusState) -> bool {
    &&& a.ep0_out_allocated == b.ep0_out_allocated
    &&& a.ep0_in_allocated == b.ep0_in_allocated
    &&& a.ep0_max_packet == b.ep0_max_packet
    &&& a.allocated_in_mask == b.allocated_in_mask
    &&& a.allocated_out_mask == b.allocated_out_mask
    &&& a.pipe_bindings == b.pipe_bindings
}

/// Whether a state is well-formed depends on the allocated endpoints alone.
pub proof fn lemma_wf_frame(a: BusState, b: BusState)
    requires
        same_endpoints(a, b),
    ensures
        a.wf() == b.wf(),
        a.indices_fit() == b.indices_fit(),
{
    reveal(BusState::wf);
    reveal(BusState::indices_fit);
}

} // verus!
