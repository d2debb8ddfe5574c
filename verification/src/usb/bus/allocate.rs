//! Allocation of endpoints.

use crate::mmio::{begins, Log};
use crate::usb::bus::pipes::{open_log, opened, packet_fits, Bindings, LAST_PIPE};
use crate::usb::endpoint::{EndpointAddress, EndpointType, UsbDirection, UsbError};
use crate::usb::regs::{bit, has_pipes};
use crate::usb::types::{BusState, PipeBinding};
use vstd::prelude::*;

verus! {

/// The lowest endpoint index from `from` on that is not in use.
pub open spec fn free_index(mask: u16, from: int) -> Option<usize>
    decreases 16 - from,
{
    if from >= 16 {
        None
    } else if mask & bit(from) == 0 {
        Some(from as usize)
    } else {
        free_index(mask, from + 1)
    }
}

/// The lowest pipe between `from` and `to` that no endpoint is bound to.
pub open spec fn free_pipe(bindings: Bindings, from: int, to: int) -> Option<u8>
    decreases to + 1 - from,
{
    if from > to {
        None
    } else if bindings[from] is None {
        Some(from as u8)
    } else {
        free_pipe(bindings, from + 1, to)
    }
}

/// Finds the lowest endpoint index that is not in use.
pub(crate) fn find_free_index(mask: u16) -> (r: Option<usize>)
    ensures
        r == free_index(mask, 1),
        r matches Some(index) ==> 1 <= index < 16 && mask & bit(index as int) == 0,
{
    let mut index: usize = 1;
    while index < 16
        invariant
            1 <= index <= 16,
            free_index(mask, 1) == free_index(mask, index as int),
        decreases 16 - index,
    {
        let bit: u16 = 1u16 << index;
        if mask & bit == 0 {
            return Some(index);
        }
        index += 1;
    }
    None
}

/// Finds the lowest pipe in a range that no endpoint is bound to.
pub(crate) fn find_free_pipe(state: &BusState, from: u8, to: u8) -> (r: Option<u8>)
    requires
        to < 10,
    ensures
        r == free_pipe(state.pipe_bindings@, from as int, to as int),
        r matches Some(pipe) ==> from <= pipe <= to && state.pipe_bindings@[pipe as int] is None,
{
    let mut pipe: u8 = from;
    while pipe <= to
        invariant
            to < 10,
            from <= pipe,
            free_pipe(state.pipe_bindings@, from as int, to as int) == free_pipe(
                state.pipe_bindings@,
                pipe as int,
                to as int,
            ),
        decreases to + 1 - pipe,
    {
        if state.pipe_bindings[pipe as usize].is_none() {
            return Some(pipe);
        }
        pipe += 1;
    }
    None
}

/// What becomes of a request for a bulk or interrupt endpoint.
pub enum Allocation {
    /// Nothing changes.
    Refused { error: UsbError },
    /// The index is marked as in use, but no pipe takes packets of the requested size.
    Stranded { index: usize },
    /// The endpoint is bound to a pipe.
    Bound { index: usize, pipe: u8, binding: PipeBinding },
}

/// The index that a request for an endpoint gets: the requested one if it is free, else the lowest
/// free one if none was requested. Asking for index 0 is asking for any.
pub open spec fn granted_index(
    state: BusState,
    ep_dir: UsbDirection,
    ep_addr: Option<EndpointAddress>,
) -> Result<usize, UsbError> {
    let mask = state.allocated(ep_dir);
    if ep_addr is Some && ep_addr->0.index() != 0 {
        let addr = ep_addr->0;
        if addr.direction() != ep_dir || mask & bit(addr.index() as int) != 0 {
            Err(UsbError::InvalidEndpoint)
        } else {
            Ok(addr.index())
        }
    } else {
        match free_index(mask, 1) {
            Some(index) => Ok(index),
            None => Err(UsbError::EndpointOverflow),
        }
    }
}

/// The pipe that a request for an endpoint gets: the lowest free one of its transfer type.
pub open spec fn granted_pipe(bindings: Bindings, ep_type: EndpointType) -> Option<u8> {
    match ep_type {
        EndpointType::Bulk => free_pipe(bindings, 1, 5),
        EndpointType::Interrupt => free_pipe(bindings, 6, 9),
        _ => None,
    }
}

/// What becomes of a request for an endpoint other than a control endpoint.
pub open spec fn allocation(
    state: BusState,
    ep_dir: UsbDirection,
    ep_addr: Option<EndpointAddress>,
    ep_type: EndpointType,
    max_packet_size: u16,
) -> Allocation {
    if !has_pipes(ep_type) {
        Allocation::Refused { error: UsbError::Unsupported }
    } else {
        match granted_index(state, ep_dir, ep_addr) {
            Err(error) => Allocation::Refused { error },
            Ok(index) => match granted_pipe(state.pipe_bindings@, ep_type) {
                None => Allocation::Refused { error: UsbError::EndpointOverflow },
                Some(pipe) => if packet_fits(ep_type, pipe, max_packet_size) {
                    Allocation::Bound {
                        index,
                        pipe,
                        binding: PipeBinding {
                            ep_addr: EndpointAddress::from_parts(index, ep_dir),
                            ep_type,
                            max_packet: max_packet_size,
                        },
                    }
                } else {
                    Allocation::Stranded { index }
                },
            },
        }
    }
}

/// What an allocation makes of the state, which accesses it appends to the record and what it
/// returns.
pub open spec fn granted(
    outcome: Allocation,
    ep_dir: UsbDirection,
    state: BusState,
    log: Log,
    next: BusState,
    next_log: Log,
    r: Result<EndpointAddress, UsbError>,
) -> bool {
    match outcome {
        Allocation::Refused { error } => {
            &&& r == Err::<EndpointAddress, UsbError>(error)
            &&& next == state
            &&& next_log == log
        },
        Allocation::Stranded { index } => {
            &&& r == Err::<EndpointAddress, UsbError>(UsbError::Unsupported)
            &&& next == state.with_allocated(ep_dir, index)
            &&& next_log == log
        },
        Allocation::Bound { index, pipe, binding } => {
            &&& r == Ok::<EndpointAddress, UsbError>(binding.ep_addr)
            &&& next.pipe_bindings@ == state.pipe_bindings@.update(pipe as int, Some(binding))
            &&& next == opened(
                BusState {
                    pipe_bindings: next.pipe_bindings,
                    ..state.with_allocated(ep_dir, index)
                },
                pipe,
                binding,
            )
            &&& forall|run: Log|
                #![trigger begins(next_log, run)]
                begins(next_log, run) ==> next_log == open_log(state, log, pipe, binding, run)
        },
    }
}

/// Marks an endpoint as in use.
pub(crate) fn mark_allocated(state: &mut BusState, ep_dir: UsbDirection, index: usize)
    requires
        index < 16,
    ensures
        *final(state) == old(state).with_allocated(ep_dir, index),
        final(state).allocated(ep_dir) & bit(index as int) != 0,
        old(state).wf() ==> final(state).wf(),
        old(state).indices_fit() ==> final(state).indices_fit(),
{
    proof {
        lemma_allocate_keeps_wf(*state, ep_dir, index);
    }
    let bit: u16 = 1u16 << index;
    match ep_dir {
        UsbDirection::In => {
            state.allocated_in_mask = state.allocated_in_mask | bit;
        },
        UsbDirection::Out => {
            state.allocated_out_mask = state.allocated_out_mask | bit;
        },
    }
}

/// Marks an endpoint as in use and binds it to a pipe.
pub(crate) fn bind(
    state: &mut BusState,
    ep_dir: UsbDirection,
    index: usize,
    pipe: u8,
    binding: PipeBinding,
)
    requires
        1 <= index < 16,
        1 <= pipe <= LAST_PIPE,
        old(state).allocated(ep_dir) & bit(index as int) == 0,
        old(state).pipe_bindings@[pipe as int] is None,
        binding.ep_addr == EndpointAddress::from_parts(index, ep_dir),
        packet_fits(binding.ep_type, pipe, binding.max_packet),
    ensures
        final(state).pipe_bindings@ == old(state).pipe_bindings@.update(pipe as int, Some(binding)),
        *final(state) == (BusState {
            pipe_bindings: final(state).pipe_bindings,
            ..old(state).with_allocated(ep_dir, index)
        }),
        old(state).wf() ==> final(state).wf(),
        old(state).indices_fit() ==> final(state).indices_fit(),
{
    mark_allocated(state, ep_dir, index);
    let ghost marked = *state;
    state.pipe_bindings[pipe as usize] = Some(binding);
    proof {
        lemma_bind_keeps_wf(*old(state), marked, *state, pipe, binding, index, ep_dir);
    }
}

/// Chooses the index and the pipe for a request for an endpoint.
pub(crate) fn choose_endpoint(
    state: &BusState,
    ep_dir: UsbDirection,
    ep_addr: Option<EndpointAddress>,
    ep_type: EndpointType,
) -> (r: Result<(usize, u8), UsbError>)
    requires
        has_pipes(ep_type) && ep_addr is Some && ep_addr->0.direction() == ep_dir
            ==> ep_addr->0.index() < 16,
    ensures
        match r {
            Ok((index, pipe)) => {
                &&& has_pipes(ep_type)
                &&& granted_index(*state, ep_dir, ep_addr) == Ok::<usize, UsbError>(index)
                &&& granted_pipe(state.pipe_bindings@, ep_type) == Some(pipe)
                &&& 1 <= index < 16
                &&& state.allocated(ep_dir) & bit(index as int) == 0
                &&& 1 <= pipe <= LAST_PIPE
                &&& state.pipe_bindings@[pipe as int] is None
            },
            Err(error) => forall|size: u16|
                #[trigger]
                allocation(*state, ep_dir, ep_addr, ep_type, size) == (Allocation::Refused {
                    error,
                }),
        },
{
    match ep_type {
        EndpointType::Bulk | EndpointType::Interrupt => {},
        _ => {
            return Err(UsbError::Unsupported);
        },
    }
    let current_mask: u16 = match ep_dir {
        UsbDirection::In => state.allocated_in_mask,
        UsbDirection::Out => state.allocated_out_mask,
    };
    let requested = match ep_addr {
        Some(addr) => if addr.index() != 0 {
            Some(addr)
        } else {
            None
        },
        None => None,
    };
    let index: usize = match requested {
        Some(addr) => {
            if addr.direction() != ep_dir {
                return Err(UsbError::InvalidEndpoint);
            }
            let bit: u16 = 1u16 << addr.index();
            if current_mask & bit != 0 {
                return Err(UsbError::InvalidEndpoint);
            }
            addr.index()
        },
        None => match find_free_index(current_mask) {
            Some(index) => index,
            None => {
                return Err(UsbError::EndpointOverflow);
            },
        },
    };
    let free = match ep_type {
        EndpointType::Bulk => find_free_pipe(state, 1, 5),
        _ => find_free_pipe(state, 6, 9),
    };
    match free {
        Some(pipe) => Ok((index, pipe)),
        None => Err(UsbError::EndpointOverflow),
    }
}

/// The state that allocation starts from is well-formed.
pub proof fn lemma_fresh_wf()
    ensures
        BusState::fresh().wf(),
        BusState::fresh().indices_fit(),
{
    reveal(BusState::wf);
    reveal(BusState::indices_fit);
}

/// Marking an endpoint as in use keeps the state well-formed.
pub proof fn lemma_allocate_keeps_wf(state: BusState, dir: UsbDirection, index: usize)
    requires
        index < 16,
    ensures
        state.wf() ==> state.with_allocated(dir, index).wf(),
        state.indices_fit() ==> state.with_allocated(dir, index).indices_fit(),
        state.with_allocated(dir, index).allocated(dir) & bit(index as int) != 0,
{
    reveal(BusState::wf);
    reveal(BusState::indices_fit);
    let b = bit(index as int);
    let i = index as u16;
    assert(b != 0) by {
        assert(1u16 << i != 0) by (bit_vector)
            requires
                i < 16,
        ;
    }
    let m = state.allocated(dir);
    assert((m | b) & b != 0) by (bit_vector)
        requires
            b != 0,
    ;
    assert forall|other: u16| m & other != 0 implies (m | b) & other != 0 by {
        assert(m & other != 0 ==> (m | b) & other != 0) by (bit_vector);
    }
    if state.wf() {
        let next = state.with_allocated(dir, index);
        assert forall|pipe: int| 1 <= pipe < 10 implies (
        #[trigger] next.pipe_bindings@[pipe] matches Some(binding) ==> {
            &&& 1 <= binding.ep_addr.index() < 16
            &&& next.allocated(binding.ep_addr.direction()) & bit(binding.ep_addr.index() as int)
                != 0
            &&& packet_fits(binding.ep_type, pipe as u8, binding.max_packet)
        }) by {
            assert(state.pipe_bindings@[pipe] == next.pipe_bindings@[pipe]);
        }
    }
}

/// Binding an endpoint that was not in use to a free pipe keeps the state well-formed.
pub proof fn lemma_bind_keeps_wf(
    start: BusState,
    before: BusState,
    after: BusState,
    pipe: u8,
    binding: PipeBinding,
    index: usize,
    dir: UsbDirection,
)
    requires
        1 <= index < 16,
        1 <= pipe < 10,
        before == start.with_allocated(dir, index),
        start.allocated(dir) & bit(index as int) == 0,
        before.allocated(dir) & bit(index as int) != 0,
        binding.ep_addr == EndpointAddress::from_parts(index, dir),
        packet_fits(binding.ep_type, pipe, binding.max_packet),
        start.pipe_bindings@[pipe as int] is None,
        after == (BusState { pipe_bindings: after.pipe_bindings, ..before }),
        after.pipe_bindings@ == before.pipe_bindings@.update(pipe as int, Some(binding)),
    ensures
        start.wf() && before.wf() ==> after.wf(),
        start.indices_fit() ==> after.indices_fit(),
{
    reveal(BusState::wf);
    reveal(BusState::indices_fit);
    crate::usb::endpoint::law_address_round_trip(index, dir);
    if start.wf() && before.wf() {
        assert forall|p: int| 1 <= p < 10 implies (#[trigger] after.pipe_bindings@[p] matches Some(
            found,
        ) ==> {
            &&& 1 <= found.ep_addr.index() < 16
            &&& after.allocated(found.ep_addr.direction()) & bit(found.ep_addr.index() as int) != 0
            &&& packet_fits(found.ep_type, p as u8, found.max_packet)
        }) by {
            if p != pipe {
                assert(after.pipe_bindings@[p] == before.pipe_bindings@[p]);
            }
        }
        assert forall|p: int| 1 <= p < 10 && p != pipe && (
        #[trigger] start.pipe_bindings@[p]) is Some implies start.pipe_bindings@[p]->0.ep_addr
            != binding.ep_addr by {
            if start.pipe_bindings@[p]->0.ep_addr == binding.ep_addr {
                assert(start.allocated(dir) & bit(index as int) != 0);
            }
        }
        assert forall|p: int, q: int|
            1 <= p < q < 10 && (#[trigger] after.pipe_bindings@[p]) is Some && (
            #[trigger] after.pipe_bindings@[q]) is Some implies after.pipe_bindings@[p]->0.ep_addr
            != after.pipe_bindings@[q]->0.ep_addr by {
            assert(p != pipe ==> after.pipe_bindings@[p] == start.pipe_bindings@[p]);
            assert(q != pipe ==> after.pipe_bindings@[q] == start.pipe_bindings@[q]);
        }
    }
    if start.indices_fit() {
        assert forall|p: int| 0 <= p < 10 implies (#[trigger] after.pipe_bindings@[p] matches Some(
            found,
        ) ==> found.ep_addr.index() < 16) by {
            if p != pipe {
                assert(after.pipe_bindings@[p] == start.pipe_bindings@[p]);
            }
        }
    }
}

/// What a request for a control endpoint makes of the state, and what it returns. The first request
/// fixes the packet size for both directions.
pub open spec fn control_allocation(
    state: BusState,
    ep_dir: UsbDirection,
    ep_addr: Option<EndpointAddress>,
    max_packet_size: u16,
) -> (BusState, Result<EndpointAddress, UsbError>) {
    let requested = match ep_addr {
        Some(addr) => addr,
        None => EndpointAddress::from_parts(0, ep_dir),
    };
    if max_packet_size > 64 {
        (state, Err(UsbError::Unsupported))
    } else if requested.index() != 0 || requested.direction() != ep_dir {
        (state, Err(UsbError::InvalidEndpoint))
    } else if state.ep0_max_packet != 0 && state.ep0_max_packet != max_packet_size {
        (state, Err(UsbError::EndpointMemoryOverflow))
    } else {
        let sized = BusState { ep0_max_packet: max_packet_size, ..state };
        match ep_dir {
            UsbDirection::Out => if state.ep0_out_allocated {
                (sized, Err(UsbError::InvalidEndpoint))
            } else {
                (BusState { ep0_out_allocated: true, ..sized }, Ok(requested))
            },
            UsbDirection::In => if state.ep0_in_allocated {
                (sized, Err(UsbError::InvalidEndpoint))
            } else {
                (BusState { ep0_in_allocated: true, ..sized }, Ok(requested))
            },
        }
    }
}

/// Allocating a control endpoint keeps the state well-formed.
pub proof fn lemma_control_keeps_wf(
    state: BusState,
    ep_dir: UsbDirection,
    ep_addr: Option<EndpointAddress>,
    max_packet_size: u16,
)
    ensures
        state.wf() ==> control_allocation(state, ep_dir, ep_addr, max_packet_size).0.wf(),
        state.indices_fit() ==> control_allocation(
            state,
            ep_dir,
            ep_addr,
            max_packet_size,
        ).0.indices_fit(),
{
    let next = control_allocation(state, ep_dir, ep_addr, max_packet_size).0;
    assert(next.ep0_max_packet == state.ep0_max_packet || next.ep0_max_packet <= 64);
    assert(next.pipe_bindings == state.pipe_bindings);
    assert(state.wf() ==> next.wf()) by {
        reveal(BusState::wf);
        assert(next.allocated(UsbDirection::In) == state.allocated(UsbDirection::In));
        assert(next.allocated(UsbDirection::Out) == state.allocated(UsbDirection::Out));
    }
    assert(state.indices_fit() ==> next.indices_fit()) by {
        reveal(BusState::indices_fit);
    }
}

pub(crate) fn alloc_control_ep(
    state: &mut BusState,
    ep_dir: UsbDirection,
    ep_addr: Option<EndpointAddress>,
    max_packet_size: u16,
) -> (r: Result<EndpointAddress, UsbError>)
    ensures
        (*final(state), r) == control_allocation(*old(state), ep_dir, ep_addr, max_packet_size),
{
    if max_packet_size > 64 {
        return Err(UsbError::Unsupported);
    }
    let requested = match ep_addr {
        Some(addr) => addr,
        None => EndpointAddress::from_parts(0, ep_dir),
    };
    if requested.index() != 0 || requested.direction() != ep_dir {
        return Err(UsbError::InvalidEndpoint);
    }
    if state.ep0_max_packet == 0 {
        state.ep0_max_packet = max_packet_size;
    } else if state.ep0_max_packet != max_packet_size {
        return Err(UsbError::EndpointMemoryOverflow);
    }
    match ep_dir {
        UsbDirection::Out => {
            if state.ep0_out_allocated {
                return Err(UsbError::InvalidEndpoint);
            }
            state.ep0_out_allocated = true;
        },
        UsbDirection::In => {
            if state.ep0_in_allocated {
                return Err(UsbError::InvalidEndpoint);
            }
            state.ep0_in_allocated = true;
        },
    }
    Ok(requested)
}

} // verus!
