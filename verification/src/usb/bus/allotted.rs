//! Which endpoint a request gets, and what it gets with it.

use crate::bits::lemma_join;
use crate::mmio::{lemma_begins_itself, Log};
use crate::trace::{control_register, window, written16};
use crate::usb::bus::allocate::{allocation, control_allocation, granted};
use crate::usb::bus::laws::{law_free_index_is_lowest, law_free_pipe_is_lowest};
use crate::usb::bus::set_up::{configuration, lemma_open_pipe};
use crate::usb::endpoint::{
    law_address_by_arithmetic, law_address_round_trip, EndpointAddress, EndpointType, UsbDirection,
    UsbError,
};
use crate::usb::regs::bit;
use crate::usb::types::{BusState, PipeBinding};
use vstd::prelude::*;

verus! {

/// The pipes of a transfer type: 1 to 5 for bulk, 6 to 9 for interrupt transfers, none for others.
pub open spec fn serves(pipe: int, ep_type: EndpointType) -> bool {
    match ep_type {
        EndpointType::Bulk => 1 <= pipe <= 5,
        EndpointType::Interrupt => 6 <= pipe <= 9,
        _ => false,
    }
}

/// The packet sizes that a pipe takes: 1 to 256 bytes on pipes 1 and 2, a power of two from 8 to 64
/// on pipes 3 to 5, and 1 to 64 on pipes 6 to 9.
pub open spec fn takes(pipe: int, size: u16) -> bool {
    if pipe <= 2 {
        1 <= size <= 256
    } else if pipe <= 5 {
        size == 8 || size == 16 || size == 32 || size == 64
    } else {
        1 <= size <= 64
    }
}

/// Whether a pipe is the first free one of its transfer type.
pub open spec fn next_pipe(state: BusState, pipe: int, ep_type: EndpointType) -> bool {
    &&& serves(pipe, ep_type)
    &&& state.pipe_bindings@[pipe] is None
    &&& forall|p: int|
        serves(p, ep_type) && p < pipe ==> (#[trigger] state.pipe_bindings@[p]) is Some
}

/// The endpoints in use in a direction, one bit per endpoint.
pub open spec fn in_use(state: BusState, ep_dir: UsbDirection) -> u16 {
    match ep_dir {
        UsbDirection::In => state.allocated_in_mask,
        UsbDirection::Out => state.allocated_out_mask,
    }
}

/// The state with one more endpoint in use.
pub open spec fn marked(state: BusState, ep_dir: UsbDirection, index: int) -> BusState {
    match ep_dir {
        UsbDirection::In => BusState {
            allocated_in_mask: state.allocated_in_mask | (1u16 << index),
            ..state
        },
        UsbDirection::Out => BusState {
            allocated_out_mask: state.allocated_out_mask | (1u16 << index),
            ..state
        },
    }
}

/// Whether an index is the one that a request is to get: the requested one, or the lowest one from
/// 1 on that is not in use if none, or index 0, is requested.
pub open spec fn next_index(
    state: BusState,
    ep_dir: UsbDirection,
    ep_addr: Option<EndpointAddress>,
    index: int,
) -> bool {
    let used = in_use(state, ep_dir);
    if ep_addr is Some && (ep_addr->0).0 % 128 != 0 {
        index == (ep_addr->0).0 % 128
    } else {
        &&& 1 <= index < 16
        &&& used & (1u16 << index) == 0
        &&& forall|i: int| 1 <= i < index ==> used & #[trigger] (1u16 << i) != 0
    }
}

/// An endpoint other than a control endpoint is granted if and only if there are pipes for its
/// transfer type, the requested address has the requested direction and is not in use, or some
/// index is free if no address is requested, a pipe is free, and the first free pipe takes packets
/// of the size. A refusal says which of this fails first. If it is the packet size, the index stays
/// marked as in use. An OUT endpoint reports what it receives and what it misses from then on, and
/// an IN endpoint reports nothing yet.
#[verifier::rlimit(60)]
pub proof fn law_allocation_outcome(
    state: BusState,
    ep_dir: UsbDirection,
    ep_addr: Option<EndpointAddress>,
    ep_type: EndpointType,
    size: u16,
    log: Log,
    next: BusState,
    next_log: Log,
    r: Result<EndpointAddress, UsbError>,
    index: int,
    pipe: int,
)
    requires
        granted(
            allocation(state, ep_dir, ep_addr, ep_type, size),
            ep_dir,
            state,
            log,
            next,
            next_log,
            r,
        ),
        ep_addr is Some && ep_addr->0.direction() == ep_dir ==> (ep_addr->0).0 % 128 < 16,
        next_index(state, ep_dir, ep_addr, index),
        next_pipe(state, pipe, ep_type),
    ensures
        ({
            let direction: int = if ep_dir == UsbDirection::In {
                128
            } else {
                0
            };
            let asked = ep_addr is Some && (ep_addr->0).0 % 128 != 0;
            if asked && ((ep_addr->0).0 >= 128) != (ep_dir == UsbDirection::In) {
                &&& r == Err::<EndpointAddress, UsbError>(UsbError::InvalidEndpoint)
                &&& next == state && next_log == log
            } else if in_use(state, ep_dir) & (1u16 << index) != 0 {
                &&& r == Err::<EndpointAddress, UsbError>(UsbError::InvalidEndpoint)
                &&& next == state && next_log == log
            } else if !takes(pipe, size) {
                &&& r == Err::<EndpointAddress, UsbError>(UsbError::Unsupported)
                &&& next == marked(state, ep_dir, index) && next_log == log
            } else {
                &&& r == Ok::<EndpointAddress, UsbError>(
                    EndpointAddress((direction + index) as u8),
                )
                &&& next.pipe_bindings@ == state.pipe_bindings@.update(
                    pipe,
                    Some(
                        PipeBinding {
                            ep_addr: EndpointAddress((direction + index) as u8),
                            ep_type,
                            max_packet: size,
                        },
                    ),
                )
                &&& next == (BusState {
                    pipe_bindings: next.pipe_bindings,
                    brdyenb_shadow: if ep_dir == UsbDirection::Out {
                        state.brdyenb_shadow | (1u16 << pipe)
                    } else {
                        state.brdyenb_shadow & !(1u16 << pipe)
                    },
                    nrdyenb_shadow: if ep_dir == UsbDirection::Out {
                        state.nrdyenb_shadow | (1u16 << pipe)
                    } else {
                        state.nrdyenb_shadow & !(1u16 << pipe)
                    },
                    bempenb_shadow: state.bempenb_shadow & !(1u16 << pipe),
                    ..marked(state, ep_dir, index)
                })
            }
        }),
{
    if ep_addr is Some {
        law_address_by_arithmetic(ep_addr->0);
    }
    law_free_index_is_lowest(state.allocated(ep_dir), 1);
    law_free_pipe_is_lowest(state.pipe_bindings@, 1, 5);
    law_free_pipe_is_lowest(state.pipe_bindings@, 6, 9);
    assert forall|i: int| #[trigger] bit(i) == 1u16 << i by {}
    let built = EndpointAddress::from_parts(index as usize, ep_dir);
    law_address_round_trip(index as usize, ep_dir);
    law_address_by_arithmetic(built);
    let brdy = state.brdyenb_shadow;
    let nrdy = state.nrdyenb_shadow;
    let b = 1u16 << pipe;
    lemma_join(brdy, b, b);
    lemma_join(nrdy, b, b);
    let mask = state.allocated(ep_dir);
    if !(ep_addr is Some && (ep_addr->0).0 % 128 != 0) {
        let found = crate::usb::bus::allocate::free_index(mask, 1);
        assert(mask & bit(index) == 0);
        assert(found is Some);
        if found->0 < index {
            assert(mask & (1u16 << (found->0 as int)) != 0);
        } else if index < found->0 {
            assert(mask & bit(index) != 0);
        }
        assert(found == Some(index as usize));
    }
    let free = crate::usb::bus::allocate::granted_pipe(state.pipe_bindings@, ep_type);
    assert(free == Some(pipe as u8)) by {
        assert(state.pipe_bindings@[pipe] is None);
        assert(free is Some);
        if free->0 < pipe {
            assert(serves(free->0 as int, ep_type));
            assert(state.pipe_bindings@[free->0 as int] is Some);
        } else if pipe < free->0 {
            assert(state.pipe_bindings@[pipe] is Some);
        }
    }
}

/// A request that no pipe, or no index, is left for is refused, and changes nothing. So is one for
/// a transfer type that there are no pipes for.
pub proof fn law_allocation_runs_out(
    state: BusState,
    ep_dir: UsbDirection,
    ep_addr: Option<EndpointAddress>,
    ep_type: EndpointType,
    size: u16,
    log: Log,
    next: BusState,
    next_log: Log,
    r: Result<EndpointAddress, UsbError>,
)
    requires
        granted(
            allocation(state, ep_dir, ep_addr, ep_type, size),
            ep_dir,
            state,
            log,
            next,
            next_log,
            r,
        ),
        ep_type != EndpointType::Control,
    ensures
        ({
            let asked = ep_addr is Some && (ep_addr->0).0 % 128 != 0;
            let no_pipe = forall|p: int|
                serves(p, ep_type) ==> (#[trigger] state.pipe_bindings@[p]) is Some;
            let no_index = forall|i: int|
                1 <= i < 16 ==> in_use(state, ep_dir) & #[trigger] (1u16 << i) != 0;
            &&& ep_type == EndpointType::Isochronous ==> r == Err::<EndpointAddress, UsbError>(
                UsbError::Unsupported,
            )
            &&& ep_type != EndpointType::Isochronous && !asked && no_index ==> r == Err::<
                EndpointAddress,
                UsbError,
            >(UsbError::EndpointOverflow)
            &&& ep_type != EndpointType::Isochronous && no_pipe ==> r == Err::<
                EndpointAddress,
                UsbError,
            >(UsbError::EndpointOverflow) || (asked && r == Err::<EndpointAddress, UsbError>(
                UsbError::InvalidEndpoint,
            ))
            &&& ep_type == EndpointType::Isochronous || no_pipe || (!asked && no_index) ==> next
                == state && next_log == log
        }),
{
    if ep_addr is Some {
        law_address_by_arithmetic(ep_addr->0);
    }
    law_free_index_is_lowest(state.allocated(ep_dir), 1);
    law_free_pipe_is_lowest(state.pipe_bindings@, 1, 5);
    law_free_pipe_is_lowest(state.pipe_bindings@, 6, 9);
    let found = crate::usb::bus::allocate::free_index(state.allocated(ep_dir), 1);
    if found is Some {
        assert(bit(found->0 as int) == 1u16 << (found->0 as int));
    }
    let free = crate::usb::bus::allocate::granted_pipe(state.pipe_bindings@, ep_type);
    if free is Some {
        assert(serves(free->0 as int, ep_type));
    }
}

/// A granted endpoint has its pipe set up for it right away: configuration and packet size are
/// written through the pipe window, and an OUT endpoint is ready to receive. No other pipe is
/// touched.
pub proof fn law_allocation_sets_the_pipe_up(
    state: BusState,
    ep_dir: UsbDirection,
    ep_addr: Option<EndpointAddress>,
    ep_type: EndpointType,
    size: u16,
    log: Log,
    next: BusState,
    next_log: Log,
    r: Result<EndpointAddress, UsbError>,
    pipe: int,
)
    requires
        granted(
            allocation(state, ep_dir, ep_addr, ep_type, size),
            ep_dir,
            state,
            log,
            next,
            next_log,
            r,
        ),
        ep_addr is Some && ep_addr->0.direction() == ep_dir ==> (ep_addr->0).0 % 128 < 16,
        1 <= pipe <= 9,
    ensures
        ({
            let shown = window(next_log, pipe as u16);
            let before = window(log, pipe as u16);
            let controls = written16(next_log, control_register(pipe));
            if next.pipe_bindings@[pipe] == state.pipe_bindings@[pipe] {
                &&& shown.config == before.config && shown.packet_size == before.packet_size
                &&& controls == written16(log, control_register(pipe))
            } else {
                let binding = next.pipe_bindings@[pipe]->0;
                &&& next.pipe_bindings@[pipe] is Some
                &&& shown.config == Some(configuration(binding) as u16)
                &&& shown.packet_size == Some(binding.max_packet)
                &&& binding.ep_addr.0 < 128 ==> controls.len() > 0 && controls.last() % 4 == 1
            }
        }),
{
    let outcome = allocation(state, ep_dir, ep_addr, ep_type, size);
    if outcome is Bound {
        let index = outcome->Bound_index;
        let bound = outcome->Bound_pipe;
        let binding = outcome->Bound_binding;
        if ep_addr is Some {
            law_address_by_arithmetic(ep_addr->0);
        }
        law_free_index_is_lowest(state.allocated(ep_dir), 1);
        law_free_pipe_is_lowest(state.pipe_bindings@, 1, 5);
        law_free_pipe_is_lowest(state.pipe_bindings@, 6, 9);
        law_address_round_trip(index, ep_dir);
        lemma_begins_itself(next_log);
        lemma_open_pipe(state, log, bound, binding, next_log, pipe);
    }
}

/// The control endpoint: a packet size above 64 bytes is not supported, an address other than that
/// of the control endpoint in the requested direction is invalid, both directions must agree on the
/// packet size, and each direction is granted once.
pub proof fn law_control_allocation_outcome(
    state: BusState,
    ep_dir: UsbDirection,
    ep_addr: Option<EndpointAddress>,
    size: u16,
)
    ensures
        ({
            let (next, r) = control_allocation(state, ep_dir, ep_addr, size);
            let inward = ep_dir == UsbDirection::In;
            let address: u8 = if inward {
                128
            } else {
                0
            };
            let granted_before = if inward {
                state.ep0_in_allocated
            } else {
                state.ep0_out_allocated
            };
            if size > 64 {
                r == Err::<EndpointAddress, UsbError>(UsbError::Unsupported) && next == state
            } else if ep_addr is Some && (ep_addr->0).0 != address {
                r == Err::<EndpointAddress, UsbError>(UsbError::InvalidEndpoint) && next == state
            } else if state.ep0_max_packet != 0 && state.ep0_max_packet != size {
                r == Err::<EndpointAddress, UsbError>(UsbError::EndpointMemoryOverflow) && next
                    == state
            } else {
                &&& r == if granted_before {
                    Err::<EndpointAddress, UsbError>(UsbError::InvalidEndpoint)
                } else {
                    Ok(EndpointAddress(address))
                }
                &&& next == (BusState {
                    ep0_max_packet: size,
                    ep0_in_allocated: state.ep0_in_allocated || inward,
                    ep0_out_allocated: state.ep0_out_allocated || !inward,
                    ..state
                })
            }
        }),
{
    law_address_round_trip(0, ep_dir);
    law_address_by_arithmetic(EndpointAddress::from_parts(0, ep_dir));
    if ep_addr is Some {
        law_address_by_arithmetic(ep_addr->0);
    }
}

} // verus!
