//! Endpoint addresses, transfer types and the results the USB stack above the bus works with.

use vstd::prelude::*;

verus! {

/// Direction of a transfer, as the host sees it.
#[derive(Clone, Copy, Debug, PartialEq, Eq, Structural)]
pub enum UsbDirection {
    /// Host to device.
    Out,
    /// Device to host.
    In,
}

/// Transfer type of an endpoint.
#[derive(Clone, Copy, Debug, PartialEq, Eq, Structural)]
pub enum EndpointType {
    Control,
    Isochronous,
    Bulk,
    Interrupt,
}

/// Error of a bus operation.
#[derive(Clone, Copy, Debug, PartialEq, Eq, Structural)]
pub enum UsbError {
    /// The operation would block.
    WouldBlock,
    /// Parsing failed.
    ParseError,
    /// A buffer is too short for the data.
    BufferOverflow,
    /// There are more endpoints than the peripheral supports.
    EndpointOverflow,
    /// There is more packet memory in use than the peripheral supports.
    EndpointMemoryOverflow,
    /// The endpoint address is invalid or in use.
    InvalidEndpoint,
    /// The operation is not supported.
    Unsupported,
    /// The operation is not valid in the current state.
    InvalidState,
}

/// What one poll of the bus found. Bit `n` of a mask stands for endpoint `n`.
#[derive(Clone, Copy, Debug, PartialEq, Eq, Structural)]
pub enum PollResult {
    /// Nothing happened.
    Idle,
    /// The host reset the bus.
    Reset,
    /// Data was received or sent.
    Data {
        /// OUT endpoints that have received a packet.
        ep_out: u16,
        /// IN endpoints that have finished sending a packet.
        ep_in_complete: u16,
        /// Endpoints that have received a SETUP packet.
        ep_setup: u16,
    },
    /// The bus is suspended.
    Suspend,
    /// The host resumed the bus.
    Resume,
}

/// Bit of an endpoint address that is set for IN endpoints.
pub const DIRECTION_IN: u8 = 0x80;

/// Address of an endpoint: its index in the low seven bits, its direction in the top bit.
#[derive(Clone, Copy, Debug, PartialEq, Eq, Structural)]
pub struct EndpointAddress(pub u8);

impl UsbDirection {
    /// The direction bit of an endpoint address.
    pub open spec fn bits(self) -> u8 {
        match self {
            UsbDirection::Out => 0,
            UsbDirection::In => DIRECTION_IN,
        }
    }
}

impl EndpointAddress {
    pub open spec fn index_spec(&self) -> usize {
        (self.0 & !DIRECTION_IN) as usize
    }

    pub open spec fn direction_spec(&self) -> UsbDirection {
        if self.0 & DIRECTION_IN != 0 {
            UsbDirection::In
        } else {
            UsbDirection::Out
        }
    }

    pub open spec fn from_parts_spec(index: usize, dir: UsbDirection) -> EndpointAddress {
        EndpointAddress((#[verifier::truncate] (index as u8)) | dir.bits())
    }

    /// Builds an address from its index and direction.
    #[verifier::when_used_as_spec(from_parts_spec)]
    pub fn from_parts(index: usize, dir: UsbDirection) -> (r: EndpointAddress)
        ensures
            r == EndpointAddress::from_parts_spec(index, dir),
    {
        let dir_bits: u8 = match dir {
            UsbDirection::Out => 0,
            UsbDirection::In => DIRECTION_IN,
        };
        EndpointAddress((#[verifier::truncate] (index as u8)) | dir_bits)
    }

    /// The direction part of the address.
    #[verifier::when_used_as_spec(direction_spec)]
    pub fn direction(&self) -> (r: UsbDirection)
        ensures
            r == self.direction_spec(),
    {
        if (self.0 & DIRECTION_IN) != 0 {
            UsbDirection::In
        } else {
            UsbDirection::Out
        }
    }

    /// The index part of the address.
    #[verifier::when_used_as_spec(index_spec)]
    pub fn index(&self) -> (r: usize)
        ensures
            r == self.index_spec(),
            r < 128,
    {
        let a: u8 = self.0;
        assert(a & !0x80u8 < 128) by (bit_vector);
        (self.0 & !DIRECTION_IN) as usize
    }
}

/// An address built from an index below 128 and a direction has that index and that direction.
pub proof fn law_address_round_trip(index: usize, dir: UsbDirection)
    requires
        index < 128,
    ensures
        EndpointAddress::from_parts(index, dir).index() == index,
        EndpointAddress::from_parts(index, dir).direction() == dir,
{
    let i = index as u8;
    assert((i | 0u8) & !0x80u8 == i && (i | 0x80u8) & !0x80u8 == i && (i | 0u8) & 0x80u8 == 0 && (i
        | 0x80u8) & 0x80u8 != 0) by (bit_vector)
        requires
            i < 128,
    ;
}

/// Addresses from 128 on are those of IN endpoints, and the index is what is left below 128.
pub proof fn law_address_by_arithmetic(a: EndpointAddress)
    ensures
        a.direction() == UsbDirection::In <==> a.0 >= 128,
        a.index() == a.0 % 128,
{
    let x = a.0;
    assert(x & !0x80u8 == x % 128 && (x & 0x80u8 != 0 <==> x >= 128)) by (bit_vector);
}

/// An address is made of its index, which is below 128, and its direction, and nothing else.
pub proof fn law_address_is_its_parts(a: EndpointAddress)
    ensures
        a.index() < 128,
        EndpointAddress::from_parts(a.index(), a.direction()) == a,
{
    let x = a.0;
    assert(x & !0x80u8 < 128) by (bit_vector);
    assert((x & !0x80u8) | (if x & 0x80u8 != 0 { 0x80u8 } else { 0u8 }) == x) by (bit_vector);
}

} // verus!
