//! The version of the protocol that a connection speaks.

use vstd::prelude::*;

verus! {

/// A version of the protocol.
#[derive(Debug, Clone, Copy, PartialEq, Eq, Structural)]
pub enum Protocol {
    /// The stable one.
    V1,
    /// The draft.
    V2,
}

impl Protocol {
    /// The number of the version.
    pub open spec fn number(self) -> u8 {
        match self {
            Protocol::V1 => 1,
            Protocol::V2 => 2,
        }
    }

    /// The number of the version.
    pub fn as_u8(self) -> (r: u8)
        ensures
            r == self.number(),
    {
        match self {
            Protocol::V1 => 1,
            Protocol::V2 => 2,
        }
    }

    /// The version with a number; the stable one for a number that is unknown.
    pub fn from_u8(value: u8) -> (r: Protocol)
        ensures
            r == (if value == 2 {
                Protocol::V2
            } else {
                Protocol::V1
            }),
            value == 1 || value == 2 ==> r.number() == value,
    {
        if value == 2 {
            Protocol::V2
        } else {
            Protocol::V1
        }
    }

    /// Whether it is the draft.
    pub fn is_v2(self) -> (r: bool)
        ensures
            r == (self is V2),
    {
        match self {
            Protocol::V2 => true,
            Protocol::V1 => false,
        }
    }
}

/// The version that a connection agreed on.
#[derive(Debug)]
pub struct NegotiatedProtocol {
    version: Protocol,
}

impl View for NegotiatedProtocol {
    type V = Protocol;

    closed spec fn view(&self) -> Protocol {
        self.version
    }
}

impl NegotiatedProtocol {
    /// A connection that agreed on nothing yet speaks the stable version.
    pub fn new() -> (r: NegotiatedProtocol)
        ensures
            r@ == Protocol::V1,
    {
        NegotiatedProtocol { version: Protocol::V1 }
    }

    /// The version.
    pub fn get(&self) -> (r: Protocol)
        ensures
            r == self@,
    {
        self.version
    }

    /// The connection agreed on a version.
    pub fn set(&mut self, protocol: Protocol)
        ensures
            final(self)@ == protocol,
    {
        self.version = protocol;
    }
}

impl Default for NegotiatedProtocol {
    fn default() -> (r: NegotiatedProtocol)
        ensures
            r@ == Protocol::V1,
    {
        NegotiatedProtocol::new()
    }
}

/// A version is known by its number.
pub proof fn versions_have_numbers(a: Protocol, b: Protocol)
    ensures
        a.number() == b.number() ==> a == b,
{
}

} // verus!
