//! Protocols and MPLS labels.
use crate::ord::Ranked;
use vstd::prelude::*;

verus! {

#[derive(Clone, Copy, Debug, PartialEq, Eq, Structural)]
pub enum Protocol {
    BFD,
    BGP,
    DIRECT,
    IGMP,
    ISIS,
    LDP,
    OSPFV2,
    OSPFV3,
    RIPV2,
    RIPNG,
    STATIC,
}

impl View for Protocol {
    type V = Protocol;

    open spec fn view(&self) -> Protocol {
        *self
    }
}

impl Protocol {
    /// The position of the protocol in the order of protocols.
    pub open spec fn index_spec(self) -> u8 {
        match self {
            Protocol::BFD => 0,
            Protocol::BGP => 1,
            Protocol::DIRECT => 2,
            Protocol::IGMP => 3,
            Protocol::ISIS => 4,
            Protocol::LDP => 5,
            Protocol::OSPFV2 => 6,
            Protocol::OSPFV3 => 7,
            Protocol::RIPV2 => 8,
            Protocol::RIPNG => 9,
            Protocol::STATIC => 10,
        }
    }

    fn index(&self) -> (r: u8)
        ensures
            r == self.index_spec(),
    {
        match self {
            Protocol::BFD => 0,
            Protocol::BGP => 1,
            Protocol::DIRECT => 2,
            Protocol::IGMP => 3,
            Protocol::ISIS => 4,
            Protocol::LDP => 5,
            Protocol::OSPFV2 => 6,
            Protocol::OSPFV3 => 7,
            Protocol::RIPV2 => 8,
            Protocol::RIPNG => 9,
            Protocol::STATIC => 10,
        }
    }
}

impl Ranked for Protocol {
    open spec fn rank(self) -> int {
        self.index_spec() as int
    }

    proof fn rank_identifies(a: Self, b: Self) {
    }

    proof fn view_is_value(self) {
    }

    fn ranks_below(&self, other: &Self) -> (r: bool) {
        self.index() < other.index()
    }
}

/// An MPLS label.
#[derive(Clone, Copy, Debug, PartialEq, Eq, Structural)]
pub struct Label(pub u32);

/// The label that asks the penultimate router to pop the stack.
pub const IMPLICIT_NULL: u32 = 3;

/// The last label with a special meaning.
pub const RESERVED_MAX: u32 = 15;

impl Label {
    pub fn new(value: u32) -> (r: Self)
        ensures
            r.0 == value,
    {
        Label(value)
    }

    pub fn get(&self) -> (r: u32)
        ensures
            r == self.0,
    {
        self.0
    }

    /// Whether the label has a special meaning.
    pub fn is_reserved(&self) -> (r: bool)
        ensures
            r == (self.0 <= RESERVED_MAX),
    {
        self.0 <= RESERVED_MAX
    }

    pub fn is_implicit_null(&self) -> (r: bool)
        ensures
            r == (self.0 == IMPLICIT_NULL),
    {
        self.0 == IMPLICIT_NULL
    }
}

}
