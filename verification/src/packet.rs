//! Data types describing the RADIUS wire format: the packet code, the
//! attribute union, and the packet itself.

use vstd::prelude::*;

verus! {

/// The length of the authenticator field in the RADIUS packet header.
pub const AUTHENTICATOR_LEN: usize = 16;

/// The code (intent) field of a RADIUS packet.
///
/// Unrecognized values are preserved losslessly in `Unknown`; equality is
/// defined by the underlying wire byte, so `Unknown(1)` compares equal to
/// `AccessRequest`.
#[derive(Debug, Copy, Clone)]
pub enum Code {
    AccessRequest,
    AccessAccept,
    AccessReject,
    Unknown(u8),
}

impl Code {
    /// The wire byte this code stands for; the mapping is total and, composed
    /// with `spec_from_byte`, lossless on bytes.
    pub open spec fn spec_byte(self) -> u8 {
        match self {
            Code::AccessRequest => 1,
            Code::AccessAccept => 2,
            Code::AccessReject => 3,
            Code::Unknown(b) => b,
        }
    }

    /// The code a wire byte stands for: recognized variants for 1..=3,
    /// `Unknown` otherwise.
    pub open spec fn spec_from_byte(b: u8) -> Code {
        if b == 1 {
            Code::AccessRequest
        } else if b == 2 {
            Code::AccessAccept
        } else if b == 3 {
            Code::AccessReject
        } else {
            Code::Unknown(b)
        }
    }

    /// Encode this code as its wire byte.
    pub fn to_byte(self) -> (r: u8)
        ensures
            r == self.spec_byte(),
    {
        match self {
            Code::AccessRequest => 1,
            Code::AccessAccept => 2,
            Code::AccessReject => 3,
            Code::Unknown(b) => b,
        }
    }

    /// Decode a wire byte into a code.
    pub fn from_byte(b: u8) -> (r: Code)
        ensures
            r == Code::spec_from_byte(b),
            r.spec_byte() == b,
    {
        if b == 1 {
            Code::AccessRequest
        } else if b == 2 {
            Code::AccessAccept
        } else if b == 3 {
            Code::AccessReject
        } else {
            Code::Unknown(b)
        }
    }
}

impl PartialEq for Code {
    fn eq(&self, other: &Self) -> (r: bool) {
        self.to_byte() == other.to_byte()
    }
}

impl Eq for Code {

}

impl vstd::std_specs::cmp::PartialEqSpecImpl for Code {
    open spec fn obeys_eq_spec() -> bool {
        true
    }

    open spec fn eq_spec(&self, other: &Self) -> bool {
        self.spec_byte() == other.spec_byte()
    }
}

/// An attribute in a RADIUS packet. Only types 1 (user name) and 2 (hidden
/// user password) are interpreted; every other type round-trips as opaque
/// bytes tagged with its original type byte.
#[derive(Debug)]
pub enum Attribute {
    UserName(String),
    UserPassword(Vec<u8>),
    Unknown(u8, Vec<u8>),
}

/// The mathematical model of an attribute.
pub enum AttributeModel {
    UserName(Seq<char>),
    UserPassword(Seq<u8>),
    Unknown(u8, Seq<u8>),
}

impl View for Attribute {
    type V = AttributeModel;

    open spec fn view(&self) -> AttributeModel {
        match self {
            Attribute::UserName(s) => AttributeModel::UserName(s@),
            Attribute::UserPassword(p) => AttributeModel::UserPassword(p@),
            Attribute::Unknown(t, v) => AttributeModel::Unknown(*t, v@),
        }
    }
}

impl DeepView for Attribute {
    type V = AttributeModel;

    open spec fn deep_view(&self) -> AttributeModel {
        self.view()
    }
}

/// The mathematical model of a packet.
pub struct PacketModel {
    pub code: Code,
    pub identifier: u8,
    pub authenticator: Seq<u8>,
    pub attributes: Seq<AttributeModel>,
}

/// A decoded RADIUS packet.
#[derive(Debug)]
pub struct Packet {
    pub code: Code,
    pub identifier: u8,
    pub authenticator: Vec<u8>,
    pub attributes: Vec<Attribute>,
}

impl View for Packet {
    type V = PacketModel;

    open spec fn view(&self) -> PacketModel {
        PacketModel {
            code: self.code,
            identifier: self.identifier,
            authenticator: self.authenticator@,
            attributes: self.attributes.deep_view(),
        }
    }
}

impl PacketModel {
    /// A packet is well formed when its authenticator holds exactly the 16
    /// header authenticator bytes.
    pub open spec fn wf(self) -> bool {
        self.authenticator.len() == AUTHENTICATOR_LEN
    }
}

impl Packet {
    /// A packet is well formed when its model is.
    pub open spec fn wf(&self) -> bool {
        self@.wf()
    }
}

} // verus!
