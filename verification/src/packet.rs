//! What the session reads from the header of a received packet.

use vstd::prelude::*;

verus! {

/// The kind of a packet, as its header declares it.
#[derive(Clone, Copy, Debug, PartialEq, Eq)]
pub enum PacketType {
    Initial,
    Retry,
    Handshake,
    ZeroRTT,
    VersionNegotiation,
    Short,
}

/// The fields of a parsed packet header.
#[derive(Clone, Debug, PartialEq, Eq)]
pub struct PacketHeader {
    /// The kind of the packet.
    pub ty: PacketType,
    /// The protocol version that the packet names.
    pub version: u32,
    /// The destination connection id.
    pub dcid: Vec<u8>,
    /// The source connection id.
    pub scid: Vec<u8>,
    /// The address-validation token; only initial packets carry one.
    pub token: Option<Vec<u8>>,
}

impl PacketHeader {
    /// Whether this is the header of an initial handshake packet.
    pub open spec fn is_initial(self) -> bool {
        self.ty is Initial
    }

    /// The token the header carries; a missing token counts as an empty one.
    pub open spec fn token_bytes(self) -> Seq<u8> {
        match self.token {
            Some(t) => t@,
            None => Seq::empty(),
        }
    }

    /// Whether this is the header of an initial handshake packet.
    pub fn initial(&self) -> (r: bool)
        ensures
            r == self.is_initial(),
    {
        match self.ty {
            PacketType::Initial => true,
            _ => false,
        }
    }
}

} // verus!
