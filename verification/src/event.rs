//! The events that the RNS node reports to the proxy, as plain values.

use vstd::prelude::*;

verus! {

/// The identifier of an RNS link: its 16 bytes read as a big-endian number.
#[derive(Clone, Copy, Debug, PartialEq, Eq, Hash, Structural)]
pub struct LinkId {
    pub value: u128,
}

/// What the RNS node reports, on both the client and the server side.
#[derive(Debug)]
pub enum ProxyEvent {
    /// A link came up; `is_initiator` when this side asked for it.
    LinkEstablished { link_id: LinkId, is_initiator: bool },
    /// A link went down.
    LinkClosed { link_id: LinkId },
    /// Bytes arrived on a link.
    LinkData { link_id: LinkId, data: Vec<u8> },
    /// A path to some destination changed.
    PathUpdated,
    /// The node's connection to the local RNS daemon went offline.
    InterfaceDown,
}

} // verus!
