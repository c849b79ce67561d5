//! Peer connections of the registry's consensus layer.
//!
//! The registry runs as a single voter: it reaches quorum alone and never
//! sends a peer RPC. A connection still exists for each target the consensus
//! layer asks for, and every call on it is refused as unreachable.

use crate::raft::types::NodeId;
use crate::text::to_owned;
use vstd::prelude::*;

verus! {

/// Why a peer RPC did not complete.
#[derive(Clone, Copy, Debug, PartialEq, Eq, Structural)]
pub enum PeerRpcError {
    /// The peer could not be reached; a single-voter registry has no peers.
    Unreachable,
}

/// The RPCs the consensus layer sends to a peer.
#[derive(Clone, Copy, Debug, PartialEq, Eq, Structural)]
pub enum PeerRpc {
    AppendEntries,
    InstallSnapshot,
    Vote,
}

/// Makes a connection per target node.
#[derive(Clone, Copy, Debug, Default)]
pub struct NetworkFactory;

/// A connection to one peer.
#[derive(Clone, Debug)]
pub struct NetworkConnection {
    target: NodeId,
    addr: String,
}

impl NetworkConnection {
    /// The node this connection is for.
    pub closed spec fn target_spec(&self) -> NodeId {
        self.target
    }

    /// The address it was given.
    pub closed spec fn addr_spec(&self) -> Seq<char> {
        self.addr@
    }

    /// The node this connection is for.
    pub fn target(&self) -> (r: NodeId)
        ensures
            r == self.target_spec(),
    {
        self.target
    }

    /// The address it was given.
    pub fn addr(&self) -> (r: &str)
        ensures
            r@ == self.addr_spec(),
    {
        self.addr.as_str()
    }

    /// Sends `rpc` to the peer. With a single voter there is no peer to
    /// reach, so every RPC is refused.
    pub fn send(&mut self, rpc: PeerRpc) -> (r: Result<(), PeerRpcError>)
        ensures
            r == Err::<(), PeerRpcError>(PeerRpcError::Unreachable),
            final(self).target_spec() == old(self).target_spec(),
            final(self).addr_spec() == old(self).addr_spec(),
    {
        Err(PeerRpcError::Unreachable)
    }
}

impl NetworkFactory {
    /// A connection to `target` at `addr`.
    pub fn new_client(&mut self, target: NodeId, addr: &str) -> (r: NetworkConnection)
        ensures
            r.target_spec() == target,
            r.addr_spec() == addr@,
    {
        NetworkConnection { target, addr: to_owned(addr) }
    }
}

} // verus!
