use vstd::prelude::*;

verus! {

/// The role that a node plays in the network.
#[derive(Clone, Copy, Debug, PartialEq, Eq, Structural)]
pub enum NodeType {
    /// A client node is a full node, capable of sending and receiving blocks.
    Client,
    /// A mining node is a full node, capable of producing new blocks.
    Miner,
    /// A peer node is a discovery node, capable of sharing peers of the network.
    Peer,
    /// A sync node is a discovery node, capable of syncing nodes for the network.
    Sync,
}

} // verus!
