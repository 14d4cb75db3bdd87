//! What the network side reports to the interface, and what the interface
//! asks of the network side.

use vstd::prelude::*;
use crate::types::{GroupInfo, Message, NodeId, Peer, PeerAddr};

verus! {

/// A report from the mesh to the interface.
#[derive(Debug)]
pub enum NetEvent {
    PeerJoined(Peer),
    PeerLeft(NodeId),
    MessageReceived(Message),
    MessageDelivered { msg_id: String },
    FileOfferReceived {
        from_id: NodeId,
        from_nick: String,
        filename: String,
        size: u64,
        transfer_id: String,
    },
    TransferProgress { transfer_id: String, bytes_done: u64 },
    FileTransferComplete { transfer_id: String, dest_path: String },
    FileTransferFailed { transfer_id: String, reason: String },
    /// A private group was announced on the mesh.
    GroupAnnounced { info: GroupInfo },
    /// Someone asks to join a group this node owns.
    GroupJoinRequest { group_name: String, requester_id: NodeId, requester_nick: String },
    /// This node's join request was approved.
    GroupJoinApproved { group_name: String },
    /// This node's join request was denied.
    GroupJoinDenied { group_name: String },
    GatewayLinked(String),
    Error(String),
}

/// A request from the interface to the mesh.
#[derive(Debug)]
pub enum UiCommand {
    SendMessage { channel: String, content: String },
    SendCommand { channel: String, cmd: String },
    SendFile { peer_id: NodeId, path: String },
    AcceptFile { transfer_id: String },
    RejectFile { transfer_id: String },
    /// Create a new private group and announce it.
    CreateGroup { name: String },
    /// Ask the owner of a private group to let this node in.
    RequestJoinGroup { group_name: String, owner_id: NodeId },
    /// Approve a pending join request (group owner only).
    ApproveJoin { group_name: String, requester_id: NodeId },
    /// Deny a pending join request.
    DenyJoin { group_name: String, requester_id: NodeId },
    EnableGateway { target_addr: PeerAddr },
    Shutdown,
}

} // verus!
