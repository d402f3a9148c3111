//! The two kinds of message that pass between the network layer and the terminal interface.
//! They are the only coupling between the two.

use vstd::prelude::*;

use crate::wire::{WireMsg, WireMsgView};

verus! {

/// A locally unique handle for a peer connection. It stands for the connection even before (or
/// after) the remote identity is known, and a re-connect gets a fresh one.
pub type PeerId = u32;

/// From the network layer to the interface.
#[derive(Debug)]
pub enum NetEvent {
    /// Our own onion service is published; this is our identity to share with peers.
    OwnOnionReady { onion: String },
    /// A peer connection was established (either we dialed out, or we accepted inbound).
    PeerConnected { peer: PeerId, onion: String, inbound: bool },
    /// A peer connection closed cleanly.
    PeerDisconnected { peer: PeerId },
    /// A peer connection failed to establish or broke mid-stream.
    PeerError { peer: PeerId, err: String },
    /// A chat message arrived from a connected peer.
    Message { peer: PeerId, msg: WireMsg },
    /// Free-form text for the status bar and the system log.
    Status(String),
}

/// What a [`NetEvent`] says.
#[verifier::ext_equal]
pub enum NetEventView {
    OwnOnionReady { onion: Seq<char> },
    PeerConnected { peer: PeerId, onion: Seq<char>, inbound: bool },
    PeerDisconnected { peer: PeerId },
    PeerError { peer: PeerId, err: Seq<char> },
    Message { peer: PeerId, msg: WireMsgView },
    Status(Seq<char>),
}

impl View for NetEvent {
    type V = NetEventView;

    open spec fn view(&self) -> NetEventView {
        match *self {
            NetEvent::OwnOnionReady { onion } => NetEventView::OwnOnionReady { onion: onion@ },
            NetEvent::PeerConnected { peer, onion, inbound } => NetEventView::PeerConnected {
                peer,
                onion: onion@,
                inbound,
            },
            NetEvent::PeerDisconnected { peer } => NetEventView::PeerDisconnected { peer },
            NetEvent::PeerError { peer, err } => NetEventView::PeerError { peer, err: err@ },
            NetEvent::Message { peer, msg } => NetEventView::Message { peer, msg: msg@ },
            NetEvent::Status(s) => NetEventView::Status(s@),
        }
    }
}

/// From the interface to the network manager.
#[derive(Debug)]
pub enum UiCommand {
    /// Dial a new outbound peer by onion address (with or without the `.onion` suffix).
    Connect { onion: String },
    /// Send a chat message to an established peer.
    Send { peer: PeerId, body: String },
    /// Drop a peer connection.
    Disconnect { peer: PeerId },
    /// Tear everything down (the user is quitting).
    Shutdown,
}

/// What a [`UiCommand`] says.
#[verifier::ext_equal]
pub enum UiCommandView {
    Connect { onion: Seq<char> },
    Send { peer: PeerId, body: Seq<char> },
    Disconnect { peer: PeerId },
    Shutdown,
}

impl View for UiCommand {
    type V = UiCommandView;

    open spec fn view(&self) -> UiCommandView {
        match *self {
            UiCommand::Connect { onion } => UiCommandView::Connect { onion: onion@ },
            UiCommand::Send { peer, body } => UiCommandView::Send { peer, body: body@ },
            UiCommand::Disconnect { peer } => UiCommandView::Disconnect { peer },
            UiCommand::Shutdown => UiCommandView::Shutdown,
        }
    }
}

} // verus!
