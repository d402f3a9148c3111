//! A message on its whole way: from the keys of one user to the conversation of another.

use vstd::prelude::*;

use crate::app_model::{AppActionView, AppView, ChatLineView, KeyEvent, short};
use crate::message::{NetEventView, PeerId, UiCommandView};
use crate::network::{
    LinkActionView, LinkEvent, ManagerActionView, ManagerEventView, ManagerView, link_stepped,
};
use crate::text::trimmed;
use crate::wire::{WireMsg, WireMsgView, line_determines_message, line_of};

verus! {

/// What the sender's manager puts on the wire for a message to `to`, if it puts a line there.
pub open spec fn line_sent(
    manager: ManagerView,
    to: PeerId,
    body: Seq<char>,
    own_onion: Seq<char>,
    now: u64,
) -> Option<Seq<char>> {
    let cmd = UiCommandView::Send { peer: to, body };
    match manager.stepped(ManagerEventView::Command(cmd), own_onion, now).1 {
        ManagerActionView::Forward { peer, line } if peer == to => Some(line),
        _ => None,
    }
}

/// A message arrives as it was typed. When Enter sends text to a live connection, a line goes
/// out on it; whichever message that line is read as, as long as it is one whose line it is, is
/// the one that was sent; and the receiver's conversation with the sender then ends with the
/// text that was typed, under the sender's own address.
pub proof fn a_message_arrives_as_typed(
    sender: AppView,
    key: KeyEvent,
    to: PeerId,
    body: Seq<char>,
    manager: ManagerView,
    own_onion: Seq<char>,
    now: u64,
    received: WireMsg,
    receiver: AppView,
    from: PeerId,
)
    requires
        sender.after_key(key).1 == Some(
            AppActionView::Command(UiCommandView::Send { peer: to, body }),
        ),
        manager.live.contains(to),
        line_sent(manager, to, body, own_onion, now) == Some(line_of(received@)),
        receiver.peers.contains_key(from),
    ensures
        received@ == (WireMsgView { from_onion: own_onion, body: trimmed(sender.input), ts: now }),
        link_stepped(from, LinkEvent::Line(Ok(received))) == LinkActionView::Report(
            NetEventView::Message { peer: from, msg: received@ },
        ),
        receiver.after_event(NetEventView::Message { peer: from, msg: received@ }).peers[from].log
            == receiver.peers[from].log.push(
            ChatLineView { from_me: false, who: short(own_onion), body: trimmed(sender.input) },
        ),
{
    let sent = WireMsgView { from_onion: own_onion, body, ts: now };
    line_determines_message(sent, received@);
}

/// A message to a live connection always goes out, and goes out on that connection.
pub proof fn a_message_to_a_live_peer_goes_out(
    manager: ManagerView,
    to: PeerId,
    body: Seq<char>,
    own_onion: Seq<char>,
    now: u64,
)
    ensures
        line_sent(manager, to, body, own_onion, now) == (if manager.live.contains(to) {
            Some(line_of(WireMsgView { from_onion: own_onion, body, ts: now }))
        } else {
            None
        }),
{
}

} // verus!
