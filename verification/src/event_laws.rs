//! What each network event is for: what it does to the state and what it leaves alone, in every
//! state.

use vstd::prelude::*;

use crate::app_model::{
    AppActionView, AppView, ChatLineView, KeyCode, KeyEvent, PeerView, short, shortens, tag,
};
use crate::key_laws::peers_lists_who_is_online;
use crate::message::{NetEventView, PeerId, UiCommandView};
use crate::text::{decimal, ends_in, white_space};
use crate::text_laws::trimming_leaves_what_white_space_surrounds;
use crate::wire::WireMsgView;

verus! {

/// Our own address is taken in: it is ours from then on, the status shows its short form, the
/// system log shows all of it, and nothing else changes.
pub proof fn our_address_is_shown(v: AppView, onion: Seq<char>)
    ensures
        v.after_event(NetEventView::OwnOnionReady { onion }) == (AppView {
            own_onion: Some(onion),
            status: "online · "@ + short(onion),
            system: v.system + seq!["your identity: "@ + onion],
            ..v
        }),
{
    assert(v.system + seq!["your identity: "@ + onion] == v.system.push("your identity: "@ + onion));
}

/// A status report is the new status and stands last in the system log; nothing else changes.
pub proof fn a_status_is_shown(v: AppView, s: Seq<char>)
    ensures
        v.after_event(NetEventView::Status(s)) == (AppView {
            status: s,
            system: v.system + seq![s],
            ..v
        }),
{
    assert(v.system + seq![s] == v.system.push(s));
}

/// A peer that connects is online from then on, whether it was known or not, and in the direction
/// that the event names; it keeps its conversation, and keeps its address unless the event brings
/// one. A new peer takes the last place in the display order, a known one keeps its place. It gets
/// the focus if the system log has it. The system log says who connected, and no other peer and
/// no other part of the state changes.
pub proof fn a_connected_peer_is_online(v: AppView, peer: PeerId, onion: Seq<char>, inbound: bool)
    ensures
        ({
            let after = v.after_event(NetEventView::PeerConnected { peer, onion, inbound });
            let p = after.peers[peer];
            let name = if p.onion.len() == 0 {
                "(incoming)"@
            } else {
                short(p.onion)
            };
            &&& after.peers.dom() == v.peers.dom().insert(peer)
            &&& forall|other: PeerId|
                other != peer && #[trigger] v.peers.contains_key(other) ==> after.peers[other]
                    == v.peers[other]
            &&& p.connected
            &&& p.inbound == inbound
            &&& onion.len() > 0 ==> p.onion == onion
            &&& onion.len() == 0 && v.peers.contains_key(peer) ==> p.onion == v.peers[peer].onion
            &&& onion.len() == 0 && !v.peers.contains_key(peer) ==> p.onion.len() == 0
            &&& v.peers.contains_key(peer) ==> p.log == v.peers[peer].log
            &&& !v.peers.contains_key(peer) ==> p.log.len() == 0
            &&& after.order == (if v.peers.contains_key(peer) || v.order.contains(peer) {
                v.order
            } else {
                v.order + seq![peer]
            })
            &&& after.active == (if v.active is None {
                Some(peer)
            } else {
                v.active
            })
            &&& inbound ==> after.system == v.system + seq![
                "["@ + decimal(peer as nat) + "] connected (incoming): "@ + name,
            ]
            &&& !inbound ==> after.system == v.system + seq![
                "["@ + decimal(peer as nat) + "] connected (outgoing): "@ + name,
            ]
            &&& after == (AppView {
                peers: after.peers,
                order: after.order,
                active: after.active,
                system: after.system,
                ..v
            })
        }),
{
    let after = v.after_event(NetEventView::PeerConnected { peer, onion, inbound });
    let p = after.peers[peer];
    assert(after.peers.dom() =~= v.peers.dom().insert(peer));
    assert(v.order + seq![peer] == v.order.push(peer));
    reveal_strlit("[");
    reveal_strlit("]");
    reveal_strlit(" connected (");
    reveal_strlit("incoming");
    reveal_strlit("outgoing");
    reveal_strlit("): ");
    reveal_strlit("] connected (incoming): ");
    reveal_strlit("] connected (outgoing): ");
    assert("]"@ + " connected ("@ + "incoming"@ + "): "@ =~= "] connected (incoming): "@);
    assert("]"@ + " connected ("@ + "outgoing"@ + "): "@ =~= "] connected (outgoing): "@);
    let direction = if inbound {
        "incoming"@
    } else {
        "outgoing"@
    };
    let line = tag(peer) + " connected ("@ + direction + "): "@ + p.label();
    assert(line =~= "["@ + decimal(peer as nat) + ("]"@ + " connected ("@ + direction + "): "@)
        + p.label());
    assert(v.system + seq![line] == v.system.push(line));
}

/// A known peer that disconnects is offline from then on and keeps its place, its address and its
/// conversation. The system log says who disconnected, and nothing else changes. Of a peer that
/// nobody knows there is nothing to say.
pub proof fn a_disconnected_peer_is_offline(v: AppView, peer: PeerId)
    ensures
        ({
            let after = v.after_event(NetEventView::PeerDisconnected { peer });
            let name = if v.peers[peer].onion.len() == 0 {
                "(incoming)"@
            } else {
                short(v.peers[peer].onion)
            };
            &&& v.peers.contains_key(peer) ==> {
                &&& after.peers.dom() == v.peers.dom()
                &&& forall|other: PeerId|
                    other != peer && #[trigger] v.peers.contains_key(other) ==> after.peers[other]
                        == v.peers[other]
                &&& after.peers[peer] == (PeerView { connected: false, ..v.peers[peer] })
                &&& after.system == v.system + seq![
                    "["@ + decimal(peer as nat) + "] disconnected: "@ + name,
                ]
                &&& after == (AppView { peers: after.peers, system: after.system, ..v })
            }
            &&& !v.peers.contains_key(peer) ==> after == v
        }),
{
    let after = v.after_event(NetEventView::PeerDisconnected { peer });
    reveal_strlit("]");
    reveal_strlit(" disconnected: ");
    reveal_strlit("] disconnected: ");
    assert("]"@ + " disconnected: "@ =~= "] disconnected: "@);
    let line = tag(peer) + " disconnected: "@ + v.peers[peer].label();
    assert(line =~= "["@ + decimal(peer as nat) + ("]"@ + " disconnected: "@)
        + v.peers[peer].label());
    assert(v.system + seq![line] == v.system.push(line));
    if v.peers.contains_key(peer) {
        assert(after.peers.dom() =~= v.peers.dom());
    }
}

/// An error is always shown in the system log, with the handle that it is about; a known peer is
/// offline from then on and keeps everything else, and nothing else changes.
pub proof fn an_error_is_shown_and_ends_the_connection(v: AppView, peer: PeerId, err: Seq<char>)
    ensures
        ({
            let after = v.after_event(NetEventView::PeerError { peer, err });
            &&& after.peers.dom() == v.peers.dom()
            &&& forall|other: PeerId|
                other != peer && #[trigger] v.peers.contains_key(other) ==> after.peers[other]
                    == v.peers[other]
            &&& v.peers.contains_key(peer) ==> after.peers[peer] == (PeerView {
                connected: false,
                ..v.peers[peer]
            })
            &&& after.system == v.system + seq![
                "["@ + decimal(peer as nat) + "] error: "@ + err,
            ]
            &&& after == (AppView { peers: after.peers, system: after.system, ..v })
        }),
{
    let after = v.after_event(NetEventView::PeerError { peer, err });
    reveal_strlit("]");
    reveal_strlit(" error: ");
    reveal_strlit("] error: ");
    assert("]"@ + " error: "@ =~= "] error: "@);
    let line = tag(peer) + " error: "@ + err;
    assert(line =~= "["@ + decimal(peer as nat) + ("]"@ + " error: "@) + err);
    assert(v.system + seq![line] == v.system.push(line));
    assert(after.peers.dom() =~= v.peers.dom());
}

/// A message from a known peer stands last in its conversation, under the sender's address and
/// with its own text, whether the peer is online or not; the peer learns that address if it had
/// none; the view goes back to the newest line if the conversation has the focus; and nothing else
/// changes. A message from nobody known is dropped with a note.
pub proof fn a_message_stands_last_in_its_conversation(v: AppView, ev: NetEventView)
    requires
        ev is Message,
    ensures
        ({
            let after = v.after_event(ev);
            let peer = ev->Message_peer;
            let msg = ev->msg;
            &&& v.peers.contains_key(peer) ==> {
                &&& after.peers.dom() == v.peers.dom()
                &&& forall|other: PeerId|
                    other != peer && #[trigger] v.peers.contains_key(other) ==> after.peers[other]
                        == v.peers[other]
                &&& after.peers[peer].log == v.peers[peer].log + seq![
                    ChatLineView { from_me: false, who: short(msg.from_onion), body: msg.body },
                ]
                &&& after.peers[peer].connected == v.peers[peer].connected
                &&& after.peers[peer].inbound == v.peers[peer].inbound
                &&& after.peers[peer].onion == (if v.peers[peer].onion.len() > 0 {
                    v.peers[peer].onion
                } else {
                    msg.from_onion
                })
                &&& v.active == Some(peer) ==> after.scroll == 0
                &&& v.active != Some(peer) ==> after.scroll == v.scroll
                &&& after == (AppView { peers: after.peers, scroll: after.scroll, ..v })
            }
            &&& !v.peers.contains_key(peer) ==> after == (AppView {
                system: v.system + seq![
                    "["@ + decimal(peer as nat) + "] message from unknown peer dropped"@,
                ],
                ..v
            })
        }),
{
    let after = v.after_event(ev);
    let peer = ev->Message_peer;
    let msg = ev->msg;
    reveal_strlit("]");
    reveal_strlit(" message from unknown peer dropped");
    reveal_strlit("] message from unknown peer dropped");
    assert("]"@ + " message from unknown peer dropped"@ =~= "] message from unknown peer dropped"@);
    let note = tag(peer) + " message from unknown peer dropped"@;
    assert(note =~= "["@ + decimal(peer as nat) + ("]"@ + " message from unknown peer dropped"@));
    assert(v.system + seq![note] == v.system.push(note));
    if v.peers.contains_key(peer) {
        assert(after.peers.dom() =~= v.peers.dom());
        let line = ChatLineView { from_me: false, who: short(msg.from_onion), body: msg.body };
        assert(v.peers[peer].log + seq![line] == v.peers[peer].log.push(line));
    }
}

/// Whether a peer can be written to follows its connection alone: after it connected it can be,
/// whichever side dialed, and after it disconnected or failed it cannot be until it connects
/// again.
pub proof fn a_peer_can_be_answered_while_it_is_connected(
    v: AppView,
    peer: PeerId,
    onion: Seq<char>,
    inbound: bool,
    err: Seq<char>,
    body: Seq<char>,
)
    requires
        body.len() > 0,
        !white_space(body[0]),
        !white_space(body.last()),
        body[0] != '/',
    ensures
        ({
            let enter = KeyEvent { code: KeyCode::Enter, control: false };
            let on = v.after_event(NetEventView::PeerConnected { peer, onion, inbound });
            let off = on.after_event(NetEventView::PeerDisconnected { peer });
            let failed = on.after_event(NetEventView::PeerError { peer, err });
            let typed = |w: AppView| AppView { input: body, active: Some(peer), ..w };
            &&& typed(on).after_key(enter).1 == Some(
                AppActionView::Command(UiCommandView::Send { peer, body }),
            )
            &&& typed(off).after_key(enter).1 is None
            &&& typed(failed).after_key(enter).1 is None
            &&& typed(
                off.after_event(NetEventView::PeerConnected { peer, onion, inbound }),
            ).after_key(enter).1 == Some(
                AppActionView::Command(UiCommandView::Send { peer, body }),
            )
        }),
{
    trimming_leaves_what_white_space_surrounds(Seq::empty(), body, Seq::empty());
    assert(Seq::<char>::empty() + body + Seq::<char>::empty() == body);
}

/// The answer to `/peers` follows the connections: a peer that connected is listed as online, and
/// one that disconnected or failed as offline, whichever side dialed.
pub proof fn the_listing_follows_the_connection(
    v: AppView,
    peer: PeerId,
    onion: Seq<char>,
    inbound: bool,
    err: Seq<char>,
    i: int,
)
    requires
        forall|k: int| 0 <= k < v.order.len() ==> v.peers.contains_key(#[trigger] v.order[k]),
        v.peers.contains_key(peer),
        0 <= i < v.order.len(),
        v.order[i] == peer,
    ensures
        ({
            let at = v.system.len() + 2 + i;
            let on = v.after_event(NetEventView::PeerConnected { peer, onion, inbound });
            let off = v.after_event(NetEventView::PeerDisconnected { peer });
            let failed = v.after_event(NetEventView::PeerError { peer, err });
            &&& ends_in(
                on.commanded("peers"@).0.system[at],
                if inbound {
                    " (in, online)"@
                } else {
                    " (out, online)"@
                },
            )
            &&& ends_in(
                off.commanded("peers"@).0.system[at],
                if v.peers[peer].inbound {
                    " (in, offline)"@
                } else {
                    " (out, offline)"@
                },
            )
            &&& failed.commanded("peers"@).0.system[at] == off.commanded("peers"@).0.system[at]
        }),
{
    let on = v.after_event(NetEventView::PeerConnected { peer, onion, inbound });
    let off = v.after_event(NetEventView::PeerDisconnected { peer });
    let failed = v.after_event(NetEventView::PeerError { peer, err });
    a_connected_peer_is_online(v, peer, onion, inbound);
    a_disconnected_peer_is_offline(v, peer);
    an_error_is_shown_and_ends_the_connection(v, peer, err);
    assert("peers"@ + Seq::<char>::empty() == "peers"@);
    peers_lists_who_is_online(on, Seq::empty(), i);
    peers_lists_who_is_online(off, Seq::empty(), i);
    peers_lists_who_is_online(failed, Seq::empty(), i);
    lemma_ends(on.commanded("peers"@).0.system[v.system.len() + 2 + i]);
    lemma_ends(off.commanded("peers"@).0.system[v.system.len() + 2 + i]);
}

/// A text put together from a head and a tail ends in the tail.
proof fn lemma_ends(line: Seq<char>)
    ensures
        forall|head: Seq<char>, tail: Seq<char>|
            line == #[trigger] (head + tail) ==> ends_in(line, tail),
{
    assert forall|head: Seq<char>, tail: Seq<char>|
        line == #[trigger] (head + tail) implies ends_in(line, tail) by {
        assert((head + tail).skip(head.len() as int) == tail);
    }
}

/// Nothing is refused for its state: as long as every address in the state has a short form, every
/// key can be handled, every pane can be drawn, and every event can be taken in whose own address,
/// if it brings one, has a short form.
pub proof fn nothing_is_refused_that_can_be_shown(
    v: AppView,
    key: KeyEvent,
    peer: PeerId,
    inbound: bool,
    text: Seq<char>,
    msg: WireMsgView,
)
    requires
        forall|id: PeerId| #[trigger]
            v.peers.contains_key(id) ==> v.peers[id].onion.len() == 0 || shortens(v.peers[id].onion),
        v.own_onion matches Some(onion) ==> shortens(onion),
    ensures
        v.accepts_key(key),
        v.lists(),
        v.shows(peer),
        shortens(text) ==> v.accepts_event(NetEventView::OwnOnionReady { onion: text }),
        text.len() == 0 || shortens(text) ==> v.accepts_event(
            NetEventView::PeerConnected { peer, onion: text, inbound },
        ),
        v.accepts_event(NetEventView::PeerDisconnected { peer }),
        v.accepts_event(NetEventView::PeerError { peer, err: text }),
        v.accepts_event(NetEventView::Status(text)),
        shortens(msg.from_onion) ==> v.accepts_event(NetEventView::Message { peer, msg }),
{
}

} // verus!
