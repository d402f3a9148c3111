//! That the mathematical values which the contracts speak of are the values which the program
//! holds: each part of a view is the part of the value that it is named after.

use vstd::prelude::*;

use crate::app::{App, AppAction, ChatLine, Peer};
use crate::app_model::AppActionView;
use crate::message::{NetEvent, NetEventView, PeerId, UiCommand, UiCommandView};
use crate::network::{Manager, ManagerAction, ManagerActionView};
use crate::ui::{Span, line_view, lines_view};
use crate::wire::WireMsg;

verus! {

/// The view of the application is the application, part by part.
pub proof fn the_state_is_seen_as_it_is(app: App, id: PeerId, i: int)
    ensures
        app@.own_onion is Some <==> app.own_onion is Some,
        app.own_onion matches Some(onion) ==> app@.own_onion == Some(onion@),
        app@.status == app.status@,
        app@.order == app.order@,
        app@.active == app.active,
        app@.input == app.input@,
        app@.scroll == app.scroll,
        app@.system.len() == app.system@.len(),
        0 <= i < app.system@.len() ==> app@.system[i] == app.system@[i]@,
        app@.peers.contains_key(id) <==> app.peers@.contains_key(id),
        app.peers@.contains_key(id) ==> app@.peers[id] == app.peers@[id]@,
{
}

/// The view of a conversation is the conversation, line by line.
pub proof fn a_conversation_is_seen_as_it_is(p: Peer, c: ChatLine, i: int)
    ensures
        p@.onion == p.onion@,
        p@.inbound == p.inbound,
        p@.connected == p.connected,
        p@.log.len() == p.log@.len(),
        0 <= i < p.log@.len() ==> p@.log[i] == p.log@[i]@,
        c@.from_me == c.from_me,
        c@.who == c.who@,
        c@.body == c.body@,
{
}

/// The views of messages, events, commands and actions are those values.
pub proof fn messages_are_seen_as_they_are(
    m: WireMsg,
    peer: PeerId,
    onion: String,
    inbound: bool,
    cmd: UiCommand,
)
    ensures
        m@.from_onion == m.from_onion@,
        m@.body == m.body@,
        m@.ts == m.ts,
        (NetEvent::OwnOnionReady { onion })@ == (NetEventView::OwnOnionReady { onion: onion@ }),
        (NetEvent::PeerConnected { peer, onion, inbound })@ == (NetEventView::PeerConnected {
            peer,
            onion: onion@,
            inbound,
        }),
        (NetEvent::PeerDisconnected { peer })@ == (NetEventView::PeerDisconnected { peer }),
        (NetEvent::PeerError { peer, err: onion })@ == (NetEventView::PeerError {
            peer,
            err: onion@,
        }),
        (NetEvent::Message { peer, msg: m })@ == (NetEventView::Message { peer, msg: m@ }),
        (NetEvent::Status(onion))@ == NetEventView::Status(onion@),
        (UiCommand::Connect { onion })@ == (UiCommandView::Connect { onion: onion@ }),
        (UiCommand::Send { peer, body: onion })@ == (UiCommandView::Send { peer, body: onion@ }),
        (UiCommand::Disconnect { peer })@ == (UiCommandView::Disconnect { peer }),
        (UiCommand::Shutdown)@ == UiCommandView::Shutdown,
        (AppAction::Quit)@ == AppActionView::Quit,
        (AppAction::Command(cmd))@ == AppActionView::Command(cmd@),
{
}

/// The view of the connection manager, and of what it asks for, is what it holds and asks for.
pub proof fn the_manager_is_seen_as_it_is(
    m: Manager,
    peer: PeerId,
    text: String,
    event: NetEvent,
)
    ensures
        m@.live == m.live@,
        m@.next_id == m.next_id,
        (ManagerAction::Dial { peer, onion: text })@ == (ManagerActionView::Dial {
            peer,
            onion: text@,
        }),
        (ManagerAction::Accept { peer, event })@ == (ManagerActionView::Accept {
            peer,
            event: event@,
        }),
        (ManagerAction::Forward { peer, line: text })@ == (ManagerActionView::Forward {
            peer,
            line: text@,
        }),
        (ManagerAction::Close { peer, event })@ == (ManagerActionView::Close {
            peer,
            event: event@,
        }),
        (ManagerAction::Forget { peer })@ == (ManagerActionView::Forget { peer }),
        (ManagerAction::Stop)@ == ManagerActionView::Stop,
        (ManagerAction::Idle)@ == ManagerActionView::Idle,
{
}

/// The view of styled text is the text, piece by piece and line by line.
pub proof fn spans_are_seen_as_they_are(spans: Seq<Span>, lines: Seq<Vec<Span>>, i: int)
    ensures
        line_view(spans).len() == spans.len(),
        0 <= i < spans.len() ==> line_view(spans)[i].text == spans[i].text@
            && line_view(spans)[i].style == spans[i].style,
        lines_view(lines).len() == lines.len(),
        0 <= i < lines.len() ==> lines_view(lines)[i] == line_view(lines[i]@),
{
}

} // verus!
