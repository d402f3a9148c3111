//! What the connection manager, a dial and a peer connection are for, in every state.

use vstd::prelude::*;

use crate::message::{NetEventView, PeerId, UiCommandView};
use crate::network::{
    LinkActionView, LinkEvent, ManagerActionView, ManagerEventView, ManagerView, dial_report,
    dial_target, link_stepped,
};
use crate::text::{decimal, ends_in, white_space};
use crate::tor::{every_form_names_the_service, normalized};
use crate::wire::{WireMsg, WireMsgView, line_of};

verus! {

// ── The connection manager ─────────────────────────────────────────────────────────────────

/// A step adds and removes exactly the connection that it is about. A handle is live after a step
/// if and only if it was just given out, by a dial or an inbound connection, or was live before
/// and the step is neither its disconnect nor the end of its task. So every other connection
/// stays, whatever happens to one of them.
pub proof fn a_step_touches_one_connection_alone(
    m: ManagerView,
    ev: ManagerEventView,
    own_onion: Seq<char>,
    now: u64,
    id: PeerId,
)
    requires
        m.next_id < PeerId::MAX,
    ensures
        ({
            let after = m.stepped(ev, own_onion, now).0;
            let connects = ev is Inbound || (ev matches ManagerEventView::Command(cmd)
                && cmd is Connect);
            let ends = ev == ManagerEventView::Finished(id) || ev == ManagerEventView::Command(
                UiCommandView::Disconnect { peer: id },
            );
            &&& after.live.contains(id) <==> (connects && id == m.next_id) || (m.live.contains(id)
                && !ends)
            &&& connects ==> after.next_id == m.next_id + 1
            &&& !connects ==> after.next_id == m.next_id
        }),
{
}

/// A message for a live connection goes out on that very connection, as the line that carries our
/// address, the text and the time; one for any other handle goes nowhere. Either way nothing
/// changes.
pub proof fn a_message_goes_to_its_own_connection(
    m: ManagerView,
    peer: PeerId,
    body: Seq<char>,
    own_onion: Seq<char>,
    now: u64,
)
    ensures
        ({
            let send = ManagerEventView::Command(UiCommandView::Send { peer, body });
            let line = line_of(WireMsgView { from_onion: own_onion, body, ts: now });
            &&& m.live.contains(peer) ==> m.stepped(send, own_onion, now) == (
                m,
                ManagerActionView::Forward { peer, line },
            )
            &&& !m.live.contains(peer) ==> m.stepped(send, own_onion, now) == (
                m,
                ManagerActionView::Idle,
            )
        }),
{
}

/// Dropping one connection, or the end of its task, cuts off that peer alone: afterwards nothing
/// goes to it, and every other live peer is still reached.
pub proof fn dropping_one_peer_cuts_off_no_other(
    m: ManagerView,
    dropped: PeerId,
    other: PeerId,
    body: Seq<char>,
    own_onion: Seq<char>,
    now: u64,
)
    requires
        other != dropped,
    ensures
        ({
            let drop = ManagerEventView::Command(UiCommandView::Disconnect { peer: dropped });
            let end = ManagerEventView::Finished(dropped);
            let to = |peer: PeerId| ManagerEventView::Command(UiCommandView::Send { peer, body });
            let a = m.stepped(drop, own_onion, now).0;
            let b = m.stepped(end, own_onion, now).0;
            &&& a.stepped(to(other), own_onion, now).1 == m.stepped(to(other), own_onion, now).1
            &&& b.stepped(to(other), own_onion, now).1 == m.stepped(to(other), own_onion, now).1
            &&& a.stepped(to(dropped), own_onion, now).1 == ManagerActionView::Idle
            &&& b.stepped(to(dropped), own_onion, now).1 == ManagerActionView::Idle
        }),
{
}

/// What the manager asks for: a dial of exactly the address that was asked for, under a fresh
/// handle; the report of an inbound connection, of a peer without a name; the report of a
/// disconnect, if there was a connection; and the end, when the interface says so or is gone.
pub proof fn the_manager_asks_for_what_it_is_told(
    m: ManagerView,
    peer: PeerId,
    onion: Seq<char>,
    own_onion: Seq<char>,
    now: u64,
)
    ensures
        m.stepped(
            ManagerEventView::Command(UiCommandView::Connect { onion }),
            own_onion,
            now,
        ).1 == (ManagerActionView::Dial { peer: m.next_id, onion }),
        m.stepped(ManagerEventView::Inbound, own_onion, now).1 == (ManagerActionView::Accept {
            peer: m.next_id,
            event: NetEventView::PeerConnected {
                peer: m.next_id,
                onion: Seq::empty(),
                inbound: true,
            },
        }),
        m.live.contains(peer) ==> m.stepped(
            ManagerEventView::Command(UiCommandView::Disconnect { peer }),
            own_onion,
            now,
        ).1 == (ManagerActionView::Close { peer, event: NetEventView::PeerDisconnected { peer } }),
        !m.live.contains(peer) ==> m.stepped(
            ManagerEventView::Command(UiCommandView::Disconnect { peer }),
            own_onion,
            now,
        ) == (m, ManagerActionView::Idle),
        m.stepped(ManagerEventView::Finished(peer), own_onion, now).1 == (
        ManagerActionView::Forget { peer }),
        m.stepped(ManagerEventView::Command(UiCommandView::Shutdown), own_onion, now) == (
            m,
            ManagerActionView::Stop,
        ),
        m.stepped(ManagerEventView::CommandsClosed, own_onion, now) == (m, ManagerActionView::Stop),
{
}

/// The manager starts without connections, and its first handle is 1.
pub proof fn the_manager_starts_empty(id: PeerId)
    ensures
        !ManagerView::initial().live.contains(id),
        ManagerView::initial().next_id == 1,
{
}

// ── Dialing ────────────────────────────────────────────────────────────────────────────────

/// However a service id is entered, with or without suffix and port, and with white space around
/// it, the service is dialed at its own address on port 80, and is reported, connected or not,
/// under its own address.
pub proof fn a_dial_goes_to_the_service_that_was_named(
    id: Seq<char>,
    left: Seq<char>,
    right: Seq<char>,
    port: Seq<char>,
    peer: PeerId,
    err: Seq<char>,
)
    requires
        !id.contains(':'),
        id.len() > 0 ==> !white_space(id[0]) && !white_space(id.last()),
        forall|u: Seq<char>| id != #[trigger] (u + ".onion"@),
        forall|i: int| 0 <= i < left.len() ==> white_space(#[trigger] left[i]),
        forall|i: int| 0 <= i < right.len() ==> white_space(#[trigger] right[i]),
    ensures
        dial_target(normalized(left + id + right)) == id + ".onion:80"@,
        dial_target(normalized(left + (id + ".onion"@) + right)) == id + ".onion:80"@,
        dial_target(normalized(left + (id + seq![':'] + port) + right)) == id + ".onion:80"@,
        dial_target(normalized(left + (id + ".onion"@ + seq![':'] + port) + right)) == id
            + ".onion:80"@,
        dial_report(normalized(left + id + right), peer, Ok(())) == (NetEventView::PeerConnected {
            peer,
            onion: id + ".onion"@,
            inbound: false,
        }),
        dial_report(normalized(left + id + right), peer, Err(err)) == (NetEventView::PeerError {
            peer,
            err: "could not connect to "@ + id + ".onion: "@ + err,
        }),
{
    assert(!ends_in(id, ".onion"@)) by {
        if ends_in(id, ".onion"@) {
            assert(id == id.take(id.len() - ".onion"@.len()) + ".onion"@);
        }
    }
    every_form_names_the_service(id, left, right, port);
    reveal_strlit(".onion:");
    reveal_strlit(".onion:80");
    reveal_with_fuel(decimal, 3);
    assert(".onion:"@ + decimal(80) =~= ".onion:80"@);
    assert(id + ".onion:"@ + decimal(80) =~= id + (".onion:"@ + decimal(80)));
}

// ── One peer connection ────────────────────────────────────────────────────────────────────

/// A connection passes on what it reads and writes what it is given: each message goes to the
/// interface under the handle of its own connection and as it was read; a malformed line is
/// dropped with a note and the connection goes on; each outgoing line is written as it is; and the
/// connection ends on a failure, with the failure, when the peer closes it, with that report, or
/// quietly when it is released.
pub proof fn a_connection_passes_on_what_it_reads(peer: PeerId, msg: WireMsg, text: String)
    ensures
        link_stepped(peer, LinkEvent::Line(Ok(msg))) == LinkActionView::Report(
            NetEventView::Message { peer, msg: msg@ },
        ),
        link_stepped(peer, LinkEvent::Line(Err(text))) == LinkActionView::Report(
            NetEventView::Status("dropped malformed message: "@ + text@),
        ),
        link_stepped(peer, LinkEvent::Outgoing(text)) == LinkActionView::Write(text@),
        link_stepped(peer, LinkEvent::ReadFailed(text)) == LinkActionView::Fail(
            NetEventView::PeerError { peer, err: text@ },
        ),
        link_stepped(peer, LinkEvent::WriteFailed(text)) == LinkActionView::Fail(
            NetEventView::PeerError { peer, err: text@ },
        ),
        link_stepped(peer, LinkEvent::Closed) == LinkActionView::Fail(
            NetEventView::PeerDisconnected { peer },
        ),
        link_stepped(peer, LinkEvent::Released) == LinkActionView::End,
{
}

} // verus!
