//! The decisions of the network layer: the connection manager, the dialer, and one peer
//! connection. The sockets and channels themselves are driven from outside: they hand in what
//! happened and carry out what is answered.

use std::collections::HashSet;

use vstd::prelude::*;
use vstd::string::*;

use crate::message::{NetEvent, NetEventView, PeerId, UiCommand, UiCommandView};
use crate::text::{decimal, push_decimal};
use crate::tor::{ONION_VIRTUAL_PORT, loopback, loopback_addr, normalize_onion, normalized};
use crate::wire::{WireMsg, WireMsgView, line_of};

verus! {

// ── The connection manager ─────────────────────────────────────────────────────────────────

/// What happens to the connection manager.
pub enum ManagerEvent {
    /// The interface sent a command.
    Command(UiCommand),
    /// The interface is gone.
    CommandsClosed,
    /// Somebody connected to us.
    Inbound,
    /// The task of a peer connection ended.
    Finished(PeerId),
}

/// What a [`ManagerEvent`] says.
#[verifier::ext_equal]
pub enum ManagerEventView {
    Command(UiCommandView),
    CommandsClosed,
    Inbound,
    Finished(PeerId),
}

impl View for ManagerEvent {
    type V = ManagerEventView;

    open spec fn view(&self) -> ManagerEventView {
        match *self {
            ManagerEvent::Command(cmd) => ManagerEventView::Command(cmd@),
            ManagerEvent::CommandsClosed => ManagerEventView::CommandsClosed,
            ManagerEvent::Inbound => ManagerEventView::Inbound,
            ManagerEvent::Finished(peer) => ManagerEventView::Finished(peer),
        }
    }
}

/// What the connection manager asks for.
pub enum ManagerAction {
    /// Open a line channel for `peer` and dial `onion` in a task of its own.
    Dial { peer: PeerId, onion: String },
    /// Open a line channel for `peer`, report the event, and serve the inbound connection.
    Accept { peer: PeerId, event: NetEvent },
    /// Hand `line` to the connection of `peer`.
    Forward { peer: PeerId, line: String },
    /// Drop the line channel of `peer` and report the event.
    Close { peer: PeerId, event: NetEvent },
    /// Drop the line channel of `peer`, if there is one.
    Forget { peer: PeerId },
    /// Leave the loop.
    Stop,
    /// Nothing.
    Idle,
}

/// What a [`ManagerAction`] says.
#[verifier::ext_equal]
pub enum ManagerActionView {
    Dial { peer: PeerId, onion: Seq<char> },
    Accept { peer: PeerId, event: NetEventView },
    Forward { peer: PeerId, line: Seq<char> },
    Close { peer: PeerId, event: NetEventView },
    Forget { peer: PeerId },
    Stop,
    Idle,
}

impl View for ManagerAction {
    type V = ManagerActionView;

    open spec fn view(&self) -> ManagerActionView {
        match *self {
            ManagerAction::Dial { peer, onion } => ManagerActionView::Dial { peer, onion: onion@ },
            ManagerAction::Accept { peer, event } => ManagerActionView::Accept {
                peer,
                event: event@,
            },
            ManagerAction::Forward { peer, line } => ManagerActionView::Forward { peer, line: line@ },
            ManagerAction::Close { peer, event } => ManagerActionView::Close { peer, event: event@ },
            ManagerAction::Forget { peer } => ManagerActionView::Forget { peer },
            ManagerAction::Stop => ManagerActionView::Stop,
            ManagerAction::Idle => ManagerActionView::Idle,
        }
    }
}

/// The connection manager: which peers have a line channel, and the next handle to give out.
pub struct Manager {
    pub live: HashSet<PeerId>,
    pub next_id: PeerId,
}

/// The state of the connection manager.
#[verifier::ext_equal]
pub struct ManagerView {
    pub live: Set<PeerId>,
    pub next_id: PeerId,
}

impl View for Manager {
    type V = ManagerView;

    open spec fn view(&self) -> ManagerView {
        ManagerView { live: self.live@, next_id: self.next_id }
    }
}

impl ManagerEventView {
    /// Whether the event makes a new connection.
    pub open spec fn connects(self) -> bool {
        ||| self is Inbound
        ||| self matches ManagerEventView::Command(cmd) && cmd is Connect
    }
}

impl ManagerView {
    /// The state at start-up: no connections, and the first handle is 1.
    pub open spec fn initial() -> ManagerView {
        ManagerView { live: Set::empty(), next_id: 1 }
    }

    /// The invariant: every live handle was given out.
    pub open spec fn wf(self) -> bool {
        &&& self.next_id >= 1
        &&& forall|id: PeerId| #[trigger] self.live.contains(id) ==> 1 <= id < self.next_id
    }

    /// The state with the next handle given out to a new connection.
    pub open spec fn with_new_peer(self) -> ManagerView {
        ManagerView {
            live: self.live.insert(self.next_id),
            next_id: (self.next_id + 1) as PeerId,
        }
    }

    /// The state without `peer`.
    pub open spec fn without(self, peer: PeerId) -> ManagerView {
        ManagerView { live: self.live.remove(peer), ..self }
    }

    /// One step of the manager: the next state and what it asks for. `own_onion` is stamped
    /// into every outgoing message, so that peers can label us, and so is the time `now`.
    pub open spec fn stepped(
        self,
        ev: ManagerEventView,
        own_onion: Seq<char>,
        now: u64,
    ) -> (ManagerView, ManagerActionView) {
        match ev {
            ManagerEventView::Command(UiCommandView::Connect { onion }) => (
                self.with_new_peer(),
                ManagerActionView::Dial { peer: self.next_id, onion },
            ),
            ManagerEventView::Command(UiCommandView::Send { peer, body }) => if self.live.contains(
                peer,
            ) {
                let msg = WireMsgView { from_onion: own_onion, body, ts: now };
                (self, ManagerActionView::Forward { peer, line: line_of(msg) })
            } else {
                (self, ManagerActionView::Idle)
            },
            ManagerEventView::Command(UiCommandView::Disconnect { peer }) => if self.live.contains(
                peer,
            ) {
                (
                    self.without(peer),
                    ManagerActionView::Close {
                        peer,
                        event: NetEventView::PeerDisconnected { peer },
                    },
                )
            } else {
                (self, ManagerActionView::Idle)
            },
            ManagerEventView::Command(UiCommandView::Shutdown)
            | ManagerEventView::CommandsClosed => (self, ManagerActionView::Stop),
            ManagerEventView::Inbound => (
                self.with_new_peer(),
                ManagerActionView::Accept {
                    peer: self.next_id,
                    event: NetEventView::PeerConnected {
                        peer: self.next_id,
                        onion: Seq::empty(),
                        inbound: true,
                    },
                },
            ),
            ManagerEventView::Finished(peer) => (
                self.without(peer),
                ManagerActionView::Forget { peer },
            ),
        }
    }
}

impl Manager {
    /// A manager without connections.
    pub fn new() -> (r: Manager)
        ensures
            r@ == ManagerView::initial(),
    {
        Manager { live: HashSet::new(), next_id: 1 }
    }

    /// Gives out the next handle.
    fn new_peer(&mut self) -> (id: PeerId)
        requires
            old(self).next_id < PeerId::MAX,
        ensures
            id == old(self)@.next_id,
            final(self)@ == old(self)@.with_new_peer(),
    {
        let id: PeerId = self.next_id;
        self.next_id = self.next_id + 1;
        self.live.insert(id);
        id
    }

    /// One step of the connection manager.
    pub fn step(&mut self, ev: ManagerEvent, own_onion: &str, now: u64) -> (r: ManagerAction)
        requires
            ev@.connects() ==> old(self)@.next_id < PeerId::MAX,
        ensures
            (final(self)@, r@) == old(self)@.stepped(ev@, own_onion@, now),
    {
        match ev {
            ManagerEvent::Command(UiCommand::Connect { onion }) => {
                let peer: PeerId = self.new_peer();
                ManagerAction::Dial { peer, onion }
            },
            ManagerEvent::Command(UiCommand::Send { peer, body }) => {
                if !self.live.contains(&peer) {
                    return ManagerAction::Idle;
                }
                match WireMsg::new(own_onion, body.as_str(), now).to_line() {
                    Ok(line) => ManagerAction::Forward { peer, line },
                    // Never taken: every message has a line.
                    Err(_) => ManagerAction::Idle,
                }
            },
            ManagerEvent::Command(UiCommand::Disconnect { peer }) => {
                if self.live.remove(&peer) {
                    ManagerAction::Close { peer, event: NetEvent::PeerDisconnected { peer } }
                } else {
                    assert(self@.live =~= old(self)@.live);
                    ManagerAction::Idle
                }
            },
            ManagerEvent::Command(UiCommand::Shutdown) => ManagerAction::Stop,
            ManagerEvent::CommandsClosed => ManagerAction::Stop,
            ManagerEvent::Inbound => {
                let peer: PeerId = self.new_peer();
                // The caller's address stays unknown until its first message: Tor hides it.
                ManagerAction::Accept {
                    peer,
                    event: NetEvent::PeerConnected { peer, onion: String::new(), inbound: true },
                }
            },
            ManagerEvent::Finished(peer) => {
                self.live.remove(&peer);
                ManagerAction::Forget { peer }
            },
        }
    }
}

// ── Dialing ────────────────────────────────────────────────────────────────────────────────

/// A dial in progress.
pub struct Dial {
    /// The service that is dialed.
    pub service_id: String,
    /// The host and port to ask the proxy for.
    pub target: String,
}

/// The host and port of a service: its address and the virtual port.
pub open spec fn dial_target(service_id: Seq<char>) -> Seq<char> {
    service_id + ".onion:"@ + decimal(ONION_VIRTUAL_PORT as nat)
}

/// Prepares to dial an address as the user entered it, and reports it.
pub fn start_dial(raw_onion: &str) -> (r: (Dial, NetEvent))
    ensures
        r.0.service_id@ == normalized(raw_onion@),
        r.0.target@ == dial_target(normalized(raw_onion@)),
        r.1@ == NetEventView::Status(
            "dialing "@ + dial_target(normalized(raw_onion@)) + " via Tor…"@,
        ),
{
    let service_id = normalize_onion(raw_onion);
    let mut target = service_id.clone();
    target.append(".onion:");
    push_decimal(&mut target, ONION_VIRTUAL_PORT as u64);
    let mut status = "dialing ".to_owned();
    status.append(target.as_str());
    status.append(" via Tor…");
    (Dial { service_id, target }, NetEvent::Status(status))
}

/// What is reported when a dial ended.
pub open spec fn dial_report(
    service_id: Seq<char>,
    peer: PeerId,
    outcome: Result<(), Seq<char>>,
) -> NetEventView {
    match outcome {
        Ok(_) => NetEventView::PeerConnected {
            peer,
            onion: service_id + ".onion"@,
            inbound: false,
        },
        Err(e) => NetEventView::PeerError {
            peer,
            err: "could not connect to "@ + service_id + ".onion: "@ + e,
        },
    }
}

impl Dial {
    /// Reports how the dial of `peer` ended: with a connection, or with an error.
    pub fn finish(&self, peer: PeerId, error: Option<String>) -> (r: NetEvent)
        ensures
            r@ == dial_report(
                self.service_id@,
                peer,
                match error {
                    None => Ok(()),
                    Some(e) => Err(e@),
                },
            ),
    {
        match error {
            None => {
                let mut onion = self.service_id.clone();
                onion.append(".onion");
                NetEvent::PeerConnected { peer, onion, inbound: false }
            },
            Some(e) => {
                let mut err = "could not connect to ".to_owned();
                err.append(self.service_id.as_str());
                err.append(".onion: ");
                err.append(e.as_str());
                NetEvent::PeerError { peer, err }
            },
        }
    }
}

// ── One peer connection ────────────────────────────────────────────────────────────────────

/// What happens on a peer connection.
pub enum LinkEvent {
    /// A line came in, and was read as a message or found malformed.
    Line(Result<WireMsg, String>),
    /// Reading failed.
    ReadFailed(String),
    /// The peer closed the connection.
    Closed,
    /// The manager handed over a line to send.
    Outgoing(String),
    /// Writing a line failed.
    WriteFailed(String),
    /// The manager dropped the line channel.
    Released,
}

/// What to do on a peer connection.
pub enum LinkAction {
    /// Report the event and go on.
    Report(NetEvent),
    /// Write the line to the peer and go on.
    Write(String),
    /// Report the event and end the connection.
    Fail(NetEvent),
    /// End the connection without a word.
    End,
}

/// What a [`LinkAction`] says.
#[verifier::ext_equal]
pub enum LinkActionView {
    Report(NetEventView),
    Write(Seq<char>),
    Fail(NetEventView),
    End,
}

impl View for LinkAction {
    type V = LinkActionView;

    open spec fn view(&self) -> LinkActionView {
        match *self {
            LinkAction::Report(ev) => LinkActionView::Report(ev@),
            LinkAction::Write(line) => LinkActionView::Write(line@),
            LinkAction::Fail(ev) => LinkActionView::Fail(ev@),
            LinkAction::End => LinkActionView::End,
        }
    }
}

/// What the connection of `peer` does about an event: messages go to the interface, malformed
/// lines are dropped with a note, outgoing lines are written, and a failure or the end of the
/// stream ends the connection with a report. A connection that the manager gave up ends quietly.
pub open spec fn link_stepped(peer: PeerId, ev: LinkEvent) -> LinkActionView {
    match ev {
        LinkEvent::Line(Ok(msg)) => LinkActionView::Report(
            NetEventView::Message { peer, msg: msg@ },
        ),
        LinkEvent::Line(Err(e)) => LinkActionView::Report(
            NetEventView::Status("dropped malformed message: "@ + e@),
        ),
        LinkEvent::ReadFailed(e) => LinkActionView::Fail(
            NetEventView::PeerError { peer, err: e@ },
        ),
        LinkEvent::Closed => LinkActionView::Fail(NetEventView::PeerDisconnected { peer }),
        LinkEvent::Outgoing(line) => LinkActionView::Write(line@),
        LinkEvent::WriteFailed(e) => LinkActionView::Fail(
            NetEventView::PeerError { peer, err: e@ },
        ),
        LinkEvent::Released => LinkActionView::End,
    }
}

/// One step of a peer connection.
pub fn link_step(peer: PeerId, ev: LinkEvent) -> (r: LinkAction)
    ensures
        r@ == link_stepped(peer, ev),
{
    match ev {
        LinkEvent::Line(Ok(msg)) => LinkAction::Report(NetEvent::Message { peer, msg }),
        LinkEvent::Line(Err(e)) => {
            let mut note = "dropped malformed message: ".to_owned();
            note.append(e.as_str());
            LinkAction::Report(NetEvent::Status(note))
        },
        LinkEvent::ReadFailed(err) => LinkAction::Fail(NetEvent::PeerError { peer, err }),
        LinkEvent::Closed => LinkAction::Fail(NetEvent::PeerDisconnected { peer }),
        LinkEvent::Outgoing(line) => LinkAction::Write(line),
        LinkEvent::WriteFailed(err) => LinkAction::Fail(NetEvent::PeerError { peer, err }),
        LinkEvent::Released => LinkAction::End,
    }
}

// ── Reports ────────────────────────────────────────────────────────────────────────────────

/// Reports that the manager listens for inbound peers.
pub fn listening_status(local_port: u16) -> (r: NetEvent)
    ensures
        r@ == NetEventView::Status(
            "listening for inbound peers on "@ + loopback_addr(local_port),
        ),
{
    let mut out = "listening for inbound peers on ".to_owned();
    out.append(loopback(local_port).as_str());
    NetEvent::Status(out)
}

/// Reports that the manager stopped on an error.
pub fn stopped_status(err: &str) -> (r: NetEvent)
    ensures
        r@ == NetEventView::Status("network manager stopped: "@ + err@),
{
    let mut out = "network manager stopped: ".to_owned();
    out.append(err);
    NetEvent::Status(out)
}

// ── Handles ────────────────────────────────────────────────────────────────────────────────

/// The handle that a step gives out, if it gives one out.
pub open spec fn given_out(action: ManagerActionView) -> Option<PeerId> {
    match action {
        ManagerActionView::Dial { peer, .. } => Some(peer),
        ManagerActionView::Accept { peer, .. } => Some(peer),
        _ => None,
    }
}

/// Every step keeps the invariant of the manager; a handle that it gives out is fresh: no live
/// connection has it, and it lies above every one given out before. Lines go to live
/// connections alone, and after a disconnect or the end of a connection nothing goes to it.
pub proof fn a_step_keeps_handles_apart(
    m: ManagerView,
    ev: ManagerEventView,
    own_onion: Seq<char>,
    now: u64,
)
    requires
        m.wf(),
        ev.connects() ==> m.next_id < PeerId::MAX,
    ensures
        m.stepped(ev, own_onion, now).0.wf(),
        m.stepped(ev, own_onion, now).0.next_id >= m.next_id,
        given_out(m.stepped(ev, own_onion, now).1) matches Some(id) ==> {
            &&& !m.live.contains(id)
            &&& m.stepped(ev, own_onion, now).0.live.contains(id)
            &&& m.next_id <= id < m.stepped(ev, own_onion, now).0.next_id
        },
        m.stepped(ev, own_onion, now).1 matches ManagerActionView::Forward { peer, .. }
            ==> m.live.contains(peer),
        m.stepped(ev, own_onion, now).1 matches ManagerActionView::Close { peer, .. }
            ==> m.live.contains(peer) && !m.stepped(ev, own_onion, now).0.live.contains(peer),
        m.stepped(ev, own_onion, now).1 matches ManagerActionView::Forget { peer }
            ==> !m.stepped(ev, own_onion, now).0.live.contains(peer),
{
    let n = m.stepped(ev, own_onion, now).0;
    assert forall|id: PeerId| #[trigger] n.live.contains(id) implies 1 <= id < n.next_id by {
        if id != m.next_id || !ev.connects() {
            assert(m.live.contains(id));
        }
    }
}

/// A disconnect is reported once: the manager reports it as it closes the line channel, the
/// connection that is thereby released ends without a word, and when the manager hears of its end
/// it changes nothing and reports nothing.
pub proof fn a_disconnect_is_reported_once(
    m: ManagerView,
    peer: PeerId,
    own_onion: Seq<char>,
    now: u64,
    later: u64,
)
    requires
        m.live.contains(peer),
    ensures
        ({
            let cmd = ManagerEventView::Command(UiCommandView::Disconnect { peer });
            let (closed, action) = m.stepped(cmd, own_onion, now);
            &&& action == ManagerActionView::Close {
                peer,
                event: NetEventView::PeerDisconnected { peer },
            }
            &&& link_stepped(peer, LinkEvent::Released) == LinkActionView::End
            &&& closed.stepped(ManagerEventView::Finished(peer), own_onion, later) == (
                closed,
                ManagerActionView::Forget { peer },
            )
        }),
{
    assert(m.live.remove(peer).remove(peer) =~= m.live.remove(peer));
}

/// The state after a run of events, each at its time.
pub open spec fn manager_after(
    m: ManagerView,
    events: Seq<(ManagerEventView, u64)>,
    own_onion: Seq<char>,
) -> ManagerView
    decreases events.len(),
{
    if events.len() == 0 {
        m
    } else {
        manager_after(m, events.drop_last(), own_onion).stepped(
            events.last().0,
            own_onion,
            events.last().1,
        ).0
    }
}

/// The state from start-up before the event `k` of a run.
pub open spec fn manager_before(
    events: Seq<(ManagerEventView, u64)>,
    k: int,
    own_onion: Seq<char>,
) -> ManagerView {
    manager_after(ManagerView::initial(), events.take(k), own_onion)
}

/// What the manager asks for on the event `k` of a run from start-up.
pub open spec fn manager_asks(
    events: Seq<(ManagerEventView, u64)>,
    k: int,
    own_onion: Seq<char>,
) -> ManagerActionView {
    manager_before(events, k, own_onion).stepped(events[k].0, own_onion, events[k].1).1
}

/// Whether the handles last for a run of events from start-up.
pub open spec fn handles_last(
    events: Seq<(ManagerEventView, u64)>,
    own_onion: Seq<char>,
) -> bool {
    forall|i: int|
        0 <= i < events.len() && (#[trigger] events[i]).0.connects() ==> manager_before(
            events,
            i,
            own_onion,
        ).next_id < PeerId::MAX
}

proof fn lemma_step_of_run(events: Seq<(ManagerEventView, u64)>, k: int, own_onion: Seq<char>)
    requires
        0 <= k < events.len(),
    ensures
        manager_before(events, k + 1, own_onion) == manager_before(events, k, own_onion).stepped(
            events[k].0,
            own_onion,
            events[k].1,
        ).0,
{
    assert(events.take(k + 1).drop_last() == events.take(k));
    assert(events.take(k + 1).last() == events[k]);
}

/// From start-up on, the manager keeps its invariant.
pub proof fn every_manager_run_keeps_wf(
    events: Seq<(ManagerEventView, u64)>,
    k: int,
    own_onion: Seq<char>,
)
    requires
        handles_last(events, own_onion),
        0 <= k <= events.len(),
    ensures
        manager_before(events, k, own_onion).wf(),
    decreases k,
{
    if k > 0 {
        every_manager_run_keeps_wf(events, k - 1, own_onion);
        lemma_step_of_run(events, k - 1, own_onion);
        a_step_keeps_handles_apart(
            manager_before(events, k - 1, own_onion),
            events[k - 1].0,
            own_onion,
            events[k - 1].1,
        );
    } else {
        assert(events.take(0).len() == 0);
    }
}

proof fn lemma_next_grows(
    events: Seq<(ManagerEventView, u64)>,
    i: int,
    j: int,
    own_onion: Seq<char>,
)
    requires
        handles_last(events, own_onion),
        0 <= i <= j <= events.len(),
    ensures
        manager_before(events, i, own_onion).next_id <= manager_before(
            events,
            j,
            own_onion,
        ).next_id,
    decreases j - i,
{
    if i < j {
        lemma_next_grows(events, i, j - 1, own_onion);
        every_manager_run_keeps_wf(events, j - 1, own_onion);
        lemma_step_of_run(events, j - 1, own_onion);
        a_step_keeps_handles_apart(
            manager_before(events, j - 1, own_onion),
            events[j - 1].0,
            own_onion,
            events[j - 1].1,
        );
    }
}

/// No handle is ever given out twice: of two connections in one run, the later has the greater
/// handle, so that a re-connect gets a fresh one.
pub proof fn no_handle_is_given_out_twice(
    events: Seq<(ManagerEventView, u64)>,
    i: int,
    j: int,
    own_onion: Seq<char>,
)
    requires
        handles_last(events, own_onion),
        0 <= i < j < events.len(),
        events[i].0.connects(),
        events[j].0.connects(),
    ensures
        given_out(manager_asks(events, i, own_onion)) is Some,
        given_out(manager_asks(events, j, own_onion)) is Some,
        given_out(manager_asks(events, i, own_onion))->0 < given_out(
            manager_asks(events, j, own_onion),
        )->0,
{
    every_manager_run_keeps_wf(events, i, own_onion);
    lemma_next_grows(events, i + 1, j, own_onion);
    lemma_step_of_run(events, i, own_onion);
}

/// How many connections a run of events makes.
pub open spec fn connections(events: Seq<(ManagerEventView, u64)>) -> nat
    decreases events.len(),
{
    if events.len() == 0 {
        0
    } else {
        connections(events.drop_last()) + (if events.last().0.connects() {
            1nat
        } else {
            0
        })
    }
}

proof fn lemma_next_counts(events: Seq<(ManagerEventView, u64)>, k: int, own_onion: Seq<char>)
    requires
        handles_last(events, own_onion),
        0 <= k <= events.len(),
    ensures
        manager_before(events, k, own_onion).next_id == connections(events.take(k)) + 1,
    decreases k,
{
    if k > 0 {
        lemma_next_counts(events, k - 1, own_onion);
        lemma_step_of_run(events, k - 1, own_onion);
        assert(events.take(k).drop_last() == events.take(k - 1));
        assert(events.take(k).last() == events[k - 1]);
    } else {
        assert(events.take(0).len() == 0);
    }
}

/// Handles count the connections from start-up: the first connection gets handle 1, and each
/// later one the number of connections made so far, itself counted in.
pub proof fn handles_count_the_connections(
    events: Seq<(ManagerEventView, u64)>,
    k: int,
    own_onion: Seq<char>,
)
    requires
        handles_last(events, own_onion),
        0 <= k < events.len(),
        events[k].0.connects(),
    ensures
        given_out(manager_asks(events, k, own_onion)) is Some,
        given_out(manager_asks(events, k, own_onion))->0 == connections(events.take(k + 1)),
        connections(events.take(k + 1)) == connections(events.take(k)) + 1,
{
    lemma_next_counts(events, k, own_onion);
    assert(events.take(k + 1).drop_last() == events.take(k));
    assert(events.take(k + 1).last() == events[k]);
}

} // verus!
