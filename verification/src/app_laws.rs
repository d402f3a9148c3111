//! What holds of the application in every state and over several keys and events.

use vstd::prelude::*;
use vstd::utf8::*;

use crate::app_model::{
    AppActionView, AppView, ChatLineView, KeyCode, KeyEvent, PeerView, help_lines, position,
    service_id, short, shortens,
};
use crate::message::{NetEventView, PeerId, UiCommandView};
use crate::text::{after_word, first_word, trimmed, white_space, word_len};

verus! {

// ── The invariant ──────────────────────────────────────────────────────────────────────────

impl AppView {
    /// The invariant of the application: the display order lists each known peer once and
    /// nobody else, the focus is on the system log or on a known peer, and every onion address
    /// in the state has a short form.
    pub open spec fn wf(self) -> bool {
        &&& self.order.no_duplicates()
        &&& forall|id: PeerId| #[trigger]
            self.order.contains(id) <==> self.peers.contains_key(id)
        &&& self.active matches Some(id) ==> self.peers.contains_key(id)
        &&& self.names_self()
        &&& forall|id: PeerId| #[trigger]
            self.peers.contains_key(id) ==> self.peers[id].shows()
    }
}

/// Whether the onion address that a network event carries has a short form.
pub open spec fn presentable(ev: NetEventView) -> bool {
    match ev {
        NetEventView::OwnOnionReady { onion } => shortens(onion),
        NetEventView::PeerConnected { onion, .. } => onion.len() == 0 || shortens(onion),
        NetEventView::Message { msg, .. } => shortens(msg.from_onion),
        _ => true,
    }
}

/// The application starts in a state with the invariant.
pub proof fn start_is_wf()
    ensures
        AppView::initial().wf(),
{
}

/// No key breaks the invariant.
pub proof fn key_keeps_wf(v: AppView, key: KeyEvent)
    requires
        v.wf(),
    ensures
        v.after_key(key).0.wf(),
{
    let after = v.after_key(key).0;
    if !key.quits() {
        if key.code is Enter {
            submit_keeps_wf(v);
        } else if key.code is Tab || key.code is Down {
            cycle_keeps_wf(v, 1);
        } else if key.code is BackTab || key.code is Up {
            cycle_keeps_wf(v, -1);
        } else {
            lemma_same_roster_wf(v, after);
        }
    }
}

/// A state that differs from one with the invariant in the log, the input, the status or the
/// scroll position alone has the invariant too.
proof fn lemma_same_roster_wf(v: AppView, w: AppView)
    requires
        v.wf(),
        w.own_onion == v.own_onion,
        w.peers == v.peers,
        w.order == v.order,
        w.active == v.active,
    ensures
        w.wf(),
{
    assert forall|id: PeerId| #[trigger] w.order.contains(id) <==> w.peers.contains_key(id) by {
        assert(v.order.contains(id) <==> v.peers.contains_key(id));
    }
    assert forall|id: PeerId| #[trigger] w.peers.contains_key(id) implies w.peers[id].shows() by {
        assert(v.peers.contains_key(id));
    }
}

/// Putting a peer with a label in the place of a known one keeps the invariant.
proof fn lemma_known_peer_wf(v: AppView, id: PeerId, p: PeerView)
    requires
        v.wf(),
        v.peers.contains_key(id),
        p.shows(),
    ensures
        v.with_peer(id, p).wf(),
{
    let w = v.with_peer(id, p);
    assert forall|k: PeerId| #[trigger] w.order.contains(k) <==> w.peers.contains_key(k) by {
        assert(v.order.contains(k) <==> v.peers.contains_key(k));
    }
    assert forall|k: PeerId| #[trigger] w.peers.contains_key(k) implies w.peers[k].shows() by {
        if k != id {
            assert(v.peers.contains_key(k));
        }
    }
}

proof fn submit_keeps_wf(v: AppView)
    requires
        v.wf(),
    ensures
        v.submitted().0.wf(),
{
    let line = trimmed(v.input);
    let cleared = AppView { input: Seq::empty(), ..v };
    lemma_same_roster_wf(v, cleared);
    let after = v.submitted().0;
    if line.len() > 0 && line[0] != '/' && v.active is Some {
        let peer = v.active->0;
        if v.peers[peer].connected {
            let said = ChatLineView { from_me: true, who: cleared.me(), body: line };
            lemma_known_peer_wf(cleared, peer, v.peers[peer].logged(said));
            lemma_same_roster_wf(cleared.with_peer(peer, v.peers[peer].logged(said)), after);
        } else {
            lemma_same_roster_wf(cleared, after);
        }
    } else {
        lemma_same_roster_wf(cleared, after);
    }
}

/// Each pane but the first belongs to a known peer.
pub proof fn lemma_pane_of_peer(v: AppView, i: int)
    requires
        v.wf(),
        0 <= i < v.panes().len(),
    ensures
        i == 0 ==> v.panes()[i] == None::<PeerId>,
        i > 0 ==> v.panes()[i] == Some(v.order[i - 1]),
        v.panes()[i] matches Some(id) ==> v.peers.contains_key(id),
{
    if i > 0 {
        assert(v.order.contains(v.order[i - 1]));
    }
}

/// No slash command breaks the invariant.
pub proof fn command_keeps_wf(v: AppView, rest: Seq<char>)
    requires
        v.wf(),
    ensures
        v.commanded(rest).0.wf(),
{
    lemma_same_roster_wf(v, v.commanded(rest).0);
}

/// Moving the focus does not break the invariant.
pub proof fn cycle_keeps_wf(v: AppView, delta: int)
    requires
        v.wf(),
    ensures
        v.cycled(delta).wf(),
{
    let n = v.panes().len() as int;
    let next = (v.focus() + delta) % n;
    assert(0 <= next < n);
    lemma_pane_of_peer(v, next);
    let after = v.cycled(delta);
    assert forall|id: PeerId| #[trigger]
        after.order.contains(id) <==> after.peers.contains_key(id) by {
        assert(v.order.contains(id) <==> v.peers.contains_key(id));
    }
    assert forall|id: PeerId| #[trigger]
        after.peers.contains_key(id) implies after.peers[id].shows() by {
        assert(v.peers.contains_key(id));
    }
}

/// No network event that the application can take in breaks the invariant.
pub proof fn event_keeps_wf(v: AppView, ev: NetEventView)
    requires
        v.wf(),
        v.accepts_event(ev),
    ensures
        v.after_event(ev).wf(),
{
    let after = v.after_event(ev);
    match ev {
        NetEventView::OwnOnionReady { onion } => {
            let w = AppView { own_onion: Some(onion), ..v };
            assert forall|id: PeerId| #[trigger]
                w.order.contains(id) <==> w.peers.contains_key(id) by {
                assert(v.order.contains(id) <==> v.peers.contains_key(id));
            }
            assert forall|id: PeerId| #[trigger]
                w.peers.contains_key(id) implies w.peers[id].shows() by {
                assert(v.peers.contains_key(id));
            }
            assert(w.wf());
            lemma_same_roster_wf(w, after);
        },
        NetEventView::PeerConnected { peer, onion, inbound } => {
            lemma_connect_wf(v, peer, onion, inbound);
        },
        NetEventView::PeerDisconnected { peer } => {
            if v.peers.contains_key(peer) {
                lemma_known_peer_wf(v, peer, v.peers[peer].offline());
                lemma_same_roster_wf(v.with_peer(peer, v.peers[peer].offline()), after);
            }
        },
        NetEventView::PeerError { peer, .. } => {
            if v.peers.contains_key(peer) {
                lemma_known_peer_wf(v, peer, v.peers[peer].offline());
                lemma_same_roster_wf(v.with_peer(peer, v.peers[peer].offline()), after);
            } else {
                lemma_same_roster_wf(v, after);
            }
        },
        NetEventView::Message { peer, msg } => {
            if v.peers.contains_key(peer) {
                let p = AppView::peer_heard(v.peers[peer], msg.from_onion, msg.body);
                lemma_known_peer_wf(v, peer, p);
                lemma_same_roster_wf(v.with_peer(peer, p), after);
            } else {
                lemma_same_roster_wf(v, after);
            }
        },
        NetEventView::Status(_) => {
            lemma_same_roster_wf(v, after);
        },
    }
}

proof fn lemma_connect_wf(v: AppView, peer: PeerId, onion: Seq<char>, inbound: bool)
    requires
        v.wf(),
        v.peer_connected(peer, onion, inbound).shows(),
    ensures
        v.connected(peer, onion, inbound).wf(),
{
    let after = v.connected(peer, onion, inbound);
    assert(v.order.contains(peer) <==> v.peers.contains_key(peer));
    if !v.peers.contains_key(peer) {
        assert(after.order == v.order.push(peer));
        assert forall|id: PeerId| #[trigger]
            after.order.contains(id) <==> after.peers.contains_key(id) by {
            assert(v.order.contains(id) <==> v.peers.contains_key(id));
            if v.order.contains(id) {
                let i = choose|i: int| 0 <= i < v.order.len() && v.order[i] == id;
                assert(after.order[i] == id);
            }
            if id == peer {
                assert(after.order[v.order.len() as int] == id);
            }
        }
    } else {
        assert(after.order == v.order);
        assert forall|id: PeerId| #[trigger]
            after.order.contains(id) <==> after.peers.contains_key(id) by {
            assert(v.order.contains(id) <==> v.peers.contains_key(id));
        }
    }
    assert forall|id: PeerId| #[trigger]
        after.peers.contains_key(id) implies after.peers[id].shows() by {
        if id != peer {
            assert(v.peers.contains_key(id));
        }
    }
}

/// In a state with the invariant every key can be handled.
pub proof fn every_key_is_accepted(v: AppView, key: KeyEvent)
    requires
        v.wf(),
    ensures
        v.accepts_key(key),
{
    assert(v.lists()) by {
        assert forall|i: int|
            0 <= i < v.order.len() && v.peers.contains_key(#[trigger] v.order[i]) implies v.peers[v.order[i]].shows() by {}
    }
}

/// In a state with the invariant every event whose own address has a short form can be taken in.
pub proof fn presentable_event_is_accepted(v: AppView, ev: NetEventView)
    requires
        v.wf(),
        presentable(ev),
    ensures
        v.accepts_event(ev),
{
    match ev {
        NetEventView::PeerConnected { peer, .. } => {
            assert(v.peers.contains_key(peer) ==> v.peers[peer].shows());
        },
        NetEventView::PeerDisconnected { peer } => {
            assert(v.peers.contains_key(peer) ==> v.peers[peer].shows());
        },
        _ => {},
    }
}

// ── Runs ───────────────────────────────────────────────────────────────────────────────────

/// One thing that happens to the application.
pub enum Step {
    Key(KeyEvent),
    Net(NetEventView),
}

/// The state after one step.
pub open spec fn after_step(v: AppView, step: Step) -> AppView {
    match step {
        Step::Key(key) => v.after_key(key).0,
        Step::Net(ev) => v.after_event(ev),
    }
}

/// The state after a run of steps.
pub open spec fn after_run(v: AppView, steps: Seq<Step>) -> AppView
    decreases steps.len(),
{
    if steps.len() == 0 {
        v
    } else {
        after_step(after_run(v, steps.drop_last()), steps.last())
    }
}

/// Whether every network event of a run carries addresses with a short form.
pub open spec fn presentable_run(steps: Seq<Step>) -> bool {
    forall|i: int|
        0 <= i < steps.len() ==> (#[trigger] steps[i] matches Step::Net(ev) ==> presentable(ev))
}

/// Whatever keys are pressed and whatever the network reports, from start-up on, the
/// application keeps its invariant and can handle every further key; every known peer has one
/// place in the display order, nobody else has one, and the focus is on nobody unknown.
pub proof fn every_run_keeps_wf(steps: Seq<Step>, key: KeyEvent)
    requires
        presentable_run(steps),
    ensures
        after_run(AppView::initial(), steps).wf(),
        after_run(AppView::initial(), steps).accepts_key(key),
        ({
            let v = after_run(AppView::initial(), steps);
            &&& v.order.no_duplicates()
            &&& forall|id: PeerId| #[trigger] v.order.contains(id) <==> v.peers.contains_key(id)
            &&& v.active matches Some(a) ==> v.peers.contains_key(a)
        }),
    decreases steps.len(),
{
    let v = after_run(AppView::initial(), steps);
    if steps.len() == 0 {
        start_is_wf();
    } else {
        let before = steps.drop_last();
        assert(presentable_run(before)) by {
            assert forall|i: int| 0 <= i < before.len() implies (#[trigger] before[i] matches Step::Net(
                ev,
            ) ==> presentable(ev)) by {
                assert(before[i] == steps[i]);
            }
        }
        every_run_keeps_wf(before, key);
        let u = after_run(AppView::initial(), before);
        match steps.last() {
            Step::Key(k) => {
                key_keeps_wf(u, k);
            },
            Step::Net(ev) => {
                assert(steps[steps.len() - 1] == steps.last());
                presentable_event_is_accepted(u, ev);
                event_keeps_wf(u, ev);
            },
        }
    }
    every_key_is_accepted(v, key);
}

// ── Nothing is lost ────────────────────────────────────────────────────────────────────────

/// Whether `a` begins `b`.
pub open spec fn begins<A>(a: Seq<A>, b: Seq<A>) -> bool {
    a.len() <= b.len() && b.take(a.len() as int) == a
}

/// Whether `w` holds everything that was said and known in `v`.
pub open spec fn remembers(v: AppView, w: AppView) -> bool {
    &&& begins(v.system, w.system)
    &&& begins(v.order, w.order)
    &&& forall|id: PeerId| #[trigger]
        v.peers.contains_key(id) ==> w.peers.contains_key(id) && begins(
            v.peers[id].log,
            w.peers[id].log,
        )
}

proof fn lemma_begins_self<A>(a: Seq<A>)
    ensures
        begins(a, a),
{
    assert(a.take(a.len() as int) == a);
}

proof fn lemma_begins_more<A>(a: Seq<A>, more: Seq<A>)
    ensures
        begins(a, a + more),
{
    assert((a + more).take(a.len() as int) == a);
}

proof fn lemma_begins_push<A>(a: Seq<A>, x: A)
    ensures
        begins(a, a.push(x)),
{
    assert(a.push(x).take(a.len() as int) == a);
}

/// A system log that grew at its end, over the same peers, remembers.
proof fn lemma_remembers_log(v: AppView, w: AppView)
    requires
        w.peers == v.peers,
        w.order == v.order,
        begins(v.system, w.system),
    ensures
        remembers(v, w),
{
    lemma_begins_self(v.order);
    assert forall|id: PeerId| #[trigger]
        v.peers.contains_key(id) implies w.peers.contains_key(id) && begins(
        v.peers[id].log,
        w.peers[id].log,
    ) by {
        lemma_begins_self(v.peers[id].log);
    }
}

/// One peer set anew, with a log that grew at its end, remembers.
proof fn lemma_remembers_peer(v: AppView, w: AppView, id: PeerId, p: PeerView)
    requires
        w.peers == v.peers.insert(id, p),
        begins(v.order, w.order),
        begins(v.system, w.system),
        v.peers.contains_key(id) ==> begins(v.peers[id].log, p.log),
    ensures
        remembers(v, w),
{
    assert forall|k: PeerId| #[trigger]
        v.peers.contains_key(k) implies w.peers.contains_key(k) && begins(
        v.peers[k].log,
        w.peers[k].log,
    ) by {
        if k != id {
            lemma_begins_self(v.peers[k].log);
        }
    }
}

/// A key takes nothing away: the system log, the display order and every conversation only
/// grow at their end, and no peer is forgotten.
pub proof fn key_remembers(v: AppView, key: KeyEvent)
    ensures
        remembers(v, v.after_key(key).0),
{
    let after = v.after_key(key).0;
    lemma_begins_self(v.system);
    lemma_begins_self(v.order);
    if !key.quits() && key.code is Enter {
        let line = trimmed(v.input);
        let cleared = AppView { input: Seq::empty(), ..v };
        if line.len() == 0 {
            lemma_remembers_log(v, after);
        } else if line[0] == '/' {
            let rest = line.drop_first();
            command_remembers(cleared, rest);
            lemma_remembers_log(v, after);
        } else {
            match v.active {
                None => {
                    lemma_begins_push(v.system, after.system.last());
                    lemma_remembers_log(v, after);
                },
                Some(peer) => {
                    if !v.peers.contains_key(peer) {
                        lemma_remembers_log(v, after);
                    } else if !v.peers[peer].connected {
                        lemma_begins_push(v.system, after.system.last());
                        lemma_remembers_log(v, after);
                    } else {
                        let said = ChatLineView { from_me: true, who: cleared.me(), body: line };
                        lemma_begins_push(v.peers[peer].log, said);
                        lemma_remembers_peer(v, after, peer, v.peers[peer].logged(said));
                    }
                },
            }
        }
    } else {
        lemma_remembers_log(v, after);
    }
}

proof fn command_remembers(v: AppView, rest: Seq<char>)
    ensures
        v.commanded(rest).0.peers == v.peers,
        v.commanded(rest).0.order == v.order,
        begins(v.system, v.commanded(rest).0.system),
{
    let after = v.commanded(rest).0;
    lemma_begins_self(v.system);
    if after.system.len() == v.system.len() + 1 {
        lemma_begins_push(v.system, after.system.last());
    }
    if first_word(rest) == "peers"@ && v.order.len() > 0 {
        let lines = v.roster().map_values(|id: PeerId| v.peers[id].listing(id));
        assert(v.system.push("peers:"@) + lines == v.system + (seq!["peers:"@] + lines));
        lemma_begins_more(v.system, seq!["peers:"@] + lines);
    }
    lemma_begins_more(v.system, help_lines());
}

/// A network event takes nothing away either.
pub proof fn event_remembers(v: AppView, ev: NetEventView)
    ensures
        remembers(v, v.after_event(ev)),
{
    let after = v.after_event(ev);
    lemma_begins_self(v.system);
    lemma_begins_self(v.order);
    if after.system != v.system {
        lemma_begins_push(v.system, after.system.last());
    }
    match ev {
        NetEventView::PeerConnected { peer, onion, inbound } => {
            let p = v.peer_connected(peer, onion, inbound);
            if v.peers.contains_key(peer) {
                lemma_begins_self(v.peers[peer].log);
            }
            lemma_begins_push(v.order, peer);
            lemma_begins_push(v.system, after.system.last());
            lemma_remembers_peer(v, after, peer, p);
        },
        NetEventView::Message { peer, msg } => {
            if v.peers.contains_key(peer) {
                let p = AppView::peer_heard(v.peers[peer], msg.from_onion, msg.body);
                lemma_begins_push(
                    v.peers[peer].log,
                    ChatLineView { from_me: false, who: short(msg.from_onion), body: msg.body },
                );
                lemma_remembers_peer(v, after, peer, p);
            } else {
                lemma_begins_push(v.system, after.system.last());
                lemma_remembers_log(v, after);
            }
        },
        NetEventView::PeerDisconnected { peer } => {
            if v.peers.contains_key(peer) {
                lemma_begins_self(v.peers[peer].log);
                lemma_begins_push(v.system, after.system.last());
                lemma_remembers_peer(v, after, peer, v.peers[peer].offline());
            } else {
                lemma_remembers_log(v, after);
            }
        },
        NetEventView::PeerError { peer, .. } => {
            lemma_begins_push(v.system, after.system.last());
            if v.peers.contains_key(peer) {
                lemma_begins_self(v.peers[peer].log);
                lemma_remembers_peer(v, after, peer, v.peers[peer].offline());
            } else {
                lemma_remembers_log(v, after);
            }
        },
        _ => {
            lemma_begins_push(v.system, after.system.last());
            lemma_remembers_log(v, after);
        },
    }
}

// ── Focus ──────────────────────────────────────────────────────────────────────────────────

/// The position of an entry is where it stands.
pub proof fn lemma_position(order: Seq<PeerId>, id: PeerId)
    requires
        order.contains(id),
    ensures
        position(order, id) < order.len(),
        order[position(order, id) as int] == id,
    decreases order.len(),
{
    if order[0] != id {
        let i = choose|i: int| 0 <= i < order.len() && order[i] == id;
        assert(order.drop_first()[i - 1] == id);
        assert(order.drop_first().contains(id));
        lemma_position(order.drop_first(), id);
    }
}

impl AppView {
    /// Whether the panes form a ring with the focus on it: no peer has two of them, and the
    /// focus is on the system log or on a peer that has one.
    pub open spec fn rings(self) -> bool {
        &&& self.order.no_duplicates()
        &&& self.active matches Some(id) ==> self.order.contains(id)
    }
}

/// In a state with the invariant the panes form a ring.
pub proof fn the_panes_form_a_ring(v: AppView)
    requires
        v.wf(),
    ensures
        v.rings(),
{
    if let Some(id) = v.active {
        assert(v.order.contains(id));
    }
}

/// The focused pane is one of the panes.
pub proof fn lemma_focus_in_range(v: AppView)
    requires
        v.rings(),
    ensures
        0 <= v.focus() < v.panes().len(),
        v.panes()[v.focus()] == v.active,
{
    if let Some(id) = v.active {
        lemma_position(v.order, id);
    }
}

/// No two panes are the same.
proof fn lemma_panes_differ(v: AppView, i: int, j: int)
    requires
        v.rings(),
        0 <= i < v.panes().len(),
        0 <= j < v.panes().len(),
        v.panes()[i] == v.panes()[j],
    ensures
        i == j,
{
}

/// The focus lands on the pane that it was moved to, and the panes stay as they are.
proof fn lemma_cycle_lands(v: AppView, delta: int)
    requires
        v.rings(),
    ensures
        v.cycled(delta).rings(),
        v.cycled(delta).panes() == v.panes(),
        v.cycled(delta).focus() == (v.focus() + delta) % (v.panes().len() as int),
{
    let n = v.panes().len() as int;
    let next = (v.focus() + delta) % n;
    let w = v.cycled(delta);
    assert(0 <= next < n);
    if next > 0 {
        assert(v.panes()[next] == Some(v.order[next - 1]));
        assert(w.order.contains(v.order[next - 1]));
    }
    lemma_focus_in_range(w);
    lemma_panes_differ(w, w.focus(), next);
}

/// Moving the focus by one distance and then by another is moving it by both at once, and moving
/// it back by the same distance brings it back to where it was.
pub proof fn cycling_adds_up(v: AppView, a: int, b: int)
    requires
        v.rings(),
    ensures
        v.cycled(a).cycled(b) == v.cycled(a + b),
        v.cycled(a).cycled(-a).active == v.active,
{
    lemma_cycle_twice(v, a, b);
    lemma_cycle_twice(v, a, -a);
    lemma_focus_in_range(v);
    vstd::arithmetic::div_mod::lemma_small_mod(v.focus() as nat, v.panes().len());
}

proof fn lemma_cycle_twice(v: AppView, a: int, b: int)
    requires
        v.rings(),
    ensures
        v.cycled(a).cycled(b) == v.cycled(a + b),
{
    let n = v.panes().len() as int;
    let f = v.focus();
    let g = (f + a) % n;
    lemma_cycle_lands(v, a);
    vstd::arithmetic::div_mod::lemma_add_mod_noop(f + a, b, n);
    vstd::arithmetic::div_mod::lemma_mod_twice(f + a, n);
    assert((g + b) % n == (f + a + b) % n) by {
        vstd::arithmetic::div_mod::lemma_add_mod_noop(g, b, n);
    }
}

/// The state after the focus moved on by one pane, `times` times.
pub open spec fn stepped_on(v: AppView, times: nat) -> AppView
    decreases times,
{
    if times == 0 {
        v
    } else {
        stepped_on(v, (times - 1) as nat).cycled(1)
    }
}

proof fn lemma_stepped_on(v: AppView, times: nat)
    requires
        v.rings(),
    ensures
        stepped_on(v, times).active == v.cycled(times as int).active,
        times > 0 ==> stepped_on(v, times) == v.cycled(times as int),
    decreases times,
{
    if times == 0 {
        lemma_focus_in_range(v);
        vstd::arithmetic::div_mod::lemma_small_mod(v.focus() as nat, v.panes().len());
    } else if times == 1 {
        assert(stepped_on(v, 0) == v);
    } else {
        lemma_stepped_on(v, (times - 1) as nat);
        lemma_cycle_twice(v, times - 1, 1);
    }
}

/// How many steps on from the focus the pane `i` is first reached.
pub open spec fn steps_to(v: AppView, i: int) -> int {
    if i > v.focus() {
        i - v.focus()
    } else {
        i - v.focus() + v.panes().len()
    }
}

/// Going on by one pane as often as there are panes visits every conversation and the system log,
/// each exactly once, and ends where it began.
pub proof fn full_circle(v: AppView, i: int, times: nat)
    requires
        v.rings(),
        0 <= i < v.panes().len(),
        1 <= times <= v.panes().len(),
    ensures
        1 <= steps_to(v, i) <= v.panes().len(),
        stepped_on(v, times).active == v.panes()[i] <==> times == steps_to(v, i),
        stepped_on(v, v.panes().len()).active == v.active,
{
    let n = v.panes().len() as int;
    let f = v.focus();
    lemma_focus_in_range(v);
    lemma_stepped_on(v, times);
    lemma_stepped_on(v, n as nat);
    vstd::arithmetic::div_mod::lemma_mod_add_multiples_vanish(f, n);
    vstd::arithmetic::div_mod::lemma_small_mod(f as nat, n as nat);
    let next = (f + times) % n;
    if f + times < n {
        vstd::arithmetic::div_mod::lemma_small_mod((f + times) as nat, n as nat);
        assert(next == f + times);
    } else {
        vstd::arithmetic::div_mod::lemma_mod_add_multiples_vanish(f + times - n, n);
        vstd::arithmetic::div_mod::lemma_small_mod((f + times - n) as nat, n as nat);
        assert(next == f + times - n);
    }
    if v.panes()[next] == v.panes()[i] {
        lemma_panes_differ(v, next, i);
    }
}

/// A network event moves the focus in one case alone: the first connection, while the system
/// log has it.
pub proof fn focus_is_not_stolen(v: AppView, ev: NetEventView)
    ensures
        v.after_event(ev).active == (match ev {
            NetEventView::PeerConnected { peer, .. } if v.active is None => Some(peer),
            _ => v.active,
        }),
{
}

// ── Conversations ──────────────────────────────────────────────────────────────────────────

/// A message leaves the program only for the focused conversation, only while that peer is
/// connected, and what leaves is what was typed and what the conversation then shows last.
pub proof fn only_the_focused_peer_is_sent_to(v: AppView, key: KeyEvent, peer: PeerId, body: Seq<char>)
    requires
        v.after_key(key).1 == Some(AppActionView::Command(UiCommandView::Send { peer, body })),
    ensures
        key.code is Enter,
        v.active == Some(peer),
        v.peers.contains_key(peer),
        v.peers[peer].connected,
        body == trimmed(v.input),
        body.len() > 0,
        body[0] != '/',
        v.after_key(key).0.peers[peer].log == v.peers[peer].log.push(
            ChatLineView { from_me: true, who: v.me(), body },
        ),
{
    let cleared = AppView { input: Seq::empty(), ..v };
    assert(cleared.me() == v.me());
}

/// A message from a peer touches that peer's conversation alone, by one line.
pub proof fn a_message_touches_its_conversation_alone(v: AppView, ev: NetEventView, other: PeerId)
    requires
        ev is Message,
        v.peers.contains_key(ev->Message_peer),
        other != ev->Message_peer,
    ensures
        v.after_event(ev).peers.contains_key(other) == v.peers.contains_key(other),
        v.peers.contains_key(other) ==> v.after_event(ev).peers[other] == v.peers[other],
        v.after_event(ev).peers[ev->Message_peer].log == v.peers[ev->Message_peer].log.push(
            ChatLineView {
                from_me: false,
                who: short(ev->msg.from_onion),
                body: ev->msg.body,
            },
        ),
        v.after_event(ev).system == v.system,
{
}

/// An inbound peer shows as `(incoming)` until its first message that names an address; from
/// that message on it shows under that address.
pub proof fn an_inbound_peer_is_named_by_its_first_message(v: AppView, peer: PeerId, ev: NetEventView)
    requires
        v.peers.contains_key(peer),
        v.peers[peer].onion.len() == 0,
        ev is Message,
        ev->Message_peer == peer,
        ev->msg.from_onion.len() > 0,
    ensures
        v.peers[peer].label() == "(incoming)"@,
        v.after_event(ev).peers[peer].onion == ev->msg.from_onion,
        v.after_event(ev).peers[peer].label() == short(ev->msg.from_onion),
{
}

/// Once the address of a peer is known, nothing but a new connection under the same handle
/// changes it, and no message does.
pub proof fn a_known_identity_stays(v: AppView, peer: PeerId, ev: NetEventView)
    requires
        v.peers.contains_key(peer),
        v.peers[peer].onion.len() > 0,
        !(ev is PeerConnected),
    ensures
        v.after_event(ev).peers.contains_key(peer),
        v.after_event(ev).peers[peer].onion == v.peers[peer].onion,
{
}

/// A fresh inbound connection has no address yet and no history, and is online.
pub proof fn a_fresh_inbound_peer_is_unnamed(v: AppView, peer: PeerId)
    requires
        !v.peers.contains_key(peer),
    ensures
        v.connected(peer, Seq::empty(), true).peers[peer] == (PeerView {
            onion: Seq::empty(),
            inbound: true,
            connected: true,
            log: Seq::empty(),
        }),
        v.connected(peer, Seq::empty(), true).peers[peer].label() == "(incoming)"@,
{
}

/// In a state with the invariant the answer to `/peers` lists every known peer, in display
/// order and each once.
pub proof fn the_roster_is_the_display_order(v: AppView)
    requires
        v.wf(),
    ensures
        v.roster() == v.order,
{
    let known = |id: PeerId| v.peers.contains_key(id);
    assert forall|i: int| 0 <= i < v.order.len() implies known(#[trigger] v.order[i]) by {
        assert(v.order.contains(v.order[i]));
    }
    lemma_filter_keeps_all(v.order, known);
}

/// A filter that everything passes leaves all of it.
pub proof fn lemma_filter_keeps_all(s: Seq<PeerId>, keep: spec_fn(PeerId) -> bool)
    requires
        forall|i: int| 0 <= i < s.len() ==> keep(#[trigger] s[i]),
    ensures
        s.filter(keep) == s,
    decreases s.len(),
{
    reveal(Seq::filter);
    if s.len() > 0 {
        assert forall|i: int| 0 <= i < s.drop_last().len() implies keep(
            #[trigger] s.drop_last()[i],
        ) by {
            assert(s.drop_last()[i] == s[i]);
        }
        lemma_filter_keeps_all(s.drop_last(), keep);
        assert(keep(s[s.len() - 1]));
        assert(s.drop_last().push(s.last()) == s);
    }
}

// ── Typing ─────────────────────────────────────────────────────────────────────────────────

/// The state after the characters of `text` were typed one by one.
pub open spec fn after_typing(v: AppView, text: Seq<char>) -> AppView
    decreases text.len(),
{
    if text.len() == 0 {
        v
    } else {
        after_typing(v, text.drop_last()).after_key(
            KeyEvent { code: KeyCode::Char(text.last()), control: false },
        ).0
    }
}

/// Typing a text appends it to the input line and changes nothing else.
pub proof fn typing_fills_the_input(v: AppView, text: Seq<char>)
    ensures
        after_typing(v, text) == (AppView { input: v.input + text, ..v }),
    decreases text.len(),
{
    if text.len() == 0 {
        assert(v.input + text == v.input);
    } else {
        typing_fills_the_input(v, text.drop_last());
        assert((v.input + text.drop_last()).push(text.last()) == v.input + text);
    }
}

/// Backspace takes back the character typed last.
pub proof fn backspace_undoes_a_character(v: AppView, c: char)
    ensures
        v.after_key(KeyEvent { code: KeyCode::Char(c), control: false }).0.after_key(
            KeyEvent { code: KeyCode::Backspace, control: false },
        ).0 == v,
{
    assert(v.input.push(c).drop_last() == v.input);
}

/// Escape and Ctrl+C quit from every state, and leave it as it is.
pub proof fn quitting_changes_nothing(v: AppView, key: KeyEvent)
    requires
        key.quits(),
    ensures
        v.after_key(key) == (v, Some(AppActionView::Quit)),
{
}

/// Page Down takes back Page Up, unless the scroll position was at its limit.
pub proof fn page_down_undoes_page_up(v: AppView, control: bool)
    requires
        v.scroll + 5 <= usize::MAX,
    ensures
        v.after_key(KeyEvent { code: KeyCode::PageUp, control }).0.after_key(
            KeyEvent { code: KeyCode::PageDown, control },
        ).0 == v,
{
}

/// Whether `alias` is the short form of the command `long`.
pub open spec fn alias_of(long: Seq<char>, alias: Seq<char>) -> bool {
    ||| long == "connect"@ && alias == "c"@
    ||| long == "disconnect"@ && alias == "d"@
    ||| long == "quit"@ && alias == "q"@
    ||| long == "help"@ && alias == "h"@
}

/// Splitting a word from what follows it, which is nothing or begins with white space.
proof fn lemma_word_splits(word: Seq<char>, rest: Seq<char>)
    requires
        forall|i: int| 0 <= i < word.len() ==> !white_space(#[trigger] word[i]),
        rest.len() > 0 ==> white_space(rest[0]),
    ensures
        word_len(word + rest) == word.len(),
        first_word(word + rest) == word,
        after_word(word + rest) == (if rest.len() > 0 {
            rest.drop_first()
        } else {
            rest
        }),
    decreases word.len(),
{
    let s = word + rest;
    if word.len() > 0 {
        let tail = word.drop_first();
        assert(s[0] == word[0]);
        assert(s.drop_first() == tail + rest);
        assert forall|i: int| 0 <= i < tail.len() implies !white_space(#[trigger] tail[i]) by {
            assert(tail[i] == word[i + 1]);
        }
        lemma_word_splits(tail, rest);
    } else {
        assert(s == rest);
    }
    assert(s.take(word.len() as int) == word);
    if rest.len() > 0 {
        assert(s.skip(word.len() as int + 1) == rest.drop_first());
    } else {
        assert(rest == Seq::<char>::empty());
    }
}

/// A command and its alias, with the same argument behind it, do the same; the two for quitting
/// quit, and the two for help only speak.
pub proof fn aliases_agree(v: AppView, long: Seq<char>, alias: Seq<char>, arg: Seq<char>)
    requires
        alias_of(long, alias),
        arg.len() > 0 ==> white_space(arg[0]),
    ensures
        v.commanded(alias + arg) == v.commanded(long + arg),
        long == "quit"@ ==> v.commanded(long + arg) == (v, Some(AppActionView::Quit)),
        long == "help"@ ==> v.commanded(long + arg) == (
            v.said_all(help_lines()),
            None::<AppActionView>,
        ),
{
    reveal_strlit("connect");
    reveal_strlit("c");
    reveal_strlit("disconnect");
    reveal_strlit("d");
    reveal_strlit("quit");
    reveal_strlit("q");
    reveal_strlit("help");
    reveal_strlit("h");
    reveal_strlit("peers");
    assert("q"@[0] != "c"@[0] && "q"@[0] != "d"@[0] && "h"@[0] != "c"@[0] && "h"@[0] != "d"@[0]
        && "h"@[0] != "q"@[0] && "d"@[0] != "c"@[0]);
    assert("connect"@.len() == 7 && "disconnect"@.len() == 10 && "quit"@.len() == 4 && "help"@.len()
        == 4 && "peers"@.len() == 5);
    assert("q"@.len() == 1 && "c"@.len() == 1 && "d"@.len() == 1 && "h"@.len() == 1);
    assert("quit"@[0] != "help"@[0]);
    lemma_word_splits(long, arg);
    lemma_word_splits(alias, arg);
}

// ── Short addresses ────────────────────────────────────────────────────────────────────────

/// Every ASCII address has a short form: its first eight characters and an ellipsis, or the
/// whole service id where it has no more than eight.
pub proof fn ascii_addresses_shorten(onion: Seq<char>)
    requires
        is_ascii_chars(onion),
    ensures
        shortens(onion),
        service_id(onion).len() > 8 ==> short(onion) == service_id(onion).take(8) + "…"@,
        service_id(onion).len() <= 8 ==> short(onion) == service_id(onion),
{
    assert(is_ascii_chars(service_id(onion)));
    lemma_ascii_id_shortens(onion);
}

/// An address with an ASCII service id has a short form.
pub proof fn lemma_ascii_id_shortens(onion: Seq<char>)
    requires
        is_ascii_chars(service_id(onion)),
    ensures
        shortens(onion),
        service_id(onion).len() > 8 ==> short(onion) == service_id(onion).take(8) + "…"@,
        service_id(onion).len() <= 8 ==> short(onion) == service_id(onion),
{
    let id = service_id(onion);
    is_ascii_chars_encode_utf8(id);
    let bytes = encode_utf8(id);
    encode_utf8_valid_utf8(id);
    if bytes.len() > 8 {
        let head = id.take(8);
        assert(is_ascii_chars(head));
        is_ascii_chars_encode_utf8(head);
        assert(encode_utf8(head) =~= bytes.subrange(0, 8)) by {
            assert forall|i: int| 0 <= i < 8 implies encode_utf8(head)[i] == bytes[i] by {
                assert(head[i] == id[i]);
            }
        }
        encode_utf8_decode_utf8(head);
        assert(id[8] as u8 == bytes[8]);
        is_char_boundary_iff_not_is_continuation_byte(bytes, 8);
    }
}

} // verus!
