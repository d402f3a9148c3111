//! Application state and how it changes. Nothing here performs I/O: the state changes in
//! response to keys ([`App::on_key`]) and network events ([`App::apply_net_event`]), and a key
//! answers with what the main loop should do.

use std::collections::HashMap;

use vstd::prelude::*;
use vstd::string::*;
use vstd::utf8::*;

use crate::app_laws::{command_keeps_wf, cycle_keeps_wf, event_keeps_wf, key_keeps_wf};
use crate::app_model::{
    AppActionView, AppView, ChatLineView, KeyCode, KeyEvent, PeerView, help_lines, position, short,
    shortens, tag,
};
use crate::message::{NetEvent, PeerId, UiCommand};
use crate::text::{push_decimal, same_text, split_word, strip_end, strip_start, trim};

verus! {

/// What the main loop should do after handling a key.
pub enum AppAction {
    /// The user wants to quit; the loop should shut the network down and restore the terminal.
    Quit,
    /// A command to forward to the network manager.
    Command(UiCommand),
}

impl View for AppAction {
    type V = AppActionView;

    open spec fn view(&self) -> AppActionView {
        match *self {
            AppAction::Quit => AppActionView::Quit,
            AppAction::Command(cmd) => AppActionView::Command(cmd@),
        }
    }
}

/// What an optional action says.
pub open spec fn action_view(action: Option<AppAction>) -> Option<AppActionView> {
    match action {
        Some(a) => Some(a@),
        None => None,
    }
}

/// One line in a conversation.
pub struct ChatLine {
    pub from_me: bool,
    /// Display name of the sender (a shortened onion).
    pub who: String,
    pub body: String,
}

impl View for ChatLine {
    type V = ChatLineView;

    open spec fn view(&self) -> ChatLineView {
        ChatLineView { from_me: self.from_me, who: self.who@, body: self.body@ }
    }
}

/// A peer conversation in the roster.
pub struct Peer {
    /// The peer's onion address (empty until learned, e.g. for inbound connections).
    pub onion: String,
    pub inbound: bool,
    pub connected: bool,
    pub log: Vec<ChatLine>,
}

impl View for Peer {
    type V = PeerView;

    open spec fn view(&self) -> PeerView {
        PeerView {
            onion: self.onion@,
            inbound: self.inbound,
            connected: self.connected,
            log: self.log@.map_values(|c: ChatLine| c@),
        }
    }
}

/// Whole-application state.
pub struct App {
    /// Our own published onion address, once Tor reports it.
    pub own_onion: Option<String>,
    /// Latest status-bar text.
    pub status: String,
    /// Peer conversations, keyed by their local [`PeerId`].
    pub peers: HashMap<PeerId, Peer>,
    /// Stable display order for the roster.
    pub order: Vec<PeerId>,
    /// Currently focused conversation; `None` selects the system log.
    pub active: Option<PeerId>,
    /// System log (shown when no peer is focused).
    pub system: Vec<String>,
    /// Current input line.
    pub input: String,
    /// Lines scrolled up from the bottom of the active conversation (0 = pinned to newest).
    pub scroll: usize,
}

/// What a table of peers says.
pub open spec fn peers_view(peers: Map<PeerId, Peer>) -> Map<PeerId, PeerView> {
    Map::new(|id: PeerId| peers.contains_key(id), |id: PeerId| peers[id]@)
}

/// What a list of strings says.
pub open spec fn texts(lines: Seq<String>) -> Seq<Seq<char>> {
    lines.map_values(|s: String| s@)
}

impl View for App {
    type V = AppView;

    open spec fn view(&self) -> AppView {
        AppView {
            own_onion: match self.own_onion {
                Some(onion) => Some(onion@),
                None => None,
            },
            status: self.status@,
            peers: peers_view(self.peers@),
            order: self.order@,
            active: self.active,
            system: texts(self.system@),
            input: self.input@,
            scroll: self.scroll,
        }
    }
}

proof fn lemma_peers_insert(peers: Map<PeerId, Peer>, id: PeerId, p: Peer)
    ensures
        peers_view(peers.insert(id, p)) == peers_view(peers).insert(id, p@),
{
    assert(peers_view(peers.insert(id, p)) =~= peers_view(peers).insert(id, p@));
}

/// Taking a peer out and putting another in its place is the same as putting it in.
proof fn lemma_peers_replace(peers: Map<PeerId, Peer>, id: PeerId, p: Peer)
    ensures
        peers_view(peers.remove(id).insert(id, p)) == peers_view(peers).insert(id, p@),
{
    assert(peers.remove(id).insert(id, p) =~= peers.insert(id, p));
    lemma_peers_insert(peers, id, p);
}

proof fn lemma_log_push(log: Seq<ChatLine>, line: ChatLine)
    ensures
        log.push(line).map_values(|c: ChatLine| c@) == log.map_values(|c: ChatLine| c@).push(line@),
{
    assert(log.push(line).map_values(|c: ChatLine| c@) =~= log.map_values(|c: ChatLine| c@).push(
        line@,
    ));
}

proof fn lemma_texts_push(lines: Seq<String>, line: String)
    ensures
        texts(lines.push(line)) == texts(lines).push(line@),
{
    assert(texts(lines.push(line)) =~= texts(lines).push(line@));
}

/// Shorten an onion address to `abcd1234…` for compact display.
pub fn short_onion(onion: &str) -> (r: String)
    requires
        shortens(onion@),
    ensures
        r@ == short(onion@),
{
    let id = strip_end(onion, ".onion");
    if id.as_bytes().len() > 8 {
        let (head, _rest) = id.split_at(8);
        proof {
            encode_utf8_decode_utf8(head@);
        }
        let mut out = head.to_owned();
        out.append("…");
        out
    } else {
        id.to_owned()
    }
}

/// Whether an onion address has a short form.
pub fn has_short_form(onion: &str) -> (r: bool)
    ensures
        r == shortens(onion@),
{
    let id = strip_end(onion, ".onion");
    if id.as_bytes().len() > 8 {
        id.is_char_boundary(8)
    } else {
        true
    }
}

/// Appends the handle of a peer as it is shown.
pub fn push_tag(out: &mut String, id: PeerId)
    ensures
        final(out)@ == old(out)@ + tag(id),
{
    out.append("[");
    push_decimal(out, id as u64);
    out.append("]");
    assert(out@ == old(out)@ + tag(id));
}

impl Peer {
    /// Whether the peer has a label.
    pub fn has_label(&self) -> (r: bool)
        ensures
            r == self@.shows(),
    {
        self.onion.as_str().is_empty() || has_short_form(self.onion.as_str())
    }

    /// Roster label: the short onion, or a placeholder while the identity is still unknown.
    pub fn label(&self) -> (r: String)
        requires
            self@.shows(),
        ensures
            r@ == self@.label(),
    {
        if self.onion.as_str().is_empty() {
            "(incoming)".to_owned()
        } else {
            short_onion(self.onion.as_str())
        }
    }
}

impl App {
    /// The state at start-up.
    pub fn new() -> (r: App)
        ensures
            r@ == AppView::initial(),
            r@.wf(),
    {
        let mut app = App {
            own_onion: None,
            status: "starting — publishing onion service…".to_owned(),
            peers: HashMap::new(),
            order: Vec::new(),
            active: None,
            system: Vec::new(),
            input: String::new(),
            scroll: 0,
        };
        app.sys("Welcome to hop6. Type /help for commands.".to_owned());
        assert(app@ =~= AppView::initial());
        app
    }

    /// Adds a line to the system log.
    fn sys(&mut self, line: String)
        ensures
            final(self)@ == old(self)@.said(line@),
            *final(self) == (App { system: final(self).system, ..*old(self) }),
    {
        proof {
            lemma_texts_push(self.system@, line);
        }
        self.system.push(line);
    }

    /// Short display label for our own identity.
    fn me(&self) -> (r: String)
        requires
            self@.names_self(),
        ensures
            r@ == self@.me(),
    {
        match &self.own_onion {
            Some(onion) => short_onion(onion.as_str()),
            None => "me".to_owned(),
        }
    }

    // ── Keys ───────────────────────────────────────────────────────────────────────────────

    /// Handles a key press and answers with what the main loop should do, if anything.
    pub fn on_key(&mut self, key: KeyEvent) -> (r: Option<AppAction>)
        requires
            old(self)@.accepts_key(key),
        ensures
            (final(self)@, action_view(r)) == old(self)@.after_key(key),
            old(self)@.wf() ==> final(self)@.wf(),
    {
        proof {
            if self@.wf() {
                key_keeps_wf(self@, key);
            }
        }
        // Ctrl+C quits from anywhere.
        if key.control && key.code == KeyCode::Char('c') {
            return Some(AppAction::Quit);
        }
        match key.code {
            KeyCode::Esc => Some(AppAction::Quit),
            KeyCode::Enter => self.submit_input(),
            KeyCode::Backspace => {
                self.input.pop();
                None
            },
            KeyCode::Char(c) => {
                self.input.push(c);
                None
            },
            // Cycle the focused conversation.
            KeyCode::Tab | KeyCode::Down => {
                self.cycle_active(1);
                None
            },
            KeyCode::BackTab | KeyCode::Up => {
                self.cycle_active(-1);
                None
            },
            // Scroll the active conversation.
            KeyCode::PageUp => {
                self.scroll = self.scroll.saturating_add(5);
                None
            },
            KeyCode::PageDown => {
                self.scroll = self.scroll.saturating_sub(5);
                None
            },
            KeyCode::Other => None,
        }
    }

    /// Processes the input line on Enter.
    fn submit_input(&mut self) -> (r: Option<AppAction>)
        requires
            old(self)@.accepts_submit(),
        ensures
            (final(self)@, action_view(r)) == old(self)@.submitted(),
    {
        let raw = self.input.clone();
        self.input = String::new();
        let ghost cleared = AppView { input: Seq::empty(), ..old(self)@ };
        assert(self@ =~= cleared);
        let line = trim(raw.as_str());
        if line.is_empty() {
            return None;
        }
        proof {
            reveal_strlit("/");
            assert("/"@ =~= seq!['/']);
            assert(line@.take(1) =~= seq![line@[0]]);
            assert(line@.skip(1) =~= line@.drop_first());
        }
        match strip_start(line, "/") {
            Some(rest) => {
                assert("/"@.len() == 1);
                assert(line@.take(1)[0] == '/');
                self.handle_command(rest)
            },
            None => {
                assert(line@[0] != '/') by {
                    if line@[0] == '/' {
                        assert(line@.take(1) == "/"@);
                    }
                }
                self.send_to_active(line.to_owned())
            },
        }
    }

    /// Carries out a slash command, given without its slash.
    pub fn handle_command(&mut self, rest: &str) -> (r: Option<AppAction>)
        requires
            old(self)@.accepts_command(rest@),
        ensures
            (final(self)@, action_view(r)) == old(self)@.commanded(rest@),
            old(self)@.wf() ==> final(self)@.wf(),
    {
        proof {
            if self@.wf() {
                command_keeps_wf(self@, rest@);
            }
        }
        let (cmd, tail) = split_word(rest);
        let arg = trim(tail);
        if same_text(cmd, "connect") || same_text(cmd, "c") {
            if arg.is_empty() {
                self.sys("usage: /connect <onion-address>".to_owned());
                None
            } else {
                let mut line = "connecting to ".to_owned();
                line.append(arg);
                line.append("…");
                self.sys(line);
                Some(AppAction::Command(UiCommand::Connect { onion: arg.to_owned() }))
            }
        } else if same_text(cmd, "disconnect") || same_text(cmd, "d") {
            match self.active {
                Some(peer) => Some(AppAction::Command(UiCommand::Disconnect { peer })),
                None => {
                    self.sys("no active conversation to disconnect".to_owned());
                    None
                },
            }
        } else if same_text(cmd, "peers") {
            self.list_peers();
            None
        } else if same_text(cmd, "quit") || same_text(cmd, "q") {
            Some(AppAction::Quit)
        } else if same_text(cmd, "help") || same_text(cmd, "h") {
            self.print_help();
            None
        } else {
            let mut line = "unknown command: /".to_owned();
            line.append(cmd);
            line.append(" (try /help)");
            self.sys(line);
            None
        }
    }

    /// Sends text to the focused conversation.
    fn send_to_active(&mut self, body: String) -> (r: Option<AppAction>)
        requires
            old(self)@.active is Some ==> old(self)@.names_self(),
        ensures
            (final(self)@, action_view(r)) == old(self)@.sent(body@),
    {
        match self.active {
            Some(peer) => {
                let me = self.me();
                let connected = match self.peers.get(&peer) {
                    Some(p) => p.connected,
                    None => return None,
                };
                if !connected {
                    self.sys("that peer is disconnected".to_owned());
                    return None;
                }
                let ghost before = self.peers@;
                if let Some(mut p) = self.peers.remove(&peer) {
                    let line = ChatLine { from_me: true, who: me, body: body.clone() };
                    proof {
                        lemma_log_push(p.log@, line);
                    }
                    p.log.push(line);
                    proof {
                        lemma_peers_replace(before, peer, p);
                    }
                    self.peers.insert(peer, p);
                }
                self.scroll = 0;  // jump to newest
                Some(AppAction::Command(UiCommand::Send { peer, body }))
            },
            None => {
                self.sys("no active conversation — use /connect <onion> first".to_owned());
                None
            },
        }
    }

    /// Lists the known peers in the system log.
    fn list_peers(&mut self)
        requires
            old(self)@.lists(),
        ensures
            final(self)@ == old(self)@.listed(),
    {
        if self.order.len() == 0 {
            self.sys("no peers yet".to_owned());
            return;
        }
        self.sys("peers:".to_owned());
        let ghost start = self@;
        let ghost first = old(self)@;
        let ghost known = |id: PeerId| first.peers.contains_key(id);
        let ghost listing = |id: PeerId| first.peers[id].listing(id);
        let n: usize = self.order.len();
        let mut i: usize = 0;
        proof {
            reveal(Seq::filter);
            assert(first.order.take(0).filter(known).map_values(listing) =~= Seq::<Seq<char>>::empty());
            assert(start.said_all(Seq::empty()) =~= start);
        }
        while i < n
            invariant
                i <= n,
                n == first.order.len(),
                first.lists(),
                start == first.said("peers:"@),
                self.peers == old(self).peers,
                first == old(self)@,
                self@ == start.said_all(
                    first.order.take(i as int).filter(known).map_values(listing),
                ),
                known == (|id: PeerId| first.peers.contains_key(id)),
                listing == (|id: PeerId| first.peers[id].listing(id)),
            decreases n - i,
        {
            let ghost done = first.order.take(i as int);
            let ghost next = first.order.take(i + 1);
            assert(self@.order == first.order);
            let id: PeerId = self.order[i];
            proof {
                reveal(Seq::filter);
                assert(next.drop_last() == done);
                assert(next.last() == id);
                assert(first.order[i as int] == id);
            }
            let line = match self.peers.get(&id) {
                Some(p) => {
                    assert(first.peers[id] == p@);
                    let mut line = "  ".to_owned();
                    push_tag(&mut line, id);
                    line.append(" ");
                    line.append(p.label().as_str());
                    line.append(" (");
                    line.append(if p.inbound { "in" } else { "out" });
                    line.append(", ");
                    line.append(if p.connected { "online" } else { "offline" });
                    line.append(")");
                    Some(line)
                },
                None => None,
            };
            match line {
                Some(line) => {
                    assert(line@ == listing(id));
                    self.sys(line);
                    proof {
                        let a = done.filter(known).map_values(listing);
                        let b = next.filter(known).map_values(listing);
                        assert(next.filter(known) == done.filter(known).push(id));
                        assert(b =~= a.push(line@));
                        assert(start.system + a.push(line@) =~= (start.system + a).push(line@));
                        assert(self@ =~= start.said_all(b));
                    }
                },
                None => {
                    assert(next.filter(known) == done.filter(known));
                },
            }
            i = i + 1;
        }
        proof {
            assert(first.order.take(n as int) == first.order);
            assert(first.roster() == first.order.filter(known));
        }
    }

    /// Writes the help text to the system log.
    fn print_help(&mut self)
        ensures
            final(self)@ == old(self)@.said_all(help_lines()),
    {
        self.sys("commands:".to_owned());
        self.sys("  /connect <onion>   dial a peer (alias /c)".to_owned());
        self.sys("  /disconnect        drop the active peer (alias /d)".to_owned());
        self.sys("  /peers             list known peers".to_owned());
        self.sys("  /quit              exit (alias /q; also Esc or Ctrl+C)".to_owned());
        self.sys("  /help              this help (alias /h)".to_owned());
        self.sys("keys: Tab/↑/↓ switch conversation · PgUp/PgDn scroll · Enter send".to_owned());
        assert(self@.system =~= old(self)@.system + help_lines());
    }

    /// Moves the focus by `delta` through the panes, with the system log just before the first
    /// peer.
    pub fn cycle_active(&mut self, delta: i32)
        ensures
            final(self)@ == old(self)@.cycled(delta as int),
            old(self)@.wf() ==> final(self)@.wf(),
    {
        proof {
            if self@.wf() {
                cycle_keeps_wf(self@, delta as int);
            }
        }
        self.scroll = 0;
        let n: usize = self.order.len();
        let cur: i128 = match self.active {
            None => 0,
            Some(id) => {
                let k: usize = self.pane_of(id);
                if k < n {
                    k as i128 + 1
                } else {
                    0
                }
            },
        };
        assert(cur == old(self)@.focus());
        let len: i128 = n as i128 + 1;
        let ghost panes = old(self)@.panes();
        assert(panes.len() == len);
        let next: i128 = match (cur + delta as i128).checked_rem_euclid(len) {
            Some(next) => next,
            None => 0,
        };
        assert(next == (cur + delta) % (len as int));
        self.active = if next == 0 {
            None
        } else {
            Some(self.order[(next - 1) as usize])
        };
        assert(self@ =~= old(self)@.cycled(delta as int));
    }

    /// How many panes stand before the one of `id`; all of them, if it has none.
    fn pane_of(&self, id: PeerId) -> (k: usize)
        ensures
            k == position(self.order@, id),
            k <= self.order@.len(),
            k < self.order@.len() <==> self.order@.contains(id),
    {
        let n: usize = self.order.len();
        let mut k: usize = 0;
        assert(self.order@.skip(0) == self.order@);
        while k < n && self.order[k] != id
            invariant
                n == self.order@.len(),
                k <= n,
                position(self.order@, id) == k + position(self.order@.skip(k as int), id),
                forall|j: int| 0 <= j < k ==> self.order@[j] != id,
            decreases n - k,
        {
            assert(self.order@.skip(k as int).drop_first() == self.order@.skip(k + 1));
            k = k + 1;
        }
        k
    }

    // ── Network events ─────────────────────────────────────────────────────────────────────

    /// Whether a network event can be taken in: it brings or finds every name that it shows.
    pub fn can_apply(&self, ev: &NetEvent) -> (r: bool)
        ensures
            r == self@.accepts_event(ev@),
    {
        match ev {
            NetEvent::OwnOnionReady { onion } => has_short_form(onion.as_str()),
            NetEvent::PeerConnected { peer, onion, inbound: _ } => {
                if !onion.as_str().is_empty() {
                    has_short_form(onion.as_str())
                } else {
                    self.has_label(*peer)
                }
            },
            NetEvent::PeerDisconnected { peer } => self.has_label(*peer),
            NetEvent::Message { peer, msg } => {
                !self.peers.contains_key(peer) || has_short_form(msg.from_onion.as_str())
            },
            NetEvent::PeerError { peer: _, err: _ } => true,
            NetEvent::Status(_) => true,
        }
    }

    /// Whether the peer `id`, if it is known, has a label.
    fn has_label(&self, id: PeerId) -> (r: bool)
        ensures
            r == self@.shows(id),
    {
        match self.peers.get(&id) {
            Some(p) => {
                assert(self@.peers[id] == p@);
                p.has_label()
            },
            None => true,
        }
    }

    /// Takes in a network event.
    pub fn apply_net_event(&mut self, ev: NetEvent)
        requires
            old(self)@.accepts_event(ev@),
        ensures
            final(self)@ == old(self)@.after_event(ev@),
            old(self)@.wf() ==> final(self)@.wf(),
    {
        proof {
            if self@.wf() {
                event_keeps_wf(self@, ev@);
            }
        }
        match ev {
            NetEvent::OwnOnionReady { onion } => {
                let mut line = "your identity: ".to_owned();
                line.append(onion.as_str());
                self.sys(line);
                let mut status = "online · ".to_owned();
                status.append(short_onion(onion.as_str()).as_str());
                self.status = status;
                self.own_onion = Some(onion);
                assert(self@ =~= old(self)@.after_event(ev@));
            },
            NetEvent::PeerConnected { peer, onion, inbound } => {
                self.peer_connected(peer, onion, inbound);
            },
            NetEvent::PeerDisconnected { peer } => {
                let label = self.set_offline(peer);
                if let Some(label) = label {
                    let mut line = String::new();
                    push_tag(&mut line, peer);
                    line.append(" disconnected: ");
                    line.append(label.as_str());
                    assert(line@ =~= tag(peer) + " disconnected: "@ + label@);
                    self.sys(line);
                }
            },
            NetEvent::PeerError { peer, err } => {
                self.drop_connection(peer);
                let mut line = String::new();
                push_tag(&mut line, peer);
                line.append(" error: ");
                line.append(err.as_str());
                assert(line@ =~= tag(peer) + " error: "@ + err@);
                self.sys(line);
            },
            NetEvent::Message { peer, msg } => {
                let ghost before = self.peers@;
                match self.peers.remove(&peer) {
                    Some(mut p) => {
                        // Learn an inbound peer's identity from its first message.
                        if p.onion.as_str().is_empty() {
                            p.onion = msg.from_onion.clone();
                        }
                        let who = short_onion(msg.from_onion.as_str());
                        let line = ChatLine { from_me: false, who, body: msg.body };
                        proof {
                            lemma_log_push(p.log@, line);
                        }
                        p.log.push(line);
                        proof {
                            lemma_peers_replace(before, peer, p);
                        }
                        self.peers.insert(peer, p);
                        let focused = match self.active {
                            Some(id) => id == peer,
                            None => false,
                        };
                        if focused {
                            self.scroll = 0;
                        }
                        assert(self@ =~= old(self)@.after_event(ev@));
                    },
                    None => {
                        assert(before.remove(peer) =~= before);
                        let mut line = String::new();
                        push_tag(&mut line, peer);
                        line.append(" message from unknown peer dropped");
                        assert(line@ =~= tag(peer) + " message from unknown peer dropped"@);
                        self.sys(line);
                    },
                }
            },
            NetEvent::Status(s) => {
                self.status = s.clone();
                self.sys(s);
            },
        }
    }

    /// A peer connected.
    fn peer_connected(&mut self, peer: PeerId, onion: String, inbound: bool)
        requires
            old(self)@.peer_connected(peer, onion@, inbound).shows(),
        ensures
            final(self)@ == old(self)@.connected(peer, onion@, inbound),
    {
        let ghost before = self.peers@;
        let mut entry = match self.peers.remove(&peer) {
            Some(p) => p,
            None => {
                self.order_push(peer);
                Peer { onion: String::new(), inbound, connected: false, log: Vec::new() }
            },
        };
        entry.connected = true;
        entry.inbound = inbound;
        if !onion.as_str().is_empty() {
            entry.onion = onion;
        }
        assert(entry@ =~= old(self)@.peer_connected(peer, onion@, inbound));
        let label = entry.label();
        proof {
            lemma_peers_replace(before, peer, entry);
        }
        self.peers.insert(peer, entry);
        let mut line = String::new();
        push_tag(&mut line, peer);
        line.append(" connected (");
        line.append(if inbound { "incoming" } else { "outgoing" });
        line.append("): ");
        line.append(label.as_str());
        self.sys(line);
        if self.active.is_none() {
            self.active = Some(peer);
        }
        assert(line@ =~= tag(peer) + " connected ("@ + (if inbound {
            "incoming"@
        } else {
            "outgoing"@
        }) + "): "@ + label@);
        assert(self@ =~= old(self)@.connected(peer, onion@, inbound));
    }

    /// Marks a known peer as not connected.
    fn drop_connection(&mut self, peer: PeerId)
        ensures
            final(self)@ == (if old(self)@.peers.contains_key(peer) {
                old(self)@.with_peer(peer, old(self)@.peers[peer].offline())
            } else {
                old(self)@
            }),
    {
        let ghost before = self.peers@;
        match self.peers.remove(&peer) {
            Some(mut p) => {
                p.connected = false;
                proof {
                    lemma_peers_replace(before, peer, p);
                }
                self.peers.insert(peer, p);
            },
            None => {
                assert(before.remove(peer) =~= before);
            },
        }
    }

    /// Marks a known peer as not connected and answers with its label.
    fn set_offline(&mut self, peer: PeerId) -> (r: Option<String>)
        requires
            old(self)@.shows(peer),
        ensures
            r is Some <==> old(self)@.peers.contains_key(peer),
            r matches Some(label) ==> {
                &&& label@ == old(self)@.peers[peer].label()
                &&& final(self)@ == old(self)@.with_peer(peer, old(self)@.peers[peer].offline())
            },
            r is None ==> final(self)@ == old(self)@,
    {
        let label = match self.peers.get(&peer) {
            Some(p) => {
                assert(self@.peers[peer] == p@);
                Some(p.label())
            },
            None => None,
        };
        self.drop_connection(peer);
        label
    }

    /// Gives a peer a place at the end of the display order, unless it has one.
    fn order_push(&mut self, peer: PeerId)
        ensures
            final(self)@ == (AppView {
                order: if old(self)@.order.contains(peer) {
                    old(self)@.order
                } else {
                    old(self)@.order.push(peer)
                },
                ..old(self)@
            }),
            *final(self) == (App { order: final(self).order, ..*old(self) }),
    {
        let k: usize = self.pane_of(peer);
        if k == self.order.len() {
            self.order.push(peer);
        }
    }

    /// Periodic tick: nothing changes.
    pub fn on_tick(&mut self)
        ensures
            *final(self) == *old(self),
    {
    }
}

} // verus!
