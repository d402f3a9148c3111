//! What the application state is, as a mathematical value, and how keys and network events
//! change it.

use vstd::prelude::*;
use vstd::utf8::*;

use crate::message::{NetEventView, PeerId, UiCommandView};
use crate::text::{after_word, decimal, first_word, trimmed, without_suffix};

verus! {

// ── Keys ───────────────────────────────────────────────────────────────────────────────────

/// The key of a key press, as far as the application tells keys apart.
#[derive(Debug, Clone, Copy, PartialEq, Eq, Structural)]
pub enum KeyCode {
    Esc,
    Enter,
    Backspace,
    Tab,
    BackTab,
    Up,
    Down,
    PageUp,
    PageDown,
    Char(char),
    /// Any other key.
    Other,
}

/// A key press: the key, and whether Control was held.
#[derive(Debug, Clone, Copy, PartialEq, Eq, Structural)]
pub struct KeyEvent {
    pub code: KeyCode,
    pub control: bool,
}

impl KeyEvent {
    /// A press of `code`, with Control held or not.
    pub fn new(code: KeyCode, control: bool) -> (r: KeyEvent)
        ensures
            r == (KeyEvent { code, control }),
    {
        KeyEvent { code, control }
    }

    /// Escape and Ctrl+C leave the program from anywhere.
    pub open spec fn quits(self) -> bool {
        ||| self.code is Esc
        ||| self.control && self.code == KeyCode::Char('c')
    }
}

// ── Onion addresses on display ─────────────────────────────────────────────────────────────

/// An onion address without its `.onion` suffix.
pub open spec fn service_id(onion: Seq<char>) -> Seq<char> {
    without_suffix(onion, ".onion"@)
}

/// Whether the short form of `onion` can be made: no character straddles the eighth byte of its
/// service id. Every ASCII address has a short form.
pub open spec fn shortens(onion: Seq<char>) -> bool {
    let bytes = encode_utf8(service_id(onion));
    bytes.len() > 8 ==> is_char_boundary(bytes, 8)
}

/// The short form of an onion address: the first eight bytes of its service id and an ellipsis,
/// or the whole id where it is no longer than that.
pub open spec fn short(onion: Seq<char>) -> Seq<char> {
    let bytes = encode_utf8(service_id(onion));
    if bytes.len() > 8 {
        decode_utf8(bytes.subrange(0, 8)) + "…"@
    } else {
        service_id(onion)
    }
}

// ── State ──────────────────────────────────────────────────────────────────────────────────

/// One line of a conversation.
#[verifier::ext_equal]
pub struct ChatLineView {
    pub from_me: bool,
    pub who: Seq<char>,
    pub body: Seq<char>,
}

/// A peer conversation.
#[verifier::ext_equal]
pub struct PeerView {
    pub onion: Seq<char>,
    pub inbound: bool,
    pub connected: bool,
    pub log: Seq<ChatLineView>,
}

/// The whole application state.
#[verifier::ext_equal]
pub struct AppView {
    pub own_onion: Option<Seq<char>>,
    pub status: Seq<char>,
    pub peers: Map<PeerId, PeerView>,
    pub order: Seq<PeerId>,
    pub active: Option<PeerId>,
    pub system: Seq<Seq<char>>,
    pub input: Seq<char>,
    pub scroll: usize,
}

/// What the main loop should do after a key.
#[verifier::ext_equal]
pub enum AppActionView {
    Quit,
    Command(UiCommandView),
}

/// How many panes before the one of `id` in `order`; all of them, if it has none.
pub open spec fn position(order: Seq<PeerId>, id: PeerId) -> nat
    decreases order.len(),
{
    if order.len() == 0 || order[0] == id {
        0
    } else {
        1 + position(order.drop_first(), id)
    }
}

/// The help text.
pub open spec fn help_lines() -> Seq<Seq<char>> {
    seq![
        "commands:"@,
        "  /connect <onion>   dial a peer (alias /c)"@,
        "  /disconnect        drop the active peer (alias /d)"@,
        "  /peers             list known peers"@,
        "  /quit              exit (alias /q; also Esc or Ctrl+C)"@,
        "  /help              this help (alias /h)"@,
        "keys: Tab/↑/↓ switch conversation · PgUp/PgDn scroll · Enter send"@,
    ]
}

/// `[id]`, the handle of a peer as it is shown.
pub open spec fn tag(id: PeerId) -> Seq<char> {
    "["@ + decimal(id as nat) + "]"@
}

impl PeerView {
    /// The roster label: the short onion, or a placeholder while the identity is unknown.
    pub open spec fn label(self) -> Seq<char> {
        if self.onion.len() == 0 {
            "(incoming)"@
        } else {
            short(self.onion)
        }
    }

    /// Whether the peer has a label.
    pub open spec fn shows(self) -> bool {
        self.onion.len() == 0 || shortens(self.onion)
    }

    /// The line of the peer in the answer to `/peers`.
    pub open spec fn listing(self, id: PeerId) -> Seq<char> {
        let direction = if self.inbound {
            "in"@
        } else {
            "out"@
        };
        let state = if self.connected {
            "online"@
        } else {
            "offline"@
        };
        "  "@ + tag(id) + " "@ + self.label() + " ("@ + direction + ", "@ + state + ")"@
    }

    /// The peer after one more line of conversation.
    pub open spec fn logged(self, line: ChatLineView) -> PeerView {
        PeerView { log: self.log.push(line), ..self }
    }

    /// The peer after its connection is gone.
    pub open spec fn offline(self) -> PeerView {
        PeerView { connected: false, ..self }
    }
}

impl AppView {
    /// The state at start-up.
    pub open spec fn initial() -> AppView {
        AppView {
            own_onion: None,
            status: "starting — publishing onion service…"@,
            peers: Map::empty(),
            order: Seq::empty(),
            active: None,
            system: seq!["Welcome to hop6. Type /help for commands."@],
            input: Seq::empty(),
            scroll: 0,
        }
    }

    /// The state with one more line in the system log.
    pub open spec fn said(self, line: Seq<char>) -> AppView {
        AppView { system: self.system.push(line), ..self }
    }

    /// The state with more lines in the system log.
    pub open spec fn said_all(self, lines: Seq<Seq<char>>) -> AppView {
        AppView { system: self.system + lines, ..self }
    }

    /// The state with a peer set to `p`.
    pub open spec fn with_peer(self, id: PeerId, p: PeerView) -> AppView {
        AppView { peers: self.peers.insert(id, p), ..self }
    }

    /// How we are named in a conversation.
    pub open spec fn me(self) -> Seq<char> {
        match self.own_onion {
            Some(onion) => short(onion),
            None => "me"@,
        }
    }

    /// Whether we have a name.
    pub open spec fn names_self(self) -> bool {
        self.own_onion matches Some(onion) ==> shortens(onion)
    }

    /// The known peers in display order.
    pub open spec fn roster(self) -> Seq<PeerId> {
        self.order.filter(|id: PeerId| self.peers.contains_key(id))
    }

    /// Whether every peer in the roster has a label.
    pub open spec fn lists(self) -> bool {
        forall|i: int|
            0 <= i < self.order.len() && self.peers.contains_key(#[trigger] self.order[i])
                ==> self.peers[self.order[i]].shows()
    }

    /// Whether the peer `id`, if it is known, has a label.
    pub open spec fn shows(self, id: PeerId) -> bool {
        self.peers.contains_key(id) ==> self.peers[id].shows()
    }

    // ── Commands ───────────────────────────────────────────────────────────────────────────

    /// After `/peers`.
    pub open spec fn listed(self) -> AppView {
        if self.order.len() == 0 {
            self.said("no peers yet"@)
        } else {
            self.said("peers:"@).said_all(
                self.roster().map_values(|id: PeerId| self.peers[id].listing(id)),
            )
        }
    }

    /// After plain text: it goes to the focused conversation.
    pub open spec fn sent(self, body: Seq<char>) -> (AppView, Option<AppActionView>) {
        match self.active {
            None => (self.said("no active conversation — use /connect <onion> first"@), None),
            Some(peer) => if !self.peers.contains_key(peer) {
                (self, None)
            } else if !self.peers[peer].connected {
                (self.said("that peer is disconnected"@), None)
            } else {
                let line = ChatLineView { from_me: true, who: self.me(), body };
                (
                    AppView { scroll: 0, ..self.with_peer(peer, self.peers[peer].logged(line)) },
                    Some(AppActionView::Command(UiCommandView::Send { peer, body })),
                )
            },
        }
    }

    /// After the slash command `rest` (without its slash).
    pub open spec fn commanded(self, rest: Seq<char>) -> (AppView, Option<AppActionView>) {
        let cmd = first_word(rest);
        let arg = trimmed(after_word(rest));
        if cmd == "connect"@ || cmd == "c"@ {
            if arg.len() == 0 {
                (self.said("usage: /connect <onion-address>"@), None)
            } else {
                (
                    self.said("connecting to "@ + arg + "…"@),
                    Some(AppActionView::Command(UiCommandView::Connect { onion: arg })),
                )
            }
        } else if cmd == "disconnect"@ || cmd == "d"@ {
            match self.active {
                Some(peer) => (
                    self,
                    Some(AppActionView::Command(UiCommandView::Disconnect { peer })),
                ),
                None => (self.said("no active conversation to disconnect"@), None),
            }
        } else if cmd == "peers"@ {
            (self.listed(), None)
        } else if cmd == "quit"@ || cmd == "q"@ {
            (self, Some(AppActionView::Quit))
        } else if cmd == "help"@ || cmd == "h"@ {
            (self.said_all(help_lines()), None)
        } else {
            (self.said("unknown command: /"@ + cmd + " (try /help)"@), None)
        }
    }

    /// After Enter: the input line is taken, and what stands in it between white space is a
    /// slash command, text, or nothing.
    pub open spec fn submitted(self) -> (AppView, Option<AppActionView>) {
        let line = trimmed(self.input);
        let cleared = AppView { input: Seq::empty(), ..self };
        if line.len() == 0 {
            (cleared, None)
        } else if line[0] == '/' {
            cleared.commanded(line.drop_first())
        } else {
            cleared.sent(line)
        }
    }

    // ── Focus ──────────────────────────────────────────────────────────────────────────────

    /// The panes in order: the system log, then one for each peer.
    pub open spec fn panes(self) -> Seq<Option<PeerId>> {
        seq![None] + self.order.map_values(|id: PeerId| Some(id))
    }

    /// Which pane is focused; the system log, where the focus is on none of them.
    pub open spec fn focus(self) -> int {
        match self.active {
            None => 0,
            Some(id) => if self.order.contains(id) {
                position(self.order, id) as int + 1
            } else {
                0
            },
        }
    }

    /// After the focus moved by `delta` panes, round and round.
    pub open spec fn cycled(self, delta: int) -> AppView {
        AppView {
            active: self.panes()[(self.focus() + delta) % (self.panes().len() as int)],
            scroll: 0,
            ..self
        }
    }

    // ── Keys ───────────────────────────────────────────────────────────────────────────────

    /// After a key.
    pub open spec fn after_key(self, key: KeyEvent) -> (AppView, Option<AppActionView>) {
        if key.quits() {
            (self, Some(AppActionView::Quit))
        } else {
            match key.code {
                KeyCode::Enter => self.submitted(),
                KeyCode::Backspace => (
                    AppView {
                        input: if self.input.len() > 0 {
                            self.input.drop_last()
                        } else {
                            self.input
                        },
                        ..self
                    },
                    None,
                ),
                KeyCode::Char(c) => (AppView { input: self.input.push(c), ..self }, None),
                KeyCode::Tab | KeyCode::Down => (self.cycled(1), None),
                KeyCode::BackTab | KeyCode::Up => (self.cycled(-1), None),
                KeyCode::PageUp => (
                    AppView {
                        scroll: if self.scroll + 5 > usize::MAX {
                            usize::MAX
                        } else {
                            (self.scroll + 5) as usize
                        },
                        ..self
                    },
                    None,
                ),
                KeyCode::PageDown => (
                    AppView {
                        scroll: if self.scroll < 5 {
                            0
                        } else {
                            (self.scroll - 5) as usize
                        },
                        ..self
                    },
                    None,
                ),
                _ => (self, None),
            }
        }
    }

    /// Whether the slash command `rest` finds every name that it shows.
    pub open spec fn accepts_command(self, rest: Seq<char>) -> bool {
        first_word(rest) == "peers"@ ==> self.lists()
    }

    /// Whether Enter finds every name that it shows.
    pub open spec fn accepts_submit(self) -> bool {
        let line = trimmed(self.input);
        line.len() > 0 ==> if line[0] == '/' {
            self.accepts_command(line.drop_first())
        } else {
            self.active is Some ==> self.names_self()
        }
    }

    /// Whether a key finds every name that it shows.
    pub open spec fn accepts_key(self, key: KeyEvent) -> bool {
        !key.quits() && key.code is Enter ==> self.accepts_submit()
    }

    // ── Network events ─────────────────────────────────────────────────────────────────────

    /// What a peer is once its connection stands. A peer seen for the first time has no history;
    /// an address that came with the event replaces the one that was known.
    pub open spec fn peer_connected(self, peer: PeerId, onion: Seq<char>, inbound: bool) -> PeerView {
        let known = self.peers.contains_key(peer);
        PeerView {
            onion: if onion.len() > 0 {
                onion
            } else if known {
                self.peers[peer].onion
            } else {
                Seq::empty()
            },
            inbound,
            connected: true,
            log: if known {
                self.peers[peer].log
            } else {
                Seq::empty()
            },
        }
    }

    /// After a peer connected.
    pub open spec fn connected(self, peer: PeerId, onion: Seq<char>, inbound: bool) -> AppView {
        let p = self.peer_connected(peer, onion, inbound);
        let direction = if inbound {
            "incoming"@
        } else {
            "outgoing"@
        };
        let order = if self.peers.contains_key(peer) || self.order.contains(peer) {
            self.order
        } else {
            self.order.push(peer)
        };
        let active = if self.active is None {
            Some(peer)
        } else {
            self.active
        };
        AppView { order, active, ..self.with_peer(peer, p) }.said(
            tag(peer) + " connected ("@ + direction + "): "@ + p.label(),
        )
    }

    /// What a peer is after a message from it: one line longer, and with the address that the
    /// message names, where none was known.
    pub open spec fn peer_heard(p: PeerView, from: Seq<char>, body: Seq<char>) -> PeerView {
        let learned = PeerView {
            onion: if p.onion.len() == 0 {
                from
            } else {
                p.onion
            },
            ..p
        };
        learned.logged(ChatLineView { from_me: false, who: short(from), body })
    }

    /// After a network event.
    pub open spec fn after_event(self, ev: NetEventView) -> AppView {
        match ev {
            NetEventView::OwnOnionReady { onion } => AppView {
                own_onion: Some(onion),
                status: "online · "@ + short(onion),
                ..self.said("your identity: "@ + onion)
            },
            NetEventView::PeerConnected { peer, onion, inbound } => self.connected(
                peer,
                onion,
                inbound,
            ),
            NetEventView::PeerDisconnected { peer } => if self.peers.contains_key(peer) {
                self.with_peer(peer, self.peers[peer].offline()).said(
                    tag(peer) + " disconnected: "@ + self.peers[peer].label(),
                )
            } else {
                self
            },
            NetEventView::PeerError { peer, err } => {
                let line = tag(peer) + " error: "@ + err;
                if self.peers.contains_key(peer) {
                    self.with_peer(peer, self.peers[peer].offline()).said(line)
                } else {
                    self.said(line)
                }
            },
            NetEventView::Message { peer, msg } => if self.peers.contains_key(peer) {
                AppView {
                    scroll: if self.active == Some(peer) {
                        0
                    } else {
                        self.scroll
                    },
                    ..self.with_peer(
                        peer,
                        AppView::peer_heard(self.peers[peer], msg.from_onion, msg.body),
                    )
                }
            } else {
                self.said(tag(peer) + " message from unknown peer dropped"@)
            },
            NetEventView::Status(s) => AppView { status: s, ..self.said(s) },
        }
    }

    /// Whether a network event brings or finds every name that it shows.
    pub open spec fn accepts_event(self, ev: NetEventView) -> bool {
        match ev {
            NetEventView::OwnOnionReady { onion } => shortens(onion),
            NetEventView::PeerConnected { peer, onion, inbound } => self.peer_connected(
                peer,
                onion,
                inbound,
            ).shows(),
            NetEventView::PeerDisconnected { peer } => self.shows(peer),
            NetEventView::Message { peer, msg } => self.peers.contains_key(peer) ==> shortens(
                msg.from_onion,
            ),
            _ => true,
        }
    }
}

} // verus!
