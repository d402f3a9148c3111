//! What each key and each slash command is for: what it does to the state, what it asks for, and
//! what it leaves alone, in every state.

use vstd::prelude::*;

use crate::app_laws::{lemma_filter_keeps_all, lemma_focus_in_range, lemma_position};
use crate::app_model::{AppActionView, AppView, ChatLineView, KeyCode, KeyEvent, short, tag};
use crate::message::{PeerId, UiCommandView};
use crate::text::{decimal, first_word, white_space};
use crate::text_laws::{a_word_ends_at_white_space, trimming_leaves_what_white_space_surrounds};

verus! {

// ── Single keys ────────────────────────────────────────────────────────────────────────────

/// A character key puts its character behind the input and changes nothing else, with Control
/// held or not; Ctrl+C alone is no character.
pub proof fn a_character_goes_behind_the_input(v: AppView, c: char, control: bool)
    requires
        !(control && c == 'c'),
    ensures
        v.after_key(KeyEvent { code: KeyCode::Char(c), control }) == (
            AppView { input: v.input + seq![c], ..v },
            None::<AppActionView>,
        ),
{
    assert(v.input + seq![c] == v.input.push(c));
}

/// Backspace takes the last character off the input, if there is one, and changes nothing else.
pub proof fn backspace_takes_the_last_character(v: AppView, text: Seq<char>, c: char, control: bool)
    ensures
        v.input == text + seq![c] ==> v.after_key(
            KeyEvent { code: KeyCode::Backspace, control },
        ) == (AppView { input: text, ..v }, None::<AppActionView>),
        v.input.len() == 0 ==> v.after_key(KeyEvent { code: KeyCode::Backspace, control }) == (
            v,
            None::<AppActionView>,
        ),
{
    if v.input == text + seq![c] {
        assert(v.input.drop_last() == text);
    }
}

/// The page keys move the view by five lines, up to the limits, and change nothing else.
pub proof fn the_page_keys_scroll_by_five(v: AppView, control: bool)
    ensures
        ({
            let (up, action) = v.after_key(KeyEvent { code: KeyCode::PageUp, control });
            &&& up.scroll == (if v.scroll <= usize::MAX - 5 {
                v.scroll + 5
            } else {
                usize::MAX as int
            })
            &&& up == (AppView { scroll: up.scroll, ..v })
            &&& action is None
        }),
        ({
            let (down, action) = v.after_key(KeyEvent { code: KeyCode::PageDown, control });
            &&& down.scroll == (if v.scroll >= 5 {
                v.scroll - 5
            } else {
                0
            })
            &&& down == (AppView { scroll: down.scroll, ..v })
            &&& action is None
        }),
{
}

/// A key without a meaning does nothing.
pub proof fn other_keys_do_nothing(v: AppView, control: bool)
    ensures
        v.after_key(KeyEvent { code: KeyCode::Other, control }) == (v, None::<AppActionView>),
{
}

/// Escape and Ctrl+C quit, in every state; of all the other keys Enter alone asks for anything.
pub proof fn only_enter_asks_for_anything_but_quitting(v: AppView, key: KeyEvent)
    ensures
        key.code == KeyCode::Esc || (key.control && key.code == KeyCode::Char('c')) ==> v.after_key(
            key,
        ) == (v, Some(AppActionView::Quit)),
        key.code != KeyCode::Esc && !(key.control && key.code == KeyCode::Char('c')) && key.code
            != KeyCode::Enter ==> v.after_key(key).1 is None,
{
}

// ── Focus ──────────────────────────────────────────────────────────────────────────────────

/// Tab and Down move the focus to the next pane, BackTab and Up to the one before; the panes are
/// the system log and behind it the peers in display order, and the last is followed by the
/// first. The view goes back to the newest line, and nothing else changes.
pub proof fn the_focus_keys_move_to_the_neighbour(v: AppView, key: KeyEvent, i: int)
    requires
        v.order.no_duplicates(),
        key.code == KeyCode::Tab || key.code == KeyCode::Down || key.code == KeyCode::BackTab
            || key.code == KeyCode::Up,
    ensures
        v.after_key(key).1 is None,
        v.after_key(key).0 == (AppView { active: v.after_key(key).0.active, scroll: 0, ..v }),
        v.order.len() == 0 ==> v.after_key(key).0.active is None,
        v.order.len() > 0 && (v.active is None || !v.order.contains(v.active->0))
            ==> v.after_key(key).0.active == Some(
            if key.code == KeyCode::Tab || key.code == KeyCode::Down {
                v.order[0]
            } else {
                v.order[v.order.len() - 1]
            },
        ),
        0 <= i < v.order.len() && v.active == Some(v.order[i]) ==> v.after_key(key).0.active == (
        if key.code == KeyCode::Tab || key.code == KeyCode::Down {
            if i + 1 < v.order.len() {
                Some(v.order[i + 1])
            } else {
                None
            }
        } else {
            if i > 0 {
                Some(v.order[i - 1])
            } else {
                None
            }
        }),
{
    let n = v.order.len() + 1;
    let panes = v.panes();
    assert(panes.len() == n);
    assert(panes[0] == None::<PeerId>);
    assert forall|k: int| 0 <= k < v.order.len() implies #[trigger] panes[k + 1] == Some(
        v.order[k],
    ) by {}
    let delta: int = if key.code == KeyCode::Tab || key.code == KeyCode::Down {
        1
    } else {
        -1
    };
    assert(v.after_key(key).0 == v.cycled(delta));
    if 0 <= i < v.order.len() && v.active == Some(v.order[i]) {
        assert(v.order.contains(v.order[i]));
        lemma_position(v.order, v.order[i]);
        assert(v.focus() == i + 1);
        if delta == 1 {
            if i + 1 < v.order.len() {
                vstd::arithmetic::div_mod::lemma_small_mod((i + 2) as nat, n);
                assert(panes[i + 2] == Some(v.order[i + 1]));
            } else {
                assert(i + 2 == n);
                vstd::arithmetic::div_mod::lemma_mod_self_0(n as int);
            }
        } else {
            vstd::arithmetic::div_mod::lemma_small_mod(i as nat, n);
            if i > 0 {
                assert(panes[i - 1 + 1] == Some(v.order[i - 1]));
            }
        }
    }
    if v.active is None || !v.order.contains(v.active->0) {
        assert(v.focus() == 0);
        if v.order.len() > 0 {
            if delta == 1 {
                vstd::arithmetic::div_mod::lemma_small_mod(1, n);
                assert(panes[1] == Some(v.order[0]));
            } else {
                vstd::arithmetic::div_mod::lemma_mod_add_multiples_vanish(-1, n as int);
                vstd::arithmetic::div_mod::lemma_small_mod((n - 1) as nat, n);
                assert((-1int) % (n as int) == n - 1);
                assert(panes[v.order.len() - 1 + 1] == Some(v.order[v.order.len() - 1]));
            }
        }
    }
    if v.order.len() == 0 {
        if v.active is Some {
            assert(!v.order.contains(v.active->0));
        }
        assert(delta % 1 == 0);
    }
}

/// Moving the focus by nothing leaves it where it is, if it is on a pane, and otherwise puts it on
/// the system log; however far it moves, nothing but the focus and the scroll position changes;
/// and the focus keys move it by one.
pub proof fn moving_the_focus_changes_nothing_else(v: AppView, delta: int)
    requires
        v.order.no_duplicates(),
    ensures
        v.cycled(delta) == (AppView { active: v.cycled(delta).active, scroll: 0, ..v }),
        v.active is None || v.order.contains(v.active->0) ==> v.cycled(0).active == v.active,
        v.active is Some && !v.order.contains(v.active->0) ==> v.cycled(delta) == (AppView {
            active: None,
            ..v
        }).cycled(delta),
        v.cycled(delta).active matches Some(id) ==> v.order.contains(id),
        v.after_key(KeyEvent { code: KeyCode::Tab, control: false }).0 == v.cycled(1),
        v.after_key(KeyEvent { code: KeyCode::BackTab, control: false }).0 == v.cycled(-1),
{
    let n = v.panes().len();
    let k = (v.focus() + delta) % (n as int);
    if v.active is None || v.order.contains(v.active->0) {
        lemma_focus_in_range(v);
        vstd::arithmetic::div_mod::lemma_small_mod(v.focus() as nat, n);
    }
    assert(0 <= k < n) by {
        vstd::arithmetic::div_mod::lemma_mod_bound(v.focus() + delta, n as int);
    }
    if k > 0 {
        assert(v.panes()[k] == Some(v.order[k - 1]));
    }
    assert((AppView { active: None, ..v }).panes() == v.panes());
}

// ── Enter ──────────────────────────────────────────────────────────────────────────────────

/// Enter always takes the input; it never touches our address, the status, the display order or
/// the focus; and it touches conversations and the scroll position only where it sends.
pub proof fn enter_takes_the_input(v: AppView, key: KeyEvent)
    requires
        key.code == KeyCode::Enter,
    ensures
        v.after_key(key).0.input.len() == 0,
        v.after_key(key).0.own_onion == v.own_onion,
        v.after_key(key).0.status == v.status,
        v.after_key(key).0.order == v.order,
        v.after_key(key).0.active == v.active,
        !(v.after_key(key).1 matches Some(AppActionView::Command(cmd)) && cmd is Send) ==> {
            &&& v.after_key(key).0.peers == v.peers
            &&& v.after_key(key).0.scroll == v.scroll
        },
{
}

/// Enter on white space, or on nothing, does nothing but take it.
pub proof fn an_empty_line_is_nothing(v: AppView, key: KeyEvent)
    requires
        key.code == KeyCode::Enter,
        forall|i: int| 0 <= i < v.input.len() ==> white_space(#[trigger] v.input[i]),
    ensures
        v.after_key(key) == (AppView { input: Seq::empty(), ..v }, None::<AppActionView>),
{
    trimming_leaves_what_white_space_surrounds(v.input, Seq::empty(), Seq::empty());
    assert(v.input + Seq::<char>::empty() + Seq::<char>::empty() == v.input);
}

/// Text goes out to the focused conversation whenever its peer is connected, whichever side
/// dialed and whatever else holds of it: what goes out is the text without the white space around
/// it, it stands last in that conversation under our own name, the view goes back to the newest
/// line, and no other conversation and no other part of the state changes.
pub proof fn text_goes_to_a_connected_focused_peer(
    v: AppView,
    key: KeyEvent,
    peer: PeerId,
    left: Seq<char>,
    body: Seq<char>,
    right: Seq<char>,
)
    requires
        key.code == KeyCode::Enter,
        v.input == left + body + right,
        forall|i: int| 0 <= i < left.len() ==> white_space(#[trigger] left[i]),
        forall|i: int| 0 <= i < right.len() ==> white_space(#[trigger] right[i]),
        body.len() > 0,
        !white_space(body[0]),
        !white_space(body.last()),
        body[0] != '/',
        v.active == Some(peer),
        v.peers.contains_key(peer),
        v.peers[peer].connected,
    ensures
        v.after_key(key).1 == Some(AppActionView::Command(UiCommandView::Send { peer, body })),
        v.after_key(key).0.peers.dom() == v.peers.dom(),
        forall|other: PeerId|
            other != peer && #[trigger] v.peers.contains_key(other) ==> v.after_key(
                key,
            ).0.peers[other] == v.peers[other],
        v.after_key(key).0.peers[peer].onion == v.peers[peer].onion,
        v.after_key(key).0.peers[peer].inbound == v.peers[peer].inbound,
        v.after_key(key).0.peers[peer].connected,
        v.after_key(key).0.peers[peer].log == v.peers[peer].log + seq![
            ChatLineView {
                from_me: true,
                who: match v.own_onion {
                    Some(onion) => short(onion),
                    None => "me"@,
                },
                body,
            },
        ],
        v.after_key(key).0 == (AppView {
            peers: v.after_key(key).0.peers,
            input: Seq::empty(),
            scroll: 0,
            ..v
        }),
{
    trimming_leaves_what_white_space_surrounds(left, body, right);
    let after = v.after_key(key).0;
    assert(after.peers.dom() =~= v.peers.dom());
    assert(v.peers[peer].log + seq![after.peers[peer].log.last()] == v.peers[peer].log.push(
        after.peers[peer].log.last(),
    ));
}

/// Text that cannot go out is not shown as sent: without a focused conversation, or with one
/// whose peer is gone, nothing goes out, no conversation changes, and the system log says why.
pub proof fn text_without_a_connected_peer_stays(
    v: AppView,
    key: KeyEvent,
    left: Seq<char>,
    body: Seq<char>,
    right: Seq<char>,
)
    requires
        key.code == KeyCode::Enter,
        v.input == left + body + right,
        forall|i: int| 0 <= i < left.len() ==> white_space(#[trigger] left[i]),
        forall|i: int| 0 <= i < right.len() ==> white_space(#[trigger] right[i]),
        body.len() > 0,
        !white_space(body[0]),
        !white_space(body.last()),
        body[0] != '/',
    ensures
        v.active is None ==> v.after_key(key) == (
            AppView {
                input: Seq::empty(),
                system: v.system + seq!["no active conversation — use /connect <onion> first"@],
                ..v
            },
            None::<AppActionView>,
        ),
        v.active is Some && v.peers.contains_key(v.active->0) && !v.peers[v.active->0].connected
            ==> v.after_key(key) == (
            AppView {
                input: Seq::empty(),
                system: v.system + seq!["that peer is disconnected"@],
                ..v
            },
            None::<AppActionView>,
        ),
        v.active is Some && !v.peers.contains_key(v.active->0) ==> v.after_key(key) == (
            AppView { input: Seq::empty(), ..v },
            None::<AppActionView>,
        ),
{
    trimming_leaves_what_white_space_surrounds(left, body, right);
    assert(v.system + seq!["no active conversation — use /connect <onion> first"@]
        == v.system.push("no active conversation — use /connect <onion> first"@));
    assert(v.system + seq!["that peer is disconnected"@] == v.system.push(
        "that peer is disconnected"@,
    ));
}

/// A line that begins with a slash is a command: Enter takes the input and carries out what
/// stands behind the slash, without the white space around the line.
pub proof fn a_slash_makes_a_command(
    v: AppView,
    key: KeyEvent,
    left: Seq<char>,
    command: Seq<char>,
    right: Seq<char>,
)
    requires
        key.code == KeyCode::Enter,
        v.input == left + (seq!['/'] + command) + right,
        forall|i: int| 0 <= i < left.len() ==> white_space(#[trigger] left[i]),
        forall|i: int| 0 <= i < right.len() ==> white_space(#[trigger] right[i]),
        command.len() > 0 ==> !white_space(command.last()),
    ensures
        v.after_key(key) == (AppView { input: Seq::empty(), ..v }).commanded(command),
{
    let line = seq!['/'] + command;
    assert(line.last() == (if command.len() > 0 {
        command.last()
    } else {
        '/'
    }));
    trimming_leaves_what_white_space_surrounds(left, line, right);
    assert(line.drop_first() == command);
}

// ── Slash commands ─────────────────────────────────────────────────────────────────────────

/// The words that are commands hold no white space.
proof fn lemma_command_words()
    ensures
        forall|i: int| 0 <= i < "connect"@.len() ==> !white_space(#[trigger] "connect"@[i]),
        forall|i: int| 0 <= i < "c"@.len() ==> !white_space(#[trigger] "c"@[i]),
        forall|i: int| 0 <= i < "disconnect"@.len() ==> !white_space(#[trigger] "disconnect"@[i]),
        forall|i: int| 0 <= i < "d"@.len() ==> !white_space(#[trigger] "d"@[i]),
        forall|i: int| 0 <= i < "peers"@.len() ==> !white_space(#[trigger] "peers"@[i]),
        forall|i: int| 0 <= i < "quit"@.len() ==> !white_space(#[trigger] "quit"@[i]),
        forall|i: int| 0 <= i < "q"@.len() ==> !white_space(#[trigger] "q"@[i]),
        forall|i: int| 0 <= i < "help"@.len() ==> !white_space(#[trigger] "help"@[i]),
        forall|i: int| 0 <= i < "h"@.len() ==> !white_space(#[trigger] "h"@[i]),
        "connect"@.len() == 7,
        "c"@.len() == 1 && "c"@[0] == 'c',
        "disconnect"@.len() == 10,
        "d"@.len() == 1 && "d"@[0] == 'd',
        "peers"@.len() == 5,
        "quit"@.len() == 4 && "quit"@[0] == 'q',
        "q"@.len() == 1 && "q"@[0] == 'q',
        "help"@.len() == 4 && "help"@[0] == 'h',
        "h"@.len() == 1 && "h"@[0] == 'h',
{
    reveal_strlit("connect");
    reveal_strlit("c");
    reveal_strlit("disconnect");
    reveal_strlit("d");
    reveal_strlit("peers");
    reveal_strlit("quit");
    reveal_strlit("q");
    reveal_strlit("help");
    reveal_strlit("h");
}

/// `/connect` with an address dials it, in every state and whatever has the focus: the answer
/// rests on the address alone. The system log says so, and nothing else changes.
pub proof fn connect_dials_what_it_is_given(
    v: AppView,
    word: Seq<char>,
    gap: char,
    left: Seq<char>,
    onion: Seq<char>,
    right: Seq<char>,
)
    requires
        word == "connect"@ || word == "c"@,
        white_space(gap),
        forall|i: int| 0 <= i < left.len() ==> white_space(#[trigger] left[i]),
        forall|i: int| 0 <= i < right.len() ==> white_space(#[trigger] right[i]),
        onion.len() > 0,
        !white_space(onion[0]),
        !white_space(onion.last()),
    ensures
        v.commanded(word + seq![gap] + (left + onion + right)) == (
            AppView { system: v.system + seq!["connecting to "@ + onion + "…"@], ..v },
            Some(AppActionView::Command(UiCommandView::Connect { onion })),
        ),
{
    lemma_command_words();
    a_word_ends_at_white_space(word, gap, left + onion + right);
    trimming_leaves_what_white_space_surrounds(left, onion, right);
    let line = "connecting to "@ + onion + "…"@;
    assert(v.system + seq![line] == v.system.push(line));
}

/// `/connect` without an address says how it is used, and dials nothing.
pub proof fn connect_needs_an_address(v: AppView, word: Seq<char>, gap: char, blank: Seq<char>)
    requires
        word == "connect"@ || word == "c"@,
        white_space(gap),
        forall|i: int| 0 <= i < blank.len() ==> white_space(#[trigger] blank[i]),
    ensures
        v.commanded(word + seq![gap] + blank) == (
            AppView { system: v.system + seq!["usage: /connect <onion-address>"@], ..v },
            None::<AppActionView>,
        ),
        v.commanded(word) == (
            AppView { system: v.system + seq!["usage: /connect <onion-address>"@], ..v },
            None::<AppActionView>,
        ),
{
    lemma_command_words();
    a_word_ends_at_white_space(word, gap, blank);
    trimming_leaves_what_white_space_surrounds(blank, Seq::empty(), Seq::empty());
    assert(blank + Seq::<char>::empty() + Seq::<char>::empty() == blank);
    trimming_leaves_what_white_space_surrounds(Seq::empty(), Seq::empty(), Seq::empty());
    assert(Seq::<char>::empty() + Seq::<char>::empty() + Seq::<char>::empty() == Seq::<
        char,
    >::empty());
    assert(v.system + seq!["usage: /connect <onion-address>"@] == v.system.push(
        "usage: /connect <onion-address>"@,
    ));
}

/// What follows a command word: nothing, or white space and anything.
pub open spec fn follows(arg: Seq<char>) -> bool {
    arg.len() > 0 ==> white_space(arg[0])
}

proof fn lemma_first_word(word: Seq<char>, arg: Seq<char>)
    requires
        forall|i: int| 0 <= i < word.len() ==> !white_space(#[trigger] word[i]),
        follows(arg),
    ensures
        first_word(word + arg) == word,
{
    if arg.len() > 0 {
        a_word_ends_at_white_space(word, arg[0], arg.drop_first());
        assert(word + arg == word + seq![arg[0]] + arg.drop_first());
    } else {
        a_word_ends_at_white_space(word, ' ', arg);
        assert(word + arg == word);
    }
}

/// `/disconnect` drops the focused conversation, connected or not, and changes nothing by itself;
/// with the focus on the system log it drops nothing and says so.
pub proof fn disconnect_drops_the_focused_peer(v: AppView, word: Seq<char>, arg: Seq<char>)
    requires
        word == "disconnect"@ || word == "d"@,
        follows(arg),
    ensures
        v.active matches Some(peer) ==> v.commanded(word + arg) == (
            v,
            Some(AppActionView::Command(UiCommandView::Disconnect { peer })),
        ),
        v.active is None ==> v.commanded(word + arg) == (
            AppView { system: v.system + seq!["no active conversation to disconnect"@], ..v },
            None::<AppActionView>,
        ),
{
    lemma_command_words();
    lemma_first_word(word, arg);
    assert(v.system + seq!["no active conversation to disconnect"@] == v.system.push(
        "no active conversation to disconnect"@,
    ));
}

/// `/quit` quits in every state and changes nothing.
pub proof fn quit_quits(v: AppView, word: Seq<char>, arg: Seq<char>)
    requires
        word == "quit"@ || word == "q"@,
        follows(arg),
    ensures
        v.commanded(word + arg) == (v, Some(AppActionView::Quit)),
{
    lemma_command_words();
    lemma_first_word(word, arg);
}

/// `/help` adds the help text to the system log, line by line, and does nothing else.
pub proof fn help_explains_every_command(v: AppView, word: Seq<char>, arg: Seq<char>)
    requires
        word == "help"@ || word == "h"@,
        follows(arg),
    ensures
        v.commanded(word + arg) == (
            AppView {
                system: v.system + seq![
                    "commands:"@,
                    "  /connect <onion>   dial a peer (alias /c)"@,
                    "  /disconnect        drop the active peer (alias /d)"@,
                    "  /peers             list known peers"@,
                    "  /quit              exit (alias /q; also Esc or Ctrl+C)"@,
                    "  /help              this help (alias /h)"@,
                    "keys: Tab/↑/↓ switch conversation · PgUp/PgDn scroll · Enter send"@,
                ],
                ..v
            },
            None::<AppActionView>,
        ),
{
    lemma_command_words();
    lemma_first_word(word, arg);
}

/// Any other word is no command: the system log names it, and nothing else happens.
pub proof fn an_unknown_command_is_named(v: AppView, word: Seq<char>, arg: Seq<char>)
    requires
        forall|i: int| 0 <= i < word.len() ==> !white_space(#[trigger] word[i]),
        follows(arg),
        word != "connect"@ && word != "c"@ && word != "disconnect"@ && word != "d"@ && word
            != "peers"@ && word != "quit"@ && word != "q"@ && word != "help"@ && word != "h"@,
    ensures
        v.commanded(word + arg) == (
            AppView {
                system: v.system + seq!["unknown command: /"@ + word + " (try /help)"@],
                ..v
            },
            None::<AppActionView>,
        ),
{
    lemma_first_word(word, arg);
    let line = "unknown command: /"@ + word + " (try /help)"@;
    assert(v.system + seq![line] == v.system.push(line));
}

/// `/peers` adds one headline and one line for each known peer, in display order, to the system
/// log, and does nothing else. The line of a peer begins with its handle and its name; it says
/// `in` exactly if the peer dialed us and `out` exactly if we dialed it; and it says `online`
/// exactly if the peer is connected and `offline` exactly if it is not.
pub proof fn peers_lists_who_is_online(v: AppView, arg: Seq<char>, i: int)
    requires
        forall|k: int| 0 <= k < v.order.len() ==> v.peers.contains_key(#[trigger] v.order[k]),
        follows(arg),
        0 <= i < v.order.len(),
    ensures
        v.commanded("peers"@ + arg).1 is None,
        ({
            let after = v.commanded("peers"@ + arg).0;
            let p = v.peers[v.order[i]];
            let line = after.system[v.system.len() + 1 + i];
            let head = "  ["@ + decimal(v.order[i] as nat) + "] "@ + (if p.onion.len() == 0 {
                "(incoming)"@
            } else {
                short(p.onion)
            });
            &&& after == (AppView { system: after.system, ..v })
            &&& after.system.len() == v.system.len() + 1 + v.order.len()
            &&& after.system.take(v.system.len() as int) == v.system
            &&& after.system[v.system.len() as int] == "peers:"@
            &&& p.inbound && p.connected ==> line == head + " (in, online)"@
            &&& p.inbound && !p.connected ==> line == head + " (in, offline)"@
            &&& !p.inbound && p.connected ==> line == head + " (out, online)"@
            &&& !p.inbound && !p.connected ==> line == head + " (out, offline)"@
        }),
{
    lemma_command_words();
    lemma_first_word("peers"@, arg);
    let known = |id: PeerId| v.peers.contains_key(id);
    lemma_filter_keeps_all(v.order, known);
    assert(v.roster() == v.order.filter(known));
    let after = v.commanded("peers"@ + arg).0;
    let id = v.order[i];
    let p = v.peers[id];
    let lines = v.order.map_values(|id: PeerId| v.peers[id].listing(id));
    assert(after == v.listed());
    assert(after.system == v.system.push("peers:"@) + lines);
    assert(after.system.take(v.system.len() as int) == v.system);
    assert(after.system[v.system.len() + 1 + i] == lines[i]);
    let head = "  ["@ + decimal(id as nat) + "] "@ + p.label();
    reveal_strlit("  ");
    reveal_strlit("[");
    reveal_strlit("  [");
    reveal_strlit("]");
    reveal_strlit(" ");
    reveal_strlit("] ");
    reveal_strlit(" (");
    reveal_strlit("in");
    reveal_strlit("out");
    reveal_strlit(", ");
    reveal_strlit("online");
    reveal_strlit("offline");
    reveal_strlit(")");
    reveal_strlit(" (in, online)");
    reveal_strlit(" (in, offline)");
    reveal_strlit(" (out, online)");
    reveal_strlit(" (out, offline)");
    assert("  "@ + tag(id) + " "@ + p.label() =~= head);
    assert(" ("@ + "in"@ + ", "@ + "online"@ + ")"@ =~= " (in, online)"@);
    assert(" ("@ + "in"@ + ", "@ + "offline"@ + ")"@ =~= " (in, offline)"@);
    assert(" ("@ + "out"@ + ", "@ + "online"@ + ")"@ =~= " (out, online)"@);
    assert(" ("@ + "out"@ + ", "@ + "offline"@ + ")"@ =~= " (out, offline)"@);
    let direction = if p.inbound {
        "in"@
    } else {
        "out"@
    };
    let state = if p.connected {
        "online"@
    } else {
        "offline"@
    };
    assert(head + " ("@ + direction + ", "@ + state + ")"@ =~= head + (" ("@ + direction + ", "@
        + state + ")"@));
}

/// `/peers` without peers says so.
pub proof fn peers_says_when_there_are_none(v: AppView, arg: Seq<char>)
    requires
        v.order.len() == 0,
        follows(arg),
    ensures
        v.commanded("peers"@ + arg) == (
            AppView { system: v.system + seq!["no peers yet"@], ..v },
            None::<AppActionView>,
        ),
{
    lemma_command_words();
    lemma_first_word("peers"@, arg);
    assert(v.system + seq!["no peers yet"@] == v.system.push("no peers yet"@));
}

/// The roster holds the entries of the display order that are known, in that order, and no others.
pub proof fn the_roster_passes_over_the_unknown(v: AppView, id: PeerId)
    ensures
        (AppView { order: Seq::empty(), ..v }).roster() == Seq::<PeerId>::empty(),
        (AppView { order: v.order + seq![id], ..v }).roster() == (if v.peers.contains_key(id) {
            v.roster() + seq![id]
        } else {
            v.roster()
        }),
{
    reveal(Seq::filter);
    let w = AppView { order: v.order + seq![id], ..v };
    assert(w.order.drop_last() == v.order);
    assert(w.order.last() == id);
    let known = |k: PeerId| v.peers.contains_key(k);
    assert(v.roster() == v.order.filter(known));
    assert(w.roster() == w.order.filter(known));
    assert(v.roster() + seq![id] == v.roster().push(id));
}

} // verus!
