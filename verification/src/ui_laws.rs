//! What each pane shows, in every state: which text stands where, and how it follows the state.

use vstd::prelude::*;

use crate::app_laws::lemma_filter_keeps_all;
use crate::app_model::{AppView, KeyCode, KeyEvent, short, tag};
use crate::event_laws::{a_message_stands_last_in_its_conversation, a_status_is_shown};
use crate::key_laws::the_page_keys_scroll_by_five;
use crate::message::{NetEventView, PeerId};
use crate::text::decimal;
use crate::ui::{
    Color, SpanView, chat_lines, chat_title, cursor_column, input_spans, peer_entry, roster_entry,
    roster_spans, status_spans, suffix, visible_lines,
};

verus! {

/// The text of a line of spans.
pub open spec fn shown(spans: Seq<SpanView>) -> Seq<char>
    decreases spans.len(),
{
    if spans.len() == 0 {
        Seq::empty()
    } else {
        shown(spans.drop_last()) + spans.last().text
    }
}

/// The status bar shows our own address, or that it is not there yet, and then the latest status.
pub proof fn the_status_bar_shows_address_and_status(v: AppView)
    ensures
        status_spans(v).len() == 5,
        status_spans(v)[0].text == "hop6"@,
        status_spans(v)[1].text == "  you: "@,
        v.own_onion matches Some(onion) ==> status_spans(v)[2].text == onion,
        v.own_onion is None ==> status_spans(v)[2].text == "(publishing onion service…)"@,
        status_spans(v)[3].text == "   "@,
        status_spans(v)[4].text == v.status,
        status_spans(v)[0].style.fg == Some(Color::Magenta) && status_spans(v)[0].style.bold,
        status_spans(v)[2].style.fg == Some(Color::Cyan) && !status_spans(v)[2].style.bold,
        status_spans(v)[4].style.fg == Some(Color::Yellow) && !status_spans(v)[4].style.bold,
        status_spans(v)[1].style.fg is None && status_spans(v)[3].style.fg is None,
        forall|i: int| 0 <= i < 5 ==> !(#[trigger] status_spans(v)[i]).style.reversed,
        !status_spans(v)[1].style.bold && !status_spans(v)[3].style.bold,
{
}

/// The roster shows the system log first and then each peer of the display order, by its handle
/// and its name. An entry is marked, bold and reversed exactly if it has the focus; a peer is
/// green exactly while it is connected and dark gray otherwise, and the system log is green.
pub proof fn the_roster_shows_every_peer(v: AppView, i: int)
    requires
        forall|k: int| 0 <= k < v.order.len() ==> v.peers.contains_key(#[trigger] v.order[k]),
        0 <= i < v.order.len(),
    ensures
        roster_spans(v).len() == v.order.len() + 1,
        v.active is None ==> roster_spans(v)[0].text == "▶ *system"@,
        v.active is Some ==> roster_spans(v)[0].text == "  *system"@,
        roster_spans(v)[0].style.bold == v.active is None,
        roster_spans(v)[0].style.reversed == v.active is None,
        roster_spans(v)[0].style.fg == Some(Color::Green),
        ({
            let p = v.peers[v.order[i]];
            let entry = roster_spans(v)[i + 1];
            let name = "["@ + decimal(v.order[i] as nat) + "] "@ + (if p.onion.len() == 0 {
                "(incoming)"@
            } else {
                short(p.onion)
            });
            &&& v.active == Some(v.order[i]) ==> entry.text == "▶ "@ + name
            &&& v.active != Some(v.order[i]) ==> entry.text == "  "@ + name
            &&& entry.style.bold == (v.active == Some(v.order[i]))
            &&& entry.style.reversed == (v.active == Some(v.order[i]))
            &&& p.connected ==> entry.style.fg == Some(Color::Green)
            &&& !p.connected ==> entry.style.fg == Some(Color::DarkGray)
        }),
{
    let known = |id: PeerId| v.peers.contains_key(id);
    lemma_filter_keeps_all(v.order, known);
    assert(v.roster() == v.order.filter(known));
    let id = v.order[i];
    assert(roster_spans(v)[i + 1] == peer_entry(v, id));
    reveal_strlit("▶ ");
    reveal_strlit("  ");
    reveal_strlit("*system");
    reveal_strlit("▶ *system");
    reveal_strlit("  *system");
    assert("▶ "@ + "*system"@ =~= "▶ *system"@);
    assert("  "@ + "*system"@ =~= "  *system"@);
    reveal_strlit("]");
    reveal_strlit(" ");
    reveal_strlit("] ");
    assert("]"@ + " "@ =~= "] "@);
    let label = v.peers[id].label();
    assert(tag(id) + " "@ + label =~= "["@ + decimal(id as nat) + ("]"@ + " "@) + label);
}

/// An entry of the roster shows its label behind a mark or a blank, and its style tells whether
/// it is selected and whether it is online.
pub proof fn an_entry_shows_its_label(label: Seq<char>, selected: bool, online: bool)
    ensures
        roster_entry(label, true, online).text == "▶ "@ + label,
        roster_entry(label, false, online).text == "  "@ + label,
        roster_entry(label, selected, online).style.bold == selected,
        roster_entry(label, selected, online).style.reversed == selected,
        roster_entry(label, selected, true).style.fg == Some(Color::Green),
        roster_entry(label, selected, false).style.fg == Some(Color::DarkGray),
{
}

/// The system log has an entry in the roster even without peers.
pub proof fn the_roster_always_shows_the_system_log(v: AppView)
    ensures
        roster_spans(v).len() >= 1,
        v.order.len() == 0 ==> roster_spans(v).len() == 1,
{
    reveal(Seq::filter);
}

/// The chat pane is titled by what has the focus: the system log, or the peer with its handle and
/// its name, marked exactly while it is not connected.
pub proof fn the_title_names_the_focus(v: AppView)
    ensures
        v.active is None ==> chat_title(v) == " system "@,
        v.active matches Some(id) ==> (!v.peers.contains_key(id) ==> chat_title(v) == " chat "@),
        v.active matches Some(id) ==> (v.peers.contains_key(id) ==> {
            let p = v.peers[id];
            let head = " chat · ["@ + decimal(id as nat) + "] "@ + (if p.onion.len() == 0 {
                "(incoming)"@
            } else {
                short(p.onion)
            });
            &&& p.connected ==> chat_title(v) == head + " "@
            &&& !p.connected ==> chat_title(v) == head + " (offline) "@
        }),
{
    if let Some(id) = v.active {
        if v.peers.contains_key(id) {
            let label = v.peers[id].label();
            reveal_strlit(" chat · ");
            reveal_strlit("[");
            reveal_strlit(" chat · [");
            reveal_strlit("]");
            reveal_strlit(" ");
            reveal_strlit("] ");
            reveal_strlit("");
            reveal_strlit(" (offline)");
            reveal_strlit(" (offline) ");
            assert(" chat · "@ + "["@ =~= " chat · ["@);
            assert("]"@ + " "@ =~= "] "@);
            assert(""@ + " "@ =~= " "@);
            assert(" (offline)"@ + " "@ =~= " (offline) "@);
            let head = (" chat · "@ + "["@) + decimal(id as nat) + ("]"@ + " "@) + label;
            assert(" chat · "@ + tag(id) + " "@ + label + suffix(v.peers[id].connected) + " "@
                =~= head + (suffix(v.peers[id].connected) + " "@));
        }
    }
}

/// The lines of the focused pane are its log in the order of time: as many as the log has, and
/// each shows the entry at its own place. A line of a conversation shows who said it and what,
/// cyan where we said it and green where the peer did; a line of the system log is gray.
pub proof fn the_lines_are_the_log_in_order(v: AppView, i: int)
    ensures
        v.active is None ==> chat_lines(v).len() == v.system.len(),
        v.active is None && 0 <= i < v.system.len() ==> {
            &&& chat_lines(v)[i].len() == 1
            &&& chat_lines(v)[i][0].text == v.system[i]
            &&& chat_lines(v)[i][0].style.fg == Some(Color::Gray)
            &&& !chat_lines(v)[i][0].style.bold && !chat_lines(v)[i][0].style.reversed
        },
        v.active matches Some(id) ==> (!v.peers.contains_key(id) ==> chat_lines(v).len() == 0),
        v.active matches Some(id) ==> (v.peers.contains_key(id) ==> chat_lines(v).len()
            == v.peers[id].log.len()),
        v.active matches Some(id) ==> (v.peers.contains_key(id) && 0 <= i < v.peers[id].log.len()
            ==> {
            let line = chat_lines(v)[i];
            let entry = v.peers[id].log[i];
            &&& line.len() == 2
            &&& line[0].text == entry.who + ": "@
            &&& line[1].text == entry.body
            &&& entry.from_me ==> line[0].style.fg == Some(Color::Cyan)
            &&& !entry.from_me ==> line[0].style.fg == Some(Color::Green)
            &&& line[0].style.bold && !line[0].style.reversed
            &&& line[1].style.fg is None && !line[1].style.bold && !line[1].style.reversed
        }),
{
}

/// The pane shows as many lines as fit between its borders, or as there are, and counts them from
/// the bottom: the last visible line is the newest but for as many as the view is scrolled up,
/// and above each stands the one before it.
pub proof fn the_newest_line_is_at_the_bottom(v: AppView, height: u16, k: int)
    ensures
        ({
            let total = chat_lines(v).len() as int;
            let below = if v.scroll <= total {
                v.scroll as int
            } else {
                total
            };
            let room = if height >= 2 {
                height - 2
            } else {
                0
            };
            let lines = visible_lines(v, height);
            &&& lines.len() == (if room <= total - below {
                room
            } else {
                total - below
            })
            &&& 0 <= k < lines.len() ==> lines[lines.len() - 1 - k] == chat_lines(v)[total - 1
                - below - k]
        }),
{
}

/// What comes in while its pane is pinned to the newest line is shown at the bottom of that pane:
/// a message at the bottom of the focused conversation, and a status at the bottom of the system
/// log; and the lines before it stay as they are.
pub proof fn what_is_new_appears_at_the_bottom(v: AppView, ev: NetEventView, height: u16)
    requires
        height >= 3,
    ensures
        ev is Message && v.active == Some(ev->Message_peer) && v.peers.contains_key(
            ev->Message_peer,
        ) ==> {
            let after = v.after_event(ev);
            &&& chat_lines(after).drop_last() == chat_lines(v)
            &&& visible_lines(after, height).len() > 0
            &&& visible_lines(after, height).last()[1].text == ev->msg.body
        },
        ev is Status && v.active is None && v.scroll == 0 ==> {
            let after = v.after_event(ev);
            &&& chat_lines(after).drop_last() == chat_lines(v)
            &&& visible_lines(after, height).len() > 0
            &&& visible_lines(after, height).last()[0].text == ev->Status_0
        },
{
    let after = v.after_event(ev);
    the_newest_line_is_at_the_bottom(after, height, 0);
    if ev is Message && v.active == Some(ev->Message_peer) && v.peers.contains_key(ev->Message_peer) {
        let peer = ev->Message_peer;
        a_message_stands_last_in_its_conversation(v, ev);
        assert(after.peers[peer].log.drop_last() == v.peers[peer].log);
        assert(chat_lines(after).drop_last() =~= chat_lines(v));
        the_lines_are_the_log_in_order(after, after.peers[peer].log.len() - 1);
    }
    if ev is Status && v.active is None && v.scroll == 0 {
        a_status_is_shown(v, ev->Status_0);
        assert(after.system.drop_last() == v.system);
        assert(chat_lines(after).drop_last() =~= chat_lines(v));
        the_lines_are_the_log_in_order(after, after.system.len() - 1);
    }
}

/// Paging up shows older lines and paging down newer ones: as long as there are lines left, the
/// last visible line moves by five.
pub proof fn paging_moves_the_view(v: AppView, height: u16)
    requires
        height >= 3,
        v.scroll + 5 < chat_lines(v).len() <= usize::MAX,
    ensures
        ({
            let up = v.after_key(KeyEvent { code: KeyCode::PageUp, control: false }).0;
            &&& chat_lines(up) == chat_lines(v)
            &&& visible_lines(v, height).last() == chat_lines(v)[chat_lines(v).len() - 1 - v.scroll]
            &&& visible_lines(up, height).last() == chat_lines(v)[chat_lines(v).len() - 6 - v.scroll]
            &&& visible_lines(
                up.after_key(KeyEvent { code: KeyCode::PageDown, control: false }).0,
                height,
            ) == visible_lines(v, height)
        }),
{
    let up = v.after_key(KeyEvent { code: KeyCode::PageUp, control: false }).0;
    assert(chat_lines(up) =~= chat_lines(v));
    the_page_keys_scroll_by_five(v, false);
    the_newest_line_is_at_the_bottom(v, height, 0);
    the_newest_line_is_at_the_bottom(up, height, 0);
    let down = up.after_key(KeyEvent { code: KeyCode::PageDown, control: false }).0;
    assert(down == v);
}

/// The input line shows the prompt and then exactly what was typed, and the cursor stands right
/// behind it, inside the border.
pub proof fn the_cursor_stands_behind_what_was_typed(v: AppView, x: u16)
    ensures
        shown(input_spans(v)) == "> "@ + v.input,
        v.input.len() < 0x1_0000 ==> cursor_column(x, v.input.len()) == x + 1 + shown(
            input_spans(v),
        ).len(),
        cursor_column(x, v.input.len() + 0x1_0000) == cursor_column(x, v.input.len()),
        input_spans(v).len() == 2,
        input_spans(v)[0].style.fg == Some(Color::Magenta),
        input_spans(v)[1].style.fg is None,
        forall|i: int|
            0 <= i < 2 ==> !(#[trigger] input_spans(v)[i]).style.bold && !input_spans(
                v,
            )[i].style.reversed,
{
    let spans = input_spans(v);
    reveal_strlit("> ");
    reveal_with_fuel(shown, 3);
    assert(spans.drop_last().drop_last().len() == 0);
    assert(shown(spans) =~= "> "@ + v.input);
}

} // verus!
