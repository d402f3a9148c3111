//! What the terminal shows, as styled text: the status bar, the roster, the chat pane and the
//! input line. Everything here reads the application state and changes nothing; drawing the
//! text happens outside.

use vstd::prelude::*;
use vstd::string::*;

use crate::app::{App, ChatLine, push_tag};
use crate::app_laws::{
    lemma_focus_in_range, lemma_pane_of_peer, the_panes_form_a_ring, the_roster_is_the_display_order,
};
use crate::app_model::{AppView, ChatLineView, tag};
use crate::message::PeerId;

verus! {

// ── Styled text ────────────────────────────────────────────────────────────────────────────

/// A text color.
#[derive(Debug, Clone, Copy, PartialEq, Eq, Structural)]
pub enum Color {
    Magenta,
    Cyan,
    Yellow,
    Green,
    DarkGray,
    Gray,
}

/// How a text is drawn: its color (the terminal's own, if none), and whether it is bold and
/// reversed.
#[derive(Debug, Clone, Copy, PartialEq, Eq, Structural)]
pub struct Style {
    pub fg: Option<Color>,
    pub bold: bool,
    pub reversed: bool,
}

/// The terminal's own style.
pub open spec fn plain_style() -> Style {
    Style { fg: None, bold: false, reversed: false }
}

/// A colored style.
pub open spec fn colored(fg: Color) -> Style {
    Style { fg: Some(fg), bold: false, reversed: false }
}

/// A colored bold style.
pub open spec fn colored_bold(fg: Color) -> Style {
    Style { fg: Some(fg), bold: true, reversed: false }
}

/// A piece of text in one style.
#[derive(Debug)]
pub struct Span {
    pub text: String,
    pub style: Style,
}

/// What a [`Span`] shows.
#[verifier::ext_equal]
pub struct SpanView {
    pub text: Seq<char>,
    pub style: Style,
}

impl View for Span {
    type V = SpanView;

    open spec fn view(&self) -> SpanView {
        SpanView { text: self.text@, style: self.style }
    }
}

/// What a line of spans shows.
pub open spec fn line_view(spans: Seq<Span>) -> Seq<SpanView> {
    spans.map_values(|s: Span| s@)
}

/// What several lines show.
pub open spec fn lines_view(lines: Seq<Vec<Span>>) -> Seq<Seq<SpanView>> {
    lines.map_values(|l: Vec<Span>| line_view(l@))
}

fn span(text: String, style: Style) -> (r: Span)
    ensures
        r@ == (SpanView { text: text@, style }),
{
    Span { text, style }
}

fn plain() -> (r: Style)
    ensures
        r == plain_style(),
{
    Style { fg: None, bold: false, reversed: false }
}

fn color(fg: Color) -> (r: Style)
    ensures
        r == colored(fg),
{
    Style { fg: Some(fg), bold: false, reversed: false }
}

fn color_bold(fg: Color) -> (r: Style)
    ensures
        r == colored_bold(fg),
{
    Style { fg: Some(fg), bold: true, reversed: false }
}

// ── Status bar ─────────────────────────────────────────────────────────────────────────────

/// What the status bar shows: our address, once it is published, and the latest status.
pub open spec fn status_spans(v: AppView) -> Seq<SpanView> {
    let identity = match v.own_onion {
        Some(onion) => onion,
        None => "(publishing onion service…)"@,
    };
    seq![
        SpanView { text: "hop6"@, style: colored_bold(Color::Magenta) },
        SpanView { text: "  you: "@, style: plain_style() },
        SpanView { text: identity, style: colored(Color::Cyan) },
        SpanView { text: "   "@, style: plain_style() },
        SpanView { text: v.status, style: colored(Color::Yellow) },
    ]
}

/// The status bar.
pub fn render_status(app: &App) -> (r: Vec<Span>)
    ensures
        line_view(r@) == status_spans(app@),
{
    let identity = match &app.own_onion {
        Some(onion) => onion.clone(),
        None => "(publishing onion service…)".to_owned(),
    };
    let mut out: Vec<Span> = Vec::new();
    out.push(span("hop6".to_owned(), color_bold(Color::Magenta)));
    out.push(span("  you: ".to_owned(), plain()));
    out.push(span(identity, color(Color::Cyan)));
    out.push(span("   ".to_owned(), plain()));
    out.push(span(app.status.clone(), color(Color::Yellow)));
    assert(line_view(out@) =~= status_spans(app@));
    out
}

// ── Roster ─────────────────────────────────────────────────────────────────────────────────

/// An entry of the roster: green while online, dark gray otherwise; marked, bold and reversed
/// while selected.
pub open spec fn roster_entry(label: Seq<char>, selected: bool, online: bool) -> SpanView {
    SpanView {
        text: (if selected {
            "▶ "@
        } else {
            "  "@
        }) + label,
        style: Style {
            fg: Some(
                if online {
                    Color::Green
                } else {
                    Color::DarkGray
                },
            ),
            bold: selected,
            reversed: selected,
        },
    }
}

/// The roster entry of a known peer.
pub open spec fn peer_entry(v: AppView, id: PeerId) -> SpanView {
    roster_entry(
        tag(id) + " "@ + v.peers[id].label(),
        v.active == Some(id),
        v.peers[id].connected,
    )
}

/// What the roster shows: the system log first, then the known peers in display order.
pub open spec fn roster_spans(v: AppView) -> Seq<SpanView> {
    seq![roster_entry("*system"@, v.active is None, true)] + v.roster().map_values(
        |id: PeerId| peer_entry(v, id),
    )
}

/// An entry of the roster.
pub fn roster_item(label: &str, selected: bool, online: bool) -> (r: Span)
    ensures
        r@ == roster_entry(label@, selected, online),
{
    let mut text = (if selected { "▶ " } else { "  " }).to_owned();
    text.append(label);
    let fg = if online { Color::Green } else { Color::DarkGray };
    Span { text, style: Style { fg: Some(fg), bold: selected, reversed: selected } }
}

/// The roster.
pub fn render_roster(app: &App) -> (r: Vec<Span>)
    requires
        app@.lists(),
    ensures
        line_view(r@) == roster_spans(app@),
{
    let ghost v = app@;
    let ghost known = |id: PeerId| v.peers.contains_key(id);
    let ghost entry = |id: PeerId| peer_entry(v, id);
    let mut items: Vec<Span> = Vec::new();
    items.push(roster_item("*system", app.active.is_none(), true));
    let ghost head = items@;
    let n: usize = app.order.len();
    let mut i: usize = 0;
    proof {
        reveal(Seq::filter);
        assert(v.order.take(0).filter(known).map_values(entry) =~= Seq::<SpanView>::empty());
        assert(line_view(items@) =~= line_view(head) + Seq::<SpanView>::empty());
    }
    while i < n
        invariant
            i <= n,
            n == v.order.len(),
            v == app@,
            v.lists(),
            known == (|id: PeerId| v.peers.contains_key(id)),
            entry == (|id: PeerId| peer_entry(v, id)),
            line_view(items@) == line_view(head) + v.order.take(i as int).filter(known).map_values(
                entry,
            ),
        decreases n - i,
    {
        let ghost done = v.order.take(i as int);
        let ghost next = v.order.take(i + 1);
        let id: PeerId = app.order[i];
        proof {
            reveal(Seq::filter);
            assert(next.drop_last() == done);
            assert(next.last() == id);
            assert(v.order[i as int] == id);
        }
        match app.peers.get(&id) {
            Some(p) => {
                assert(v.peers[id] == p@);
                let selected = match app.active {
                    Some(a) => a == id,
                    None => false,
                };
                let mut label = String::new();
                push_tag(&mut label, id);
                label.append(" ");
                label.append(p.label().as_str());
                assert(label@ =~= tag(id) + " "@ + v.peers[id].label());
                let item = roster_item(label.as_str(), selected, p.connected);
                let ghost before = items@;
                items.push(item);
                proof {
                    assert(item@ == entry(id));
                    assert(next.filter(known) == done.filter(known).push(id));
                    assert(line_view(items@) =~= line_view(before).push(item@));
                    assert(next.filter(known).map_values(entry) =~= done.filter(known).map_values(
                        entry,
                    ).push(entry(id)));
                    assert(line_view(items@) =~= line_view(head) + next.filter(known).map_values(
                        entry,
                    ));
                }
            },
            None => {
                assert(next.filter(known) == done.filter(known));
            },
        }
        i = i + 1;
    }
    proof {
        assert(v.order.take(n as int) == v.order);
        assert(v.roster() == v.order.filter(known));
        assert(line_view(head) =~= seq![roster_entry("*system"@, v.active is None, true)]);
    }
    items
}

// ── Chat pane ──────────────────────────────────────────────────────────────────────────────

/// What stands behind the name of a peer that is offline.
pub open spec fn suffix(connected: bool) -> Seq<char> {
    if connected {
        ""@
    } else {
        " (offline)"@
    }
}

/// The mark behind the name of a peer that is offline.
pub fn conn_suffix(connected: bool) -> (r: &'static str)
    ensures
        r@ == suffix(connected),
{
    if connected {
        ""
    } else {
        " (offline)"
    }
}

/// A line of the system log.
pub open spec fn system_line(text: Seq<char>) -> Seq<SpanView> {
    seq![SpanView { text, style: colored(Color::Gray) }]
}

/// A line of a conversation: who said it, cyan for us and green for the peer, and what.
pub open spec fn chat_line(c: ChatLineView) -> Seq<SpanView> {
    seq![
        SpanView {
            text: c.who + ": "@,
            style: colored_bold(
                if c.from_me {
                    Color::Cyan
                } else {
                    Color::Green
                },
            ),
        },
        SpanView { text: c.body, style: plain_style() },
    ]
}

/// The title of the chat pane.
pub open spec fn chat_title(v: AppView) -> Seq<char> {
    match v.active {
        None => " system "@,
        Some(id) => if v.peers.contains_key(id) {
            " chat · "@ + tag(id) + " "@ + v.peers[id].label() + suffix(v.peers[id].connected)
                + " "@
        } else {
            " chat "@
        },
    }
}

/// All lines of the focused pane.
pub open spec fn chat_lines(v: AppView) -> Seq<Seq<SpanView>> {
    match v.active {
        None => v.system.map_values(|s: Seq<char>| system_line(s)),
        Some(id) => if v.peers.contains_key(id) {
            v.peers[id].log.map_values(|c: ChatLineView| chat_line(c))
        } else {
            Seq::empty()
        },
    }
}

fn system_span(text: &String) -> (r: Vec<Span>)
    ensures
        line_view(r@) == system_line(text@),
{
    let mut line: Vec<Span> = Vec::new();
    line.push(span(text.clone(), color(Color::Gray)));
    assert(line_view(line@) =~= system_line(text@));
    line
}

fn chat_spans(c: &ChatLine) -> (r: Vec<Span>)
    ensures
        line_view(r@) == chat_line(c@),
{
    let mut who = c.who.clone();
    who.append(": ");
    let mut line: Vec<Span> = Vec::new();
    line.push(span(who, color_bold(if c.from_me { Color::Cyan } else { Color::Green })));
    line.push(span(c.body.clone(), plain()));
    assert(line_view(line@) =~= chat_line(c@));
    line
}

/// The title and all lines of the focused pane.
pub fn build_chat_lines(app: &App) -> (r: (String, Vec<Vec<Span>>))
    requires
        app@.active matches Some(id) ==> app@.shows(id),
    ensures
        r.0@ == chat_title(app@),
        lines_view(r.1@) == chat_lines(app@),
{
    let mut lines: Vec<Vec<Span>> = Vec::new();
    match app.active {
        None => {
            let n: usize = app.system.len();
            let mut i: usize = 0;
            while i < n
                invariant
                    i <= n,
                    n == app.system@.len(),
                    lines@.len() == i,
                    forall|k: int|
                        0 <= k < i ==> line_view((#[trigger] lines@[k])@) == system_line(
                            app.system@[k]@,
                        ),
                decreases n - i,
            {
                lines.push(system_span(&app.system[i]));
                i = i + 1;
            }
            assert(lines_view(lines@) =~= chat_lines(app@));
            (" system ".to_owned(), lines)
        },
        Some(id) => {
            match app.peers.get(&id) {
                None => {
                    assert(lines_view(lines@) =~= chat_lines(app@));
                    (" chat ".to_owned(), lines)
                },
                Some(p) => {
                    assert(app@.peers[id] == p@);
                    let mut title = " chat · ".to_owned();
                    push_tag(&mut title, id);
                    title.append(" ");
                    title.append(p.label().as_str());
                    title.append(conn_suffix(p.connected));
                    title.append(" ");
                    let n: usize = p.log.len();
                    let mut i: usize = 0;
                    while i < n
                        invariant
                            i <= n,
                            n == p.log@.len(),
                            lines@.len() == i,
                            forall|k: int|
                                0 <= k < i ==> line_view((#[trigger] lines@[k])@) == chat_line(
                                    p.log@[k]@,
                                ),
                        decreases n - i,
                    {
                        lines.push(chat_spans(&p.log[i]));
                        i = i + 1;
                    }
                    assert(lines_view(lines@) =~= chat_lines(app@));
                    (title, lines)
                },
            }
        },
    }
}

/// The end of the visible lines: `scroll` lines above the newest.
pub open spec fn window_end(total: nat, scroll: nat) -> nat {
    if scroll <= total {
        (total - scroll) as nat
    } else {
        0
    }
}

/// The start of the visible lines: at most `viewport` lines above their end.
pub open spec fn window_start(total: nat, scroll: nat, viewport: nat) -> nat {
    if viewport <= window_end(total, scroll) {
        (window_end(total, scroll) - viewport) as nat
    } else {
        0
    }
}

/// How many lines fit between the borders of a pane.
pub open spec fn viewport(height: u16) -> nat {
    if height >= 2 {
        (height - 2) as nat
    } else {
        0
    }
}

/// The lines of the focused pane that fit a pane of the given height, with the newest at the
/// bottom unless scrolled up.
pub open spec fn visible_lines(v: AppView, height: u16) -> Seq<Seq<SpanView>> {
    let lines = chat_lines(v);
    lines.subrange(
        window_start(lines.len(), v.scroll as nat, viewport(height)) as int,
        window_end(lines.len(), v.scroll as nat) as int,
    )
}

/// The chat pane for an area of the given height: its title and the lines to show.
pub fn render_chat(app: &App, height: u16) -> (r: (String, Vec<Vec<Span>>))
    requires
        app@.active matches Some(id) ==> app@.shows(id),
    ensures
        r.0@ == chat_title(app@),
        lines_view(r.1@) == visible_lines(app@, height),
{
    let (title, mut lines) = build_chat_lines(app);
    let ghost all = lines@;
    let view: usize = height.saturating_sub(2) as usize;
    let total: usize = lines.len();
    let end: usize = total.saturating_sub(app.scroll);
    let start: usize = end.saturating_sub(view);
    assert(chat_lines(app@).len() == all.len());
    lines.truncate(end);
    let visible = lines.split_off(start);
    proof {
        assert(visible@ =~= all.subrange(start as int, end as int));
        assert(lines_view(visible@) =~= lines_view(all).subrange(start as int, end as int));
    }
    (title, visible)
}

// ── Input line ─────────────────────────────────────────────────────────────────────────────

/// What the input line shows.
pub open spec fn input_spans(v: AppView) -> Seq<SpanView> {
    seq![
        SpanView { text: "> "@, style: colored(Color::Magenta) },
        SpanView { text: v.input, style: plain_style() },
    ]
}

/// The input line.
pub fn render_input(app: &App) -> (r: Vec<Span>)
    ensures
        line_view(r@) == input_spans(app@),
{
    let mut out: Vec<Span> = Vec::new();
    out.push(span("> ".to_owned(), color(Color::Magenta)));
    out.push(span(app.input.clone(), plain()));
    assert(line_view(out@) =~= input_spans(app@));
    out
}

/// The column of the cursor in an input pane at column `x`: right after the typed text, past the
/// border and the prompt. Only the low 16 bits of the text's length count.
pub open spec fn cursor_column(x: u16, typed: nat) -> int {
    x + 3 + (typed % 0x1_0000)
}

/// Where the cursor goes in an input pane whose corner is at `x`, `y`.
pub fn cursor_position(x: u16, y: u16, input: &str) -> (r: (u16, u16))
    requires
        cursor_column(x, input@.len()) <= u16::MAX,
        y < u16::MAX,
    ensures
        r.0 == cursor_column(x, input@.len()),
        r.1 == y + 1,
{
    let typed: u16 = (input.unicode_len() % 0x1_0000) as u16;
    (x + 3 + typed, y + 1)
}

// ── What the panes promise ─────────────────────────────────────────────────────────────────

/// In a state with the invariant every pane can be drawn.
pub proof fn every_pane_can_be_drawn(v: AppView)
    requires
        v.wf(),
    ensures
        v.lists(),
        v.active matches Some(id) ==> v.shows(id),
{
}

/// In a state with the invariant exactly one entry of the roster is selected: the one of the
/// focused pane.
pub proof fn exactly_one_entry_is_selected(v: AppView, i: int)
    requires
        v.wf(),
        0 <= i < roster_spans(v).len(),
    ensures
        roster_spans(v).len() == v.panes().len(),
        0 <= v.focus() < roster_spans(v).len(),
        roster_spans(v)[i].style.reversed <==> i == v.focus(),
{
    the_roster_is_the_display_order(v);
    the_panes_form_a_ring(v);
    lemma_focus_in_range(v);
    lemma_pane_of_peer(v, v.focus());
    if i > 0 {
        assert(roster_spans(v)[i] == peer_entry(v, v.order[i - 1]));
    }
}

/// The visible lines never exceed the pane; with no scrolling they end with the newest line, and
/// each line of scrolling moves their end up by one.
pub proof fn the_window_is_anchored_at_the_bottom(total: nat, scroll: nat, viewport: nat)
    ensures
        window_start(total, scroll, viewport) <= window_end(total, scroll) <= total,
        window_end(total, scroll) - window_start(total, scroll, viewport) <= viewport,
        window_end(total, 0) == total,
        scroll < total ==> window_end(total, scroll + 1) == window_end(total, scroll) - 1,
        viewport <= window_end(total, scroll) ==> window_end(total, scroll) - window_start(
            total,
            scroll,
            viewport,
        ) == viewport,
{
}

} // verus!
