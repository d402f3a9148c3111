//! The message that travels between two peers, and its line on the wire.
//!
//! A peer connection is a stream of newline-delimited JSON objects in both directions, one
//! message per line.

use vstd::prelude::*;
use vstd::string::*;

use crate::text::{decimal, decimal_reads_back, digit, is_digit, push_decimal};

verus! {

/// The error type of `serde_json`; nothing inside it is looked at.
#[verifier::external_type_specification]
#[verifier::external_body]
pub struct ExJsonError(serde_json::Error);

/// A single chat message as it travels between two peers.
#[derive(Debug, Clone)]
pub struct WireMsg {
    /// The sender's own onion address, so the receiver can label the message even on a freshly
    /// accepted inbound connection.
    pub from_onion: String,
    /// The message text.
    pub body: String,
    /// Unix epoch seconds when the sender created the message. Purely informational.
    pub ts: u64,
}

/// What a [`WireMsg`] says.
#[verifier::ext_equal]
pub struct WireMsgView {
    pub from_onion: Seq<char>,
    pub body: Seq<char>,
    pub ts: u64,
}

impl View for WireMsg {
    type V = WireMsgView;

    open spec fn view(&self) -> WireMsgView {
        WireMsgView { from_onion: self.from_onion@, body: self.body@, ts: self.ts }
    }
}

// ── The line ───────────────────────────────────────────────────────────────────────────────

/// A lower-case hexadecimal digit.
pub open spec fn hex_digit(d: nat) -> char {
    if d < 10 {
        digit(d)
    } else {
        ('a' as u32 + d - 10) as char
    }
}

/// How one character stands inside a JSON string.
pub open spec fn json_escape(c: char) -> Seq<char> {
    let u = c as u32 as nat;
    if c == '"' {
        seq!['\\', '"']
    } else if c == '\\' {
        seq!['\\', '\\']
    } else if u == 0x8 {
        seq!['\\', 'b']
    } else if u == 0x9 {
        seq!['\\', 't']
    } else if u == 0xa {
        seq!['\\', 'n']
    } else if u == 0xc {
        seq!['\\', 'f']
    } else if u == 0xd {
        seq!['\\', 'r']
    } else if u < 0x20 {
        seq!['\\', 'u', '0', '0', hex_digit(u / 16), hex_digit(u % 16)]
    } else {
        seq![c]
    }
}

/// How a text stands inside a JSON string, without the quotes.
pub open spec fn json_escaped(s: Seq<char>) -> Seq<char>
    decreases s.len(),
{
    if s.len() == 0 {
        Seq::empty()
    } else {
        json_escape(s[0]) + json_escaped(s.drop_first())
    }
}

/// A text as a JSON string.
pub open spec fn json_string(s: Seq<char>) -> Seq<char> {
    seq!['"'] + json_escaped(s) + seq!['"']
}

/// The line that carries a message: a JSON object with its three fields in order, nothing
/// between them, and no line break behind it.
pub open spec fn line_of(m: WireMsgView) -> Seq<char> {
    "{\"from_onion\":"@ + json_string(m.from_onion) + ",\"body\":"@ + json_string(m.body)
        + ",\"ts\":"@ + decimal(m.ts as nat) + "}"@
}

/// `serde_json::to_string` on a string.
///
/// Trusted: it does not fail, and gives the text between double quotes, with the quote, the
/// backslash and the control characters below U+0020 escaped and every other character as it is.
#[verifier::external_body]
fn encode_str(s: &str) -> (r: Result<String, serde_json::Error>)
    ensures
        r is Ok,
        r->Ok_0@ == json_string(s@),
{
    serde_json::to_string(s)
}

impl WireMsg {
    /// A message from `from_onion` that says `body`, made at `ts`.
    pub fn new(from_onion: &str, body: &str, ts: u64) -> (r: WireMsg)
        ensures
            r@ == (WireMsgView { from_onion: from_onion@, body: body@, ts }),
    {
        WireMsg { from_onion: from_onion.to_owned(), body: body.to_owned(), ts }
    }

    /// The message as a single JSON line, without a line break at its end.
    pub fn to_line(&self) -> (r: Result<String, serde_json::Error>)
        ensures
            r is Ok,
            r->Ok_0@ == line_of(self@),
    {
        let from_onion = match encode_str(self.from_onion.as_str()) {
            Ok(t) => t,
            Err(e) => return Err(e),
        };
        let body = match encode_str(self.body.as_str()) {
            Ok(t) => t,
            Err(e) => return Err(e),
        };
        let mut line = "{\"from_onion\":".to_owned();
        line.append(from_onion.as_str());
        line.append(",\"body\":");
        line.append(body.as_str());
        line.append(",\"ts\":");
        push_decimal(&mut line, self.ts);
        line.append("}");
        Ok(line)
    }
}

// ── What a line promises ───────────────────────────────────────────────────────────────────

/// Whether a text holds neither a line feed nor a carriage return.
pub open spec fn unbroken(s: Seq<char>) -> bool {
    forall|i: int| 0 <= i < s.len() ==> #[trigger] s[i] != '\n' && s[i] != '\r'
}

proof fn lemma_escaped_unbroken(s: Seq<char>)
    ensures
        unbroken(json_escaped(s)),
    decreases s.len(),
{
    if s.len() > 0 {
        lemma_escaped_unbroken(s.drop_first());
        let e = json_escape(s[0]);
        assert(unbroken(e));
        assert(unbroken(e + json_escaped(s.drop_first())));
    }
}

proof fn lemma_unbroken_concat(a: Seq<char>, b: Seq<char>)
    requires
        unbroken(a),
        unbroken(b),
    ensures
        unbroken(a + b),
{
}

/// Whatever a message says, its line holds no line break, so that one line is one message.
pub proof fn line_is_unbroken(m: WireMsgView)
    ensures
        unbroken(line_of(m)),
{
    reveal_strlit("{\"from_onion\":");
    reveal_strlit(",\"body\":");
    reveal_strlit(",\"ts\":");
    reveal_strlit("}");
    lemma_escaped_unbroken(m.from_onion);
    lemma_escaped_unbroken(m.body);
    decimal_reads_back(m.ts as nat);
    assert(unbroken(decimal(m.ts as nat))) by {
        assert forall|i: int| 0 <= i < decimal(m.ts as nat).len() implies #[trigger] decimal(
            m.ts as nat,
        )[i] != '\n' && decimal(m.ts as nat)[i] != '\r' by {
            assert(is_digit(decimal(m.ts as nat)[i]));
        }
    }
    let a = "{\"from_onion\":"@;
    let b = a + json_string(m.from_onion);
    let c = b + ",\"body\":"@;
    let d = c + json_string(m.body);
    let e = d + ",\"ts\":"@;
    let f = e + decimal(m.ts as nat);
    assert(unbroken(json_string(m.from_onion)));
    assert(unbroken(json_string(m.body)));
    lemma_unbroken_concat(a, json_string(m.from_onion));
    lemma_unbroken_concat(b, ",\"body\":"@);
    lemma_unbroken_concat(c, json_string(m.body));
    lemma_unbroken_concat(d, ",\"ts\":"@);
    lemma_unbroken_concat(e, decimal(m.ts as nat));
    lemma_unbroken_concat(f, "}"@);
}

/// Two escaped characters that begin the same text are the same character.
proof fn lemma_escape_decodes(c: char, d: char, u: Seq<char>, v: Seq<char>)
    requires
        json_escape(c) + u == json_escape(d) + v,
    ensures
        c == d,
        u == v,
{
    let x = json_escape(c) + u;
    let y = json_escape(d) + v;
    let ec = json_escape(c);
    let ed = json_escape(d);
    assert(x[0] == ec[0] && y[0] == ed[0]);
    if ec.len() > 1 && ed.len() > 1 {
        assert(x[1] == ec[1] && y[1] == ed[1]);
        if ec.len() == 6 && ed.len() == 6 {
            assert(x[4] == ec[4] && y[4] == ed[4]);
            assert(x[5] == ec[5] && y[5] == ed[5]);
            let p = c as u32 as nat;
            let q = d as u32 as nat;
            assert(p / 16 == q / 16);
            assert(p % 16 == q % 16);
        }
    }
    assert(c == d);
    assert(u == x.skip(ec.len() as int));
    assert(v == y.skip(ed.len() as int));
}

/// The end of a JSON string can be found, and what was written in it read back.
proof fn lemma_string_decodes(a: Seq<char>, b: Seq<char>, u: Seq<char>, v: Seq<char>)
    requires
        json_escaped(a) + seq!['"'] + u == json_escaped(b) + seq!['"'] + v,
    ensures
        a == b,
        u == v,
    decreases a.len(),
{
    let x = json_escaped(a) + seq!['"'] + u;
    let y = json_escaped(b) + seq!['"'] + v;
    if a.len() == 0 {
        assert(x[0] == '"');
        if b.len() > 0 {
            assert(y[0] == json_escape(b[0])[0]);
            assert(false);
        }
        assert(u == x.skip(1));
        assert(v == y.skip(1));
        assert(a == b);
    } else if b.len() == 0 {
        assert(y[0] == '"');
        assert(x[0] == json_escape(a[0])[0]);
        assert(false);
    } else {
        let ra = json_escaped(a.drop_first()) + seq!['"'] + u;
        let rb = json_escaped(b.drop_first()) + seq!['"'] + v;
        assert(x == json_escape(a[0]) + ra);
        assert(y == json_escape(b[0]) + rb);
        lemma_escape_decodes(a[0], b[0], ra, rb);
        lemma_string_decodes(a.drop_first(), b.drop_first(), u, v);
        assert(a == seq![a[0]] + a.drop_first());
        assert(b == seq![b[0]] + b.drop_first());
    }
}

proof fn lemma_same_start(p: Seq<char>, u: Seq<char>, v: Seq<char>)
    requires
        p + u == p + v,
    ensures
        u == v,
{
    assert(u == (p + u).skip(p.len() as int));
    assert(v == (p + v).skip(p.len() as int));
}

/// A line regrouped from its front.
proof fn lemma_regroup(
    p: Seq<char>,
    a: Seq<char>,
    b: Seq<char>,
    c: Seq<char>,
    r: Seq<char>,
    d: Seq<char>,
    e: Seq<char>,
    q: Seq<char>,
)
    ensures
        p + (q + a + q) + b + (q + c + q) + r + d + e == (p + q) + (a + q + ((b + q) + (c + q + (r
            + (d + e))))),
{
    let inner = c + q + (r + (d + e));
    assert((q + c + q) + r + d + e == q + inner);
    let middle = (b + q) + inner;
    assert((q + a + q) + b + (q + inner) == q + (a + q + middle));
    assert(p + (q + a + q) + b + (q + c + q) + r + d + e == p + ((q + a + q) + b + ((q + c + q) + r
        + d + e)));
    assert(p + (q + (a + q + middle)) == (p + q) + (a + q + middle));
}

/// A line says what was written: no two messages share a line, so the line determines the
/// sender, the text and the time stamp.
pub proof fn line_determines_message(a: WireMsgView, b: WireMsgView)
    requires
        line_of(a) == line_of(b),
    ensures
        a == b,
{
    let p = "{\"from_onion\":"@ + seq!['"'];
    let q = ",\"body\":"@ + seq!['"'];
    let r = ",\"ts\":"@;
    let da = decimal(a.ts as nat);
    let db = decimal(b.ts as nat);
    let ta = r + (da + "}"@);
    let tb = r + (db + "}"@);
    let ba = q + (json_escaped(a.body) + seq!['"'] + ta);
    let bb = q + (json_escaped(b.body) + seq!['"'] + tb);
    lemma_regroup(
        "{\"from_onion\":"@,
        json_escaped(a.from_onion),
        ",\"body\":"@,
        json_escaped(a.body),
        r,
        da,
        "}"@,
        seq!['"'],
    );
    lemma_regroup(
        "{\"from_onion\":"@,
        json_escaped(b.from_onion),
        ",\"body\":"@,
        json_escaped(b.body),
        r,
        db,
        "}"@,
        seq!['"'],
    );
    lemma_same_start(
        p,
        json_escaped(a.from_onion) + seq!['"'] + ba,
        json_escaped(b.from_onion) + seq!['"'] + bb,
    );
    lemma_string_decodes(a.from_onion, b.from_onion, ba, bb);
    lemma_same_start(
        q,
        json_escaped(a.body) + seq!['"'] + ta,
        json_escaped(b.body) + seq!['"'] + tb,
    );
    lemma_string_decodes(a.body, b.body, ta, tb);
    lemma_same_start(r, da + "}"@, db + "}"@);
    assert(da == (da + "}"@).take((da + "}"@).len() - "}"@.len()));
    assert(db == (db + "}"@).take((db + "}"@).len() - "}"@.len()));
    decimal_reads_back(a.ts as nat);
    decimal_reads_back(b.ts as nat);
}

// ── What a line is made of ─────────────────────────────────────────────────────────────────

/// A line is a JSON object with the sender, the text and the time stamp under their names, the two
/// texts as JSON strings and the time stamp in decimal.
pub proof fn the_line_names_its_fields(m: WireMsgView)
    ensures
        line_of(m) == "{\"from_onion\":\""@ + json_escaped(m.from_onion) + "\",\"body\":\""@
            + json_escaped(m.body) + "\",\"ts\":"@ + decimal(m.ts as nat) + "}"@,
{
    reveal_strlit("{\"from_onion\":");
    reveal_strlit("{\"from_onion\":\"");
    reveal_strlit(",\"body\":");
    reveal_strlit("\",\"body\":\"");
    reveal_strlit(",\"ts\":");
    reveal_strlit("\",\"ts\":");
    let q = seq!['"'];
    let a = json_escaped(m.from_onion);
    let b = json_escaped(m.body);
    assert("{\"from_onion\":"@ + q =~= "{\"from_onion\":\""@);
    assert(q + ",\"body\":"@ + q =~= "\",\"body\":\""@);
    assert(q + ",\"ts\":"@ =~= "\",\"ts\":"@);
    let left = "{\"from_onion\":"@ + (q + a + q) + ",\"body\":"@ + (q + b + q) + ",\"ts\":"@;
    assert(left =~= ("{\"from_onion\":"@ + q) + a + (q + ",\"body\":"@ + q) + b + (q
        + ",\"ts\":"@));
}

/// A text is escaped character by character: plain characters stand for themselves, the quote and
/// the backslash stand behind a backslash, and no control character stands in a line.
pub proof fn a_text_is_escaped_by_the_character(s: Seq<char>, t: Seq<char>, c: char)
    ensures
        json_escaped(Seq::<char>::empty()) == Seq::<char>::empty(),
        json_escaped(s + t) == json_escaped(s) + json_escaped(t),
        c as u32 >= 0x20 && c != '"' && c != '\\' ==> json_escaped(seq![c]) == seq![c],
        c == '"' || c == '\\' ==> json_escaped(seq![c]) == seq!['\\', c],
        (c as u32) < 0x20 ==> json_escaped(seq![c]).len() >= 2 && json_escaped(seq![c])[0] == '\\',
        json_escaped(seq!['\n']) == seq!['\\', 'n'],
        json_escaped(seq!['\t']) == seq!['\\', 't'],
        json_escaped(seq!['\r']) == seq!['\\', 'r'],
    decreases s.len(),
{
    lemma_escaped_one(c);
    lemma_escaped_one('\n');
    lemma_escaped_one('\t');
    lemma_escaped_one('\r');
    if s.len() == 0 {
        assert(s + t == t);
        assert(json_escaped(s) + json_escaped(t) == json_escaped(t));
    } else {
        a_text_is_escaped_by_the_character(s.drop_first(), t, c);
        assert((s + t).drop_first() == s.drop_first() + t);
        assert((s + t)[0] == s[0]);
        assert(json_escape(s[0]) + json_escaped(s.drop_first()) + json_escaped(t) == json_escape(
            s[0],
        ) + (json_escaped(s.drop_first()) + json_escaped(t)));
    }
}

proof fn lemma_escaped_one(c: char)
    ensures
        json_escaped(seq![c]) == json_escape(c),
{
    assert(seq![c].drop_first() == Seq::<char>::empty());
    assert(json_escaped(Seq::<char>::empty()) == Seq::<char>::empty());
    assert(json_escape(c) + Seq::<char>::empty() == json_escape(c));
}

} // verus!
