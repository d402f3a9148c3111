//! What trimming, splitting, and numbers in decimal promise, in terms of the text alone.

use vstd::prelude::*;
use vstd::utf8::*;

use crate::app_laws::lemma_ascii_id_shortens;
use crate::app_model::{service_id, short, shortens};
use crate::text::{
    after_word, all_digits, before, begins_with, decimal, decimal_reads_back, decimal_value, digit,
    digit_value, ends_in, first_word, is_digit, trimmed, trimmed_end, trimmed_start, u16_named,
    white_space, without_suffix, word_len,
};
use crate::tor::{lemma_mark_after, lemma_no_mark};

verus! {

// ── Trimming ───────────────────────────────────────────────────────────────────────────────

proof fn lemma_start_cut(s: Seq<char>) -> (n: int)
    ensures
        0 <= n <= s.len(),
        trimmed_start(s) == s.skip(n),
        forall|i: int| 0 <= i < n ==> white_space(#[trigger] s[i]),
        n < s.len() ==> !white_space(s[n]),
    decreases s.len(),
{
    if s.len() > 0 && white_space(s[0]) {
        let rest = s.drop_first();
        let m = lemma_start_cut(rest);
        assert forall|i: int| 0 <= i < m + 1 implies white_space(#[trigger] s[i]) by {
            if i > 0 {
                assert(rest[i - 1] == s[i]);
            }
        }
        assert(rest.skip(m) == s.skip(m + 1));
        if m < rest.len() {
            assert(rest[m] == s[m + 1]);
        }
        m + 1
    } else {
        assert(s.skip(0) == s);
        0
    }
}

proof fn lemma_end_cut(s: Seq<char>) -> (n: int)
    ensures
        0 <= n <= s.len(),
        trimmed_end(s) == s.take(n),
        forall|i: int| n <= i < s.len() ==> white_space(#[trigger] s[i]),
        n > 0 ==> !white_space(s[n - 1]),
    decreases s.len(),
{
    if s.len() > 0 && white_space(s.last()) {
        let rest = s.drop_last();
        let m = lemma_end_cut(rest);
        assert forall|i: int| m <= i < s.len() implies white_space(#[trigger] s[i]) by {
            if i < rest.len() {
                assert(rest[i] == s[i]);
            }
        }
        assert(rest.take(m) == s.take(m));
        if m > 0 {
            assert(rest[m - 1] == s[m - 1]);
        }
        m
    } else {
        assert(s.take(s.len() as int) == s);
        s.len() as int
    }
}

/// Trimming takes white space off both ends and nothing else: what stands between white space at
/// the two ends, and neither begins nor ends with white space itself, is what is left.
pub proof fn trimming_leaves_what_white_space_surrounds(
    left: Seq<char>,
    core: Seq<char>,
    right: Seq<char>,
)
    requires
        forall|i: int| 0 <= i < left.len() ==> white_space(#[trigger] left[i]),
        forall|i: int| 0 <= i < right.len() ==> white_space(#[trigger] right[i]),
        core.len() > 0 ==> !white_space(core[0]) && !white_space(core.last()),
    ensures
        trimmed(left + core + right) == core,
{
    let s = left + core + right;
    let n = lemma_start_cut(s);
    if core.len() > 0 {
        assert(s[left.len() as int] == core[0]);
        if n > left.len() {
            assert(white_space(s[left.len() as int]));
        }
        if n < left.len() {
            assert(s[n] == left[n]);
        }
        let t = s.skip(n);
        assert(t == core + right);
        let m = lemma_end_cut(t);
        assert(t[core.len() - 1] == core.last());
        if m < core.len() {
            assert(white_space(t[core.len() - 1]));
        }
        if m > core.len() {
            assert(t[m - 1] == right[m - 1 - core.len()]);
        }
        assert(t.take(core.len() as int) == core);
    } else {
        if n < s.len() {
            if n < left.len() {
                assert(s[n] == left[n]);
            } else {
                assert(s[n] == right[n - left.len()]);
            }
        }
        assert(s.skip(n) == Seq::<char>::empty());
        let m = lemma_end_cut(s.skip(n));
        assert(core == Seq::<char>::empty());
    }
}

/// Every text is its trimmed part with white space at both ends, and the trimmed part neither
/// begins nor ends with white space.
pub proof fn trimming_takes_off_white_space_alone(s: Seq<char>) -> (r: (Seq<char>, Seq<char>))
    ensures
        s == r.0 + trimmed(s) + r.1,
        forall|i: int| 0 <= i < r.0.len() ==> white_space(#[trigger] r.0[i]),
        forall|i: int| 0 <= i < r.1.len() ==> white_space(#[trigger] r.1[i]),
        trimmed(s).len() > 0 ==> !white_space(trimmed(s)[0]) && !white_space(trimmed(s).last()),
{
    let n = lemma_start_cut(s);
    let t = s.skip(n);
    let m = lemma_end_cut(t);
    let left = s.take(n);
    let right = t.skip(m);
    assert(s == left + t.take(m) + right);
    assert forall|i: int| 0 <= i < right.len() implies white_space(#[trigger] right[i]) by {
        assert(right[i] == t[m + i]);
    }
    if m > 0 {
        assert(t.take(m)[0] == s[n]);
        assert(t.take(m).last() == t[m - 1]);
    }
    (left, right)
}

/// The white space of ASCII is the space and the five controls from tab to carriage return; no
/// visible ASCII character is white space.
pub proof fn ascii_white_space(c: char)
    requires
        (c as u32) < 0x80,
    ensures
        white_space(c) <==> c == ' ' || '\t' as u32 <= c as u32 <= '\r' as u32,
{
}

// ── Splitting ──────────────────────────────────────────────────────────────────────────────

proof fn lemma_word_len(word: Seq<char>, rest: Seq<char>)
    requires
        forall|i: int| 0 <= i < word.len() ==> !white_space(#[trigger] word[i]),
        rest.len() > 0 ==> white_space(rest[0]),
    ensures
        word_len(word + rest) == word.len(),
    decreases word.len(),
{
    let s = word + rest;
    if word.len() > 0 {
        let tail = word.drop_first();
        assert(s[0] == word[0]);
        assert(s.drop_first() == tail + rest);
        assert forall|i: int| 0 <= i < tail.len() implies !white_space(#[trigger] tail[i]) by {
            assert(tail[i] == word[i + 1]);
        }
        lemma_word_len(tail, rest);
    } else {
        assert(s == rest);
    }
}

/// A word ends at the first white space: a word, a white character and a rest split into the word
/// and the rest, and a word alone splits into itself and nothing.
pub proof fn a_word_ends_at_white_space(word: Seq<char>, gap: char, rest: Seq<char>)
    requires
        forall|i: int| 0 <= i < word.len() ==> !white_space(#[trigger] word[i]),
        white_space(gap),
    ensures
        first_word(word + seq![gap] + rest) == word,
        after_word(word + seq![gap] + rest) == rest,
        first_word(word) == word,
        after_word(word) == Seq::<char>::empty(),
{
    let s = word + seq![gap] + rest;
    assert(s == word + (seq![gap] + rest));
    lemma_word_len(word, seq![gap] + rest);
    assert(s.take(word.len() as int) == word);
    assert(s.skip(word.len() as int + 1) == rest);
    assert(word + Seq::<char>::empty() == word);
    lemma_word_len(word, Seq::empty());
    assert(word.take(word.len() as int) == word);
}

/// What stands before a mark is everything up to its first occurrence, or the whole text where it
/// does not occur.
pub proof fn the_part_before_a_mark_ends_there(t: Seq<char>, mark: char, rest: Seq<char>)
    requires
        !t.contains(mark),
    ensures
        before(t + seq![mark] + rest, mark) == t,
        before(t, mark) == t,
{
    assert(t + seq![mark] + rest == t.push(mark) + rest);
    lemma_mark_after(t, mark, rest);
    lemma_no_mark(t, mark);
}

/// A suffix is taken off where it stands, once, and a text without it stays as it is.
pub proof fn a_suffix_is_taken_off_once(t: Seq<char>, suffix: Seq<char>)
    ensures
        without_suffix(t + suffix, suffix) == t,
        (forall|u: Seq<char>| t != #[trigger] (u + suffix)) ==> without_suffix(t, suffix) == t,
{
    let s = t + suffix;
    assert(s.skip(s.len() - suffix.len()) == suffix);
    assert(s.take(s.len() - suffix.len()) == t);
    if t.len() >= suffix.len() && t.skip(t.len() - suffix.len()) == suffix {
        assert(t == t.take(t.len() - suffix.len()) + suffix);
    }
}

/// A text begins with a prefix exactly if it is that prefix and something behind it, and ends in
/// a suffix exactly if it is something and that suffix behind it.
pub proof fn beginnings_and_endings(s: Seq<char>, part: Seq<char>, other: Seq<char>)
    ensures
        begins_with(part + other, part),
        (forall|u: Seq<char>| s != #[trigger] (part + u)) ==> !begins_with(s, part),
        ends_in(other + part, part),
        (forall|u: Seq<char>| s != #[trigger] (u + part)) ==> !ends_in(s, part),
{
    assert((part + other).take(part.len() as int) == part);
    assert((other + part).skip(other.len() as int) == part);
    if begins_with(s, part) {
        assert(s == part + s.skip(part.len() as int));
    }
    if ends_in(s, part) {
        assert(s == s.take(s.len() - part.len()) + part);
    }
}

// ── Decimal numbers ────────────────────────────────────────────────────────────────────────

/// The digits of a number, from the front: a number below ten is one digit, ten times a number
/// and a digit is written as that number and that digit, and no number but zero begins with `0`.
pub proof fn decimal_grows_by_digits(n: nat, d: nat)
    requires
        d < 10,
    ensures
        decimal(d).len() == 1,
        decimal(d)[0] as u32 == 48 + d,
        n > 0 ==> decimal(10 * n + d) == decimal(n) + decimal(d),
        n > 0 ==> decimal(n)[0] as u32 != 48,
        decimal(n).len() > 0,
    decreases n,
{
    if n > 0 {
        assert((10 * n + d) / 10 == n);
        assert((10 * n + d) % 10 == d as int);
        assert(decimal(n) + decimal(d) == decimal(n).push(digit(d)));
        if n >= 10 {
            decimal_grows_by_digits(n / 10, n % 10);
            assert(10 * (n / 10) + n % 10 == n);
            assert(decimal(n)[0] == decimal(n / 10)[0]);
        }
    }
}

/// No two numbers are written the same.
pub proof fn decimal_tells_numbers_apart(a: nat, b: nat)
    requires
        decimal(a) == decimal(b),
    ensures
        a == b,
{
    decimal_reads_back(a);
    decimal_reads_back(b);
}

/// A `u16` is named by digits alone, with or without a plus sign, and by nothing else: whatever
/// names one is made of digits behind an optional plus sign, zeros in front change nothing, and
/// putting a digit behind multiplies by ten and adds it.
pub proof fn a_named_u16_is_made_of_digits(s: Seq<char>, c: char)
    ensures
        u16_named(s) is Some ==> s.len() > 0,
        u16_named(s) is Some ==> forall|i: int|
            0 <= i < s.len() ==> ('0' as u32 <= (#[trigger] s[i]) as u32 <= '9' as u32 || (i == 0
                && s.len() > 1 && s[0] == '+')),
        u16_named(s) is Some && '0' as u32 <= c as u32 <= '9' as u32 ==> {
            let value = u16_named(s)->0 * 10 + (c as u32 - '0' as u32);
            u16_named(s.push(c)) == (if value <= u16::MAX {
                Some(value as u16)
            } else {
                None
            })
        },
        '0' as u32 <= c as u32 <= '9' as u32 ==> u16_named(seq![c]) == Some(
            (c as u32 - '0' as u32) as u16,
        ) && u16_named(seq!['+', c]) == Some((c as u32 - '0' as u32) as u16),
        !('0' as u32 <= c as u32 <= '9' as u32) ==> u16_named(s.push(c)) is None,
{
    let digits = if s.len() > 0 && s[0] == '+' {
        s.drop_first()
    } else {
        s
    };
    let t = s.push(c);
    if u16_named(s) is Some {
        assert forall|i: int| 0 <= i < s.len() implies ('0' as u32 <= (#[trigger] s[i]) as u32
            <= '9' as u32 || (i == 0 && s.len() > 1 && s[0] == '+')) by {
            if s[0] == '+' {
                if i > 0 {
                    assert(digits[i - 1] == s[i]);
                }
            } else {
                assert(digits[i] == s[i]);
            }
        }
        if is_digit(c) {
            let more = digits.push(c);
            if s[0] == '+' {
                assert(t.drop_first() == more);
            } else {
                assert(t == more);
                assert(digits[0] == s[0]);
                assert(t[0] != '+');
            }
            assert(t[0] == s[0]);
            assert(more.drop_last() == digits);
            assert(all_digits(more));
        }
    }
    if is_digit(c) {
        let one = seq![c];
        assert(one.drop_last() == Seq::<char>::empty());
        assert(decimal_value(Seq::<char>::empty()) == 0);
        assert(decimal_value(one) == digit_value(c));
        assert(all_digits(one));
        assert(seq!['+', c].drop_first() == one);
    } else {
        let rest = if t[0] == '+' {
            t.drop_first()
        } else {
            t
        };
        if rest.len() > 0 {
            assert(rest.last() == c);
            assert(rest[rest.len() - 1] == c);
            assert(!all_digits(rest));
        }
    }
}

// ── Short addresses ────────────────────────────────────────────────────────────────────────

/// An address is shown by the beginning of its service id: eight bytes of it and an ellipsis, if
/// it has more, and all of it otherwise. The suffix is never shown.
pub proof fn an_address_is_shown_by_its_beginning(id: Seq<char>, onion: Seq<char>)
    requires
        onion == id + ".onion"@ || (onion == id && forall|u: Seq<char>|
            id != #[trigger] (u + ".onion"@)),
    ensures
        encode_utf8(id).len() <= 8 ==> shortens(onion) && short(onion) == id,
        encode_utf8(id).len() > 8 && shortens(onion) ==> {
            let head = short(onion).drop_last();
            &&& short(onion).len() > 0
            &&& short(onion).last() == '…'
            &&& head.len() <= id.len()
            &&& id.take(head.len() as int) == head
            &&& encode_utf8(head).len() == 8
        },
        is_ascii_chars(id) ==> shortens(onion) && short(onion) == (if id.len() > 8 {
            id.take(8) + seq!['…']
        } else {
            id
        }),
{
    reveal_strlit("…");
    assert("…"@ =~= seq!['…']);
    a_suffix_is_taken_off_once(id, ".onion"@);
    assert(service_id(onion) == id);
    let bytes = encode_utf8(id);
    encode_utf8_valid_utf8(id);
    encode_utf8_decode_utf8(id);
    if bytes.len() > 8 && shortens(onion) {
        valid_utf8_split(bytes, 8);
        decode_utf8_split(bytes, 8);
        let head = decode_utf8(bytes.subrange(0, 8));
        decode_utf8_encode_utf8(bytes.subrange(0, 8));
        assert(short(onion) == head + seq!['…']);
        assert(short(onion).drop_last() == head);
        assert(id.take(head.len() as int) == head);
    }
    if is_ascii_chars(id) {
        is_ascii_chars_encode_utf8(id);
        lemma_ascii_id_shortens(onion);
    }
}

} // verus!
