//! The onion identity: addresses as users enter them, the persisted secret key, the address
//! that follows from it, and what the supervisor of the published service does.

use vstd::prelude::*;
use vstd::string::*;
use vstd::utf8::*;

use crate::app_laws::ascii_addresses_shorten;
use crate::app_model::shortens;
use crate::files::{FileRead, Location, locate, located};
use crate::message::{NetEvent, NetEventView};
use crate::text::{
    before, decimal, ends_in, lemma_len_before_bound, len_before, part_before, push_decimal, strip_end,
    trim, trimmed, trimmed_end, trimmed_start, white_space, without_suffix,
};

verus! {

/// Length of a serialized v3 secret key (expanded ed25519 secret key).
pub const KEY_LEN: usize = 64;

/// Seconds between two probes of the control connection.
pub const CONTROL_HEALTH_INTERVAL: u64 = 30;

/// Seconds to wait after a failed attempt to publish again.
pub const CONTROL_RETRY_DELAY: u64 = 5;

/// The virtual port of the onion service, and the port that peers are dialed on.
pub const ONION_VIRTUAL_PORT: u16 = 80;

// ── Addresses as they are entered ──────────────────────────────────────────────────────────

/// The service id in an address as a user enters it: without the white space around it, without
/// a port, and without the `.onion` suffix.
pub open spec fn normalized(input: Seq<char>) -> Seq<char> {
    without_suffix(before(trimmed(input), ':'), ".onion"@)
}

/// Strips a trailing `.onion` (and any `:port`) from a user-entered address, and the white space
/// around it, so that users can paste the service id with or without the suffix.
pub fn normalize_onion(input: &str) -> (r: String)
    ensures
        r@ == normalized(input@),
{
    // Drop an optional `:port` first, then an optional `.onion` suffix.
    let s = part_before(trim(input), ':');
    strip_end(s, ".onion").to_owned()
}

/// Whether a text is white space throughout.
pub open spec fn all_white(s: Seq<char>) -> bool {
    forall|i: int| 0 <= i < s.len() ==> white_space(#[trigger] s[i])
}

/// Whether `id` is a bare service id: it has no port, no `.onion` suffix, and no white space
/// around it.
pub open spec fn bare_id(id: Seq<char>) -> bool {
    &&& !id.contains(':')
    &&& !ends_in(id, ".onion"@)
    &&& id.len() > 0 ==> !white_space(id[0]) && !white_space(id.last())
}

/// A service id, with or without the `.onion` suffix, with or without a port, and with any white
/// space around it, names the same service.
pub proof fn every_form_names_the_service(
    id: Seq<char>,
    left: Seq<char>,
    right: Seq<char>,
    port: Seq<char>,
)
    requires
        bare_id(id),
        all_white(left),
        all_white(right),
    ensures
        normalized(left + id + right) == id,
        normalized(left + (id + ".onion"@) + right) == id,
        normalized(left + (id + seq![':'] + port) + right) == id,
        normalized(left + (id + ".onion"@ + seq![':'] + port) + right) == id,
{
    reveal_strlit(".onion");
    let suffix = ".onion"@;
    assert(suffix =~= seq!['.', 'o', 'n', 'i', 'o', 'n']);
    let full = id + suffix;
    assert(full.take(full.len() - 6) =~= id);
    assert(full.skip(full.len() - 6) =~= suffix);
    assert(!full.contains(':')) by {
        if full.contains(':') {
            let i = choose|i: int| 0 <= i < full.len() && full[i] == ':';
            if i < id.len() {
                assert(id[i] == ':');
            } else {
                assert(suffix[i - id.len()] == ':');
            }
        }
    }
    assert(full.len() > 0 ==> !white_space(full[0]) && !white_space(full.last()));
    lemma_normalized_plain(id, left, right);
    lemma_normalized_plain(full, left, right);
    lemma_normalized_port(id, left, right, port);
    lemma_normalized_port(full, left, right, port);
}

proof fn lemma_normalized_plain(t: Seq<char>, left: Seq<char>, right: Seq<char>)
    requires
        !t.contains(':'),
        t.len() > 0 ==> !white_space(t[0]) && !white_space(t.last()),
        all_white(left),
        all_white(right),
    ensures
        normalized(left + t + right) == without_suffix(t, ".onion"@),
{
    lemma_trim_padding(left, t, right);
    if t.len() == 0 {
        lemma_trim_white(right);
        assert(t + right == right);
        assert(t =~= Seq::<char>::empty());
    } else {
        assert(trimmed_start(t + right) == t + right);
        lemma_trim_end_padding(t, right);
        assert(trimmed_end(t) == t);
    }
    lemma_no_mark(t, ':');
}

/// Only what stands before the first colon is the address, and it is taken as it stands there,
/// whatever follows.
pub proof fn lemma_normalized_port(t: Seq<char>, left: Seq<char>, right: Seq<char>, port: Seq<char>)
    requires
        !t.contains(':'),
        t.len() > 0 ==> !white_space(t[0]),
        all_white(left),
        all_white(right),
    ensures
        normalized(left + (t + seq![':'] + port) + right) == without_suffix(t, ".onion"@),
{
    let whole = t + seq![':'] + port;
    lemma_trim_padding(left, whole, right);
    assert(whole + right == t.push(':') + (port + right));
    assert((whole + right)[0] == (if t.len() > 0 {
        t[0]
    } else {
        ':'
    }));
    assert(trimmed_start(whole + right) == whole + right);
    lemma_trim_end_kept(t, ':', port + right);
    lemma_mark_after(t, ':', trimmed_end(port + right));
}

/// What is left of a white text without its first or its last character is white.
proof fn lemma_rest_is_white(s: Seq<char>)
    requires
        all_white(s),
        s.len() > 0,
    ensures
        all_white(s.drop_first()),
        all_white(s.drop_last()),
{
    let rest = s.drop_first();
    assert forall|i: int| 0 <= i < rest.len() implies white_space(#[trigger] rest[i]) by {
        assert(rest[i] == s[i + 1]);
    }
}

/// What is left of a text without a mark has none either.
proof fn lemma_rest_has_no_mark(t: Seq<char>, mark: char)
    requires
        !t.contains(mark),
        t.len() > 0,
    ensures
        !t.drop_first().contains(mark),
{
    let rest = t.drop_first();
    if rest.contains(mark) {
        let i = choose|i: int| 0 <= i < rest.len() && rest[i] == mark;
        assert(t[i + 1] == mark);
    }
}

proof fn lemma_trim_padding(left: Seq<char>, t: Seq<char>, right: Seq<char>)
    requires
        all_white(left),
    ensures
        trimmed(left + t + right) == trimmed(t + right),
    decreases left.len(),
{
    if left.len() > 0 {
        assert(white_space(left[0]));
        let rest = left.drop_first();
        assert((left + t + right).drop_first() == rest + t + right);
        assert((left + t + right)[0] == left[0]);
        lemma_rest_is_white(left);
        lemma_trim_padding(rest, t, right);
    } else {
        assert(left + t + right == t + right);
    }
}

proof fn lemma_trim_white(s: Seq<char>)
    requires
        all_white(s),
    ensures
        trimmed(s) == Seq::<char>::empty(),
    decreases s.len(),
{
    if s.len() > 0 {
        let rest = s.drop_first();
        assert(white_space(s[0]));
        lemma_rest_is_white(s);
        lemma_trim_white(rest);
    } else {
        assert(s =~= Seq::<char>::empty());
    }
}

proof fn lemma_trim_end_padding(t: Seq<char>, right: Seq<char>)
    requires
        all_white(right),
    ensures
        trimmed_end(t + right) == trimmed_end(t),
    decreases right.len(),
{
    if right.len() > 0 {
        let rest = right.drop_last();
        assert(white_space(right[right.len() - 1]));
        assert((t + right).drop_last() == t + rest);
        assert((t + right).last() == right.last());
        lemma_rest_is_white(right);
        lemma_trim_end_padding(t, rest);
    } else {
        assert(t + right == t);
    }
}

proof fn lemma_trim_end_kept(t: Seq<char>, c: char, y: Seq<char>)
    requires
        !white_space(c),
    ensures
        trimmed_end(t.push(c) + y) == t.push(c) + trimmed_end(y),
    decreases y.len(),
{
    if y.len() == 0 {
        assert(t.push(c) + y == t.push(c));
        assert(t.push(c) + trimmed_end(y) == t.push(c));
    } else {
        assert((t.push(c) + y).last() == y.last());
        assert((t.push(c) + y).drop_last() == t.push(c) + y.drop_last());
        if white_space(y.last()) {
            lemma_trim_end_kept(t, c, y.drop_last());
        }
    }
}

/// A text without a mark is all before it.
pub proof fn lemma_no_mark(t: Seq<char>, mark: char)
    requires
        !t.contains(mark),
    ensures
        before(t, mark) == t,
    decreases t.len(),
{
    if t.len() > 0 {
        assert(t[0] != mark);
        let rest = t.drop_first();
        lemma_rest_has_no_mark(t, mark);
        lemma_no_mark(rest, mark);
        lemma_len_before_bound(rest, mark);
        assert(len_before(rest, mark) == rest.len()) by {
            assert(rest.take(len_before(rest, mark) as int).len() == len_before(rest, mark));
        }
    }
    assert(t.take(t.len() as int) == t);
}

/// The first mark of a text is found.
pub proof fn lemma_mark_after(t: Seq<char>, mark: char, y: Seq<char>)
    requires
        !t.contains(mark),
    ensures
        len_before(t.push(mark) + y, mark) == t.len(),
        before(t.push(mark) + y, mark) == t,
    decreases t.len(),
{
    let s = t.push(mark) + y;
    if t.len() > 0 {
        assert(t[0] != mark);
        let rest = t.drop_first();
        lemma_rest_has_no_mark(t, mark);
        assert(s.drop_first() == rest.push(mark) + y);
        assert(s[0] == t[0]);
        lemma_mark_after(rest, mark, y);
    } else {
        assert(s[0] == mark);
    }
    assert(s.take(t.len() as int) == t);
}

// ── The persisted identity ─────────────────────────────────────────────────────────────────

/// The onion address of a secret key: the name of what torut derives from the key's bytes.
pub uninterp spec fn onion_of_key(key: Seq<u8>) -> Seq<char>;

/// A character of a v3 service id: one of `a` to `z` and `2` to `7`.
pub open spec fn base32_char(c: char) -> bool {
    'a' as u32 <= c as u32 <= 'z' as u32 || '2' as u32 <= c as u32 <= '7' as u32
}

/// The form of a v3 onion address: 56 characters of base 32, then `.onion`.
pub open spec fn v3_address(s: Seq<char>) -> bool {
    &&& s.len() == 62
    &&& s.skip(56) == ".onion"@
    &&& forall|i: int| 0 <= i < 56 ==> base32_char(#[trigger] s[i])
}

/// `TorSecretKeyV3::public` and `TorPublicKeyV3::get_onion_address` of torut, with the address
/// written out.
///
/// Trusted: they derive the address from the 64 bytes of the key alone, for every key, and
/// the address is written as 56 lower-case base-32 characters (35 bytes) followed by `.onion`.
/// Which characters they are is not said.
#[verifier::external_body]
fn derive_onion(key: &[u8; 64]) -> (r: String)
    ensures
        r@ == onion_of_key(key@),
        v3_address(r@),
{
    torut::onion::TorSecretKeyV3::from(*key).public().get_onion_address().to_string()
}

/// The form of a generated secret key, an expanded ed25519 key: the scalar in its first half is
/// a multiple of eight, and its highest bit is the second from the top.
pub open spec fn clamped(key: Seq<u8>) -> bool {
    &&& key.len() == 64
    &&& key[0] % 8 == 0
    &&& 64 <= key[31] < 128
}

/// `TorSecretKeyV3::generate` of torut: a fresh random key, as its 64 bytes.
///
/// Trusted: whatever seed is drawn, the three low bits of the first byte are clear, and the two
/// top bits of the last byte of the scalar (the thirty-second) are 0 and 1, as the expansion of
/// the seed leaves them. Nothing else is said of the bytes: they rest on chance.
#[verifier::external_body]
fn generate_key() -> (r: [u8; 64])
    ensures
        clamped(r@),
{
    torut::onion::TorSecretKeyV3::generate().into_bytes()
}

/// Why there is no usable key.
pub enum KeyError<E> {
    /// The key file has the wrong length.
    Corrupt { found: usize },
    /// The key file could not be read.
    Unreadable(E),
}

impl<E> KeyError<E> {
    /// The error in words, for the key file at `path`.
    pub open spec fn words(self, path: Seq<char>) -> Seq<char> {
        match self {
            KeyError::Corrupt { found } => "identity file "@ + path
                + " is corrupt (expected 64 bytes, found "@ + decimal(found as nat) + ")"@,
            KeyError::Unreadable(_) => "failed to read identity file "@ + path,
        }
    }

    /// Puts the error in words, for the key file at `path`.
    pub fn describe(&self, path: &str) -> (r: String)
        ensures
            r@ == self.words(path@),
    {
        match self {
            KeyError::Corrupt { found } => {
                let mut out = "identity file ".to_owned();
                out.append(path);
                out.append(" is corrupt (expected 64 bytes, found ");
                push_decimal(&mut out, *found as u64);
                out.append(")");
                out
            },
            KeyError::Unreadable(_) => {
                let mut out = "failed to read identity file ".to_owned();
                out.append(path);
                out
            },
        }
    }
}

/// What a key that was just drawn makes of the secret key: it is the key, as it was drawn, and
/// it is new.
pub fn new_key<E>(drawn: [u8; 64]) -> (r: Result<([u8; 64], bool), KeyError<E>>)
    ensures
        r == Ok::<([u8; 64], bool), KeyError<E>>((drawn, true)),
{
    Ok((drawn, true))
}

/// Takes the secret key from the key file, or generates one if there is no such file. Answers
/// with the key and whether it is new and has yet to be saved.
pub fn load_or_generate_key<E>(file: FileRead<E>) -> (r: Result<([u8; 64], bool), KeyError<E>>)
    ensures
        match file {
            FileRead::Bytes(bytes) => if bytes@.len() == KEY_LEN {
                &&& r is Ok
                &&& r->Ok_0.0@ == bytes@
                &&& !r->Ok_0.1
            } else {
                r == Err::<([u8; 64], bool), KeyError<E>>(
                    KeyError::Corrupt { found: bytes@.len() as usize },
                )
            },
            FileRead::Missing => r is Ok && r->Ok_0.1 && clamped(r->Ok_0.0@),
            FileRead::Failed(e) => r == Err::<([u8; 64], bool), KeyError<E>>(
                KeyError::Unreadable(e),
            ),
        },
{
    match file {
        FileRead::Bytes(bytes) => {
            if bytes.len() != KEY_LEN {
                return Err(KeyError::Corrupt { found: bytes.len() });
            }
            let mut key: [u8; 64] = [0u8; 64];
            let mut i: usize = 0;
            while i < 64
                invariant
                    i <= 64,
                    bytes@.len() == 64,
                    key@.len() == 64,
                    forall|k: int| 0 <= k < i ==> key@[k] == bytes@[k],
                decreases 64 - i,
            {
                key[i] = bytes[i];
                i = i + 1;
            }
            assert(key@ =~= bytes@);
            Ok((key, false))
        },
        FileRead::Missing => new_key(generate_key()),
        FileRead::Failed(e) => Err(KeyError::Unreadable(e)),
    }
}

/// The identity of this instance.
pub struct Identity {
    /// Our onion address (with the `.onion` suffix).
    pub onion: String,
    /// The secret key, which the address follows from.
    pub key: [u8; 64],
    /// Whether the key was generated in this run and has yet to be saved.
    pub created: bool,
}

/// Whether `r` is what the key file `file` makes of our identity: the key that it holds, if it
/// holds one; a generated key, if there is no such file; an error, if it holds anything else or could
/// not be read. The address is that of the key, in each case.
pub open spec fn identity_loaded<E>(file: FileRead<E>, r: Result<Identity, KeyError<E>>) -> bool {
    &&& match file {
        FileRead::Bytes(bytes) => if bytes@.len() == KEY_LEN {
            &&& r is Ok
            &&& r->Ok_0.key@ == bytes@
            &&& !r->Ok_0.created
        } else {
            r == Err::<Identity, KeyError<E>>(KeyError::Corrupt { found: bytes@.len() as usize })
        },
        FileRead::Missing => r is Ok && r->Ok_0.created && clamped(r->Ok_0.key@),
        FileRead::Failed(e) => r == Err::<Identity, KeyError<E>>(KeyError::Unreadable(e)),
    }
    &&& r matches Ok(id) ==> {
        &&& id.onion@ == onion_of_key(id.key@)
        &&& v3_address(id.onion@)
        &&& shortens(id.onion@)
    }
}

/// The identity that follows from a secret key, whether loaded or drawn: the key itself and its
/// address.
pub fn identity_of(key: [u8; 64], created: bool) -> (r: Identity)
    ensures
        r.key == key,
        r.created == created,
        r.onion@ == onion_of_key(key@),
        v3_address(r.onion@),
        shortens(r.onion@),
{
    let onion = derive_onion(&key);
    proof {
        a_v3_address_shortens(onion@);
    }
    Identity { onion, key, created }
}

/// Takes the identity from the key file, or makes a new one if there is no such file.
pub fn load_identity<E>(file: FileRead<E>) -> (r: Result<Identity, KeyError<E>>)
    ensures
        identity_loaded(file, r),
{
    match load_or_generate_key(file) {
        Ok((key, created)) => Ok(identity_of(key, created)),
        Err(e) => Err(e),
    }
}

/// The address is stable across restarts: whatever way an identity came about, once its key is
/// saved, loading the saved bytes gives the same key and the same address, and nothing new is
/// created.
pub proof fn a_saved_identity_comes_back<E>(
    first_file: FileRead<E>,
    first: Identity,
    saved: Vec<u8>,
    again: Result<Identity, KeyError<E>>,
)
    requires
        identity_loaded(first_file, Ok(first)),
        saved@ == first.key@,
        identity_loaded(FileRead::Bytes(saved), again),
    ensures
        again is Ok,
        again->Ok_0.key@ == first.key@,
        again->Ok_0.onion@ == first.onion@,
        !again->Ok_0.created,
{
    assert(first.key@.len() == 64);
}

proof fn lemma_base32_is_ascii(c: char)
    requires
        base32_char(c),
    ensures
        '\0' <= c <= '\u{7f}',
{
}

/// A v3 address has a short form.
pub proof fn a_v3_address_shortens(s: Seq<char>)
    requires
        v3_address(s),
    ensures
        shortens(s),
{
    reveal_strlit(".onion");
    assert(".onion"@ =~= seq!['.', 'o', 'n', 'i', 'o', 'n']);
    assert(is_ascii_chars(s)) by {
        assert forall|i: int| 0 <= i < s.len() implies '\0' <= #[trigger] s[i] <= '\u{7f}' by {
            if i < 56 {
                assert(base32_char(s[i]));
                lemma_base32_is_ascii(s[i]);
            } else {
                assert(s[i] == s.skip(56)[i - 56]);
                let c = ".onion"@[i - 56];
                assert(c == '.' || c == 'o' || c == 'n' || c == 'i');
                assert(s[i] == c);
            }
        }
    }
    ascii_addresses_shorten(s);
}

/// What `identity_path` answers when neither a path nor a home directory is set.
pub open spec fn no_identity_path() -> Seq<char> {
    "$HOME is not set — set $HOP6_IDENTITY to choose an identity file"@
}

/// Where the key file is: at `$HOP6_IDENTITY` if that is set (`given`), else at
/// `.config/hop6/identity.key` below the home directory.
pub fn identity_path<T>(given: Option<T>, home: Option<T>) -> (r: Result<Location<T>, String>)
    ensures
        match r {
            Ok(place) => located(given, home, "identity.key"@, Some(place)),
            Err(words) => given is None && home is None && words@ == no_identity_path(),
        },
        r is Err <==> given is None && home is None,
{
    match locate(given, home, "identity.key") {
        Some(place) => Ok(place),
        None => Err(
            "$HOME is not set — set $HOP6_IDENTITY to choose an identity file".to_owned(),
        ),
    }
}

/// What is shown about where the identity came from.
pub open spec fn identity_words(created: bool, path: Seq<char>) -> Seq<char> {
    "identity "@ + (if created {
        "created new"@
    } else {
        "loaded"@
    }) + " from "@ + path
}

/// Reports where the identity came from.
pub fn identity_status(created: bool, path: &str) -> (r: NetEvent)
    ensures
        r@ == NetEventView::Status(identity_words(created, path@)),
{
    let mut out = "identity ".to_owned();
    out.append(if created { "created new" } else { "loaded" });
    out.append(" from ");
    out.append(path);
    NetEvent::Status(out)
}

// ── Keeping the service published ──────────────────────────────────────────────────────────

/// `127.0.0.1:port`.
pub open spec fn loopback_addr(port: u16) -> Seq<char> {
    "127.0.0.1:"@ + decimal(port as nat)
}

/// The loopback address that the onion service forwards to.
pub fn loopback(port: u16) -> (r: String)
    ensures
        r@ == loopback_addr(port),
{
    let mut out = "127.0.0.1:".to_owned();
    push_decimal(&mut out, port as u64);
    out
}

/// What the onion service forwards: the virtual port, and the local address behind it. It is
/// stated anew on every publish, since the key fixes only the address.
pub fn forwarding(local_port: u16) -> (r: (u16, String))
    ensures
        r.0 == ONION_VIRTUAL_PORT,
        r.1@ == loopback_addr(local_port),
{
    (ONION_VIRTUAL_PORT, loopback(local_port))
}

/// How the onion service is published.
#[derive(Debug, Clone, Copy, PartialEq, Eq, Structural)]
pub struct ServiceOptions {
    /// Whether the service outlives the control connection.
    pub detach: bool,
    /// Whether the service gives up its own anonymity.
    pub non_anonymous: bool,
    /// Whether a circuit with too many streams is closed.
    pub max_streams_close_circuit: bool,
    /// How many streams a circuit may carry, if there is a limit.
    pub max_num_streams: Option<u16>,
}

/// How our service is published: it exists only as long as the control connection that made it,
/// it is anonymous, and its circuits carry any number of streams.
pub fn service_options() -> (r: ServiceOptions)
    ensures
        !r.detach,
        !r.non_anonymous,
        !r.max_streams_close_circuit,
        r.max_num_streams is None,
{
    ServiceOptions {
        detach: false,
        non_anonymous: false,
        max_streams_close_circuit: false,
        max_num_streams: None,
    }
}

/// Where an attempt to publish the service can fail, in the order of the attempt.
#[derive(Debug, Clone, Copy, PartialEq, Eq, Structural)]
pub enum PublishFailure {
    /// The control port cannot be reached.
    Unreachable,
    /// Tor does not say how to authenticate.
    NoProtocolInfo,
    /// The authentication cookie cannot be read.
    UnreadableCookie,
    /// Tor offers no way to authenticate that we know.
    NoAuthMethod,
    /// Tor rejects the authentication.
    NotAuthenticated,
    /// Tor rejects the service.
    Rejected,
}

impl PublishFailure {
    /// The failure in words.
    pub open spec fn spoken(self) -> Seq<char> {
        match self {
            PublishFailure::Unreachable =>
                "could not reach Tor control port at 127.0.0.1:9051 — is Tor running with `ControlPort 9051`?"@,
            PublishFailure::NoProtocolInfo => "failed to read Tor PROTOCOLINFO"@,
            PublishFailure::UnreadableCookie =>
                "failed to read Tor auth cookie (is the cookie file readable by this user?)"@,
            PublishFailure::NoAuthMethod =>
                "Tor offered no usable auth method — add `CookieAuthentication 1` to your torrc"@,
            PublishFailure::NotAuthenticated => "Tor control-port authentication failed"@,
            PublishFailure::Rejected =>
                "ADD_ONION failed (control port reachable but service publish rejected)"@,
        }
    }

    /// Puts the failure in words.
    pub fn words(self) -> (r: &'static str)
        ensures
            r@ == self.spoken(),
    {
        match self {
            PublishFailure::Unreachable =>
                "could not reach Tor control port at 127.0.0.1:9051 — is Tor running with `ControlPort 9051`?",
            PublishFailure::NoProtocolInfo => "failed to read Tor PROTOCOLINFO",
            PublishFailure::UnreadableCookie =>
                "failed to read Tor auth cookie (is the cookie file readable by this user?)",
            PublishFailure::NoAuthMethod =>
                "Tor offered no usable auth method — add `CookieAuthentication 1` to your torrc",
            PublishFailure::NotAuthenticated => "Tor control-port authentication failed",
            PublishFailure::Rejected =>
                "ADD_ONION failed (control port reachable but service publish rejected)",
        }
    }
}

/// What an attempt to publish the service learns.
#[derive(Debug, Clone, Copy, PartialEq, Eq, Structural)]
pub enum PublishEvent {
    /// The attempt begins.
    Begun,
    /// The control port was reached, or not.
    Reached { ok: bool },
    /// Tor said how to authenticate, or not.
    InfoLoaded { ok: bool },
    /// The authentication data was made; it is `usable` unless Tor offered no way that we know.
    AuthMade { usable: bool },
    /// The authentication cookie could not be read.
    CookieUnread,
    /// Tor accepted the authentication, or not.
    Authenticated { ok: bool },
    /// Tor accepted the service, or not.
    Added { ok: bool },
}

/// What an attempt to publish the service does next.
#[derive(Debug, Clone, Copy, PartialEq, Eq, Structural)]
pub enum PublishAction {
    /// Connect to the control port.
    Connect,
    /// Ask Tor how to authenticate.
    LoadInfo,
    /// Make the authentication data, reading the cookie file.
    MakeAuth,
    /// Authenticate.
    Authenticate,
    /// Publish the service.
    AddOnion,
    /// The service is published: hold on to the connection.
    Hold,
    /// Give the attempt up.
    Fail(PublishFailure),
}

/// What an attempt to publish does next: connect, ask, authenticate, publish, each once the one
/// before has succeeded; the first that fails ends the attempt.
pub open spec fn publish_next(ev: PublishEvent) -> PublishAction {
    match ev {
        PublishEvent::Begun => PublishAction::Connect,
        PublishEvent::Reached { ok } => if ok {
            PublishAction::LoadInfo
        } else {
            PublishAction::Fail(PublishFailure::Unreachable)
        },
        PublishEvent::InfoLoaded { ok } => if ok {
            PublishAction::MakeAuth
        } else {
            PublishAction::Fail(PublishFailure::NoProtocolInfo)
        },
        PublishEvent::AuthMade { usable } => if usable {
            PublishAction::Authenticate
        } else {
            PublishAction::Fail(PublishFailure::NoAuthMethod)
        },
        PublishEvent::CookieUnread => PublishAction::Fail(PublishFailure::UnreadableCookie),
        PublishEvent::Authenticated { ok } => if ok {
            PublishAction::AddOnion
        } else {
            PublishAction::Fail(PublishFailure::NotAuthenticated)
        },
        PublishEvent::Added { ok } => if ok {
            PublishAction::Hold
        } else {
            PublishAction::Fail(PublishFailure::Rejected)
        },
    }
}

/// One step of an attempt to publish the service.
pub fn publish_step(ev: PublishEvent) -> (r: PublishAction)
    ensures
        r == publish_next(ev),
{
    match ev {
        PublishEvent::Begun => PublishAction::Connect,
        PublishEvent::Reached { ok: true } => PublishAction::LoadInfo,
        PublishEvent::Reached { ok: false } => PublishAction::Fail(PublishFailure::Unreachable),
        PublishEvent::InfoLoaded { ok: true } => PublishAction::MakeAuth,
        PublishEvent::InfoLoaded { ok: false } => PublishAction::Fail(
            PublishFailure::NoProtocolInfo,
        ),
        PublishEvent::AuthMade { usable: true } => PublishAction::Authenticate,
        PublishEvent::AuthMade { usable: false } => PublishAction::Fail(
            PublishFailure::NoAuthMethod,
        ),
        PublishEvent::CookieUnread => PublishAction::Fail(PublishFailure::UnreadableCookie),
        PublishEvent::Authenticated { ok: true } => PublishAction::AddOnion,
        PublishEvent::Authenticated { ok: false } => PublishAction::Fail(
            PublishFailure::NotAuthenticated,
        ),
        PublishEvent::Added { ok: true } => PublishAction::Hold,
        PublishEvent::Added { ok: false } => PublishAction::Fail(PublishFailure::Rejected),
    }
}

/// Whether an event can answer an action of an attempt to publish.
pub open spec fn answers(action: PublishAction, ev: PublishEvent) -> bool {
    match action {
        PublishAction::Connect => ev is Reached,
        PublishAction::LoadInfo => ev is InfoLoaded,
        PublishAction::MakeAuth => ev is AuthMade || ev is CookieUnread,
        PublishAction::Authenticate => ev is Authenticated,
        PublishAction::AddOnion => ev is Added,
        PublishAction::Hold | PublishAction::Fail(_) => false,
    }
}

/// Whether the event `i` of an attempt answers the action before it.
pub open spec fn attempt_answered_at(events: Seq<PublishEvent>, i: int) -> bool {
    answers(publish_next(events[i - 1]), events[i])
}

/// Whether `events` is how an attempt to publish went, from its beginning on.
pub open spec fn attempt(events: Seq<PublishEvent>) -> bool {
    &&& events.len() > 0
    &&& events[0] == PublishEvent::Begun
    &&& forall|i: int| 0 < i < events.len() ==> #[trigger] attempt_answered_at(events, i)
}

/// An attempt comes to its end after at most five answers, and it holds a published service
/// only after the control port was reached, Tor said how to authenticate, and the
/// authentication and the service were accepted, in this order.
pub proof fn an_attempt_publishes_in_order(events: Seq<PublishEvent>)
    requires
        attempt(events),
    ensures
        events.len() <= 6,
        events.len() == 6 ==> publish_next(events.last()) is Hold
            || publish_next(events.last()) is Fail,
        publish_next(events.last()) is Hold ==> events == seq![
            PublishEvent::Begun,
            PublishEvent::Reached { ok: true },
            PublishEvent::InfoLoaded { ok: true },
            PublishEvent::AuthMade { usable: true },
            PublishEvent::Authenticated { ok: true },
            PublishEvent::Added { ok: true },
        ],
{
    let n = events.len();
    assert(n > 1 ==> attempt_answered_at(events, 1));
    assert(n > 2 ==> attempt_answered_at(events, 2));
    assert(n > 3 ==> attempt_answered_at(events, 3));
    assert(n > 4 ==> attempt_answered_at(events, 4));
    assert(n > 5 ==> attempt_answered_at(events, 5));
    assert(n > 6 ==> attempt_answered_at(events, 6));
}

/// What the supervisor of the published service learns.
pub enum SupervisorEvent {
    /// The control connection was probed, and it is alive or not.
    Probed { alive: bool },
    /// An attempt to publish the service again succeeded, or failed for a reason.
    Published(Result<(), String>),
}

/// What the supervisor does next.
#[derive(Debug, Clone, Copy, PartialEq, Eq, Structural)]
pub enum SupervisorAction {
    /// Wait for the next tick, then probe the connection.
    Wait,
    /// Connect and publish the service again.
    Publish,
    /// Wait for the retry delay, then publish again.
    Retry,
}

/// What the supervisor reports.
pub open spec fn supervisor_report(ev: SupervisorEvent) -> Option<NetEventView> {
    match ev {
        SupervisorEvent::Probed { alive: true } => None,
        SupervisorEvent::Probed { alive: false } => Some(
            NetEventView::Status("Tor control connection lost — re-publishing onion…"@),
        ),
        SupervisorEvent::Published(Ok(_)) => Some(
            NetEventView::Status("onion re-published — inbound restored"@),
        ),
        SupervisorEvent::Published(Err(e)) => Some(
            NetEventView::Status("re-publish failed: "@ + e@ + " — retrying…"@),
        ),
    }
}

/// What the supervisor does next: it publishes as soon as the connection is found dead and until
/// that succeeds, and otherwise waits for the next probe.
pub open spec fn supervisor_next(ev: SupervisorEvent) -> SupervisorAction {
    match ev {
        SupervisorEvent::Probed { alive: true } => SupervisorAction::Wait,
        SupervisorEvent::Probed { alive: false } => SupervisorAction::Publish,
        SupervisorEvent::Published(Ok(_)) => SupervisorAction::Wait,
        SupervisorEvent::Published(Err(_)) => SupervisorAction::Retry,
    }
}

/// What an optional report says.
pub open spec fn report_view(report: Option<NetEvent>) -> Option<NetEventView> {
    match report {
        Some(ev) => Some(ev@),
        None => None,
    }
}

/// One step of the supervisor.
pub fn supervise(ev: SupervisorEvent) -> (r: (Option<NetEvent>, SupervisorAction))
    ensures
        report_view(r.0) == supervisor_report(ev),
        r.1 == supervisor_next(ev),
{
    match ev {
        SupervisorEvent::Probed { alive } => if alive {
            (None, SupervisorAction::Wait)
        } else {
            (
                Some(
                    NetEvent::Status(
                        "Tor control connection lost — re-publishing onion…".to_owned(),
                    ),
                ),
                SupervisorAction::Publish,
            )
        },
        SupervisorEvent::Published(Ok(_)) => (
            Some(NetEvent::Status("onion re-published — inbound restored".to_owned())),
            SupervisorAction::Wait,
        ),
        SupervisorEvent::Published(Err(e)) => {
            let mut out = "re-publish failed: ".to_owned();
            out.append(e.as_str());
            out.append(" — retrying…");
            (Some(NetEvent::Status(out)), SupervisorAction::Retry)
        },
    }
}

/// Whether an event can answer an action of the supervisor: a wait ends in a probe, and an
/// attempt to publish, at once or after the delay, ends with its outcome.
pub open spec fn supervisor_answered(action: SupervisorAction, ev: SupervisorEvent) -> bool {
    match action {
        SupervisorAction::Wait => ev is Probed,
        SupervisorAction::Publish | SupervisorAction::Retry => ev is Published,
    }
}

/// Whether the event `i` of a run answers the action before it.
pub open spec fn supervision_answered_at(events: Seq<SupervisorEvent>, i: int) -> bool {
    supervisor_answered(supervisor_next(events[i - 1]), events[i])
}

/// Whether `events` is how the supervisor fares, from its first wait on: each event answers the
/// action before it.
pub open spec fn supervised(events: Seq<SupervisorEvent>) -> bool {
    &&& events.len() > 0 ==> events[0] is Probed
    &&& forall|i: int| 0 < i < events.len() ==> #[trigger] supervision_answered_at(events, i)
}

/// Whether an event tells that the control connection was lost.
pub open spec fn tells_of_loss(ev: SupervisorEvent) -> bool {
    ev == SupervisorEvent::Probed { alive: false }
}

/// Whether an event tells that the service is published again.
pub open spec fn tells_of_success(ev: SupervisorEvent) -> bool {
    ev matches SupervisorEvent::Published(outcome) && outcome is Ok
}

/// What the supervisor reports over a run, in order.
pub open spec fn supervisor_reports(events: Seq<SupervisorEvent>) -> Seq<NetEventView>
    decreases events.len(),
{
    if events.len() == 0 {
        Seq::empty()
    } else {
        let before = supervisor_reports(events.drop_last());
        match supervisor_report(events.last()) {
            Some(report) => before.push(report),
            None => before,
        }
    }
}

/// The supervisor does not give up. Once the connection is found lost (at `lost`), it publishes
/// at once, and as long as no attempt has succeeded (up to `now`) it tries again after each
/// failure and never goes back to waiting for a probe; the loss and every attempt give one
/// report each.
pub proof fn the_supervisor_publishes_until_it_succeeds(
    events: Seq<SupervisorEvent>,
    lost: int,
    now: int,
)
    requires
        supervised(events),
        0 <= lost <= now < events.len(),
        tells_of_loss(events[lost]),
        forall|k: int| lost < k <= now ==> !tells_of_success(#[trigger] events[k]),
    ensures
        supervisor_next(events[now]) == (if now == lost {
            SupervisorAction::Publish
        } else {
            SupervisorAction::Retry
        }),
        now > lost ==> events[now] is Published,
        supervisor_reports(events.subrange(lost, now + 1)).len() == now + 1 - lost,
        supervisor_report(events[now]) is Some,
        supervisor_reports(events.subrange(lost, now + 1)).last() == supervisor_report(
            events[now],
        )->0,
    decreases now - lost,
{
    let window = events.subrange(lost, now + 1);
    assert(window.drop_last() == events.subrange(lost, now));
    assert(window.last() == events[now]);
    if now > lost {
        the_supervisor_publishes_until_it_succeeds(events, lost, now - 1);
        assert(supervision_answered_at(events, now));
        assert(!tells_of_success(events[now]));
        assert(events.subrange(lost, now - 1 + 1) == window.drop_last());
    } else {
        assert(window.drop_last().len() == 0);
        assert(supervisor_reports(window.drop_last()).len() == 0);
    }
    assert(supervisor_report(events[now]) is Some);
    assert(supervisor_reports(window) == supervisor_reports(window.drop_last()).push(
        supervisor_report(events[now])->0,
    ));
}

/// Once an attempt succeeds, the supervisor reports it and waits for the next probe; and it makes
/// no attempt but after a loss or a failure.
pub proof fn the_supervisor_attempts_only_after_a_loss(events: Seq<SupervisorEvent>, k: int)
    requires
        supervised(events),
        0 <= k < events.len(),
    ensures
        tells_of_success(events[k]) ==> {
            &&& supervisor_report(events[k]) == Some(
                NetEventView::Status("onion re-published — inbound restored"@),
            )
            &&& supervisor_next(events[k]) is Wait
            &&& k + 1 < events.len() ==> events[k + 1] is Probed
        },
        events[k] is Published ==> {
            &&& k > 0
            &&& tells_of_loss(events[k - 1]) || (events[k - 1] is Published && !tells_of_success(
                events[k - 1],
            ))
        },
{
    if k > 0 {
        assert(supervision_answered_at(events, k));
    }
    if k + 1 < events.len() {
        assert(supervision_answered_at(events, k + 1));
    }
}

} // verus!
