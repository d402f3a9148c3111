//! What the files on disk, the onion service and the command line are for.

use vstd::prelude::*;

use crate::app::texts;
use crate::app_model::{AppActionView, AppView};
use crate::cli::{UiEvent, UiFlowView, after_ui_event, port_named};
use crate::contacts::{Book, ContactsError, book_loaded, json_book, no_contacts_path};
use crate::files::{FileRead, Location, located};
use crate::message::NetEventView;
use crate::text::{begins_with, decimal, u16_named, white_space};
use crate::text_laws::{
    a_suffix_is_taken_off_once, decimal_tells_numbers_apart, the_part_before_a_mark_ends_there,
    trimming_leaves_what_white_space_surrounds,
};
use crate::tor::{
    Identity, KeyError, SupervisorAction, SupervisorEvent, identity_loaded, identity_words,
    loopback_addr, no_identity_path, normalized, onion_of_key, supervisor_next, supervisor_report,
};

verus! {

// ── Places ─────────────────────────────────────────────────────────────────────────────────

/// A path that the user set is the place of the file, whatever the home directory is; otherwise
/// the file is in `.config/hop6` below the home directory; with neither there is no place.
pub proof fn a_given_path_comes_first<T>(
    given: Option<T>,
    home: Option<T>,
    name: Seq<char>,
    place: Option<Location<T>>,
)
    requires
        located(given, home, name, place),
    ensures
        given matches Some(path) ==> place == Some(Location::Given(path)),
        given is None && home is Some ==> {
            &&& place matches Some(Location::UnderHome { home: dir, names })
            &&& dir == home->0
            &&& names@.len() == 3
            &&& names@[0]@ == ".config"@
            &&& names@[1]@ == "hop6"@
            &&& names@[2]@ == name
        },
        given is None && home is None ==> place is None,
        no_identity_path() == "$HOME is not set — set $HOP6_IDENTITY to choose an identity file"@,
        no_contacts_path() == "$HOME is not set — set $HOP6_CONTACTS to choose a contacts file"@,
{
    if given is None && home is Some {
        let names = place->0->names@;
        assert(texts(names).len() == 3);
        assert(texts(names)[0] == names[0]@);
        assert(texts(names)[1] == names[1]@);
        assert(texts(names)[2] == names[2]@);
    }
}

// ── The identity ───────────────────────────────────────────────────────────────────────────

/// The key file decides who we are: a file of 64 bytes is the key itself, and nothing is made
/// anew; a file of any other length is an error that names its length; a file that cannot be read
/// is an error that carries the cause; and only where there is no file a key is made. In every
/// case the address is that of the key.
pub proof fn the_key_file_decides_who_we_are<E>(
    file: FileRead<E>,
    r: Result<Identity, KeyError<E>>,
)
    requires
        identity_loaded(file, r),
    ensures
        file matches FileRead::Bytes(bytes) ==> (bytes@.len() == 64 ==> {
            &&& r is Ok
            &&& r->Ok_0.key@ == bytes@
            &&& r->Ok_0.onion@ == onion_of_key(bytes@)
            &&& !r->Ok_0.created
        }),
        file matches FileRead::Bytes(bytes) ==> (bytes@.len() != 64 ==> r == Err::<
            Identity,
            KeyError<E>,
        >(KeyError::Corrupt { found: bytes@.len() as usize })),
        file matches FileRead::Failed(e) ==> r == Err::<Identity, KeyError<E>>(
            KeyError::Unreadable(e),
        ),
        file is Missing ==> {
            &&& r is Ok
            &&& r->Ok_0.created
            &&& r->Ok_0.onion@ == onion_of_key(r->Ok_0.key@)
            &&& r->Ok_0.key@[0] % 8 == 0
            &&& 64 <= r->Ok_0.key@[31] < 128
        },
        r matches Ok(id) ==> (id.created <==> file is Missing),
{
}

/// What is said about the key file.
pub proof fn the_key_file_is_named<E>(path: Seq<char>, found: usize, e: E)
    ensures
        identity_words(true, path) == "identity created new from "@ + path,
        identity_words(false, path) == "identity loaded from "@ + path,
        (KeyError::<E>::Corrupt { found }).words(path) == "identity file "@ + path
            + " is corrupt (expected 64 bytes, found "@ + decimal(found as nat) + ")"@,
        (KeyError::Unreadable(e)).words(path) == "failed to read identity file "@ + path,
{
    reveal_strlit("identity ");
    reveal_strlit("created new");
    reveal_strlit("loaded");
    reveal_strlit(" from ");
    reveal_strlit("identity created new from ");
    reveal_strlit("identity loaded from ");
    assert("identity "@ + "created new"@ + " from "@ =~= "identity created new from "@);
    assert("identity "@ + "loaded"@ + " from "@ =~= "identity loaded from "@);
}

/// An address loses one suffix and no more: whatever stands before it is the service id, even if
/// that ends in the suffix again.
pub proof fn an_address_loses_one_suffix(id: Seq<char>, left: Seq<char>, right: Seq<char>)
    requires
        !id.contains(':'),
        id.len() > 0 ==> !white_space(id[0]),
        forall|i: int| 0 <= i < left.len() ==> white_space(#[trigger] left[i]),
        forall|i: int| 0 <= i < right.len() ==> white_space(#[trigger] right[i]),
    ensures
        normalized(left + (id + ".onion"@) + right) == id,
{
    reveal_strlit(".onion");
    let suffix = ".onion"@;
    assert(suffix =~= seq!['.', 'o', 'n', 'i', 'o', 'n']);
    let full = id + suffix;
    assert(!full.contains(':')) by {
        if full.contains(':') {
            let i = choose|i: int| 0 <= i < full.len() && full[i] == ':';
            if i < id.len() {
                assert(id[i] == ':');
            } else {
                assert(suffix[i - id.len()] == ':');
            }
        }
    }
    trimming_leaves_what_white_space_surrounds(left, full, right);
    the_part_before_a_mark_ends_there(full, ':', Seq::empty());
    a_suffix_is_taken_off_once(id, suffix);
}

// ── Keeping the service published ──────────────────────────────────────────────────────────

/// The supervisor says what happens to the connection, with the reason of each failure, and says
/// nothing while it is alive; it publishes at once on a loss, after a delay on a failure, and
/// otherwise waits.
pub proof fn the_supervisor_says_what_happens(reason: String)
    ensures
        supervisor_report(SupervisorEvent::Probed { alive: true }) is None,
        supervisor_next(SupervisorEvent::Probed { alive: true }) == SupervisorAction::Wait,
        supervisor_report(SupervisorEvent::Probed { alive: false }) == Some(
            NetEventView::Status("Tor control connection lost — re-publishing onion…"@),
        ),
        supervisor_next(SupervisorEvent::Probed { alive: false }) == SupervisorAction::Publish,
        supervisor_report(SupervisorEvent::Published(Err(reason))) == Some(
            NetEventView::Status("re-publish failed: "@ + reason@ + " — retrying…"@),
        ),
        supervisor_next(SupervisorEvent::Published(Err(reason))) == SupervisorAction::Retry,
        supervisor_report(SupervisorEvent::Published(Ok(()))) == Some(
            NetEventView::Status("onion re-published — inbound restored"@),
        ),
        supervisor_next(SupervisorEvent::Published(Ok(()))) == SupervisorAction::Wait,
{
}

/// The local address is the loopback address with the port behind it, so that two ports give two
/// addresses.
pub proof fn each_port_has_its_own_address(a: u16, b: u16)
    ensures
        loopback_addr(a) == "127.0.0.1:"@ + decimal(a as nat),
        a != b ==> loopback_addr(a) != loopback_addr(b),
{
    let p = "127.0.0.1:"@;
    if loopback_addr(a) == loopback_addr(b) {
        assert((p + decimal(a as nat)).skip(p.len() as int) == decimal(a as nat));
        assert((p + decimal(b as nat)).skip(p.len() as int) == decimal(b as nat));
        decimal_tells_numbers_apart(a as nat, b as nat);
    }
}

// ── The address book ───────────────────────────────────────────────────────────────────────

/// The file decides what the address book holds: what its bytes stand for, or an error where they
/// stand for nothing; no entry at all where there is no file; an error with its cause where the
/// file cannot be read. It is never an empty book in place of an error.
pub proof fn the_file_decides_what_the_book_holds<E>(
    file: FileRead<E>,
    r: Result<Book, ContactsError<E>>,
    name: Seq<char>,
)
    requires
        book_loaded(file, r),
    ensures
        file matches FileRead::Bytes(bytes) ==> (json_book(bytes@) matches Some(book) ==> r is Ok
            && r->Ok_0.deep_view() == book),
        file matches FileRead::Bytes(bytes) ==> (json_book(bytes@) is None ==> r is Err
            && r->Err_0 is NotJson),
        file is Missing ==> r is Ok && !r->Ok_0.deep_view().contains_key(name),
        file matches FileRead::Failed(e) ==> r == Err::<Book, ContactsError<E>>(
            ContactsError::Unreadable(e),
        ),
{
}

/// What is said about the address-book file.
pub proof fn the_book_file_is_named<E>(path: Seq<char>, cause: serde_json::Error, e: E)
    ensures
        (ContactsError::<E>::NotJson(cause)).words(path) == "contacts file "@ + path
            + " is not valid JSON"@,
        (ContactsError::Unreadable(e)).words(path) == "reading contacts file "@ + path,
{
}

// ── The command line ───────────────────────────────────────────────────────────────────────

/// The first port option decides: arguments before it that are no port option do not matter,
/// arguments behind it do not matter either, its value is the port or there is none, and without
/// a port option there is none.
pub proof fn the_first_port_option_decides(
    skipped: Seq<Seq<char>>,
    flag: Seq<char>,
    value: Seq<char>,
    rest: Seq<Seq<char>>,
)
    requires
        forall|i: int|
            0 <= i < skipped.len() ==> #[trigger] skipped[i] != "--port"@ && skipped[i] != "-p"@
                && forall|tail: Seq<char>| skipped[i] != #[trigger] ("--port="@ + tail),
        flag == "--port"@ || flag == "-p"@,
    ensures
        port_named(skipped) is None,
        port_named(skipped + seq![flag, value] + rest) == u16_named(value),
        port_named(skipped + seq![flag]) is None,
        port_named(skipped + seq!["--port="@ + value] + rest) == u16_named(value),
    decreases skipped.len(),
{
    reveal_strlit("--port");
    reveal_strlit("--port=");
    reveal_strlit("-p");
    let joined = "--port="@ + value;
    assert(joined.take(7) == "--port="@);
    assert(joined.skip(7) == value);
    assert("--port"@.len() == 6 && "-p"@.len() == 2 && "--port="@.len() == 7);
    assert(joined != "--port"@ && joined != "-p"@);
    if skipped.len() == 0 {
        assert(skipped + seq![flag, value] + rest == seq![flag, value] + rest);
        assert((seq![flag, value] + rest)[0] == flag);
        assert((seq![flag, value] + rest)[1] == value);
        assert(skipped + seq![flag] == seq![flag]);
        assert(skipped + seq![joined] + rest == seq![joined] + rest);
        assert((seq![joined] + rest)[0] == joined);
    } else {
        let tail = skipped.drop_first();
        let first = skipped[0];
        assert(!begins_with(first, "--port="@)) by {
            if begins_with(first, "--port="@) {
                assert(first == "--port="@ + first.skip(7));
            }
        }
        assert forall|i: int| 0 <= i < tail.len() implies #[trigger] tail[i] != "--port"@ && tail[i]
            != "-p"@ && forall|t: Seq<char>| tail[i] != #[trigger] ("--port="@ + t) by {
            assert(tail[i] == skipped[i + 1]);
        }
        the_first_port_option_decides(tail, flag, value, rest);
        let a = skipped + seq![flag, value] + rest;
        let b = skipped + seq![flag];
        let c = skipped + seq![joined] + rest;
        assert(a.drop_first() == tail + seq![flag, value] + rest);
        assert(b.drop_first() == tail + seq![flag]);
        assert(c.drop_first() == tail + seq![joined] + rest);
        assert(a[0] == first && b[0] == first && c[0] == first);
    }
}

// ── The terminal loop ──────────────────────────────────────────────────────────────────────

/// The loop hands every pressed key and every network event to the application, once, and nothing
/// else changes the application; it forwards each command as it is, and it ends exactly when the
/// user quits, when the input ends, or with the error when the input fails.
pub proof fn the_loop_hands_on_what_it_gets(v: AppView, ev: UiEvent)
    ensures
        ev matches UiEvent::Key { press, key } ==> {
            &&& press ==> after_ui_event(v, ev).0 == v.after_key(key).0
            &&& press ==> (after_ui_event(v, ev).1 is Stop <==> v.after_key(key).1 == Some(
                AppActionView::Quit,
            ))
            &&& press ==> (v.after_key(key).1 is None ==> after_ui_event(v, ev).1 is Continue)
            &&& press ==> (v.after_key(key).1 matches Some(
                AppActionView::Command(cmd),
            ) ==> after_ui_event(v, ev).1 == UiFlowView::Forward(cmd))
            &&& !press ==> after_ui_event(v, ev) == (v, UiFlowView::Continue)
        },
        ev matches UiEvent::Net(e) ==> after_ui_event(v, ev) == (
            v.after_event(e@),
            UiFlowView::Continue,
        ),
        ev is OtherInput || ev is Tick ==> after_ui_event(v, ev) == (v, UiFlowView::Continue),
        ev is InputClosed ==> after_ui_event(v, ev) == (v, UiFlowView::Stop),
        ev matches UiEvent::InputFailed(e) ==> after_ui_event(v, ev) == (v, UiFlowView::Fail(e@)),
{
}

} // verus!
