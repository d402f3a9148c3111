//! The persistent address book: names for onion addresses, kept as JSON. Reading and writing
//! the file itself happens outside; here it is decided what its bytes mean.

use std::collections::HashMap;

use vstd::prelude::*;
use vstd::std_specs::hash::*;
use vstd::string::*;

use crate::files::{FileRead, Location, locate, located};

verus! {

/// From a name to the bare onion service id (without the `.onion` suffix).
pub type Book = HashMap<String, String>;

/// The address book that a file's bytes stand for, if they stand for one: the name of what
/// `serde_json::from_slice` reads from them.
pub uninterp spec fn json_book(bytes: Seq<u8>) -> Option<Map<Seq<char>, Seq<char>>>;

/// `serde_json::from_slice` into a map from strings to strings.
///
/// Trusted: whether it succeeds, and which names it maps to which ids, follows from the bytes
/// alone. Which bytes are accepted is not said.
#[verifier::external_body]
fn parse_book(bytes: &Vec<u8>) -> (r: Result<Book, serde_json::Error>)
    ensures
        r is Ok <==> json_book(bytes@) is Some,
        r is Ok ==> json_book(bytes@) == Some(r->Ok_0.deep_view()),
{
    serde_json::from_slice(bytes)
}

/// `serde_json::to_vec_pretty` on a map from strings to strings.
///
/// Trusted: it does not fail, and `serde_json::from_slice` reads the same map back from what
/// it gives. The bytes themselves are not said: the order of the entries is that of the map.
#[verifier::external_body]
fn write_book(book: &Book) -> (r: Result<Vec<u8>, serde_json::Error>)
    ensures
        r is Ok,
        json_book(r->Ok_0@) == Some(book.deep_view()),
{
    serde_json::to_vec_pretty(book)
}

/// Why there is no address book.
pub enum ContactsError<E> {
    /// The file does not hold an address book.
    NotJson(serde_json::Error),
    /// The file could not be read.
    Unreadable(E),
}

impl<E> ContactsError<E> {
    /// The error in words, for the file at `path`.
    pub open spec fn words(self, path: Seq<char>) -> Seq<char> {
        match self {
            ContactsError::NotJson(_) => "contacts file "@ + path + " is not valid JSON"@,
            ContactsError::Unreadable(_) => "reading contacts file "@ + path,
        }
    }

    /// Puts the error in words, for the file at `path`.
    pub fn describe(&self, path: &str) -> (r: String)
        ensures
            r@ == self.words(path@),
    {
        match self {
            ContactsError::NotJson(_) => {
                let mut out = "contacts file ".to_owned();
                out.append(path);
                out.append(" is not valid JSON");
                out
            },
            ContactsError::Unreadable(_) => {
                let mut out = "reading contacts file ".to_owned();
                out.append(path);
                out
            },
        }
    }
}

/// Whether `r` is the address book of the file `file`: what it says, if its bytes stand for an
/// address book; an empty one, if there is no such file; an error, if it is corrupt or could not
/// be read.
pub open spec fn book_loaded<E>(file: FileRead<E>, r: Result<Book, ContactsError<E>>) -> bool {
    match file {
        FileRead::Bytes(bytes) => match json_book(bytes@) {
            Some(book) => r is Ok && r->Ok_0.deep_view() == book,
            None => r is Err && r->Err_0 is NotJson,
        },
        FileRead::Missing => r is Ok && r->Ok_0.deep_view() == Map::<
            Seq<char>,
            Seq<char>,
        >::empty(),
        FileRead::Failed(e) => r == Err::<Book, ContactsError<E>>(ContactsError::Unreadable(e)),
    }
}

/// An address book without entries.
pub fn empty_book() -> (r: Book)
    ensures
        r.deep_view() == Map::<Seq<char>, Seq<char>>::empty(),
{
    let book: Book = HashMap::new();
    proof {
        lemma_hashmap_deepview_dom(book);
        assert(book.deep_view().dom() =~= Set::<Seq<char>>::empty());
        assert(book.deep_view() =~= Map::<Seq<char>, Seq<char>>::empty());
    }
    book
}

/// What a parse of the file's bytes makes of the address book.
pub fn parsed<E>(outcome: Result<Book, serde_json::Error>) -> (r: Result<Book, ContactsError<E>>)
    ensures
        match outcome {
            Ok(book) => r == Ok::<Book, ContactsError<E>>(book),
            Err(e) => r == Err::<Book, ContactsError<E>>(ContactsError::NotJson(e)),
        },
{
    match outcome {
        Ok(book) => Ok(book),
        Err(e) => Err(ContactsError::NotJson(e)),
    }
}

/// Takes the address book from its file. A missing file yields an empty book; a corrupt file is
/// an error.
pub fn load<E>(file: FileRead<E>) -> (r: Result<Book, ContactsError<E>>)
    ensures
        book_loaded(file, r),
{
    match file {
        FileRead::Bytes(bytes) => parsed(parse_book(&bytes)),
        FileRead::Missing => Ok(empty_book()),
        FileRead::Failed(e) => Err(ContactsError::Unreadable(e)),
    }
}

/// Whether `r` are bytes that stand for `book`.
pub open spec fn book_saved(book: Book, r: Result<Vec<u8>, serde_json::Error>) -> bool {
    r is Ok && json_book(r->Ok_0@) == Some(book.deep_view())
}

/// The bytes to keep an address book in.
pub fn save(book: &Book) -> (r: Result<Vec<u8>, serde_json::Error>)
    ensures
        book_saved(*book, r),
{
    write_book(book)
}

/// An address book that was saved is loaded again as it was.
pub proof fn a_saved_book_comes_back<E>(
    book: Book,
    saved: Vec<u8>,
    again: Result<Book, ContactsError<E>>,
)
    requires
        book_saved(book, Ok(saved)),
        book_loaded(FileRead::Bytes(saved), again),
    ensures
        again is Ok,
        again->Ok_0.deep_view() == book.deep_view(),
{
}

/// What `path` answers when neither a path nor a home directory is set.
pub open spec fn no_contacts_path() -> Seq<char> {
    "$HOME is not set — set $HOP6_CONTACTS to choose a contacts file"@
}

/// Where the address book is: at `$HOP6_CONTACTS` if that is set (`given`), else at
/// `.config/hop6/contacts.json` below the home directory.
pub fn path<T>(given: Option<T>, home: Option<T>) -> (r: Result<Location<T>, String>)
    ensures
        match r {
            Ok(place) => located(given, home, "contacts.json"@, Some(place)),
            Err(words) => given is None && home is None && words@ == no_contacts_path(),
        },
        r is Err <==> given is None && home is None,
{
    match locate(given, home, "contacts.json") {
        Some(place) => Ok(place),
        None => Err("$HOME is not set — set $HOP6_CONTACTS to choose a contacts file".to_owned()),
    }
}

} // verus!
