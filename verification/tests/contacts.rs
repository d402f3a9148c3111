use hop6::contacts::{load, path, save, Book, ContactsError};
use hop6::files::{FileRead, Location};

#[test]
fn round_trips_and_missing_file_is_empty() {
    // Missing file → empty book.
    match load::<String>(FileRead::Missing) {
        Ok(book) => assert!(book.is_empty()),
        Err(_) => panic!("no book"),
    }

    let mut book = Book::new();
    book.insert("alice".to_string(), "abc".to_string());
    let bytes = save(&book).unwrap();

    match load::<String>(FileRead::Bytes(bytes)) {
        Ok(loaded) => assert_eq!(loaded.get("alice").map(String::as_str), Some("abc")),
        Err(_) => panic!("no book"),
    }
}

#[test]
fn corrupt_file_is_rejected() {
    match load::<String>(FileRead::Bytes(b"not json".to_vec())) {
        Err(e) => {
            assert!(matches!(e, ContactsError::NotJson(_)));
            assert_eq!(e.describe("/c"), "contacts file /c is not valid JSON");
        }
        Ok(_) => panic!("accepted"),
    }
    assert!(load::<String>(FileRead::Bytes(b"{\"a\":1}".to_vec())).is_err());
    assert!(load::<String>(FileRead::Bytes(b"".to_vec())).is_err());
}

#[test]
fn unreadable_contacts_are_reported() {
    match load(FileRead::Failed("denied".to_string())) {
        Err(e) => {
            assert_eq!(e.describe("/c"), "reading contacts file /c");
            assert!(matches!(e, ContactsError::Unreadable(cause) if cause == "denied"));
        }
        Ok(_) => panic!("accepted"),
    }
}

#[test]
fn saved_books_come_back() {
    let mut book = Book::new();
    for name in ["", "bob", "quote\"", "line\nbreak", "ünïcode…", "\u{1}\\"] {
        book.insert(name.to_string(), format!("{name}{name}"));
    }
    match load::<String>(FileRead::Bytes(save(&book).unwrap())) {
        Ok(again) => assert_eq!(again, book),
        Err(_) => panic!("no book"),
    }
}

#[test]
fn the_file_is_pretty_json() {
    let mut book = Book::new();
    book.insert("alice".to_string(), "abc".to_string());
    assert_eq!(save(&book).unwrap(), b"{\n  \"alice\": \"abc\"\n}".to_vec());
    match load::<String>(FileRead::Bytes(b" {\"a\":\"1\",\"a\":\"2\"}\n".to_vec())) {
        Ok(book) => {
            assert_eq!(book.len(), 1);
            assert_eq!(book["a"], "2");
        }
        Err(_) => panic!("no book"),
    }
}

#[test]
fn contacts_file_location() {
    assert!(matches!(path(Some(1), Some(2)), Ok(Location::Given(1))));
    match path(None, Some("home")) {
        Ok(Location::UnderHome { home, names }) => {
            assert_eq!(home, "home");
            assert_eq!(names, vec![".config", "hop6", "contacts.json"]);
        }
        _ => panic!("expected a place under home"),
    }
    match path::<u8>(None, None) {
        Err(e) => assert_eq!(e, "$HOME is not set — set $HOP6_CONTACTS to choose a contacts file"),
        Ok(_) => panic!("expected an error"),
    }
}
