//! What reading a file gave, and where the program keeps its files.

use vstd::prelude::*;

use crate::app::texts;

verus! {

/// What an attempt to read a whole file gave.
pub enum FileRead<E> {
    /// The file's bytes.
    Bytes(Vec<u8>),
    /// There is no such file.
    Missing,
    /// The file could not be read.
    Failed(E),
}

/// Where a file is.
pub enum Location<T> {
    /// At a path that the user gave.
    Given(T),
    /// Below the home directory, at the end of a chain of names.
    UnderHome { home: T, names: Vec<String> },
}

/// The chain of names below the home directory for the file `name` of this program.
pub open spec fn config_names(name: Seq<char>) -> Seq<Seq<char>> {
    seq![".config"@, "hop6"@, name]
}

/// Whether `r` is where the file `name` is: at the path that was given, if one was; otherwise
/// under the home directory, if there is one; nowhere, if there is neither.
pub open spec fn located<T>(
    given: Option<T>,
    home: Option<T>,
    name: Seq<char>,
    r: Option<Location<T>>,
) -> bool {
    match given {
        Some(path) => r == Some(Location::Given(path)),
        None => match home {
            Some(dir) => {
                &&& r is Some
                &&& r->0 is UnderHome
                &&& r->0->home == dir
                &&& texts(r->0->names@) == config_names(name)
            },
            None => r is None,
        },
    }
}

/// Finds the file `name`, given the path that the user set for it and the home directory.
pub fn locate<T>(given: Option<T>, home: Option<T>, name: &str) -> (r: Option<Location<T>>)
    ensures
        located(given, home, name@, r),
{
    match given {
        Some(path) => Some(Location::Given(path)),
        None => match home {
            Some(home) => {
                let mut names: Vec<String> = Vec::new();
                names.push(".config".to_owned());
                names.push("hop6".to_owned());
                names.push(name.to_owned());
                assert(texts(names@) =~= config_names(name@));
                Some(Location::UnderHome { home, names })
            },
            None => None,
        },
    }
}

} // verus!
