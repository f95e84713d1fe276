//! Where the noise reduction model is found.

use vstd::prelude::*;
use vstd::string::StrSliceExecFns;

verus! {

/// The model that a client starts with.
#[derive(Debug, Clone, PartialEq, Eq)]
pub struct StartupModel {
    pub path: Option<String>,
    /// Whether the model is loaded already.
    pub ready: bool,
}

/// The first directory that exists of those that are searched.
pub open spec fn found_model(models: bool, model: bool, dfn3: bool) -> Option<Seq<char>> {
    if models {
        Some("models"@)
    } else if model {
        Some("model"@)
    } else if dfn3 {
        Some("dfn3"@)
    } else {
        None
    }
}

/// The model to start with: the one that an earlier client loaded, or else the first directory
/// that exists of `models`, `model` and `dfn3`, to be loaded when it is needed.
pub fn startup_model(
    loaded: Option<String>,
    models: bool,
    model: bool,
    dfn3: bool,
) -> (start: StartupModel)
    ensures
        start.ready == (loaded is Some),
        match loaded {
            Some(path) => start.path == Some(path),
            None => match start.path {
                Some(path) => found_model(models, model, dfn3) == Some(path@),
                None => found_model(models, model, dfn3) is None,
            },
        },
{
    match loaded {
        Some(path) => StartupModel { path: Some(path), ready: true },
        None => {
            let path: Option<String> = if models {
                Some("models".to_string())
            } else if model {
                Some("model".to_string())
            } else if dfn3 {
                Some("dfn3".to_string())
            } else {
                None
            };
            StartupModel { path, ready: false }
        },
    }
}

/// Whether a name ends in a suffix.
pub fn ends_with(name: &str, suffix: &str) -> (ends: bool)
    ensures
        ends == (name@.len() >= suffix@.len() && name@.skip(name@.len() - suffix@.len())
            == suffix@),
{
    let len: usize = name.unicode_len();
    let tail: usize = suffix.unicode_len();
    if len < tail {
        return false;
    }
    let start: usize = len - tail;
    let mut i: usize = 0;
    while i < tail
        invariant
            i <= tail,
            tail == suffix@.len(),
            len == name@.len(),
            start == len - tail,
            forall|j: int| 0 <= j < i ==> name@.skip(start as int)[j] == #[trigger] suffix@[j],
        decreases tail - i,
    {
        if name.get_char(start + i) != suffix.get_char(i) {
            assert(name@.skip(start as int)[i as int] != suffix@[i as int]);
            return false;
        }
        i = i + 1;
    }
    assert(name@.skip(start as int) =~= suffix@);
    true
}

/// Whether a file is a packed model.
pub open spec fn is_archive(name: Seq<char>) -> bool {
    let suffix = ".tar.gz"@;
    name.len() >= suffix.len() && name.skip(name.len() - suffix.len()) == suffix
}

/// Why a directory gives no packed model.
#[derive(Debug, Clone, Copy, PartialEq, Eq, Structural)]
pub enum ArchiveError {
    /// An entry could not be read before there was one.
    Unreadable,
    /// There is none.
    Missing,
}

/// The first packed model among the entries of a directory, given the names up to the first entry
/// that could not be read, if there is such an entry. What stands behind a packed model does not
/// matter.
pub fn find_archive(names: &Vec<String>, unreadable: bool) -> (index: Result<usize, ArchiveError>)
    ensures
        match index {
            Ok(i) => {
                &&& i < names@.len()
                &&& is_archive(names@[i as int]@)
                &&& forall|j: int| 0 <= j < i ==> !is_archive((#[trigger] names@[j])@)
            },
            Err(error) => {
                &&& forall|j: int| 0 <= j < names@.len() ==> !is_archive((#[trigger] names@[j])@)
                &&& error == if unreadable {
                    ArchiveError::Unreadable
                } else {
                    ArchiveError::Missing
                }
            },
        },
{
    let mut i: usize = 0;
    while i < names.len()
        invariant
            i <= names@.len(),
            forall|j: int| 0 <= j < i ==> !is_archive((#[trigger] names@[j])@),
        decreases names@.len() - i,
    {
        if ends_with(names[i].as_str(), ".tar.gz") {
            return Ok(i);
        }
        i = i + 1;
    }
    if unreadable {
        Err(ArchiveError::Unreadable)
    } else {
        Err(ArchiveError::Missing)
    }
}

} // verus!
