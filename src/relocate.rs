//! The decision that flattens redundant wrapper directories before a payload is moved.
use vstd::prelude::*;

verus! {

/// One entry of a directory listing.
#[derive(Debug, Clone, PartialEq, Eq)]
pub struct DirEntryInfo {
    pub path: String,
    pub is_dir: bool,
}

/// The directory to descend into from a directory with this listing: its only entry, when
/// that entry is itself a directory.
pub open spec fn descend_into(entries: Seq<DirEntryInfo>) -> Option<Seq<char>> {
    if entries.len() == 1 && entries[0].is_dir {
        Some(entries[0].path@)
    } else {
        None
    }
}

/// Where hoisting goes next from a directory with this listing: `Some` of the only entry
/// when it is a directory, `None` when the directory holds the payload (no entry, several,
/// or a single non-directory) and is the one to move.
pub fn hoist_next(entries: &Vec<DirEntryInfo>) -> (r: Option<String>)
    ensures
        match r {
            Some(p) => descend_into(entries@) == Some(p@),
            None => descend_into(entries@) is None,
        },
{
    if entries.len() == 1 && entries[0].is_dir {
        Some(entries[0].path.clone())
    } else {
        None
    }
}

} // verus!
