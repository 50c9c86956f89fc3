//! Where the tweet data of an archive lies.

use crate::error::{ArchiverError, ErrorView};
use crate::text::{push_str, string_of};
use vstd::prelude::*;

verus! {

/// The pattern that the tweet data files of the archive under `root` match.
pub open spec fn pattern_of(root: Seq<char>) -> Seq<char> {
    root + "/data/js/tweets/*.js"@
}

/// The pattern that the tweet data files of the archive under `root` match:
/// `root` with `/data/js/tweets/*.js` behind it.
pub fn data_file_pattern(root: &str) -> (pattern: String)
    ensures
        pattern@ == pattern_of(root@),
{
    let mut pattern: Vec<char> = Vec::new();
    push_str(&mut pattern, root);
    push_str(&mut pattern, "/data/js/tweets/*.js");
    string_of(pattern.as_slice())
}

/// What it means that `count` data files were found under `root`: with none
/// of them, `root` is no archive.
pub open spec fn located(root: Seq<char>, count: nat) -> Result<(), ErrorView> {
    if count == 0 {
        Err(ErrorView::MissingTweetData(root))
    } else {
        Ok(())
    }
}

/// Accepts an archive under `root` in which `count` data files were found,
/// and fails with `MissingTweetData` for `root` where there are none.
pub fn require_data_files(root: &str, count: usize) -> (found: Result<(), ArchiverError>)
    ensures
        match found {
            Ok(_) => located(root@, count as nat) == Ok::<(), ErrorView>(()),
            Err(error) => located(root@, count as nat) == Err::<(), ErrorView>(error@),
        },
{
    if count == 0 {
        Err(ArchiverError::MissingTweetData(root.to_owned()))
    } else {
        Ok(())
    }
}

} // verus!
