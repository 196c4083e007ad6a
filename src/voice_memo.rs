//! A memo file known to exist when it was admitted for processing.

use vstd::prelude::*;
use vstd::string::StringExecFns;

verus! {

/// Text that starts the message of a rejected memo path.
pub const INVALID_MEMO_PREFIX: &'static str = "Invalid path to voice memo provided -> ";

/// A voice memo: the path of a regular file at the time it was admitted.
pub struct VoiceMemo {
    pub path: String,
}

/// Why a path was not admitted as a memo.
#[derive(Debug, Clone, PartialEq, Eq)]
pub enum MemoError {
    /// The path does not name an existing regular file.
    InvalidPath(String),
}

impl MemoError {
    /// A message naming the rejected path.
    pub fn message(&self) -> (r: String)
        ensures
            r@ == INVALID_MEMO_PREFIX@ + self->InvalidPath_0@,
    {
        match self {
            MemoError::InvalidPath(p) => {
                let mut text = String::from_str(INVALID_MEMO_PREFIX);
                text.append(p.as_str());
                text
            },
        }
    }
}

impl VoiceMemo {
    /// Admits `path` as a memo when it names an existing regular file, as
    /// `is_file` reports.
    pub fn new(path: &str, is_file: bool) -> (r: Result<VoiceMemo, MemoError>)
        ensures
            is_file ==> r is Ok && r->Ok_0.path@ == path@,
            !is_file ==> r is Err && r->Err_0->InvalidPath_0@ == path@,
    {
        if !is_file {
            return Err(MemoError::InvalidPath(String::from_str(path)));
        }
        Ok(VoiceMemo { path: String::from_str(path) })
    }
}

} // verus!
