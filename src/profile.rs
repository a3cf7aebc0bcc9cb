//! Profiles and their entries, and the expansion of an entry into the paths it
//! hands on for deletion.

use vstd::prelude::*;
use crate::order::Candidate;
use crate::ranking::{RetentionRule, is_selection, select, views};

verus! {

/// The error that glob reports for a pattern it cannot compile.
#[verifier::external_type_specification]
#[verifier::external_body]
pub struct ExPatternError(glob::PatternError);

/// A named list of cleanup entries.
#[derive(Debug)]
pub struct Profile {
    /// The display name.
    pub name: String,
    /// The entries to expand for removal, in the order they are processed.
    pub entries: Vec<Entry>,
}

/// One declarative cleanup target.
#[derive(Debug)]
pub enum Entry {
    /// A single file or directory, taken verbatim.
    Path {
        /// The bytes of the path.
        path: Vec<u8>,
    },
    /// A glob pattern matching zero or more files or directories.
    Pattern {
        /// The pattern to match.
        pattern: String,
        /// The rule that keeps some matches from deletion, if any.
        retention: Option<RetentionRule>,
    },
}

/// The failure to expand an entry.
#[derive(Debug)]
pub enum EntryError {
    /// The entry's glob pattern does not compile.
    FailedToParse {
        /// The text of the pattern.
        pattern: String,
        /// What glob reported.
        error: glob::PatternError,
    },
}

impl Entry {
    /// The glob pattern whose filesystem matches this entry needs, if any.
    pub fn pattern(&self) -> (r: Option<&String>)
        ensures
            match *self {
                Entry::Path { .. } => r.is_none(),
                Entry::Pattern { pattern, .. } => r == Some(&pattern),
            },
    {
        match self {
            Entry::Path { .. } => None,
            Entry::Pattern { pattern, .. } => Some(pattern),
        }
    }

    /// Expands the entry to the paths it hands on for deletion.
    ///
    /// `found` is what enumerating the entry's pattern gave: its matches in
    /// enumeration order, or the error that refused the pattern. A path entry
    /// does not read it and always expands to its own path, whether or not
    /// that path exists.
    pub fn expand(self, found: Result<Vec<Candidate>, glob::PatternError>) -> (r: Result<Vec<Vec<u8>>, EntryError>)
        ensures
            match self {
                Entry::Path { path } => r matches Ok(v) && views(v@) == seq![path@],
                Entry::Pattern { pattern, retention } => match found {
                    Err(error) => r == Err::<Vec<Vec<u8>>, EntryError>(EntryError::FailedToParse { pattern, error }),
                    Ok(c) => r matches Ok(v) && is_selection(retention, c@, views(v@)),
                },
            },
    {
        match self {
            Entry::Path { path } => {
                let mut v: Vec<Vec<u8>> = Vec::new();
                v.push(path);
                assert(views(v@) =~= seq![v@[0]@]);
                Ok(v)
            },
            Entry::Pattern { pattern, retention } => match found {
                Err(error) => Err(EntryError::FailedToParse { pattern, error }),
                Ok(c) => Ok(select(&c, retention)),
            },
        }
    }
}

} // verus!
