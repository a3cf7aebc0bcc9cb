//! Accounting of recursive removal.
//!
//! A directory's children are removed first, and one failing child does not
//! stop its siblings. A failure is never a partial success: a path whose
//! removal failed reclaims nothing, and a directory whose own removal fails
//! (for instance because a child is still in it) fails as a whole. So the
//! bytes reported are those of paths that are fully gone.

use vstd::prelude::*;

verus! {

/// The failure to remove one path, with the path's bytes and the filesystem's
/// message.
#[derive(Clone, Debug, PartialEq, Eq)]
pub enum RemoveError {
    /// The path's metadata could not be read.
    FailedToInspectPath { path: Vec<u8>, cause: String },
    /// The file or link could not be removed.
    FailedToRemoveFile { path: Vec<u8>, cause: String },
    /// The directory could not be removed after its children were handled.
    FailedToRemoveDirectory { path: Vec<u8>, cause: String },
    /// The directory's children could not be listed.
    FailedToReadDirectory { path: Vec<u8>, cause: String },
}

/// What kind of filesystem entry a path is, without following a link.
#[derive(Clone, Copy, Debug, PartialEq, Eq, Structural)]
pub enum Kind {
    /// A directory.
    Directory,
    /// A regular file of `len` bytes.
    File { len: u64 },
    /// A symbolic link.
    Symlink,
    /// A device, socket, pipe or any other kind of entry.
    Other,
}

/// What removal does with an entry of a given kind.
#[derive(Clone, Copy, Debug, PartialEq, Eq, Structural)]
pub enum Action {
    /// Remove the children, then the directory itself.
    RemoveTree,
    /// Unlink the entry, which reclaims `len` bytes.
    Unlink { len: u64 },
    /// Leave the entry in place; this is a success that reclaims nothing.
    Leave,
}

/// Decides what removal does with an entry: a directory is removed with its
/// contents; a file is unlinked for its length; a symbolic link is unlinked
/// itself, never followed, and counts no bytes; any other entry is left alone.
pub fn action_for(kind: Kind) -> (r: Action)
    ensures
        r == match kind {
            Kind::Directory => Action::RemoveTree,
            Kind::File { len } => Action::Unlink { len },
            Kind::Symlink => Action::Unlink { len: 0 },
            Kind::Other => Action::Leave,
        },
{
    match kind {
        Kind::Directory => Action::RemoveTree,
        Kind::File { len } => Action::Unlink { len },
        Kind::Symlink => Action::Unlink { len: 0 },
        Kind::Other => Action::Leave,
    }
}

/// The bytes that one removal freed: its size when it succeeded, else none.
pub open spec fn reclaimed_by(outcome: Result<u64, RemoveError>) -> int {
    match outcome {
        Ok(size) => size as int,
        Err(_) => 0,
    }
}

/// The bytes freed by a sequence of removals.
pub open spec fn total_reclaimed(outcomes: Seq<Result<u64, RemoveError>>) -> int
    decreases outcomes.len(),
{
    if outcomes.len() == 0 {
        0
    } else {
        total_reclaimed(outcomes.drop_last()) + reclaimed_by(outcomes.last())
    }
}

proof fn lemma_total_nonneg(outcomes: Seq<Result<u64, RemoveError>>)
    ensures
        total_reclaimed(outcomes) >= 0,
    decreases outcomes.len(),
{
    if outcomes.len() > 0 {
        lemma_total_nonneg(outcomes.drop_last());
    }
}

/// `n` capped at the largest `u64`.
pub open spec fn capped(n: int) -> u64 {
    if n > u64::MAX { u64::MAX } else { n as u64 }
}

/// The bytes that one removal freed.
pub fn reclaimed(outcome: &Result<u64, RemoveError>) -> (r: u64)
    ensures
        r as int == reclaimed_by(*outcome),
{
    match outcome {
        Ok(size) => *size,
        Err(_) => 0,
    }
}

/// The outcome of unlinking `path`, which reclaims `len` bytes, given what the
/// filesystem answered to the removal.
pub fn file_outcome(path: Vec<u8>, len: u64, removed: Result<(), String>) -> (r: Result<u64, RemoveError>)
    ensures
        match removed {
            Ok(()) => r == Ok::<u64, RemoveError>(len),
            Err(cause) => r == Err::<u64, RemoveError>(RemoveError::FailedToRemoveFile { path, cause }),
        },
{
    match removed {
        Ok(()) => Ok(len),
        Err(cause) => Err(RemoveError::FailedToRemoveFile { path, cause }),
    }
}

/// The outcome of removing the directory `path`, given the outcomes of its
/// children and what the filesystem answered to the removal of the directory
/// itself.
///
/// When the directory is gone, it reclaims what its children reclaimed,
/// summed and capped at the largest `u64`; a failed child adds nothing.
pub fn directory_outcome(path: Vec<u8>, children: &Vec<Result<u64, RemoveError>>, removed: Result<(), String>) -> (r: Result<u64, RemoveError>)
    ensures
        match removed {
            Ok(()) => r == Ok::<u64, RemoveError>(capped(total_reclaimed(children@))),
            Err(cause) => r == Err::<u64, RemoveError>(RemoveError::FailedToRemoveDirectory { path, cause }),
        },
{
    let mut sum: u64 = 0;
    let mut k: usize = 0;
    while k < children.len()
        invariant
            k <= children@.len(),
            sum == capped(total_reclaimed(children@.take(k as int))),
        decreases children@.len() - k,
    {
        let part = reclaimed(&children[k]);
        proof {
            let s = children@.take(k + 1);
            assert(s.drop_last() =~= children@.take(k as int));
            assert(s.last() == children@[k as int]);
            lemma_total_nonneg(children@.take(k as int));
        }
        sum = sum.saturating_add(part);
        k += 1;
    }
    assert(children@.take(k as int) =~= children@);
    match removed {
        Ok(()) => Ok(sum),
        Err(cause) => Err(RemoveError::FailedToRemoveDirectory { path, cause }),
    }
}

/// The sum of a sequence of sizes.
pub open spec fn sum_sizes(sizes: Seq<u64>) -> int
    decreases sizes.len(),
{
    if sizes.len() == 0 {
        0
    } else {
        sum_sizes(sizes.drop_last()) + sizes.last() as int
    }
}

/// When every child of a directory was removed, the bytes they freed are
/// exactly the sum of their sizes.
pub proof fn full_removal_counts_every_byte(children: Seq<Result<u64, RemoveError>>, sizes: Seq<u64>)
    requires
        children.len() == sizes.len(),
        forall|i: int| 0 <= i < children.len() ==> #[trigger] children[i] == Ok::<u64, RemoveError>(sizes[i]),
    ensures
        total_reclaimed(children) == sum_sizes(sizes),
        sum_sizes(sizes) <= u64::MAX ==> capped(total_reclaimed(children)) == sum_sizes(sizes),
    decreases children.len(),
{
    if children.len() > 0 {
        let n = children.len() - 1;
        assert(children[n as int] == Ok::<u64, RemoveError>(sizes[n as int]));
        full_removal_counts_every_byte(children.drop_last(), sizes.drop_last());
    }
    lemma_total_nonneg(children);
}

/// A child whose removal failed leaves the bytes of its siblings counted as
/// if it were absent.
pub proof fn failed_child_is_skipped(children: Seq<Result<u64, RemoveError>>, k: int)
    requires
        0 <= k < children.len(),
        children[k] is Err,
    ensures
        total_reclaimed(children) == total_reclaimed(children.remove(k)),
    decreases children.len(),
{
    if k == children.len() - 1 {
        assert(children.remove(k) =~= children.drop_last());
    } else {
        failed_child_is_skipped(children.drop_last(), k);
        assert(children.remove(k).drop_last() =~= children.drop_last().remove(k));
        assert(children.remove(k).last() == children.last());
    }
}

/// Running totals of a cleanup run.
#[derive(Clone, Copy, Debug, PartialEq, Eq, Structural)]
pub struct Tally {
    /// The number of paths removed completely.
    pub removed: usize,
    /// The bytes of the paths removed, capped at the largest `u64`.
    pub reclaimed: u64,
}

impl Tally {
    /// A tally of nothing.
    pub fn new() -> (r: Tally)
        ensures
            r.removed == 0,
            r.reclaimed == 0,
    {
        Tally { removed: 0, reclaimed: 0 }
    }

    /// Adds the outcome of removing one resolved path: a success counts as a
    /// removed path and adds its size; a failure changes nothing.
    pub fn record(&mut self, outcome: &Result<u64, RemoveError>)
        ensures
            final(self).removed == if outcome is Ok {
                old(self).removed.saturating_add(1)
            } else {
                old(self).removed
            },
            final(self).reclaimed == match *outcome {
                Ok(size) => capped(old(self).reclaimed + size),
                Err(_) => old(self).reclaimed,
            },
    {
        if outcome.is_ok() {
            self.removed = self.removed.saturating_add(1);
        }
        self.reclaimed = self.reclaimed.saturating_add(reclaimed(outcome));
    }
}

} // verus!
