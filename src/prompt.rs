//! Confirmation modes and the reading of a yes/no answer.

use vstd::prelude::*;

verus! {

/// When a cleanup run asks before deleting.
#[derive(Clone, Copy, Debug, PartialEq, Eq, Structural)]
pub enum Mode {
    /// Never ask.
    Silent,
    /// Ask once for each entry, before expanding it.
    EveryEntry,
    /// Ask once for each resolved path, before removing it.
    EveryPath,
}

impl Mode {
    /// Whether each entry is confirmed before it is expanded.
    pub fn asks_per_entry(self) -> (r: bool)
        ensures
            r == (self == Mode::EveryEntry),
    {
        match self {
            Mode::EveryEntry => true,
            _ => false,
        }
    }

    /// Whether each resolved path is confirmed before it is removed.
    pub fn asks_per_path(self) -> (r: bool)
        ensures
            r == (self == Mode::EveryPath),
    {
        match self {
            Mode::EveryPath => true,
            _ => false,
        }
    }
}

/// What a line typed at a yes/no prompt means: `Y` (89), `y` (121) or an empty
/// line is a yes, `N` (78) or `n` (110) is a no, and anything else asks again.
pub open spec fn answer_of(line: Seq<u8>) -> Option<bool> {
    if line.len() == 0 {
        Some(true)
    } else if line.len() == 1 && (line[0] == 89u8 || line[0] == 121u8) {
        Some(true)
    } else if line.len() == 1 && (line[0] == 78u8 || line[0] == 110u8) {
        Some(false)
    } else {
        None
    }
}

/// Reads a yes/no answer from a line without its line ending; `None` when the
/// line answers neither.
pub fn answer(line: &[u8]) -> (r: Option<bool>)
    ensures
        r == answer_of(line@),
{
    if line.len() == 0 {
        Some(true)
    } else if line.len() == 1 && (line[0] == 89u8 || line[0] == 121u8) {
        Some(true)
    } else if line.len() == 1 && (line[0] == 78u8 || line[0] == 110u8) {
        Some(false)
    } else {
        None
    }
}

} // verus!
