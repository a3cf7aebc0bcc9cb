//! How the matches of a pattern are ranked against each other.

use vstd::prelude::*;

verus! {

/// The key by which the matches of a pattern are ranked.
#[derive(Clone, Copy, Debug, PartialEq, Eq, Structural)]
pub enum Order {
    /// The last component of the path, compared byte by byte.
    FileName,
    /// The creation timestamp.
    Created,
    /// The last modification timestamp.
    Modified,
}

/// One filesystem match of a pattern, with the metadata that ranking reads.
///
/// A missing value (`None`) stands for metadata that could not be read; it
/// ranks below every present value.
#[derive(Clone, Debug)]
pub struct Candidate {
    /// The bytes of the matched path.
    pub path: Vec<u8>,
    /// The bytes of the last path component, if the path has one.
    pub name: Option<Vec<u8>>,
    /// Nanoseconds from the Unix epoch to the creation time.
    pub created: Option<i128>,
    /// Nanoseconds from the Unix epoch to the last modification.
    pub modified: Option<i128>,
}

/// Three-way lexicographic comparison of byte strings: -1, 0 or 1.
pub open spec fn bytes_cmp(a: Seq<u8>, b: Seq<u8>) -> int
    decreases a.len(),
{
    if a.len() == 0 {
        if b.len() == 0 { 0 } else { -1 }
    } else if b.len() == 0 {
        1
    } else if a[0] < b[0] {
        -1
    } else if a[0] > b[0] {
        1
    } else {
        bytes_cmp(a.drop_first(), b.drop_first())
    }
}

pub open spec fn int_cmp(a: int, b: int) -> int {
    if a < b { -1 } else if a > b { 1 } else { 0 }
}

/// Three-way comparison of optional values, where `None` ranks lowest.
pub open spec fn name_cmp(a: Option<Vec<u8>>, b: Option<Vec<u8>>) -> int {
    match (a, b) {
        (None, None) => 0,
        (None, Some(_)) => -1,
        (Some(_), None) => 1,
        (Some(x), Some(y)) => bytes_cmp(x@, y@),
    }
}

pub open spec fn stamp_cmp(a: Option<i128>, b: Option<i128>) -> int {
    match (a, b) {
        (None, None) => 0,
        (None, Some(_)) => -1,
        (Some(_), None) => 1,
        (Some(x), Some(y)) => int_cmp(x as int, y as int),
    }
}

/// Three-way comparison of two matches by the key that `order` selects.
pub open spec fn key_cmp(order: Order, a: Candidate, b: Candidate) -> int {
    match order {
        Order::FileName => name_cmp(a.name, b.name),
        Order::Created => stamp_cmp(a.created, b.created),
        Order::Modified => stamp_cmp(a.modified, b.modified),
    }
}

pub proof fn lemma_bytes_cmp_props(a: Seq<u8>, b: Seq<u8>)
    ensures
        -1 <= bytes_cmp(a, b) <= 1,
        bytes_cmp(a, b) == -bytes_cmp(b, a),
        bytes_cmp(a, b) == 0 ==> a == b,
    decreases a.len(),
{
    if a.len() > 0 && b.len() > 0 && a[0] == b[0] {
        lemma_bytes_cmp_props(a.drop_first(), b.drop_first());
        if bytes_cmp(a, b) == 0 {
            assert(a =~= seq![a[0]] + a.drop_first());
            assert(b =~= seq![b[0]] + b.drop_first());
        }
    }
    if a.len() == 0 && b.len() == 0 {
        assert(a =~= b);
    }
}

pub proof fn lemma_bytes_cmp_trans(a: Seq<u8>, b: Seq<u8>, c: Seq<u8>)
    requires
        bytes_cmp(a, b) == 1,
        bytes_cmp(b, c) == 1,
    ensures
        bytes_cmp(a, c) == 1,
    decreases a.len(),
{
    if a.len() > 0 && b.len() > 0 && c.len() > 0 && a[0] == b[0] && b[0] == c[0] {
        lemma_bytes_cmp_trans(a.drop_first(), b.drop_first(), c.drop_first());
    }
}

/// Comparison by key answers -1, 0 or 1, and swapping its arguments negates
/// the answer.
pub proof fn lemma_key_cmp_props(order: Order, a: Candidate, b: Candidate)
    ensures
        -1 <= key_cmp(order, a, b) <= 1,
        key_cmp(order, a, b) == -key_cmp(order, b, a),
{
    if let (Some(x), Some(y)) = (a.name, b.name) {
        lemma_bytes_cmp_props(x@, y@);
    }
}

pub proof fn lemma_key_cmp_trans(order: Order, a: Candidate, b: Candidate, c: Candidate)
    requires
        key_cmp(order, a, b) >= 0,
        key_cmp(order, b, c) >= 0,
    ensures
        key_cmp(order, a, c) >= 0,
        key_cmp(order, a, b) == 1 || key_cmp(order, b, c) == 1 ==> key_cmp(order, a, c) == 1,
{
    if order == Order::FileName {
        if let (Some(x), Some(y), Some(z)) = (a.name, b.name, c.name) {
            lemma_bytes_cmp_props(x@, y@);
            lemma_bytes_cmp_props(y@, z@);
            lemma_bytes_cmp_props(x@, z@);
            if bytes_cmp(x@, y@) == 1 && bytes_cmp(y@, z@) == 1 {
                lemma_bytes_cmp_trans(x@, y@, z@);
            }
        }
    }
}

fn compare_bytes(a: &Vec<u8>, b: &Vec<u8>) -> (r: i8)
    ensures
        r as int == bytes_cmp(a@, b@),
{
    let mut i: usize = 0;
    assert(a@.skip(0) =~= a@);
    assert(b@.skip(0) =~= b@);
    while i < a.len() && i < b.len()
        invariant
            i <= a.len(),
            i <= b.len(),
            bytes_cmp(a@, b@) == bytes_cmp(a@.skip(i as int), b@.skip(i as int)),
            forall|t: int| 0 <= t < i ==> a@[t] == b@[t],
        decreases a.len() - i,
    {
        assert(a@.skip(i as int).drop_first() =~= a@.skip(i + 1));
        assert(b@.skip(i as int).drop_first() =~= b@.skip(i + 1));
        if a[i] < b[i] {
            return -1;
        } else if a[i] > b[i] {
            return 1;
        }
        i += 1;
    }
    if i < a.len() {
        1
    } else if i < b.len() {
        -1
    } else {
        0
    }
}

fn compare_stamps(a: Option<i128>, b: Option<i128>) -> (r: i8)
    ensures
        r as int == stamp_cmp(a, b),
{
    match (a, b) {
        (None, None) => 0,
        (None, Some(_)) => -1,
        (Some(_), None) => 1,
        (Some(x), Some(y)) => if x < y {
            -1
        } else if x > y {
            1
        } else {
            0
        },
    }
}

/// Compares two matches by the key that `order` selects: -1, 0 or 1.
pub fn compare(order: Order, a: &Candidate, b: &Candidate) -> (r: i8)
    ensures
        r as int == key_cmp(order, *a, *b),
{
    match order {
        Order::FileName => match (&a.name, &b.name) {
            (None, None) => 0,
            (None, Some(_)) => -1,
            (Some(_), None) => 1,
            (Some(x), Some(y)) => compare_bytes(x, y),
        },
        Order::Created => compare_stamps(a.created, b.created),
        Order::Modified => compare_stamps(a.modified, b.modified),
    }
}

} // verus!
