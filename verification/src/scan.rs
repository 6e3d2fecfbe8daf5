//! Byte-level primitives the multipart decoder is built on: matching a
//! pattern at a position, finding the first occurrence of a pattern in a
//! range, copying a range out of a buffer, and comparing byte strings.

use vstd::prelude::*;

verus! {

/// Carriage return.
pub const CR: u8 = 13;
/// Line feed.
pub const LF: u8 = 10;
/// ASCII '-'.
pub const DASH: u8 = 45;

/// The pattern `n` occurs in `h` at position `i`.
pub open spec fn match_at(h: Seq<u8>, n: Seq<u8>, i: int) -> bool {
    0 <= i && i + n.len() <= h.len() && h.subrange(i, i + n.len() as int) == n
}

/// The first position in `[from, to - n.len()]` where the non-empty pattern
/// `n` occurs in `h`, if any; positions are searched in increasing order.
pub open spec fn spec_find(h: Seq<u8>, n: Seq<u8>, from: int, to: int) -> Option<int>
    decreases to - from,
{
    if from < 0 || n.len() == 0 || from + n.len() > to || to > h.len() {
        None
    } else if h.subrange(from, from + n.len() as int) == n {
        Some(from)
    } else {
        spec_find(h, n, from + 1, to)
    }
}

/// A found occurrence lies inside the searched range.
pub proof fn lemma_find_in_range(h: Seq<u8>, n: Seq<u8>, from: int, to: int)
    ensures
        spec_find(h, n, from, to).is_some() ==> {
            let i = spec_find(h, n, from, to).unwrap();
            from <= i && i + n.len() <= to && to <= h.len()
        },
    decreases to - from,
{
    if !(from < 0 || n.len() == 0 || from + n.len() > to || to > h.len()) {
        if h.subrange(from, from + n.len() as int) == n {
        } else {
            lemma_find_in_range(h, n, from + 1, to);
        }
    }
}

/// Does `n` occur in `h` at position `i`?
pub fn match_at_exec(h: &Vec<u8>, n: &Vec<u8>, i: usize) -> (r: bool)
    ensures
        r == match_at(h@, n@, i as int),
{
    if i > h.len() || h.len() - i < n.len() {
        return false;
    }
    let mut j: usize = 0;
    while j < n.len()
        invariant
            j <= n.len(),
            i + n.len() <= h.len(),
            forall|k: int| 0 <= k < j ==> h@[i + k] == n@[k],
        decreases n.len() - j,
    {
        if h[i + j] != n[j] {
            assert(h@.subrange(i as int, i + n@.len() as int) != n@) by {
                assert(h@.subrange(i as int, i + n@.len() as int)[j as int] == h@[i + j]);
            }
            return false;
        }
        j = j + 1;
    }
    assert(h@.subrange(i as int, i + n@.len() as int) =~= n@);
    true
}

/// First occurrence of `n` in `h` within `[from, to)`, searched left to
/// right.
pub fn find_in(h: &Vec<u8>, n: &Vec<u8>, from: usize, to: usize) -> (r: Option<usize>)
    requires
        from <= to,
        to <= h@.len(),
    ensures
        match r {
            Some(i) => spec_find(h@, n@, from as int, to as int) == Some(i as int)
                && from <= i && i + n@.len() <= to,
            None => spec_find(h@, n@, from as int, to as int).is_none(),
        },
{
    if n.len() == 0 {
        return None;
    }
    let mut i: usize = from;
    loop
        invariant
            n@.len() >= 1,
            from <= i <= to,
            to <= h@.len(),
            spec_find(h@, n@, from as int, to as int) == spec_find(h@, n@, i as int, to as int),
        decreases to - i,
    {
        if to - i < n.len() {
            assert(spec_find(h@, n@, i as int, to as int).is_none());
            return None;
        }
        if match_at_exec(h, n, i) {
            assert(spec_find(h@, n@, i as int, to as int) == Some(i as int));
            return Some(i);
        }
        assert(spec_find(h@, n@, i as int, to as int)
            == spec_find(h@, n@, i + 1 as int, to as int));
        i = i + 1;
    }
}

/// Copies `h[a..b]` into a fresh vector.
pub fn copy_range(h: &Vec<u8>, a: usize, b: usize) -> (r: Vec<u8>)
    requires
        a <= b,
        b <= h@.len(),
    ensures
        r@ == h@.subrange(a as int, b as int),
{
    let mut out: Vec<u8> = Vec::new();
    let mut i: usize = a;
    while i < b
        invariant
            a <= i <= b,
            b <= h@.len(),
            out@ == h@.subrange(a as int, i as int),
        decreases b - i,
    {
        out.push(h[i]);
        assert(out@ =~= h@.subrange(a as int, i + 1 as int));
        i = i + 1;
    }
    out
}

/// Byte-string equality.
pub fn bytes_eq(a: &Vec<u8>, b: &Vec<u8>) -> (r: bool)
    ensures
        r == (a@ == b@),
{
    if a.len() != b.len() {
        return false;
    }
    let mut i: usize = 0;
    while i < a.len()
        invariant
            i <= a.len(),
            a@.len() == b@.len(),
            forall|k: int| 0 <= k < i ==> a@[k] == b@[k],
        decreases a.len() - i,
    {
        if a[i] != b[i] {
            return false;
        }
        i = i + 1;
    }
    assert(a@ =~= b@);
    true
}

} // verus!
