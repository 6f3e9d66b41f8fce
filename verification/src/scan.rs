//! Byte-level primitives shared by the parsers: searching for a byte,
//! comparing byte strings, and copying a range of bytes.

use vstd::prelude::*;
use vstd::slice::slice_subrange;

verus! {

/// Carriage return, the byte that ends a line on the wire.
pub const CR: u8 = 13;

/// Line feed.
pub const LF: u8 = 10;

/// `i` is the position of the first occurrence of `needle` in `s`.
pub open spec fn is_first_at(s: Seq<u8>, needle: u8, i: int) -> bool {
    &&& 0 <= i < s.len()
    &&& s[i] == needle
    &&& forall|j: int| 0 <= j < i ==> s[j] != needle
}

/// Position of the first occurrence of `needle` in `s`, or `None` when `s`
/// does not hold it.
pub open spec fn first_index_of(s: Seq<u8>, needle: u8) -> Option<int> {
    if exists|i: int| is_first_at(s, needle, i) {
        Some(choose|i: int| is_first_at(s, needle, i))
    } else {
        None
    }
}

/// A position that satisfies `is_first_at` is the one `first_index_of` names.
pub proof fn lemma_first_index_is(s: Seq<u8>, needle: u8, i: int)
    requires
        is_first_at(s, needle, i),
    ensures
        first_index_of(s, needle) == Some(i),
{
    let c = choose|k: int| is_first_at(s, needle, k);
    assert(is_first_at(s, needle, c));
    if c < i {
        assert(s[c] != needle);
    } else if i < c {
        assert(s[i] != needle);
    }
}

/// Without an occurrence there is no first one.
pub proof fn lemma_first_index_none(s: Seq<u8>, needle: u8)
    requires
        forall|j: int| 0 <= j < s.len() ==> s[j] != needle,
    ensures
        first_index_of(s, needle) is None,
{
    if exists|i: int| is_first_at(s, needle, i) {
        let c = choose|k: int| is_first_at(s, needle, k);
        assert(s[c] != needle);
    }
}

/// What `first_index_of` returns is a first occurrence, and `None` means
/// that no byte of `s` equals `needle`.
pub proof fn lemma_first_index_found(s: Seq<u8>, needle: u8)
    ensures
        match first_index_of(s, needle) {
            Some(i) => is_first_at(s, needle, i),
            None => forall|j: int| 0 <= j < s.len() ==> s[j] != needle,
        },
{
    if exists|i: int| is_first_at(s, needle, i) {
    } else {
        assert forall|j: int| 0 <= j < s.len() implies s[j] != needle by {
            if s[j] == needle {
                lemma_some_first(s, needle, j);
            }
        }
    }
}

/// An occurrence at `k` implies that a first occurrence exists.
proof fn lemma_some_first(s: Seq<u8>, needle: u8, k: int)
    requires
        0 <= k < s.len(),
        s[k] == needle,
    ensures
        exists|i: int| is_first_at(s, needle, i),
    decreases k,
{
    if forall|j: int| 0 <= j < k ==> s[j] != needle {
        assert(is_first_at(s, needle, k));
    } else {
        let j = choose|j: int| 0 <= j < k && s[j] == needle;
        lemma_some_first(s, needle, j);
    }
}

/// The first occurrence in `s` stays the first occurrence when bytes are
/// appended to `s`.
pub proof fn lemma_first_index_extend(s: Seq<u8>, t: Seq<u8>, needle: u8)
    requires
        first_index_of(s, needle) is Some,
    ensures
        first_index_of(s + t, needle) == first_index_of(s, needle),
{
    lemma_first_index_found(s, needle);
    let i = first_index_of(s, needle).unwrap();
    assert(is_first_at(s + t, needle, i));
    lemma_first_index_is(s + t, needle, i);
}

/// `memchr::memchr`: the index of the first byte of `haystack` equal to
/// `needle`, which is below the length of `haystack`, or `None` when no byte
/// of it equals `needle`.
pub assume_specification[ memchr::memchr ](needle: u8, haystack: &[u8]) -> (res: Option<usize>)
    ensures
        match res {
            Some(i) => is_first_at(haystack@, needle, i as int),
            None => forall|j: int| 0 <= j < haystack@.len() ==> haystack@[j] != needle,
        },
;

/// Finds the first occurrence of `needle` in `data[from..]`. The index
/// returned counts from the start of `data`.
pub fn find_byte(data: &[u8], from: usize, needle: u8) -> (res: Option<usize>)
    requires
        from <= data@.len(),
    ensures
        match res {
            Some(i) => from <= i < data@.len() && first_index_of(data@.skip(from as int), needle)
                == Some(i - from),
            None => first_index_of(data@.skip(from as int), needle) is None,
        },
{
    let tail = slice_subrange(data, from, data.len());
    assert(tail@ == data@.skip(from as int));
    match memchr::memchr(needle, tail) {
        Some(i) => {
            proof {
                lemma_first_index_is(tail@, needle, i as int);
            }
            Some(from + i)
        },
        None => {
            proof {
                lemma_first_index_none(tail@, needle);
            }
            None
        },
    }
}

/// Compares two byte strings.
pub fn bytes_eq(a: &[u8], b: &[u8]) -> (res: bool)
    ensures
        res == (a@ == b@),
{
    if a.len() != b.len() {
        return false;
    }
    let mut i: usize = 0;
    while i < a.len()
        invariant
            i <= a@.len(),
            a@.len() == b@.len(),
            forall|j: int| 0 <= j < i ==> a@[j] == b@[j],
        decreases a@.len() - i,
    {
        if a[i] != b[i] {
            return false;
        }
        i += 1;
    }
    assert(a@ =~= b@);
    true
}

/// Appends `src[from..to]` to `dst`.
pub fn append_range(dst: &mut Vec<u8>, src: &[u8], from: usize, to: usize)
    requires
        from <= to <= src@.len(),
    ensures
        final(dst)@ == old(dst)@ + src@.subrange(from as int, to as int),
{
    let mut i: usize = from;
    while i < to
        invariant
            from <= i <= to <= src@.len(),
            dst@ == old(dst)@ + src@.subrange(from as int, i as int),
        decreases to - i,
    {
        dst.push(src[i]);
        i += 1;
        assert(dst@ =~= old(dst)@ + src@.subrange(from as int, i as int));
    }
}

} // verus!
