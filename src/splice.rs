//! Searching a buffer for a byte pattern and cutting a region out of it.
use vstd::prelude::*;

verus! {

/// `needle` stands in `haystack` starting at offset `k`.
pub open spec fn matches_at(haystack: Seq<u8>, needle: Seq<u8>, k: int) -> bool {
    0 <= k && k + needle.len() <= haystack.len() && haystack.subrange(k, k + needle.len())
        == needle
}

/// `needle` stands somewhere in `haystack`.
pub open spec fn occurs_in(haystack: Seq<u8>, needle: Seq<u8>) -> bool {
    exists|k: int| matches_at(haystack, needle, k)
}

/// `k` is the leftmost offset at which `needle` stands in `haystack`.
pub open spec fn is_first_match(haystack: Seq<u8>, needle: Seq<u8>, k: int) -> bool {
    &&& matches_at(haystack, needle, k)
    &&& forall|j: int| 0 <= j < k ==> !matches_at(haystack, needle, j)
}

/// `buf` with the half-open region `[start, end)` taken out.
pub open spec fn without_region(buf: Seq<u8>, start: int, end: int) -> Seq<u8> {
    buf.subrange(0, start) + buf.subrange(end, buf.len() as int)
}

/// Whether the window of `haystack` at offset `k` equals `needle`.
fn window_equals(haystack: &[u8], needle: &[u8], k: usize) -> (r: bool)
    requires
        k + needle@.len() <= haystack@.len(),
    ensures
        r == matches_at(haystack@, needle@, k as int),
{
    let hl = haystack.len();
    let mut i: usize = 0;
    while i < needle.len()
        invariant
            hl == haystack@.len(),
            k + needle@.len() <= haystack@.len(),
            i <= needle@.len(),
            forall|j: int| 0 <= j < i ==> haystack@[k + j] == needle@[j],
        decreases needle@.len() - i,
    {
        if haystack[k + i] != needle[i] {
            assert(haystack@.subrange(k as int, k + needle@.len())[i as int] != needle@[i as int]);
            return false;
        }
        i = i + 1;
    }
    assert(haystack@.subrange(k as int, k + needle@.len()) =~= needle@);
    true
}

/// Offset of the leftmost occurrence of `needle` in `haystack`, if any.
pub fn find_subsequence(haystack: &[u8], needle: &[u8]) -> (r: Option<usize>)
    requires
        needle@.len() > 0,
    ensures
        match r {
            Some(k) => is_first_match(haystack@, needle@, k as int),
            None => !occurs_in(haystack@, needle@),
        },
{
    if needle.len() > haystack.len() {
        assert forall|k: int| !matches_at(haystack@, needle@, k) by {}
        return None;
    }
    let hl = haystack.len();
    let last = hl - needle.len();
    let mut k: usize = 0;
    while k <= last
        invariant
            hl == haystack@.len(),
            last == haystack@.len() - needle@.len(),
            needle@.len() > 0,
            k <= last + 1,
            forall|j: int| 0 <= j < k ==> !matches_at(haystack@, needle@, j),
        decreases last + 1 - k,
    {
        if window_equals(haystack, needle, k) {
            return Some(k);
        }
        k = k + 1;
    }
    assert forall|j: int| !matches_at(haystack@, needle@, j) by {
        if 0 <= j && j < k {
        }
    }
    None
}

/// Cuts the half-open region `range` out of `buf`, shifting what follows it
/// to the left.
pub fn remove_range(buf: &mut Vec<u8>, range: std::ops::Range<usize>)
    requires
        range.start <= range.end <= old(buf)@.len(),
    ensures
        final(buf)@ == without_region(old(buf)@, range.start as int, range.end as int),
        final(buf)@.len() == old(buf)@.len() - (range.end - range.start),
{
    let width = range.end - range.start;
    let len = buf.len();
    let mut i: usize = range.start;
    while i < len - width
        invariant
            len == old(buf)@.len(),
            buf@.len() == len,
            width == range.end - range.start,
            range.start <= i <= len - width,
            forall|j: int| 0 <= j < i ==> buf@[j] == without_region(
                old(buf)@,
                range.start as int,
                range.end as int,
            )[j],
            forall|j: int| i <= j < len ==> buf@[j] == old(buf)@[j],
        decreases len - width - i,
    {
        let b = buf[i + width];
        buf.set(i, b);
        i = i + 1;
    }
    buf.truncate(len - width);
    assert(buf@ =~= without_region(old(buf)@, range.start as int, range.end as int));
}

/// Removes the leftmost occurrence of `pattern` from `buf`, if there is one,
/// and returns the offset it stood at.
pub fn scrub(buf: &mut Vec<u8>, pattern: &[u8]) -> (r: Option<usize>)
    requires
        pattern@.len() > 0,
    ensures
        match r {
            Some(k) => {
                &&& is_first_match(old(buf)@, pattern@, k as int)
                &&& final(buf)@ == without_region(old(buf)@, k as int, k + pattern@.len())
            },
            None => !occurs_in(old(buf)@, pattern@) && final(buf)@ == old(buf)@,
        },
{
    let n = buf.len();
    match find_subsequence(buf.as_slice(), pattern) {
        Some(k) => {
            assert(k + pattern@.len() <= n);
            remove_range(buf, k..k + pattern.len());
            Some(k)
        },
        None => None,
    }
}

/// After the leftmost occurrence of `pattern` is cut out of `buf`, scanning
/// the result finds `pattern` no more, provided `pattern` stood in `buf` only
/// there and no window that straddles the cut spells it.
pub proof fn lemma_scrubbed_has_no_match(buf: Seq<u8>, pattern: Seq<u8>, k: int)
    requires
        pattern.len() > 0,
        is_first_match(buf, pattern, k),
        forall|j: int| #[trigger] matches_at(buf, pattern, j) ==> j == k,
        forall|j: int|
            k - pattern.len() < j < k ==> !#[trigger] matches_at(
                without_region(buf, k, k + pattern.len()),
                pattern,
                j,
            ),
    ensures
        !occurs_in(without_region(buf, k, k + pattern.len()), pattern),
{
    let n = pattern.len() as int;
    let rest = without_region(buf, k, k + n);
    assert forall|j: int| !matches_at(rest, pattern, j) by {
        if matches_at(rest, pattern, j) {
            if j + n <= k {
                assert(buf.subrange(j, j + n) =~= rest.subrange(j, j + n));
                assert(matches_at(buf, pattern, j));
            } else if j >= k {
                assert(buf.subrange(j + n, j + 2 * n) =~= rest.subrange(j, j + n));
                assert(matches_at(buf, pattern, j + n));
            }
        }
    }
}

} // verus!
