//! Wildcard signature scanning over byte buffers.

use rayon::iter::IndexedParallelIterator;
use rayon::slice::ParallelSlice;
use vstd::prelude::*;

verus! {

/// The pattern byte that matches any buffer byte.
pub const WILDCARD: u8 = 0xFF;

/// One pattern byte accepts one buffer byte.
pub open spec fn byte_matches(p: u8, b: u8) -> bool {
    p == WILDCARD || p == b
}

/// The pattern matches `buf` at offset `i`: the window fits inside the buffer
/// and every non-wildcard pattern byte equals the buffer byte it covers.
pub open spec fn matches_at(buf: Seq<u8>, pat: Seq<u8>, i: int) -> bool {
    &&& 0 <= i
    &&& i + pat.len() <= buf.len()
    &&& forall|k: int| 0 <= k < pat.len() ==> byte_matches(#[trigger] pat[k], buf[i + k])
}

/// `r` is the lowest offset at which `pat` matches `buf`, or `None` when it
/// matches nowhere.
pub open spec fn is_first_match(buf: Seq<u8>, pat: Seq<u8>, r: Option<usize>) -> bool {
    match r {
        Some(i) => {
            &&& matches_at(buf, pat, i as int)
            &&& forall|j: int| 0 <= j < i ==> !#[trigger] matches_at(buf, pat, j)
        },
        None => forall|j: int| !#[trigger] matches_at(buf, pat, j),
    }
}

/// Number of candidate offsets: those at which the pattern fits.
pub open spec fn candidates(buf: Seq<u8>, pat: Seq<u8>) -> int {
    if pat.len() > buf.len() {
        0
    } else {
        buf.len() - pat.len() + 1
    }
}

/// The lowest matching offset in `[lo, hi)`.
pub open spec fn first_in(buf: Seq<u8>, pat: Seq<u8>, lo: int, hi: int) -> Option<int>
    decreases hi - lo,
{
    if lo >= hi {
        None
    } else if matches_at(buf, pat, lo) {
        Some(lo)
    } else {
        first_in(buf, pat, lo + 1, hi)
    }
}

/// The lower of two optional offsets; an absent one never wins.
pub open spec fn earliest(a: Option<int>, b: Option<int>) -> Option<int> {
    match (a, b) {
        (Some(x), Some(y)) => Some(if x <= y { x } else { y }),
        (Some(_), None) => a,
        (None, _) => b,
    }
}

/// An executable offset seen as a mathematical one.
pub open spec fn offset_of(r: Option<usize>) -> Option<int> {
    match r {
        Some(i) => Some(i as int),
        None => None,
    }
}

/// Length of each chunk when `total` candidates are split into `n` chunks:
/// the ceiling of `total / n`.
pub open spec fn chunk_size(total: int, n: int) -> int {
    total / n + if total % n == 0 {
        0int
    } else {
        1int
    }
}

/// End of the chunk that starts at `lo`.
pub open spec fn chunk_end(lo: int, size: int, total: int) -> int {
    if lo + size < total {
        lo + size
    } else {
        total
    }
}

/// The earliest match found by `k` consecutive chunks of length `size`, the
/// first starting at `lo`, none reaching past `total`.
pub open spec fn chunked_first(
    buf: Seq<u8>,
    pat: Seq<u8>,
    lo: int,
    size: int,
    total: int,
    k: nat,
) -> Option<int>
    decreases k,
{
    if k == 0 {
        None
    } else {
        let hi = chunk_end(lo, size, total);
        earliest(first_in(buf, pat, lo, hi), chunked_first(buf, pat, hi, size, total, (k - 1) as nat))
    }
}

/// The result of scanning the candidates as `n` chunks and keeping the
/// earliest match that any chunk reports.
pub open spec fn partitioned_scan(buf: Seq<u8>, pat: Seq<u8>, n: nat) -> Option<int> {
    let total = candidates(buf, pat);
    chunked_first(buf, pat, 0, chunk_size(total, n as int), total, n)
}

/// What `first_in` returns: the lowest matching offset of the range.
pub proof fn lemma_first_in(buf: Seq<u8>, pat: Seq<u8>, lo: int, hi: int)
    ensures
        match first_in(buf, pat, lo, hi) {
            Some(i) => {
                &&& lo <= i < hi
                &&& matches_at(buf, pat, i)
                &&& forall|j: int| lo <= j < i ==> !#[trigger] matches_at(buf, pat, j)
            },
            None => forall|j: int| lo <= j < hi ==> !#[trigger] matches_at(buf, pat, j),
        },
    decreases hi - lo,
{
    if lo < hi && !matches_at(buf, pat, lo) {
        lemma_first_in(buf, pat, lo + 1, hi);
    }
}

/// Splitting a range in two and keeping the earlier of the two halves'
/// results gives the result of the whole range.
pub proof fn lemma_first_in_split(buf: Seq<u8>, pat: Seq<u8>, lo: int, mid: int, hi: int)
    requires
        lo <= mid <= hi,
    ensures
        first_in(buf, pat, lo, hi) == earliest(
            first_in(buf, pat, lo, mid),
            first_in(buf, pat, mid, hi),
        ),
    decreases mid - lo,
{
    if lo < mid {
        if matches_at(buf, pat, lo) {
            lemma_first_in(buf, pat, mid, hi);
        } else {
            lemma_first_in_split(buf, pat, lo + 1, mid, hi);
        }
    }
}

/// Over all candidate offsets, `first_in` is the first match.
pub proof fn lemma_first_in_candidates(buf: Seq<u8>, pat: Seq<u8>)
    requires
        buf.len() <= usize::MAX,
    ensures
        first_in(buf, pat, 0, candidates(buf, pat)) matches Some(i) ==> i <= usize::MAX,
        forall|r: Option<usize>|
            offset_of(r) == first_in(buf, pat, 0, candidates(buf, pat)) ==> is_first_match(
                buf,
                pat,
                r,
            ),
{
    lemma_first_in(buf, pat, 0, candidates(buf, pat));
    assert forall|j: int| matches_at(buf, pat, j) implies 0 <= j < candidates(buf, pat) by {}
}

/// At most one result is the first match.
pub proof fn lemma_first_match_unique(buf: Seq<u8>, pat: Seq<u8>, r1: Option<usize>, r2: Option<usize>)
    requires
        is_first_match(buf, pat, r1),
        is_first_match(buf, pat, r2),
    ensures
        r1 == r2,
{
    match (r1, r2) {
        (Some(i), Some(j)) => {
            assert(matches_at(buf, pat, i as int));
            assert(matches_at(buf, pat, j as int));
        },
        (Some(i), None) => {
            assert(matches_at(buf, pat, i as int));
        },
        (None, Some(j)) => {
            assert(matches_at(buf, pat, j as int));
        },
        (None, None) => {},
    }
}

/// Whether `pattern` matches `buffer` at `offset`.
pub fn matches_at_offset(buffer: &[u8], pattern: &[u8], offset: usize) -> (r: bool)
    ensures
        r == matches_at(buffer@, pattern@, offset as int),
{
    if pattern.len() > buffer.len() || offset > buffer.len() - pattern.len() {
        return false;
    }
    let mut k: usize = 0;
    while k < pattern.len()
        invariant
            offset + pattern@.len() <= buffer.len(),
            0 <= k <= pattern@.len(),
            forall|m: int| 0 <= m < k ==> byte_matches(#[trigger] pattern@[m], buffer@[offset + m]),
        decreases pattern@.len() - k,
    {
        let p = pattern[k];
        if p != WILDCARD && p != buffer[offset + k] {
            assert(!byte_matches(pattern@[k as int], buffer@[offset + k]));
            return false;
        }
        k = k + 1;
    }
    true
}

/// Relies on rayon's `ParallelSlice::par_windows`, which yields in order every
/// window of `pattern.len()` consecutive bytes (the one at index `i` starts at
/// offset `i`) and panics on a window length of 0, and on
/// `IndexedParallelIterator::position_first`, which returns the index of the
/// sequentially first item that satisfies the predicate, or `None`.
#[verifier::external_body]
fn par_position_first(buffer: &[u8], pattern: &[u8]) -> (r: Option<usize>)
    requires
        pattern@.len() > 0,
    ensures
        is_first_match(buffer@, pattern@, r),
{
    buffer.par_windows(pattern.len()).position_first(|window| matches_at_offset(window, pattern, 0))
}

/// The lowest offset at which `pattern` matches `slice`, searched in
/// parallel. The empty pattern matches at offset 0.
pub fn scan(slice: &[u8], pattern: &[u8]) -> (r: Option<usize>)
    ensures
        is_first_match(slice@, pattern@, r),
{
    if pattern.len() == 0 {
        assert(matches_at(slice@, pattern@, 0));
        Some(0)
    } else {
        par_position_first(slice, pattern)
    }
}

/// The lowest matching offset in `[lo, hi)`, searched one offset at a time.
pub fn scan_range(buffer: &[u8], pattern: &[u8], lo: usize, hi: usize) -> (r: Option<usize>)
    ensures
        offset_of(r) == first_in(buffer@, pattern@, lo as int, hi as int),
{
    let mut i: usize = lo;
    while i < hi
        invariant
            lo <= i || hi <= lo,
            first_in(buffer@, pattern@, lo as int, hi as int) == first_in(
                buffer@,
                pattern@,
                i as int,
                hi as int,
            ),
        decreases hi - i,
    {
        if matches_at_offset(buffer, pattern, i) {
            return Some(i);
        }
        i = i + 1;
    }
    None
}

/// The lowest offset at which `pattern` matches `buffer`, searched one
/// offset at a time on the calling thread.
pub fn scan_linear(buffer: &[u8], pattern: &[u8]) -> (r: Option<usize>)
    ensures
        is_first_match(buffer@, pattern@, r),
        offset_of(r) == first_in(buffer@, pattern@, 0, candidates(buffer@, pattern@)),
{
    let len = buffer.len();
    proof {
        lemma_first_in_candidates(buffer@, pattern@);
    }
    if pattern.len() > len {
        None
    } else if pattern.len() == 0 {
        assert(matches_at(buffer@, pattern@, 0));
        Some(0)
    } else {
        scan_range(buffer, pattern, 0, buffer.len() - pattern.len() + 1)
    }
}

/// The earlier of two optional offsets.
pub fn earlier(a: Option<usize>, b: Option<usize>) -> (r: Option<usize>)
    ensures
        offset_of(r) == earliest(offset_of(a), offset_of(b)),
{
    match (a, b) {
        (Some(x), Some(y)) => Some(if x <= y { x } else { y }),
        (Some(_), None) => a,
        (None, _) => b,
    }
}

/// `earliest` may be regrouped.
pub proof fn lemma_earliest_assoc(a: Option<int>, b: Option<int>, c: Option<int>)
    ensures
        earliest(a, earliest(b, c)) == earliest(earliest(a, b), c),
{
}

/// `k` chunks from `lo` cover `[lo, min(lo + k * size, total))`, and their
/// earliest match is that range's first match.
pub proof fn lemma_chunked_first(
    buf: Seq<u8>,
    pat: Seq<u8>,
    lo: int,
    size: int,
    total: int,
    k: nat,
)
    requires
        0 <= lo <= total,
        0 <= size,
    ensures
        chunked_first(buf, pat, lo, size, total, k) == first_in(
            buf,
            pat,
            lo,
            chunk_end(lo, k * size, total),
        ),
    decreases k,
{
    if k == 0 {
        assert(k * size == 0);
    } else {
        let hi = chunk_end(lo, size, total);
        let km1 = (k - 1) as nat;
        lemma_chunked_first(buf, pat, hi, size, total, km1);
        assert(km1 * size + size == k * size) by (nonlinear_arith)
            requires
                km1 + 1 == k,
        ;
        assert(0 <= km1 * size) by (nonlinear_arith)
            requires
                size >= 0,
        ;
        assert(size <= k * size) by (nonlinear_arith)
            requires
                k >= 1,
                size >= 0,
        ;
        let end = chunk_end(lo, k * size, total);
        lemma_first_in_split(buf, pat, lo, hi, end);
        if lo + size >= total {
            assert(first_in(buf, pat, total, total) == None::<int>);
        } else {
            assert(chunk_end(hi, km1 * size, total) == end);
        }
    }
}

/// Scanning the candidate offsets as any number `n >= 1` of chunks, and
/// keeping the earliest match that any chunk reports, gives the same result
/// as one linear scan over all of them.
pub proof fn lemma_partitioned_scan_agrees(buf: Seq<u8>, pat: Seq<u8>, n: nat)
    requires
        n >= 1,
    ensures
        partitioned_scan(buf, pat, n) == first_in(buf, pat, 0, candidates(buf, pat)),
{
    let total = candidates(buf, pat);
    let m = n as int;
    let size = chunk_size(total, m);
    vstd::arithmetic::div_mod::lemma_fundamental_div_mod(total, m);
    vstd::arithmetic::div_mod::lemma_mod_pos_bound(total, m);
    vstd::arithmetic::div_mod::lemma_div_pos_is_pos(total, m);
    let q = total / m;
    let rem = total % m;
    assert(m * size >= total) by (nonlinear_arith)
        requires
            total == m * q + rem,
            0 <= rem < m,
            size == q + if rem == 0 { 0int } else { 1int },
    ;
    lemma_chunked_first(buf, pat, 0, size, total, n);
}

/// The lowest offset at which `pattern` matches `buffer`, searched as
/// `chunks` consecutive ranges of candidate offsets whose results are merged
/// by keeping the earliest. A count of 0 is taken as 1.
pub fn scan_chunked(buffer: &[u8], pattern: &[u8], chunks: usize) -> (r: Option<usize>)
    ensures
        is_first_match(buffer@, pattern@, r),
        offset_of(r) == partitioned_scan(
            buffer@,
            pattern@,
            if chunks == 0 {
                1nat
            } else {
                chunks as nat
            },
        ),
{
    let len = buffer.len();
    let n: usize = if chunks == 0 {
        1
    } else {
        chunks
    };
    if pattern.len() == 0 {
        proof {
            lemma_partitioned_scan_agrees(buffer@, pattern@, n as nat);
            lemma_first_in_candidates(buffer@, pattern@);
        }
        assert(matches_at(buffer@, pattern@, 0));
        assert(is_first_match(buffer@, pattern@, Some(0usize)));
        assert(first_in(buffer@, pattern@, 0, candidates(buffer@, pattern@)) == Some(0int));
        return Some(0);
    }
    let total: usize = if pattern.len() > len {
        0
    } else {
        len - pattern.len() + 1
    };
    let q: usize = total / n;
    let size: usize = if total % n == 0 {
        q
    } else {
        proof {
            vstd::arithmetic::div_mod::lemma_fundamental_div_mod(total as int, n as int);
            assert(q < usize::MAX) by (nonlinear_arith)
                requires
                    total as int == n * q + total % n,
                    total % n != 0,
                    n >= 1,
                    total <= usize::MAX,
            ;
        }
        q + 1
    };
    let ghost whole = partitioned_scan(buffer@, pattern@, n as nat);
    let mut lo: usize = 0;
    let mut k: usize = 0;
    let mut found: Option<usize> = None;
    while k < n
        invariant
            total as int == candidates(buffer@, pattern@),
            size as int == chunk_size(total as int, n as int),
            n >= 1,
            whole == chunked_first(buffer@, pattern@, 0, size as int, total as int, n as nat),
            0 <= k <= n,
            lo <= total,
            earliest(
                offset_of(found),
                chunked_first(buffer@, pattern@, lo as int, size as int, total as int, (n - k) as nat),
            ) == whole,
        decreases n - k,
    {
        let hi: usize = if size < total - lo {
            lo + size
        } else {
            total
        };
        let part = scan_range(buffer, pattern, lo, hi);
        proof {
            lemma_earliest_assoc(
                offset_of(found),
                offset_of(part),
                chunked_first(buffer@, pattern@, hi as int, size as int, total as int, (n - k - 1) as nat),
            );
        }
        found = earlier(found, part);
        lo = hi;
        k = k + 1;
    }
    proof {
        lemma_partitioned_scan_agrees(buffer@, pattern@, n as nat);
        lemma_first_in_candidates(buffer@, pattern@);
    }
    found
}

/// A pattern cut out of the buffer at offset `s` is found at `s`, provided
/// it matches at no lower offset.
pub proof fn lemma_slice_found_at_its_offset(buf: Seq<u8>, pat: Seq<u8>, s: usize)
    requires
        s + pat.len() <= buf.len(),
        pat == buf.subrange(s as int, s + pat.len()),
        forall|j: int| 0 <= j < s ==> !#[trigger] matches_at(buf, pat, j),
    ensures
        forall|r: Option<usize>| is_first_match(buf, pat, r) ==> r == Some(s),
{
    assert forall|k: int| 0 <= k < pat.len() implies byte_matches(
        #[trigger] pat[k],
        buf[s + k],
    ) by {}
    assert(is_first_match(buf, pat, Some(s)));
    assert forall|r: Option<usize>| is_first_match(buf, pat, r) implies r == Some(s) by {
        lemma_first_match_unique(buf, pat, r, Some(s));
    }
}

/// A pattern made of wildcards only matches at offset 0 of every buffer at
/// least as long as the pattern.
pub proof fn lemma_wildcards_match_at_start(buf: Seq<u8>, pat: Seq<u8>)
    requires
        pat.len() <= buf.len(),
        forall|k: int| 0 <= k < pat.len() ==> #[trigger] pat[k] == WILDCARD,
    ensures
        forall|r: Option<usize>| is_first_match(buf, pat, r) ==> r == Some(0usize),
{
    assert(matches_at(buf, pat, 0));
    assert(is_first_match(buf, pat, Some(0usize)));
    assert forall|r: Option<usize>| is_first_match(buf, pat, r) implies r == Some(0usize) by {
        lemma_first_match_unique(buf, pat, r, Some(0usize));
    }
}

} // verus!
