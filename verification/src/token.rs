//! The compact form: three segments joined by dots.

use vstd::prelude::*;

verus! {

pub const DOT: u8 = 0x2e;

/// Three segments joined into one text.
pub open spec fn compact(header: Seq<u8>, payload: Seq<u8>, signature: Seq<u8>) -> Seq<u8> {
    header + seq![DOT] + payload + seq![DOT] + signature
}

pub open spec fn dot_free(s: Seq<u8>) -> bool {
    forall|i: int| 0 <= i < s.len() ==> #[trigger] s[i] != DOT
}

/// The position of the first dot at or after `from`, or the length of the
/// text where there is none.
pub open spec fn find_dot(b: Seq<u8>, from: int) -> int
    decreases b.len() - from,
{
    if from < 0 || from >= b.len() {
        b.len() as int
    } else if b[from] == DOT {
        from
    } else {
        find_dot(b, from + 1)
    }
}

/// The three segments of a text with exactly two dots.
pub open spec fn segments(b: Seq<u8>) -> Option<(Seq<u8>, Seq<u8>, Seq<u8>)> {
    let p = find_dot(b, 0);
    let q = find_dot(b, p + 1);
    if p < b.len() && q < b.len() && find_dot(b, q + 1) >= b.len() {
        Some((b.subrange(0, p), b.subrange(p + 1, q), b.subrange(q + 1, b.len() as int)))
    } else {
        None
    }
}

pub proof fn lemma_find_dot(b: Seq<u8>, from: int)
    requires
        0 <= from <= b.len(),
    ensures
        from <= find_dot(b, from) <= b.len(),
        find_dot(b, from) < b.len() ==> b[find_dot(b, from)] == DOT,
        forall|i: int| from <= i < find_dot(b, from) ==> #[trigger] b[i] != DOT,
    decreases b.len() - from,
{
    if from < b.len() && b[from] != DOT {
        lemma_find_dot(b, from + 1);
    }
}

/// The first dot is where a dot stands after a stretch without dots.
pub proof fn lemma_find_dot_at(b: Seq<u8>, from: int, at: int)
    requires
        0 <= from <= at <= b.len(),
        forall|i: int| from <= i < at ==> #[trigger] b[i] != DOT,
        at < b.len() ==> b[at] == DOT,
    ensures
        find_dot(b, from) == at,
    decreases at - from,
{
    if from < at {
        lemma_find_dot_at(b, from + 1, at);
    }
}

/// Segments without dots are found again in their compact form.
pub proof fn lemma_segments_of_compact(h: Seq<u8>, c: Seq<u8>, s: Seq<u8>)
    requires
        dot_free(h),
        dot_free(c),
        dot_free(s),
    ensures
        segments(compact(h, c, s)) == Some((h, c, s)),
{
    let b = compact(h, c, s);
    let p: int = h.len() as int;
    let q: int = p + 1 + c.len();
    assert forall|i: int| 0 <= i < p implies #[trigger] b[i] != DOT by {
        assert(b[i] == h[i]);
    }
    lemma_find_dot_at(b, 0, p);
    assert forall|i: int| p + 1 <= i < q implies #[trigger] b[i] != DOT by {
        assert(b[i] == c[i - p - 1]);
    }
    lemma_find_dot_at(b, p + 1, q);
    assert forall|i: int| q + 1 <= i < b.len() implies #[trigger] b[i] != DOT by {
        assert(b[i] == s[i - q - 1]);
    }
    lemma_find_dot_at(b, q + 1, b.len() as int);
    assert(b.subrange(0, p) =~= h);
    assert(b.subrange(p + 1, q) =~= c);
    assert(b.subrange(q + 1, b.len() as int) =~= s);
}

/// A text with segments is the compact form of them, and they hold no dots.
pub proof fn lemma_segments_sound(b: Seq<u8>)
    requires
        segments(b) is Some,
    ensures
        ({
            let (h, c, s) = segments(b).unwrap();
            &&& b == compact(h, c, s)
            &&& dot_free(h)
            &&& dot_free(c)
            &&& dot_free(s)
        }),
{
    let p = find_dot(b, 0);
    lemma_find_dot(b, 0);
    let q = find_dot(b, p + 1);
    lemma_find_dot(b, p + 1);
    lemma_find_dot(b, q + 1);
    let (h, c, s) = segments(b).unwrap();
    assert(b =~= compact(h, c, s));
}

/// The position of the first dot at or after `from`.
pub fn next_dot(b: &[u8], from: usize) -> (at: usize)
    requires
        from <= b@.len(),
    ensures
        at == find_dot(b@, from as int),
        from <= at <= b@.len(),
{
    let n: usize = b.len();
    let mut i: usize = from;
    while i < n && b[i] != DOT
        invariant
            from <= i <= n,
            n == b@.len(),
            find_dot(b@, from as int) == find_dot(b@, i as int),
        decreases n - i,
    {
        i = i + 1;
    }
    i
}

/// Where the two dots of a token stand, if the text has exactly two.
pub fn split(b: &[u8]) -> (r: Option<(usize, usize)>)
    ensures
        match r {
            Some((p, q)) => {
                &&& p < q < b@.len()
                &&& segments(b@) == Some(
                    (
                        b@.subrange(0, p as int),
                        b@.subrange(p + 1, q as int),
                        b@.subrange(q + 1, b@.len() as int),
                    ),
                )
            },
            None => segments(b@) is None,
        },
{
    let n: usize = b.len();
    let p: usize = next_dot(b, 0);
    if p >= n {
        return None;
    }
    let q: usize = next_dot(b, p + 1);
    if q >= n {
        return None;
    }
    let r: usize = next_dot(b, q + 1);
    if r < n {
        return None;
    }
    Some((p, q))
}

} // verus!
