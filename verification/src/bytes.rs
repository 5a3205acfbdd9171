//! Byte-string helpers: paths and file names are handled as byte vectors,
//! the way a Unix filesystem stores them.

use vstd::prelude::*;

verus! {

/// True when `s` is a suffix of `a`.
pub open spec fn spec_ends_with(a: Seq<u8>, s: Seq<u8>) -> bool {
    s.len() <= a.len() && a.subrange(a.len() - s.len(), a.len() as int) == s
}

/// Compare two byte slices for equality.
pub fn slice_eq(a: &[u8], b: &[u8]) -> (r: bool)
    ensures
        r == (a@ == b@),
{
    if a.len() != b.len() {
        assert(a@.len() != b@.len());
        return false;
    }
    let n: usize = a.len();
    let mut i: usize = 0;
    while i < n
        invariant
            0 <= i <= n,
            n == a@.len() == b@.len(),
            forall|k: int| 0 <= k < i ==> a@[k] == b@[k],
        decreases n - i,
    {
        if a[i] != b[i] {
            return false;
        }
        i = i + 1;
    }
    assert(a@ =~= b@);
    true
}

/// Compare two byte vectors for equality.
pub fn bytes_eq(a: &Vec<u8>, b: &Vec<u8>) -> (r: bool)
    ensures
        r == (a@ == b@),
{
    slice_eq(a.as_slice(), b.as_slice())
}

/// Does `a` end with the suffix `s`?
pub fn ends_with(a: &Vec<u8>, s: &Vec<u8>) -> (r: bool)
    ensures
        r == spec_ends_with(a@, s@),
{
    if s.len() > a.len() {
        return false;
    }
    let alen: usize = a.len();
    let start: usize = alen - s.len();
    let n: usize = s.len();
    let mut i: usize = 0;
    while i < n
        invariant
            0 <= i <= n,
            n == s@.len() <= a@.len(),
            alen == a@.len(),
            start + n == alen,
            start == a@.len() - s@.len(),
            forall|k: int| 0 <= k < i ==> a@[start + k] == s@[k],
        decreases n - i,
    {
        if a[start + i] != s[i] {
            assert(a@.subrange(a@.len() - s@.len(), a@.len() as int)[i as int] != s@[i as int]);
            return false;
        }
        i = i + 1;
    }
    assert(a@.subrange(a@.len() - s@.len(), a@.len() as int) =~= s@);
    true
}

/// The concatenation of two byte vectors.
pub fn append_bytes(a: &Vec<u8>, b: &Vec<u8>) -> (r: Vec<u8>)
    ensures
        r@ == a@ + b@,
{
    let mut r: Vec<u8> = Vec::new();
    let mut i: usize = 0;
    while i < a.len()
        invariant
            0 <= i <= a@.len(),
            r@ == a@.subrange(0, i as int),
        decreases a@.len() - i,
    {
        r.push(a[i]);
        assert(r@ =~= a@.subrange(0, i + 1));
        i = i + 1;
    }
    assert(r@ =~= a@);
    let mut j: usize = 0;
    while j < b.len()
        invariant
            0 <= j <= b@.len(),
            r@ == a@ + b@.subrange(0, j as int),
        decreases b@.len() - j,
    {
        r.push(b[j]);
        assert(r@ =~= a@ + b@.subrange(0, j + 1));
        j = j + 1;
    }
    assert(r@ =~= a@ + b@);
    r
}

/// The first `a.len() - n` bytes of `a`: `a` with its last `n` bytes removed.
pub fn strip_last(a: &Vec<u8>, n: usize) -> (r: Vec<u8>)
    requires
        n <= a@.len(),
    ensures
        r@ == a@.subrange(0, a@.len() - n),
{
    let keep: usize = a.len() - n;
    let mut r: Vec<u8> = Vec::new();
    let mut i: usize = 0;
    while i < keep
        invariant
            0 <= i <= keep,
            keep <= a@.len(),
            r@ == a@.subrange(0, i as int),
        decreases keep - i,
    {
        r.push(a[i]);
        assert(r@ =~= a@.subrange(0, i + 1));
        i = i + 1;
    }
    r
}

/// A copy of a byte vector.
pub fn clone_bytes(a: &Vec<u8>) -> (r: Vec<u8>)
    ensures
        r@ == a@,
{
    let mut r: Vec<u8> = Vec::new();
    let mut i: usize = 0;
    while i < a.len()
        invariant
            0 <= i <= a@.len(),
            r@ == a@.subrange(0, i as int),
        decreases a@.len() - i,
    {
        r.push(a[i]);
        assert(r@ =~= a@.subrange(0, i + 1));
        i = i + 1;
    }
    assert(r@ =~= a@);
    r
}

/// Removing an appended suffix gives back the original bytes.
pub proof fn lemma_strip_appended(a: Seq<u8>, s: Seq<u8>)
    ensures
        spec_ends_with(a + s, s),
        (a + s).subrange(0, (a + s).len() - s.len()) == a,
{
    assert((a + s).subrange((a + s).len() - s.len(), (a + s).len() as int) =~= s);
    assert((a + s).subrange(0, (a + s).len() - s.len()) =~= a);
}

} // verus!
