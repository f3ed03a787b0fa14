use vstd::prelude::*;

verus! {

/// `s` with the bytes from `off` on replaced by `p`.
pub open spec fn splice(s: Seq<u8>, off: int, p: Seq<u8>) -> Seq<u8> {
    s.subrange(0, off) + p + s.subrange(off + p.len(), s.len() as int)
}

/// Writing `p` at `off` and reading the same range back yields `p`.
pub proof fn lemma_splice_read_back(s: Seq<u8>, off: int, p: Seq<u8>)
    requires
        0 <= off,
        off + p.len() <= s.len(),
    ensures
        splice(s, off, p).len() == s.len(),
        splice(s, off, p).subrange(off, off + p.len()) == p,
{
    assert(splice(s, off, p).subrange(off, off + p.len()) =~= p);
}

/// Writing back the bytes a range already holds changes nothing.
pub proof fn lemma_splice_same(s: Seq<u8>, off: int, len: int)
    requires
        0 <= off,
        0 <= len,
        off + len <= s.len(),
    ensures
        splice(s, off, s.subrange(off, off + len)) == s,
{
    assert(splice(s, off, s.subrange(off, off + len)) =~= s);
}

/// A second write over the same range replaces the first.
pub proof fn lemma_splice_twice(s: Seq<u8>, off: int, p: Seq<u8>, q: Seq<u8>)
    requires
        0 <= off,
        p.len() == q.len(),
        off + p.len() <= s.len(),
    ensures
        splice(splice(s, off, p), off, q) == splice(s, off, q),
{
    assert(splice(splice(s, off, p), off, q) =~= splice(s, off, q));
}

/// A write inside the first `n` bytes commutes with keeping those `n` bytes.
pub proof fn lemma_splice_prefix(s: Seq<u8>, n: int, off: int, p: Seq<u8>)
    requires
        0 <= off,
        off + p.len() <= n <= s.len(),
    ensures
        splice(s, off, p).subrange(0, n) == splice(s.subrange(0, n), off, p),
{
    assert(splice(s, off, p).subrange(0, n) =~= splice(s.subrange(0, n), off, p));
}

/// `s` with `p` written at `off`.
pub fn splice_vec(s: &Vec<u8>, off: usize, p: &Vec<u8>) -> (r: Vec<u8>)
    requires
        off + p.len() <= s.len(),
    ensures
        r@ == splice(s@, off as int, p@),
{
    let mut r: Vec<u8> = Vec::new();
    let mut i: usize = 0;
    while i < s.len()
        invariant
            off + p.len() <= s.len(),
            i <= s.len(),
            r.len() == i,
            forall|j: int|
                0 <= j < i ==> #[trigger] r@[j] == (if off <= j < off + p.len() {
                    p@[j - off]
                } else {
                    s@[j]
                }),
        decreases s.len() - i,
    {
        if off <= i && i < off + p.len() {
            r.push(p[i - off]);
        } else {
            r.push(s[i]);
        }
        i += 1;
    }
    assert(r@ =~= splice(s@, off as int, p@));
    r
}

/// The `len` bytes of `s` from `off` on.
pub fn sub_vec(s: &Vec<u8>, off: usize, len: usize) -> (r: Vec<u8>)
    requires
        off + len <= s.len(),
    ensures
        r@ == s@.subrange(off as int, off + len),
{
    let mut r: Vec<u8> = Vec::new();
    let mut i: usize = 0;
    while i < len
        invariant
            off + len <= s.len(),
            i <= len,
            r@ == s@.subrange(off as int, off + i),
        decreases len - i,
    {
        r.push(s[off + i]);
        i += 1;
        assert(r@ =~= s@.subrange(off as int, off + i));
    }
    r
}

pub open spec fn zero_seq(n: nat) -> Seq<u8> {
    Seq::new(n, |_i: int| 0u8)
}

/// `n` zero bytes.
pub fn zeros(n: usize) -> (r: Vec<u8>)
    ensures
        r@ == zero_seq(n as nat),
{
    let mut r: Vec<u8> = Vec::new();
    let mut i: usize = 0;
    while i < n
        invariant
            i <= n,
            r@ == zero_seq(i as nat),
        decreases n - i,
    {
        r.push(0u8);
        i += 1;
        assert(r@ =~= zero_seq(i as nat));
    }
    r
}

} // verus!
