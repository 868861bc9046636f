//! Small verified string helpers over `str` views.
use vstd::prelude::*;
use vstd::utf8::encode_utf8;

verus! {

/// Character-wise equality of two string slices.
pub fn str_eq(a: &str, b: &str) -> (r: bool)
    ensures
        r == (a@ == b@),
{
    let n = a.unicode_len();
    let m = b.unicode_len();
    if n != m {
        return false;
    }
    let mut i: usize = 0;
    while i < n
        invariant
            n == a@.len(),
            m == b@.len(),
            n == m,
            i <= n,
            forall|j: int| 0 <= j < i ==> a@[j] == b@[j],
        decreases n - i,
    {
        if a.get_char(i) != b.get_char(i) {
            return false;
        }
        i = i + 1;
    }
    assert(a@ =~= b@);
    true
}


/// Lexicographic order on byte strings (the order of `str` comparison): a
/// proper prefix comes first; otherwise the first differing byte decides.
pub open spec fn bytes_lt(a: Seq<u8>, b: Seq<u8>) -> bool
    decreases a.len(),
{
    if a.len() == 0 {
        b.len() > 0
    } else if b.len() == 0 {
        false
    } else if a[0] != b[0] {
        a[0] < b[0]
    } else {
        bytes_lt(a.drop_first(), b.drop_first())
    }
}

/// The byte order is irreflexive.
pub proof fn lemma_bytes_lt_irreflexive(a: Seq<u8>)
    ensures
        !bytes_lt(a, a),
    decreases a.len(),
{
    if a.len() > 0 {
        lemma_bytes_lt_irreflexive(a.drop_first());
    }
}

/// The byte order is transitive.
pub proof fn lemma_bytes_lt_transitive(a: Seq<u8>, b: Seq<u8>, c: Seq<u8>)
    requires
        bytes_lt(a, b),
        bytes_lt(b, c),
    ensures
        bytes_lt(a, c),
    decreases a.len(),
{
    if a.len() > 0 && b.len() > 0 && c.len() > 0 && a[0] == b[0] && b[0] == c[0] {
        lemma_bytes_lt_transitive(a.drop_first(), b.drop_first(), c.drop_first());
    }
}

/// Outcome of a three-way comparison.
#[derive(Debug, Clone, Copy, PartialEq, Eq, Structural)]
pub enum Comparison {
    Less,
    Equal,
    Greater,
}

/// Compare two strings by their UTF-8 bytes, as `str` comparison does.
pub fn compare_bytes(a: &str, b: &str) -> (r: Comparison)
    ensures
        r == Comparison::Less <==> bytes_lt(encode_utf8(a@), encode_utf8(b@)),
        r == Comparison::Greater <==> bytes_lt(encode_utf8(b@), encode_utf8(a@)),
        r == Comparison::Equal <==> a@ == b@,
{
    let x = a.as_bytes();
    let y = b.as_bytes();
    let ghost xa = x@;
    let ghost yb = y@;
    assert(xa == encode_utf8(a@));
    assert(yb == encode_utf8(b@));
    let n = x.len();
    let m = y.len();
    proof {
        lemma_bytes_lt_irreflexive(xa);
        lemma_bytes_lt_irreflexive(yb);
        if bytes_lt(xa, yb) && bytes_lt(yb, xa) {
            lemma_bytes_lt_transitive(xa, yb, xa);
        }
        lemma_utf8_injective(a@, b@);
    }
    let mut i: usize = 0;
    assert(xa.skip(0) =~= xa);
    assert(yb.skip(0) =~= yb);
    while i < n && i < m
        invariant
            n == xa.len(),
            m == yb.len(),
            x@ == xa,
            y@ == yb,
            i <= n,
            i <= m,
            xa.subrange(0, i as int) == yb.subrange(0, i as int),
            bytes_lt(xa, yb) == bytes_lt(xa.skip(i as int), yb.skip(i as int)),
            bytes_lt(yb, xa) == bytes_lt(yb.skip(i as int), xa.skip(i as int)),
            !(bytes_lt(xa, yb) && bytes_lt(yb, xa)),
            (a@ == b@) == (xa == yb),
            xa == encode_utf8(a@),
            yb == encode_utf8(b@),
        decreases n - i,
    {
        let ghost xs = xa.skip(i as int);
        let ghost ys = yb.skip(i as int);
        assert(xs[0] == x[i as int] && ys[0] == y[i as int]);
        assert(xs.len() > 0 && ys.len() > 0);
        if x[i] < y[i] {
            assert(xa[i as int] != yb[i as int]);
            assert(bytes_lt(xs, ys));
            assert(!bytes_lt(ys, xs));
            return Comparison::Less;
        } else if x[i] > y[i] {
            assert(xa[i as int] != yb[i as int]);
            assert(bytes_lt(ys, xs));
            assert(!bytes_lt(xs, ys));
            return Comparison::Greater;
        }
        assert(xs.drop_first() =~= xa.skip(i + 1));
        assert(ys.drop_first() =~= yb.skip(i + 1));
        assert(xa.subrange(0, i + 1) =~= xa.subrange(0, i as int).push(xa[i as int]));
        assert(yb.subrange(0, i + 1) =~= yb.subrange(0, i as int).push(yb[i as int]));
        i = i + 1;
    }
    if n < m {
        assert(xa.skip(i as int).len() == 0);
        assert(xa.len() != yb.len());
        Comparison::Less
    } else if n > m {
        assert(yb.skip(i as int).len() == 0);
        assert(xa.len() != yb.len());
        Comparison::Greater
    } else {
        assert(xa =~= xa.subrange(0, n as int));
        assert(yb =~= yb.subrange(0, m as int));
        Comparison::Equal
    }
}

/// Distinct strings have distinct UTF-8 encodings.
pub proof fn lemma_utf8_injective(a: Seq<char>, b: Seq<char>)
    ensures
        (a == b) == (encode_utf8(a) == encode_utf8(b)),
{
    vstd::utf8::encode_utf8_decode_utf8(a);
    vstd::utf8::encode_utf8_decode_utf8(b);
}

} // verus!
