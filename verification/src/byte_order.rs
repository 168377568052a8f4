//! Lexicographic order on byte strings, as used for ordering `str` values.
use vstd::prelude::*;

verus! {

/// `a` is lexicographically at most `b`: at the first byte where they differ, `a` has the
/// smaller byte, or `a` is a prefix of `b`.
pub open spec fn lex_le(a: Seq<u8>, b: Seq<u8>) -> bool
    decreases a.len(),
{
    if a.len() == 0 {
        true
    } else if b.len() == 0 {
        false
    } else if a[0] != b[0] {
        a[0] < b[0]
    } else {
        lex_le(a.drop_first(), b.drop_first())
    }
}

/// `p` is a prefix of `s`.
pub open spec fn is_prefix_of(p: Seq<u8>, s: Seq<u8>) -> bool {
    p.len() <= s.len() && s.subrange(0, p.len() as int) == p
}

pub proof fn lemma_lex_le_reflexive(a: Seq<u8>)
    ensures
        lex_le(a, a),
    decreases a.len(),
{
    if a.len() > 0 {
        lemma_lex_le_reflexive(a.drop_first());
    }
}

pub proof fn lemma_lex_le_total(a: Seq<u8>, b: Seq<u8>)
    ensures
        lex_le(a, b) || lex_le(b, a),
    decreases a.len(),
{
    if a.len() > 0 && b.len() > 0 && a[0] == b[0] {
        lemma_lex_le_total(a.drop_first(), b.drop_first());
    }
}

pub proof fn lemma_lex_le_transitive(a: Seq<u8>, b: Seq<u8>, c: Seq<u8>)
    requires
        lex_le(a, b),
        lex_le(b, c),
    ensures
        lex_le(a, c),
    decreases a.len(),
{
    if a.len() > 0 && b.len() > 0 && c.len() > 0 && a[0] == b[0] && b[0] == c[0] {
        lemma_lex_le_transitive(a.drop_first(), b.drop_first(), c.drop_first());
    }
}

/// For byte strings of equal length, `lex_le` holds when they are equal or, at the first
/// byte where they differ, the first has the smaller byte.
pub proof fn lemma_lex_le_meaning(a: Seq<u8>, b: Seq<u8>)
    requires
        a.len() == b.len(),
    ensures
        lex_le(a, b) <==> (a == b || exists|k: int|
            0 <= k < a.len() && a.subrange(0, k) == b.subrange(0, k) && a[k] < b[k]),
    decreases a.len(),
{
    if a.len() == 0 {
        assert(a =~= b);
    } else {
        let (a1, b1) = (a.drop_first(), b.drop_first());
        lemma_lex_le_meaning(a1, b1);
        if a[0] != b[0] {
            if a[0] < b[0] {
                assert(a.subrange(0, 0) =~= b.subrange(0, 0));
            } else {
                if a == b {
                    assert(a[0] == b[0]);
                }
                if exists|k: int| 0 <= k < a.len() && a.subrange(0, k) == b.subrange(0, k) && a[k] < b[k] {
                    let k = choose|k: int|
                        0 <= k < a.len() && a.subrange(0, k) == b.subrange(0, k) && a[k] < b[k];
                    if k > 0 {
                        assert(a.subrange(0, k)[0] == b.subrange(0, k)[0]);
                    }
                }
            }
        } else {
            // the first bytes agree: the order is that of the rest
            if lex_le(a, b) {
                if a1 == b1 {
                    assert(a =~= seq![a[0]] + a1);
                    assert(b =~= seq![b[0]] + b1);
                } else {
                    let k = choose|k: int|
                        0 <= k < a1.len() && a1.subrange(0, k) == b1.subrange(0, k) && a1[k] < b1[k];
                    assert(a.subrange(0, k + 1) =~= seq![a[0]] + a1.subrange(0, k));
                    assert(b.subrange(0, k + 1) =~= seq![b[0]] + b1.subrange(0, k));
                    assert(a[k + 1] == a1[k]);
                }
            } else {
                if a == b {
                    assert(a1 =~= b1);
                }
                if exists|k: int| 0 <= k < a.len() && a.subrange(0, k) == b.subrange(0, k) && a[k] < b[k] {
                    let k = choose|k: int|
                        0 <= k < a.len() && a.subrange(0, k) == b.subrange(0, k) && a[k] < b[k];
                    assert(k > 0);
                    assert(a1.subrange(0, k - 1) =~= a.subrange(0, k).drop_first());
                    assert(b1.subrange(0, k - 1) =~= b.subrange(0, k).drop_first());
                    assert(a1[k - 1] == a[k]);
                }
            }
        }
    }
}

/// When the first `i` bytes agree, the order is decided by what follows them.
proof fn lemma_lex_le_skip(a: Seq<u8>, b: Seq<u8>, i: int)
    requires
        0 <= i <= a.len(),
        i <= b.len(),
        a.subrange(0, i) == b.subrange(0, i),
    ensures
        lex_le(a, b) == lex_le(a.skip(i), b.skip(i)),
    decreases i,
{
    if i > 0 {
        assert(a[0] == a.subrange(0, i)[0]);
        assert(b[0] == b.subrange(0, i)[0]);
        assert(a.drop_first().subrange(0, i - 1) =~= a.subrange(0, i).drop_first());
        assert(b.drop_first().subrange(0, i - 1) =~= b.subrange(0, i).drop_first());
        lemma_lex_le_skip(a.drop_first(), b.drop_first(), i - 1);
        assert(a.drop_first().skip(i - 1) =~= a.skip(i));
        assert(b.drop_first().skip(i - 1) =~= b.skip(i));
    } else {
        assert(a.skip(0) =~= a);
        assert(b.skip(0) =~= b);
    }
}

/// Compares two byte strings in lexicographic order.
pub fn bytes_lex_le(a: &[u8], b: &[u8]) -> (r: bool)
    ensures
        r == lex_le(a@, b@),
{
    let mut i: usize = 0;
    while i < a.len() && i < b.len()
        invariant
            i <= a.len(),
            i <= b.len(),
            a@.subrange(0, i as int) == b@.subrange(0, i as int),
        decreases a.len() - i,
    {
        if a[i] != b[i] {
            proof {
                lemma_lex_le_skip(a@, b@, i as int);
                assert(a@.skip(i as int)[0] == a@[i as int]);
                assert(b@.skip(i as int)[0] == b@[i as int]);
            }
            return a[i] < b[i];
        }
        assert(a@.subrange(0, i + 1) =~= a@.subrange(0, i as int).push(a@[i as int]));
        assert(b@.subrange(0, i + 1) =~= b@.subrange(0, i as int).push(b@[i as int]));
        i = i + 1;
    }
    proof {
        lemma_lex_le_skip(a@, b@, i as int);
    }
    i == a.len()
}

/// Tells whether `p` is a prefix of `s`.
pub fn bytes_starts_with(s: &[u8], p: &[u8]) -> (r: bool)
    ensures
        r == is_prefix_of(p@, s@),
{
    if p.len() > s.len() {
        return false;
    }
    let mut i: usize = 0;
    while i < p.len()
        invariant
            p.len() <= s.len(),
            i <= p.len(),
            s@.subrange(0, i as int) == p@.subrange(0, i as int),
        decreases p.len() - i,
    {
        if s[i] != p[i] {
            assert(s@.subrange(0, p.len() as int)[i as int] != p@[i as int]);
            return false;
        }
        assert(s@.subrange(0, i + 1) =~= s@.subrange(0, i as int).push(s@[i as int]));
        assert(p@.subrange(0, i + 1) =~= p@.subrange(0, i as int).push(p@[i as int]));
        i = i + 1;
    }
    assert(p@.subrange(0, p.len() as int) =~= p@);
    true
}

} // verus!
