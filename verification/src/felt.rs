//! Field elements as the bridge and the builtins see them: non-negative
//! integers, kept as their shortest big-endian byte string.

use num_bigint::{BigInt, Sign};
use vstd::prelude::*;

verus! {

/// What is left of `s` once its leading zero bytes are gone.
pub open spec fn strip_leading_zeros(s: Seq<u8>) -> Seq<u8>
    decreases s.len(),
{
    if s.len() > 0 && s[0] == 0u8 {
        strip_leading_zeros(s.drop_first())
    } else {
        s
    }
}

/// The shortest big-endian byte string of the number that `s` spells: no
/// leading zero byte, and the single byte zero for the number zero.
pub open spec fn minimal_be_bytes(s: Seq<u8>) -> Seq<u8> {
    let t = strip_leading_zeros(s);
    if t.len() == 0 {
        seq![0u8]
    } else {
        t
    }
}

/// `s` is the shortest big-endian byte string of some number.
pub open spec fn is_minimal_be(s: Seq<u8>) -> bool {
    s.len() >= 1 && (s[0] == 0u8 ==> s.len() == 1)
}

/// The number that the big-endian byte string `s` spells.
pub open spec fn be_value(s: Seq<u8>) -> nat
    decreases s.len(),
{
    if s.len() == 0 {
        0
    } else {
        be_value(s.drop_last()) * 256 + s.last() as nat
    }
}

/// A leading zero byte does not change the number.
pub proof fn lemma_leading_zero_value(s: Seq<u8>)
    requires
        s.len() > 0,
        s[0] == 0u8,
    ensures
        be_value(s) == be_value(s.drop_first()),
    decreases s.len(),
{
    if s.len() == 1 {
        assert(s.drop_last() =~= s.drop_first());
    } else {
        lemma_leading_zero_value(s.drop_last());
        assert(s.drop_first().drop_last() =~= s.drop_last().drop_first());
    }
}

/// Stripping keeps the number, shortens or keeps the string, and leaves no
/// leading zero byte.
pub proof fn lemma_strip_leading_zeros(s: Seq<u8>)
    ensures
        be_value(strip_leading_zeros(s)) == be_value(s),
        strip_leading_zeros(s).len() <= s.len(),
        strip_leading_zeros(s).len() > 0 ==> strip_leading_zeros(s)[0] != 0u8,
    decreases s.len(),
{
    if s.len() > 0 && s[0] == 0u8 {
        lemma_strip_leading_zeros(s.drop_first());
        lemma_leading_zero_value(s);
    }
}

/// The shortest byte string of a number is minimal, spells the same number,
/// and a minimal string is its own shortest form.
pub proof fn lemma_minimal_be_bytes(s: Seq<u8>)
    ensures
        is_minimal_be(minimal_be_bytes(s)),
        be_value(minimal_be_bytes(s)) == be_value(s),
        is_minimal_be(s) ==> minimal_be_bytes(s) == s,
        minimal_be_bytes(minimal_be_bytes(s)) == minimal_be_bytes(s),
{
    lemma_strip_leading_zeros(s);
    let t = strip_leading_zeros(s);
    if t.len() == 0 {
        let z = seq![0u8];
        assert(z.drop_last() =~= Seq::<u8>::empty());
        assert(be_value(z) == 0) by {
            reveal_with_fuel(be_value, 2);
        }
        assert(strip_leading_zeros(z.drop_first()) =~= Seq::<u8>::empty()) by {
            reveal_with_fuel(strip_leading_zeros, 2);
        }
        assert(minimal_be_bytes(z) == z) by {
            reveal_with_fuel(strip_leading_zeros, 3);
        }
    } else {
        assert(strip_leading_zeros(t) == t);
    }
    if is_minimal_be(s) {
        if s[0] == 0u8 {
            assert(s.drop_first() =~= Seq::<u8>::empty());
            assert(s =~= seq![0u8]);
        }
    }
}

/// A byte string that does not start with a zero byte spells a positive
/// number, unless it is empty.
pub proof fn lemma_no_leading_zero_is_positive(s: Seq<u8>)
    requires
        s.len() > 0,
        s[0] != 0u8,
    ensures
        be_value(s) > 0,
    decreases s.len(),
{
    if s.len() > 1 {
        lemma_no_leading_zero_is_positive(s.drop_last());
    } else {
        assert(s.last() == s[0]);
    }
}

/// Byte strings without leading zero bytes that spell the same number are
/// the same string.
pub proof fn lemma_stripped_bytes_are_unique(a: Seq<u8>, b: Seq<u8>)
    requires
        a.len() == 0 || a[0] != 0u8,
        b.len() == 0 || b[0] != 0u8,
        be_value(a) == be_value(b),
    ensures
        a == b,
    decreases a.len(),
{
    if a.len() == 0 {
        if b.len() > 0 {
            lemma_no_leading_zero_is_positive(b);
        }
        assert(a =~= b);
    } else if b.len() == 0 {
        lemma_no_leading_zero_is_positive(a);
    } else {
        let x = be_value(a.drop_last());
        let y = be_value(b.drop_last());
        let p = a.last() as nat;
        let q = b.last() as nat;
        assert(x == y && p == q) by (nonlinear_arith)
            requires
                x * 256 + p == y * 256 + q,
                p < 256,
                q < 256,
        ;
        lemma_stripped_bytes_are_unique(a.drop_last(), b.drop_last());
        assert(a =~= a.drop_last().push(a.last()));
        assert(b =~= b.drop_last().push(b.last()));
    }
}

/// A number has one shortest byte string: two minimal strings that spell the
/// same number are the same string.
pub proof fn lemma_minimal_be_is_unique(a: Seq<u8>, b: Seq<u8>)
    requires
        is_minimal_be(a),
        is_minimal_be(b),
        be_value(a) == be_value(b),
    ensures
        a == b,
{
    let zero = seq![0u8];
    assert(zero.drop_last() =~= Seq::<u8>::empty());
    assert(be_value(zero) == 0) by {
        reveal_with_fuel(be_value, 2);
    }
    if a[0] == 0u8 {
        assert(a =~= zero);
        if b[0] != 0u8 {
            lemma_no_leading_zero_is_positive(b);
        } else {
            assert(b =~= zero);
        }
    } else if b[0] == 0u8 {
        assert(b =~= zero);
        lemma_no_leading_zero_is_positive(a);
    } else {
        lemma_stripped_bytes_are_unique(a, b);
    }
}

/// `num_bigint::BigInt::from_bytes_be` with a positive sign, then
/// `BigInt::to_bytes_be`. The first reads `bytes` as a big-endian number, the
/// empty string as zero; the second writes the number back without leading
/// zero bytes, and zero as the single byte zero.
#[verifier::external_body]
fn bigint_bytes_be(bytes: &[u8]) -> (out: Vec<u8>)
    ensures
        out@ == minimal_be_bytes(bytes@),
{
    BigInt::from_bytes_be(Sign::Plus, bytes).to_bytes_be().1
}

/// A field element: a non-negative integer of any size.
///
/// Its view is the shortest big-endian byte string of the number. A number
/// has one such string, so elements with the same number have the same view.
#[derive(Debug, PartialEq, Eq)]
pub struct Felt {
    bytes: Vec<u8>,
}

impl View for Felt {
    type V = Seq<u8>;

    closed spec fn view(&self) -> Seq<u8> {
        self.bytes@
    }
}

impl Felt {
    #[verifier::type_invariant]
    spec fn minimal(self) -> bool {
        is_minimal_be(self.bytes@)
    }

    /// The number itself.
    pub open spec fn value(&self) -> nat {
        be_value(self@)
    }

    /// The element that `bytes` spells in big-endian order. Leading zero
    /// bytes are allowed and the empty string is zero.
    pub fn from_bytes_be(bytes: &[u8]) -> (felt: Felt)
        ensures
            felt@ == minimal_be_bytes(bytes@),
            felt.value() == be_value(bytes@),
    {
        proof {
            lemma_minimal_be_bytes(bytes@);
        }
        Felt { bytes: bigint_bytes_be(bytes) }
    }

    /// The shortest big-endian byte string of the element.
    pub fn to_bytes_be(&self) -> (out: Vec<u8>)
        ensures
            out@ == self@,
            is_minimal_be(out@),
    {
        proof {
            use_type_invariant(self);
        }
        self.bytes.clone()
    }
}

impl Clone for Felt {
    fn clone(&self) -> (copy: Self)
        ensures
            copy@ == self@,
    {
        proof {
            use_type_invariant(self);
        }
        Felt { bytes: self.bytes.clone() }
    }
}

} // verus!
