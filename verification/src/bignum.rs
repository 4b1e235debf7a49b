//! Arithmetic on unbounded natural numbers, held as big-endian bytes.

use num_bigint::BigUint;
use vstd::arithmetic::power::{lemma_pow_mod_noop, lemma_pow_multiplies, pow};
use vstd::arithmetic::power2::{lemma_pow2_adds, lemma_pow2_pos, pow2};
use vstd::prelude::*;

use crate::bytes::{be_value, pow256, zeros};

verus! {

/// Whether `s` is the shortest big-endian form of its number; zero has the
/// form of one zero byte.
pub open spec fn is_minimal(s: Seq<u8>) -> bool {
    s.len() > 0 && (s.len() > 1 ==> s[0] != 0)
}

/// The shortest big-endian form of `v`.
pub open spec fn be_minimal(v: nat) -> Seq<u8>
    decreases v,
{
    if v < 256 {
        seq![v as u8]
    } else {
        be_minimal(v / 256).push((v % 256) as u8)
    }
}

/// Whether `n` is the number of bits of `v`; zero has none.
pub open spec fn is_bit_length(v: nat, n: nat) -> bool {
    if v == 0 {
        n == 0
    } else {
        n > 0 && pow2((n - 1) as nat) <= v < pow2(n)
    }
}

/// `s` with zero bytes in front up to a length of `n`; a longer `s` is kept.
pub open spec fn left_padded(s: Seq<u8>, n: nat) -> Seq<u8> {
    if s.len() < n {
        zeros((n - s.len()) as nat) + s
    } else {
        s
    }
}

/// `BigUint::to_bytes_be` on the number that `a` denotes: the shortest
/// big-endian form of that number.
#[verifier::external_body]
pub(crate) fn to_bytes_be(a: &[u8]) -> (r: Vec<u8>)
    ensures
        be_value(r@) == be_value(a@),
        is_minimal(r@),
{
    BigUint::from_bytes_be(a).to_bytes_be()
}

/// `>=` of `BigUint` on the numbers that `a` and `b` denote.
#[verifier::external_body]
pub(crate) fn at_least(a: &[u8], b: &[u8]) -> (r: bool)
    ensures
        r == (be_value(a@) >= be_value(b@)),
{
    BigUint::from_bytes_be(a) >= BigUint::from_bytes_be(b)
}

/// `==` of `BigUint` on the numbers that `a` and `b` denote.
#[verifier::external_body]
pub(crate) fn equal(a: &[u8], b: &[u8]) -> (r: bool)
    ensures
        r == (be_value(a@) == be_value(b@)),
{
    BigUint::from_bytes_be(a) == BigUint::from_bytes_be(b)
}

/// `BigUint::bits` of the number that `a` denotes: the fewest bits that express it.
#[verifier::external_body]
pub(crate) fn bits(a: &[u8]) -> (r: u64)
    ensures
        is_bit_length(be_value(a@), r as nat),
{
    BigUint::from_bytes_be(a).bits()
}

/// `-` of `BigUint` on the numbers that `a` and `b` denote, in the shortest
/// big-endian form. `BigUint` panics on a negative difference.
#[verifier::external_body]
pub(crate) fn difference(a: &[u8], b: &[u8]) -> (r: Vec<u8>)
    requires
        be_value(a@) >= be_value(b@),
    ensures
        be_value(r@) == be_value(a@) - be_value(b@),
        is_minimal(r@),
{
    (BigUint::from_bytes_be(a) - BigUint::from_bytes_be(b)).to_bytes_be()
}

/// `BigUint::modpow`: the power `base^exponent` reduced by `modulus`, in the
/// shortest big-endian form. `BigUint` panics on a modulus of zero.
#[verifier::external_body]
pub(crate) fn mod_pow(base: &[u8], exponent: &[u8], modulus: &[u8]) -> (r: Vec<u8>)
    requires
        be_value(modulus@) > 0,
    ensures
        be_value(r@) == pow(be_value(base@) as int, be_value(exponent@)) % (be_value(modulus@) as int),
        is_minimal(r@),
{
    let m = BigUint::from_bytes_be(modulus);
    BigUint::from_bytes_be(base).modpow(&BigUint::from_bytes_be(exponent), &m).to_bytes_be()
}

/// `s` with zero bytes in front up to a length of `n`.
pub fn left_pad(s: &[u8], n: usize) -> (r: Vec<u8>)
    ensures
        r@ == left_padded(s@, n as nat),
{
    let mut r: Vec<u8> = Vec::new();
    if s.len() < n {
        crate::bytes::push_zeros(&mut r, n - s.len());
    }
    crate::bytes::push_slice(&mut r, s);
    assert(r@ =~= left_padded(s@, n as nat));
    r
}

/// The big-endian bytes of `value` without zero bytes in front; zero keeps all
/// its eight.
pub open spec fn minimal_u64(value: u64) -> Seq<u8> {
    if value == 0 {
        zeros(8)
    } else {
        be_minimal(value as nat)
    }
}

/// The big-endian bytes of `value`, without zero bytes in front; zero keeps all
/// its eight.
pub fn big_endian_minimal(value: u64) -> (r: Vec<u8>)
    ensures
        r@ == minimal_u64(value),
        be_value(r@) == value,
{
    let mut r: Vec<u8> = Vec::new();
    if value == 0 {
        crate::bytes::push_zeros(&mut r, 8);
        assert(r@ =~= zeros(8));
        proof {
            lemma_be_value_zeros(8);
        }
        return r;
    }
    let mut left: u64 = value;
    let mut low: Vec<u8> = Vec::new();
    assert(left * pow256(low@.len()) == left) by {
        assert(pow256(low@.len()) == 1);
    }
    while left > 0
        invariant
            left > 0 || low@.len() > 0,
            left == 0 ==> low@.last() != 0,
            crate::bytes::le_value(low@) + left * pow256(low@.len()) == value,
        decreases left,
    {
        let byte: u8 = (left % 256) as u8;
        proof {
            lemma_le_value_push(low@, byte);
            let w = pow256(low@.len());
            assert(left * w == (left % 256) * w + (left / 256) * (256 * w)) by (nonlinear_arith)
                requires
                    left == (left % 256) + 256 * (left / 256),
            ;
        }
        low.push(byte);
        left = left / 256;
    }
    let mut i: usize = low.len();
    while i > 0
        invariant
            i <= low@.len(),
            r@.len() == low@.len() - i,
            forall|j: int| 0 <= j < r@.len() ==> r@[j] == low@[low@.len() - 1 - j],
        decreases i,
    {
        i = i - 1;
        r.push(low[i]);
    }
    proof {
        assert(r@ =~= low@.reverse());
        lemma_be_value_reverse(low@);
        minimal_form_is_unique(r@);
    }
    r
}

pub proof fn lemma_le_value_push(s: Seq<u8>, byte: u8)
    ensures
        crate::bytes::le_value(s.push(byte)) == crate::bytes::le_value(s) + byte * pow256(s.len()),
    decreases s.len(),
{
    let t = s.push(byte);
    if s.len() == 0 {
        assert(t.drop_first() =~= Seq::<u8>::empty());
        assert(crate::bytes::le_value(t.drop_first()) == 0);
        assert(byte * pow256(0) == byte) by {
            assert(pow256(0) == 1);
        }
        assert(crate::bytes::le_value(t) == byte);
        assert(crate::bytes::le_value(s) == 0);
    } else {
        lemma_le_value_push(s.drop_first(), byte);
        assert(t.drop_first() =~= s.drop_first().push(byte));
        let w = pow256((s.len() - 1) as nat);
        assert(256 * (byte * w) == byte * (256 * w)) by (nonlinear_arith);
    }
}

pub proof fn lemma_be_value_reverse(s: Seq<u8>)
    ensures
        be_value(s.reverse()) == crate::bytes::le_value(s),
    decreases s.len(),
{
    if s.len() > 0 {
        lemma_be_value_reverse(s.drop_first());
        assert(s.reverse().drop_last() =~= s.drop_first().reverse());
        assert(s.reverse().last() == s[0]);
    }
}

pub proof fn lemma_pow256_is_pow2(n: nat)
    ensures
        pow256(n) == pow2(8 * n),
    decreases n,
{
    reveal(pow2);
    if n > 0 {
        lemma_pow256_is_pow2((n - 1) as nat);
        lemma_pow2_adds(8, (8 * (n - 1)) as nat);
        vstd::arithmetic::power2::lemma2_to64();
        assert(8 + 8 * (n - 1) == 8 * n);
    } else {
        vstd::arithmetic::power2::lemma2_to64();
    }
}

pub proof fn lemma_be_value_bound(s: Seq<u8>)
    ensures
        be_value(s) < pow256(s.len()),
    decreases s.len(),
{
    if s.len() > 0 {
        lemma_be_value_bound(s.drop_last());
    }
}

pub proof fn lemma_be_value_first(s: Seq<u8>)
    requires
        s.len() > 0,
        s[0] != 0,
    ensures
        be_value(s) >= pow256((s.len() - 1) as nat),
    decreases s.len(),
{
    if s.len() == 1 {
        assert(s.last() == s[0]);
    } else {
        assert(s.drop_last()[0] == s[0]);
        lemma_be_value_first(s.drop_last());
    }
}

/// The shortest form denotes its number and has no zero byte in front.
pub proof fn be_minimal_is_minimal(v: nat)
    ensures
        is_minimal(be_minimal(v)),
        be_value(be_minimal(v)) == v,
        v > 0 ==> be_minimal(v)[0] != 0,
    decreases v,
{
    let s = be_minimal(v);
    if v < 256 {
        assert(s.drop_last() =~= Seq::<u8>::empty());
        assert(be_value(s.drop_last()) == 0);
    } else {
        be_minimal_is_minimal(v / 256);
        assert(s.drop_last() =~= be_minimal(v / 256));
        assert(s[0] == be_minimal(v / 256)[0]);
    }
}

/// A number has one shortest big-endian form.
pub proof fn minimal_form_is_unique(s: Seq<u8>)
    requires
        is_minimal(s),
    ensures
        s == be_minimal(be_value(s)),
    decreases s.len(),
{
    let front = s.drop_last();
    if s.len() == 1 {
        assert(be_value(front) == 0);
        assert(s =~= be_minimal(be_value(s)));
    } else {
        lemma_be_value_first(front);
        lemma_pow256_increases(0, (front.len() - 1) as nat);
        minimal_form_is_unique(front);
        assert(be_value(s) / 256 == be_value(front));
        assert(be_value(s) % 256 == s.last());
        assert(s =~= be_minimal(be_value(s)));
    }
}

pub proof fn lemma_pow256_increases(a: nat, b: nat)
    requires
        a <= b,
    ensures
        pow256(a) <= pow256(b),
        pow256(b) > 0,
    decreases b,
{
    if a < b {
        lemma_pow256_increases(a, (b - 1) as nat);
    } else if b > 0 {
        lemma_pow256_increases((a - 1) as nat, (b - 1) as nat);
    }
}

/// The shortest form of a number has more than `n > 0` bytes exactly when the
/// number does not fit in `n` bytes.
pub proof fn lemma_minimal_length(s: Seq<u8>, n: nat)
    requires
        is_minimal(s),
        n > 0,
    ensures
        s.len() > n <==> be_value(s) >= pow256(n),
{
    lemma_be_value_bound(s);
    if s.len() > n {
        lemma_be_value_first(s);
        lemma_pow256_increases(n, (s.len() - 1) as nat);
    } else {
        lemma_pow256_increases(s.len(), n);
    }
}

/// A number has at least `n > 0` bits exactly when it is at least `2^(n-1)`.
pub proof fn lemma_bit_length_at_least(v: nat, bits: nat, n: nat)
    requires
        is_bit_length(v, bits),
        n > 0,
    ensures
        bits >= n <==> v >= pow2((n - 1) as nat),
{
    lemma_pow2_pos((n - 1) as nat);
    if v > 0 {
        if bits >= n {
            lemma_pow2_monotonic((n - 1) as nat, (bits - 1) as nat);
        } else {
            lemma_pow2_monotonic(bits, (n - 1) as nat);
        }
    }
}

pub proof fn lemma_pow2_monotonic(a: nat, b: nat)
    requires
        a <= b,
    ensures
        pow2(a) <= pow2(b),
{
    if a < b {
        vstd::arithmetic::power2::lemma_pow2_strictly_increases(a, b);
    }
}

/// Zero bytes in front do not change a big-endian number.
pub proof fn be_value_of_left_padded(s: Seq<u8>, n: nat)
    ensures
        be_value(left_padded(s, n)) == be_value(s),
    decreases s.len(),
{
    let p = left_padded(s, n);
    if s.len() < n {
        if s.len() == 0 {
            lemma_be_value_zeros(n);
            assert(p =~= zeros(n));
        } else {
            be_value_of_left_padded(s.drop_last(), (n - 1) as nat);
            assert(p.drop_last() =~= left_padded(s.drop_last(), (n - 1) as nat));
            assert(p.last() == s.last());
        }
    }
}

/// A number has one big-endian form of each length that holds it: the shortest
/// one with zero bytes in front.
pub proof fn padded_form_is_unique(s: Seq<u8>)
    requires
        s.len() > 0,
    ensures
        left_padded(be_minimal(be_value(s)), s.len()) == s,
    decreases s.len(),
{
    let front = s.drop_last();
    let v = be_value(front);
    let short = be_minimal(be_value(s));
    if s.len() == 1 {
        assert(v == 0);
        assert(short =~= s);
    } else {
        padded_form_is_unique(front);
        assert(s =~= front.push(s.last()));
        if v == 0 {
            assert(short =~= seq![s.last()]);
            assert(be_minimal(v) =~= seq![0u8]);
            assert(front =~= zeros(front.len()));
            assert(left_padded(short, s.len()) =~= s);
        } else {
            assert(be_value(s) / 256 == v);
            assert(be_value(s) % 256 == s.last());
            assert(short =~= be_minimal(v).push(s.last()));
            assert(left_padded(be_minimal(v), front.len()) == front);
            assert(left_padded(short, s.len()) =~= front.push(s.last()));
        }
    }
}

pub proof fn lemma_be_value_zeros(n: nat)
    ensures
        be_value(zeros(n)) == 0,
    decreases n,
{
    if n > 0 {
        lemma_be_value_zeros((n - 1) as nat);
        assert(zeros(n).drop_last() =~= zeros((n - 1) as nat));
    }
}

/// Raising one's own power to the other side's exponent gives both sides the
/// same number: `(g^a mod p)^b = (g^b mod p)^a`, modulo `p`.
pub proof fn powers_agree(g: int, a: nat, b: nat, p: int)
    requires
        p > 0,
    ensures
        pow(pow(g, a) % p, b) % p == pow(pow(g, b) % p, a) % p,
{
    lemma_pow_mod_noop(pow(g, a), b, p);
    lemma_pow_mod_noop(pow(g, b), a, p);
    lemma_pow_multiplies(g, a, b);
    lemma_pow_multiplies(g, b, a);
    assert(a * b == b * a) by (nonlinear_arith);
}

/// Filling up in front keeps what was there at the end, puts nothing but zero
/// bytes before it, and never shortens.
pub proof fn left_padded_keeps_the_end(s: Seq<u8>, n: nat)
    ensures
        left_padded(s, n).len() == if s.len() < n { n } else { s.len() },
        left_padded(s, n).skip(left_padded(s, n).len() - s.len()) == s,
        forall|i: int|
            0 <= i < left_padded(s, n).len() - s.len() ==> #[trigger] left_padded(s, n)[i] == 0,
{
    let p = left_padded(s, n);
    assert(p.skip(p.len() - s.len()) =~= s);
}

/// The bytes of a number of 64 bits denote it. There are none to spare in front,
/// but for zero, which has eight.
pub proof fn minimal_u64_denotes_its_number(value: u64)
    ensures
        be_value(minimal_u64(value)) == value,
        1 <= minimal_u64(value).len() <= 8,
        value == 0 ==> minimal_u64(value).len() == 8,
        value > 0 ==> minimal_u64(value)[0] != 0,
{
    if value == 0 {
        lemma_be_value_zeros(8);
    } else {
        be_minimal_is_minimal(value as nat);
        crate::bytes::lemma_pow256_values();
        lemma_minimal_length(be_minimal(value as nat), 8);
    }
}

/// A count of bits is the least power of two above the number.
pub proof fn bit_length_is_least(v: nat, n: nat)
    requires
        is_bit_length(v, n),
    ensures
        v < pow2(n),
        n > 0 ==> pow2((n - 1) as nat) <= v,
{
    lemma_pow2_pos(n);
}

} // verus!
