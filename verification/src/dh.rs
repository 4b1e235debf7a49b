//! The key exchange's numbers and what is derived from them: the check of a
//! received power, the authorization key, and the keys and identifiers that both
//! sides compute from the nonces.

use vstd::arithmetic::power::pow;
use vstd::arithmetic::power2::pow2;
use vstd::prelude::*;

use crate::bignum::{be_minimal, left_padded};
use crate::bytes::{be_value, i64_of_le};
use crate::digest::{sha1_of, sha256_of};

verus! {

/// Why a power of the exchange was refused.
#[derive(Clone, Copy, Debug, PartialEq, Eq, Structural)]
pub enum GroupError {
    /// It is one, or not below the modulus.
    OutOfRange,
    /// It has more than 2048 bits.
    TooLarge,
    /// It has fewer than 1984 bits.
    TooSmall,
    /// What is left of the modulus above it has fewer than 1984 bits.
    TooCloseToModulus,
}

/// What is wrong with the power `g` modulo `p`, if anything.
pub open spec fn power_fault(g: nat, p: nat) -> Option<GroupError> {
    if g >= p || g == 1 {
        Some(GroupError::OutOfRange)
    } else if g >= pow2(2048) {
        Some(GroupError::TooLarge)
    } else if g < pow2(1983) {
        Some(GroupError::TooSmall)
    } else if p - g < pow2(1983) {
        Some(GroupError::TooCloseToModulus)
    } else {
        None
    }
}

/// Checks a power of the exchange, in big-endian bytes, against the modulus.
pub fn validate_g_a(g_a: &[u8], p: &[u8]) -> (r: Result<(), GroupError>)
    ensures
        match r {
            Ok(_) => power_fault(be_value(g_a@), be_value(p@)) is None,
            Err(e) => power_fault(be_value(g_a@), be_value(p@)) == Some(e),
        },
{
    let one: Vec<u8> = crate::bignum::big_endian_minimal(1);
    if crate::bignum::at_least(g_a, p) || crate::bignum::equal(g_a, one.as_slice()) {
        return Err(GroupError::OutOfRange);
    }
    let g_a_bytes: Vec<u8> = crate::bignum::to_bytes_be(g_a);
    proof {
        crate::bignum::lemma_minimal_length(g_a_bytes@, 256);
        crate::bignum::lemma_pow256_is_pow2(256);
    }
    if g_a_bytes.len() > 256 {
        return Err(GroupError::TooLarge);
    }
    let min_bits: u64 = 2048 - 64;
    let g_a_bits: u64 = crate::bignum::bits(g_a);
    proof {
        crate::bignum::lemma_bit_length_at_least(be_value(g_a@), g_a_bits as nat, 1984);
    }
    if g_a_bits < min_bits {
        return Err(GroupError::TooSmall);
    }
    let p_minus_ga: Vec<u8> = crate::bignum::difference(p, g_a);
    let gap_bits: u64 = crate::bignum::bits(p_minus_ga.as_slice());
    proof {
        crate::bignum::lemma_bit_length_at_least(be_value(p_minus_ga@), gap_bits as nat, 1984);
    }
    if gap_bits < min_bits {
        return Err(GroupError::TooCloseToModulus);
    }
    Ok(())
}

/// A power is accepted exactly when it lies at least `2^1983` away from zero and
/// from the modulus, and has at most 2048 bits.
pub proof fn accepted_power_range(g: nat, p: nat)
    ensures
        power_fault(g, p) is None <==> pow2(1983) <= g < pow2(2048) && g + pow2(1983) <= p,
{
    vstd::arithmetic::power2::lemma2_to64();
    crate::bignum::lemma_pow2_monotonic(1, 1983);
}

/// The authorization key in a shared power: its big-endian bytes, filled up with
/// zero bytes in front to 256, the first 256 of them where it has more.
pub open spec fn auth_key_form(power: Seq<u8>) -> Seq<u8> {
    left_padded(power, 256).subrange(0, 256)
}

/// The authorization key in a shared power, in big-endian bytes.
pub fn auth_key_from(power: &[u8]) -> (r: [u8; 256])
    ensures
        r@ == auth_key_form(power@),
{
    let padded: Vec<u8> = crate::bignum::left_pad(power, 256);
    crate::bytes::array_at::<256>(padded.as_slice(), 0)
}

/// The authorization key that `base^exponent mod modulus` gives.
pub open spec fn shared_key_of(base: nat, exponent: nat, modulus: nat) -> Seq<u8> {
    auth_key_form(be_minimal((pow(base as int, exponent) % (modulus as int)) as nat))
}

/// The authorization key: the other side's power raised to one's own exponent,
/// all in big-endian bytes.
pub fn shared_key(base: &[u8], exponent: &[u8], modulus: &[u8]) -> (r: [u8; 256])
    requires
        be_value(modulus@) > 0,
    ensures
        r@ == shared_key_of(be_value(base@), be_value(exponent@), be_value(modulus@)),
{
    let power: Vec<u8> = crate::bignum::mod_pow(base, exponent, modulus);
    proof {
        crate::bignum::minimal_form_is_unique(power@);
    }
    auth_key_from(power.as_slice())
}

/// Both sides of the exchange get the same authorization key: that which the
/// client computes from the server's power `g^a mod p` and its own exponent `b`
/// is that which the server computes from the client's power `g^b mod p` and its
/// own exponent `a`.
pub proof fn both_sides_share_the_key(g: nat, a: nat, b: nat, p: nat)
    requires
        p > 0,
    ensures
        shared_key_of((pow(g as int, a) % (p as int)) as nat, b, p) == shared_key_of(
            (pow(g as int, b) % (p as int)) as nat,
            a,
            p,
        ),
{
    crate::bignum::powers_agree(g as int, a, b, p as int);
}

/// Where the modulus has at most 2048 bits, the authorization key is the shared
/// power itself, in 256 big-endian bytes.
pub proof fn shared_key_is_the_power(base: nat, exponent: nat, modulus: nat)
    requires
        0 < modulus <= pow2(2048),
    ensures
        shared_key_of(base, exponent, modulus).len() == 256,
        be_value(shared_key_of(base, exponent, modulus)) == pow(base as int, exponent) % (modulus as int),
{
    let v = (pow(base as int, exponent) % (modulus as int)) as nat;
    let power = be_minimal(v);
    crate::bignum::be_minimal_is_minimal(v);
    crate::bignum::lemma_pow256_is_pow2(256);
    crate::bignum::lemma_minimal_length(power, 256);
    let padded = left_padded(power, 256);
    assert(padded.subrange(0, 256) =~= padded);
    crate::bignum::be_value_of_left_padded(power, 256);
}

/// The identifier of a key in the key's digest: its last eight bytes.
pub open spec fn key_id_form(digest: Seq<u8>) -> int {
    i64_of_le(digest.subrange(12, 20))
}

/// The identifier of a key in the key's SHA-1 digest.
pub fn key_id_from(digest: &[u8; 20]) -> (r: i64)
    ensures
        r == key_id_form(digest@),
{
    crate::bytes::read_i64_le(digest.as_slice(), 12)
}

/// The identifier of an authorization key.
pub fn auth_key_id(auth_key: &[u8; 256]) -> (r: i64)
    ensures
        r == key_id_form(sha1_of(auth_key@)@),
{
    key_id_from(&crate::digest::sha1(auth_key.as_slice()))
}

/// The temporary key out of two digests of the nonces.
pub open spec fn temp_key_form(a: Seq<u8>, b: Seq<u8>) -> Seq<u8> {
    a + b.subrange(0, 12)
}

/// The temporary initialization vector out of two digests of the nonces and the
/// client's second nonce.
pub open spec fn temp_iv_form(b: Seq<u8>, c: Seq<u8>, new_nonce: Seq<u8>) -> Seq<u8> {
    b.subrange(12, 20) + c + new_nonce.subrange(0, 4)
}

/// The temporary key and initialization vector out of three digests of the
/// nonces and the client's second nonce.
pub fn temp_key_iv_from(a: &[u8; 20], b: &[u8; 20], c: &[u8; 20], new_nonce: &[u8; 32]) -> (r: (
    [u8; 32],
    [u8; 32],
))
    ensures
        r.0@ == temp_key_form(a@, b@),
        r.1@ == temp_iv_form(b@, c@, new_nonce@),
{
    let mut key: Vec<u8> = Vec::new();
    crate::bytes::push_slice(&mut key, a.as_slice());
    let b_front: Vec<u8> = crate::bytes::copy_range(b.as_slice(), 0, 12);
    crate::bytes::push_slice(&mut key, b_front.as_slice());
    let mut iv: Vec<u8> = crate::bytes::copy_range(b.as_slice(), 12, 20);
    crate::bytes::push_slice(&mut iv, c.as_slice());
    let nonce_front: Vec<u8> = crate::bytes::copy_range(new_nonce.as_slice(), 0, 4);
    crate::bytes::push_slice(&mut iv, nonce_front.as_slice());
    let key_bytes: [u8; 32] = crate::bytes::array_at::<32>(key.as_slice(), 0);
    let iv_bytes: [u8; 32] = crate::bytes::array_at::<32>(iv.as_slice(), 0);
    assert(key_bytes@ =~= temp_key_form(a@, b@));
    assert(iv_bytes@ =~= temp_iv_form(b@, c@, new_nonce@));
    (key_bytes, iv_bytes)
}

/// The temporary key that both sides derive from the nonces.
pub open spec fn temp_key(server_nonce: Seq<u8>, new_nonce: Seq<u8>) -> Seq<u8> {
    temp_key_form(sha1_of(new_nonce + server_nonce)@, sha1_of(server_nonce + new_nonce)@)
}

/// The temporary initialization vector that both sides derive from the nonces.
pub open spec fn temp_iv(server_nonce: Seq<u8>, new_nonce: Seq<u8>) -> Seq<u8> {
    temp_iv_form(sha1_of(server_nonce + new_nonce)@, sha1_of(new_nonce + new_nonce)@, new_nonce)
}

/// `a` and `b` one behind the other.
fn joined(a: &[u8], b: &[u8]) -> (r: Vec<u8>)
    ensures
        r@ == a@ + b@,
{
    let mut r: Vec<u8> = Vec::new();
    crate::bytes::push_slice(&mut r, a);
    crate::bytes::push_slice(&mut r, b);
    assert(r@ =~= a@ + b@);
    r
}

/// The temporary key and initialization vector that both sides derive from the
/// nonces.
pub fn derive_temp_key_iv(server_nonce: &[u8; 16], new_nonce: &[u8; 32]) -> (r: ([u8; 32], [u8; 32]))
    ensures
        r.0@ == temp_key(server_nonce@, new_nonce@),
        r.1@ == temp_iv(server_nonce@, new_nonce@),
{
    let a: [u8; 20] = crate::digest::sha1(joined(new_nonce.as_slice(), server_nonce.as_slice()).as_slice());
    let b: [u8; 20] = crate::digest::sha1(joined(server_nonce.as_slice(), new_nonce.as_slice()).as_slice());
    let c: [u8; 20] = crate::digest::sha1(joined(new_nonce.as_slice(), new_nonce.as_slice()).as_slice());
    temp_key_iv_from(&a, &b, &c, new_nonce)
}

/// The session identifier that both sides derive from the nonces.
pub open spec fn session_id_of(new_nonce: Seq<u8>, server_nonce: Seq<u8>) -> Seq<u8> {
    sha256_of(new_nonce + server_nonce)@.subrange(0, 8)
}

/// The session identifier in the digest of the nonces: its first eight bytes.
pub fn session_id_from(digest: &[u8; 32]) -> (r: [u8; 8])
    ensures
        r@ == digest@.subrange(0, 8),
{
    crate::bytes::array_at::<8>(digest.as_slice(), 0)
}

/// The session identifier that both sides derive from the nonces.
pub fn compute_session_id(new_nonce: &[u8; 32], server_nonce: &[u8; 16]) -> (r: [u8; 8])
    ensures
        r@ == session_id_of(new_nonce@, server_nonce@),
{
    let nonces: Vec<u8> = joined(new_nonce.as_slice(), server_nonce.as_slice());
    session_id_from(&crate::digest::sha256(nonces.as_slice()))
}

/// What the proof of a shared key is the digest of: the client's second nonce,
/// the number of the proof and the front of the key's digest.
pub open spec fn nonce_hash_input(new_nonce: Seq<u8>, auth_digest: Seq<u8>, hash_num: u8) -> Seq<u8> {
    new_nonce + seq![hash_num] + auth_digest.subrange(0, 8)
}

/// What the proof of a shared key is the digest of.
pub fn nonce_hash_input_from(new_nonce: &[u8; 32], auth_digest: &[u8; 20], hash_num: u8) -> (r: Vec<u8>)
    ensures
        r@ == nonce_hash_input(new_nonce@, auth_digest@, hash_num),
{
    let mut r: Vec<u8> = Vec::new();
    crate::bytes::push_slice(&mut r, new_nonce.as_slice());
    r.push(hash_num);
    let aux: Vec<u8> = crate::bytes::copy_range(auth_digest.as_slice(), 0, 8);
    crate::bytes::push_slice(&mut r, aux.as_slice());
    assert(r@ =~= nonce_hash_input(new_nonce@, auth_digest@, hash_num));
    r
}

/// The proof of a shared key in its digest: the last sixteen bytes.
pub fn nonce_hash_from(digest: &[u8; 20]) -> (r: [u8; 16])
    ensures
        r@ == digest@.subrange(4, 20),
{
    crate::bytes::array_at::<16>(digest.as_slice(), 4)
}

/// The proof that both sides hold the same key.
pub open spec fn new_nonce_hash(new_nonce: Seq<u8>, auth_key: Seq<u8>, hash_num: u8) -> Seq<u8> {
    sha1_of(nonce_hash_input(new_nonce, sha1_of(auth_key)@, hash_num))@.subrange(4, 20)
}

/// The proof that both sides hold the same key.
pub fn compute_new_nonce_hash(new_nonce: &[u8; 32], auth_key: &[u8; 256], hash_num: u8) -> (r: [u8; 16])
    ensures
        r@ == new_nonce_hash(new_nonce@, auth_key@, hash_num),
{
    let auth_digest: [u8; 20] = crate::digest::sha1(auth_key.as_slice());
    let input: Vec<u8> = nonce_hash_input_from(new_nonce, &auth_digest, hash_num);
    nonce_hash_from(&crate::digest::sha1(input.as_slice()))
}

/// The bytes of `a` and `b` joined by exclusive or, as far as `n`.
pub open spec fn xored(a: Seq<u8>, b: Seq<u8>, n: nat) -> Seq<u8> {
    Seq::new(n, |i: int| a[i] ^ b[i])
}

/// The first salt: the front of both nonces joined by exclusive or.
pub open spec fn salt_of(new_nonce: Seq<u8>, server_nonce: Seq<u8>) -> int {
    i64_of_le(xored(new_nonce, server_nonce, 8))
}

/// The first salt that both sides derive from the nonces.
pub fn compute_salt(new_nonce: &[u8; 32], server_nonce: &[u8; 16]) -> (r: i64)
    ensures
        r == salt_of(new_nonce@, server_nonce@),
{
    let s: Vec<u8> = xor_front(new_nonce.as_slice(), server_nonce.as_slice(), 8);
    assert(s@.subrange(0, 8) =~= s@);
    crate::bytes::read_i64_le(s.as_slice(), 0)
}

/// The first `n` bytes of `a` and `b` joined by exclusive or.
pub fn xor_front(a: &[u8], b: &[u8], n: usize) -> (r: Vec<u8>)
    requires
        n <= a@.len(),
        n <= b@.len(),
    ensures
        r@ == xored(a@, b@, n as nat),
{
    let mut r: Vec<u8> = Vec::new();
    let mut i: usize = 0;
    while i < n
        invariant
            i <= n <= a@.len(),
            n <= b@.len(),
            r@ =~= xored(a@, b@, i as nat),
        decreases n - i,
    {
        r.push(a[i] ^ b[i]);
        i = i + 1;
    }
    r
}

/// Which powers are refused, and as what: a power that is one or not below the
/// modulus is out of range; of the others one of more than 2048 bits is too
/// large, one under `2^1983` too small, and one less than `2^1983` under the
/// modulus too close to it.
pub proof fn refused_powers(g: nat, p: nat)
    ensures
        power_fault(g, p) == Some(GroupError::OutOfRange) <==> g == 1 || p <= g,
        power_fault(g, p) == Some(GroupError::TooLarge) <==> pow2(2048) <= g < p,
        power_fault(g, p) == Some(GroupError::TooSmall) <==> g != 1 && g < p && g < pow2(1983),
        power_fault(g, p) == Some(GroupError::TooCloseToModulus) <==> pow2(1983) <= g < pow2(2048) && g < p < g
            + pow2(1983),
{
    vstd::arithmetic::power2::lemma2_to64();
    crate::bignum::lemma_pow2_monotonic(1, 1983);
    crate::bignum::lemma_pow2_monotonic(1983, 2048);
}

/// The authorization key always has 256 bytes. A power of that many bytes or
/// fewer stands at its end, behind zero bytes; of a longer one it is the front.
pub proof fn auth_key_of_a_power(power: Seq<u8>)
    ensures
        auth_key_form(power).len() == 256,
        power.len() <= 256 ==> auth_key_form(power).skip(256 - power.len()) == power,
        power.len() <= 256 ==> be_value(auth_key_form(power)) == be_value(power),
        power.len() >= 256 ==> auth_key_form(power) == power.take(256),
{
    let p = left_padded(power, 256);
    crate::bignum::be_value_of_left_padded(power, 256);
    if power.len() <= 256 {
        assert(p.subrange(0, 256) =~= p);
        assert(p.skip(256 - power.len()) =~= power);
    } else {
        assert(p.subrange(0, 256) =~= power.take(256));
    }
}

/// The shared key is the key in the shortest form of the shared power, whatever
/// the size of the modulus.
pub proof fn shared_key_is_in_the_power(base: nat, exponent: nat, modulus: nat, power: Seq<u8>)
    requires
        modulus > 0,
        crate::bignum::is_minimal(power),
        be_value(power) == pow(base as int, exponent) % (modulus as int),
    ensures
        shared_key_of(base, exponent, modulus) == auth_key_form(power),
{
    crate::bignum::minimal_form_is_unique(power);
}

/// The identifier of a key has the last eight bytes of the key's digest.
pub proof fn key_id_has_the_digest_end(digest: Seq<u8>)
    requires
        digest.len() == 20,
    ensures
        i64::MIN <= key_id_form(digest) <= i64::MAX,
        crate::bytes::le_i64(key_id_form(digest) as i64) == digest.skip(12),
{
    assert(digest.subrange(12, 20) =~= digest.skip(12));
    crate::bytes::any_eight_bytes_are_a_number(digest.skip(12));
}

/// What the temporary key and vector are cut from: the digests of the nonces in
/// either order, that of the client's second nonce twice, and the front of that
/// nonce.
pub proof fn temporary_key_parts(server_nonce: Seq<u8>, new_nonce: Seq<u8>)
    requires
        server_nonce.len() == 16,
        new_nonce.len() == 32,
    ensures
        ({
            let key = temp_key(server_nonce, new_nonce);
            let iv = temp_iv(server_nonce, new_nonce);
            &&& key.len() == 32
            &&& iv.len() == 32
            &&& key.take(20) == sha1_of(new_nonce + server_nonce)@
            &&& key.skip(20) + iv.take(8) == sha1_of(server_nonce + new_nonce)@
            &&& iv.subrange(8, 28) == sha1_of(new_nonce + new_nonce)@
            &&& iv.skip(28) == new_nonce.take(4)
        }),
{
    let key = temp_key(server_nonce, new_nonce);
    let iv = temp_iv(server_nonce, new_nonce);
    assert(key.take(20) =~= sha1_of(new_nonce + server_nonce)@);
    assert(key.skip(20) + iv.take(8) =~= sha1_of(server_nonce + new_nonce)@);
    assert(iv.subrange(8, 28) =~= sha1_of(new_nonce + new_nonce)@);
    assert(iv.skip(28) =~= new_nonce.take(4));
}

/// The session identifier is the front of the digest of both nonces.
pub proof fn session_id_is_the_digest_front(new_nonce: Seq<u8>, server_nonce: Seq<u8>)
    ensures
        session_id_of(new_nonce, server_nonce).len() == 8,
        session_id_of(new_nonce, server_nonce) == sha256_of(new_nonce + server_nonce)@.take(8),
{
    assert(session_id_of(new_nonce, server_nonce) =~= sha256_of(new_nonce + server_nonce)@.take(8));
}

/// The proof of a key is the end of the digest of the client's second nonce, the
/// number of the proof and the front of the key's own digest.
pub proof fn key_proof_parts(new_nonce: Seq<u8>, auth_key: Seq<u8>, hash_num: u8)
    ensures
        new_nonce_hash(new_nonce, auth_key, hash_num).len() == 16,
        new_nonce_hash(new_nonce, auth_key, hash_num) == sha1_of(
            new_nonce.push(hash_num) + sha1_of(auth_key)@.take(8),
        )@.skip(4),
{
    let input = new_nonce.push(hash_num) + sha1_of(auth_key)@.take(8);
    assert(nonce_hash_input(new_nonce, sha1_of(auth_key)@, hash_num) =~= input);
    assert(new_nonce_hash(new_nonce, auth_key, hash_num) =~= sha1_of(input)@.skip(4));
}

/// Joining twice with the same bytes by exclusive or gives back what was there.
pub proof fn xored_twice(a: Seq<u8>, b: Seq<u8>, n: nat)
    requires
        n <= a.len(),
        n <= b.len(),
    ensures
        xored(a, b, n).len() == n,
        xored(xored(a, b, n), b, n) == a.take(n as int),
        xored(xored(a, b, n), a, n) == b.take(n as int),
        xored(a, b, n) == xored(b, a, n),
{
    assert forall|i: int| 0 <= i < n implies xored(xored(a, b, n), b, n)[i] == a[i] && xored(
        xored(a, b, n),
        a,
        n,
    )[i] == b[i] && xored(a, b, n)[i] == xored(b, a, n)[i] by {
        let x: u8 = a[i];
        let y: u8 = b[i];
        assert((x ^ y) ^ y == x && (x ^ y) ^ x == y && x ^ y == y ^ x) by (bit_vector);
    }
    assert(xored(xored(a, b, n), b, n) =~= a.take(n as int));
    assert(xored(xored(a, b, n), a, n) =~= b.take(n as int));
    assert(xored(a, b, n) =~= xored(b, a, n));
}

/// The salt hides the front of each nonce by that of the other: joined with one
/// of them by exclusive or, its eight bytes give the other.
pub proof fn salt_joins_the_nonces(new_nonce: Seq<u8>, server_nonce: Seq<u8>)
    requires
        server_nonce.len() == 16,
        new_nonce.len() == 32,
    ensures
        i64::MIN <= salt_of(new_nonce, server_nonce) <= i64::MAX,
        ({
            let bytes = crate::bytes::le_i64(salt_of(new_nonce, server_nonce) as i64);
            &&& bytes.len() == 8
            &&& forall|i: int| 0 <= i < 8 ==> #[trigger] bytes[i] == new_nonce[i] ^ server_nonce[i]
        }),
{
    crate::bytes::any_eight_bytes_are_a_number(xored(new_nonce, server_nonce, 8));
}

} // verus!
