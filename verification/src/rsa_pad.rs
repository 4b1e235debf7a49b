//! The padding under which the client's secrets travel to the server: a random
//! key hides the data, the data's cipher text hides the key, and raw RSA covers
//! both.

use vstd::arithmetic::power::pow;
use vstd::prelude::*;

use crate::bignum::{be_minimal, left_padded};
use crate::bytes::be_value;
use crate::dh::xored;
use crate::digest::sha256_of;
use crate::server_key::ServerKey;

verus! {

/// The longest data that can be padded.
pub const MAX_DATA: usize = 144;

/// The length of padded data.
pub const PADDED: usize = 192;

/// The data is too long to be padded.
#[derive(Clone, Copy, Debug, PartialEq, Eq, Structural)]
pub struct DataTooLong;

/// `data` with `padding` behind it, up to a length of 192.
pub fn pad_data_with(data: &[u8], padding: &[u8]) -> (r: Result<Vec<u8>, DataTooLong>)
    requires
        data@.len() <= MAX_DATA ==> padding@.len() == PADDED - data@.len(),
    ensures
        match r {
            Ok(padded) => data@.len() <= MAX_DATA && padded@ == data@ + padding@,
            Err(_) => data@.len() > MAX_DATA,
        },
{
    if data.len() > MAX_DATA {
        return Err(DataTooLong);
    }
    let mut padded: Vec<u8> = Vec::new();
    crate::bytes::push_slice(&mut padded, data);
    crate::bytes::push_slice(&mut padded, padding);
    assert(padded@ =~= data@ + padding@);
    Ok(padded)
}

/// What the padded data's digest is taken of: the random key and the data.
pub open spec fn digest_input(temp_key: Seq<u8>, padded: Seq<u8>) -> Seq<u8> {
    temp_key + padded
}

/// What is encrypted under the random key: the padded data backwards, and the
/// digest of key and data.
pub open spec fn inner_block(temp_key: Seq<u8>, padded: Seq<u8>) -> Seq<u8> {
    padded.reverse() + sha256_of(digest_input(temp_key, padded))@
}

/// The padded data backwards with `digest` behind it.
pub fn inner_block_from(padded: &[u8], digest: &[u8; 32]) -> (r: Vec<u8>)
    ensures
        r@ == padded@.reverse() + digest@,
{
    let mut r: Vec<u8> = Vec::new();
    let mut i: usize = padded.len();
    while i > 0
        invariant
            i <= padded@.len(),
            r@.len() == padded@.len() - i,
            forall|j: int| 0 <= j < r@.len() ==> r@[j] == padded@[padded@.len() - 1 - j],
        decreases i,
    {
        i = i - 1;
        r.push(padded[i]);
    }
    assert(r@ =~= padded@.reverse());
    crate::bytes::push_slice(&mut r, digest.as_slice());
    r
}

/// What is encrypted under the random key.
pub fn make_inner_block(temp_key: &[u8; 32], padded: &[u8]) -> (r: Vec<u8>)
    ensures
        r@ == inner_block(temp_key@, padded@),
{
    let mut to_hash: Vec<u8> = Vec::new();
    crate::bytes::push_slice(&mut to_hash, temp_key.as_slice());
    crate::bytes::push_slice(&mut to_hash, padded);
    assert(to_hash@ =~= digest_input(temp_key@, padded@));
    let digest: [u8; 32] = crate::digest::sha256(to_hash.as_slice());
    inner_block_from(padded, &digest)
}

/// What RSA covers: the random key hidden by the digest of the cipher text, and
/// the cipher text.
pub open spec fn outer_block(temp_key: Seq<u8>, encrypted: Seq<u8>) -> Seq<u8> {
    xored(temp_key, sha256_of(encrypted)@, 32) + encrypted
}

/// The random key joined with `digest` by exclusive or, and the cipher text.
pub fn outer_block_from(temp_key: &[u8; 32], digest: &[u8; 32], encrypted: &[u8]) -> (r: Vec<u8>)
    ensures
        r@ == xored(temp_key@, digest@, 32) + encrypted@,
{
    let mut r: Vec<u8> = crate::dh::xor_front(temp_key.as_slice(), digest.as_slice(), 32);
    crate::bytes::push_slice(&mut r, encrypted);
    r
}

/// What RSA covers.
pub fn make_outer_block(temp_key: &[u8; 32], encrypted: &[u8]) -> (r: Vec<u8>)
    ensures
        r@ == outer_block(temp_key@, encrypted@),
{
    let digest: [u8; 32] = crate::digest::sha256(encrypted);
    outer_block_from(temp_key, &digest, encrypted)
}

/// Raw RSA of the block `m`: `m^e mod n` in at least 256 big-endian bytes;
/// nothing where `m` is not below the modulus.
pub open spec fn rsa_of(m: nat, n: nat, e: nat) -> Option<Seq<u8>> {
    if m >= n {
        None
    } else {
        Some(left_padded(be_minimal((pow(m as int, e) % (n as int)) as nat), 256))
    }
}

/// Raw RSA of a block; nothing where the block is not below the modulus.
pub fn rsa_encrypt_block(block: &[u8], key: &ServerKey) -> (r: Option<Vec<u8>>)
    ensures
        match r {
            Some(c) => rsa_of(be_value(block@), be_value(key.n@), be_value(key.e@)) == Some(c@),
            None => rsa_of(be_value(block@), be_value(key.n@), be_value(key.e@)) is None,
        },
{
    if crate::bignum::at_least(block, key.n.as_slice()) {
        return None;
    }
    let c: Vec<u8> = crate::bignum::mod_pow(block, key.e.as_slice(), key.n.as_slice());
    proof {
        crate::bignum::minimal_form_is_unique(c@);
    }
    Some(crate::bignum::left_pad(c.as_slice(), 256))
}

/// Whoever holds the outer block gets the random key back from it: the front of
/// the block joined by exclusive or with the digest of the rest.
pub proof fn outer_block_gives_key_back(temp_key: Seq<u8>, encrypted: Seq<u8>)
    requires
        temp_key.len() == 32,
    ensures
        ({
            let block = outer_block(temp_key, encrypted);
            let rest = block.subrange(32, block.len() as int);
            &&& rest == encrypted
            &&& xored(block.subrange(0, 32), sha256_of(rest)@, 32) == temp_key
        }),
{
    let block = outer_block(temp_key, encrypted);
    let rest = block.subrange(32, block.len() as int);
    assert(rest =~= encrypted);
    let d = sha256_of(encrypted)@;
    assert forall|i: int| 0 <= i < 32 implies xored(block.subrange(0, 32), d, 32)[i] == temp_key[i] by {
        let a: u8 = temp_key[i];
        let b: u8 = d[i];
        assert((a ^ b) ^ b == a) by (bit_vector);
        assert(block.subrange(0, 32)[i] == a ^ b);
    }
    assert(xored(block.subrange(0, 32), d, 32) =~= temp_key);
}

/// Whoever holds the inner block gets the padded data back from it, by reading
/// its front backwards, and finds the digest of key and data behind it.
pub proof fn inner_block_gives_data_back(temp_key: Seq<u8>, padded: Seq<u8>)
    ensures
        ({
            let block = inner_block(temp_key, padded);
            let n = padded.len() as int;
            &&& block.subrange(0, n).reverse() == padded
            &&& block.subrange(n, block.len() as int) == sha256_of(digest_input(temp_key, padded))@
        }),
{
    let block = inner_block(temp_key, padded);
    let n = padded.len() as int;
    assert(block.subrange(0, n) =~= padded.reverse());
    assert(padded.reverse().reverse() =~= padded);
    assert(block.subrange(n, block.len() as int) =~= sha256_of(digest_input(temp_key, padded))@);
}

/// Raw RSA under a key of at most 2048 bits gives 256 bytes, whose number is the
/// power of the block's number modulo the key's modulus.
pub proof fn rsa_block_is_256_bytes(m: nat, n: nat, e: nat)
    requires
        m < n <= vstd::arithmetic::power2::pow2(2048),
    ensures
        rsa_of(m, n, e) matches Some(c) && c.len() == 256 && be_value(c) == pow(m as int, e) % (n as int),
{
    let v = (pow(m as int, e) % (n as int)) as nat;
    crate::bignum::be_minimal_is_minimal(v);
    crate::bignum::lemma_pow256_is_pow2(256);
    crate::bignum::lemma_minimal_length(be_minimal(v), 256);
    crate::bignum::be_value_of_left_padded(be_minimal(v), 256);
}

/// The server undoes the covering: with the exponent `d` that inverts `e` on the
/// block's number, it gets the outer block back from what RSA gave, and with it
/// the random key and the cipher text.
pub proof fn server_uncovers_the_block(temp_key: Seq<u8>, encrypted: Seq<u8>, n: nat, e: nat, d: nat)
    requires
        temp_key.len() == 32,
        encrypted.len() == 224,
        be_value(outer_block(temp_key, encrypted)) < n <= vstd::arithmetic::power2::pow2(2048),
        pow(pow(be_value(outer_block(temp_key, encrypted)) as int, e) % (n as int), d) % (n as int)
            == be_value(outer_block(temp_key, encrypted)),
    ensures
        ({
            let block = outer_block(temp_key, encrypted);
            &&& rsa_of(be_value(block), n, e) matches Some(c)
            &&& left_padded(be_minimal((pow(be_value(c) as int, d) % (n as int)) as nat), 256) == block
            &&& block.subrange(32, 256) == encrypted
            &&& xored(block.subrange(0, 32), sha256_of(encrypted)@, 32) == temp_key
        }),
{
    let block = outer_block(temp_key, encrypted);
    rsa_block_is_256_bytes(be_value(block), n, e);
    crate::bignum::padded_form_is_unique(block);
    outer_block_gives_key_back(temp_key, encrypted);
}

/// What RSA gives of a block below the modulus is the power of the block's
/// number, in 256 bytes or as many as the power needs; of any other block it
/// gives nothing.
pub proof fn rsa_gives_the_power(m: nat, n: nat, e: nat)
    ensures
        match rsa_of(m, n, e) {
            Some(c) => m < n && c.len() >= 256 && be_value(c) == pow(m as int, e) % (n as int) && (c.len() > 256
                ==> c[0] != 0),
            None => n <= m,
        },
{
    if m < n {
        let v = (pow(m as int, e) % (n as int)) as nat;
        crate::bignum::be_minimal_is_minimal(v);
        crate::bignum::be_value_of_left_padded(be_minimal(v), 256);
    }
}

/// The digest in the inner block is that of the random key and the padded data.
pub proof fn inner_block_has_the_digest(temp_key: Seq<u8>, padded: Seq<u8>)
    ensures
        inner_block(temp_key, padded).len() == padded.len() + 32,
        inner_block(temp_key, padded).skip(padded.len() as int) == sha256_of(temp_key + padded)@,
        forall|i: int|
            0 <= i < padded.len() ==> #[trigger] inner_block(temp_key, padded)[i] == padded[padded.len() - 1 - i],
{
    assert(inner_block(temp_key, padded).skip(padded.len() as int) =~= sha256_of(temp_key + padded)@);
}

} // verus!
