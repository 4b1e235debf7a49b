//! The server's public key, which is part of the library.

use rsa::pkcs1::DecodeRsaPublicKey;
use rsa::traits::PublicKeyParts;
use vstd::prelude::*;

use crate::bytes::be_value;

verus! {

/// The fingerprint of the server's public key.
pub const SERVER_FINGERPRINT: u64 = 0x48544974114217e5;

/// The server's public key in PEM form.
pub const SERVER_PUBLIC_KEY_PEM: &'static str = "-----BEGIN RSA PUBLIC KEY-----\n\
MIIBCgKCAQEA1sEPmXKgjZ++EokQ3ru2C8Jl2qD8BLOsIqNfvTg/B6RjX9eJuQr9\n\
/JCmYFVW/rB9Zit2cogiC8NOLX3E4x+ml7/XdLRAJscEvTYfa6U5AREhJ0z1vxgG\n\
n/FvKvBt3ODXwta6aeTJAtCgyCzNpl2uFEPprALlpFUlXVyVtEWZkgo2iex76DTT\n\
L1L0uRo0ZtXE9cgacfR2a3jDqNnF55a0nmbxkbzq6DQaW30Pde7Rs7WobgDM8DBK\n\
+dNjo/e1CBpKgIZOSmMh8jJWQFWh/NSntN7NRlCy63+it87wl8q0cfJCYEeJBoeX\n\
yiIzl0RFlGOjUUaePVjTV6/sinCAGPFUDwIDAQAB\n\
-----END RSA PUBLIC KEY-----";

/// An RSA public key: modulus and exponent in big-endian bytes.
#[derive(Debug)]
pub struct ServerKey {
    pub n: Vec<u8>,
    pub e: Vec<u8>,
}

/// Why the server's public key is not used.
#[derive(Clone, Copy, Debug, PartialEq, Eq, Structural)]
pub enum KeyError {
    /// The server asked for a key with another fingerprint.
    FingerprintMismatch { got: u64 },
    /// The key's PEM form cannot be read.
    Unreadable,
    /// The key that was read has another fingerprint.
    ComputedMismatch { computed: u64 },
}

/// Why a public key in PEM form could not be read.
#[verifier::external_type_specification]
#[verifier::external_body]
pub struct ExPkcs1Error(rsa::pkcs1::Error);

/// The modulus and the exponent of the RSA public key in the PEM text `pem`, in
/// big-endian bytes; nothing where it is no such text.
pub uninterp spec fn pkcs1_public_key(pem: Seq<char>) -> Option<(Seq<u8>, Seq<u8>)>;

/// `RsaPublicKey::from_pkcs1_pem`: the key in a PEM text, which depends on the
/// text alone. A key is given only where its exponent is two or more and below
/// the modulus.
#[verifier::external_body]
fn public_key_from_pem(pem: &str) -> (r: Result<(Vec<u8>, Vec<u8>), rsa::pkcs1::Error>)
    ensures
        match r {
            Ok((n, e)) => {
                &&& pkcs1_public_key(pem@) == Some((n@, e@))
                &&& 2 <= be_value(e@) < be_value(n@)
            },
            Err(_) => pkcs1_public_key(pem@) is None,
        },
{
    match rsa::RsaPublicKey::from_pkcs1_pem(pem) {
        Ok(key) => Ok((key.n().to_bytes_be(), key.e().to_bytes_be())),
        Err(e) => Err(e),
    }
}

/// The server's public key, for the fingerprint that the server named.
pub fn load_public_key_by_fingerprint(fingerprint: u64) -> (r: Result<ServerKey, KeyError>)
    ensures
        match r {
            Ok(key) => {
                &&& fingerprint == SERVER_FINGERPRINT
                &&& pkcs1_public_key(SERVER_PUBLIC_KEY_PEM@) == Some((key.n@, key.e@))
                &&& 2 <= be_value(key.e@) < be_value(key.n@)
            },
            Err(KeyError::FingerprintMismatch { got }) => {
                fingerprint != SERVER_FINGERPRINT && got == fingerprint
            },
            Err(KeyError::Unreadable) => {
                fingerprint == SERVER_FINGERPRINT && pkcs1_public_key(SERVER_PUBLIC_KEY_PEM@) is None
            },
            Err(KeyError::ComputedMismatch { .. }) => false,
        },
{
    if fingerprint != SERVER_FINGERPRINT {
        return Err(KeyError::FingerprintMismatch { got: fingerprint });
    }
    match public_key_from_pem(SERVER_PUBLIC_KEY_PEM) {
        Ok((n, e)) => Ok(ServerKey { n, e }),
        Err(_) => Err(KeyError::Unreadable),
    }
}

/// Holds the fingerprint that was computed of the key against the one that the
/// key must have.
pub fn confirm_fingerprint(computed: u64) -> (r: Result<(), KeyError>)
    ensures
        r == if computed == SERVER_FINGERPRINT {
            Ok::<(), KeyError>(())
        } else {
            Err(KeyError::ComputedMismatch { computed })
        },
{
    if computed != SERVER_FINGERPRINT {
        return Err(KeyError::ComputedMismatch { computed });
    }
    Ok(())
}

} // verus!
