//! Declarations of the outside key-generation types and the calls made into them.

use vstd::prelude::*;
use openmls_basic_credential::SignatureKeyPair;
use openmls_traits::signatures::{Signer, SignerError};
use openmls_traits::types::{Ciphersuite, CryptoError, SignatureScheme};

verus! {

#[verifier::external_type_specification]
pub struct ExCiphersuite(Ciphersuite);

#[verifier::external_type_specification]
pub struct ExSignatureScheme(SignatureScheme);

#[verifier::external_type_specification]
#[verifier::external_body]
pub struct ExSignatureKeyPair(SignatureKeyPair);

#[verifier::external_type_specification]
#[verifier::external_body]
pub struct ExCryptoError(CryptoError);

#[verifier::external_type_specification]
#[verifier::external_body]
pub struct ExSignerError(SignerError);

/// The signature scheme that a ciphersuite names.
pub open spec fn scheme_of(cs: Ciphersuite) -> SignatureScheme {
    match cs {
        Ciphersuite::MLS_128_DHKEMX25519_AES128GCM_SHA256_Ed25519 => SignatureScheme::ED25519,
        Ciphersuite::MLS_128_DHKEMP256_AES128GCM_SHA256_P256 => SignatureScheme::ECDSA_SECP256R1_SHA256,
        Ciphersuite::MLS_128_DHKEMX25519_CHACHA20POLY1305_SHA256_Ed25519 => SignatureScheme::ED25519,
        Ciphersuite::MLS_256_DHKEMX448_AES256GCM_SHA512_Ed448 => SignatureScheme::ED448,
        Ciphersuite::MLS_256_DHKEMP521_AES256GCM_SHA512_P521 => SignatureScheme::ECDSA_SECP521R1_SHA512,
        Ciphersuite::MLS_256_DHKEMX448_CHACHA20POLY1305_SHA512_Ed448 => SignatureScheme::ED448,
        Ciphersuite::MLS_256_DHKEMP384_AES256GCM_SHA384_P384 => SignatureScheme::ECDSA_SECP384R1_SHA384,
    }
}

/// The schemes for which key generation and signing are implemented.
pub open spec fn supported(s: SignatureScheme) -> bool {
    ||| s == SignatureScheme::ED25519
    ||| s == SignatureScheme::ECDSA_SECP256R1_SHA256
    ||| s == SignatureScheme::ECDSA_SECP384R1_SHA384
}

/// Relies on `Ciphersuite::signature_algorithm`: the signature scheme that a
/// ciphersuite names.
pub assume_specification[ Ciphersuite::signature_algorithm ](cs: &Ciphersuite) -> (r: SignatureScheme)
    ensures
        r == scheme_of(*cs),
;

/// Relies on `SignatureKeyPair::to_public_vec`: a copy of the public key.
pub assume_specification[ SignatureKeyPair::to_public_vec ](kp: &SignatureKeyPair) -> (r: Vec<u8>);

/// Relies on the derived `Clone` of `SignatureKeyPair` (feature `clonable`):
/// a field-by-field copy.
pub assume_specification[ <SignatureKeyPair as Clone>::clone ](kp: &SignatureKeyPair) -> (r: SignatureKeyPair)
    ensures
        r == *kp,
;

/// Relies on `SignatureKeyPair::new`: a fresh random key pair for Ed25519,
/// ECDSA P-256 and ECDSA P-384, and an error for every other scheme.
pub assume_specification[ SignatureKeyPair::new ](signature_scheme: SignatureScheme) -> (r: Result<SignatureKeyPair, CryptoError>)
    ensures
        supported(signature_scheme) <==> r is Ok,
;

/// A signature key pair that key generation made for a supported scheme.
/// Only `SigningKey::generate` builds one.
pub struct SigningKey {
    pair: SignatureKeyPair,
    scheme: Ghost<SignatureScheme>,
}

impl SigningKey {
    /// The scheme the pair was generated for.
    pub closed spec fn scheme(&self) -> SignatureScheme {
        self.scheme@
    }

    /// A fresh key pair for the scheme; an error exactly where the scheme is not supported.
    pub fn generate(signature_scheme: SignatureScheme) -> (r: Result<SigningKey, CryptoError>)
        ensures
            supported(signature_scheme) <==> r is Ok,
            r matches Ok(k) ==> k.scheme() == signature_scheme,
    {
        let pair = SignatureKeyPair::new(signature_scheme)?;
        Ok(SigningKey { pair, scheme: Ghost(signature_scheme) })
    }

    /// A copy of the public key.
    pub fn public_key(&self) -> Vec<u8> {
        self.pair.to_public_vec()
    }

    /// A copy of the key.
    pub fn duplicate(&self) -> (r: SigningKey)
        ensures
            r == *self,
    {
        SigningKey { pair: self.pair.clone(), scheme: self.scheme }
    }
}

/// The registered code point of a ciphersuite, as `u16::from` gives it.
pub open spec fn code_point(cs: Ciphersuite) -> u16 {
    match cs {
        Ciphersuite::MLS_128_DHKEMX25519_AES128GCM_SHA256_Ed25519 => 1,
        Ciphersuite::MLS_128_DHKEMP256_AES128GCM_SHA256_P256 => 2,
        Ciphersuite::MLS_128_DHKEMX25519_CHACHA20POLY1305_SHA256_Ed25519 => 3,
        Ciphersuite::MLS_256_DHKEMX448_AES256GCM_SHA512_Ed448 => 4,
        Ciphersuite::MLS_256_DHKEMP521_AES256GCM_SHA512_P521 => 5,
        Ciphersuite::MLS_256_DHKEMX448_CHACHA20POLY1305_SHA512_Ed448 => 6,
        Ciphersuite::MLS_256_DHKEMP384_AES256GCM_SHA384_P384 => 7,
    }
}

/// The registered code point of a ciphersuite.
pub fn suite_code(cs: Ciphersuite) -> (r: u16)
    ensures
        r == code_point(cs),
{
    match cs {
        Ciphersuite::MLS_128_DHKEMX25519_AES128GCM_SHA256_Ed25519 => 1,
        Ciphersuite::MLS_128_DHKEMP256_AES128GCM_SHA256_P256 => 2,
        Ciphersuite::MLS_128_DHKEMX25519_CHACHA20POLY1305_SHA256_Ed25519 => 3,
        Ciphersuite::MLS_256_DHKEMX448_AES256GCM_SHA512_Ed448 => 4,
        Ciphersuite::MLS_256_DHKEMP521_AES256GCM_SHA512_P521 => 5,
        Ciphersuite::MLS_256_DHKEMX448_CHACHA20POLY1305_SHA512_Ed448 => 6,
        Ciphersuite::MLS_256_DHKEMP384_AES256GCM_SHA384_P384 => 7,
    }
}

/// Relies on `<SignatureKeyPair as Signer>::sign`: a signature over the
/// payload with the pair's private key. It fails or panics only for a private
/// key that does not fit its scheme or an unsupported scheme, and a key that
/// `SignatureKeyPair::new` made for a supported scheme is neither.
#[verifier::external_body]
pub(crate) fn sign_payload(signer: &SigningKey, payload: &[u8]) -> (r: Result<Vec<u8>, SignerError>)
    ensures
        r is Ok,
{
    signer.pair.sign(payload)
}

} // verus!
