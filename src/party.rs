//! A party's durable context, and the credential and key package it holds
//! before it belongs to any group.

use vstd::prelude::*;
use vstd::string::StringSliceAdditionalSpecFns;
use openmls_traits::types::{Ciphersuite, SignatureScheme};
use crate::crypto::{SigningKey, code_point, scheme_of, sign_payload, suite_code, supported};
use crate::engine::{KeyPackage, TestError};

verus! {

/// A copy of a byte string.
pub fn copy_bytes(b: &Vec<u8>) -> (r: Vec<u8>)
    ensures
        r@ == b@,
{
    let mut out: Vec<u8> = Vec::new();
    let mut i: usize = 0;
    while i < b.len()
        invariant
            i <= b.len(),
            out@ == b@.take(i as int),
        decreases b.len() - i,
    {
        out.push(b[i]);
        i += 1;
        assert(out@ =~= b@.take(i as int));
    }
    assert(b@.take(b@.len() as int) =~= b@);
    out
}

/// `r` is the first pair held under `public_key`, or `None` where none is.
pub open spec fn first_under(
    pairs: Seq<(Seq<u8>, SigningKey)>,
    public_key: Seq<u8>,
    r: Option<SigningKey>,
) -> bool {
    match r {
        Some(k) => exists|i: int|
            0 <= i < pairs.len() && pairs[i] == (public_key, k) && forall|j: int|
                0 <= j < i ==> pairs[j].0 != public_key,
        None => forall|i: int| 0 <= i < pairs.len() ==> pairs[i].0 != public_key,
    }
}

/// A party's key storage: the signature key pairs it has persisted, each
/// under its public key.
pub struct KeyStore {
    entries: Vec<(Vec<u8>, SigningKey)>,
}

impl KeyStore {
    /// The persisted pairs, each with the public key it is held under.
    pub closed spec fn pairs(&self) -> Seq<(Seq<u8>, SigningKey)> {
        self.entries@.map_values(|e: (Vec<u8>, SigningKey)| (e.0@, e.1))
    }

    /// The public keys held, in the order they were persisted.
    pub open spec fn stored(&self) -> Seq<Seq<u8>> {
        self.pairs().map_values(|e: (Seq<u8>, SigningKey)| e.0)
    }

    /// An empty store.
    pub fn new() -> (r: KeyStore)
        ensures
            r.pairs() == Seq::<(Seq<u8>, SigningKey)>::empty(),
    {
        let r = KeyStore { entries: Vec::new() };
        assert(r.pairs() =~= Seq::<(Seq<u8>, SigningKey)>::empty());
        r
    }

    /// Persists a signature key pair under its public key.
    pub fn store_signature_key_pair(&mut self, public_key: &Vec<u8>, key_pair: &SigningKey)
        ensures
            final(self).pairs() == old(self).pairs().push((public_key@, *key_pair)),
    {
        self.entries.push((copy_bytes(public_key), key_pair.duplicate()));
        assert(self.pairs() =~= old(self).pairs().push((public_key@, *key_pair)));
    }

    /// Loads the first key pair persisted under a public key.
    pub fn read_signature_key_pair(&self, public_key: &Vec<u8>) -> (r: Option<SigningKey>)
        ensures
            first_under(self.pairs(), public_key@, r),
    {
        let mut i: usize = 0;
        while i < self.entries.len()
            invariant
                i <= self.entries.len(),
                forall|j: int| 0 <= j < i ==> self.pairs()[j].0 != public_key@,
            decreases self.entries.len() - i,
        {
            if self.entries[i].0 == *public_key {
                let k = self.entries[i].1.duplicate();
                assert(self.pairs()[i as int] == (public_key@, k));
                return Some(k);
            }
            i += 1;
        }
        None
    }
}

impl Default for KeyStore {
    fn default() -> (r: KeyStore)
        ensures
            r.pairs() == Seq::<(Seq<u8>, SigningKey)>::empty(),
    {
        KeyStore::new()
    }
}

/// An identity together with the public key it signs with.
#[derive(Debug, Clone)]
pub struct CredentialWithKey {
    pub identity: String,
    pub signature_key: Vec<u8>,
}

/// Creates a credential for `identity` with a fresh key pair of the scheme, and
/// persists the pair in the store under its public key.
pub(crate) fn generate_credential(
    identity: &String,
    signature_algorithm: SignatureScheme,
    provider: &mut KeyStore,
) -> (r: Result<(CredentialWithKey, SigningKey), TestError>)
    ensures
        match r {
            Ok((c, k)) => c.identity@ == identity@ && k.scheme() == signature_algorithm
                && final(provider).pairs() == old(provider).pairs().push((c.signature_key@, k)),
            Err(e) => e == TestError::StorageError && *final(provider) == *old(provider),
        },
        supported(signature_algorithm) <==> r is Ok,
{
    let signature_keys = match SigningKey::generate(signature_algorithm) {
        Ok(k) => k,
        Err(_) => {
            return Err(TestError::StorageError);
        },
    };
    let public_key = signature_keys.public_key();
    provider.store_signature_key_pair(&public_key, &signature_keys);
    Ok((CredentialWithKey { identity: identity.clone(), signature_key: public_key }, signature_keys))
}

/// The bytes a key package's signature covers: the identity's UTF-8 bytes,
/// the signature key, and the ciphersuite code point, high byte first.
pub open spec fn key_package_tbs(identity: Seq<char>, signature_key: Seq<u8>, ciphersuite: u16) -> Seq<
    u8,
> {
    vstd::utf8::encode_utf8(identity) + signature_key + seq![
        (ciphersuite / 256) as u8,
        (ciphersuite % 256) as u8,
    ]
}

/// Appends bytes to a buffer.
fn append_bytes(out: &mut Vec<u8>, b: &[u8])
    ensures
        final(out)@ == old(out)@ + b@,
{
    let mut i: usize = 0;
    while i < b.len()
        invariant
            i <= b@.len(),
            out@ == old(out)@ + b@.take(i as int),
        decreases b@.len() - i,
    {
        out.push(b[i]);
        i += 1;
        assert(out@ =~= old(out)@ + b@.take(i as int));
    }
    assert(b@.take(b@.len() as int) =~= b@);
}

/// The bytes a key package's signature covers.
pub fn key_package_payload(identity: &String, signature_key: &Vec<u8>, ciphersuite: u16) -> (r: Vec<
    u8,
>)
    ensures
        r@ == key_package_tbs(identity@, signature_key@, ciphersuite),
{
    let mut out: Vec<u8> = Vec::new();
    append_bytes(&mut out, identity.as_str().as_bytes());
    append_bytes(&mut out, signature_key.as_slice());
    out.push((ciphersuite / 256) as u8);
    out.push((ciphersuite % 256) as u8);
    assert(out@ =~= key_package_tbs(identity@, signature_key@, ciphersuite));
    out
}

/// The key package that announces a credential for a ciphersuite, signed by
/// the credential's key pair.
pub(crate) fn generate_key_package(
    ciphersuite: u16,
    credential_with_key: &CredentialWithKey,
    signer: &SigningKey,
) -> (r: Result<KeyPackage, TestError>)
    ensures
        match r {
            Ok(kp) => kp.identity@ == credential_with_key.identity@ && kp.signature_key@
                == credential_with_key.signature_key@ && kp.ciphersuite == ciphersuite,
            Err(e) => e == TestError::StorageError,
        },
        r is Ok,
{
    let payload = key_package_payload(
        &credential_with_key.identity,
        &credential_with_key.signature_key,
        ciphersuite,
    );
    let signature = match sign_payload(signer, payload.as_slice()) {
        Ok(s) => s,
        Err(_) => {
            return Err(TestError::StorageError);
        },
    };
    Ok(
        KeyPackage {
            identity: credential_with_key.identity.clone(),
            signature_key: copy_bytes(&credential_with_key.signature_key),
            ciphersuite,
            signature,
        },
    )
}

/// A party's global state: its name and its key storage.
pub struct CorePartyState {
    name: String,
    provider: KeyStore,
}

/// A party's state before it joins a group: consumed by the one member
/// state made from it.
pub struct PreGroupPartyState {
    pub name: String,
    pub ciphersuite: u16,
    pub credential_with_key: CredentialWithKey,
    pub key_package: KeyPackage,
    pub signer: SigningKey,
}

impl CorePartyState {
    pub closed spec fn name_view(&self) -> Seq<char> {
        self.name@
    }

    pub closed spec fn stored_pairs(&self) -> Seq<(Seq<u8>, SigningKey)> {
        self.provider.pairs()
    }

    /// A party with this name and an empty key store.
    pub fn new(name: &str) -> (r: CorePartyState)
        ensures
            r.name_view() == name@,
            r.stored_pairs() == Seq::<(Seq<u8>, SigningKey)>::empty(),
    {
        CorePartyState { name: name.to_owned(), provider: KeyStore::new() }
    }

    pub fn name(&self) -> (r: &String)
        ensures
            r@ == self.name_view(),
    {
        &self.name
    }

    /// Loads the signature key pair the party persisted under a public key.
    pub fn read_signer(&self, public_key: &Vec<u8>) -> (r: Option<SigningKey>)
        ensures
            first_under(self.stored_pairs(), public_key@, r),
    {
        self.provider.read_signature_key_pair(public_key)
    }

    /// Creates a credential and signature key pair for the ciphersuite's scheme,
    /// persists the pair, and makes the one key package bound to the suite.
    pub fn generate_pre_group(&mut self, ciphersuite: Ciphersuite) -> (r: Result<
        PreGroupPartyState,
        TestError,
    >)
        ensures
            final(self).name_view() == old(self).name_view(),
            match r {
                Ok(p) => {
                    &&& p.name@ == old(self).name_view()
                    &&& p.credential_with_key.identity@ == old(self).name_view()
                    &&& p.key_package.identity@ == old(self).name_view()
                    &&& p.key_package.signature_key@ == p.credential_with_key.signature_key@
                    &&& p.ciphersuite == code_point(ciphersuite)
                    &&& p.signer.scheme() == scheme_of(ciphersuite)
                    &&& p.key_package.ciphersuite == p.ciphersuite
                    &&& final(self).stored_pairs() == old(self).stored_pairs().push(
                        (p.credential_with_key.signature_key@, p.signer),
                    )
                },
                Err(e) => e == TestError::StorageError && final(self).stored_pairs() == old(
                    self,
                ).stored_pairs(),
            },
            supported(scheme_of(ciphersuite)) <==> r is Ok,
    {
        let code = suite_code(ciphersuite);
        let (credential_with_key, signer) = generate_credential(
            &self.name,
            ciphersuite.signature_algorithm(),
            &mut self.provider,
        )?;
        let key_package = generate_key_package(code, &credential_with_key, &signer)?;
        Ok(
            PreGroupPartyState {
                name: self.name.clone(),
                ciphersuite: code,
                credential_with_key,
                key_package,
                signer,
            },
        )
    }
}

impl PreGroupPartyState {
    /// A copy of the party's key package, to hand to a group that adds it.
    pub fn key_package(&self) -> (r: KeyPackage)
        ensures
            r.identity@ == self.key_package.identity@,
            r.signature_key@ == self.key_package.signature_key@,
            r.ciphersuite == self.key_package.ciphersuite,
            r.signature@ == self.key_package.signature@,
    {
        KeyPackage {
            identity: self.key_package.identity.clone(),
            signature_key: copy_bytes(&self.key_package.signature_key),
            ciphersuite: self.key_package.ciphersuite,
            signature: copy_bytes(&self.key_package.signature),
        }
    }
}

} // verus!
