//! What the identity of a node is made from: the store of the secret and chance, with the
//! calls that were made of them written down one behind the other.

use crate::error::NetToolError;
use crate::identity::SecureSecretStore;
use crate::random::random_bytes;
use crate::text;
use vstd::prelude::*;

verus! {

/// `rcgen::generate_simple_self_signed` makes a key pair by chance and a certificate for it
/// with the given names. Returns certificate and private key, in DER. Nothing is said of
/// them. It panics where the random source, having worked for the new key, fails for the
/// check of that key.
#[verifier::external_body]
fn generate_certificate(names: Vec<String>) -> (r: Result<(Vec<u8>, Vec<u8>), String>) {
    match rcgen::generate_simple_self_signed(names) {
        Ok(made) => Ok((made.cert.der().to_vec(), made.signing_key.serialize_der())),
        Err(error) => Err(error.to_string()),
    }
}

/// A call and its answer.
pub enum VaultStep {
    /// The secret was asked for.
    Get(Result<Option<Vec<u8>>, NetToolError>),
    /// A secret was to be kept.
    Put(Seq<u8>, Result<(), NetToolError>),
    /// A certificate with such names was to be made.
    Certify(Seq<Seq<char>>, Result<(Vec<u8>, Vec<u8>), String>),
    /// Sixteen bytes were to be drawn.
    Draw(Result<Vec<u8>, String>),
}

/// A store of a secret, and chance, with the calls that were made of them.
pub struct Vault<S> {
    store: S,
    log: Ghost<Seq<VaultStep>>,
}

impl<S> Vault<S> {
    /// The store.
    pub closed spec fn store_view(self) -> S {
        self.store
    }

    /// The calls that were made, in their order, each with its answer.
    pub closed spec fn log(self) -> Seq<VaultStep> {
        self.log@
    }

    /// Nothing was called yet.
    pub fn new(store: S) -> (r: Self)
        ensures
            r.store_view() == store,
            r.log() == Seq::<VaultStep>::empty(),
    {
        Vault { store, log: Ghost(Seq::empty()) }
    }

    /// Returns the store.
    pub fn store(&self) -> (r: &S)
        ensures
            *r == self.store_view(),
    {
        &self.store
    }

    /// Makes a certificate with the given names and its private key, by chance.
    ///
    /// # Errors
    ///
    /// Fails with the text of what went wrong.
    pub fn certify(&mut self, names: Vec<String>) -> (r: Result<(Vec<u8>, Vec<u8>), String>)
        ensures
            final(self).store_view() == old(self).store_view(),
            final(self).log() == old(self).log().push(
                VaultStep::Certify(text::texts(names@), r),
            ),
    {
        let ghost handed = text::texts(names@);
        let r = generate_certificate(names);
        self.log = Ghost(self.log@.push(VaultStep::Certify(handed, r)));
        r
    }

    /// Draws sixteen bytes by chance.
    ///
    /// # Errors
    ///
    /// Fails with the text of what went wrong.
    pub fn draw(&mut self) -> (r: Result<Vec<u8>, String>)
        ensures
            final(self).store_view() == old(self).store_view(),
            final(self).log() == old(self).log().push(VaultStep::Draw(r)),
            r matches Ok(bytes) ==> bytes@.len() == 16,
    {
        let r = random_bytes(16);
        self.log = Ghost(self.log@.push(VaultStep::Draw(r)));
        r
    }
}

impl<S: SecureSecretStore> Vault<S> {
    /// Returns the secret, if there is one.
    ///
    /// # Errors
    ///
    /// Fails as the store does.
    pub fn get(&mut self) -> (r: Result<Option<Vec<u8>>, NetToolError>)
        ensures
            final(self).log() == old(self).log().push(VaultStep::Get(r)),
    {
        let r = self.store.get_secret();
        self.log = Ghost(self.log@.push(VaultStep::Get(r)));
        r
    }

    /// Keeps a secret.
    ///
    /// # Errors
    ///
    /// Fails as the store does.
    pub fn put(&mut self, secret: &[u8]) -> (r: Result<(), NetToolError>)
        ensures
            final(self).log() == old(self).log().push(VaultStep::Put(secret@, r)),
    {
        let r = self.store.set_secret(secret);
        self.log = Ghost(self.log@.push(VaultStep::Put(secret@, r)));
        r
    }
}

} // verus!
