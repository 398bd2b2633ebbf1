use nettool::error::{ErrorCode, NetToolError};
use nettool::identity::{
    check_pair, decode_secret, encode_secret, settle_drawn, settle_generated, settle_stored,
    split_secret, validate_key_pair,
    IdentityMaterial, IdentityProvider, SecureSecretStore,
};
use std::cell::RefCell;

#[derive(Default)]
struct MemoryStore {
    secret: RefCell<Option<Vec<u8>>>,
}

impl SecureSecretStore for MemoryStore {
    fn get_secret(&mut self) -> Result<Option<Vec<u8>>, NetToolError> {
        Ok(self.secret.borrow().clone())
    }

    fn set_secret(&mut self, secret: &[u8]) -> Result<(), NetToolError> {
        *self.secret.borrow_mut() = Some(secret.to_vec());
        Ok(())
    }
}

#[test]
fn creates_and_reloads_stable_secure_identity() {
    let mut provider = IdentityProvider::new(MemoryStore::default(), vec!["localhost".to_owned()])
        .expect("provider");
    let first = provider.load_or_create().expect("create");
    let second = provider.load_or_create().expect("reload");
    assert_ne!(first.node_id, [0; 16]);
    assert_eq!(first.node_id, second.node_id);
    assert_eq!(first.certificate_chain[0], second.certificate_chain[0]);
    assert_eq!(first.private_key, second.private_key);
}

#[test]
fn rejects_corrupted_or_mismatched_secure_secret() {
    let store = MemoryStore::default();
    let mut provider = IdentityProvider::new(store, vec!["localhost".to_owned()]).expect("provider");
    provider.load_or_create().expect("create");
    provider
        .secret_store()
        .secret
        .borrow_mut()
        .as_mut()
        .expect("secret")[8..24]
        .fill(0);
    assert!(provider.load_or_create().is_err());
}

#[test]
fn rejects_certificate_and_private_key_mismatch() {
    let mut first = IdentityProvider::new(MemoryStore::default(), vec!["first.local".to_owned()])
        .expect("first provider");
    let mut second = IdentityProvider::new(MemoryStore::default(), vec!["second.local".to_owned()])
        .expect("second provider");
    first.load_or_create().expect("first identity");
    second.load_or_create().expect("second identity");
    let second_key = {
        let second_secret = second.secret_store().secret.borrow();
        let second_secret = second_secret.as_ref().expect("second secret");
        let second_certificate_length =
            u32::from_be_bytes(second_secret[24..28].try_into().expect("length")) as usize;
        second_secret[32 + second_certificate_length..].to_vec()
    };
    {
        let mut first_secret = first.secret_store().secret.borrow_mut();
        let first_secret = first_secret.as_mut().expect("first secret");
        let first_certificate_length =
            u32::from_be_bytes(first_secret[24..28].try_into().expect("length")) as usize;
        assert_eq!(
            first_secret.len() - 32 - first_certificate_length,
            second_key.len()
        );
        first_secret[32 + first_certificate_length..].copy_from_slice(&second_key);
    }
    assert!(first.load_or_create().is_err());
}

struct FailingStore;

impl SecureSecretStore for FailingStore {
    fn get_secret(&mut self) -> Result<Option<Vec<u8>>, NetToolError> {
        Err(NetToolError::new(
            ErrorCode::NodeTlsFailed,
            "secure store locked",
            false,
        ))
    }

    fn set_secret(&mut self, _secret: &[u8]) -> Result<(), NetToolError> {
        panic!("provider must not attempt a fallback write after read failure")
    }
}

#[test]
fn secure_store_failure_never_falls_back_to_new_identity() {
    let mut provider =
        IdentityProvider::new(FailingStore, vec!["localhost".to_owned()]).expect("provider");
    assert!(provider.load_or_create().is_err());
}

#[test]
fn rejects_invalid_subject_names_before_storage_access() {
    assert!(IdentityProvider::new(MemoryStore::default(), Vec::new()).is_err());
    assert!(IdentityProvider::new(
        MemoryStore::default(),
        vec!["node.local".to_owned(), "node.local".to_owned()]
    )
    .is_err());
}

#[test]
fn two_identities_differ() {
    let names = || vec!["localhost".to_owned()];
    let first = IdentityProvider::new(MemoryStore::default(), names())
        .expect("provider")
        .load_or_create()
        .expect("first");
    let second = IdentityProvider::new(MemoryStore::default(), names())
        .expect("provider")
        .load_or_create()
        .expect("second");
    assert_ne!(first.node_id, second.node_id);
    assert_ne!(first.private_key, second.private_key);
    assert!(validate_key_pair(&first.certificate_chain[0], &first.private_key).is_ok());
    assert!(validate_key_pair(&first.certificate_chain[0], &second.private_key).is_err());
    assert!(validate_key_pair(&[1, 2, 3], &first.private_key).is_err());
    let secret = encode_secret(&first).expect("secret");
    assert_eq!(decode_secret(&secret).expect("decoded"), first);
    assert_eq!(settle_stored(Ok(Some(secret))).expect("stored"), Some(first));
    assert_eq!(settle_stored(Ok(None)).expect("nothing"), None);
}

#[test]
fn secrets_are_laid_out_in_the_fixed_order() {
    let material = IdentityMaterial {
        node_id: [7; 16],
        certificate_chain: vec![vec![1, 2, 3]],
        private_key: vec![4, 5],
    };
    let secret = encode_secret(&material).expect("secret");
    assert_eq!(&secret[8..24], &[7; 16]);
    assert_eq!(&secret[24..28], &[0, 0, 0, 3]);
    assert_eq!(&secret[28..32], &[0, 0, 0, 2]);
    assert_eq!(&secret[32..], &[1, 2, 3, 4, 5]);
    assert_eq!(split_secret(&secret).expect("split"), material);
    assert!(split_secret(&secret[..31]).is_err());
    let mut long = secret.clone();
    long.push(0);
    assert!(split_secret(&long).is_err());
    let mut other = secret;
    other[0] ^= 0xff;
    assert!(split_secret(&other).is_err());
}

#[test]
fn what_chance_gives_is_settled() {
    let made = || Ok((vec![1, 2], vec![3]));
    let material = settle_generated(made(), Ok([7; 16])).expect("identity");
    assert_eq!(material.node_id, [7; 16]);
    assert_eq!(material.certificate_chain, [vec![1, 2]]);
    assert_eq!(material.private_key, [3]);
    let error = settle_generated(Err("no entropy".to_owned()), Ok([7; 16])).expect_err("failure");
    assert_eq!(error.code, ErrorCode::NodeTlsFailed);
    assert_eq!(
        error.message,
        "cannot generate identity certificate: no entropy"
    );
    let drawn = settle_drawn(Err("no entropy".to_owned())).expect_err("failure");
    assert_eq!(drawn.code, ErrorCode::RandomFailed);
    assert_eq!(drawn.message, "cannot generate Node ID: no entropy");
    assert_eq!(
        settle_generated(made(), Err(drawn)).expect_err("no identifier").message,
        "cannot generate Node ID: no entropy"
    );
    assert_eq!(settle_drawn(Ok(vec![0; 16])).expect("again"), None);
    let mut bytes = vec![0; 16];
    bytes[15] = 1;
    let id = settle_drawn(Ok(bytes.clone())).expect("identifier").expect("taken");
    assert_eq!(id.to_vec(), bytes);
}

#[test]
fn pairs_match_only_where_both_keys_are_the_same() {
    let certificate = Ok((Vec::new(), vec![1, 2]));
    let trailing = Ok((vec![0], vec![1, 2]));
    assert!(check_pair(&trailing, &Ok(vec![1, 2])).is_err());
    assert!(check_pair(&certificate, &Ok(vec![1, 2])).is_ok());
    assert!(check_pair(&certificate, &Ok(vec![1, 3])).is_err());
    assert!(check_pair(&certificate, &Err("bad key".to_owned())).is_err());
    assert!(check_pair(&Err("bad certificate".to_owned()), &Ok(vec![1, 2])).is_err());
}
