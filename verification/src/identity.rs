//! The identity of a node: how it is made, kept and checked.

use crate::error::{ErrorCode, NetToolError};
use crate::octets;
use crate::octets::{push_be32, push_bytes, read_be32, same_bytes};
use crate::text;
use crate::text::{byte_len, concat, same, trim};
use crate::vault::{Vault, VaultStep};
use rcgen::PublicKeyData;
use vstd::prelude::*;
use vstd::utf8::encode_utf8;

verus! {

/// The largest certificate.
pub const MAX_CERTIFICATE_BYTES: usize = 65536;

/// The largest private key.
pub const MAX_PRIVATE_KEY_BYTES: usize = 65536;

/// The name of the service under which the platform keeps the identity.
pub const SERVICE_NAME: &'static str = "com.nettool.node-identity";

/// The name of the account under which the platform keeps the identity.
pub const ACCOUNT_NAME: &'static str = "default";

/// The identity of a node.
#[derive(Clone, Debug, PartialEq, Eq)]
pub struct IdentityMaterial {
    /// The identifier of the node; never zero.
    pub node_id: [u8; 16],
    /// The certificates, in DER; the first one is that of the identity.
    pub certificate_chain: Vec<Vec<u8>>,
    /// The private key, in PKCS 8.
    pub private_key: Vec<u8>,
}

/// Something that keeps a secret safely.
pub trait SecureSecretStore {
    /// Returns the secret, if there is one.
    fn get_secret(&mut self) -> Result<Option<Vec<u8>>, NetToolError>;

    /// Keeps a secret.
    fn set_secret(&mut self, secret: &[u8]) -> Result<(), NetToolError>;
}

// ------------------------------------------------------------------------------ outside

/// What `x509_parser::parse_x509_certificate` makes of bytes: what is left behind the
/// certificate and its public key information, or the text of an error.
pub uninterp spec fn certificate_parts(bytes: Seq<u8>) -> Result<(Seq<u8>, Seq<u8>), Seq<char>>;

/// `x509_parser::parse_x509_certificate` reads a certificate. What is left of the bytes, the
/// raw public key information and the text of an error depend on the bytes alone.
#[verifier::external_body]
fn parse_certificate(bytes: &[u8]) -> (r: Result<(Vec<u8>, Vec<u8>), String>)
    ensures
        match r {
            Ok((rest, key)) => certificate_parts(bytes@) == Ok::<
                (Seq<u8>, Seq<u8>),
                Seq<char>,
            >((rest@, key@)),
            Err(message) => certificate_parts(bytes@) == Err::<(Seq<u8>, Seq<u8>), Seq<char>>(
                message@,
            ),
        },
{
    match x509_parser::parse_x509_certificate(bytes) {
        Ok((rest, c)) => Ok((rest.to_vec(), c.public_key().raw.to_vec())),
        Err(error) => Err(error.to_string()),
    }
}

/// The public key information that `rcgen::KeyPair::try_from` finds in a private key that it
/// can read.
pub uninterp spec fn key_information(bytes: Seq<u8>) -> Seq<u8>;

/// `rcgen::KeyPair::try_from` reads a private key. Where it succeeds, the public key
/// information depends on the bytes alone. Whether it succeeds does not, as the check of a key
/// draws on the random source, and nothing is said of the text of an error.
#[verifier::external_body]
fn parse_private_key(bytes: &[u8]) -> (r: Result<Vec<u8>, String>)
    ensures
        r matches Ok(key) ==> key@ == key_information(bytes@),
{
    match rcgen::KeyPair::try_from(bytes) {
        Ok(pair) => Ok(pair.subject_public_key_info()),
        Err(error) => Err(error.to_string()),
    }
}

/// What reading a private key gave.
pub open spec fn key_view(key: Result<Vec<u8>, String>) -> Result<Seq<u8>, Seq<char>> {
    match key {
        Ok(public) => Ok(public@),
        Err(message) => Err(message@),
    }
}

/// Whether reading a private key can have given that: its public key information, or any error.
pub open spec fn key_read(bytes: Seq<u8>, key: Result<Seq<u8>, Seq<char>>) -> bool {
    key matches Ok(public) ==> public == key_information(bytes)
}

// ------------------------------------------------------------------------- the kept secret

/// What a kept secret begins with.
pub open spec fn magic() -> Seq<u8> {
    seq![0x4e, 0x54, 0x49, 0x44, 0, 0, 0, 1]
}

/// Why lengths cannot be those of a certificate and a key, if they cannot.
pub open spec fn lengths_fault(certificate: nat, key: nat) -> Option<Seq<char>> {
    if certificate == 0 || certificate > MAX_CERTIFICATE_BYTES {
        Some("identity certificate length is invalid"@)
    } else if key == 0 || key > MAX_PRIVATE_KEY_BYTES {
        Some("identity private key length is invalid"@)
    } else {
        None
    }
}

/// Why certificate and private key do not belong together, if they do not, from what reading
/// them gave.
pub open spec fn pair_fault(
    certificate: Result<(Seq<u8>, Seq<u8>), Seq<char>>,
    key: Result<Seq<u8>, Seq<char>>,
) -> Option<Seq<char>> {
    match certificate {
        Err(message) => Some("identity certificate is invalid: "@ + message),
        Ok((rest, certified)) => if rest.len() > 0 {
            Some("identity certificate contains trailing data"@)
        } else {
            match key {
                Err(message) => Some("identity private key is invalid: "@ + message),
                Ok(public) => if certified != public {
                    Some("identity certificate and private key do not match"@)
                } else {
                    None
                },
            }
        },
    }
}

/// Whether certificate and private key were found to belong together, or refused.
pub open spec fn is_pair(
    certificate: Result<(Seq<u8>, Seq<u8>), Seq<char>>,
    key: Result<Seq<u8>, Seq<char>>,
    r: Result<(), NetToolError>,
) -> bool {
    match r {
        Ok(_) => pair_fault(certificate, key) is None,
        Err(e) => pair_fault(certificate, key) is Some && e.is(
            ErrorCode::NodeTlsFailed,
            pair_fault(certificate, key)->0,
            false,
        ),
    }
}

/// The bytes of a kept secret: what it begins with, the identifier, the lengths, the
/// certificate and the key.
pub open spec fn secret_bytes(node_id: Seq<u8>, certificate: Seq<u8>, key: Seq<u8>) -> Seq<u8> {
    magic() + node_id + octets::be32(certificate.len() as u32) + octets::be32(key.len() as u32)
        + certificate + key
}

/// The length of the certificate in a kept secret.
pub open spec fn kept_certificate_length(secret: Seq<u8>) -> nat {
    octets::be_value(secret.subrange(24, 28))
}

/// The length of the key in a kept secret.
pub open spec fn kept_key_length(secret: Seq<u8>) -> nat {
    octets::be_value(secret.subrange(28, 32))
}

/// The certificate in a kept secret.
pub open spec fn kept_certificate(secret: Seq<u8>) -> Seq<u8> {
    secret.subrange(32, 32int + kept_certificate_length(secret))
}

/// The key in a kept secret.
pub open spec fn kept_key(secret: Seq<u8>) -> Seq<u8> {
    secret.skip(32int + kept_certificate_length(secret))
}

/// Whether all bytes are zero.
pub open spec fn all_zero(bytes: Seq<u8>) -> bool {
    forall|i: int| 0 <= i < bytes.len() ==> #[trigger] bytes[i] == 0
}

/// Why the layout of a kept secret is wrong, if it is.
pub open spec fn layout_fault(secret: Seq<u8>) -> Option<Seq<char>> {
    if secret.len() < 32 || secret.take(8) != magic() {
        Some("secure identity secret has an invalid header"@)
    } else if all_zero(secret.subrange(8, 24)) {
        Some("secure identity Node ID must not be zero"@)
    } else if lengths_fault(
        kept_certificate_length(secret),
        kept_key_length(secret),
    ) is Some {
        lengths_fault(kept_certificate_length(secret), kept_key_length(secret))
    } else if secret.len() != 32 + kept_certificate_length(secret) + kept_key_length(secret) {
        Some("secure identity secret length is inconsistent"@)
    } else {
        None
    }
}

/// Why a kept secret is refused, if it is, from what reading its key gave.
pub open spec fn secret_fault(
    secret: Seq<u8>,
    key: Result<Seq<u8>, Seq<char>>,
) -> Option<Seq<char>> {
    match layout_fault(secret) {
        Some(fault) => Some(fault),
        None => pair_fault(certificate_parts(kept_certificate(secret)), key),
    }
}

/// Whether an identity is the one in a kept secret.
pub open spec fn holds(material: IdentityMaterial, secret: Seq<u8>) -> bool {
    &&& material.node_id@ == secret.subrange(8, 24)
    &&& material.certificate_chain@.len() == 1
    &&& material.certificate_chain@[0]@ == kept_certificate(secret)
    &&& material.private_key@ == kept_key(secret)
}

fn validate_lengths(certificate: usize, key: usize) -> (r: Result<(), NetToolError>)
    ensures
        match r {
            Ok(_) => lengths_fault(certificate as nat, key as nat) is None,
            Err(e) => lengths_fault(certificate as nat, key as nat) is Some && e.is(
                ErrorCode::NodeTlsFailed,
                lengths_fault(certificate as nat, key as nat)->0,
                false,
            ),
        },
{
    if certificate == 0 || certificate > MAX_CERTIFICATE_BYTES {
        return Err(identity_error("identity certificate length is invalid"));
    }
    if key == 0 || key > MAX_PRIVATE_KEY_BYTES {
        return Err(identity_error("identity private key length is invalid"));
    }
    Ok(())
}

fn push_magic(out: &mut Vec<u8>)
    ensures
        final(out)@ == old(out)@ + magic(),
{
    let ghost before = out@;
    out.push(0x4e);
    out.push(0x54);
    out.push(0x49);
    out.push(0x44);
    out.push(0);
    out.push(0);
    out.push(0);
    out.push(1);
    proof {
        assert(out@ =~= before + magic());
    }
}

/// Whether an identity was encoded, or refused.
pub open spec fn is_encoded(
    material: IdentityMaterial,
    r: Result<Vec<u8>, NetToolError>,
) -> bool {
    match r {
        Ok(secret) => {
            &&& material.certificate_chain@.len() > 0
            &&& lengths_fault(
                material.certificate_chain@[0]@.len(),
                material.private_key@.len(),
            ) is None
            &&& secret@ == secret_bytes(
                material.node_id@,
                material.certificate_chain@[0]@,
                material.private_key@,
            )
        },
        Err(e) => if material.certificate_chain@.len() == 0 {
            e.is(ErrorCode::NodeTlsFailed, "identity certificate chain is empty"@, false)
        } else {
            let fault = lengths_fault(
                material.certificate_chain@[0]@.len(),
                material.private_key@.len(),
            );
            fault is Some && e.is(ErrorCode::NodeTlsFailed, fault->0, false)
        },
    }
}

/// Writes an identity as the secret to keep.
///
/// # Errors
///
/// Fails when there is no certificate, and when certificate or key are empty or too long.
pub fn encode_secret(material: &IdentityMaterial) -> (r: Result<Vec<u8>, NetToolError>)
    ensures
        is_encoded(*material, r),
{
    if material.certificate_chain.len() == 0 {
        return Err(identity_error("identity certificate chain is empty"));
    }
    let certificate = material.certificate_chain[0].as_slice();
    let key = material.private_key.as_slice();
    match validate_lengths(certificate.len(), key.len()) {
        Ok(_) => {},
        Err(e) => {
            return Err(e);
        },
    }
    let mut secret: Vec<u8> = Vec::new();
    push_magic(&mut secret);
    push_bytes(&mut secret, &material.node_id);
    push_be32(&mut secret, certificate.len() as u32);
    push_be32(&mut secret, key.len() as u32);
    push_bytes(&mut secret, certificate);
    push_bytes(&mut secret, key);
    proof {
        assert(secret@ =~= secret_bytes(
            material.node_id@,
            material.certificate_chain@[0]@,
            material.private_key@,
        ));
    }
    Ok(secret)
}

fn is_all_zero(bytes: &[u8]) -> (r: bool)
    ensures
        r == all_zero(bytes@),
{
    let mut i: usize = 0;
    while i < bytes.len()
        invariant
            i <= bytes@.len(),
            forall|j: int| 0 <= j < i ==> #[trigger] bytes@[j] == 0,
        decreases bytes@.len() - i,
    {
        if bytes[i] != 0 {
            return false;
        }
        i += 1;
    }
    true
}

fn has_magic(secret: &[u8]) -> (r: bool)
    requires
        secret@.len() >= 8,
    ensures
        r == (secret@.take(8) == magic()),
{
    let r: bool = secret[0] == 0x4e && secret[1] == 0x54 && secret[2] == 0x49 && secret[3] == 0x44
        && secret[4] == 0 && secret[5] == 0 && secret[6] == 0 && secret[7] == 1;
    proof {
        let t = secret@.take(8);
        if r {
            assert(t =~= magic());
        } else if t == magic() {
            assert(t[0] == magic()[0] && t[1] == magic()[1] && t[2] == magic()[2] && t[3]
                == magic()[3]);
            assert(t[4] == magic()[4] && t[5] == magic()[5] && t[6] == magic()[6] && t[7]
                == magic()[7]);
        }
    }
    r
}

fn sixteen(bytes: &[u8]) -> (r: [u8; 16])
    requires
        bytes@.len() == 16,
    ensures
        r@ == bytes@,
{
    let r = [
        bytes[0],
        bytes[1],
        bytes[2],
        bytes[3],
        bytes[4],
        bytes[5],
        bytes[6],
        bytes[7],
        bytes[8],
        bytes[9],
        bytes[10],
        bytes[11],
        bytes[12],
        bytes[13],
        bytes[14],
        bytes[15],
    ];
    proof {
        assert(r@ =~= bytes@);
    }
    r
}

/// Decides whether certificate and private key belong together, from what reading them gave.
///
/// # Errors
///
/// Fails when one of them cannot be read, when something is left behind the certificate and
/// when the public keys differ.
pub fn check_pair(
    certificate: &Result<(Vec<u8>, Vec<u8>), String>,
    key: &Result<Vec<u8>, String>,
) -> (r: Result<(), NetToolError>)
    ensures
        is_pair(
            match certificate {
                Ok(parts) => Ok((parts.0@, parts.1@)),
                Err(message) => Err(message@),
            },
            key_view(*key),
            r,
        ),
{
    match certificate {
        Err(message) => Err(
            identity_error(concat("identity certificate is invalid: ", message.as_str()).as_str()),
        ),
        Ok(parts) => {
            if parts.0.len() > 0 {
                return Err(identity_error("identity certificate contains trailing data"));
            }
            match key {
                Err(message) => Err(
                    identity_error(
                        concat("identity private key is invalid: ", message.as_str()).as_str(),
                    ),
                ),
                Ok(public) => {
                    if !same_bytes(parts.1.as_slice(), public.as_slice()) {
                        return Err(
                            identity_error("identity certificate and private key do not match"),
                        );
                    }
                    Ok(())
                },
            }
        },
    }
}

/// Checks that a certificate and a private key belong together.
///
/// # Errors
///
/// Fails when one of them cannot be read, when something is left behind the certificate and
/// when the public keys differ.
pub fn validate_key_pair(certificate: &[u8], private_key: &[u8]) -> (r: Result<(), NetToolError>)
    ensures
        exists|key: Result<Seq<u8>, Seq<char>>| #[trigger]
            key_read(private_key@, key) && is_pair(certificate_parts(certificate@), key, r),
{
    let read = parse_private_key(private_key);
    proof {
        assert(key_read(private_key@, key_view(read)));
    }
    check_pair(&parse_certificate(certificate), &read)
}

/// Takes a kept secret apart, without a look at certificate and key.
///
/// # Errors
///
/// Fails when the layout is wrong.
pub fn split_secret(secret: &[u8]) -> (r: Result<IdentityMaterial, NetToolError>)
    ensures
        match r {
            Ok(material) => layout_fault(secret@) is None && holds(material, secret@),
            Err(e) => layout_fault(secret@) is Some && e.is(
                ErrorCode::NodeTlsFailed,
                layout_fault(secret@)->0,
                false,
            ),
        },
{
    if secret.len() < 32 || !has_magic(secret) {
        return Err(identity_error("secure identity secret has an invalid header"));
    }
    let node_id = vstd::slice::slice_subrange(secret, 8, 24);
    if is_all_zero(node_id) {
        return Err(identity_error("secure identity Node ID must not be zero"));
    }
    let certificate_length: usize = read_be32(secret, 24) as usize;
    let key_length: usize = read_be32(secret, 28) as usize;
    match validate_lengths(certificate_length, key_length) {
        Ok(_) => {},
        Err(e) => {
            return Err(e);
        },
    }
    if secret.len() != 32 + certificate_length + key_length {
        return Err(identity_error("secure identity secret length is inconsistent"));
    }
    let certificate = vstd::slice::slice_subrange(secret, 32, 32 + certificate_length);
    let key = vstd::slice::slice_subrange(secret, 32 + certificate_length, secret.len());
    proof {
        assert(key@ =~= kept_key(secret@));
    }
    let mut certificate_chain: Vec<Vec<u8>> = Vec::new();
    certificate_chain.push(vstd::slice::slice_to_vec(certificate));
    Ok(
        IdentityMaterial {
            node_id: sixteen(node_id),
            certificate_chain,
            private_key: vstd::slice::slice_to_vec(key),
        },
    )
}

/// Whether the identity in a kept secret was taken, or refused, from what reading its key gave.
pub open spec fn is_taken(
    secret: Seq<u8>,
    key: Result<Seq<u8>, Seq<char>>,
    r: Result<IdentityMaterial, NetToolError>,
) -> bool {
    match r {
        Ok(material) => secret_fault(secret, key) is None && holds(material, secret),
        Err(e) => secret_fault(secret, key) is Some && e.is(
            ErrorCode::NodeTlsFailed,
            secret_fault(secret, key)->0,
            false,
        ),
    }
}

/// Whether the identity in a kept secret was taken, or refused.
pub open spec fn is_decoded(
    secret: Seq<u8>,
    r: Result<IdentityMaterial, NetToolError>,
) -> bool {
    exists|key: Result<Seq<u8>, Seq<char>>| #[trigger]
        key_read(kept_key(secret), key) && is_taken(secret, key, r)
}

/// Reads a kept secret.
///
/// # Errors
///
/// Fails when the layout is wrong, and when certificate and key do not belong together.
pub fn decode_secret(secret: &[u8]) -> (r: Result<IdentityMaterial, NetToolError>)
    ensures
        is_decoded(secret@, r),
{
    let material = match split_secret(secret) {
        Ok(material) => material,
        Err(e) => {
            proof {
                let key: Result<Seq<u8>, Seq<char>> = Err(Seq::empty());
                assert(key_read(kept_key(secret@), key));
            }
            return Err(e);
        },
    };
    match validate_key_pair(
        material.certificate_chain[0].as_slice(),
        material.private_key.as_slice(),
    ) {
        Ok(_) => Ok(material),
        Err(e) => Err(e),
    }
}

/// Reading a secret gives back what was written: the layout is accepted, and identifier,
/// certificate and key are the ones that were kept.
pub proof fn law_secret_round_trip(node_id: Seq<u8>, certificate: Seq<u8>, key: Seq<u8>)
    requires
        node_id.len() == 16,
        !all_zero(node_id),
        lengths_fault(certificate.len(), key.len()) is None,
    ensures
        ({
            let secret = secret_bytes(node_id, certificate, key);
            &&& layout_fault(secret) is None
            &&& secret.subrange(8, 24) == node_id
            &&& kept_certificate(secret) == certificate
            &&& kept_key(secret) == key
        }),
{
    let secret = secret_bytes(node_id, certificate, key);
    octets::lemma_be32_round_trip(certificate.len() as u32);
    octets::lemma_be32_round_trip(key.len() as u32);
    assert(secret.take(8) =~= magic());
    assert(secret.subrange(8, 24) =~= node_id);
    assert(secret.subrange(24, 28) =~= octets::be32(certificate.len() as u32));
    assert(secret.subrange(28, 32) =~= octets::be32(key.len() as u32));
    assert(kept_certificate(secret) =~= certificate);
    assert(kept_key(secret) =~= key);
}

// ------------------------------------------------------------------------------ the provider

/// Why names cannot be those of a certificate, if they cannot.
pub open spec fn names_fault(names: Seq<Seq<char>>) -> Option<Seq<char>> {
    if names.len() == 0 || names.len() > 16 {
        Some("identity requires between one and sixteen subject names"@)
    } else if exists|i: int| 0 <= i < names.len() && name_bad(#[trigger] names[i]) {
        Some("identity subject name is empty or too long"@)
    } else if exists|i: int, j: int|
        0 <= i < j < names.len() && text::trimmed(#[trigger] names[i]) == text::trimmed(
            #[trigger] names[j],
        ) {
        Some("identity subject names contain duplicates"@)
    } else {
        None
    }
}

/// Whether a name is blank or too long.
pub open spec fn name_bad(name: Seq<char>) -> bool {
    text::trimmed(name).len() == 0 || encode_utf8(text::trimmed(name)).len() > 253
}

fn validate_subject_names(names: &Vec<String>) -> (r: Result<(), NetToolError>)
    ensures
        match r {
            Ok(_) => names_fault(text::texts(names@)) is None,
            Err(e) => names_fault(text::texts(names@)) is Some && e.is(
                ErrorCode::InvalidArgument,
                names_fault(text::texts(names@))->0,
                false,
            ),
        },
{
    let ghost all = text::texts(names@);
    if names.len() == 0 || names.len() > 16 {
        return Err(invalid("identity requires between one and sixteen subject names"));
    }
    let mut i: usize = 0;
    while i < names.len()
        invariant
            all == text::texts(names@),
            1 <= names@.len() <= 16,
            i <= names@.len(),
            forall|j: int| 0 <= j < i ==> !name_bad(#[trigger] all[j]),
        decreases names@.len() - i,
    {
        let name = trim(names[i].as_str());
        if name.as_str().is_empty() || byte_len(name.as_str()) > 253 {
            proof {
                assert(name_bad(all[i as int]));
            }
            return Err(invalid("identity subject name is empty or too long"));
        }
        i += 1;
    }
    let mut b: usize = 0;
    while b < names.len()
        invariant
            all == text::texts(names@),
            1 <= names@.len() <= 16,
            b <= names@.len(),
            forall|j: int| 0 <= j < names@.len() ==> !name_bad(#[trigger] all[j]),
            forall|k: int, j: int|
                0 <= k < j < b ==> text::trimmed(#[trigger] all[k]) != text::trimmed(
                    #[trigger] all[j],
                ),
        decreases names@.len() - b,
    {
        let second = trim(names[b].as_str());
        let mut a: usize = 0;
        while a < b
            invariant
                all == text::texts(names@),
                1 <= names@.len() <= 16,
                a <= b < names@.len(),
                second@ == text::trimmed(all[b as int]),
                forall|j: int| 0 <= j < names@.len() ==> !name_bad(#[trigger] all[j]),
                forall|k: int|
                    0 <= k < a ==> text::trimmed(#[trigger] all[k]) != text::trimmed(
                        all[b as int],
                    ),
            decreases b - a,
        {
            let first = trim(names[a].as_str());
            if same(first.as_str(), second.as_str()) {
                proof {
                    assert(text::trimmed(all[a as int]) == text::trimmed(all[b as int]));
                }
                return Err(invalid("identity subject names contain duplicates"));
            }
            a += 1;
        }
        b += 1;
    }
    Ok(())
}

/// Decides what becomes of what a store returned: a failure is passed on, a secret is read,
/// and only where there is none an identity is to be made.
///
/// # Errors
///
/// Fails with what the store failed with, and when the secret is refused.
pub fn settle_stored(read: Result<Option<Vec<u8>>, NetToolError>) -> (r: Result<
    Option<IdentityMaterial>,
    NetToolError,
>)
    ensures
        match read {
            Err(e) => r == Err::<Option<IdentityMaterial>, NetToolError>(e),
            Ok(None) => r == Ok::<Option<IdentityMaterial>, NetToolError>(None),
            Ok(Some(secret)) => match r {
                Ok(Some(material)) => is_decoded(secret@, Ok(material)),
                Ok(None) => false,
                Err(e) => is_decoded(secret@, Err(e)),
            },
        },
{
    match read {
        Err(e) => Err(e),
        Ok(None) => Ok(None),
        Ok(Some(secret)) => match decode_secret(secret.as_slice()) {
            Ok(material) => Ok(Some(material)),
            Err(e) => Err(e),
        },
    }
}

/// Decides what becomes of sixteen bytes that were drawn: zeros are drawn again, anything else
/// is an identifier.
///
/// # Errors
///
/// Fails when the random source does.
pub fn settle_drawn(drawn: Result<Vec<u8>, String>) -> (r: Result<Option<[u8; 16]>, NetToolError>)
    requires
        drawn matches Ok(bytes) ==> bytes@.len() == 16,
    ensures
        is_drawn(drawn, r),
{
    match drawn {
        Err(message) => Err(random_error(message.as_str())),
        Ok(bytes) => if is_all_zero(bytes.as_slice()) {
            Ok(None)
        } else {
            Ok(Some(sixteen(bytes.as_slice())))
        },
    }
}

/// Whether sixteen bytes that were drawn were taken for an identifier, refused or passed over.
pub open spec fn is_drawn(
    drawn: Result<Vec<u8>, String>,
    r: Result<Option<[u8; 16]>, NetToolError>,
) -> bool {
    match drawn {
        Err(message) => r matches Err(e) && e.is(
            ErrorCode::RandomFailed,
            "cannot generate Node ID: "@ + message@,
            false,
        ),
        Ok(bytes) => if all_zero(bytes@) {
            r == Ok::<Option<[u8; 16]>, NetToolError>(None)
        } else {
            r matches Ok(Some(id)) && id@ == bytes@
        },
    }
}

/// The calls that draws come to.
pub open spec fn draws_of(draws: Seq<Result<Vec<u8>, String>>) -> Seq<VaultStep> {
    Seq::new(draws.len(), |i: int| VaultStep::Draw(draws[i]))
}

/// Whether all bytes of a draw are zero.
pub open spec fn drew_zeros(drawn: Result<Vec<u8>, String>) -> bool {
    drawn matches Ok(bytes) && all_zero(bytes@)
}

/// How an identifier is drawn: again and again while all bytes are zero. A source that gives
/// nothing else for as long as draws can be counted is taken to have failed.
pub open spec fn id_drawn(
    from: Seq<VaultStep>,
    to: Seq<VaultStep>,
    r: Result<[u8; 16], NetToolError>,
) -> bool {
    exists|draws: Seq<Result<Vec<u8>, String>>|
        {
            &&& to == from + #[trigger] draws_of(draws)
            &&& draws.len() > 0
            &&& forall|i: int| 0 <= i < draws.len() - 1 ==> drew_zeros(#[trigger] draws[i])
            &&& match draws.last() {
                Err(message) => r matches Err(e) && e.is(
                    ErrorCode::RandomFailed,
                    "cannot generate Node ID: "@ + message@,
                    false,
                ),
                Ok(bytes) => if all_zero(bytes@) {
                    &&& draws.len() == u64::MAX
                    &&& r matches Err(e) && e.is(
                        ErrorCode::RandomFailed,
                        "cannot generate Node ID: the random source gives only zeros"@,
                        false,
                    )
                } else {
                    r matches Ok(id) && id@ == bytes@
                },
            }
        }
}

fn random_node_id<S>(vault: &mut Vault<S>) -> (r: Result<[u8; 16], NetToolError>)
    ensures
        final(vault).store_view() == old(vault).store_view(),
        id_drawn(old(vault).log(), final(vault).log(), r),
        r matches Ok(id) ==> !all_zero(id@),
{
    let ghost mut draws: Seq<Result<Vec<u8>, String>> = Seq::empty();
    let mut left: u64 = 0xffff_ffff_ffff_ffff;
    proof {
        assert(vault.log() =~= old(vault).log() + draws_of(draws));
    }
    while left > 0
        invariant
            vault.store_view() == old(vault).store_view(),
            draws.len() + left == u64::MAX,
            vault.log() == old(vault).log() + draws_of(draws),
            forall|i: int| 0 <= i < draws.len() ==> drew_zeros(#[trigger] draws[i]),
        decreases left,
    {
        let drawn = vault.draw();
        proof {
            draws = draws.push(drawn);
            assert(vault.log() =~= old(vault).log() + draws_of(draws));
        }
        match settle_drawn(drawn) {
            Err(e) => {
                return Err(e);
            },
            Ok(Some(id)) => {
                return Ok(id);
            },
            Ok(None) => {},
        }
        left -= 1;
    }
    Err(
        NetToolError::new(
            ErrorCode::RandomFailed,
            "cannot generate Node ID: the random source gives only zeros",
            false,
        ),
    )
}

fn copy_names(names: &Vec<String>) -> (r: Vec<String>)
    ensures
        text::texts(r@) == text::texts(names@),
{
    let mut out: Vec<String> = Vec::new();
    let mut i: usize = 0;
    while i < names.len()
        invariant
            i <= names@.len(),
            out@.len() == i,
            forall|j: int| 0 <= j < i ==> (#[trigger] out@[j])@ == names@[j]@,
        decreases names@.len() - i,
    {
        out.push(names[i].as_str().to_owned());
        i += 1;
    }
    proof {
        assert(text::texts(out@) =~= text::texts(names@));
    }
    out
}

/// What becomes of a certificate that was to be made and an identifier that was to be drawn.
pub open spec fn is_generated(
    made: Result<(Vec<u8>, Vec<u8>), String>,
    id: Result<[u8; 16], NetToolError>,
    r: Result<IdentityMaterial, NetToolError>,
) -> bool {
    match (made, id) {
        (Err(message), _) => r matches Err(e) && e.is(
            ErrorCode::NodeTlsFailed,
            "cannot generate identity certificate: "@ + message@,
            false,
        ),
        (Ok(_), Err(e)) => r == Err::<IdentityMaterial, NetToolError>(e),
        (Ok((certificate, key)), Ok(node_id)) => {
            &&& r matches Ok(material)
            &&& material.node_id@ == node_id@
            &&& material.private_key@ == key@
            &&& material.certificate_chain@.len() == 1
            &&& material.certificate_chain@[0]@ == certificate@
        },
    }
}

/// Decides what becomes of a certificate that was to be made and an identifier that was to be
/// drawn.
///
/// # Errors
///
/// Fails when the certificate could not be made, and else when no identifier was drawn.
pub fn settle_generated(
    made: Result<(Vec<u8>, Vec<u8>), String>,
    id: Result<[u8; 16], NetToolError>,
) -> (r: Result<IdentityMaterial, NetToolError>)
    ensures
        is_generated(made, id, r),
{
    match made {
        Err(message) => Err(
            identity_error(
                concat("cannot generate identity certificate: ", message.as_str()).as_str(),
            ),
        ),
        Ok((certificate, private_key)) => match id {
            Err(e) => Err(e),
            Ok(node_id) => {
                let mut certificate_chain: Vec<Vec<u8>> = Vec::new();
                certificate_chain.push(certificate);
                Ok(IdentityMaterial { node_id, certificate_chain, private_key })
            },
        },
    }
}

/// How an identity is made: a certificate with the names, and an identifier for it.
pub open spec fn generated_by(
    from: Seq<VaultStep>,
    to: Seq<VaultStep>,
    names: Seq<Seq<char>>,
    r: Result<IdentityMaterial, NetToolError>,
) -> bool {
    exists|made: Result<(Vec<u8>, Vec<u8>), String>|
        {
            let behind = #[trigger] from.push(VaultStep::Certify(names, made));
            match made {
                Ok(_) => exists|id: Result<[u8; 16], NetToolError>| #[trigger]
                    id_drawn(behind, to, id) && is_generated(made, id, r),
                Err(message) => to == behind && (r matches Err(e) && e.is(
                    ErrorCode::NodeTlsFailed,
                    "cannot generate identity certificate: "@ + message@,
                    false,
                )),
            }
        }
}

/// How an identity is loaded, or made where there is none. Where the store fails nothing is
/// made or kept.
pub open spec fn provided(
    from: Seq<VaultStep>,
    to: Seq<VaultStep>,
    names: Seq<Seq<char>>,
    r: Result<IdentityMaterial, NetToolError>,
) -> bool {
    exists|read: Result<Option<Vec<u8>>, NetToolError>|
        {
            let behind = #[trigger] from.push(VaultStep::Get(read));
            match read {
                Ok(Some(secret)) => to == behind && is_decoded(secret@, r),
                Ok(None) => newly_provided(behind, to, names, r),
                Err(e) => to == behind && r == Err::<IdentityMaterial, NetToolError>(e),
            }
        }
}

/// How an identity is made and kept.
pub open spec fn newly_provided(
    from: Seq<VaultStep>,
    to: Seq<VaultStep>,
    names: Seq<Seq<char>>,
    r: Result<IdentityMaterial, NetToolError>,
) -> bool {
    exists|middle: Seq<VaultStep>, made: Result<IdentityMaterial, NetToolError>| #[trigger]
        generated_by(from, middle, names, made) && match made {
            Ok(material) => kept(middle, to, material, r),
            Err(e) => to == middle && r == Err::<IdentityMaterial, NetToolError>(e),
        }
}

/// How a new identity is kept. It is used only once it was kept, as it was kept.
pub open spec fn kept(
    from: Seq<VaultStep>,
    to: Seq<VaultStep>,
    material: IdentityMaterial,
    r: Result<IdentityMaterial, NetToolError>,
) -> bool {
    exists|encoded: Result<Vec<u8>, NetToolError>| #[trigger]
        is_encoded(material, encoded) && match encoded {
            Ok(secret) => exists|put: Result<(), NetToolError>|
                to == #[trigger] from.push(VaultStep::Put(secret@, put)) && match put {
                    Ok(_) => is_decoded(secret@, r),
                    Err(e) => r == Err::<IdentityMaterial, NetToolError>(e),
                },
            Err(e) => to == from && r == Err::<IdentityMaterial, NetToolError>(e),
        }
}

/// A node whose store fails is given no identity, and nothing is made or kept for it. One that
/// has a secret is given the identity in it or none, and nothing is made or kept either.
pub proof fn law_no_identity_is_made_unless_there_is_none(
    from: Seq<VaultStep>,
    to: Seq<VaultStep>,
    names: Seq<Seq<char>>,
    read: Result<Option<Vec<u8>>, NetToolError>,
    r: Result<IdentityMaterial, NetToolError>,
)
    requires
        provided(from, to, names, r),
        to.len() > from.len(),
        to[from.len() as int] == VaultStep::Get(read),
        read != Ok::<Option<Vec<u8>>, NetToolError>(None),
    ensures
        to == from.push(VaultStep::Get(read)),
        match read {
            Err(e) => r == Err::<IdentityMaterial, NetToolError>(e),
            Ok(Some(secret)) => r matches Ok(material) ==> holds(material, secret@),
            Ok(None) => false,
        },
{
    let seen = choose|seen: Result<Option<Vec<u8>>, NetToolError>|
        {
            let behind = #[trigger] from.push(VaultStep::Get(seen));
            match seen {
                Ok(Some(secret)) => to == behind && is_decoded(secret@, r),
                Ok(None) => newly_provided(behind, to, names, r),
                Err(e) => to == behind && r == Err::<IdentityMaterial, NetToolError>(e),
            }
        };
    let behind = from.push(VaultStep::Get(seen));
    assert(behind.is_prefix_of(to));
    assert(to[from.len() as int] == behind[from.len() as int]);
}

/// An identity that was made and handed out is the one that was kept: reading the kept secret
/// later gives the same identifier, certificate and key.
pub proof fn law_new_identity_is_the_one_kept(
    from: Seq<VaultStep>,
    to: Seq<VaultStep>,
    names: Seq<Seq<char>>,
    made: IdentityMaterial,
    later: Seq<u8>,
    again: IdentityMaterial,
)
    requires
        newly_provided(from, to, names, Ok(made)),
        to.last() == VaultStep::Put(later, Ok(())),
        is_decoded(later, Ok(again)),
    ensures
        again.node_id@ == made.node_id@,
        again.certificate_chain@[0]@ == made.certificate_chain@[0]@,
        again.private_key@ == made.private_key@,
{
    let r = Ok::<IdentityMaterial, NetToolError>(made);
    let (middle, fresh) = choose|
        middle: Seq<VaultStep>,
        fresh: Result<IdentityMaterial, NetToolError>,
    | #[trigger]
        generated_by(from, middle, names, fresh) && match fresh {
            Ok(material) => kept(middle, to, material, r),
            Err(e) => to == middle && r == Err::<IdentityMaterial, NetToolError>(e),
        };
    assert(kept(middle, to, fresh->Ok_0, r));
}

fn generate_identity<S>(vault: &mut Vault<S>, names: &Vec<String>) -> (r: Result<
    IdentityMaterial,
    NetToolError,
>)
    ensures
        final(vault).store_view() == old(vault).store_view(),
        generated_by(old(vault).log(), final(vault).log(), text::texts(names@), r),
        r matches Ok(material) ==> !all_zero(material.node_id@),
{
    let made = vault.certify(copy_names(names));
    match made {
        Err(message) => settle_generated(Err(message), Ok([0; 16])),
        Ok(parts) => {
            let ghost behind = vault.log();
            let id = random_node_id(vault);
            proof {
                assert(id_drawn(behind, vault.log(), id));
            }
            settle_generated(Ok(parts), id)
        },
    }
}

/// Whether an identity is complete and consistent: an identifier other than zero, and one
/// certificate that belongs to the key.
pub open spec fn material_valid(material: IdentityMaterial) -> bool {
    &&& !all_zero(material.node_id@)
    &&& material.certificate_chain@.len() == 1
    &&& lengths_fault(
        material.certificate_chain@[0]@.len(),
        material.private_key@.len(),
    ) is None
    &&& certificate_parts(material.certificate_chain@[0]@) == Ok::<(Seq<u8>, Seq<u8>), Seq<char>>(
        (Seq::empty(), key_information(material.private_key@)),
    )
}

proof fn lemma_taken_is_valid(secret: Seq<u8>, material: IdentityMaterial)
    requires
        is_decoded(secret, Ok(material)),
    ensures
        material_valid(material),
{
    let r = Ok::<IdentityMaterial, NetToolError>(material);
    let key = choose|key: Result<Seq<u8>, Seq<char>>| #[trigger]
        key_read(kept_key(secret), key) && is_taken(secret, key, r);
    let parts = certificate_parts(kept_certificate(secret))->Ok_0;
    assert(parts.0 =~= Seq::<u8>::empty());
}

/// Loads the identity of a node from a store, or makes it once.
pub struct IdentityProvider<S> {
    vault: Vault<S>,
    subject_names: Vec<String>,
}

impl<S> IdentityProvider<S> {
    /// The store.
    pub closed spec fn store(self) -> S {
        self.vault.store_view()
    }

    /// The calls that were made of store and chance.
    pub closed spec fn log(self) -> Seq<VaultStep> {
        self.vault.log()
    }

    /// The names in a new certificate.
    pub closed spec fn subject_names(self) -> Seq<Seq<char>> {
        text::texts(self.subject_names@)
    }

    /// Creates a provider. The names go into a new certificate.
    ///
    /// # Errors
    ///
    /// Fails when there are none or more than sixteen names, when one is blank or too long
    /// and when two are the same.
    pub fn new(store: S, subject_names: Vec<String>) -> (r: Result<Self, NetToolError>)
        ensures
            match r {
                Ok(provider) => {
                    &&& names_fault(text::texts(subject_names@)) is None
                    &&& provider.store() == store
                    &&& provider.log() == Seq::<VaultStep>::empty()
                    &&& provider.subject_names() == text::texts(subject_names@)
                },
                Err(e) => names_fault(text::texts(subject_names@)) is Some && e.is(
                    ErrorCode::InvalidArgument,
                    names_fault(text::texts(subject_names@))->0,
                    false,
                ),
            },
    {
        match validate_subject_names(&subject_names) {
            Ok(_) => Ok(IdentityProvider { vault: Vault::new(store), subject_names }),
            Err(e) => Err(e),
        }
    }

    /// Returns the store.
    pub fn secret_store(&self) -> (r: &S)
        ensures
            *r == self.store(),
    {
        self.vault.store()
    }
}

impl<S: SecureSecretStore> IdentityProvider<S> {
    /// Loads the identity, or makes it and keeps it before it is used.
    ///
    /// # Errors
    ///
    /// Fails with what the store fails with, when no identity can be made and when the secret
    /// is refused. Whatever the store returns, an identity that is handed out is complete and
    /// consistent, and nothing is made or kept unless the store said that it has no secret.
    pub fn load_or_create(&mut self) -> (r: Result<IdentityMaterial, NetToolError>)
        ensures
            final(self).subject_names() == old(self).subject_names(),
            r matches Ok(material) ==> material_valid(material),
            provided(old(self).log(), final(self).log(), old(self).subject_names(), r),
    {
        let read = self.vault.get();
        let ghost answer = read;
        let stored = match settle_stored(read) {
            Ok(stored) => stored,
            Err(e) => {
                return Err(e);
            },
        };
        if let Some(material) = stored {
            proof {
                lemma_taken_is_valid(answer->Ok_0->0@, material);
            }
            return Ok(material);
        }
        let ghost behind = self.log();
        let made = generate_identity(&mut self.vault, &self.subject_names);
        let ghost middle = self.log();
        let ghost fresh = made;
        let r = match made {
            Ok(material) => self.keep(&material),
            Err(e) => Err(e),
        };
        proof {
            assert(generated_by(behind, middle, self.subject_names(), fresh));
        }
        r
    }

    fn keep(&mut self, material: &IdentityMaterial) -> (r: Result<IdentityMaterial, NetToolError>)
        ensures
            final(self).subject_names() == old(self).subject_names(),
            r matches Ok(material) ==> material_valid(material),
            kept(old(self).log(), final(self).log(), *material, r),
    {
        let encoded = encode_secret(material);
        let ghost first = encoded;
        let secret = match encoded {
            Ok(secret) => secret,
            Err(e) => {
                proof {
                    assert(is_encoded(*material, first));
                }
                return Err(e);
            },
        };
        let bytes = secret.as_slice();
        let put = self.vault.put(bytes);
        let r = match put {
            Ok(_) => decode_secret(bytes),
            Err(e) => Err(e),
        };
        proof {
            assert(is_encoded(*material, first));
            if r is Ok {
                lemma_taken_is_valid(secret@, r->Ok_0);
            }
        }
        r
    }
}

fn random_error(cause: &str) -> (r: NetToolError)
    ensures
        r.is(ErrorCode::RandomFailed, "cannot generate Node ID: "@ + cause@, false),
{
    NetToolError::new(
        ErrorCode::RandomFailed,
        concat("cannot generate Node ID: ", cause).as_str(),
        false,
    )
}

fn identity_error(message: &str) -> (r: NetToolError)
    ensures
        r.is(ErrorCode::NodeTlsFailed, message@, false),
{
    NetToolError::new(ErrorCode::NodeTlsFailed, message, false)
}

fn invalid(message: &str) -> (r: NetToolError)
    ensures
        r.is(ErrorCode::InvalidArgument, message@, false),
{
    NetToolError::new(ErrorCode::InvalidArgument, message, false)
}

} // verus!
