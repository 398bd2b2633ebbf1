//! What holds of kept identities and of where the agent is found.

use crate::agent_client;
use crate::agent_client::SocketEnvironment;
use crate::identity;
use crate::identity::IdentityMaterial;
use crate::node_protocol::trust;
use crate::octets;
use crate::text;
use crate::text_laws;
use vstd::prelude::*;
use vstd::utf8::encode_utf8;

verus! {

/// A kept secret begins with four letters and the version; sixteen bytes of the identifier
/// follow, then the two lengths, the certificate and the key.
pub proof fn law_layout_of_secrets(node_id: Seq<u8>, certificate: Seq<u8>, key: Seq<u8>)
    requires
        node_id.len() == 16,
        certificate.len() <= 0xffff_ffff,
        key.len() <= 0xffff_ffff,
    ensures
        ({
            let secret = identity::secret_bytes(node_id, certificate, key);
            &&& secret.len() == 32 + certificate.len() + key.len()
            &&& secret.take(8) == seq![0x4eu8, 0x54u8, 0x49u8, 0x44u8, 0u8, 0u8, 0u8, 1u8]
            &&& secret.subrange(8, 24) == node_id
            &&& secret.subrange(24, 28) == octets::be32(certificate.len() as u32)
            &&& secret.subrange(28, 32) == octets::be32(key.len() as u32)
            &&& secret.subrange(32, 32int + certificate.len()) == certificate
            &&& secret.skip(32 + certificate.len() as int) == key
        }),
{
    let secret = identity::secret_bytes(node_id, certificate, key);
    assert(secret.take(8) =~= seq![0x4eu8, 0x54u8, 0x49u8, 0x44u8, 0u8, 0u8, 0u8, 1u8]);
    assert(secret.subrange(8, 24) =~= node_id);
    assert(secret.subrange(24, 28) =~= octets::be32(certificate.len() as u32));
    assert(secret.subrange(28, 32) =~= octets::be32(key.len() as u32));
    assert(secret.subrange(32, 32int + certificate.len()) =~= certificate);
    assert(secret.skip(32 + certificate.len() as int) =~= key);
}

/// A secret is laid out as it has to be exactly where it begins so, its identifier is not zero,
/// both lengths are between 1 and 65536, and nothing is missing or left over.
pub proof fn law_secrets_that_are_laid_out(secret: Seq<u8>)
    ensures
        identity::layout_fault(secret) is None <==> {
            let c = octets::be_value(secret.subrange(24, 28));
            let k = octets::be_value(secret.subrange(28, 32));
            &&& 32 <= secret.len()
            &&& secret.take(8) == seq![0x4eu8, 0x54u8, 0x49u8, 0x44u8, 0u8, 0u8, 0u8, 1u8]
            &&& exists|i: int| 8 <= i < 24 && #[trigger] secret[i] != 0
            &&& 1 <= c <= 65536
            &&& 1 <= k <= 65536
            &&& secret.len() == 32 + c + k
        },
{
    if secret.len() >= 32 {
        let id = secret.subrange(8, 24);
        if identity::all_zero(id) {
            assert forall|i: int| 8 <= i < 24 implies #[trigger] secret[i] == 0 by {
                assert(id[i - 8] == 0);
            }
        } else {
            let i = choose|i: int| 0 <= i < id.len() && !(#[trigger] id[i] == 0);
            assert(secret[i + 8] != 0);
        }
    }
}

/// Certificate and key belong together exactly where both were read, nothing is left behind the
/// certificate, and it certifies the public key of the private one.
pub proof fn law_pairs(
    certificate: Result<(Seq<u8>, Seq<u8>), Seq<char>>,
    key: Result<Seq<u8>, Seq<char>>,
)
    ensures
        identity::pair_fault(certificate, key) is None <==> {
            &&& certificate matches Ok((rest, certified))
            &&& key matches Ok(public)
            &&& rest.len() == 0
            &&& certified == public
        },
{
}

/// An identity is what its secret holds.
pub proof fn law_identities_are_what_was_kept(material: IdentityMaterial, secret: Seq<u8>)
    requires
        identity::holds(material, secret),
        secret.len() >= 32,
    ensures
        material.node_id@ == secret.subrange(8, 24),
        material.certificate_chain@.len() == 1,
        material.certificate_chain@[0]@ == secret.subrange(
            32,
            32int + octets::be_value(secret.subrange(24, 28)),
        ),
        material.private_key@ == secret.skip(
            32 + octets::be_value(secret.subrange(24, 28)) as int,
        ),
{
}

/// An identity is made for one to sixteen names, each of which says something in at most 253
/// bytes, and none of which is another, white space around them aside.
pub proof fn law_names_of_identities(names: Seq<Seq<char>>)
    ensures
        identity::names_fault(names) is None <==> {
            &&& 1 <= names.len() <= 16
            &&& forall|i: int|
                0 <= i < names.len() ==> {
                    &&& !text_laws::all_white(#[trigger] names[i])
                    &&& encode_utf8(text::trimmed(names[i])).len() <= 253
                }
            &&& forall|i: int, j: int|
                0 <= i < names.len() && 0 <= j < names.len() && i != j ==> text::trimmed(
                    #[trigger] names[i],
                ) != text::trimmed(#[trigger] names[j])
        },
{
    assert forall|i: int| 0 <= i < names.len() implies (identity::name_bad(#[trigger] names[i])
        <==> text_laws::all_white(names[i]) || encode_utf8(text::trimmed(names[i])).len()
        > 253) by {
        text_laws::law_trimming_takes_white_space_away(names[i]);
    }
    if identity::names_fault(names) is None {
        assert forall|i: int, j: int|
            0 <= i < names.len() && 0 <= j < names.len() && i != j implies text::trimmed(
            #[trigger] names[i],
        ) != text::trimmed(#[trigger] names[j]) by {
            if i < j {
                assert(text::trimmed(names[i]) != text::trimmed(names[j]));
            } else {
                assert(text::trimmed(names[j]) != text::trimmed(names[i]));
            }
        }
    }
}

/// A fingerprint has two upper case hexadecimal digits for each byte, the higher first, with
/// colons between them.
pub proof fn law_fingerprints(bytes: Seq<u8>, i: int)
    requires
        0 <= i < bytes.len(),
    ensures
        ({
            let s = trust::colon_hex(bytes);
            &&& s.len() == 3 * bytes.len() - 1
            &&& text_laws::digit_value(s[3 * i]) * 16 + text_laws::digit_value(s[3 * i + 1])
                == bytes[i]
            &&& !(0x61 <= s[3 * i] as u32 <= 0x66) && !(0x61 <= s[3 * i + 1] as u32 <= 0x66)
            &&& i > 0 ==> s[3 * i - 1] == ':'
        }),
    decreases bytes.len(),
{
    trust::law_fingerprint_is_complete(bytes, bytes);
    reveal_strlit(":");
    let pairs = Seq::new(bytes.len(), |k: int| text::hex_pair(bytes[k], true));
    let s = trust::colon_hex(bytes);
    let v = bytes.last();
    let last = text::hex_pair(v, true);
    assert(pairs.last() == last);
    assert(last[0] == text::hex_char((v / 16) as nat, true));
    assert(last[1] == text::hex_char((v % 16) as nat, true));
    if bytes.len() == 1 {
        assert(s == last);
    } else {
        let before = bytes.drop_last();
        trust::law_fingerprint_is_complete(before, before);
        let t = trust::colon_hex(before);
        assert(pairs.drop_last() =~= Seq::new(
            before.len(),
            |k: int| text::hex_pair(before[k], true),
        ));
        assert(s == t + ":"@ + last);
        if i < bytes.len() - 1 {
            law_fingerprints(before, i);
            assert(s[3 * i] == t[3 * i]);
            assert(s[3 * i + 1] == t[3 * i + 1]);
            if i > 0 {
                assert(s[3 * i - 1] == t[3 * i - 1]);
            }
        } else {
            assert(s[3 * i] == last[0]);
            assert(s[3 * i + 1] == last[1]);
            assert(s[3 * i - 1] == ':');
        }
    }
}

/// Where the agent is found: where the environment says; else, in this order, at the pipe of
/// Windows, in the directory for what runs, or among the temporary files of the user.
pub proof fn law_places_of_the_agent(e: SocketEnvironment)
    ensures
        e.socket matches Some(path) ==> agent_client::socket_path(e) == path@,
        e.socket is None && e.named_pipes ==> agent_client::socket_path(e)
            == "\\\\.\\pipe\\nettool-agent"@,
        e.socket is None && !e.named_pipes ==> (e.runtime_directory matches Some(directory)
            ==> agent_client::socket_path(e) == agent_client::in_directory(
            directory@,
            "nettool/agent.sock"@,
        )),
        e.socket is None && !e.named_pipes && e.runtime_directory is None ==> {
            let user = match e.user {
                Some(name) => name@,
                None => "user"@,
            };
            agent_client::socket_path(e) == agent_client::in_directory(
                agent_client::in_directory(
                    e.temporary_directory@,
                    "nettool-"@ + agent_client::scoped(user),
                ),
                "agent.sock"@,
            )
        },
{
}

/// The name of a user in a path keeps its letters and digits; an underscore stands for
/// everything else.
pub proof fn law_users_in_paths(user: Seq<char>, i: int)
    requires
        0 <= i < user.len(),
    ensures
        agent_client::scoped(user).len() == user.len(),
        ({
            let c = user[i] as u32;
            if 0x30 <= c <= 0x39 || 0x41 <= c <= 0x5a || 0x61 <= c <= 0x7a {
                agent_client::scoped(user)[i] == user[i]
            } else {
                agent_client::scoped(user)[i] == '_'
            }
        }),
{
}

/// A path below a directory has one slash between the two, whether the directory ends in one or
/// not.
pub proof fn law_paths_in_directories(directory: Seq<char>, rest: Seq<char>)
    requires
        directory.len() > 0,
        directory.last() != '/',
    ensures
        agent_client::in_directory(directory, rest) == directory + "/"@ + rest,
        agent_client::in_directory(directory + "/"@, rest) == directory + "/"@ + rest,
        agent_client::in_directory(Seq::empty(), rest) == rest,
{
    reveal_strlit("/");
    assert("/"@ =~= seq!['/']);
    if text::has_suffix(directory, "/"@) {
        assert(directory.skip(directory.len() - 1)[0] == directory.last());
    }
    assert((directory + "/"@).skip(directory.len() as int) =~= "/"@);
    assert(Seq::<char>::empty() + rest =~= rest);
}

} // verus!
