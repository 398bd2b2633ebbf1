//! Fingerprints of node identities and the decision to trust one.

use crate::digest;
use crate::digest::sha256;
use crate::text;
use crate::text::{push_hex_pair, same_ignoring_case};
use vstd::prelude::*;

verus! {

/// How a presented identity relates to what is known of the node.
#[derive(Clone, Copy, Debug, PartialEq, Eq, Structural)]
pub enum TrustDecision {
    /// Nothing is known; a user has to confirm the pairing.
    PairingRequired,
    /// The fingerprint is the trusted one.
    Trusted,
    /// The node has another key than before; it is refused until paired again.
    IdentityChanged,
}

/// Bytes as upper case hexadecimal pairs with colons between them.
pub open spec fn colon_hex(bytes: Seq<u8>) -> Seq<char> {
    text::joined(Seq::new(bytes.len(), |i: int| text::hex_pair(bytes[i], true)), ":"@)
}

/// Computes the complete SHA-256 fingerprint of a public key.
#[must_use]
pub fn fingerprint_sha256(public_key_der: &[u8]) -> (r: String)
    ensures
        r@ == colon_hex(digest::sha256_of(public_key_der@)),
{
    let hash = sha256(public_key_der);
    colon_hex_text(hash.as_slice())
}

/// Writes bytes as upper case hexadecimal pairs with colons between them.
pub fn colon_hex_text(bytes: &[u8]) -> (r: String)
    ensures
        r@ == colon_hex(bytes@),
{
    let ghost pairs = Seq::new(bytes@.len(), |i: int| text::hex_pair(bytes@[i], true));
    let mut out = String::new();
    let mut i: usize = 0;
    while i < bytes.len()
        invariant
            i <= bytes@.len(),
            pairs == Seq::new(bytes@.len(), |i: int| text::hex_pair(bytes@[i], true)),
            out@ == text::joined(pairs.take(i as int), ":"@),
        decreases bytes@.len() - i,
    {
        proof {
            assert(pairs.take(i + 1).drop_last() == pairs.take(i as int));
            assert(pairs.take(i + 1).last() == text::hex_pair(bytes@[i as int], true));
        }
        if i > 0 {
            out.append(":");
        }
        push_hex_pair(&mut out, bytes[i], true);
        proof {
            if i == 0 {
                assert(out@ == pairs[0]);
                assert(pairs.take(1)[0] == pairs[0]);
            }
        }
        i += 1;
    }
    proof {
        assert(pairs.take(i as int) == pairs);
    }
    out
}

/// Compares a presented fingerprint with the stored one; trust never moves silently.
#[must_use]
pub fn verify_identity(stored_fingerprint: Option<&str>, presented_fingerprint: &str) -> (r:
    TrustDecision)
    ensures
        r == (match stored_fingerprint {
            None => TrustDecision::PairingRequired,
            Some(stored) => if text::lowercase(stored@) == text::lowercase(
                presented_fingerprint@,
            ) {
                TrustDecision::Trusted
            } else {
                TrustDecision::IdentityChanged
            },
        }),
{
    match stored_fingerprint {
        None => TrustDecision::PairingRequired,
        Some(stored) => {
            if same_ignoring_case(stored, presented_fingerprint) {
                TrustDecision::Trusted
            } else {
                TrustDecision::IdentityChanged
            }
        },
    }
}

/// A fingerprint is written completely: it has two digits and a colon for each byte but the
/// last, and two fingerprints are equal, ignoring case, only where the digests are.
pub proof fn law_fingerprint_is_complete(a: Seq<u8>, b: Seq<u8>)
    requires
        a.len() == b.len(),
    ensures
        a.len() > 0 ==> colon_hex(a).len() == 3 * a.len() - 1,
        text::lowercase(colon_hex(a)) == text::lowercase(colon_hex(b)) ==> a == b,
    decreases a.len(),
{
    let pa = Seq::new(a.len(), |i: int| text::hex_pair(a[i], true));
    let pb = Seq::new(b.len(), |i: int| text::hex_pair(b[i], true));
    reveal_strlit(":");
    if a.len() == 0 {
        assert(a == b);
    } else {
        let ha = a.drop_last();
        let hb = b.drop_last();
        law_fingerprint_is_complete(ha, hb);
        law_fingerprint_is_complete(hb, ha);
        assert(pa.drop_last() == Seq::new(ha.len(), |i: int| text::hex_pair(ha[i], true)));
        assert(pb.drop_last() == Seq::new(hb.len(), |i: int| text::hex_pair(hb[i], true)));
        let ca = colon_hex(a);
        let cb = colon_hex(b);
        let n = ca.len() as int;
        assert(ca[n - 2] == text::hex_pair(a.last(), true)[0]);
        assert(ca[n - 1] == text::hex_pair(a.last(), true)[1]);
        if text::lowercase(ca) == text::lowercase(cb) {
            assert(text::lowercase(ca).len() == text::lowercase(cb).len());
            assert(cb[n - 2] == text::hex_pair(b.last(), true)[0]);
            assert(cb[n - 1] == text::hex_pair(b.last(), true)[1]);
            assert(text::lowercase(ca)[n - 2] == text::lowercase(cb)[n - 2]);
            assert(text::lowercase(ca)[n - 1] == text::lowercase(cb)[n - 1]);
            lemma_hex_digit_injective((a.last() / 16) as nat, (b.last() / 16) as nat);
            lemma_hex_digit_injective((a.last() % 16) as nat, (b.last() % 16) as nat);
            assert(a.last() == b.last());
            if a.len() > 1 {
                assert(ca.take(n - 3) == colon_hex(ha));
                assert(cb.take(n - 3) == colon_hex(hb));
                assert forall|i: int| 0 <= i < n - 3 implies text::lowercase(colon_hex(ha))[i]
                    == text::lowercase(colon_hex(hb))[i] by {
                    assert(text::lowercase(ca)[i] == text::lowercase(cb)[i]);
                    assert(ca.take(n - 3)[i] == ca[i]);
                    assert(cb.take(n - 3)[i] == cb[i]);
                }
                assert(text::lowercase(colon_hex(ha)) == text::lowercase(colon_hex(hb)));
            } else {
                assert(ha == hb);
            }
            assert(a == ha.push(a.last()));
            assert(b == hb.push(b.last()));
        }
    }
}

proof fn lemma_hex_digit_injective(a: nat, b: nat)
    requires
        a < 16,
        b < 16,
        text::lower(text::hex_char(a, true)) == text::lower(text::hex_char(b, true)),
    ensures
        a == b,
{
}

} // verus!
