//! Registry attestations: a claim that binds an agent's DID to its public
//! key for a period, signed by the registry's Ed25519 key.
use vstd::prelude::*;
use vstd::utf8::encode_utf8;
use crate::clock::{rfc3339, rfc3339_text, utc_now, Timestamp};
use crate::codec::base64_decode;
use crate::crypto::ed25519_accepts;
use crate::crypto::verify_message;
use crate::identity::{b64_decoded, bytes_to_array64, decode_key32, is_b64_key};
use crate::codec::is_b64_text;
use crate::codec::lemma_b64_roundtrip;
use crate::text::{json_string, owned, push_json_string};

verus! {

/// What the registry asserts about an agent.
#[derive(Debug)]
pub struct AttestationClaim {
    pub subject_did: String,
    pub public_key_b64: String,
    pub issued_at: Timestamp,
    pub expires_at: Timestamp,
}

pub ghost struct AttestationClaimView {
    pub subject_did: Seq<char>,
    pub public_key_b64: Seq<char>,
    pub issued_at: Timestamp,
    pub expires_at: Timestamp,
}

impl View for AttestationClaim {
    type V = AttestationClaimView;

    open spec fn view(&self) -> AttestationClaimView {
        AttestationClaimView {
            subject_did: self.subject_did@,
            public_key_b64: self.public_key_b64@,
            issued_at: self.issued_at,
            expires_at: self.expires_at,
        }
    }
}

/// A claim together with the registry's signature over its canonical bytes.
#[derive(Debug)]
pub struct SignedAttestation {
    pub claim: AttestationClaim,
    pub registry_did: String,
    pub signature_b64: String,
}

pub ghost struct SignedAttestationView {
    pub claim: AttestationClaimView,
    pub registry_did: Seq<char>,
    pub signature_b64: Seq<char>,
}

impl View for SignedAttestation {
    type V = SignedAttestationView;

    open spec fn view(&self) -> SignedAttestationView {
        SignedAttestationView {
            claim: self.claim@,
            registry_did: self.registry_did@,
            signature_b64: self.signature_b64@,
        }
    }
}

/// The canonical JSON text of a claim: its four fields in order, strings
/// quoted and escaped, instants as RFC 3339 text.
pub open spec fn claim_json(c: AttestationClaimView) -> Seq<char> {
    "{\"subject_did\":"@ + json_string(c.subject_did) + ",\"public_key_b64\":"@ + json_string(
        c.public_key_b64,
    ) + ",\"issued_at\":"@ + json_string(rfc3339(c.issued_at.secs, c.issued_at.nanos))
        + ",\"expires_at\":"@ + json_string(rfc3339(c.expires_at.secs, c.expires_at.nanos))
        + "}"@
}

/// The bytes that the registry signs for a claim.
pub open spec fn claim_bytes(c: AttestationClaimView) -> Seq<u8> {
    encode_utf8(claim_json(c))
}

/// Both instants of the claim are representable.
pub open spec fn claim_times_valid(c: AttestationClaimView) -> bool {
    c.issued_at.valid() && c.expires_at.valid()
}

/// Why an attestation is refused, checked in this order, or `None` when it
/// is accepted at `now` under the registry key given as base64 text.
pub open spec fn attestation_error(
    a: SignedAttestationView,
    registry_key_text: Seq<char>,
    now: Timestamp,
) -> Option<Seq<char>> {
    if !claim_times_valid(a.claim) {
        Some("Attestation timestamp out of range"@)
    } else if !is_b64_key(registry_key_text) {
        Some("Invalid registry public key"@)
    } else if !is_b64_text(a.signature_b64) {
        Some("Invalid attestation signature encoding"@)
    } else if b64_decoded(a.signature_b64).len() != 64 {
        Some("Invalid attestation signature length"@)
    } else if !ed25519_accepts(
        b64_decoded(registry_key_text),
        claim_bytes(a.claim),
        b64_decoded(a.signature_b64),
    ) {
        Some("Attestation signature invalid"@)
    } else if a.claim.expires_at.before(now) {
        Some("Attestation expired"@)
    } else {
        None
    }
}

impl AttestationClaim {
    /// A copy of the claim.
    pub fn duplicate(&self) -> (r: AttestationClaim)
        ensures
            r@ == self@,
    {
        AttestationClaim {
            subject_did: self.subject_did.clone(),
            public_key_b64: self.public_key_b64.clone(),
            issued_at: self.issued_at,
            expires_at: self.expires_at,
        }
    }
}

impl SignedAttestation {
    /// The canonical JSON text of a claim.
    pub fn canonical_text(claim: &AttestationClaim) -> (r: String)
        requires
            claim_times_valid(claim@),
        ensures
            r@ == claim_json(claim@),
    {
        let mut out = owned("{\"subject_did\":");
        push_json_string(&mut out, claim.subject_did.as_str());
        out.append(",\"public_key_b64\":");
        push_json_string(&mut out, claim.public_key_b64.as_str());
        out.append(",\"issued_at\":");
        let t1 = rfc3339_text(&claim.issued_at);
        push_json_string(&mut out, t1.as_str());
        out.append(",\"expires_at\":");
        let t2 = rfc3339_text(&claim.expires_at);
        push_json_string(&mut out, t2.as_str());
        out.append("}");
        assert(out@ =~= claim_json(claim@));
        out
    }

    /// The bytes that the registry signs for a claim.
    pub fn canonical_bytes(claim: &AttestationClaim) -> (r: Vec<u8>)
        requires
            claim_times_valid(claim@),
        ensures
            r@ == claim_bytes(claim@),
    {
        let text = SignedAttestation::canonical_text(claim);
        text.as_str().as_bytes_vec()
    }

    /// A copy of the attestation.
    pub fn duplicate(&self) -> (r: SignedAttestation)
        ensures
            r@ == self@,
    {
        SignedAttestation {
            claim: self.claim.duplicate(),
            registry_did: self.registry_did.clone(),
            signature_b64: self.signature_b64.clone(),
        }
    }

    /// Checks the attestation at instant `now` against the registry's
    /// public key (base64 text): instants representable, key and signature
    /// well formed, signature valid over the canonical claim bytes, and the
    /// claim not expired.
    pub fn verify_at(&self, registry_pubkey: &str, now: Timestamp) -> (r: Result<(), String>)
        ensures
            r is Ok <==> attestation_error(self@, registry_pubkey@, now) is None,
            r matches Err(e) ==> attestation_error(self@, registry_pubkey@, now) == Some(e@),
    {
        if Timestamp::from_parts(self.claim.issued_at.secs, self.claim.issued_at.nanos).is_none()
            || Timestamp::from_parts(self.claim.expires_at.secs, self.claim.expires_at.nanos).is_none() {
            return Err(owned("Attestation timestamp out of range"));
        }
        let key = match decode_key32(registry_pubkey) {
            Some(k) => k,
            None => {
                return Err(owned("Invalid registry public key"));
            },
        };
        let sig = match base64_decode(self.signature_b64.as_str()) {
            Ok(v) => v,
            Err(_) => {
                return Err(owned("Invalid attestation signature encoding"));
            },
        };
        proof {
            lemma_b64_roundtrip(b64_decoded(self.signature_b64@), sig@);
        }
        if sig.len() != 64 {
            return Err(owned("Invalid attestation signature length"));
        }
        let sig64 = bytes_to_array64(sig.as_slice());
        let payload = SignedAttestation::canonical_bytes(&self.claim);
        if !verify_message(&key, payload.as_slice(), &sig64) {
            return Err(owned("Attestation signature invalid"));
        }
        if self.claim.expires_at.is_before(&now) {
            return Err(owned("Attestation expired"));
        }
        Ok(())
    }

    /// Checks the attestation now (`SignedAttestation::verify`); the
    /// outcome is that of `verify_at` at the instant the clock gave.
    pub fn verify(&self, registry_pubkey: &str) -> (r: Result<(), String>)
        ensures
            exists|now: Timestamp|
                now.valid() && (r is Ok <==> attestation_error(self@, registry_pubkey@, now) is None)
                    && (r matches Err(e) ==> attestation_error(self@, registry_pubkey@, now) == Some(
                    e@,
                )),
    {
        let now = utc_now();
        self.verify_at(registry_pubkey, now)
    }
}

} // verus!
