//! The agent registry: which agents are registered, with which public key
//! and privilege ring, and the attestations it signs about them; and the
//! check of a request signed by a registered agent.
use vstd::prelude::*;
use crate::attestation::{attestation_error, claim_bytes, AttestationClaim, AttestationClaimView, SignedAttestation, SignedAttestationView};
use crate::clock::{utc_now, Timestamp, MAX_TIMESTAMP_SECS};
use crate::codec::{b64_encode, base64_encode};
use crate::crypto::{ed25519_public_key, ed25519_signature, sign_message};
use crate::identity::{accepts_b64_key, did_text, lemma_b64_decoded_of_encoding, verify_with_b64_key, AgentIdentity};
use crate::ring::PrivilegeRing;
use crate::strmap::{lookup, StrMap};
use crate::text::{concat2, owned, unit_result_view};

verus! {

/// Seconds for which an attestation stays valid (24 hours).
pub const ATTESTATION_TTL_SECS: i64 = 86400;

/// A registry of agents. Implementations may fail or consult remote
/// services; each says, through `ring_answer` and `attestation_answer`,
/// which answers it may give for a DID, and its lookups give one of them.
pub trait AgentRegistry {
    /// Whether `a` is an answer the registry may give when asked for the
    /// ring of `did`.
    spec fn ring_answer(&self, did: Seq<char>, a: Result<Option<PrivilegeRing>, Seq<char>>) -> bool;

    /// Whether `a` is an answer the registry may give when asked for an
    /// attestation of `did`.
    spec fn attestation_answer(
        &self,
        did: Seq<char>,
        a: Result<Option<SignedAttestationView>, Seq<char>>,
    ) -> bool;

    /// Registers an agent's identity with a privilege ring.
    fn register(&mut self, identity: &AgentIdentity, ring: PrivilegeRing) -> Result<(), String>;

    /// A signed attestation for a registered DID; `None` when the DID is
    /// not registered.
    fn get_attestation(&self, did: &str) -> (r: Result<Option<SignedAttestation>, String>)
        ensures
            self.attestation_answer(did@, lookup_view(r)),
    ;

    /// The ring of a registered DID; `None` when it is not registered.
    fn get_ring(&self, did: &str) -> (r: Result<Option<PrivilegeRing>, String>)
        ensures
            self.ring_answer(did@, ring_lookup_view(r)),
    ;

    /// Whether a DID is registered.
    fn is_registered(&self, did: &str) -> Result<bool, String>;
}

/// The view of a ring answer.
pub open spec fn ring_lookup_view(r: Result<Option<PrivilegeRing>, String>) -> Result<Option<PrivilegeRing>, Seq<char>> {
    match r {
        Ok(o) => Ok(o),
        Err(e) => Err(e@),
    }
}

/// A registry held in memory that signs attestations with its own key.
pub struct MemoryAgentRegistry {
    entries: StrMap<(String, PrivilegeRing)>,
    registry_identity: [u8; 32],
    registry_did: String,
}

/// The attestation that a registry with secret key `registry_secret` and
/// DID `registry_did` issues at `now` for `did` with public key `key_text`:
/// valid for 24 hours from `now`, signed over the canonical claim bytes.
pub open spec fn issued_attestation(
    registry_secret: [u8; 32],
    registry_did: Seq<char>,
    did: Seq<char>,
    key_text: Seq<char>,
    now: Timestamp,
) -> SignedAttestationView {
    let claim = AttestationClaimView {
        subject_did: did,
        public_key_b64: key_text,
        issued_at: now,
        expires_at: Timestamp { secs: (now.secs + ATTESTATION_TTL_SECS) as i64, nanos: now.nanos },
    };
    SignedAttestationView {
        claim,
        registry_did,
        signature_b64: b64_encode(ed25519_signature(registry_secret@, claim_bytes(claim))@),
    }
}

/// What a registry with these entries, secret key and DID answers at
/// `now` for `did`: an error when the expiry 24 hours on is past the last
/// representable date-time, nothing for an unregistered DID, and
/// otherwise the attestation issued at `now`.
pub open spec fn attestation_reply(
    entries: Map<Seq<char>, (String, PrivilegeRing)>,
    registry_secret: [u8; 32],
    registry_did: Seq<char>,
    did: Seq<char>,
    now: Timestamp,
) -> Result<Option<SignedAttestationView>, Seq<char>> {
    if now.secs + ATTESTATION_TTL_SECS > MAX_TIMESTAMP_SECS {
        Err("Attestation expiry out of range"@)
    } else if !entries.contains_key(did) {
        Ok(None)
    } else {
        Ok(Some(issued_attestation(registry_secret, registry_did, did, entries[did].0@, now)))
    }
}

impl MemoryAgentRegistry {
    /// An empty registry that signs with `registry_identity`.
    pub fn new(registry_identity: [u8; 32], registry_did: String) -> (r: MemoryAgentRegistry)
        ensures
            r.entries_view() == Map::<Seq<char>, (String, PrivilegeRing)>::empty(),
            r.secret() == registry_identity,
            r.did_view() == registry_did@,
    {
        MemoryAgentRegistry { entries: StrMap::new(), registry_identity, registry_did }
    }

    /// Registered DIDs with their public key text and ring.
    pub closed spec fn entries_view(&self) -> Map<Seq<char>, (String, PrivilegeRing)> {
        self.entries@
    }

    /// The registry's signing key.
    pub closed spec fn secret(&self) -> [u8; 32] {
        self.registry_identity
    }

    /// The registry's DID.
    pub closed spec fn did_view(&self) -> Seq<char> {
        self.registry_did@
    }

    /// The registry's public key as base64 text, which clients use to check
    /// its attestations.
    pub fn public_key_b64(&self) -> (r: String)
        ensures
            r@ == b64_encode(ed25519_public_key(self.secret()@)@),
    {
        let pk = crate::crypto::public_key_of(&self.registry_identity);
        base64_encode(pk.as_slice())
    }

    /// The attestation for `did` issued at `now`.
    pub fn get_attestation_at(&self, did: &str, now: Timestamp) -> (r: Option<SignedAttestation>)
        requires
            now.valid(),
            now.secs + ATTESTATION_TTL_SECS <= MAX_TIMESTAMP_SECS,
        ensures
            r is None <==> !self.entries_view().contains_key(did@),
            r matches Some(a) ==> a@ == issued_attestation(
                self.secret(),
                self.did_view(),
                did@,
                self.entries_view()[did@].0@,
                now,
            ),
            r matches Some(a) ==> forall|later: Timestamp|
                !a.claim.expires_at.before(later) ==> attestation_error(
                    #[trigger] a@,
                    b64_encode(ed25519_public_key(self.secret()@)@),
                    later,
                ) is None,
    {
        let entry = match self.entries.get(did) {
            Some(e) => e,
            None => {
                return None;
            },
        };
        let claim = AttestationClaim {
            subject_did: owned(did),
            public_key_b64: entry.0.clone(),
            issued_at: now,
            expires_at: Timestamp { secs: now.secs + ATTESTATION_TTL_SECS, nanos: now.nanos },
        };
        assert(claim.expires_at.valid());
        let payload = SignedAttestation::canonical_bytes(&claim);
        let signature = sign_message(&self.registry_identity, payload.as_slice());
        let signature_b64 = base64_encode(signature.as_slice());
        let a = SignedAttestation { claim, registry_did: self.registry_did.clone(), signature_b64 };
        proof {
            lemma_b64_decoded_of_encoding(ed25519_public_key(self.registry_identity@)@);
            lemma_b64_decoded_of_encoding(signature@);
            assert(a@ == issued_attestation(
                self.secret(),
                self.did_view(),
                did@,
                self.entries_view()[did@].0@,
                now,
            ));
        }
        Some(a)
    }
}

impl AgentRegistry for MemoryAgentRegistry {
    /// The ring registered for `did`; the lookup never fails.
    open spec fn ring_answer(&self, did: Seq<char>, a: Result<Option<PrivilegeRing>, Seq<char>>) -> bool {
        a == Ok::<Option<PrivilegeRing>, Seq<char>>(
            match lookup(self.entries_view(), did) {
                Some(e) => Some(e.1),
                None => None::<PrivilegeRing>,
            },
        )
    }

    /// The answer at some instant the clock may give.
    open spec fn attestation_answer(
        &self,
        did: Seq<char>,
        a: Result<Option<SignedAttestationView>, Seq<char>>,
    ) -> bool {
        exists|now: Timestamp|
            now.valid() && now.secs >= 0 && now.nanos < 1_000_000_000 && a == #[trigger] attestation_reply(
                self.entries_view(),
                self.secret(),
                self.did_view(),
                did,
                now,
            )
    }

    fn register(&mut self, identity: &AgentIdentity, ring: PrivilegeRing) -> (r: Result<(), String>)
        ensures
            r is Ok,
            final(self).entries_view() == old(self).entries_view().insert(
                did_text(identity.did@),
                (identity.public_key, ring),
            ),
            final(self).secret() == old(self).secret(),
            final(self).did_view() == old(self).did_view(),
    {
        let did = identity.did.to_did_string();
        self.entries.insert(did, (identity.public_key.clone(), ring));
        Ok(())
    }

    /// The attestation issued now; a clock so late that the expiry 24 hours
    /// on is not a representable date-time is an error.
    fn get_attestation(&self, did: &str) -> (r: Result<Option<SignedAttestation>, String>)
        ensures
            exists|now: Timestamp|
                now.valid() && now.secs >= 0 && now.nanos < 1_000_000_000 && lookup_view(r)
                    == #[trigger] attestation_reply(
                    self.entries_view(),
                    self.secret(),
                    self.did_view(),
                    did@,
                    now,
                ),
    {
        let now = utc_now();
        if now.secs > MAX_TIMESTAMP_SECS - ATTESTATION_TTL_SECS {
            let r = Err(owned("Attestation expiry out of range"));
            assert(lookup_view(r) == attestation_reply(
                self.entries_view(),
                self.secret(),
                self.did_view(),
                did@,
                now,
            ));
            return r;
        }
        let r = Ok(self.get_attestation_at(did, now));
        assert(lookup_view(r) == attestation_reply(
            self.entries_view(),
            self.secret(),
            self.did_view(),
            did@,
            now,
        ));
        r
    }

    fn get_ring(&self, did: &str) -> (r: Result<Option<PrivilegeRing>, String>)
        ensures
            r matches Ok(o) && o == match lookup(self.entries_view(), did@) {
                Some(e) => Some(e.1),
                None => None::<PrivilegeRing>,
            },
    {
        match self.entries.get(did) {
            Some(e) => Ok(Some(e.1)),
            None => Ok(None),
        }
    }

    fn is_registered(&self, did: &str) -> (r: Result<bool, String>)
        ensures
            r == Ok::<bool, String>(self.entries_view().contains_key(did@)),
    {
        Ok(self.entries.contains_key(did))
    }
}

/// The outcome of checking a request signed by `did`, given what the
/// registry answered for its attestation and the instant of the check:
/// a failed lookup is passed on, an unknown DID is "Agent not registered",
/// a refused attestation is reported with its reason, and otherwise the
/// signature must be valid over the body under the attested key.
pub open spec fn request_signature_outcome(
    lookup: Result<Option<SignedAttestationView>, Seq<char>>,
    registry_pubkey: Seq<char>,
    now: Timestamp,
    body: Seq<u8>,
    signature: Seq<u8>,
) -> Result<(), Seq<char>> {
    match lookup {
        Err(e) => Err(e),
        Ok(None) => Err("Agent not registered"@),
        Ok(Some(a)) => match attestation_error(a, registry_pubkey, now) {
            Some(e) => Err("Registry attestation verification failed: "@ + e),
            None => if accepts_b64_key(a.claim.public_key_b64, body, signature) {
                Ok(())
            } else {
                Err("Invalid signature"@)
            },
        },
    }
}

/// The view of a registry's attestation answer.
pub open spec fn lookup_view(
    l: Result<Option<SignedAttestation>, String>,
) -> Result<Option<SignedAttestationView>, Seq<char>> {
    match l {
        Ok(Some(a)) => Ok(Some(a@)),
        Ok(None) => Ok(None),
        Err(e) => Err(e@),
    }
}

/// Checks a signed request against the registry's answer `lookup` for the
/// signer's attestation, at instant `now`.
pub fn check_request_signature(
    lookup: Result<Option<SignedAttestation>, String>,
    registry_pubkey: &str,
    now: Timestamp,
    body: &[u8],
    signature: &[u8],
) -> (r: Result<(), String>)
    ensures
        unit_result_view(r) == request_signature_outcome(
            lookup_view(lookup),
            registry_pubkey@,
            now,
            body@,
            signature@,
        ),
{
    match lookup {
        Err(e) => Err(e),
        Ok(None) => Err(owned("Agent not registered")),
        Ok(Some(a)) => {
            match a.verify_at(registry_pubkey, now) {
                Err(e) => Err(concat2("Registry attestation verification failed: ", e.as_str())),
                Ok(()) => {
                    if verify_with_b64_key(a.claim.public_key_b64.as_str(), body, signature) {
                        Ok(())
                    } else {
                        Err(owned("Invalid signature"))
                    }
                },
            }
        },
    }
}

/// Checks a request signed by `did`: fetches the signer's attestation from
/// the registry, checks it against the registry key now, then checks the
/// signature over the body under the attested key.
pub fn verify_request_signature<R: AgentRegistry>(
    did: &str,
    signature: &[u8],
    body: &[u8],
    registry: &R,
    registry_pubkey: &str,
) -> (r: Result<(), String>)
    ensures
        exists|l: Result<Option<SignedAttestationView>, Seq<char>>, now: Timestamp|
            registry.attestation_answer(did@, l) && now.valid() && unit_result_view(r)
                == request_signature_outcome(
                l,
                registry_pubkey@,
                now,
                body@,
                signature@,
            ),
{
    let lookup = registry.get_attestation(did);
    let now = utc_now();
    check_request_signature(lookup, registry_pubkey, now, body, signature)
}

} // verus!
