//! Agent identities: decentralized identifiers (`did:mesh:...`), Ed25519
//! keys carried as base64 text, signing and signature checks.
use vstd::prelude::*;
use vstd::slice::slice_subrange;
use vstd::slice::slice_to_vec;
use crate::codec::{b64_encode, base64_decode, base64_encode, hex_encode, hex_lower, is_b64_text, lemma_b64_roundtrip};
use crate::crypto::{ed25519_accepts, ed25519_public_key, ed25519_signature, public_key_of, random_secret_key, sign_message, verify_message};
use crate::keystore::KeyStore;
use crate::text::{chars_of, owned, string_of_chars, unit_result_view};

verus! {

/// A decentralized identifier `did:<method>:<unique_id>`.
#[derive(Debug)]
pub struct AgentDID {
    pub method: String,
    pub unique_id: String,
}

pub ghost struct AgentDIDView {
    pub method: Seq<char>,
    pub unique_id: Seq<char>,
}

impl View for AgentDID {
    type V = AgentDIDView;

    open spec fn view(&self) -> AgentDIDView {
        AgentDIDView { method: self.method@, unique_id: self.unique_id@ }
    }
}

/// Text of a DID: `did:` + method + `:` + unique id.
pub open spec fn did_text(d: AgentDIDView) -> Seq<char> {
    seq!['d', 'i', 'd', ':'] + d.method + seq![':'] + d.unique_id
}

/// The prefix of every mesh DID.
pub open spec fn mesh_prefix() -> Seq<char> {
    seq!['d', 'i', 'd', ':', 'm', 'e', 's', 'h', ':']
}

/// The method name of mesh DIDs.
pub open spec fn mesh_method() -> Seq<char> {
    seq!['m', 'e', 's', 'h']
}

/// `s` splits at `:` into exactly `did`, `mesh` and a unique id.
pub open spec fn is_mesh_did(s: Seq<char>) -> bool {
    &&& s.len() >= 9
    &&& s.take(9) == mesh_prefix()
    &&& !s.skip(9).contains(':')
}

/// The message of a DID that does not parse.
pub open spec fn invalid_did_message() -> Seq<char> {
    "Invalid DID format"@
}

impl AgentDID {
    /// The DID text `did:<method>:<unique_id>`.
    pub fn to_did_string(&self) -> (r: String)
        ensures
            r@ == did_text(self@),
    {
        let mut s = owned("did:");
        proof {
            reveal_strlit("did:");
        }
        s.append(self.method.as_str());
        s.append(":");
        proof {
            reveal_strlit(":");
        }
        s.append(self.unique_id.as_str());
        assert(s@ =~= did_text(self@));
        s
    }

    /// A copy of the DID.
    pub fn duplicate(&self) -> (r: AgentDID)
        ensures
            r@ == self@,
    {
        AgentDID { method: self.method.clone(), unique_id: self.unique_id.clone() }
    }

    /// Parses `did:mesh:<unique_id>` (`AgentDID::from_str`).
    pub fn from_str(s: &str) -> (r: Result<AgentDID, String>)
        ensures
            r is Ok <==> is_mesh_did(s@),
            r matches Ok(d) ==> d@.method == mesh_method() && d@.unique_id == s@.skip(9),
            r matches Err(e) ==> e@ == invalid_did_message(),
    {
        parse_did(s)
    }
}

/// Parses a DID of the form `did:mesh:<unique_id>`, where the unique id
/// holds no `:`.
pub fn parse_did(s: &str) -> (r: Result<AgentDID, String>)
    ensures
        r is Ok <==> is_mesh_did(s@),
        r matches Ok(d) ==> d@.method == mesh_method() && d@.unique_id == s@.skip(9),
        r matches Err(e) ==> e@ == invalid_did_message(),
{
    let cs = chars_of(s);
    let n = cs.len();
    let ok_prefix = n >= 9 && cs[0] == 'd' && cs[1] == 'i' && cs[2] == 'd' && cs[3] == ':' && cs[4]
        == 'm' && cs[5] == 'e' && cs[6] == 's' && cs[7] == 'h' && cs[8] == ':';
    if !ok_prefix {
        proof {
            if is_mesh_did(s@) {
                assert(s@.take(9)[0] == 'd');
                assert(s@.take(9)[1] == 'i');
                assert(s@.take(9)[2] == 'd');
                assert(s@.take(9)[3] == ':');
                assert(s@.take(9)[4] == 'm');
                assert(s@.take(9)[5] == 'e');
                assert(s@.take(9)[6] == 's');
                assert(s@.take(9)[7] == 'h');
                assert(s@.take(9)[8] == ':');
            }
        }
        return Err(owned("Invalid DID format"));
    }
    assert(s@.take(9) =~= mesh_prefix());
    let mut i: usize = 9;
    let mut rest: Vec<char> = Vec::new();
    while i < n
        invariant
            9 <= i <= n,
            n == cs@.len(),
            cs@ == s@,
            rest@ == s@.subrange(9, i as int),
            !rest@.contains(':'),
        decreases n - i,
    {
        if cs[i] == ':' {
            proof {
                assert(s@.skip(9)[i - 9] == ':');
            }
            return Err(owned("Invalid DID format"));
        }
        rest.push(cs[i]);
        i = i + 1;
        assert(rest@ =~= s@.subrange(9, i as int));
    }
    assert(rest@ =~= s@.skip(9));
    proof {
        reveal_strlit("mesh");
        assert("mesh"@ =~= mesh_method());
    }
    Ok(AgentDID { method: owned("mesh"), unique_id: string_of_chars(&rest) })
}

/// The bytes that a base64 text decodes to (meaningful when it is one).
pub open spec fn b64_decoded(text: Seq<char>) -> Seq<u8> {
    choose|b: Seq<u8>| b64_encode(b) == text
}

/// `text` is the base64 text of a 32-byte value.
pub open spec fn is_b64_key(text: Seq<char>) -> bool {
    is_b64_text(text) && b64_decoded(text).len() == 32
}

/// A signature is accepted under a verifying key given as base64 text:
/// the text decodes to 32 bytes, the signature has 64 bytes, and Ed25519
/// accepts it.
pub open spec fn accepts_b64_key(key_text: Seq<char>, message: Seq<u8>, signature: Seq<u8>) -> bool {
    is_b64_key(key_text) && signature.len() == 64 && ed25519_accepts(
        b64_decoded(key_text),
        message,
        signature,
    )
}

/// The base64 text of bytes decodes back to them.
pub proof fn lemma_b64_decoded_of_encoding(b: Seq<u8>)
    ensures
        is_b64_text(b64_encode(b)),
        b64_decoded(b64_encode(b)) == b,
{
    assert(b64_encode(b) == b64_encode(b));
    let c = b64_decoded(b64_encode(b));
    lemma_b64_roundtrip(b, c);
}

/// Decodes base64 text that holds a 32-byte key.
pub fn decode_key32(text: &str) -> (r: Option<[u8; 32]>)
    ensures
        r is Some <==> is_b64_key(text@),
        r matches Some(k) ==> k@ == b64_decoded(text@),
{
    match base64_decode(text) {
        Ok(v) => {
            proof {
                lemma_b64_roundtrip(b64_decoded(text@), v@);
            }
            if v.len() == 32 {
                Some(bytes_to_array32(&v))
            } else {
                None
            }
        },
        Err(_) => None,
    }
}

/// The 32 bytes of a vector, as an array.
pub fn bytes_to_array32(v: &Vec<u8>) -> (r: [u8; 32])
    requires
        v@.len() == 32,
    ensures
        r@ == v@,
{
    let mut a = [0u8; 32];
    let mut i: usize = 0;
    while i < 32
        invariant
            v@.len() == 32,
            i <= 32,
            forall|j: int| 0 <= j < i ==> a@[j] == v@[j],
        decreases 32 - i,
    {
        a[i] = v[i];
        i = i + 1;
    }
    assert(a@ =~= v@);
    a
}

/// The 64 bytes of a slice, as an array.
pub fn bytes_to_array64(v: &[u8]) -> (r: [u8; 64])
    requires
        v@.len() == 64,
    ensures
        r@ == v@,
{
    let mut a = [0u8; 64];
    let mut i: usize = 0;
    while i < 64
        invariant
            v@.len() == 64,
            i <= 64,
            forall|j: int| 0 <= j < i ==> a@[j] == v@[j],
        decreases 64 - i,
    {
        a[i] = v[i];
        i = i + 1;
    }
    assert(a@ =~= v@);
    a
}

/// Checks a signature against a verifying key given as base64 text.
pub fn verify_with_b64_key(key_text: &str, message: &[u8], signature: &[u8]) -> (r: bool)
    ensures
        r == accepts_b64_key(key_text@, message@, signature@),
{
    match decode_key32(key_text) {
        Some(key) => {
            if signature.len() != 64 {
                return false;
            }
            let sig = bytes_to_array64(signature);
            verify_message(&key, message, &sig)
        },
        None => false,
    }
}

/// The identity of an agent in the mesh.
#[derive(Debug)]
pub struct AgentIdentity {
    pub did: AgentDID,
    pub name: String,
    pub public_key: String,
    pub sponsor_email: String,
    pub capabilities: Vec<String>,
    pub status: String,
    pub parent_did: Option<String>,
    pub delegation_depth: u32,
    pub private_key: Option<[u8; 32]>,
}

pub ghost struct AgentIdentityView {
    pub did: AgentDIDView,
    pub name: Seq<char>,
    pub public_key: Seq<char>,
    pub sponsor_email: Seq<char>,
    pub capabilities: Seq<Seq<char>>,
    pub status: Seq<char>,
    pub parent_did: Option<Seq<char>>,
    pub delegation_depth: u32,
    pub private_key: Option<[u8; 32]>,
}

/// The view of a vector of strings.
pub open spec fn strings_view(v: Seq<String>) -> Seq<Seq<char>> {
    v.map_values(|s: String| s@)
}

/// The view of an optional string.
pub open spec fn opt_string_view(o: Option<String>) -> Option<Seq<char>> {
    match o {
        Some(s) => Some(s@),
        None => None,
    }
}

impl View for AgentIdentity {
    type V = AgentIdentityView;

    open spec fn view(&self) -> AgentIdentityView {
        AgentIdentityView {
            did: self.did@,
            name: self.name@,
            public_key: self.public_key@,
            sponsor_email: self.sponsor_email@,
            capabilities: strings_view(self.capabilities@),
            status: self.status@,
            parent_did: opt_string_view(self.parent_did),
            delegation_depth: self.delegation_depth,
            private_key: self.private_key,
        }
    }
}

/// The identity made from a secret key: its public key is the base64 text
/// of the verifying key, its DID is `did:mesh:` followed by the hex text of
/// the verifying key's first 16 bytes, it is active, at delegation depth 0,
/// and it keeps the secret key.
pub open spec fn identity_from_secret(
    secret: [u8; 32],
    name: Seq<char>,
    sponsor_email: Seq<char>,
    capabilities: Seq<Seq<char>>,
    parent_did: Option<Seq<char>>,
) -> AgentIdentityView {
    let pk = ed25519_public_key(secret@);
    AgentIdentityView {
        did: AgentDIDView { method: mesh_method(), unique_id: hex_lower(pk@.take(16)) },
        name,
        public_key: b64_encode(pk@),
        sponsor_email,
        capabilities,
        status: "active"@,
        parent_did,
        delegation_depth: 0,
        private_key: Some(secret),
    }
}

/// The outcome of creating an identity from `secret` whose saving in a
/// key store answered `saved`: the identity when the key was saved, the
/// store's error otherwise.
pub open spec fn stored_identity(
    secret: [u8; 32],
    saved: Result<(), Seq<char>>,
    name: Seq<char>,
    sponsor_email: Seq<char>,
    capabilities: Seq<Seq<char>>,
    parent_did: Option<Seq<char>>,
) -> Result<AgentIdentityView, Seq<char>> {
    match saved {
        Ok(()) => Ok(identity_from_secret(secret, name, sponsor_email, capabilities, parent_did)),
        Err(e) => Err(e),
    }
}

/// The view of an identity result.
pub open spec fn identity_result_view(r: Result<AgentIdentity, String>) -> Result<AgentIdentityView, Seq<char>> {
    match r {
        Ok(id) => Ok(id@),
        Err(e) => Err(e@),
    }
}

/// The message of an identity that cannot sign.
pub open spec fn no_private_key_message() -> Seq<char> {
    "Agent identity has no private key"@
}

impl AgentIdentity {
    /// The identity that belongs to a secret key.
    pub fn from_secret_key(
        secret: [u8; 32],
        name: String,
        sponsor_email: String,
        capabilities: Vec<String>,
        parent_did: Option<String>,
    ) -> (r: AgentIdentity)
        ensures
            r@ == identity_from_secret(
                secret,
                name@,
                sponsor_email@,
                strings_view(capabilities@),
                opt_string_view(parent_did),
            ),
    {
        let pk = public_key_of(&secret);
        let head = slice_subrange(pk.as_slice(), 0, 16);
        let unique_id = hex_encode(head);
        let public_key = base64_encode(pk.as_slice());
        let r = AgentIdentity {
            did: AgentDID { method: owned("mesh"), unique_id },
            name,
            public_key,
            sponsor_email,
            capabilities,
            status: owned("active"),
            parent_did,
            delegation_depth: 0,
            private_key: Some(secret),
        };
        proof {
            reveal_strlit("mesh");
            assert("mesh"@ =~= mesh_method());
        }
        r
    }

    /// A new identity with a random secret key (`AgentIdentity::create`
    /// without a key store).
    pub fn create(
        name: String,
        sponsor_email: String,
        capabilities: Vec<String>,
        parent_did: Option<String>,
    ) -> (r: AgentIdentity)
        ensures
            exists|secret: [u8; 32]|
                r@ == identity_from_secret(
                    secret,
                    name@,
                    sponsor_email@,
                    strings_view(capabilities@),
                    opt_string_view(parent_did),
                ),
    {
        let secret = random_secret_key();
        AgentIdentity::from_secret_key(secret, name, sponsor_email, capabilities, parent_did)
    }

    /// A new identity with a random secret key, which is saved in the key
    /// store under the identity's DID text (`AgentIdentity::create` with a
    /// key store). The store's answer decides: its failure is passed on,
    /// and nothing else fails.
    pub fn create_in_store<K: KeyStore>(
        name: String,
        sponsor_email: String,
        capabilities: Vec<String>,
        parent_did: Option<String>,
        keystore: &mut K,
    ) -> (r: Result<AgentIdentity, String>)
        ensures
            exists|secret: [u8; 32], saved: Result<(), Seq<char>>|
                {
                    let id = identity_from_secret(
                        secret,
                        name@,
                        sponsor_email@,
                        strings_view(capabilities@),
                        opt_string_view(parent_did),
                    );
                    &&& old(keystore).save_answer(did_text(id.did), secret, saved, *final(keystore))
                    &&& saved is Ok ==> final(keystore).stored_keys() == old(
                        keystore,
                    ).stored_keys().insert(did_text(id.did), secret)
                    &&& identity_result_view(r) == #[trigger] stored_identity(
                        secret,
                        saved,
                        name@,
                        sponsor_email@,
                        strings_view(capabilities@),
                        opt_string_view(parent_did),
                    )
                },
    {
        let ghost nv = name@;
        let ghost ev = sponsor_email@;
        let ghost cv = strings_view(capabilities@);
        let ghost pv = opt_string_view(parent_did);
        let secret = random_secret_key();
        let id = AgentIdentity::from_secret_key(
            secret,
            name,
            sponsor_email,
            capabilities,
            parent_did,
        );
        let did_text = id.did.to_did_string();
        let saved = keystore.save_key(did_text.as_str(), secret);
        let ghost sv: Result<(), Seq<char>> = unit_result_view(saved);
        let r = match saved {
            Ok(()) => Ok(id),
            Err(e) => Err(e),
        };
        assert(identity_result_view(r) == stored_identity(secret, sv, nv, ev, cv, pv));
        r
    }

    /// Signs a payload with the identity's secret key.
    pub fn sign(&self, payload: &[u8]) -> (r: Result<Vec<u8>, String>)
        ensures
            self.private_key is None ==> (r matches Err(e) && e@ == no_private_key_message()),
            self.private_key matches Some(sk) ==> (r matches Ok(sig) && sig@ == ed25519_signature(
                sk@,
                payload@,
            )@),
            self.private_key matches Some(sk) && self.public_key@ == b64_encode(
                ed25519_public_key(sk@)@,
            ) ==> (r matches Ok(sig) && accepts_b64_key(self.public_key@, payload@, sig@)),
    {
        match &self.private_key {
            Some(sk) => {
                let sig = sign_message(sk, payload);
                let v = slice_to_vec(sig.as_slice());
                proof {
                    lemma_b64_decoded_of_encoding(ed25519_public_key(sk@)@);
                }
                Ok(v)
            },
            None => Err(owned("Agent identity has no private key")),
        }
    }

    /// Whether `signature` is an Ed25519 signature of `payload` under the
    /// identity's public key.
    pub fn verify_signature(&self, payload: &[u8], signature: &[u8]) -> (r: bool)
        ensures
            r == accepts_b64_key(self.public_key@, payload@, signature@),
    {
        verify_with_b64_key(self.public_key.as_str(), payload, signature)
    }
}

/// The text of a mesh DID whose unique id holds no `:` parses back to
/// the same DID.
pub proof fn lemma_mesh_did_text_parses(d: AgentDIDView)
    requires
        d.method == mesh_method(),
        !d.unique_id.contains(':'),
    ensures
        is_mesh_did(did_text(d)),
        did_text(d).skip(9) == d.unique_id,
{
    assert(did_text(d).take(9) =~= mesh_prefix());
    assert(did_text(d).skip(9) =~= d.unique_id);
}

} // verus!
