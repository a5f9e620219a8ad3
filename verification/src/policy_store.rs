//! Per-agent MCP tool policies and where they are stored.
use vstd::prelude::*;
use crate::codec::{hex_encode, hex_lower};
use crate::crypto::{sha256, sha256_digest};
use crate::identity::strings_view;
use crate::strmap::{entries_map, keys_unique, lemma_entry_in_map, lookup, StrMap};
use crate::text::{owned, unit_result_view};
use vstd::utf8::encode_utf8;

verus! {

/// Which MCP tools an agent may call, and how often.
#[derive(Debug)]
pub struct McpPolicy {
    pub allowed_tools: Vec<String>,
    pub denylist: Vec<String>,
    pub allow_unknown_tools: bool,
    pub max_requests_per_second: u32,
}

pub ghost struct McpPolicyView {
    pub allowed_tools: Seq<Seq<char>>,
    pub denylist: Seq<Seq<char>>,
    pub allow_unknown_tools: bool,
    pub max_requests_per_second: u32,
}

impl View for McpPolicy {
    type V = McpPolicyView;

    open spec fn view(&self) -> McpPolicyView {
        McpPolicyView {
            allowed_tools: strings_view(self.allowed_tools@),
            denylist: strings_view(self.denylist@),
            allow_unknown_tools: self.allow_unknown_tools,
            max_requests_per_second: self.max_requests_per_second,
        }
    }
}

/// The request rate a policy read from JSON gets when it names none.
pub fn default_rps() -> (r: u32)
    ensures
        r == 10,
{
    10
}

/// A copy of a vector of strings.
pub fn copy_strings(v: &Vec<String>) -> (r: Vec<String>)
    ensures
        r@ == v@,
{
    let mut out: Vec<String> = Vec::new();
    let mut i: usize = 0;
    while i < v.len()
        invariant
            i <= v@.len(),
            out@ == v@.take(i as int),
        decreases v@.len() - i,
    {
        out.push(v[i].clone());
        i = i + 1;
        assert(out@ =~= v@.take(i as int));
    }
    assert(v@.take(v@.len() as int) =~= v@);
    out
}

impl McpPolicy {
    /// A copy of the policy.
    pub fn duplicate(&self) -> (r: McpPolicy)
        ensures
            r@ == self@,
    {
        McpPolicy {
            allowed_tools: copy_strings(&self.allowed_tools),
            denylist: copy_strings(&self.denylist),
            allow_unknown_tools: self.allow_unknown_tools,
            max_requests_per_second: self.max_requests_per_second,
        }
    }
}

impl Default for McpPolicy {
    /// No tools listed, unknown tools refused, and a rate of zero.
    fn default() -> (r: McpPolicy)
        ensures
            r@.allowed_tools.len() == 0,
            r@.denylist.len() == 0,
            !r@.allow_unknown_tools,
            r@.max_requests_per_second == 0,
    {
        let r = McpPolicy {
            allowed_tools: Vec::new(),
            denylist: Vec::new(),
            allow_unknown_tools: false,
            max_requests_per_second: 0,
        };
        assert(r@.allowed_tools =~= Seq::<Seq<char>>::empty());
        assert(r@.denylist =~= Seq::<Seq<char>>::empty());
        r
    }
}

/// Where agents' policies are kept. Implementations may fail or consult
/// remote services; each models the policies it holds as `stored`, and
/// says through `policy_answer` which answers it may give for a DID and
/// through `save_answer` which answers it may give to a save.
pub trait PolicyStore: Sized {
    /// The policies the store holds, by agent DID.
    spec fn stored(&self) -> Map<Seq<char>, McpPolicyView>;

    /// Whether `a` is an answer the store may give when asked for the
    /// policy of `did`.
    spec fn policy_answer(&self, did: Seq<char>, a: Result<Option<McpPolicyView>, Seq<char>>) -> bool;

    /// Whether `a` is an answer the store may give when asked to save
    /// `policy` under `did`, leaving itself as `after`.
    spec fn save_answer(&self, did: Seq<char>, policy: McpPolicyView, a: Result<(), Seq<char>>, after: Self) -> bool;

    /// Stores an agent's policy, replacing any earlier one.
    fn save_policy(&mut self, agent_did: &str, policy: McpPolicy) -> (r: Result<(), String>)
        ensures
            old(self).save_answer(agent_did@, policy@, unit_result_view(r), *final(self)),
            r is Ok ==> final(self).stored() == old(self).stored().insert(agent_did@, policy@),
    ;

    /// The stored policy of an agent, if there is one.
    fn load_policy(&self, agent_did: &str) -> (r: Result<Option<McpPolicy>, String>)
        ensures
            self.policy_answer(agent_did@, policy_lookup_view(r)),
            r is Ok ==> policy_lookup_view(r) == Ok::<Option<McpPolicyView>, Seq<char>>(
                lookup(self.stored(), agent_did@),
            ),
    ;

    /// Forgets an agent's policy.
    fn delete_policy(&mut self, agent_did: &str) -> (r: Result<(), String>)
        ensures
            r is Ok ==> final(self).stored() == old(self).stored().remove(agent_did@),
    ;

    /// All stored policies with the keys they are stored under.
    fn list_policies(&self) -> Result<Vec<(String, McpPolicy)>, String>;
}

/// The view of a map of policies.
pub open spec fn policies_view(m: Map<Seq<char>, McpPolicy>) -> Map<Seq<char>, McpPolicyView> {
    m.map_values(|p: McpPolicy| p@)
}

/// The view of an optional policy.
pub open spec fn opt_policy_view(o: Option<McpPolicy>) -> Option<McpPolicyView> {
    match o {
        Some(p) => Some(p@),
        None => None,
    }
}

/// The view of a policy answer from a store.
pub open spec fn policy_lookup_view(r: Result<Option<McpPolicy>, String>) -> Result<Option<McpPolicyView>, Seq<char>> {
    match r {
        Ok(o) => Ok(opt_policy_view(o)),
        Err(e) => Err(e@),
    }
}

/// A policy store held in memory.
pub struct MemoryPolicyStore {
    policies: StrMap<McpPolicy>,
}

impl View for MemoryPolicyStore {
    type V = Map<Seq<char>, McpPolicyView>;

    closed spec fn view(&self) -> Map<Seq<char>, McpPolicyView> {
        policies_view(self.policies@)
    }
}

impl MemoryPolicyStore {
    /// An empty store.
    pub fn new() -> (r: MemoryPolicyStore)
        ensures
            r@ == Map::<Seq<char>, McpPolicyView>::empty(),
    {
        let r = MemoryPolicyStore { policies: StrMap::new() };
        assert(r@ =~= Map::<Seq<char>, McpPolicyView>::empty());
        r
    }
}

impl PolicyStore for MemoryPolicyStore {
    open spec fn stored(&self) -> Map<Seq<char>, McpPolicyView> {
        self@
    }

    /// The policy stored for `did`; the lookup never fails.
    open spec fn policy_answer(&self, did: Seq<char>, a: Result<Option<McpPolicyView>, Seq<char>>) -> bool {
        a == Ok::<Option<McpPolicyView>, Seq<char>>(lookup(self@, did))
    }

    /// Saving never fails.
    open spec fn save_answer(
        &self,
        did: Seq<char>,
        policy: McpPolicyView,
        a: Result<(), Seq<char>>,
        after: Self,
    ) -> bool {
        a is Ok && after@ == self@.insert(did, policy)
    }

    fn save_policy(&mut self, agent_did: &str, policy: McpPolicy) -> (r: Result<(), String>)
        ensures
            r is Ok,
            final(self)@ == old(self)@.insert(agent_did@, policy@),
    {
        self.policies.insert(owned(agent_did), policy);
        assert(self@ =~= old(self)@.insert(agent_did@, policy@));
        Ok(())
    }

    fn load_policy(&self, agent_did: &str) -> (r: Result<Option<McpPolicy>, String>)
        ensures
            policy_lookup_view(r) == Ok::<Option<McpPolicyView>, Seq<char>>(
                lookup(self@, agent_did@),
            ),
    {
        match self.policies.get(agent_did) {
            Some(p) => Ok(Some(p.duplicate())),
            None => Ok(None),
        }
    }

    fn delete_policy(&mut self, agent_did: &str) -> (r: Result<(), String>)
        ensures
            r is Ok,
            final(self)@ == old(self)@.remove(agent_did@),
    {
        let _ = self.policies.remove(agent_did);
        assert(self@ =~= old(self)@.remove(agent_did@));
        Ok(())
    }

    fn list_policies(&self) -> (r: Result<Vec<(String, McpPolicy)>, String>)
        ensures
            r matches Ok(v) && v@.len() == self@.len() && (forall|i: int|
                0 <= i < v@.len() ==> #[trigger] self@.contains_key(v@[i].0@) && self@[v@[i].0@]
                    == v@[i].1@) && (forall|i: int, j: int|
                0 <= i < v@.len() && 0 <= j < v@.len() && i != j ==> (#[trigger] v@[i]).0@ != (
                #[trigger] v@[j]).0@),
    {
        let pairs = self.policies.as_pairs();
        let n = self.policies.len();
        proof {
            self.policies.lemma_view_of_pairs();
            assert(self@.dom() =~= self.policies@.dom());
        }
        let mut out: Vec<(String, McpPolicy)> = Vec::new();
        let mut i: usize = 0;
        while i < n
            invariant
                n == pairs@.len(),
                pairs@ == self.policies.pairs(),
                keys_unique(pairs@),
                self.policies@ == entries_map(pairs@),
                i <= n,
                out@.len() == i,
                forall|j: int|
                    0 <= j < i ==> (#[trigger] out@[j]).0@ == pairs@[j].0@ && out@[j].1@
                        == pairs@[j].1@,
            decreases n - i,
        {
            let (k, p) = &pairs[i];
            out.push((k.clone(), p.duplicate()));
            i = i + 1;
        }
        proof {
            assert forall|j: int| 0 <= j < out@.len() implies #[trigger] self@.contains_key(
                out@[j].0@,
            ) && self@[out@[j].0@] == out@[j].1@ by {
                lemma_entry_in_map(pairs@, j);
            }
        }
        Ok(out)
    }
}

/// A policy that was saved is what a later load of the same agent gives,
/// and saving or deleting one agent's policy leaves the others as they were.
pub proof fn lemma_policy_store_read_back(
    m: Map<Seq<char>, McpPolicyView>,
    did: Seq<char>,
    other: Seq<char>,
    p: McpPolicyView,
)
    requires
        other != did,
    ensures
        lookup(m.insert(did, p), did) == Some(p),
        lookup(m.insert(did, p), other) == lookup(m, other),
        lookup(m.remove(did), did) is None,
        lookup(m.remove(did), other) == lookup(m, other),
{
}

/// The layout of a directory of policy files: one JSON file per agent,
/// named by the SHA-256 of the agent's DID.
pub struct FilePolicyStore {
    pub base_dir: String,
}

/// The file name of an agent's policy: hex SHA-256 of its DID, `.json`.
pub open spec fn policy_file_name(agent_did: Seq<char>) -> Seq<char> {
    hex_lower(sha256(encode_utf8(agent_did))) + ".json"@
}

/// The file a policy is first written to before it is renamed into place.
pub open spec fn policy_temp_name(agent_did: Seq<char>) -> Seq<char> {
    hex_lower(sha256(encode_utf8(agent_did))) + ".tmp"@
}

/// A file name joined to a directory: the name alone for an empty
/// directory, otherwise separated by one `/`.
pub open spec fn join_path(dir: Seq<char>, name: Seq<char>) -> Seq<char> {
    if dir.len() == 0 {
        name
    } else if dir.last() == '/' {
        dir + name
    } else {
        dir + seq!['/'] + name
    }
}

/// The key a policy file is listed under: the file name without its
/// `.json` extension, for a name that has that extension (a name that is
/// `.json` alone has none).
pub open spec fn listed_key(file_name: Seq<char>) -> Option<Seq<char>> {
    if file_name.len() > 5 && file_name.skip(file_name.len() - 5) == ".json"@ {
        Some(file_name.take(file_name.len() - 5))
    } else {
        None
    }
}

/// The key a policy file is listed under, if it is a policy file.
pub fn policy_file_key(file_name: &str) -> (r: Option<String>)
    ensures
        r matches Some(k) ==> listed_key(file_name@) == Some(k@),
        r is None ==> listed_key(file_name@) is None,
{
    let n = file_name.unicode_len();
    if n <= 5 {
        return None;
    }
    let tail = file_name.substring_char(n - 5, n);
    let ext = ".json";
    proof {
        reveal_strlit(".json");
    }
    if !crate::text::str_eq(tail, ext) {
        return None;
    }
    let head = file_name.substring_char(0, n - 5);
    assert(head@ =~= file_name@.take(file_name@.len() - 5));
    assert(tail@ =~= file_name@.skip(file_name@.len() - 5));
    Some(owned(head))
}

impl FilePolicyStore {
    /// A store rooted at `base_dir`.
    pub fn new(base_dir: String) -> (r: FilePolicyStore)
        ensures
            r.base_dir@ == base_dir@,
    {
        FilePolicyStore { base_dir }
    }

    fn join(&self, name: String) -> (r: String)
        ensures
            r@ == join_path(self.base_dir@, name@),
    {
        let n = self.base_dir.as_str().unicode_len();
        if n == 0 {
            return name;
        }
        let last = self.base_dir.as_str().get_char(n - 1);
        let mut p = self.base_dir.clone();
        if last != '/' {
            crate::text::string_push(&mut p, '/');
        }
        p.append(name.as_str());
        assert(p@ =~= join_path(self.base_dir@, name@));
        p
    }

    fn did_digest_hex(agent_did: &str) -> (r: String)
        ensures
            r@ == hex_lower(sha256(encode_utf8(agent_did@))),
    {
        let bytes = agent_did.as_bytes_vec();
        let digest = sha256_digest(bytes.as_slice());
        hex_encode(digest.as_slice())
    }

    /// The path of an agent's policy file.
    pub fn get_path(&self, agent_did: &str) -> (r: String)
        ensures
            r@ == join_path(self.base_dir@, policy_file_name(agent_did@)),
    {
        let mut name = FilePolicyStore::did_digest_hex(agent_did);
        name.append(".json");
        self.join(name)
    }

    /// The temporary path an agent's policy is written to first.
    pub fn temp_path(&self, agent_did: &str) -> (r: String)
        ensures
            r@ == join_path(self.base_dir@, policy_temp_name(agent_did@)),
    {
        let mut name = FilePolicyStore::did_digest_hex(agent_did);
        name.append(".tmp");
        self.join(name)
    }
}

} // verus!
