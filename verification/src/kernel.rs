//! The stateless execution kernel: actions are checked against named
//! policies and run with state kept in an external backend.
//!
//! JSON values are carried as their JSON text; a JSON object is carried
//! as its members, each a name with the JSON text of its value.
use vstd::prelude::*;
use std::time::Instant;
use crate::clock::{monotonic_now, nanos_since};
use crate::identity::strings_view;
use crate::strmap::StrMap;
use crate::text::{concat2, owned};
use crate::governance::strings_contain;
use crate::policy_store::copy_strings;

verus! {

/// The view of the members of a JSON object.
pub open spec fn members_view(s: Seq<(String, String)>) -> Seq<(Seq<char>, Seq<char>)> {
    s.map_values(|p: (String, String)| (p.0@, p.1@))
}

/// A copy of the members of a JSON object.
pub fn copy_members(v: &Vec<(String, String)>) -> (r: Vec<(String, String)>)
    ensures
        r@ == v@,
{
    let mut out: Vec<(String, String)> = Vec::new();
    let mut i: usize = 0;
    while i < v.len()
        invariant
            i <= v@.len(),
            out@ == v@.take(i as int),
        decreases v@.len() - i,
    {
        let (k, x) = &v[i];
        out.push((k.clone(), x.clone()));
        i = i + 1;
        assert(out@ =~= v@.take(i as int));
    }
    assert(v@.take(v@.len() as int) =~= v@);
    out
}

/// `after` is `before` with member `k` set to `x` at position `i`: the
/// first member named `k`, or a new last member when there is none.
pub open spec fn member_set_at(
    before: Seq<(String, String)>,
    after: Seq<(String, String)>,
    k: String,
    x: String,
    i: int,
) -> bool {
    &&& 0 <= i <= before.len()
    &&& after == (if i < before.len() {
        before.update(i, (k, x))
    } else {
        before.push((k, x))
    })
    &&& forall|j: int| 0 <= j < i ==> (#[trigger] before[j]).0@ != k@
    &&& i < before.len() ==> before[i].0@ == k@
}

/// Sets member `k` of a JSON object to `x`: the first member of that name
/// is replaced, or the member is added at the end.
pub fn set_member(obj: &mut Vec<(String, String)>, k: String, x: String)
    ensures
        exists|i: int| #[trigger] member_set_at(old(obj)@, final(obj)@, k, x, i),
{
    let ghost pair = (k, x);
    let mut i: usize = 0;
    while i < obj.len()
        invariant
            obj@ == old(obj)@,
            i <= obj@.len(),
            pair == (k, x),
            forall|j: int| 0 <= j < i ==> (#[trigger] obj@[j]).0@ != k@,
        decreases obj@.len() - i,
    {
        if crate::text::str_eq(obj[i].0.as_str(), k.as_str()) {
            let ghost at = i as int;
            obj.set(i, (k, x));
            assert(member_set_at(old(obj)@, obj@, pair.0, pair.1, at));
            return;
        }
        i = i + 1;
    }
    obj.push((k, x));
    assert(member_set_at(old(obj)@, obj@, pair.0, pair.1, i as int));
}

/// A named kernel policy: the actions it blocks.
#[derive(Clone, Debug)]
pub struct KernelPolicy {
    pub blocked_actions: Vec<String>,
}

/// The context an action runs in.
#[derive(Clone, Debug)]
pub struct ExecutionContext {
    pub agent_id: String,
    pub policies: Vec<String>,
    pub history: Vec<Vec<(String, String)>>,
    pub state_ref: Option<String>,
    pub metadata: Vec<(String, String)>,
}

/// The result of executing an action.
#[derive(Debug)]
pub struct ExecutionResult {
    pub success: bool,
    pub data: Option<String>,
    pub error: Option<String>,
    pub signal: Option<String>,
    pub updated_context: Option<ExecutionContext>,
    pub metadata: Vec<(String, String)>,
}

/// What running an action produced: its data and, when the action
/// changes the agent's state, the members to set in it.
pub struct ActionOutput {
    pub data: Option<String>,
    pub state_update: Option<Vec<(String, String)>>,
}

/// The view of the state a backend holds under a key.
pub type StateView = Seq<(Seq<char>, Seq<char>)>;

/// The view of a backend's answer to a state lookup.
pub open spec fn state_lookup_view(r: Result<Option<Vec<(String, String)>>, String>) -> Result<
    Option<StateView>,
    Seq<char>,
> {
    match r {
        Ok(Some(v)) => Ok(Some(members_view(v@))),
        Ok(None) => Ok(None),
        Err(e) => Err(e@),
    }
}

/// Where agents' state is kept between executions. Implementations may
/// fail or consult remote services; each says through `get_answer` which
/// answers it may give for a key, and what it may become in answering.
pub trait StateBackend: Sized {
    /// Whether `a` is an answer the backend may give when asked for the
    /// state under `key`, leaving itself as `after`.
    spec fn get_answer(&self, key: Seq<char>, a: Result<Option<StateView>, Seq<char>>, after: Self) -> bool;

    /// The state stored under `key`, if any.
    fn get(&mut self, key: &str) -> (r: Result<Option<Vec<(String, String)>>, String>)
        ensures
            old(self).get_answer(key@, state_lookup_view(r), *final(self)),
    ;

    /// Stores `value` under `key`, to expire after `ttl` seconds if given.
    fn set(&mut self, key: &str, value: Vec<(String, String)>, ttl: Option<u64>) -> Result<(), String>;

    /// Forgets the state under `key`.
    fn delete(&mut self, key: &str) -> Result<(), String>;
}

/// The view of a backend entry: its members and, for an entry stored
/// with a TTL, the instant it expires, in nanoseconds on the backend's
/// clock.
pub type EntryView = (StateView, Option<u128>);

/// What a lookup of `key` at instant `now` gives from `m`: the entry's
/// state when it is present and not expired (it has no expiry, or `now`
/// is before it), nothing otherwise.
pub open spec fn state_at(m: Map<Seq<char>, EntryView>, key: Seq<char>, now: u128) -> Option<StateView> {
    if m.contains_key(key) && (m[key].1 matches Some(e) ==> now < e) {
        Some(m[key].0)
    } else {
        None
    }
}

/// What the entries are after a lookup of `key` at instant `now`: an
/// expired entry is removed, everything else stays.
pub open spec fn entries_after_lookup(m: Map<Seq<char>, EntryView>, key: Seq<char>, now: u128) -> Map<
    Seq<char>,
    EntryView,
> {
    if m.contains_key(key) && (m[key].1 matches Some(e) && e <= now) {
        m.remove(key)
    } else {
        m
    }
}

/// `after` is what `before` becomes when `value` is stored under `key`
/// at instant `now`, to expire `ttl` seconds later if a TTL is given;
/// `failed` says whether the store was refused, which it is exactly when
/// the expiry is beyond what the clock can count, and then nothing
/// changes.
pub open spec fn set_outcome(
    before: Map<Seq<char>, EntryView>,
    after: Map<Seq<char>, EntryView>,
    key: Seq<char>,
    value: StateView,
    ttl: Option<u64>,
    now: u128,
    failed: bool,
) -> bool {
    &&& failed <==> (ttl matches Some(t) && now + t * 1_000_000_000 > u128::MAX)
    &&& !failed ==> after == before.insert(
        key,
        (
            value,
            match ttl {
                Some(t) => Some((now + t * 1_000_000_000) as u128),
                None => None,
            },
        ),
    )
    &&& failed ==> after == before
}

/// State held in memory, each entry with an optional expiry. Instants are
/// nanoseconds on the monotonic clock since the backend was made.
pub struct MemoryBackend {
    origin: Instant,
    store: StrMap<(Vec<(String, String)>, Option<u128>)>,
}

impl View for MemoryBackend {
    type V = Map<Seq<char>, EntryView>;

    closed spec fn view(&self) -> Map<Seq<char>, EntryView> {
        self.store@.map_values(|e: (Vec<(String, String)>, Option<u128>)| (members_view(e.0@), e.1))
    }
}

impl MemoryBackend {
    /// An empty backend, whose clock starts now.
    pub fn new() -> (r: MemoryBackend)
        ensures
            r@ == Map::<Seq<char>, EntryView>::empty(),
    {
        let r = MemoryBackend { origin: monotonic_now(), store: StrMap::new() };
        assert(r@ =~= Map::<Seq<char>, EntryView>::empty());
        r
    }

    /// The current instant on the backend's clock.
    fn now(&self) -> u128 {
        nanos_since(&self.origin)
    }

    /// Looks `key` up at instant `now`: an entry without expiry, or whose
    /// expiry is after `now`, is returned as stored; an expired entry is
    /// removed and reported absent.
    pub fn get_at(&mut self, key: &str, now: u128) -> (r: Option<Vec<(String, String)>>)
        ensures
            opt_state_view(r) == state_at(old(self)@, key@, now),
            final(self)@ == entries_after_lookup(old(self)@, key@, now),
    {
        let expired = match self.store.get(key) {
            None => {
                return None;
            },
            Some(entry) => match &entry.1 {
                Some(expiry) => *expiry <= now,
                None => false,
            },
        };
        if expired {
            let _ = self.store.remove(key);
            proof {
                assert(self@ =~= old(self)@.remove(key@));
            }
            return None;
        }
        match self.store.get(key) {
            Some(entry) => Some(copy_members(&entry.0)),
            None => None,
        }
    }

    /// Stores `value` under `key` at instant `now`, to expire `ttl`
    /// seconds later if a TTL is given. An expiry beyond what the clock
    /// can count is refused and changes nothing.
    pub fn set_at(&mut self, key: &str, value: Vec<(String, String)>, ttl: Option<u64>, now: u128) -> (r:
        Result<(), String>)
        ensures
            set_outcome(old(self)@, final(self)@, key@, members_view(value@), ttl, now, r is Err),
    {
        let expiry = match ttl {
            Some(t) => {
                let span: u128 = t as u128 * 1_000_000_000u128;
                match now.checked_add(span) {
                    Some(at) => Some(at),
                    None => return Err(owned("TTL out of range")),
                }
            },
            None => None,
        };
        let ghost vv = members_view(value@);
        self.store.insert(owned(key), (value, expiry));
        proof {
            assert(self@ =~= old(self)@.insert(key@, (vv, expiry)));
        }
        Ok(())
    }
}

/// The view of an optional state.
pub open spec fn opt_state_view(o: Option<Vec<(String, String)>>) -> Option<StateView> {
    match o {
        Some(v) => Some(members_view(v@)),
        None => None,
    }
}

impl StateBackend for MemoryBackend {
    /// The lookup happens at an instant of the backend's clock, which
    /// decides whether an entry with an expiry has expired; it never
    /// fails.
    open spec fn get_answer(
        &self,
        key: Seq<char>,
        a: Result<Option<StateView>, Seq<char>>,
        after: Self,
    ) -> bool {
        exists|now: u128|
            a == Ok::<Option<StateView>, Seq<char>>(state_at(self@, key, now)) && after@
                == entries_after_lookup(self@, key, now)
    }

    /// Looks `key` up now (see `get_at`).
    fn get(&mut self, key: &str) -> (r: Result<Option<Vec<(String, String)>>, String>) {
        let now = self.now();
        let o = self.get_at(key, now);
        assert(state_lookup_view(Ok(o)) == Ok::<Option<StateView>, Seq<char>>(
            state_at(old(self)@, key@, now),
        ));
        Ok(o)
    }

    /// Stores the state now (see `set_at`).
    fn set(&mut self, key: &str, value: Vec<(String, String)>, ttl: Option<u64>) -> (r: Result<
        (),
        String,
    >)
        ensures
            exists|now: u128|
                #[trigger] set_outcome(
                    old(self)@,
                    final(self)@,
                    key@,
                    members_view(value@),
                    ttl,
                    now,
                    r is Err,
                ),
    {
        let now = self.now();
        self.set_at(key, value, ttl, now)
    }

    fn delete(&mut self, key: &str) -> (r: Result<(), String>)
        ensures
            r is Ok,
            final(self)@ == old(self)@.remove(key@),
    {
        let _ = self.store.remove(key);
        assert(self@ =~= old(self)@.remove(key@));
        Ok(())
    }
}

/// The JSON text of the data that an executed action returns.
pub open spec fn executed_data() -> Seq<char> {
    "{\"status\":\"executed\"}"@
}

/// The message of an action blocked by a policy.
pub open spec fn blocked_message(action: Seq<char>, policy: Seq<char>) -> Seq<char> {
    "Action '"@ + action + "' blocked by policy '"@ + policy + "'"@
}

/// The view of a kernel policy: the actions it blocks.
pub open spec fn kernel_policy_view(p: KernelPolicy) -> Seq<Seq<char>> {
    strings_view(p.blocked_actions@)
}

/// The first policy among `names[i..]` that exists and blocks `action`.
pub open spec fn first_blocking_from(
    policies: Map<Seq<char>, Seq<Seq<char>>>,
    names: Seq<Seq<char>>,
    action: Seq<char>,
    i: int,
) -> Option<Seq<char>>
    decreases names.len() - i,
{
    if 0 <= i < names.len() {
        if policies.contains_key(names[i]) && policies[names[i]].contains(action) {
            Some(names[i])
        } else {
            first_blocking_from(policies, names, action, i + 1)
        }
    } else {
        None
    }
}

/// Position `j` holds the last policy named `k`.
pub open spec fn last_named(ps: Seq<(String, KernelPolicy)>, k: Seq<char>, j: int) -> bool {
    &&& 0 <= j < ps.len()
    &&& ps[j].0@ == k
    &&& forall|j2: int| j < j2 < ps.len() ==> (#[trigger] ps[j2]).0@ != k
}

/// The policies by name are those of `ps`, each name with its last
/// policy.
pub open spec fn named_policies(
    m: Map<Seq<char>, Seq<Seq<char>>>,
    ps: Seq<(String, KernelPolicy)>,
) -> bool {
    &&& forall|k: Seq<char>|
        #[trigger] m.contains_key(k) <==> exists|j: int| 0 <= j < ps.len() && (#[trigger] ps[j]).0@
            == k
    &&& forall|k: Seq<char>|
        #[trigger] m.contains_key(k) ==> exists|j: int|
            #[trigger] last_named(ps, k, j) && m[k] == kernel_policy_view(ps[j].1)
}

/// Runs actions for agents: checks the context's policies, runs the
/// action and keeps the agent's state in a backend.
pub struct StatelessKernel<B: StateBackend> {
    backend: B,
    policies: StrMap<KernelPolicy>,
}

impl StatelessKernel<MemoryBackend> {
    /// A kernel over the given backend, or a new in-memory one, with the
    /// given named policies (a later policy of the same name replaces an
    /// earlier one).
    pub fn new(backend: Option<MemoryBackend>, policies: Option<Vec<(String, KernelPolicy)>>) -> (r:
        StatelessKernel<MemoryBackend>)
        ensures
            backend matches Some(b) ==> r.backend()@ == b@,
            backend is None ==> r.backend()@ == Map::<
                Seq<char>,
                EntryView,
            >::empty(),
            policies is None ==> r.policies_view() == Map::<Seq<char>, Seq<Seq<char>>>::empty(),
            policies matches Some(ps) ==> named_policies(r.policies_view(), ps@),
    {
        let b = match backend {
            Some(b) => b,
            None => MemoryBackend::new(),
        };
        StatelessKernel::with_backend(b, policies)
    }
}

impl<B: StateBackend> StatelessKernel<B> {
    /// The backend.
    pub closed spec fn backend(&self) -> B {
        self.backend
    }

    /// The named policies: for each name, the actions it blocks.
    pub closed spec fn policies_view(&self) -> Map<Seq<char>, Seq<Seq<char>>> {
        self.policies@.map_values(|p: KernelPolicy| kernel_policy_view(p))
    }

    /// A kernel over `backend` with the given named policies (a later
    /// policy of the same name replaces an earlier one).
    pub fn with_backend(backend: B, policies: Option<Vec<(String, KernelPolicy)>>) -> (r:
        StatelessKernel<B>)
        ensures
            r.backend() == backend,
            policies is None ==> r.policies_view() == Map::<Seq<char>, Seq<Seq<char>>>::empty(),
            policies matches Some(ps) ==> named_policies(r.policies_view(), ps@),
    {
        let mut map: StrMap<KernelPolicy> = StrMap::new();
        match policies {
            None => {},
            Some(ps) => {
                let ghost all = ps@;
                let mut rest = ps;
                // Taken from the end: a name is kept the first time it is
                // seen from the end, that is at its last position.
                while rest.len() > 0
                    invariant
                        rest@ == all.take(rest@.len() as int),
                        rest@.len() <= all.len(),
                        forall|k: Seq<char>|
                            #[trigger] map@.contains_key(k) <==> exists|j: int|
                                rest@.len() <= j < all.len() && (#[trigger] all[j]).0@ == k,
                        forall|k: Seq<char>|
                            #[trigger] map@.contains_key(k) ==> exists|j: int|
                                rest@.len() <= j < all.len() && #[trigger] last_named(all, k, j)
                                    && map@[k] == all[j].1,
                    decreases rest@.len(),
                {
                    let ghost old_map = map@;
                    let ghost at = rest@.len() - 1;
                    let (name, policy) = rest.pop().unwrap();
                    assert(all[at] == (name, policy));
                    let ghost kname = name@;
                    if !map.contains_key(name.as_str()) {
                        map.insert(name, policy);
                        proof {
                            assert(last_named(all, kname, at)) by {
                                assert forall|j2: int| at < j2 < all.len() implies (
                                #[trigger] all[j2]).0@ != kname by {
                                    if all[j2].0@ == kname {
                                        assert(old_map.contains_key(kname));
                                    }
                                }
                            }
                        }
                    }
                    assert(rest@ =~= all.take(rest@.len() as int));
                    proof {
                        assert forall|k: Seq<char>| #[trigger] map@.contains_key(k) <==> exists|j: int|
                            rest@.len() <= j < all.len() && (#[trigger] all[j]).0@ == k by {
                            if k != kname && map@.contains_key(k) {
                                assert(old_map.contains_key(k));
                            }
                            if (exists|j: int| rest@.len() <= j < all.len() && (#[trigger] all[j]).0@
                                == k) && k != kname {
                                let j = choose|j: int|
                                    rest@.len() <= j < all.len() && (#[trigger] all[j]).0@ == k;
                                assert(j != at);
                                assert(old_map.contains_key(k));
                            }
                        }
                        assert forall|k: Seq<char>| #[trigger] map@.contains_key(k) implies exists|
                            j: int,
                        |
                            rest@.len() <= j < all.len() && #[trigger] last_named(all, k, j)
                                && map@[k] == all[j].1 by {
                            if k != kname {
                                assert(old_map.contains_key(k));
                            } else if old_map.contains_key(k) {
                            } else {
                                assert(last_named(all, k, at));
                            }
                        }
                    }
                }
            },
        }
        let r = StatelessKernel { backend, policies: map };
        proof {
            if policies is None {
                assert(r.policies_view() =~= Map::<Seq<char>, Seq<Seq<char>>>::empty());
            }
        }
        r
    }

    /// Checks an action against the context's policies, in order: the
    /// first named policy that exists and blocks the action refuses it.
    pub fn check_policies(&self, action: &str, policy_names: &Vec<String>) -> (r: Result<
        (),
        String,
    >)
        ensures
            match first_blocking_from(
                self.policies_view(),
                strings_view(policy_names@),
                action@,
                0,
            ) {
                Some(p) => r matches Err(e) && e@ == blocked_message(action@, p),
                None => r is Ok,
            },
    {
        let ghost names = strings_view(policy_names@);
        let mut i: usize = 0;
        while i < policy_names.len()
            invariant
                i <= policy_names@.len(),
                names == strings_view(policy_names@),
                first_blocking_from(self.policies_view(), names, action@, 0) == first_blocking_from(
                    self.policies_view(),
                    names,
                    action@,
                    i as int,
                ),
            decreases policy_names@.len() - i,
        {
            let name = &policy_names[i];
            assert(names[i as int] == name@);
            match self.policies.get(name.as_str()) {
                Some(policy) => {
                    assert(self.policies_view()[name@] == kernel_policy_view(*policy));
                    if strings_contain(&policy.blocked_actions, action) {
                        let mut msg = concat2("Action '", action);
                        msg.append("' blocked by policy '");
                        msg.append(name.as_str());
                        msg.append("'");
                        return Err(msg);
                    }
                },
                None => {},
            }
            i = i + 1;
        }
        Ok(())
    }

    /// Runs an action. Actions are not carried out yet: every action
    /// returns the data `{"status":"executed"}` and changes no state.
    pub fn execute_action(
        &self,
        action: &str,
        params: &Vec<(String, String)>,
        state: &Vec<(String, String)>,
    ) -> (r: ActionOutput)
        ensures
            r.data matches Some(d) && d@ == executed_data(),
            r.state_update is None,
    {
        ActionOutput { data: Some(owned("{\"status\":\"executed\"}")), state_update: None }
    }

    /// Executes an action in a context once the agent's state has been
    /// asked of the backend, given its answer: an error of the backend is
    /// returned as it is; otherwise the context's policies are checked (a
    /// blocked action is killed with `SIGKILL`), the action runs, any
    /// state it changed is stored, and its data is returned with the
    /// updated context.
    pub fn run_loaded(
        &mut self,
        action: String,
        params: Vec<(String, String)>,
        context: ExecutionContext,
        loaded: Result<Option<Vec<(String, String)>>, String>,
    ) -> (r: Result<ExecutionResult, String>)
        ensures
            executed_as(r, old(self).policies_view(), action@, context, state_lookup_view(loaded)),
            final(self).policies_view() == old(self).policies_view(),
            final(self).backend() == old(self).backend(),
    {
        let mut external_state: Vec<(String, String)> = Vec::new();
        match loaded {
            Ok(Some(state)) => {
                external_state = state;
            },
            Ok(None) => {},
            Err(e) => {
                return Err(e);
            },
        }
        match self.check_policies(action.as_str(), &context.policies) {
            Err(e) => {
                return Ok(
                    ExecutionResult {
                        success: false,
                        data: None,
                        error: Some(e),
                        signal: Some(owned("SIGKILL")),
                        updated_context: None,
                        metadata: Vec::new(),
                    },
                );
            },
            Ok(()) => {},
        }
        let result = self.execute_action(action.as_str(), &params, &external_state);
        let mut new_state_ref = match &context.state_ref {
            Some(sr) => Some(sr.clone()),
            None => None,
        };
        match result.state_update {
            Some(update) => {
                let mut j: usize = 0;
                while j < update.len()
                    invariant
                        j <= update@.len(),
                    decreases update@.len() - j,
                {
                    let (k, x) = &update[j];
                    set_member(&mut external_state, k.clone(), x.clone());
                    j = j + 1;
                }
                if new_state_ref.is_none() {
                    new_state_ref = Some(concat2("state:", context.agent_id.as_str()));
                }
                let key = match &new_state_ref {
                    Some(k) => k.clone(),
                    None => String::new(),
                };
                match self.backend.set(key.as_str(), external_state, None) {
                    Ok(()) => {},
                    Err(e) => {
                        return Err(e);
                    },
                }
            },
            None => {},
        }
        let data = match result.data {
            Some(d) => d,
            None => owned("null"),
        };
        Ok(
            ExecutionResult {
                success: true,
                data: Some(data),
                error: None,
                signal: None,
                updated_context: Some(
                    ExecutionContext {
                        agent_id: context.agent_id.clone(),
                        policies: copy_strings(&context.policies),
                        history: context.history,
                        state_ref: new_state_ref,
                        metadata: copy_members(&context.metadata),
                    },
                ),
                metadata: Vec::new(),
            },
        )
    }

    /// Executes an action in a context: asks the backend for the state
    /// under the context's state reference, if it has one, and goes on as
    /// `run_loaded` does with the answer. The backend is code of the
    /// user's choosing, so the result is the one `executed_as` gives for
    /// an answer the backend may give for that reference; with no
    /// reference the backend is not consulted and the call succeeds.
    pub fn execute(
        &mut self,
        action: String,
        params: Vec<(String, String)>,
        context: ExecutionContext,
    ) -> (r: Result<ExecutionResult, String>)
        ensures
            context.state_ref is None ==> final(self).backend() == old(self).backend()
                && executed_as(
                r,
                old(self).policies_view(),
                action@,
                context,
                Ok::<Option<StateView>, Seq<char>>(None),
            ),
            context.state_ref matches Some(key) ==> exists|a: Result<Option<StateView>, Seq<char>>|
                old(self).backend().get_answer(key@, a, final(self).backend()) && executed_as(
                    r,
                    old(self).policies_view(),
                    action@,
                    context,
                    a,
                ),
            final(self).policies_view() == old(self).policies_view(),
    {
        let loaded = match &context.state_ref {
            Some(state_ref) => self.backend.get(state_ref.as_str()),
            None => Ok(None),
        };
        let ghost a = state_lookup_view(loaded);
        let ghost fetched = self.backend;
        let r = self.run_loaded(action, params, context, loaded);
        assert(self.backend() == fetched);
        proof {
            if context.state_ref is Some {
                assert(executed_as(r, old(self).policies_view(), action@, context, a));
            }
        }
        r
    }
}

/// `r` is what executing `action` in `context` gives, under the named
/// `policies`, once the backend answered `loaded` for the agent's state:
/// the backend's error as it is; else, when a policy named in the context
/// blocks the action, a refusal that names the first such policy and
/// kills the agent; else the data `{"status":"executed"}` with the
/// context handed back unchanged.
pub open spec fn executed_as(
    r: Result<ExecutionResult, String>,
    policies: Map<Seq<char>, Seq<Seq<char>>>,
    action: Seq<char>,
    context: ExecutionContext,
    loaded: Result<Option<StateView>, Seq<char>>,
) -> bool {
    match loaded {
        Err(e) => r matches Err(x) && x@ == e,
        Ok(_) => r matches Ok(res) && match first_blocking_from(
            policies,
            strings_view(context.policies@),
            action,
            0,
        ) {
            Some(p) => {
                &&& !res.success
                &&& res.data is None
                &&& res.error matches Some(e) && e@ == blocked_message(action, p)
                &&& res.signal matches Some(s) && s@ == "SIGKILL"@
                &&& res.updated_context is None
                &&& res.metadata@.len() == 0
            },
            None => {
                &&& res.success
                &&& res.data matches Some(d) && d@ == executed_data()
                &&& res.error is None
                &&& res.signal is None
                &&& res.metadata@.len() == 0
                &&& res.updated_context matches Some(c) && c.agent_id@ == context.agent_id@
                    && c.policies@ == context.policies@ && c.history@ == context.history@
                    && c.metadata@ == context.metadata@ && c.state_ref == context.state_ref
            },
        },
    }
}

/// Whether policy name `n` names an existing policy that lists `action`.
pub open spec fn blocks(policies: Map<Seq<char>, Seq<Seq<char>>>, n: Seq<char>, action: Seq<char>) -> bool {
    policies.contains_key(n) && policies[n].contains(action)
}

/// An action is refused exactly when some policy named in the context
/// exists and lists it, and the refusal names the first such policy.
pub proof fn lemma_blocked_iff_listed(
    policies: Map<Seq<char>, Seq<Seq<char>>>,
    names: Seq<Seq<char>>,
    action: Seq<char>,
    i: int,
)
    requires
        0 <= i <= names.len(),
    ensures
        (first_blocking_from(policies, names, action, i) is Some) <==> exists|j: int|
            i <= j < names.len() && #[trigger] blocks(policies, names[j], action),
        first_blocking_from(policies, names, action, i) matches Some(p) ==> exists|j: int|
            i <= j < names.len() && names[j] == p && #[trigger] blocks(policies, names[j], action)
                && forall|j2: int| i <= j2 < j ==> !#[trigger] blocks(policies, names[j2], action),
    decreases names.len() - i,
{
    if i < names.len() {
        lemma_blocked_iff_listed(policies, names, action, i + 1);
        if blocks(policies, names[i], action) {
            assert(blocks(policies, names[i], action));
        } else {
            if exists|j: int| i <= j < names.len() && #[trigger] blocks(policies, names[j], action) {
                let j = choose|j: int| i <= j < names.len() && #[trigger] blocks(policies, names[j], action);
                assert(j != i);
                assert(i + 1 <= j);
            }
        }
    }
}

} // verus!
