//! MCP tool governance: registered tools, argument-aware data
//! classification, and the per-agent decision on a tool call.
use vstd::prelude::*;
use crate::audit::DataCategory;
use crate::identity::strings_view;
use crate::policy_store::{
    policy_lookup_view, McpPolicy, McpPolicyView, MemoryPolicyStore, PolicyStore,
};
use crate::ring::{Enforcer, PrivilegeRing};
use crate::strmap::{lookup, StrMap};
use crate::text::{unit_result_view, concat2, contains_str, occurs_in, owned, str_eq};

verus! {

/// A rule that moves a tool call into another data category when a
/// string argument contains a pattern.
#[derive(Debug)]
pub struct ClassificationRule {
    pub param_name: String,
    pub pattern: String,
    pub override_category: DataCategory,
}

pub ghost struct ClassificationRuleView {
    pub param_name: Seq<char>,
    pub pattern: Seq<char>,
    pub override_category: DataCategory,
}

impl View for ClassificationRule {
    type V = ClassificationRuleView;

    open spec fn view(&self) -> ClassificationRuleView {
        ClassificationRuleView {
            param_name: self.param_name@,
            pattern: self.pattern@,
            override_category: self.override_category,
        }
    }
}

/// A tool that agents may call through the mesh.
#[derive(Debug)]
pub struct McpTool {
    pub name: String,
    pub description: String,
    pub required_ring: PrivilegeRing,
    pub default_category: DataCategory,
    pub classification_rules: Vec<ClassificationRule>,
}

pub ghost struct McpToolView {
    pub name: Seq<char>,
    pub description: Seq<char>,
    pub required_ring: PrivilegeRing,
    pub default_category: DataCategory,
    pub classification_rules: Seq<ClassificationRuleView>,
}

/// The views of a sequence of rules.
pub open spec fn rules_view(rules: Seq<ClassificationRule>) -> Seq<ClassificationRuleView> {
    rules.map_values(|r: ClassificationRule| r@)
}

impl View for McpTool {
    type V = McpToolView;

    open spec fn view(&self) -> McpToolView {
        McpToolView {
            name: self.name@,
            description: self.description@,
            required_ring: self.required_ring,
            default_category: self.default_category,
            classification_rules: rules_view(self.classification_rules@),
        }
    }
}

/// The string-valued top-level arguments of a tool call, by name.
/// Arguments that are not strings are not held: no rule can match them.
pub struct ToolArgs {
    params: StrMap<String>,
}

impl View for ToolArgs {
    type V = Map<Seq<char>, Seq<char>>;

    closed spec fn view(&self) -> Map<Seq<char>, Seq<char>> {
        self.params@.map_values(|s: String| s@)
    }
}

impl ToolArgs {
    /// No arguments.
    pub fn new() -> (r: ToolArgs)
        ensures
            r@ == Map::<Seq<char>, Seq<char>>::empty(),
    {
        let r = ToolArgs { params: StrMap::new() };
        assert(r@ =~= Map::<Seq<char>, Seq<char>>::empty());
        r
    }

    /// Sets a string argument, replacing an earlier one of the same name.
    pub fn set(&mut self, name: String, value: String)
        ensures
            final(self)@ == old(self)@.insert(name@, value@),
    {
        let ghost k = name@;
        let ghost v = value@;
        self.params.insert(name, value);
        assert(self@ =~= old(self)@.insert(k, v));
    }

    /// The string argument of that name, if there is one.
    pub fn get(&self, name: &str) -> (r: Option<&String>)
        ensures
            r is Some <==> self@.contains_key(name@),
            r matches Some(v) ==> v@ == self@[name@],
    {
        self.params.get(name)
    }
}

/// A rule applies when its argument is present and contains its pattern.
pub open spec fn rule_applies(rule: ClassificationRuleView, args: Map<Seq<char>, Seq<char>>) -> bool {
    args.contains_key(rule.param_name) && occurs_in(rule.pattern, args[rule.param_name])
}

/// The category given by the first rule from position `i` on that
/// applies, or `default` when none does.
pub open spec fn classify_from(
    rules: Seq<ClassificationRuleView>,
    args: Map<Seq<char>, Seq<char>>,
    default: DataCategory,
    i: int,
) -> DataCategory
    decreases rules.len() - i,
{
    if 0 <= i < rules.len() {
        if rule_applies(rules[i], args) {
            rules[i].override_category
        } else {
            classify_from(rules, args, default, i + 1)
        }
    } else {
        default
    }
}

/// The data category of a call: `Unknown` for an unregistered tool,
/// otherwise the first applying rule's category or the tool's default.
pub open spec fn tool_category(
    tools: Map<Seq<char>, McpToolView>,
    name: Seq<char>,
    args: Map<Seq<char>, Seq<char>>,
) -> DataCategory {
    if tools.contains_key(name) {
        classify_from(tools[name].classification_rules, args, tools[name].default_category, 0)
    } else {
        DataCategory::Unknown
    }
}

/// Outcome of a policy check on a tool call.
#[derive(Debug, PartialEq, Eq)]
pub enum EnforcementDecision {
    Allow,
    Deny { reason: String },
    EscalateRequired { requested_ring: PrivilegeRing },
}

pub ghost enum DecisionView {
    Allow,
    Deny(Seq<char>),
    EscalateRequired(PrivilegeRing),
}

impl View for EnforcementDecision {
    type V = DecisionView;

    open spec fn view(&self) -> DecisionView {
        match self {
            EnforcementDecision::Allow => DecisionView::Allow,
            EnforcementDecision::Deny { reason } => DecisionView::Deny(reason@),
            EnforcementDecision::EscalateRequired { requested_ring } => DecisionView::EscalateRequired(
                *requested_ring,
            ),
        }
    }
}

pub open spec fn unregistered_tool_reason() -> Seq<char> {
    "Tool not registered in AGT mesh (fail-closed)"@
}

pub open spec fn denied_tool_reason() -> Seq<char> {
    "Tool explicitly denied by policy"@
}

pub open spec fn not_allowlisted_reason() -> Seq<char> {
    "Tool not in agent allowlist"@
}

pub open spec fn no_policy_reason() -> Seq<char> {
    "No policy registered for agent"@
}

pub open spec fn store_error_reason(e: Seq<char>) -> Seq<char> {
    "Policy store error: "@ + e
}

/// What a registered policy says of a tool the agent's ring may use.
pub open spec fn policy_verdict(p: McpPolicyView, name: Seq<char>) -> DecisionView {
    if p.denylist.contains(name) {
        DecisionView::Deny(denied_tool_reason())
    } else if p.allowed_tools.len() > 0 && !p.allowed_tools.contains(name) {
        DecisionView::Deny(not_allowlisted_reason())
    } else {
        DecisionView::Allow
    }
}

/// The decision on a call of tool `name` by an agent in `ring`, given
/// the tools and what the policy store answered for the agent.
/// An unregistered tool is refused unless the agent's policy admits
/// unknown tools; a tool that needs a more privileged ring asks for
/// escalation; otherwise the agent's policy decides, and its absence or
/// a store error refuses.
pub open spec fn decision_spec(
    tools: Map<Seq<char>, McpToolView>,
    ring: PrivilegeRing,
    name: Seq<char>,
    loaded: Result<Option<McpPolicyView>, Seq<char>>,
) -> DecisionView {
    if !tools.contains_key(name) {
        match loaded {
            Ok(Some(p)) => if p.allow_unknown_tools {
                DecisionView::Allow
            } else {
                DecisionView::Deny(unregistered_tool_reason())
            },
            _ => DecisionView::Deny(unregistered_tool_reason()),
        }
    } else if tools[name].required_ring.level() < ring.level() {
        DecisionView::EscalateRequired(tools[name].required_ring)
    } else {
        match loaded {
            Ok(Some(p)) => policy_verdict(p, name),
            Ok(None) => DecisionView::Deny(no_policy_reason()),
            Err(e) => DecisionView::Deny(store_error_reason(e)),
        }
    }
}

/// Whether `l` is an answer the store may give when asked for the policy
/// of `did`: one the store allows for, and, where it succeeds, the policy
/// stored under `did`.
pub open spec fn store_answer<S: PolicyStore>(
    store: S,
    did: Seq<char>,
    l: Result<Option<McpPolicyView>, Seq<char>>,
) -> bool {
    &&& store.policy_answer(did, l)
    &&& l is Ok ==> l == Ok::<Option<McpPolicyView>, Seq<char>>(lookup(store.stored(), did))
}

/// Whether a call of `name` by an agent in `ring` asks for escalation
/// without any policy being read: the tool is registered and needs a more
/// privileged ring.
pub open spec fn needs_escalation(
    tools: Map<Seq<char>, McpToolView>,
    ring: PrivilegeRing,
    name: Seq<char>,
) -> bool {
    tools.contains_key(name) && tools[name].required_ring.level() < ring.level()
}

/// Whether `s` is one of the strings in `v`.
pub fn strings_contain(v: &Vec<String>, s: &str) -> (r: bool)
    ensures
        r == strings_view(v@).contains(s@),
{
    let mut i: usize = 0;
    while i < v.len()
        invariant
            i <= v@.len(),
            forall|j: int| 0 <= j < i ==> (#[trigger] v@[j])@ != s@,
        decreases v@.len() - i,
    {
        if str_eq(v[i].as_str(), s) {
            assert(strings_view(v@)[i as int] == s@);
            return true;
        }
        i = i + 1;
    }
    proof {
        if strings_view(v@).contains(s@) {
            let j = choose|j: int| 0 <= j < strings_view(v@).len() && strings_view(v@)[j] == s@;
            assert(v@[j]@ == s@);
        }
    }
    false
}

/// Enforces per-agent MCP tool policies held in a policy store.
pub struct PolicyEnforcer<S: PolicyStore> {
    tools: StrMap<McpTool>,
    store: S,
}

impl PolicyEnforcer<MemoryPolicyStore> {
    /// An enforcer with no tools over the given store, or over a new
    /// in-memory store when none is given.
    pub fn new(store: Option<MemoryPolicyStore>) -> (r: PolicyEnforcer<MemoryPolicyStore>)
        ensures
            r.tools_view() == Map::<Seq<char>, McpToolView>::empty(),
            r.store()@ == (match store {
                Some(s) => s@,
                None => Map::<Seq<char>, McpPolicyView>::empty(),
            }),
    {
        let s = match store {
            Some(s) => s,
            None => MemoryPolicyStore::new(),
        };
        PolicyEnforcer::with_store(s)
    }
}

impl<S: PolicyStore> PolicyEnforcer<S> {
    /// The registered tools by name.
    pub closed spec fn tools_view(&self) -> Map<Seq<char>, McpToolView> {
        self.tools@.map_values(|t: McpTool| t@)
    }

    /// The policy store.
    pub closed spec fn store(&self) -> S {
        self.store
    }

    /// An enforcer with no tools over `store`.
    pub fn with_store(store: S) -> (r: PolicyEnforcer<S>)
        ensures
            r.tools_view() == Map::<Seq<char>, McpToolView>::empty(),
            r.store() == store,
    {
        let r = PolicyEnforcer { tools: StrMap::new(), store };
        assert(r.tools_view() =~= Map::<Seq<char>, McpToolView>::empty());
        r
    }

    /// Registers a tool under its name, replacing one of the same name.
    pub fn register_tool(&mut self, tool: McpTool)
        ensures
            final(self).tools_view() == old(self).tools_view().insert(tool@.name, tool@),
            final(self).store() == old(self).store(),
    {
        let ghost tv = tool@;
        let name = tool.name.clone();
        self.tools.insert(name, tool);
        assert(self.tools_view() =~= old(self).tools_view().insert(tv.name, tv));
    }

    /// The tool registered under `name`.
    pub fn get_tool(&self, name: &str) -> (r: Option<&McpTool>)
        ensures
            r is Some <==> self.tools_view().contains_key(name@),
            r matches Some(t) ==> t@ == self.tools_view()[name@],
    {
        self.tools.get(name)
    }

    /// Stores an agent's policy in the policy store. Where the store
    /// reports success it holds `policy` under `agent_did`.
    pub fn set_policy(&mut self, agent_did: &str, policy: McpPolicy) -> (r: Result<(), String>)
        ensures
            final(self).tools_view() == old(self).tools_view(),
            old(self).store().save_answer(agent_did@, policy@, unit_result_view(r), final(self).store()),
            r is Ok ==> final(self).store().stored() == old(self).store().stored().insert(
                agent_did@,
                policy@,
            ),
    {
        self.store.save_policy(agent_did, policy)
    }

    /// The data category of a call of `tool_name` with `args`.
    pub fn classify(&self, tool_name: &str, args: &ToolArgs) -> (r: DataCategory)
        ensures
            r == tool_category(self.tools_view(), tool_name@, args@),
    {
        let tool = match self.tools.get(tool_name) {
            Some(t) => t,
            None => return DataCategory::Unknown,
        };
        assert(self.tools_view()[tool_name@] == tool@);
        let rules = &tool.classification_rules;
        let ghost rv = rules_view(rules@);
        let ghost d = tool.default_category;
        assert(tool_category(self.tools_view(), tool_name@, args@) == classify_from(rv, args@, d, 0));
        let mut i: usize = 0;
        while i < rules.len()
            invariant
                i <= rules@.len(),
                rv == rules_view(rules@),
                tool_category(self.tools_view(), tool_name@, args@) == classify_from(rv, args@, d, 0),
                classify_from(rv, args@, d, 0) == classify_from(rv, args@, d, i as int),
            decreases rules@.len() - i,
        {
            let rule = &rules[i];
            assert(rv[i as int] == rule@);
            match args.get(rule.param_name.as_str()) {
                Some(v) => {
                    if contains_str(v.as_str(), rule.pattern.as_str()) {
                        assert(rule_applies(rv[i as int], args@));
                        return rule.override_category;
                    }
                },
                None => {},
            }
            i = i + 1;
        }
        tool.default_category
    }

    /// The decision on a call, given what the policy store answered for
    /// the agent. The answer is read only where `decision_spec` reads it.
    pub fn decide(
        &self,
        agent_ring: PrivilegeRing,
        tool_name: &str,
        loaded: &Result<Option<McpPolicy>, String>,
    ) -> (r: EnforcementDecision)
        ensures
            r@ == decision_spec(
                self.tools_view(),
                agent_ring,
                tool_name@,
                policy_lookup_view(*loaded),
            ),
    {
        let tool = match self.tools.get(tool_name) {
            Some(t) => t,
            None => {
                if let Ok(Some(p)) = loaded {
                    if p.allow_unknown_tools {
                        return EnforcementDecision::Allow;
                    }
                }
                return EnforcementDecision::Deny {
                    reason: owned("Tool not registered in AGT mesh (fail-closed)"),
                };
            },
        };
        if !agent_ring.at_most(&tool.required_ring) {
            return EnforcementDecision::EscalateRequired { requested_ring: tool.required_ring };
        }
        match loaded {
            Ok(Some(policy)) => {
                if strings_contain(&policy.denylist, tool_name) {
                    return EnforcementDecision::Deny {
                        reason: owned("Tool explicitly denied by policy"),
                    };
                }
                if policy.allowed_tools.len() > 0 && !strings_contain(
                    &policy.allowed_tools,
                    tool_name,
                ) {
                    return EnforcementDecision::Deny {
                        reason: owned("Tool not in agent allowlist"),
                    };
                }
                EnforcementDecision::Allow
            },
            Ok(None) => EnforcementDecision::Deny { reason: owned("No policy registered for agent") },
            Err(e) => EnforcementDecision::Deny { reason: concat2("Policy store error: ", e.as_str()) },
        }
    }

    /// Decides whether the agent may call the tool. The policy store is
    /// asked for the agent's policy unless the tool is registered and
    /// needs a more privileged ring, in which case escalation is asked
    /// for without reading any policy. The store is code of the user's
    /// choosing, so the decision is the one `decision_spec` gives for
    /// an answer the store may give for `agent_did`.
    pub fn evaluate(
        &self,
        agent_did: &str,
        agent_ring: PrivilegeRing,
        tool_name: &str,
        args: &ToolArgs,
    ) -> (r: EnforcementDecision)
        ensures
            needs_escalation(self.tools_view(), agent_ring, tool_name@) ==> r@
                == DecisionView::EscalateRequired(self.tools_view()[tool_name@].required_ring),
            !needs_escalation(self.tools_view(), agent_ring, tool_name@) ==> exists|
                l: Result<Option<McpPolicyView>, Seq<char>>,
            |
                store_answer(self.store(), agent_did@, l) && r@ == decision_spec(
                    self.tools_view(),
                    agent_ring,
                    tool_name@,
                    l,
                ),
    {
        match self.tools.get(tool_name) {
            Some(tool) => {
                if !Enforcer::can_execute(agent_did, agent_ring, tool.required_ring, tool_name) {
                    assert(self.tools_view()[tool_name@] == tool@);
                    return EnforcementDecision::EscalateRequired {
                        requested_ring: tool.required_ring,
                    };
                }
            },
            None => {},
        }
        let loaded = self.store.load_policy(agent_did);
        let r = self.decide(agent_ring, tool_name, &loaded);
        assert(r@ == decision_spec(
            self.tools_view(),
            agent_ring,
            tool_name@,
            policy_lookup_view(loaded),
        ));
        r
    }

    /// Whether `evaluate` allows the call when it carries no arguments.
    pub fn can_call_tool(&self, agent_did: &str, agent_ring: PrivilegeRing, tool_name: &str) -> (r:
        bool)
        ensures
            needs_escalation(self.tools_view(), agent_ring, tool_name@) ==> !r,
            !needs_escalation(self.tools_view(), agent_ring, tool_name@) ==> exists|
                l: Result<Option<McpPolicyView>, Seq<char>>,
            |
                store_answer(self.store(), agent_did@, l) && r == (decision_spec(
                    self.tools_view(),
                    agent_ring,
                    tool_name@,
                    l,
                ) is Allow),
    {
        let args = ToolArgs::new();
        let d = self.evaluate(agent_did, agent_ring, tool_name, &args);
        match d {
            EnforcementDecision::Allow => true,
            _ => false,
        }
    }
}

/// An unregistered tool is allowed exactly when the agent's stored
/// policy admits unknown tools; otherwise it is refused, fail-closed.
pub proof fn lemma_unregistered_tool_fails_closed(
    tools: Map<Seq<char>, McpToolView>,
    ring: PrivilegeRing,
    name: Seq<char>,
    loaded: Result<Option<McpPolicyView>, Seq<char>>,
)
    requires
        !tools.contains_key(name),
    ensures
        (decision_spec(tools, ring, name, loaded) is Allow) <==> (loaded matches Ok(Some(p))
            && p.allow_unknown_tools),
        !(decision_spec(tools, ring, name, loaded) is Allow) ==> decision_spec(
            tools,
            ring,
            name,
            loaded,
        ) == DecisionView::Deny(unregistered_tool_reason()),
{
}

/// A registered tool that needs a more privileged ring than the agent's
/// asks for escalation to that ring, whatever the agent's policy says.
pub proof fn lemma_insufficient_ring_escalates(
    tools: Map<Seq<char>, McpToolView>,
    ring: PrivilegeRing,
    name: Seq<char>,
    loaded: Result<Option<McpPolicyView>, Seq<char>>,
)
    requires
        tools.contains_key(name),
        tools[name].required_ring.level() < ring.level(),
    ensures
        decision_spec(tools, ring, name, loaded) == DecisionView::EscalateRequired(
            tools[name].required_ring,
        ),
{
}

/// A call of a registered tool is allowed only when the agent's ring is
/// privileged enough and a stored policy neither denies the tool nor
/// leaves it out of a non-empty allowlist; in particular a denylisted
/// registered tool is never allowed.
pub proof fn lemma_allow_needs_permitting_policy(
    tools: Map<Seq<char>, McpToolView>,
    ring: PrivilegeRing,
    name: Seq<char>,
    loaded: Result<Option<McpPolicyView>, Seq<char>>,
)
    requires
        tools.contains_key(name),
        decision_spec(tools, ring, name, loaded) is Allow,
    ensures
        ring.level() <= tools[name].required_ring.level(),
        loaded matches Ok(Some(p)) && !p.denylist.contains(name) && (p.allowed_tools.len() == 0
            || p.allowed_tools.contains(name)),
{
}

/// A registered tool that the agent's ring may use is allowed when the
/// stored policy lists it and does not deny it.
pub proof fn lemma_listed_tool_allowed(
    tools: Map<Seq<char>, McpToolView>,
    ring: PrivilegeRing,
    name: Seq<char>,
    p: McpPolicyView,
)
    requires
        tools.contains_key(name),
        ring.level() <= tools[name].required_ring.level(),
        p.allowed_tools.contains(name),
        !p.denylist.contains(name),
    ensures
        decision_spec(tools, ring, name, Ok(Some(p))) == DecisionView::Allow,
{
}

/// A policy held under an agent's DID governs the agent's later calls:
/// when the store answers successfully, a registered tool that the
/// agent's ring may use, that the policy lists and does not deny, is
/// allowed.
pub proof fn lemma_stored_policy_governs<S: PolicyStore>(
    tools: Map<Seq<char>, McpToolView>,
    ring: PrivilegeRing,
    name: Seq<char>,
    store: S,
    did: Seq<char>,
    p: McpPolicyView,
    l: Result<Option<McpPolicyView>, Seq<char>>,
)
    requires
        store.stored().contains_key(did),
        store.stored()[did] == p,
        store_answer(store, did, l),
        l is Ok,
        tools.contains_key(name),
        ring.level() <= tools[name].required_ring.level(),
        p.allowed_tools.contains(name),
        !p.denylist.contains(name),
    ensures
        decision_spec(tools, ring, name, l) == DecisionView::Allow,
{
}

/// The in-memory store always answers with the policy it holds, so the
/// decision on a call is fixed by the tools and the stored policies: two
/// evaluations over the same enforcer agree.
pub proof fn lemma_memory_store_answer_unique(
    store: MemoryPolicyStore,
    did: Seq<char>,
    l: Result<Option<McpPolicyView>, Seq<char>>,
)
    requires
        store_answer(store, did, l),
    ensures
        l == Ok::<Option<McpPolicyView>, Seq<char>>(lookup(store@, did)),
{
}

/// A policy stored in the in-memory store through `set_policy` governs a
/// later evaluation for that DID: a registered tool that the agent's
/// ring may use, listed and not denied by the policy, is allowed.
pub proof fn lemma_memory_stored_policy_allows(
    tools: Map<Seq<char>, McpToolView>,
    ring: PrivilegeRing,
    name: Seq<char>,
    before: MemoryPolicyStore,
    after: MemoryPolicyStore,
    did: Seq<char>,
    p: McpPolicyView,
    l: Result<Option<McpPolicyView>, Seq<char>>,
)
    requires
        after.stored() == before.stored().insert(did, p),
        store_answer(after, did, l),
        tools.contains_key(name),
        ring.level() <= tools[name].required_ring.level(),
        p.allowed_tools.contains(name),
        !p.denylist.contains(name),
    ensures
        decision_spec(tools, ring, name, l) == DecisionView::Allow,
{
}

/// A rule applies exactly when its argument is present and its value
/// holds the pattern somewhere: the value is some text, the pattern, and
/// some more text.
pub proof fn lemma_rule_applies_on_substring(rule: ClassificationRuleView, args: Map<Seq<char>, Seq<char>>)
    ensures
        rule_applies(rule, args) <==> args.contains_key(rule.param_name) && exists|
            x: Seq<char>,
            y: Seq<char>,
        | args[rule.param_name] == x + rule.pattern + y,
{
    if args.contains_key(rule.param_name) {
        let v = args[rule.param_name];
        let p = rule.pattern;
        if occurs_in(p, v) {
            let i = choose|i: int| 0 <= i && i + p.len() <= v.len() && #[trigger] v.subrange(i, i + p.len()) == p;
            let x = v.take(i);
            let y = v.skip(i + p.len());
            assert(v =~= x + p + y);
        }
        if exists|x: Seq<char>, y: Seq<char>| v == x + p + y {
            let (x, y) = choose|x: Seq<char>, y: Seq<char>| v == x + p + y;
            assert(v.subrange(x.len() as int, (x.len() + p.len()) as int) =~= p);
        }
    }
}

/// A call of a registered tool is classified by the first of its rules
/// whose argument holds that rule's pattern anywhere in its value: when
/// rule `k` matches so and no rule before it does, the call gets rule
/// `k`'s category.
pub proof fn lemma_classify_by_first_substring_match(
    tools: Map<Seq<char>, McpToolView>,
    name: Seq<char>,
    args: Map<Seq<char>, Seq<char>>,
    k: int,
    x: Seq<char>,
    y: Seq<char>,
)
    requires
        tools.contains_key(name),
        0 <= k < tools[name].classification_rules.len(),
        args.contains_key(tools[name].classification_rules[k].param_name),
        args[tools[name].classification_rules[k].param_name] == x + tools[name].classification_rules[k].pattern + y,
        forall|j: int, x2: Seq<char>, y2: Seq<char>|
            #![trigger x2 + tools[name].classification_rules[j].pattern + y2]
            0 <= j < k && args.contains_key(tools[name].classification_rules[j].param_name) ==> args[
            tools[name].classification_rules[j].param_name] != x2 + tools[name].classification_rules[j].pattern + y2,
    ensures
        tool_category(tools, name, args) == tools[name].classification_rules[k].override_category,
{
    let rules = tools[name].classification_rules;
    lemma_rule_applies_on_substring(rules[k], args);
    assert forall|j: int| 0 <= j < k implies !rule_applies(#[trigger] rules[j], args) by {
        lemma_rule_applies_on_substring(rules[j], args);
        if rule_applies(rules[j], args) {
            let (x2, y2) = choose|x2: Seq<char>, y2: Seq<char>| args[rules[j].param_name] == x2 + rules[j].pattern + y2;
            assert(args[rules[j].param_name] != x2 + rules[j].pattern + y2);
        }
    }
    lemma_first_applying_rule_decides(rules, args, tools[name].default_category, k);
}

/// Classification takes the category of the first rule that applies.
pub proof fn lemma_first_applying_rule_decides(
    rules: Seq<ClassificationRuleView>,
    args: Map<Seq<char>, Seq<char>>,
    default: DataCategory,
    k: int,
)
    requires
        0 <= k < rules.len(),
        rule_applies(rules[k], args),
        forall|j: int| 0 <= j < k ==> !rule_applies(#[trigger] rules[j], args),
    ensures
        classify_from(rules, args, default, 0) == rules[k].override_category,
{
    lemma_classify_skips(rules, args, default, 0, k);
}

/// Classification keeps the default category when no rule applies.
pub proof fn lemma_no_applying_rule_keeps_default(
    rules: Seq<ClassificationRuleView>,
    args: Map<Seq<char>, Seq<char>>,
    default: DataCategory,
)
    requires
        forall|j: int| 0 <= j < rules.len() ==> !rule_applies(#[trigger] rules[j], args),
    ensures
        classify_from(rules, args, default, 0) == default,
{
    lemma_classify_skips(rules, args, default, 0, rules.len() as int);
}

proof fn lemma_classify_skips(
    rules: Seq<ClassificationRuleView>,
    args: Map<Seq<char>, Seq<char>>,
    default: DataCategory,
    i: int,
    k: int,
)
    requires
        0 <= i <= k <= rules.len(),
        forall|j: int| 0 <= j < k ==> !rule_applies(#[trigger] rules[j], args),
    ensures
        classify_from(rules, args, default, i) == classify_from(rules, args, default, k),
    decreases k - i,
{
    if i < k {
        assert(!rule_applies(rules[i], args));
        lemma_classify_skips(rules, args, default, i + 1, k);
    }
}

} // verus!
