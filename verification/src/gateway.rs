//! The MCP gateway's decisions on a proxied call: request headers, the
//! per-agent rate limit, the policy decision on a tool call and the
//! records it leaves in the action log.
use vstd::prelude::*;
use crate::audit::{ActionLogRecord, ActionLogRecordView, ActionOutcome, ActionOutcomeView, DataCategory};
use crate::clock::{utc_now, Timestamp};
use crate::codec::{base64_decode, is_b64_text, new_v4_id};
use crate::compliance::{
    all_compliant, verdicts, ActionRecord, ActionRecordView, ComplianceInput, ComplianceRule,
    ComplianceInputView, ComplianceVerifier,
};
use crate::escalation::{EscalationRequest, EscalationRequestView};
use crate::governance::{store_answer, decision_spec, DecisionView, EnforcementDecision, McpToolView, PolicyEnforcer, ToolArgs};
use crate::identity::b64_decoded;
use crate::policy_store::{policy_lookup_view, McpPolicy, McpPolicyView, PolicyStore};
use crate::registry::{ring_lookup_view, AgentRegistry};
use crate::ring::PrivilegeRing;
use crate::strmap::StrMap;
use crate::text::{concat2, owned, str_eq};

verus! {

/// An HTTP error answer: status code and message.
#[derive(Debug)]
pub struct GatewayError {
    pub status: u16,
    pub message: String,
}

/// The error answer with this status and message.
pub open spec fn is_error(e: GatewayError, status: u16, message: Seq<char>) -> bool {
    e.status == status && e.message@ == message
}

fn gateway_error(status: u16, message: &str) -> (r: GatewayError)
    ensures
        r.status == status,
        r.message@ == message@,
{
    GatewayError { status, message: owned(message) }
}

/// The signer's DID and signature of a request, from its
/// `X-AGT-Agent-DID` and `X-AGT-Signature` headers (`None` where a header
/// is absent or not text). The signature header holds base64 text.
pub fn authenticate_headers(did: Option<String>, signature_b64: Option<String>) -> (r: Result<
    (String, Vec<u8>),
    GatewayError,
>)
    ensures
        did is None ==> (r matches Err(e) && is_error(e, 401, "Missing X-AGT-Agent-DID"@)),
        did is Some && signature_b64 is None ==> (r matches Err(e) && is_error(
            e,
            401,
            "Missing X-AGT-Signature"@,
        )),
        did is Some && signature_b64 is Some ==> if is_b64_text(signature_b64->0@) {
            r matches Ok(p) && p.0@ == did->0@ && p.1@ == b64_decoded(signature_b64->0@)
        } else {
            r matches Err(e) && is_error(e, 400, "Invalid Base64 in signature"@)
        },
{
    let d = match did {
        Some(d) => d,
        None => {
            return Err(gateway_error(401, "Missing X-AGT-Agent-DID"));
        },
    };
    let s = match signature_b64 {
        Some(s) => s,
        None => {
            return Err(gateway_error(401, "Missing X-AGT-Signature"));
        },
    };
    match base64_decode(s.as_str()) {
        Ok(sig) => {
            proof {
                crate::codec::lemma_b64_roundtrip(b64_decoded(s@), sig@);
            }
            Ok((d, sig))
        },
        Err(_) => Err(gateway_error(400, "Invalid Base64 in signature")),
    }
}

/// The shortest time, in nanoseconds, between two calls of an agent
/// allowed `rps` calls a second: one second divided, rounding toward
/// zero, by `max(rps, 1)` taken as a 32-bit signed integer (so that a
/// rate above `i32::MAX` wraps to a negative divisor).
pub open spec fn min_interval_nanos(rps: u32) -> int {
    let m: int = if rps < 1 {
        1
    } else {
        rps as int
    };
    let d: int = if m <= 0x7fff_ffff {
        m
    } else {
        m - 0x1_0000_0000
    };
    if d > 0 {
        1_000_000_000int / d
    } else {
        -(1_000_000_000int / (-d))
    }
}

/// The time from `from` to `to` in nanoseconds.
pub open spec fn elapsed_nanos(from: Timestamp, to: Timestamp) -> int {
    (to.secs - from.secs) * 1_000_000_000 + (to.nanos - from.nanos)
}

/// A call of `did` at `now` keeps to the rate: the agent made no call
/// before, or the last one let through is at least the minimal interval
/// before `now`.
pub open spec fn within_rate(last: Map<Seq<char>, Timestamp>, did: Seq<char>, rps: u32, now: Timestamp) -> bool {
    !last.contains_key(did) || elapsed_nanos(last[did], now) >= min_interval_nanos(rps)
}

/// An instant as the system clock gives it: after the epoch, and not in a
/// leap second.
pub open spec fn clock_instant(t: Timestamp) -> bool {
    t.valid() && t.secs >= 0 && t.nanos < 1_000_000_000
}

/// The time of each agent's last call that was let through.
pub struct RateLimiter {
    last_requests: StrMap<Timestamp>,
}

impl View for RateLimiter {
    type V = Map<Seq<char>, Timestamp>;

    closed spec fn view(&self) -> Map<Seq<char>, Timestamp> {
        self.last_requests@
    }
}

impl RateLimiter {
    #[verifier::type_invariant]
    spec fn clock_times(self) -> bool {
        forall|k: Seq<char>|
            #[trigger] self.last_requests@.contains_key(k) ==> clock_instant(
                self.last_requests@[k],
            )
    }

    /// No call seen yet.
    pub fn new() -> (r: RateLimiter)
        ensures
            r@ == Map::<Seq<char>, Timestamp>::empty(),
    {
        RateLimiter { last_requests: StrMap::new() }
    }

    /// Lets a call of `did` at `now` through when it keeps to the rate,
    /// and then remembers `now` as its last call; a refused call changes
    /// nothing.
    pub fn check_at(&mut self, did: &str, rps: u32, now: Timestamp) -> (r: bool)
        requires
            clock_instant(now),
        ensures
            r == within_rate(old(self)@, did@, rps, now),
            r ==> final(self)@ == old(self)@.insert(did@, now),
            !r ==> final(self)@ == old(self)@,
    {
        proof {
            use_type_invariant(&*self);
        }
        match self.last_requests.get(did) {
            Some(last) => {
                let elapsed: i128 = (now.secs as i128 - last.secs as i128) * 1_000_000_000i128 + (
                now.nanos as i128 - last.nanos as i128);
                let m: u32 = if rps < 1 {
                    1
                } else {
                    rps
                };
                let d: i64 = if m <= 0x7fff_ffff {
                    m as i64
                } else {
                    m as i64 - 0x1_0000_0000i64
                };
                let interval: i128 = if d > 0 {
                    (1_000_000_000i64 / d) as i128
                } else {
                    -((1_000_000_000i64 / (-d)) as i128)
                };
                if elapsed < interval {
                    return false;
                }
            },
            None => {},
        }
        let mut times: StrMap<Timestamp> = StrMap::new();
        std::mem::swap(&mut times, &mut self.last_requests);
        times.insert(owned(did), now);
        self.last_requests = times;
        true
    }

    /// Lets a call of `did` through now when it keeps to the rate (see
    /// `check_at`).
    pub fn check(&mut self, did: &str, rps: u32) -> (r: bool)
        ensures
            exists|now: Timestamp|
                clock_instant(now) && r == within_rate(old(self)@, did@, rps, now) && (r
                    ==> final(self)@ == old(self)@.insert(did@, now)),
            !r ==> final(self)@ == old(self)@,
    {
        let now = utc_now();
        let r = self.check_at(did, rps, now);
        assert(clock_instant(now) && r == within_rate(old(self)@, did@, rps, now) && (r ==> self@
            == old(self)@.insert(did@, now)));
        r
    }
}

/// Whether a JSON-RPC request of this method goes through the gateway's
/// checks: only `tools/call` does; every other method is forwarded as it
/// is.
pub fn is_governed_method(method: &str) -> (r: bool)
    ensures
        r == (method@ == "tools/call"@),
{
    str_eq(method, "tools/call")
}

/// The tool named by a `tools/call` request; a call without one is a bad
/// request.
pub fn require_tool_name(name: Option<String>) -> (r: Result<String, GatewayError>)
    ensures
        name matches Some(n) ==> r matches Ok(x) && x@ == n@,
        name is None ==> (r matches Err(e) && is_error(e, 400, "Missing tool name in tools/call"@)),
{
    match name {
        Some(n) => Ok(n),
        None => Err(gateway_error(400, "Missing tool name in tools/call")),
    }
}

/// The caller's ring from the registry's answer: a registry error is a
/// server error, an unknown agent is unauthorized.
pub fn require_ring(lookup: Result<Option<PrivilegeRing>, String>, not_registered: &str) -> (r:
    Result<PrivilegeRing, GatewayError>)
    ensures
        lookup matches Ok(Some(x)) ==> r == Ok::<PrivilegeRing, GatewayError>(x),
        lookup matches Ok(None) ==> (r matches Err(e) && is_error(e, 401, not_registered@)),
        lookup matches Err(m) ==> (r matches Err(e) && is_error(e, 500, m@)),
{
    match lookup {
        Ok(Some(x)) => Ok(x),
        Ok(None) => Err(gateway_error(401, not_registered)),
        Err(m) => Err(GatewayError { status: 500, message: m }),
    }
}

/// The rate the caller's policy allows, from the policy store's answer: a
/// store error is a server error, and an agent without a policy gets the
/// default policy's rate of zero.
pub fn policy_rate(lookup: &Result<Option<McpPolicy>, String>) -> (r: Result<u32, GatewayError>)
    ensures
        lookup matches Ok(Some(p)) ==> r == Ok::<u32, GatewayError>(p.max_requests_per_second),
        lookup matches Ok(None) ==> r == Ok::<u32, GatewayError>(0),
        lookup matches Err(m) ==> (r matches Err(e) && is_error(e, 500, m@)),
{
    match lookup {
        Ok(Some(p)) => Ok(p.max_requests_per_second),
        Ok(None) => Ok(McpPolicy::default().max_requests_per_second),
        Err(m) => Err(GatewayError { status: 500, message: m.clone() }),
    }
}

/// The answer to a call over the rate.
pub fn rate_limited() -> (r: GatewayError)
    ensures
        is_error(r, 429, "Rate limit exceeded"@),
{
    gateway_error(429, "Rate limit exceeded")
}

/// The log record of a refused tool call.
pub open spec fn denial_record_view(
    record_id: u128,
    did: Seq<char>,
    tool: Seq<char>,
    reason: Seq<char>,
    category: DataCategory,
    now: Timestamp,
) -> ActionLogRecordView {
    ActionLogRecordView {
        record_id,
        agent_did: did,
        action: tool,
        resource_category: category,
        timestamp: now,
        outcome: ActionOutcomeView::Denied { rule: "Governance"@, reason },
        prev_hash: Seq::empty(),
    }
}

/// The log record of a refused tool call, with the given identifier and
/// time.
pub fn denial_record_at(
    record_id: u128,
    did: &str,
    tool: &str,
    reason: &str,
    category: DataCategory,
    now: Timestamp,
) -> (r: ActionLogRecord)
    ensures
        r@ == denial_record_view(record_id, did@, tool@, reason@, category, now),
{
    let r = ActionLogRecord {
        record_id,
        agent_did: owned(did),
        action: owned(tool),
        resource_category: category,
        timestamp: now,
        outcome: ActionOutcome::Denied { rule: owned("Governance"), reason: owned(reason) },
        prev_hash: String::new(),
    };
    assert(r@.prev_hash =~= Seq::<char>::empty());
    r
}

/// The log record of a refused tool call, under a fresh random
/// identifier, now.
pub fn denial_record(did: &str, tool: &str, reason: &str, category: DataCategory) -> (r:
    ActionLogRecord)
    ensures
        exists|id: u128, now: Timestamp|
            clock_instant(now) && r@ == denial_record_view(id, did@, tool@, reason@, category, now),
{
    let id = new_v4_id();
    let now = utc_now();
    denial_record_at(id, did, tool, reason, category, now)
}

/// The log record of a tool call that was let through.
pub open spec fn permitted_record_view(
    record_id: u128,
    did: Seq<char>,
    tool: Seq<char>,
    category: DataCategory,
    now: Timestamp,
) -> ActionLogRecordView {
    ActionLogRecordView {
        record_id,
        agent_did: did,
        action: tool,
        resource_category: category,
        timestamp: now,
        outcome: ActionOutcomeView::Permitted,
        prev_hash: Seq::empty(),
    }
}

/// The log record of a tool call that was let through, with the given
/// identifier and time.
pub fn permitted_record_at(
    record_id: u128,
    did: &str,
    tool: &str,
    category: DataCategory,
    now: Timestamp,
) -> (r: ActionLogRecord)
    ensures
        r@ == permitted_record_view(record_id, did@, tool@, category, now),
{
    let r = ActionLogRecord {
        record_id,
        agent_did: owned(did),
        action: owned(tool),
        resource_category: category,
        timestamp: now,
        outcome: ActionOutcome::Permitted,
        prev_hash: String::new(),
    };
    assert(r@.prev_hash =~= Seq::<char>::empty());
    r
}

/// The log record of a tool call that was let through, under a fresh
/// random identifier, now.
pub fn permitted_record(did: &str, tool: &str, category: DataCategory) -> (r: ActionLogRecord)
    ensures
        exists|id: u128, now: Timestamp|
            clock_instant(now) && r@ == permitted_record_view(id, did@, tool@, category, now),
{
    let id = new_v4_id();
    let now = utc_now();
    permitted_record_at(id, did, tool, category, now)
}

/// The message of a tool call that needs escalation.
pub open spec fn escalation_message(tool: Seq<char>, ring: PrivilegeRing) -> Seq<char> {
    "Tool "@ + tool + " requires "@ + ring.name_spec() + " ring. Escalation triggered."@
}

/// The reason of the escalation request filed for a tool call.
pub open spec fn auto_escalation_reason(tool: Seq<char>) -> Seq<char> {
    "Auto-escalation for tool: "@ + tool
}

/// What the gateway does with a tool call after the policy decision.
#[derive(Debug)]
pub enum ToolCallStep {
    /// The policy lets the call through: it goes on to the compliance
    /// check in this data category.
    CheckCompliance { category: DataCategory },
    /// The policy refuses the call: the reason is logged and answered with
    /// 403.
    Refuse { reason: String },
    /// The call needs a more privileged ring: the request is filed, the
    /// message is logged, and the call is answered with 202.
    Escalate { request: EscalationRequest, message: String },
}

/// `step` is the gateway's decision on a tool call of `tool` by `did` in
/// `ring` at `now`, given what the policy store answered for the agent:
/// the policy decision over no registered tools, with the category
/// `Unknown` for a call let through.
pub open spec fn tool_call_step_is(
    step: ToolCallStep,
    did: Seq<char>,
    ring: PrivilegeRing,
    tool: Seq<char>,
    loaded: Result<Option<McpPolicyView>, Seq<char>>,
    now: Timestamp,
) -> bool {
    match decision_spec(Map::<Seq<char>, McpToolView>::empty(), ring, tool, loaded) {
        DecisionView::Allow => step matches ToolCallStep::CheckCompliance { category }
            && category == DataCategory::Unknown,
        DecisionView::Deny(reason) => step matches ToolCallStep::Refuse { reason: x } && x@
            == reason,
        DecisionView::EscalateRequired(requested) => step matches ToolCallStep::Escalate {
            request,
            message,
        } && message@ == escalation_message(tool, requested) && request@ == (
        EscalationRequestView {
            agent_did: did,
            current_ring: ring,
            requested_ring: requested,
            reason: auto_escalation_reason(tool),
            timestamp: now,
        }),
    }
}

/// The gateway's decision on a tool call by `did` in `ring`, with the
/// policy store's answer for the agent. The gateway's enforcer registers
/// no tool, so every tool is unknown to it, and classification gives
/// `Unknown`.
pub fn decide_tool_call(
    did: &str,
    ring: PrivilegeRing,
    tool_name: &str,
    args: &ToolArgs,
    loaded: &Result<Option<McpPolicy>, String>,
    now: Timestamp,
) -> (r: ToolCallStep)
    ensures
        tool_call_step_is(r, did@, ring, tool_name@, policy_lookup_view(*loaded), now),
{
    let enforcer = PolicyEnforcer::new(None);
    let decision = enforcer.decide(ring, tool_name, loaded);
    match decision {
        EnforcementDecision::Allow => {
            let category = enforcer.classify(tool_name, args);
            ToolCallStep::CheckCompliance { category }
        },
        EnforcementDecision::Deny { reason } => ToolCallStep::Refuse { reason },
        EnforcementDecision::EscalateRequired { requested_ring } => {
            let mut message = concat2("Tool ", tool_name);
            message.append(" requires ");
            let name = requested_ring.name();
            message.append(name.as_str());
            message.append(" ring. Escalation triggered.");
            let request = EscalationRequest {
                agent_did: owned(did),
                current_ring: ring,
                requested_ring,
                reason: concat2("Auto-escalation for tool: ", tool_name),
                timestamp: now,
            };
            ToolCallStep::Escalate { request, message }
        },
    }
}

/// The request rate that a policy answer sets: the policy's own, or the
/// default policy's rate of zero when the agent has none.
pub open spec fn answer_rate(p: Option<McpPolicyView>) -> u32 {
    match p {
        Some(p) => p.max_requests_per_second,
        None => 0,
    }
}

/// The view of an optional string.
pub open spec fn opt_text(o: Option<String>) -> Option<Seq<char>> {
    match o {
        Some(s) => Some(s@),
        None => None,
    }
}

/// `r` is what the gateway's checks of a `tools/call` by `did` give at
/// `now`, and the rate limiter's times go from `before` to `after`, when
/// the registry answered `ring_l` for the agent's ring and the policy
/// store `policy_l` for its policy. In order: a call that names no tool
/// is a bad request; an agent the registry does not know is refused, and
/// an error of the registry or of the store is an internal error; a call
/// beyond the policy's rate is refused; otherwise the call is counted and
/// the policy decides. Only a call that passed every check is counted.
pub open spec fn governed(
    r: Result<(String, PrivilegeRing, ToolCallStep), GatewayError>,
    before: Map<Seq<char>, Timestamp>,
    after: Map<Seq<char>, Timestamp>,
    did: Seq<char>,
    tool_name: Option<Seq<char>>,
    ring_l: Result<Option<PrivilegeRing>, Seq<char>>,
    policy_l: Result<Option<McpPolicyView>, Seq<char>>,
    now: Timestamp,
) -> bool {
    match tool_name {
        None => after == before && (r matches Err(e) && is_error(
            e,
            400,
            "Missing tool name in tools/call"@,
        )),
        Some(t) => match ring_l {
            Err(m) => after == before && (r matches Err(e) && is_error(e, 500, m)),
            Ok(None) => after == before && (r matches Err(e) && is_error(
                e,
                401,
                "Agent not registered"@,
            )),
            Ok(Some(ring)) => match policy_l {
                Err(m) => after == before && (r matches Err(e) && is_error(e, 500, m)),
                Ok(p) => if !within_rate(before, did, answer_rate(p), now) {
                    after == before && (r matches Err(e) && is_error(e, 429, "Rate limit exceeded"@))
                } else {
                    &&& after == before.insert(did, now)
                    &&& r matches Ok((x, y, step)) && x@ == t && y == ring && tool_call_step_is(
                        step,
                        did,
                        ring,
                        t,
                        policy_l,
                        now,
                    )
                },
            },
        },
    }
}

/// A call goes on past the gateway's checks only when it passed each of
/// them: it names a tool, the registry knows the agent, the store found
/// its policy or its absence, the call keeps to the rate, and it is then
/// counted; every refused call leaves the rate limiter as it was.
pub proof fn lemma_governed_success_passed_checks(
    r: Result<(String, PrivilegeRing, ToolCallStep), GatewayError>,
    before: Map<Seq<char>, Timestamp>,
    after: Map<Seq<char>, Timestamp>,
    did: Seq<char>,
    tool_name: Option<Seq<char>>,
    ring_l: Result<Option<PrivilegeRing>, Seq<char>>,
    policy_l: Result<Option<McpPolicyView>, Seq<char>>,
    now: Timestamp,
)
    requires
        governed(r, before, after, did, tool_name, ring_l, policy_l, now),
    ensures
        r is Ok ==> {
            &&& tool_name is Some
            &&& ring_l == Ok::<Option<PrivilegeRing>, Seq<char>>(Some(r->Ok_0.1))
            &&& policy_l matches Ok(p) && within_rate(before, did, answer_rate(p), now)
            &&& after == before.insert(did, now)
        },
        r is Err ==> after == before,
{
}

/// Takes a `tools/call` of `did` through the gateway's checks at `now`,
/// as `governed` states them, asking the registry for the agent's ring
/// and the policy store for its policy. On success it gives the tool's
/// name, the agent's ring and the policy's decision; the caller carries
/// the decision out. The registry and the store are code of the user's
/// choosing, so the result is the one `governed` gives for answers they
/// may give for `did`.
pub fn govern_tool_call_at<R: AgentRegistry, P: PolicyStore>(
    limiter: &mut RateLimiter,
    registry: &R,
    store: &P,
    did: &str,
    tool_name: Option<String>,
    args: &ToolArgs,
    now: Timestamp,
) -> (r: Result<(String, PrivilegeRing, ToolCallStep), GatewayError>)
    requires
        clock_instant(now),
    ensures
        exists|
            ring_l: Result<Option<PrivilegeRing>, Seq<char>>,
            policy_l: Result<Option<McpPolicyView>, Seq<char>>,
        |
            {
                &&& tool_name is Some ==> registry.ring_answer(did@, ring_l)
                &&& (tool_name is Some && ring_l matches Ok(Some(_))) ==> store_answer(
                    *store,
                    did@,
                    policy_l,
                )
                &&& governed(
                    r,
                    old(limiter)@,
                    final(limiter)@,
                    did@,
                    opt_text(tool_name),
                    ring_l,
                    policy_l,
                    now,
                )
            },
{
    let ghost names = opt_text(tool_name);
    let tool = match require_tool_name(tool_name) {
        Ok(t) => t,
        Err(e) => {
            let ghost rl = Ok::<Option<PrivilegeRing>, Seq<char>>(None);
            let ghost pl = Ok::<Option<McpPolicyView>, Seq<char>>(None);
            let r = Err(e);
            assert(governed(r, old(limiter)@, limiter@, did@, names, rl, pl, now));
            return r;
        },
    };
    let ring_lookup = registry.get_ring(did);
    let ghost rl = ring_lookup_view(ring_lookup);
    let ring = match require_ring(ring_lookup, "Agent not registered") {
        Ok(x) => x,
        Err(e) => {
            let ghost pl = Ok::<Option<McpPolicyView>, Seq<char>>(None);
            let r = Err(e);
            assert(governed(r, old(limiter)@, limiter@, did@, names, rl, pl, now));
            return r;
        },
    };
    let loaded = store.load_policy(did);
    let ghost pl = policy_lookup_view(loaded);
    let rps = match policy_rate(&loaded) {
        Ok(x) => x,
        Err(e) => {
            let r = Err(e);
            assert(governed(r, old(limiter)@, limiter@, did@, names, rl, pl, now));
            return r;
        },
    };
    assert(pl matches Ok(p) && rps == answer_rate(p));
    if !limiter.check_at(did, rps, now) {
        let r = Err(rate_limited());
        assert(governed(r, old(limiter)@, limiter@, did@, names, rl, pl, now));
        return r;
    }
    let step = decide_tool_call(did, ring, tool.as_str(), args, &loaded, now);
    let r = Ok((tool, ring, step));
    assert(governed(r, old(limiter)@, limiter@, did@, names, rl, pl, now));
    r
}

/// The gateway's checks of a `tools/call` now (see `govern_tool_call_at`).
pub fn govern_tool_call<R: AgentRegistry, P: PolicyStore>(
    limiter: &mut RateLimiter,
    registry: &R,
    store: &P,
    did: &str,
    tool_name: Option<String>,
    args: &ToolArgs,
) -> (r: Result<(String, PrivilegeRing, ToolCallStep), GatewayError>)
    ensures
        exists|
            ring_l: Result<Option<PrivilegeRing>, Seq<char>>,
            policy_l: Result<Option<McpPolicyView>, Seq<char>>,
            now: Timestamp,
        |
            {
                &&& clock_instant(now)
                &&& tool_name is Some ==> registry.ring_answer(did@, ring_l)
                &&& (tool_name is Some && ring_l matches Ok(Some(_))) ==> store_answer(
                    *store,
                    did@,
                    policy_l,
                )
                &&& governed(
                    r,
                    old(limiter)@,
                    final(limiter)@,
                    did@,
                    opt_text(tool_name),
                    ring_l,
                    policy_l,
                    now,
                )
            },
{
    let now = utc_now();
    govern_tool_call_at(limiter, registry, store, did, tool_name, args, now)
}

/// The compliance input of a tool call the gateway checks: no
/// capabilities and no jurisdiction.
pub open spec fn tool_call_input(
    did: Seq<char>,
    ring: PrivilegeRing,
    tool: Seq<char>,
    category: DataCategory,
    history: Seq<ActionRecordView>,
) -> ComplianceInputView {
    ComplianceInputView {
        agent_did: did,
        agent_ring: ring,
        agent_capabilities: Seq::empty(),
        action: tool,
        resource_category: category,
        action_history: history,
        jurisdiction: None,
    }
}

/// The outcome of the compliance check of a tool call at `now`: nothing
/// when the call complies, otherwise the record of its refusal with
/// identifier `id`.
pub open spec fn gate_outcome<R: ComplianceRule>(
    rules: Seq<R>,
    did: Seq<char>,
    ring: PrivilegeRing,
    tool: Seq<char>,
    category: DataCategory,
    history: Seq<ActionRecordView>,
    now: Timestamp,
    id: u128,
) -> Option<ActionLogRecordView> {
    if all_compliant(verdicts(rules, tool_call_input(did, ring, tool, category, history), now)) {
        None
    } else {
        Some(denial_record_view(id, did, tool, "Compliance violation detected"@, category, now))
    }
}

/// The views of the records of an agent's history.
pub open spec fn history_view(v: Seq<ActionRecord>) -> Seq<ActionRecordView> {
    v.map_values(|x: ActionRecord| x@)
}

/// The view of an optional record.
pub open spec fn opt_record_view(r: Option<ActionLogRecord>) -> Option<ActionLogRecordView> {
    match r {
        Some(x) => Some(x@),
        None => None,
    }
}

/// The compliance check of a tool call the policy let through, at `now`:
/// `None` when the call complies, otherwise the log record of its
/// refusal (answered with 403 and "Compliance violation detected").
pub fn compliance_gate_at<R: ComplianceRule>(
    verifier: &ComplianceVerifier<R>,
    did: &str,
    ring: PrivilegeRing,
    tool: &str,
    category: DataCategory,
    history: Vec<ActionRecord>,
    now: Timestamp,
    record_id: u128,
) -> (r: Option<ActionLogRecord>)
    requires
        now.valid(),
    ensures
        opt_record_view(r) == gate_outcome(
            verifier.rules@,
            did@,
            ring,
            tool@,
            category,
            history_view(history@),
            now,
            record_id,
        ),
{
    let input = ComplianceInput {
        agent_did: owned(did),
        agent_ring: ring,
        agent_capabilities: Vec::new(),
        action: owned(tool),
        resource_category: category,
        action_history: history,
        jurisdiction: None,
    };
    assert(input@.agent_capabilities =~= Seq::<Seq<char>>::empty());
    if verifier.is_compliant_at(&input, now) {
        None
    } else {
        Some(denial_record_at(record_id, did, tool, "Compliance violation detected", category, now))
    }
}

/// The compliance check of a tool call the policy let through, now, with
/// a fresh random record identifier (see `compliance_gate_at`).
pub fn compliance_gate<R: ComplianceRule>(
    verifier: &ComplianceVerifier<R>,
    did: &str,
    ring: PrivilegeRing,
    tool: &str,
    category: DataCategory,
    history: Vec<ActionRecord>,
) -> (r: Option<ActionLogRecord>)
    ensures
        exists|now: Timestamp, id: u128|
            clock_instant(now) && opt_record_view(r) == #[trigger] gate_outcome(
                verifier.rules@,
                did@,
                ring,
                tool@,
                category,
                history_view(history@),
                now,
                id,
            ),
{
    let ghost hv = history_view(history@);
    let now = utc_now();
    let id = new_v4_id();
    let r = compliance_gate_at(verifier, did, ring, tool, category, history, now, id);
    assert(opt_record_view(r) == gate_outcome(verifier.rules@, did@, ring, tool@, category, hv, now, id));
    r
}

/// Within the interval a second call of the same agent is refused, and a
/// call at least the interval after the last one let through is allowed.
pub proof fn lemma_rate_limit_spacing(
    last: Map<Seq<char>, Timestamp>,
    did: Seq<char>,
    rps: u32,
    first: Timestamp,
    second: Timestamp,
)
    ensures
        within_rate(last.insert(did, first), did, rps, second) <==> elapsed_nanos(first, second)
            >= min_interval_nanos(rps),
{
}

/// A rate of at least one call a second and at most `i32::MAX` gives a
/// positive interval of one second divided by the rate; a rate of zero
/// counts as one call a second.
pub proof fn lemma_min_interval(rps: u32)
    ensures
        1 <= rps <= 0x7fff_ffff ==> min_interval_nanos(rps) == 1_000_000_000int / (rps as int),
        rps == 0 ==> min_interval_nanos(rps) == 1_000_000_000,
        1 <= rps <= 1_000_000_000 ==> min_interval_nanos(rps) > 0,
{
    if 1 <= rps <= 1_000_000_000 {
        assert(1_000_000_000int / (rps as int) >= 1) by (nonlinear_arith)
            requires
                1 <= rps <= 1_000_000_000,
        ;
    }
}

} // verus!
