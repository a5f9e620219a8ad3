//! Regulatory compliance rules (GDPR data export, SOX audit-log
//! isolation) and the verifier that applies a set of them.
use vstd::prelude::*;
use crate::audit::{ActionOutcome, ActionOutcomeView, DataCategory};
use crate::clock::{utc_now, Timestamp};
use crate::identity::{opt_string_view, strings_view};
use crate::ring::PrivilegeRing;
use crate::text::{decimal_text, owned, push_i64, starts_with_chars, starts_with_str, str_eq};

verus! {

/// An action in an agent's history.
#[derive(Debug)]
pub struct ActionRecord {
    pub action: String,
    pub timestamp: Timestamp,
    pub resource_category: DataCategory,
}

pub ghost struct ActionRecordView {
    pub action: Seq<char>,
    pub timestamp: Timestamp,
    pub resource_category: DataCategory,
}

impl View for ActionRecord {
    type V = ActionRecordView;

    open spec fn view(&self) -> ActionRecordView {
        ActionRecordView {
            action: self.action@,
            timestamp: self.timestamp,
            resource_category: self.resource_category,
        }
    }
}

impl ActionRecord {
    /// A copy of the record.
    pub fn duplicate(&self) -> (r: ActionRecord)
        ensures
            r@ == self@,
    {
        ActionRecord {
            action: self.action.clone(),
            timestamp: self.timestamp,
            resource_category: self.resource_category,
        }
    }
}

/// What a compliance rule is asked about.
#[derive(Debug)]
pub struct ComplianceInput {
    pub agent_did: String,
    pub agent_ring: PrivilegeRing,
    pub agent_capabilities: Vec<String>,
    pub action: String,
    pub resource_category: DataCategory,
    pub action_history: Vec<ActionRecord>,
    pub jurisdiction: Option<String>,
}

pub ghost struct ComplianceInputView {
    pub agent_did: Seq<char>,
    pub agent_ring: PrivilegeRing,
    pub agent_capabilities: Seq<Seq<char>>,
    pub action: Seq<char>,
    pub resource_category: DataCategory,
    pub action_history: Seq<ActionRecordView>,
    pub jurisdiction: Option<Seq<char>>,
}

impl View for ComplianceInput {
    type V = ComplianceInputView;

    open spec fn view(&self) -> ComplianceInputView {
        ComplianceInputView {
            agent_did: self.agent_did@,
            agent_ring: self.agent_ring,
            agent_capabilities: strings_view(self.agent_capabilities@),
            action: self.action@,
            resource_category: self.resource_category,
            action_history: self.action_history@.map_values(|r: ActionRecord| r@),
            jurisdiction: opt_string_view(self.jurisdiction),
        }
    }
}

/// The verdict of one rule.
#[derive(Debug)]
pub enum ComplianceResult {
    Compliant,
    NotApplicable,
    Violation { rule: String, reason: String },
}

pub ghost enum ComplianceResultView {
    Compliant,
    NotApplicable,
    Violation { rule: Seq<char>, reason: Seq<char> },
}

impl View for ComplianceResult {
    type V = ComplianceResultView;

    open spec fn view(&self) -> ComplianceResultView {
        match self {
            ComplianceResult::Compliant => ComplianceResultView::Compliant,
            ComplianceResult::NotApplicable => ComplianceResultView::NotApplicable,
            ComplianceResult::Violation { rule, reason } => ComplianceResultView::Violation {
                rule: rule@,
                reason: reason@,
            },
        }
    }
}

impl ComplianceResult {
    /// Whether the verdict is a violation.
    pub fn is_violation(&self) -> (r: bool)
        ensures
            r == (self@ is Violation),
    {
        match self {
            ComplianceResult::Violation { .. } => true,
            _ => false,
        }
    }
}

/// A compliance rule, which users may implement. A rule's verdict may
/// depend on the instant it is given at (a rule with a time window does);
/// `verdict` states it, `evaluate_at` gives it for a chosen instant, and
/// `evaluate` gives it now.
pub trait ComplianceRule: Sized {
    /// The rule's verdict on an input at instant `now`.
    spec fn verdict(&self, input: ComplianceInputView, now: Timestamp) -> ComplianceResultView;

    /// The rule's identifier.
    spec fn rule_name(&self) -> Seq<char>;

    /// The rule's identifier.
    fn name(&self) -> (r: String)
        ensures
            r@ == self.rule_name(),
    ;

    /// The rule's verdict on an input at instant `now`.
    fn evaluate_at(&self, input: &ComplianceInput, now: Timestamp) -> (r: ComplianceResult)
        ensures
            r@ == self.verdict(input@, now),
    ;

    /// The rule's verdict on an input now.
    fn evaluate(&self, input: &ComplianceInput) -> (r: ComplianceResult)
        ensures
            exists|now: Timestamp| now.valid() && r@ == self.verdict(input@, now),
    {
        let now = utc_now();
        self.evaluate_at(input, now)
    }
}

/// GDPR-001: exporting personal data needs the `gdpr_data_processor`
/// capability, except in the US jurisdiction.
#[derive(Debug)]
pub struct GdprDataExportRule;

/// The reason of a GDPR-001 violation.
pub open spec fn gdpr_reason() -> Seq<char> {
    "Agent lacks gdpr_data_processor capability for PersonalData export"@
}

/// The verdict of GDPR-001.
pub open spec fn gdpr_verdict(input: ComplianceInputView) -> ComplianceResultView {
    if input.action != "data_export"@ {
        ComplianceResultView::NotApplicable
    } else if input.resource_category != DataCategory::PersonalData {
        ComplianceResultView::NotApplicable
    } else if input.jurisdiction == Some("US"@) {
        ComplianceResultView::NotApplicable
    } else if !input.agent_capabilities.contains("gdpr_data_processor"@) {
        ComplianceResultView::Violation { rule: "GDPR-001"@, reason: gdpr_reason() }
    } else {
        ComplianceResultView::Compliant
    }
}

/// Whether one of the strings equals `s`.
fn contains_string(v: &Vec<String>, s: &str) -> (r: bool)
    ensures
        r == strings_view(v@).contains(s@),
{
    let mut i: usize = 0;
    while i < v.len()
        invariant
            i <= v@.len(),
            forall|j: int| 0 <= j < i ==> v@[j]@ != s@,
        decreases v@.len() - i,
    {
        if str_eq(v[i].as_str(), s) {
            assert(strings_view(v@)[i as int] == s@);
            return true;
        }
        i = i + 1;
    }
    proof {
        if strings_view(v@).contains(s@) {
            let j = choose|j: int| 0 <= j < strings_view(v@).len() && strings_view(v@)[j] == s@;
            assert(v@[j]@ == s@);
        }
    }
    false
}

impl ComplianceRule for GdprDataExportRule {
    /// The verdict does not depend on the instant.
    open spec fn verdict(&self, input: ComplianceInputView, now: Timestamp) -> ComplianceResultView {
        gdpr_verdict(input)
    }

    open spec fn rule_name(&self) -> Seq<char> {
        "GDPR-001"@
    }

    fn name(&self) -> (r: String) {
        let r = owned("GDPR-001");
        assert(r@ == self.rule_name());
        r
    }

    fn evaluate_at(&self, input: &ComplianceInput, now: Timestamp) -> (r: ComplianceResult) {
        if !str_eq(input.action.as_str(), "data_export") {
            return ComplianceResult::NotApplicable;
        }
        if input.resource_category != DataCategory::PersonalData {
            return ComplianceResult::NotApplicable;
        }
        match &input.jurisdiction {
            Some(j) => {
                if str_eq(j.as_str(), "US") {
                    return ComplianceResult::NotApplicable;
                }
            },
            None => {},
        }
        if !contains_string(&input.agent_capabilities, "gdpr_data_processor") {
            return ComplianceResult::Violation {
                rule: self.name(),
                reason: owned("Agent lacks gdpr_data_processor capability for PersonalData export"),
            };
        }
        ComplianceResult::Compliant
    }
}

/// SOX-001: an agent that wrote, deleted or updated financial records or
/// audit logs within the isolation window may not read the audit log.
#[derive(Debug)]
pub struct SoxAuditImmutabilityRule {
    /// Length of the isolation window, in seconds.
    pub isolation_window_secs: i64,
}

/// A history entry is a recent write: after the cutoff `now - window`, on
/// financial records or audit logs, and its action begins with `write`,
/// `delete` or `update`.
pub open spec fn is_recent_write(r: ActionRecordView, now: Timestamp, window_secs: i64) -> bool {
    &&& ((now.secs - window_secs) < r.timestamp.secs || ((now.secs - window_secs) == r.timestamp.secs
        && now.nanos < r.timestamp.nanos))
    &&& (r.resource_category == DataCategory::FinancialRecord || r.resource_category
        == DataCategory::AuditLog)
    &&& (starts_with_chars(r.action, "write"@) || starts_with_chars(r.action, "delete"@)
        || starts_with_chars(r.action, "update"@))
}

/// The printed form of the isolation window (a `TimeDelta` of whole
/// seconds).
pub open spec fn window_text(window_secs: i64) -> Seq<char> {
    "TimeDelta { secs: "@ + decimal_text(window_secs as int) + ", nanos: 0 }"@
}

/// The reason of a SOX-001 violation.
pub open spec fn sox_reason(window_secs: i64) -> Seq<char> {
    "Agent has recent write history within window ("@ + window_text(window_secs)
        + "); audit log read denied"@
}

/// The verdict of SOX-001 at instant `now`.
pub open spec fn sox_verdict(input: ComplianceInputView, now: Timestamp, window_secs: i64) -> ComplianceResultView {
    if input.resource_category != DataCategory::AuditLog {
        ComplianceResultView::NotApplicable
    } else if input.action != "read"@ && input.action != "read_audit_log"@ {
        ComplianceResultView::NotApplicable
    } else if exists|i: int|
        0 <= i < input.action_history.len() && is_recent_write(
            #[trigger] input.action_history[i],
            now,
            window_secs,
        ) {
        ComplianceResultView::Violation { rule: "SOX-001"@, reason: sox_reason(window_secs) }
    } else {
        ComplianceResultView::Compliant
    }
}

impl ComplianceRule for SoxAuditImmutabilityRule {
    open spec fn verdict(&self, input: ComplianceInputView, now: Timestamp) -> ComplianceResultView {
        sox_verdict(input, now, self.isolation_window_secs)
    }

    open spec fn rule_name(&self) -> Seq<char> {
        "SOX-001"@
    }

    fn name(&self) -> (r: String) {
        owned("SOX-001")
    }

    /// The cutoff `now - window` is compared with exact integers.
    fn evaluate_at(&self, input: &ComplianceInput, now: Timestamp) -> (r: ComplianceResult)
    {
        if input.resource_category != DataCategory::AuditLog {
            return ComplianceResult::NotApplicable;
        }
        if !str_eq(input.action.as_str(), "read") && !str_eq(input.action.as_str(), "read_audit_log") {
            return ComplianceResult::NotApplicable;
        }
        let cutoff_secs: i128 = now.secs as i128 - self.isolation_window_secs as i128;
        let mut recent = false;
        let mut i: usize = 0;
        while i < input.action_history.len()
            invariant
                i <= input.action_history@.len(),
                cutoff_secs == now.secs - self.isolation_window_secs,
                recent == exists|j: int|
                    0 <= j < i && is_recent_write(
                        #[trigger] input@.action_history[j],
                        now,
                        self.isolation_window_secs,
                    ),
            decreases input.action_history@.len() - i,
        {
            let r = &input.action_history[i];
            let after = cutoff_secs < r.timestamp.secs as i128 || (cutoff_secs == r.timestamp.secs as i128
                && now.nanos < r.timestamp.nanos);
            let cat = r.resource_category == DataCategory::FinancialRecord || r.resource_category
                == DataCategory::AuditLog;
            let act = starts_with_str(r.action.as_str(), "write") || starts_with_str(
                r.action.as_str(),
                "delete",
            ) || starts_with_str(r.action.as_str(), "update");
            proof {
                assert(input@.action_history[i as int] == r@);
            }
            if after && cat && act {
                recent = true;
            }
            i = i + 1;
        }
        if recent {
            let mut reason = owned("Agent has recent write history within window (");
            reason.append("TimeDelta { secs: ");
            push_i64(&mut reason, self.isolation_window_secs);
            reason.append(", nanos: 0 }");
            reason.append("); audit log read denied");
            assert(reason@ =~= sox_reason(self.isolation_window_secs));
            return ComplianceResult::Violation { rule: owned("SOX-001"), reason };
        }
        ComplianceResult::Compliant
    }
}

/// Whether `a` is `prefix` followed by some text.
proof fn lemma_prefix_split(a: Seq<char>, prefix: Seq<char>)
    ensures
        starts_with_chars(a, prefix) <==> exists|rest: Seq<char>| a == prefix + rest,
{
    if starts_with_chars(a, prefix) {
        let rest = a.skip(prefix.len() as int);
        assert(a =~= prefix + rest);
    }
    if exists|rest: Seq<char>| a == prefix + rest {
        let rest = choose|rest: Seq<char>| a == prefix + rest;
        assert(a.take(prefix.len() as int) =~= prefix);
    }
}

/// SOX-001 refuses an audit-log read by an agent whose history holds,
/// after the cutoff `now - window`, an action on financial records or
/// audit logs whose name begins with `write`, `delete` or `update`.
pub proof fn lemma_sox_recent_change_denies_audit_read(
    input: ComplianceInputView,
    now: Timestamp,
    window_secs: i64,
    i: int,
    verb: Seq<char>,
    rest: Seq<char>,
)
    requires
        input.resource_category == DataCategory::AuditLog,
        input.action == "read"@ || input.action == "read_audit_log"@,
        0 <= i < input.action_history.len(),
        verb == "write"@ || verb == "delete"@ || verb == "update"@,
        input.action_history[i].action == verb + rest,
        input.action_history[i].resource_category == DataCategory::FinancialRecord
            || input.action_history[i].resource_category == DataCategory::AuditLog,
        now.secs - window_secs < input.action_history[i].timestamp.secs,
    ensures
        sox_verdict(input, now, window_secs) == (ComplianceResultView::Violation {
            rule: "SOX-001"@,
            reason: sox_reason(window_secs),
        }),
{
    let h = input.action_history[i];
    lemma_prefix_split(h.action, verb);
    lemma_prefix_split(h.action, "write"@);
    lemma_prefix_split(h.action, "delete"@);
    lemma_prefix_split(h.action, "update"@);
    assert(is_recent_write(input.action_history[i], now, window_secs));
}

/// SOX-001 refuses only an audit-log read (`read` or `read_audit_log`),
/// and only when some entry of the history after the cutoff
/// `now - window` (to the nanosecond) is an action on financial records or
/// audit logs whose name begins with `write`, `delete` or `update`;
/// every other audit-log read complies, and anything else is outside the
/// rule.
pub proof fn lemma_sox_violation_needs_recent_change(
    input: ComplianceInputView,
    now: Timestamp,
    window_secs: i64,
)
    ensures
        input.resource_category != DataCategory::AuditLog || (input.action != "read"@
            && input.action != "read_audit_log"@) ==> sox_verdict(input, now, window_secs)
            == ComplianceResultView::NotApplicable,
        sox_verdict(input, now, window_secs) is Violation ==> exists|i: int, verb: Seq<char>, rest: Seq<char>|
            #![trigger input.action_history[i], verb + rest]
            {
                &&& 0 <= i < input.action_history.len()
                &&& (verb == "write"@ || verb == "delete"@ || verb == "update"@)
                &&& input.action_history[i].action == verb + rest
                &&& (input.action_history[i].resource_category == DataCategory::FinancialRecord
                    || input.action_history[i].resource_category == DataCategory::AuditLog)
                &&& ((now.secs - window_secs) < input.action_history[i].timestamp.secs || ((
                now.secs - window_secs) == input.action_history[i].timestamp.secs && now.nanos
                    < input.action_history[i].timestamp.nanos))
            },
        sox_verdict(input, now, window_secs) is Violation || sox_verdict(input, now, window_secs)
            is Compliant || sox_verdict(input, now, window_secs) is NotApplicable,
{
    if sox_verdict(input, now, window_secs) is Violation {
        let i = choose|i: int|
            0 <= i < input.action_history.len() && is_recent_write(
                #[trigger] input.action_history[i],
                now,
                window_secs,
            );
        let a = input.action_history[i].action;
        lemma_prefix_split(a, "write"@);
        lemma_prefix_split(a, "delete"@);
        lemma_prefix_split(a, "update"@);
        if starts_with_chars(a, "write"@) {
            let rest = choose|rest: Seq<char>| a == "write"@ + rest;
            assert(input.action_history[i].action == "write"@ + rest);
        } else if starts_with_chars(a, "delete"@) {
            let rest = choose|rest: Seq<char>| a == "delete"@ + rest;
            assert(input.action_history[i].action == "delete"@ + rest);
        } else {
            let rest = choose|rest: Seq<char>| a == "update"@ + rest;
            assert(input.action_history[i].action == "update"@ + rest);
        }
    }
}

/// The built-in rules, as one type, so that a verifier can apply both.
#[derive(Debug)]
pub enum BuiltinRule {
    Gdpr(GdprDataExportRule),
    Sox(SoxAuditImmutabilityRule),
}

/// The verdict of a built-in rule at instant `now`.
pub open spec fn rule_verdict(rule: BuiltinRule, input: ComplianceInputView, now: Timestamp) -> ComplianceResultView {
    match rule {
        BuiltinRule::Gdpr(_) => gdpr_verdict(input),
        BuiltinRule::Sox(s) => sox_verdict(input, now, s.isolation_window_secs),
    }
}

impl ComplianceRule for BuiltinRule {
    open spec fn verdict(&self, input: ComplianceInputView, now: Timestamp) -> ComplianceResultView {
        rule_verdict(*self, input, now)
    }

    open spec fn rule_name(&self) -> Seq<char> {
        match self {
            BuiltinRule::Gdpr(g) => g.rule_name(),
            BuiltinRule::Sox(s) => s.rule_name(),
        }
    }

    fn name(&self) -> (r: String) {
        match self {
            BuiltinRule::Gdpr(g) => g.name(),
            BuiltinRule::Sox(s) => s.name(),
        }
    }

    fn evaluate_at(&self, input: &ComplianceInput, now: Timestamp) -> (r: ComplianceResult) {
        match self {
            BuiltinRule::Gdpr(g) => g.evaluate_at(input, now),
            BuiltinRule::Sox(s) => s.evaluate_at(input, now),
        }
    }
}

/// Applies a set of compliance rules, of the built-in kinds or of any
/// other that implements `ComplianceRule`.
pub struct ComplianceVerifier<R: ComplianceRule> {
    pub rules: Vec<R>,
}

/// No verdict is a violation.
pub open spec fn all_compliant(results: Seq<ComplianceResultView>) -> bool {
    forall|i: int| 0 <= i < results.len() ==> !(#[trigger] results[i] is Violation)
}

/// The verdicts of all rules at `now`, in rule order.
pub open spec fn verdicts<R: ComplianceRule>(rules: Seq<R>, input: ComplianceInputView, now: Timestamp) -> Seq<ComplianceResultView> {
    rules.map_values(|r: R| r.verdict(input, now))
}

/// The view of a list of verdicts.
pub open spec fn results_view(v: Seq<ComplianceResult>) -> Seq<ComplianceResultView> {
    v.map_values(|r: ComplianceResult| r@)
}

/// The log outcome of a checked action: permitted when no verdict is a
/// violation, otherwise denied with the rule and reason of the first
/// violation.
pub open spec fn outcome_of_verdicts(results: Seq<ComplianceResultView>) -> ActionOutcomeView
    decreases results.len(),
{
    if results.len() == 0 {
        ActionOutcomeView::Permitted
    } else {
        match results[0] {
            ComplianceResultView::Violation { rule, reason } => ActionOutcomeView::Denied {
                rule,
                reason,
            },
            _ => outcome_of_verdicts(results.drop_first()),
        }
    }
}

impl ComplianceVerifier<BuiltinRule> {
    /// The default policy: GDPR-001, then SOX-001 with a 24-hour window.
    pub fn default_policy() -> (r: ComplianceVerifier<BuiltinRule>)
        ensures
            r.rules@.len() == 2,
            r.rules@[0] is Gdpr,
            r.rules@[1] matches BuiltinRule::Sox(s) && s.isolation_window_secs == 86400,
    {
        let mut rules: Vec<BuiltinRule> = Vec::new();
        rules.push(BuiltinRule::Gdpr(GdprDataExportRule));
        rules.push(BuiltinRule::Sox(SoxAuditImmutabilityRule { isolation_window_secs: 86400 }));
        ComplianceVerifier { rules }
    }
}

impl<R: ComplianceRule> ComplianceVerifier<R> {
    /// A verifier with the given rules.
    pub fn new(rules: Vec<R>) -> (r: ComplianceVerifier<R>)
        ensures
            r.rules@ == rules@,
    {
        ComplianceVerifier { rules }
    }

    /// The verdicts of all rules at instant `now`, in rule order.
    pub fn evaluate_at(&self, input: &ComplianceInput, now: Timestamp) -> (r: Vec<ComplianceResult>)
        ensures
            results_view(r@) == verdicts(self.rules@, input@, now),
    {
        let mut out: Vec<ComplianceResult> = Vec::new();
        let mut i: usize = 0;
        while i < self.rules.len()
            invariant
                i <= self.rules@.len(),
                results_view(out@) == verdicts(self.rules@.take(i as int), input@, now),
            decreases self.rules@.len() - i,
        {
            let v = self.rules[i].evaluate_at(input, now);
            let ghost before = out@;
            out.push(v);
            proof {
                assert(self.rules@.take(i + 1) =~= self.rules@.take(i as int).push(self.rules@[i as int]));
                assert(results_view(out@) =~= results_view(before).push(v@));
                assert(verdicts(self.rules@.take(i + 1), input@, now) =~= verdicts(
                    self.rules@.take(i as int),
                    input@,
                    now,
                ).push(self.rules@[i as int].verdict(input@, now)));
            }
            i = i + 1;
            assert(results_view(out@) =~= verdicts(self.rules@.take(i as int), input@, now));
        }
        assert(self.rules@.take(self.rules@.len() as int) =~= self.rules@);
        out
    }

    /// Whether no rule finds a violation at instant `now`.
    pub fn is_compliant_at(&self, input: &ComplianceInput, now: Timestamp) -> (r: bool)
        ensures
            r == all_compliant(verdicts(self.rules@, input@, now)),
    {
        let results = self.evaluate_at(input, now);
        let mut i: usize = 0;
        while i < results.len()
            invariant
                i <= results@.len(),
                results_view(results@) == verdicts(self.rules@, input@, now),
                forall|j: int| 0 <= j < i ==> !(#[trigger] results_view(results@)[j] is Violation),
            decreases results@.len() - i,
        {
            if results[i].is_violation() {
                assert(results_view(results@)[i as int] is Violation);
                return false;
            }
            i = i + 1;
        }
        true
    }

    /// The verdicts of all rules now.
    pub fn evaluate(&self, input: &ComplianceInput) -> (r: Vec<ComplianceResult>)
        ensures
            exists|now: Timestamp| now.valid() && results_view(r@) == verdicts(self.rules@, input@, now),
    {
        let now = utc_now();
        self.evaluate_at(input, now)
    }

    /// Whether no rule finds a violation now.
    pub fn is_compliant(&self, input: &ComplianceInput) -> (r: bool)
        ensures
            exists|now: Timestamp| now.valid() && r == all_compliant(verdicts(self.rules@, input@, now)),
    {
        let now = utc_now();
        self.is_compliant_at(input, now)
    }
}

/// The log outcome of a checked action, from the rules' verdicts.
pub fn outcome_for_results(results: &Vec<ComplianceResult>) -> (r: ActionOutcome)
    ensures
        r@ == outcome_of_verdicts(results_view(results@)),
{
    let mut i: usize = 0;
    assert(results_view(results@).skip(0) =~= results_view(results@));
    while i < results.len()
        invariant
            i <= results@.len(),
            outcome_of_verdicts(results_view(results@)) == outcome_of_verdicts(
                results_view(results@).skip(i as int),
            ),
        decreases results@.len() - i,
    {
        let ghost rest = results_view(results@).skip(i as int);
        match &results[i] {
            ComplianceResult::Violation { rule, reason } => {
                assert(rest[0] == results@[i as int]@);
                return ActionOutcome::Denied { rule: rule.clone(), reason: reason.clone() };
            },
            _ => {
                assert(rest[0] == results@[i as int]@);
                assert(rest.drop_first() =~= results_view(results@).skip(i + 1));
            },
        }
        i = i + 1;
    }
    ActionOutcome::Permitted
}

/// The log outcome is `Permitted` exactly when no verdict is a violation.
pub proof fn lemma_outcome_permitted_iff_compliant(results: Seq<ComplianceResultView>)
    ensures
        (outcome_of_verdicts(results) == ActionOutcomeView::Permitted) == all_compliant(results),
    decreases results.len(),
{
    if results.len() > 0 {
        lemma_outcome_permitted_iff_compliant(results.drop_first());
        if !(results[0] is Violation) {
            if all_compliant(results.drop_first()) {
                assert forall|i: int| 0 <= i < results.len() implies !(#[trigger] results[i] is Violation) by {
                    if i > 0 {
                        assert(results[i] == results.drop_first()[i - 1]);
                    }
                }
            } else {
                let j = choose|j: int| 0 <= j < results.drop_first().len() && (#[trigger] results.drop_first()[j] is Violation);
                assert(results[j + 1] == results.drop_first()[j]);
            }
        }
    }
}

} // verus!
