//! Audit records: data categories, action outcomes, and the action log
//! record with its canonical bytes and hash.
use vstd::prelude::*;
use vstd::utf8::encode_utf8;
use crate::clock::{rfc3339, rfc3339_text, Timestamp};
use crate::codec::{hex_encode, hex_lower, uuid_text, uuid_to_text};
use crate::crypto::{sha256, sha256_digest};
use crate::text::{concat2, json_string, owned, push_json_string, str_eq};

verus! {

/// Category of the data an action touches.
#[derive(Clone, Copy, Debug, PartialEq, Eq, Structural)]
pub enum DataCategory {
    PersonalData,
    FinancialRecord,
    AuditLog,
    SystemConfig,
    Unknown,
}

/// Unicode lower-case of a string (`str::to_lowercase`).
pub uninterp spec fn unicode_lowercase(s: Seq<char>) -> Seq<char>;

/// Whether every character of `s` is ASCII.
pub open spec fn is_ascii_text(s: Seq<char>) -> bool {
    forall|i: int| 0 <= i < s.len() ==> (#[trigger] s[i] as u32) < 128
}

/// The ASCII lower-case of a character: `A` to `Z` become `a` to `z`,
/// every other character stays.
pub open spec fn ascii_lower_char(c: char) -> char {
    if 'A' <= c && c <= 'Z' {
        ((c as u32) + 32) as char
    } else {
        c
    }
}

/// The ASCII lower-case of a string, character by character.
pub open spec fn ascii_lower(s: Seq<char>) -> Seq<char> {
    s.map_values(|c: char| ascii_lower_char(c))
}

/// `str::to_lowercase`: the Unicode lower-case form of `s`. On ASCII
/// text it maps `A` to `Z` to `a` to `z` and keeps every other character.
#[verifier::external_body]
pub(crate) fn to_lowercase(s: &str) -> (r: String)
    ensures
        r@ == unicode_lowercase(s@),
        is_ascii_text(s@) ==> r@ == ascii_lower(s@),
{
    s.to_lowercase()
}

/// The category a lower-case name stands for, if any.
pub open spec fn category_of_name(l: Seq<char>) -> Option<DataCategory> {
    if l == "personaldata"@ || l == "personal_data"@ || l == "pii"@ {
        Some(DataCategory::PersonalData)
    } else if l == "financialrecord"@ || l == "financial_record"@ || l == "sox"@ {
        Some(DataCategory::FinancialRecord)
    } else if l == "auditlog"@ || l == "audit_log"@ {
        Some(DataCategory::AuditLog)
    } else if l == "systemconfig"@ || l == "system_config"@ {
        Some(DataCategory::SystemConfig)
    } else if l == "unknown"@ {
        Some(DataCategory::Unknown)
    } else {
        None
    }
}

/// The message of a name that is not a category.
pub open spec fn unknown_category_message(s: Seq<char>) -> Seq<char> {
    "Unknown data category: "@ + s
}

impl DataCategory {
    /// The printed name of the category.
    pub open spec fn name_spec(self) -> Seq<char> {
        match self {
            DataCategory::PersonalData => "PersonalData"@,
            DataCategory::FinancialRecord => "FinancialRecord"@,
            DataCategory::AuditLog => "AuditLog"@,
            DataCategory::SystemConfig => "SystemConfig"@,
            DataCategory::Unknown => "Unknown"@,
        }
    }

    /// The printed name of the category (what `Display` writes).
    pub fn name(&self) -> (r: String)
        ensures
            r@ == self.name_spec(),
    {
        match self {
            DataCategory::PersonalData => owned("PersonalData"),
            DataCategory::FinancialRecord => owned("FinancialRecord"),
            DataCategory::AuditLog => owned("AuditLog"),
            DataCategory::SystemConfig => owned("SystemConfig"),
            DataCategory::Unknown => owned("Unknown"),
        }
    }

    /// The category named by an already lower-cased name.
    pub fn from_lowercase_name(l: &str) -> (r: Option<DataCategory>)
        ensures
            r == category_of_name(l@),
    {
        if str_eq(l, "personaldata") || str_eq(l, "personal_data") || str_eq(l, "pii") {
            Some(DataCategory::PersonalData)
        } else if str_eq(l, "financialrecord") || str_eq(l, "financial_record") || str_eq(l, "sox") {
            Some(DataCategory::FinancialRecord)
        } else if str_eq(l, "auditlog") || str_eq(l, "audit_log") {
            Some(DataCategory::AuditLog)
        } else if str_eq(l, "systemconfig") || str_eq(l, "system_config") {
            Some(DataCategory::SystemConfig)
        } else if str_eq(l, "unknown") {
            Some(DataCategory::Unknown)
        } else {
            None
        }
    }

    /// Parses a category name, ignoring case (`FromStr`).
    pub fn from_str(s: &str) -> (r: Result<DataCategory, String>)
        ensures
            r is Ok <==> category_of_name(unicode_lowercase(s@)) is Some,
            r matches Ok(c) ==> category_of_name(unicode_lowercase(s@)) == Some(c),
            r matches Err(e) ==> e@ == unknown_category_message(s@),
            is_ascii_text(s@) ==> unicode_lowercase(s@) == ascii_lower(s@),
    {
        let l = to_lowercase(s);
        match DataCategory::from_lowercase_name(l.as_str()) {
            Some(c) => Ok(c),
            None => Err(concat2("Unknown data category: ", s)),
        }
    }
}

/// Every category's printed name is ASCII and parses back to the
/// category, whatever its case: `from_str(&c.name())` gives `Ok(c)`.
pub proof fn lemma_name_parses(c: DataCategory)
    ensures
        is_ascii_text(c.name_spec()),
        category_of_name(ascii_lower(c.name_spec())) == Some(c),
{
    reveal_strlit("PersonalData");
    reveal_strlit("FinancialRecord");
    reveal_strlit("AuditLog");
    reveal_strlit("SystemConfig");
    reveal_strlit("Unknown");
    reveal_strlit("personaldata");
    reveal_strlit("financialrecord");
    reveal_strlit("auditlog");
    reveal_strlit("systemconfig");
    reveal_strlit("unknown");
    reveal_strlit("personal_data");
    reveal_strlit("pii");
    reveal_strlit("financial_record");
    reveal_strlit("sox");
    reveal_strlit("audit_log");
    reveal_strlit("system_config");
    let n = c.name_spec();
    assert(is_ascii_text(n));
    match c {
        DataCategory::PersonalData => assert(ascii_lower(n) =~= "personaldata"@),
        DataCategory::FinancialRecord => assert(ascii_lower(n) =~= "financialrecord"@),
        DataCategory::AuditLog => assert(ascii_lower(n) =~= "auditlog"@),
        DataCategory::SystemConfig => {
            assert(ascii_lower(n) =~= "systemconfig"@);
            assert(ascii_lower(n)[0] != "personaldata"@[0]);
        },
        DataCategory::Unknown => assert(ascii_lower(n) =~= "unknown"@),
    }
}

/// What became of a logged action.
#[derive(Debug)]
pub enum ActionOutcome {
    Permitted,
    Denied { rule: String, reason: String },
    DiscoveryEvent { event_json: String },
}

pub ghost enum ActionOutcomeView {
    Permitted,
    Denied { rule: Seq<char>, reason: Seq<char> },
    DiscoveryEvent { event_json: Seq<char> },
}

impl View for ActionOutcome {
    type V = ActionOutcomeView;

    open spec fn view(&self) -> ActionOutcomeView {
        match self {
            ActionOutcome::Permitted => ActionOutcomeView::Permitted,
            ActionOutcome::Denied { rule, reason } => ActionOutcomeView::Denied {
                rule: rule@,
                reason: reason@,
            },
            ActionOutcome::DiscoveryEvent { event_json } => ActionOutcomeView::DiscoveryEvent {
                event_json: event_json@,
            },
        }
    }
}

impl ActionOutcome {
    /// A copy of the outcome.
    pub fn duplicate(&self) -> (r: ActionOutcome)
        ensures
            r@ == self@,
    {
        match self {
            ActionOutcome::Permitted => ActionOutcome::Permitted,
            ActionOutcome::Denied { rule, reason } => ActionOutcome::Denied {
                rule: rule.clone(),
                reason: reason.clone(),
            },
            ActionOutcome::DiscoveryEvent { event_json } => ActionOutcome::DiscoveryEvent {
                event_json: event_json.clone(),
            },
        }
    }

    /// Whether the outcome is `Permitted`.
    pub fn is_permitted(&self) -> (r: bool)
        ensures
            r == (self@ == ActionOutcomeView::Permitted),
    {
        match self {
            ActionOutcome::Permitted => true,
            _ => false,
        }
    }
}

/// One entry of the hash-chained action log.
#[derive(Debug)]
pub struct ActionLogRecord {
    pub record_id: u128,
    pub agent_did: String,
    pub action: String,
    pub resource_category: DataCategory,
    pub timestamp: Timestamp,
    pub outcome: ActionOutcome,
    pub prev_hash: String,
}

pub ghost struct ActionLogRecordView {
    pub record_id: u128,
    pub agent_did: Seq<char>,
    pub action: Seq<char>,
    pub resource_category: DataCategory,
    pub timestamp: Timestamp,
    pub outcome: ActionOutcomeView,
    pub prev_hash: Seq<char>,
}

impl View for ActionLogRecord {
    type V = ActionLogRecordView;

    open spec fn view(&self) -> ActionLogRecordView {
        ActionLogRecordView {
            record_id: self.record_id,
            agent_did: self.agent_did@,
            action: self.action@,
            resource_category: self.resource_category,
            timestamp: self.timestamp,
            outcome: self.outcome@,
            prev_hash: self.prev_hash@,
        }
    }
}

/// The JSON text of an outcome: a unit variant is its quoted name, the
/// others are an object with the variant name holding the fields.
pub open spec fn outcome_json(o: ActionOutcomeView) -> Seq<char> {
    match o {
        ActionOutcomeView::Permitted => "\"Permitted\""@,
        ActionOutcomeView::Denied { rule, reason } => "{\"Denied\":{\"rule\":"@ + json_string(rule)
            + ",\"reason\":"@ + json_string(reason) + "}}"@,
        ActionOutcomeView::DiscoveryEvent { event_json } => "{\"DiscoveryEvent\":{\"event_json\":"@
            + json_string(event_json) + "}}"@,
    }
}

/// The canonical JSON text of a record: every field but the previous
/// hash, in order, with the identifier as hyphenated UUID text, the
/// category by name and the instant as RFC 3339 text.
pub open spec fn record_json(r: ActionLogRecordView) -> Seq<char> {
    "{\"record_id\":"@ + json_string(uuid_text(r.record_id)) + ",\"agent_did\":"@ + json_string(
        r.agent_did,
    ) + ",\"action\":"@ + json_string(r.action) + ",\"resource_category\":"@ + json_string(
        r.resource_category.name_spec(),
    ) + ",\"timestamp\":"@ + json_string(rfc3339(r.timestamp.secs, r.timestamp.nanos))
        + ",\"outcome\":"@ + outcome_json(r.outcome) + "}"@
}

/// The canonical bytes of a record (UTF-8 of its canonical JSON text).
pub open spec fn record_bytes(r: ActionLogRecordView) -> Seq<u8> {
    encode_utf8(record_json(r))
}

/// The hash of a record: hex text of SHA-256 of its canonical bytes.
pub open spec fn record_hash(r: ActionLogRecordView) -> Seq<char> {
    hex_lower(sha256(record_bytes(r)))
}

/// Appends the JSON text of an outcome.
fn push_outcome_json(out: &mut String, o: &ActionOutcome)
    ensures
        final(out)@ == old(out)@ + outcome_json(o@),
{
    match o {
        ActionOutcome::Permitted => {
            out.append("\"Permitted\"");
        },
        ActionOutcome::Denied { rule, reason } => {
            out.append("{\"Denied\":{\"rule\":");
            push_json_string(out, rule.as_str());
            out.append(",\"reason\":");
            push_json_string(out, reason.as_str());
            out.append("}}");
        },
        ActionOutcome::DiscoveryEvent { event_json } => {
            out.append("{\"DiscoveryEvent\":{\"event_json\":");
            push_json_string(out, event_json.as_str());
            out.append("}}");
        },
    }
    assert(out@ =~= old(out)@ + outcome_json(o@));
}

impl ActionLogRecord {
    /// A copy of the record.
    pub fn duplicate(&self) -> (r: ActionLogRecord)
        ensures
            r@ == self@,
    {
        ActionLogRecord {
            record_id: self.record_id,
            agent_did: self.agent_did.clone(),
            action: self.action.clone(),
            resource_category: self.resource_category,
            timestamp: self.timestamp,
            outcome: self.outcome.duplicate(),
            prev_hash: self.prev_hash.clone(),
        }
    }

    /// The canonical JSON text of the record (every field but the
    /// previous hash).
    pub fn canonical_text(&self) -> (r: String)
        requires
            self.timestamp.valid(),
        ensures
            r@ == record_json(self@),
    {
        let mut out = owned("{\"record_id\":");
        let id = uuid_to_text(self.record_id);
        push_json_string(&mut out, id.as_str());
        out.append(",\"agent_did\":");
        push_json_string(&mut out, self.agent_did.as_str());
        out.append(",\"action\":");
        push_json_string(&mut out, self.action.as_str());
        out.append(",\"resource_category\":");
        let cat = self.resource_category.name();
        push_json_string(&mut out, cat.as_str());
        out.append(",\"timestamp\":");
        let ts = rfc3339_text(&self.timestamp);
        push_json_string(&mut out, ts.as_str());
        out.append(",\"outcome\":");
        push_outcome_json(&mut out, &self.outcome);
        out.append("}");
        assert(out@ =~= record_json(self@));
        out
    }

    /// The canonical bytes of the record, which its hash covers.
    pub fn canonical_bytes(&self) -> (r: Vec<u8>)
        requires
            self.timestamp.valid(),
        ensures
            r@ == record_bytes(self@),
    {
        let text = self.canonical_text();
        text.as_str().as_bytes_vec()
    }

    /// The hash of the record: hex text of SHA-256 of its canonical
    /// bytes, 64 lower-case hex digits.
    pub fn compute_hash(&self) -> (r: String)
        requires
            self.timestamp.valid(),
        ensures
            r@ == record_hash(self@),
            r@.len() == 64,
    {
        let bytes = self.canonical_bytes();
        let digest = sha256_digest(bytes.as_slice());
        hex_encode(digest.as_slice())
    }
}

/// The hash of a record does not depend on its previous-hash field.
pub proof fn lemma_hash_ignores_prev_hash(a: ActionLogRecordView, b: ActionLogRecordView)
    requires
        a.record_id == b.record_id,
        a.agent_did == b.agent_did,
        a.action == b.action,
        a.resource_category == b.resource_category,
        a.timestamp == b.timestamp,
        a.outcome == b.outcome,
    ensures
        record_hash(a) == record_hash(b),
{
}

} // verus!
