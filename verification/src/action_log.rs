//! The tamper-evident action log: each record carries the hash of the
//! record before it (the first carries `genesis`), so that altering or
//! removing a record breaks the chain where it stood.
use vstd::prelude::*;
use crate::audit::{record_hash, ActionLogRecord, ActionLogRecordView, ActionOutcomeView};
use crate::clock::Timestamp;
use crate::compliance::{ActionRecord, ActionRecordView};
use crate::text::{owned, str_eq};

verus! {

/// The previous-hash value of the first record of a log.
pub open spec fn genesis() -> Seq<char> {
    "genesis"@
}

/// The previous hash that the record at position `i` must carry in a log
/// whose first record follows `start`.
pub open spec fn expected_prev(start: Seq<char>, s: Seq<ActionLogRecordView>, i: int) -> Seq<char> {
    if i == 0 {
        start
    } else {
        record_hash(s[i - 1])
    }
}

/// Every record carries the hash of the one before it (`start` for the
/// first).
pub open spec fn chain_linked(start: Seq<char>, s: Seq<ActionLogRecordView>) -> bool {
    forall|i: int| 0 <= i < s.len() ==> (#[trigger] s[i]).prev_hash == expected_prev(start, s, i)
}

/// The hash that the next record must carry.
pub open spec fn chain_tip(start: Seq<char>, s: Seq<ActionLogRecordView>) -> Seq<char> {
    if s.len() == 0 {
        start
    } else {
        record_hash(s.last())
    }
}

/// A break in the hash chain.
#[derive(Debug)]
pub struct ChainViolation {
    pub index: usize,
    pub record_id: u128,
    pub expected_prev_hash: String,
    pub actual_prev_hash: String,
}

pub ghost struct ChainViolationView {
    pub index: int,
    pub record_id: u128,
    pub expected_prev_hash: Seq<char>,
    pub actual_prev_hash: Seq<char>,
}

impl View for ChainViolation {
    type V = ChainViolationView;

    open spec fn view(&self) -> ChainViolationView {
        ChainViolationView {
            index: self.index as int,
            record_id: self.record_id,
            expected_prev_hash: self.expected_prev_hash@,
            actual_prev_hash: self.actual_prev_hash@,
        }
    }
}

/// The breaks of a chain that starts at `genesis`, in order: one for each
/// record whose previous hash is not the hash of the record before it.
pub open spec fn chain_violations(s: Seq<ActionLogRecordView>) -> Seq<ChainViolationView>
    decreases s.len(),
{
    if s.len() == 0 {
        Seq::empty()
    } else {
        let i = s.len() - 1;
        let e = expected_prev(genesis(), s, i);
        chain_violations(s.drop_last()) + if s[i].prev_hash != e {
            seq![
                ChainViolationView {
                    index: i,
                    record_id: s[i].record_id,
                    expected_prev_hash: e,
                    actual_prev_hash: s[i].prev_hash,
                },
            ]
        } else {
            Seq::empty()
        }
    }
}

/// All instants of the records are representable.
pub open spec fn times_valid(s: Seq<ActionLogRecordView>) -> bool {
    forall|i: int| 0 <= i < s.len() ==> (#[trigger] s[i]).timestamp.valid()
}

/// The view of a vector of records.
pub open spec fn records_view(v: Seq<ActionLogRecord>) -> Seq<ActionLogRecordView> {
    v.map_values(|r: ActionLogRecord| r@)
}

/// The history that compliance rules see for an agent: its permitted
/// actions, in log order.
pub open spec fn history_of(s: Seq<ActionLogRecordView>, agent_did: Seq<char>) -> Seq<ActionRecordView>
    decreases s.len(),
{
    if s.len() == 0 {
        Seq::empty()
    } else {
        let r = s.last();
        history_of(s.drop_last(), agent_did) + if r.agent_did == agent_did && r.outcome
            == ActionOutcomeView::Permitted {
            seq![
                ActionRecordView {
                    action: r.action,
                    timestamp: r.timestamp,
                    resource_category: r.resource_category,
                },
            ]
        } else {
            Seq::empty()
        }
    }
}

/// The records at or after `since`, in log order.
pub open spec fn records_since(s: Seq<ActionLogRecordView>, since: Timestamp) -> Seq<ActionLogRecordView>
    decreases s.len(),
{
    if s.len() == 0 {
        Seq::empty()
    } else {
        records_since(s.drop_last(), since) + if !s.last().timestamp.before(since) {
            seq![s.last()]
        } else {
            Seq::empty()
        }
    }
}

/// Whether every record's instant is a representable date-time.
pub fn records_times_valid(records: &Vec<ActionLogRecord>) -> (r: bool)
    ensures
        r == times_valid(records_view(records@)),
{
    let mut i: usize = 0;
    while i < records.len()
        invariant
            i <= records@.len(),
            forall|j: int| 0 <= j < i ==> (#[trigger] records@[j]).timestamp.valid(),
        decreases records@.len() - i,
    {
        if !records[i].timestamp.is_valid() {
            assert(records_view(records@)[i as int] == records@[i as int]@);
            return false;
        }
        i = i + 1;
    }
    proof {
        assert forall|j: int| 0 <= j < records_view(records@).len() implies (
        #[trigger] records_view(records@)[j]).timestamp.valid() by {
            assert(records_view(records@)[j] == records@[j]@);
        }
    }
    true
}

/// The chain state of an action log: the hash the next record must carry,
/// and the records appended through this handle.
pub struct FileActionLog {
    start_hash: String,
    last_hash: String,
    appended: Vec<ActionLogRecord>,
}

impl FileActionLog {
    /// The appended records are linked from the start hash, their instants
    /// are representable, and the tip is the hash of the last of them.
    #[verifier::type_invariant]
    pub closed spec fn wf(self) -> bool {
        &&& chain_linked(self.start_hash@, records_view(self.appended@))
        &&& times_valid(records_view(self.appended@))
        &&& self.last_hash@ == chain_tip(self.start_hash@, records_view(self.appended@))
    }

    /// The hash the chain continued from when this handle was opened.
    pub closed spec fn start(self) -> Seq<char> {
        self.start_hash@
    }

    /// The records appended through this handle, in order.
    pub closed spec fn records(self) -> Seq<ActionLogRecordView> {
        records_view(self.appended@)
    }

    /// The hash the next record must carry.
    pub closed spec fn tip(self) -> Seq<char> {
        self.last_hash@
    }

    /// The appended records form a chain from the start hash, and the tip
    /// is the hash of the last of them (the start hash when there is none).
    pub fn check_linked(&self)
        ensures
            self.wf(),
            chain_linked(self.start(), self.records()),
            times_valid(self.records()),
            self.tip() == chain_tip(self.start(), self.records()),
            self.start() == genesis() ==> chain_violations(self.records()) == Seq::<
                ChainViolationView,
            >::empty(),
    {
        proof {
            use_type_invariant(self);
            if self.start() == genesis() {
                lemma_linked_chain_has_no_violations(self.records());
            }
        }
    }

    /// A new, empty log: the first record will carry `genesis`.
    pub fn new() -> (r: FileActionLog)
        ensures
            r.wf(),
            r.start() == genesis(),
            r.tip() == genesis(),
            r.records().len() == 0,
    {
        let r = FileActionLog {
            start_hash: owned("genesis"),
            last_hash: owned("genesis"),
            appended: Vec::new(),
        };
        assert(records_view(r.appended@) =~= Seq::<ActionLogRecordView>::empty());
        r
    }

    /// A log that continues from the last hash of a saved checkpoint, or
    /// from `genesis` when there is no usable checkpoint.
    pub fn resume(checkpoint_last_hash: Option<String>) -> (r: FileActionLog)
        ensures
            r.wf(),
            r.start() == match checkpoint_last_hash {
                Some(h) => h@,
                None => genesis(),
            },
            r.tip() == r.start(),
            r.records().len() == 0,
    {
        let h = match checkpoint_last_hash {
            Some(h) => h,
            None => owned("genesis"),
        };
        let r = FileActionLog { start_hash: h.clone(), last_hash: h, appended: Vec::new() };
        assert(records_view(r.appended@) =~= Seq::<ActionLogRecordView>::empty());
        r
    }

    /// Forgets the records kept in memory once they are written out: the
    /// log goes on from its current tip as if resumed there.
    pub fn release_records(&mut self)
        ensures
            final(self).wf(),
            final(self).start() == old(self).tip(),
            final(self).tip() == old(self).tip(),
            final(self).records().len() == 0,
    {
        proof {
            use_type_invariant(&*self);
        }
        let tip = self.last_hash.clone();
        *self = FileActionLog::resume(Some(tip));
    }

    /// The hash the next record must carry.
    pub fn last_hash(&self) -> (r: String)
        ensures
            r@ == self.tip(),
    {
        self.last_hash.clone()
    }

    /// The records appended through this handle.
    pub fn appended(&self) -> (r: &Vec<ActionLogRecord>)
        ensures
            records_view(r@) == self.records(),
    {
        &self.appended
    }

    /// The record as the next append would write it: stamped with the
    /// current tip as its previous hash. The log is not changed, so the
    /// record can be written out before it is appended.
    pub fn stamp(&self, record: ActionLogRecord) -> (r: ActionLogRecord)
        ensures
            r@ == (ActionLogRecordView { prev_hash: self.tip(), ..record@ }),
    {
        let mut record = record;
        record.prev_hash = self.last_hash.clone();
        record
    }

    /// Appends a record: it is stamped with the current tip as its previous
    /// hash, its hash becomes the new tip, and the stamped record (to be
    /// written out) is returned.
    pub fn append(&mut self, record: ActionLogRecord) -> (r: ActionLogRecord)
        requires
            record.timestamp.valid(),
        ensures
            final(self).wf(),
            r@ == (ActionLogRecordView { prev_hash: old(self).tip(), ..record@ }),
            final(self).records() == old(self).records().push(r@),
            final(self).tip() == record_hash(r@),
            final(self).start() == old(self).start(),
    {
        proof {
            use_type_invariant(&*self);
        }
        let mut current = FileActionLog::new();
        std::mem::swap(&mut current, self);
        proof {
            use_type_invariant(&current);
        }
        let FileActionLog { start_hash, last_hash, mut appended } = current;
        let mut record = record;
        record.prev_hash = last_hash;
        let h = record.compute_hash();
        let out = record.duplicate();
        let ghost old_records = records_view(appended@);
        appended.push(record);
        proof {
            assert(records_view(appended@) =~= old_records.push(out@));
            lemma_push_linked(start_hash@, old_records, out@);
        }
        *self = FileActionLog { start_hash, last_hash: h, appended };
        out
    }

    /// The breaks in a chain of records read back from a log, which starts
    /// at `genesis`.
    pub fn verify_chain(records: &Vec<ActionLogRecord>) -> (r: Vec<ChainViolation>)
        requires
            times_valid(records_view(records@)),
        ensures
            r@.map_values(|v: ChainViolation| v@) == chain_violations(records_view(records@)),
    {
        let mut out: Vec<ChainViolation> = Vec::new();
        let mut expected = owned("genesis");
        let mut i: usize = 0;
        while i < records.len()
            invariant
                i <= records@.len(),
                times_valid(records_view(records@)),
                expected@ == expected_prev(genesis(), records_view(records@), i as int),
                out@.map_values(|v: ChainViolation| v@) == chain_violations(
                    records_view(records@).take(i as int),
                ),
            decreases records@.len() - i,
        {
            let rec = &records[i];
            let ghost s = records_view(records@);
            let ghost t = s.take(i + 1);
            proof {
                assert(t.drop_last() =~= s.take(i as int));
                assert(t[i as int] == rec@);
                assert(expected_prev(genesis(), t, i as int) == expected_prev(genesis(), s, i as int));
            }
            let ghost before = out@;
            if !str_eq(rec.prev_hash.as_str(), expected.as_str()) {
                out.push(
                    ChainViolation {
                        index: i,
                        record_id: rec.record_id,
                        expected_prev_hash: expected.clone(),
                        actual_prev_hash: rec.prev_hash.clone(),
                    },
                );
            }
            proof {
                assert(out@.map_values(|v: ChainViolation| v@) =~= chain_violations(t));
            }
            assert(rec@.timestamp.valid()) by {
                assert(s[i as int] == rec@);
            }
            expected = rec.compute_hash();
            i = i + 1;
        }
        assert(records_view(records@).take(records@.len() as int) =~= records_view(records@));
        out
    }

    /// The permitted actions of an agent, in log order, as compliance
    /// history.
    pub fn load_history(records: &Vec<ActionLogRecord>, agent_did: &str) -> (r: Vec<ActionRecord>)
        ensures
            r@.map_values(|a: ActionRecord| a@) == history_of(records_view(records@), agent_did@),
    {
        let mut out: Vec<ActionRecord> = Vec::new();
        let mut i: usize = 0;
        while i < records.len()
            invariant
                i <= records@.len(),
                out@.map_values(|a: ActionRecord| a@) == history_of(
                    records_view(records@).take(i as int),
                    agent_did@,
                ),
            decreases records@.len() - i,
        {
            let rec = &records[i];
            let ghost t = records_view(records@).take(i + 1);
            proof {
                assert(t.drop_last() =~= records_view(records@).take(i as int));
                assert(t.last() == rec@);
            }
            if str_eq(rec.agent_did.as_str(), agent_did) && rec.outcome.is_permitted() {
                out.push(
                    ActionRecord {
                        action: rec.action.clone(),
                        timestamp: rec.timestamp,
                        resource_category: rec.resource_category,
                    },
                );
            }
            assert(out@.map_values(|a: ActionRecord| a@) =~= history_of(t, agent_did@));
            i = i + 1;
        }
        assert(records_view(records@).take(records@.len() as int) =~= records_view(records@));
        out
    }

    /// The records at or after `since`, in log order.
    pub fn replay_since(records: &Vec<ActionLogRecord>, since: Timestamp) -> (r: Vec<ActionLogRecord>)
        ensures
            records_view(r@) == records_since(records_view(records@), since),
    {
        let mut out: Vec<ActionLogRecord> = Vec::new();
        let mut i: usize = 0;
        while i < records.len()
            invariant
                i <= records@.len(),
                records_view(out@) == records_since(records_view(records@).take(i as int), since),
            decreases records@.len() - i,
        {
            let rec = &records[i];
            let ghost t = records_view(records@).take(i + 1);
            proof {
                assert(t.drop_last() =~= records_view(records@).take(i as int));
                assert(t.last() == rec@);
            }
            if !rec.timestamp.is_before(&since) {
                out.push(rec.duplicate());
            }
            assert(records_view(out@) =~= records_since(t, since));
            i = i + 1;
        }
        assert(records_view(records@).take(records@.len() as int) =~= records_view(records@));
        out
    }
}

/// Appending a record that carries the tip keeps a chain linked and makes
/// the record's hash the new tip.
proof fn lemma_push_linked(start: Seq<char>, s: Seq<ActionLogRecordView>, r: ActionLogRecordView)
    requires
        chain_linked(start, s),
        times_valid(s),
        r.prev_hash == chain_tip(start, s),
        r.timestamp.valid(),
    ensures
        chain_linked(start, s.push(r)),
        times_valid(s.push(r)),
        chain_tip(start, s.push(r)) == record_hash(r),
{
    let t = s.push(r);
    assert forall|i: int| 0 <= i < t.len() implies (#[trigger] t[i]).prev_hash == expected_prev(
        start,
        t,
        i,
    ) by {
        if i < s.len() {
            assert(t[i] == s[i]);
            if i > 0 {
                assert(t[i - 1] == s[i - 1]);
            }
        } else if i > 0 {
            assert(t[i - 1] == s.last());
        }
    }
    assert forall|i: int| 0 <= i < t.len() implies (#[trigger] t[i]).timestamp.valid() by {
        if i < s.len() {
            assert(t[i] == s[i]);
        }
    }
}

/// The breaks reported for a chain from `genesis` are exactly its
/// records whose previous hash is not the one expected there (`genesis`
/// for the first record, the hash of the record before for the others),
/// in order, each once, with the expected and the carried hash.
pub proof fn lemma_violations_exact(s: Seq<ActionLogRecordView>)
    ensures
        forall|k: int|
            0 <= k < chain_violations(s).len() ==> {
                let v = #[trigger] chain_violations(s)[k];
                &&& 0 <= v.index < s.len()
                &&& s[v.index].prev_hash != expected_prev(genesis(), s, v.index)
                &&& v.expected_prev_hash == expected_prev(genesis(), s, v.index)
                &&& v.actual_prev_hash == s[v.index].prev_hash
                &&& v.record_id == s[v.index].record_id
            },
        forall|i: int|
            0 <= i < s.len() && (#[trigger] s[i]).prev_hash != expected_prev(genesis(), s, i)
                ==> exists|k: int|
                0 <= k < chain_violations(s).len() && (#[trigger] chain_violations(s)[k]).index == i,
        forall|k1: int, k2: int|
            0 <= k1 < k2 < chain_violations(s).len() ==> (#[trigger] chain_violations(s)[k1]).index
                < (#[trigger] chain_violations(s)[k2]).index,
    decreases s.len(),
{
    if s.len() > 0 {
        let t = s.drop_last();
        let n = s.len() - 1;
        lemma_violations_exact(t);
        assert forall|i: int| 0 <= i < t.len() implies expected_prev(genesis(), t, i)
            == expected_prev(genesis(), s, i) && #[trigger] t[i] == s[i] by {
            if i > 0 {
                assert(t[i - 1] == s[i - 1]);
            }
        }
        let vt = chain_violations(t);
        let vs = chain_violations(s);
        assert forall|k: int| 0 <= k < vt.len() implies (#[trigger] vt[k]).index < n by {}
        if s[n].prev_hash != expected_prev(genesis(), s, n) {
            assert(vs.len() == vt.len() + 1);
            assert(vs[vt.len() as int].index == n);
            assert forall|k: int| 0 <= k < vt.len() implies #[trigger] vs[k] == vt[k] by {}
        } else {
            assert(vs =~= vt);
        }
        assert forall|i: int|
            0 <= i < s.len() && (#[trigger] s[i]).prev_hash != expected_prev(genesis(), s, i)
            implies exists|k: int| 0 <= k < vs.len() && (#[trigger] vs[k]).index == i by {
            if i < n {
                assert(t[i] == s[i]);
                assert(t[i].prev_hash != expected_prev(genesis(), t, i));
                let k = choose|k: int| 0 <= k < vt.len() && (#[trigger] vt[k]).index == i;
                assert(vs[k] == vt[k]);
            } else {
                assert(vs[vt.len() as int].index == i);
            }
        }
        assert forall|k: int| 0 <= k < vs.len() implies {
            let v = #[trigger] vs[k];
            &&& 0 <= v.index < s.len()
            &&& s[v.index].prev_hash != expected_prev(genesis(), s, v.index)
            &&& v.expected_prev_hash == expected_prev(genesis(), s, v.index)
            &&& v.actual_prev_hash == s[v.index].prev_hash
            &&& v.record_id == s[v.index].record_id
        } by {
            if k < vt.len() {
                assert(vs[k] == vt[k]);
                assert(t[vt[k].index] == s[vt[k].index]);
            }
        }
        assert forall|k1: int, k2: int| 0 <= k1 < k2 < vs.len() implies (#[trigger] vs[k1]).index
            < (#[trigger] vs[k2]).index by {
            if k2 < vt.len() {
                assert(vs[k1] == vt[k1]);
                assert(vs[k2] == vt[k2]);
            } else {
                assert(vs[k1] == vt[k1]);
            }
        }
    }
}

/// A log with no reported break is linked from `genesis`: its first
/// record carries `genesis` and every other one the hash of the record
/// before it.
pub proof fn lemma_no_violations_means_linked(s: Seq<ActionLogRecordView>)
    requires
        chain_violations(s).len() == 0,
    ensures
        chain_linked(genesis(), s),
        s.len() > 0 ==> s[0].prev_hash == "genesis"@,
{
    lemma_violations_exact(s);
    assert forall|i: int| 0 <= i < s.len() implies (#[trigger] s[i]).prev_hash == expected_prev(
        genesis(),
        s,
        i,
    ) by {
        if s[i].prev_hash != expected_prev(genesis(), s, i) {
            let k = choose|k: int|
                0 <= k < chain_violations(s).len() && (#[trigger] chain_violations(s)[k]).index == i;
        }
    }
    if s.len() > 0 {
        assert(s[0].prev_hash == expected_prev(genesis(), s, 0));
    }
}

/// A log whose first record does not carry `genesis` has its first break
/// reported at index 0, expecting `genesis` and naming what it carries.
pub proof fn lemma_first_record_must_carry_genesis(s: Seq<ActionLogRecordView>)
    requires
        s.len() > 0,
        s[0].prev_hash != "genesis"@,
    ensures
        chain_violations(s).len() > 0,
        chain_violations(s)[0].index == 0,
        chain_violations(s)[0].expected_prev_hash == "genesis"@,
        chain_violations(s)[0].actual_prev_hash == s[0].prev_hash,
{
    lemma_violations_exact(s);
    assert(s[0].prev_hash != expected_prev(genesis(), s, 0));
    let k = choose|k: int| 0 <= k < chain_violations(s).len() && (#[trigger] chain_violations(s)[k]).index == 0;
    if k > 0 {
        assert(chain_violations(s)[0].index < chain_violations(s)[k].index);
    }
}

/// A chain whose every record carries the hash of the one before it, the
/// first carrying `genesis`, has no breaks.
pub proof fn lemma_linked_chain_has_no_violations(s: Seq<ActionLogRecordView>)
    requires
        chain_linked(genesis(), s),
    ensures
        chain_violations(s) == Seq::<ChainViolationView>::empty(),
    decreases s.len(),
{
    if s.len() > 0 {
        let t = s.drop_last();
        assert forall|i: int| 0 <= i < t.len() implies (#[trigger] t[i]).prev_hash == expected_prev(
            genesis(),
            t,
            i,
        ) by {
            assert(t[i] == s[i]);
            if i > 0 {
                assert(t[i - 1] == s[i - 1]);
            }
        }
        lemma_linked_chain_has_no_violations(t);
        assert(s[s.len() - 1].prev_hash == expected_prev(genesis(), s, s.len() - 1));
        assert(chain_violations(s) =~= Seq::<ChainViolationView>::empty());
    }
}

/// A log started at `genesis` and grown only by `append` verifies with no
/// breaks, whatever was appended.
pub proof fn lemma_appended_log_verifies(log: FileActionLog)
    requires
        log.wf(),
        log.start() == genesis(),
    ensures
        chain_violations(log.records()) == Seq::<ChainViolationView>::empty(),
{
    lemma_linked_chain_has_no_violations(log.records());
}

/// What `append` returns and keeps: the log stays well formed.
pub proof fn lemma_wf_is_linked(log: FileActionLog)
    requires
        log.wf(),
    ensures
        chain_linked(log.start(), log.records()),
        log.tip() == chain_tip(log.start(), log.records()),
{
}

} // verus!
