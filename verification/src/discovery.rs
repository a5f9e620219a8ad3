//! Discovery of agents seen on the mesh, and detection of shadow agents:
//! agents that reported their presence but were never registered.
use vstd::prelude::*;
use crate::clock::{utc_now, Timestamp};
use crate::identity::{did_text, AgentDID, AgentDIDView};
use crate::strmap::StrMap;

verus! {

/// An agent seen on the mesh.
#[derive(Debug)]
pub struct DiscoveredAgent {
    pub did: AgentDID,
    pub name: String,
    pub first_seen: Timestamp,
    pub last_seen: Timestamp,
    pub transport_address: String,
    pub is_registered: bool,
}

pub ghost struct DiscoveredAgentView {
    pub did: AgentDIDView,
    pub name: Seq<char>,
    pub first_seen: Timestamp,
    pub last_seen: Timestamp,
    pub transport_address: Seq<char>,
    pub is_registered: bool,
}

impl View for DiscoveredAgent {
    type V = DiscoveredAgentView;

    open spec fn view(&self) -> DiscoveredAgentView {
        DiscoveredAgentView {
            did: self.did@,
            name: self.name@,
            first_seen: self.first_seen,
            last_seen: self.last_seen,
            transport_address: self.transport_address@,
            is_registered: self.is_registered,
        }
    }
}

impl DiscoveredAgent {
    /// A copy of the record.
    pub fn duplicate(&self) -> (r: DiscoveredAgent)
        ensures
            r@ == self@,
    {
        DiscoveredAgent {
            did: self.did.duplicate(),
            name: self.name.clone(),
            first_seen: self.first_seen,
            last_seen: self.last_seen,
            transport_address: self.transport_address.clone(),
            is_registered: self.is_registered,
        }
    }
}

/// The views of a sequence of agents.
pub open spec fn agents_view(s: Seq<DiscoveredAgent>) -> Seq<DiscoveredAgentView> {
    s.map_values(|a: DiscoveredAgent| a@)
}

/// Not registered: a shadow agent.
pub open spec fn is_shadow(a: DiscoveredAgentView) -> bool {
    !a.is_registered
}

/// `a` is the record of some seen agent, and that agent is a shadow.
pub open spec fn is_seen_shadow(m: Map<Seq<char>, DiscoveredAgentView>, a: DiscoveredAgentView) -> bool {
    exists|k: Seq<char>| #[trigger] m.contains_key(k) && m[k] == a && is_shadow(a)
}

/// The shadow agents among `agents`, in their order.
pub open spec fn shadows_of(agents: Seq<DiscoveredAgentView>) -> Seq<DiscoveredAgentView> {
    agents.filter(|a: DiscoveredAgentView| is_shadow(a))
}

/// The record of an agent after it reported its presence at `now` from
/// `address`: a first report makes a new unregistered record; a later one
/// updates when it was last seen and its address.
pub open spec fn after_presence(
    known: Option<DiscoveredAgentView>,
    did: AgentDIDView,
    name: Seq<char>,
    address: Seq<char>,
    now: Timestamp,
) -> DiscoveredAgentView {
    match known {
        Some(a) => DiscoveredAgentView { last_seen: now, transport_address: address, ..a },
        None => DiscoveredAgentView {
            did,
            name,
            first_seen: now,
            last_seen: now,
            transport_address: address,
            is_registered: false,
        },
    }
}

/// `after` (by DID text) and `after_order` (in order of first sight) are
/// what `before` and `before_order` become when an agent reports its
/// presence at `now`: its record is set as `after_presence` gives it, a
/// new agent goes last, and a known one keeps its place.
pub open spec fn presence_recorded(
    before: Map<Seq<char>, DiscoveredAgentView>,
    before_order: Seq<DiscoveredAgentView>,
    after: Map<Seq<char>, DiscoveredAgentView>,
    after_order: Seq<DiscoveredAgentView>,
    did: AgentDIDView,
    name: Seq<char>,
    address: Seq<char>,
    now: Timestamp,
) -> bool {
    let k = did_text(did);
    let known = if before.contains_key(k) {
        Some(before[k])
    } else {
        None
    };
    let rec = after_presence(known, did, name, address, now);
    &&& after == before.insert(k, rec)
    &&& !before.contains_key(k) ==> after_order == before_order.push(rec)
    &&& before.contains_key(k) ==> exists|j: int|
        0 <= j < before_order.len() && before_order[j] == before[k] && after_order
            == before_order.update(j, rec)
}

/// Agents seen on the mesh, by DID text.
pub struct DiscoveryManager {
    agents: StrMap<DiscoveredAgent>,
}

impl View for DiscoveryManager {
    type V = Map<Seq<char>, DiscoveredAgentView>;

    closed spec fn view(&self) -> Map<Seq<char>, DiscoveredAgentView> {
        self.agents@.map_values(|a: DiscoveredAgent| a@)
    }
}

impl DiscoveryManager {
    /// Each agent is kept under the text of its own DID.
    #[verifier::type_invariant]
    closed spec fn keyed_by_did(self) -> bool {
        forall|i: int|
            0 <= i < self.agents.pairs().len() ==> did_text((#[trigger] self.agents.pairs()[i]).1.did@)
                == self.agents.pairs()[i].0@
    }

    /// The agents in the order they were first seen.
    pub closed spec fn ordered(&self) -> Seq<DiscoveredAgentView> {
        self.agents.pairs().map_values(|p: (String, DiscoveredAgent)| p.1@)
    }

    /// No agent seen yet.
    pub fn new() -> (r: DiscoveryManager)
        ensures
            r@ == Map::<Seq<char>, DiscoveredAgentView>::empty(),
            r.ordered().len() == 0,
    {
        let r = DiscoveryManager { agents: StrMap::new() };
        assert(r@ =~= Map::<Seq<char>, DiscoveredAgentView>::empty());
        assert(r.ordered() =~= Seq::<DiscoveredAgentView>::empty());
        r
    }

    /// Records that an agent reported its presence at `now`.
    pub fn report_presence_at(&mut self, did: AgentDID, name: String, address: String, now: Timestamp)
        ensures
            presence_recorded(
                old(self)@,
                old(self).ordered(),
                final(self)@,
                final(self).ordered(),
                did@,
                name@,
                address@,
                now,
            ),
    {
        proof {
            use_type_invariant(&*self);
        }
        let key = did.to_did_string();
        let ghost k = key@;
        let ghost dv = did@;
        let ghost nv = name@;
        let ghost av = address@;
        let updated = match self.agents.get(key.as_str()) {
            Some(a) => {
                let mut b = a.duplicate();
                b.last_seen = now;
                b.transport_address = address;
                b
            },
            None => DiscoveredAgent {
                did,
                name,
                first_seen: now,
                last_seen: now,
                transport_address: address,
                is_registered: false,
            },
        };
        let ghost uv = updated@;
        let ghost old_pairs = self.agents.pairs();
        let ghost key_v = key;
        let mut agents = StrMap::new();
        std::mem::swap(&mut agents, &mut self.agents);
        agents.insert(key, updated);
        proof {
            assert(uv == after_presence(
                if old(self)@.contains_key(k) {
                    Some(old(self)@[k])
                } else {
                    None
                },
                dv,
                nv,
                av,
                now,
            ));
            old(self).agents.lemma_view_of_pairs();
            let new_pairs = agents.pairs();
            let oo = old(self).ordered();
            let no = new_pairs.map_values(|p: (String, DiscoveredAgent)| p.1@);
            if old(self)@.contains_key(k) {
                assert(old(self).agents@.contains_key(k));
                assert(crate::strmap::has_key(old_pairs, k));
                let j = crate::strmap::key_index(old_pairs, k);
                crate::strmap::lemma_entry_in_map(old_pairs, j);
                assert(did_text(old_pairs[j].1.did@) == old_pairs[j].0@);
                assert(did_text(uv.did) == k);
                assert forall|i: int| 0 <= i < new_pairs.len() implies did_text(
                    (#[trigger] new_pairs[i]).1.did@,
                ) == new_pairs[i].0@ by {
                    if i == j {
                        assert(new_pairs[i] == (key_v, updated));
                    } else {
                        assert(new_pairs[i] == old_pairs[i]);
                    }
                }
                assert(oo[j] == old(self)@[k]);
                assert(no =~= oo.update(j, uv));
            } else {
                assert(did_text(uv.did) == k);
                assert forall|i: int| 0 <= i < new_pairs.len() implies did_text(
                    (#[trigger] new_pairs[i]).1.did@,
                ) == new_pairs[i].0@ by {
                    if i == old_pairs.len() {
                        assert(new_pairs[i] == (key_v, updated));
                    } else {
                        assert(new_pairs[i] == old_pairs[i]);
                    }
                }
                assert(no =~= oo.push(uv));
            }
        }
        self.agents = agents;
        proof {
            assert(self@ =~= old(self)@.insert(k, uv));
        }
    }

    /// Records that an agent reported its presence now.
    pub fn report_presence(&mut self, did: AgentDID, name: String, address: String)
        ensures
            exists|now: Timestamp|
                now.valid() && presence_recorded(
                    old(self)@,
                    old(self).ordered(),
                    final(self)@,
                    final(self).ordered(),
                    did@,
                    name@,
                    address@,
                    now,
                ),
    {
        let now = utc_now();
        self.report_presence_at(did, name, address, now);
    }

    /// Marks a seen agent as registered, in its place; an agent not seen
    /// is left alone.
    pub fn register_agent(&mut self, did: &str)
        ensures
            old(self)@.contains_key(did@) ==> final(self)@ == old(self)@.insert(
                did@,
                DiscoveredAgentView { is_registered: true, ..old(self)@[did@] },
            ) && exists|j: int|
                0 <= j < old(self).ordered().len() && old(self).ordered()[j] == old(self)@[did@]
                    && final(self).ordered() == old(self).ordered().update(
                    j,
                    DiscoveredAgentView { is_registered: true, ..old(self)@[did@] },
                ),
            !old(self)@.contains_key(did@) ==> final(self)@ == old(self)@ && final(self).ordered()
                == old(self).ordered(),
    {
        proof {
            use_type_invariant(&*self);
        }
        let updated = match self.agents.get(did) {
            Some(a) => {
                let mut b = a.duplicate();
                b.is_registered = true;
                b
            },
            None => {
                return;
            },
        };
        let ghost uv = updated@;
        let ghost old_pairs = self.agents.pairs();
        let key = crate::text::owned(did);
        let ghost key_v = key;
        let mut agents = StrMap::new();
        std::mem::swap(&mut agents, &mut self.agents);
        agents.insert(key, updated);
        proof {
            let k = did@;
            old(self).agents.lemma_view_of_pairs();
            assert(crate::strmap::has_key(old_pairs, k));
            let j = crate::strmap::key_index(old_pairs, k);
            crate::strmap::lemma_entry_in_map(old_pairs, j);
            let new_pairs = agents.pairs();
            assert forall|i: int| 0 <= i < new_pairs.len() implies did_text(
                (#[trigger] new_pairs[i]).1.did@,
            ) == new_pairs[i].0@ by {
                if i == j {
                    assert(new_pairs[i] == (key_v, updated));
                } else {
                    assert(new_pairs[i] == old_pairs[i]);
                }
            }
            let oo = old(self).ordered();
            assert(oo[j] == old(self)@[k]);
            assert(new_pairs.map_values(|p: (String, DiscoveredAgent)| p.1@) =~= oo.update(j, uv));
        }
        self.agents = agents;
        assert(self@ =~= old(self)@.insert(did@, uv));
    }

    /// The agents that were seen but never registered, in the order they
    /// were first seen.
    pub fn detect_shadow_agents(&self) -> (r: Vec<DiscoveredAgent>)
        ensures
            agents_view(r@) == shadows_of(self.ordered()),
            forall|i: int| 0 <= i < r@.len() ==> is_seen_shadow(self@, #[trigger] r@[i]@),
            forall|k: Seq<char>|
                #[trigger] self@.contains_key(k) && is_shadow(self@[k]) ==> exists|i: int|
                    0 <= i < r@.len() && (#[trigger] r@[i])@ == self@[k],
            forall|i: int, j: int|
                0 <= i < j < r@.len() ==> did_text((#[trigger] r@[i])@.did) != did_text(
                    (#[trigger] r@[j])@.did,
                ),
    {
        proof {
            use_type_invariant(self);
        }
        let pairs = self.agents.as_pairs();
        proof {
            self.agents.lemma_view_of_pairs();
        }
        let ghost all = self.ordered();
        let mut out: Vec<DiscoveredAgent> = Vec::new();
        let ghost mut at: Seq<int> = Seq::empty();
        let mut i: usize = 0;
        while i < pairs.len()
            invariant
                i <= pairs@.len(),
                pairs@ == self.agents.pairs(),
                all == self.ordered(),
                all.len() == pairs@.len(),
                agents_view(out@) == shadows_of(all.take(i as int)),
                at.len() == out@.len(),
                forall|m: int|
                    0 <= m < at.len() ==> 0 <= #[trigger] at[m] < i && out@[m]@.did
                        == pairs@[at[m]].1.did@,
                forall|m1: int, m2: int| 0 <= m1 < m2 < at.len() ==> #[trigger] at[m1] < #[trigger] at[m2],
            decreases pairs@.len() - i,
        {
            let a = &pairs[i].1;
            assert(all.take(i + 1) =~= all.take(i as int).push(a@));
            proof {
                all.take(i as int).lemma_filter_push(a@, |a: DiscoveredAgentView| is_shadow(a));
            }
            if !a.is_registered {
                out.push(a.duplicate());
                proof {
                    at = at.push(i as int);
                }
                assert(agents_view(out@) =~= shadows_of(all.take(i as int)).push(a@));
            }
            i = i + 1;
        }
        assert(all.take(pairs@.len() as int) =~= all);
        proof {
            let pred = |a: DiscoveredAgentView| is_shadow(a);
            assert forall|i: int| 0 <= i < out@.len() implies is_seen_shadow(self@, #[trigger] out@[i]@) by {
                assert(agents_view(out@)[i] == out@[i]@);
                all.lemma_filter_pred(pred, i);
                assert(all.filter(pred).contains(out@[i]@));
                all.lemma_filter_contains_rev(pred, out@[i]@);
                let j = choose|j: int| 0 <= j < all.len() && all[j] == out@[i]@;
                crate::strmap::lemma_entry_in_map(pairs@, j);
                let k = pairs@[j].0@;
                assert(self@.contains_key(k));
                assert(self@[k] == all[j]);
            }
            assert forall|k: Seq<char>| #[trigger]
                self@.contains_key(k) && is_shadow(self@[k]) implies exists|i: int|
                0 <= i < out@.len() && (#[trigger] out@[i])@ == self@[k] by {
                assert(crate::strmap::has_key(pairs@, k));
                let j = crate::strmap::key_index(pairs@, k);
                crate::strmap::lemma_entry_in_map(pairs@, j);
                assert(all[j] == self@[k]);
                all.lemma_filter_contains(pred, j);
                let i = choose|i: int| 0 <= i < all.filter(pred).len() && all.filter(pred)[i] == all[j];
                assert(agents_view(out@)[i] == out@[i]@);
            }
            assert forall|m1: int, m2: int| 0 <= m1 < m2 < out@.len() implies did_text(
                (#[trigger] out@[m1])@.did,
            ) != did_text((#[trigger] out@[m2])@.did) by {
                let p1 = at[m1];
                let p2 = at[m2];
                assert(p1 < p2);
                assert(did_text(pairs@[p1].1.did@) == pairs@[p1].0@);
                assert(did_text(pairs@[p2].1.did@) == pairs@[p2].0@);
            }
        }
        out
    }
}

/// A report from an agent already seen changes only when it was last
/// seen and its address: its DID, name, first sighting and registration
/// stay as they were.
pub proof fn lemma_repeat_report_keeps_record(
    a: DiscoveredAgentView,
    did: AgentDIDView,
    name: Seq<char>,
    address: Seq<char>,
    now: Timestamp,
)
    ensures
        after_presence(Some(a), did, name, address, now).is_registered == a.is_registered,
        after_presence(Some(a), did, name, address, now).did == a.did,
        after_presence(Some(a), did, name, address, now).name == a.name,
        after_presence(Some(a), did, name, address, now).first_seen == a.first_seen,
        after_presence(Some(a), did, name, address, now).last_seen == now,
        after_presence(Some(a), did, name, address, now).transport_address == address,
{
}

/// A first report makes an unregistered record of what was reported,
/// first and last seen at the report.
pub proof fn lemma_first_report_is_shadow(
    did: AgentDIDView,
    name: Seq<char>,
    address: Seq<char>,
    now: Timestamp,
)
    ensures
        !after_presence(None, did, name, address, now).is_registered,
        after_presence(None, did, name, address, now).did == did,
        after_presence(None, did, name, address, now).name == name,
        after_presence(None, did, name, address, now).first_seen == now,
        after_presence(None, did, name, address, now).last_seen == now,
        after_presence(None, did, name, address, now).transport_address == address,
{
}

/// A registered agent stays registered, and so is no shadow, when it
/// reports its presence again; the other agents' records are unchanged.
pub proof fn lemma_registered_agent_stays_registered(
    before: Map<Seq<char>, DiscoveredAgentView>,
    before_order: Seq<DiscoveredAgentView>,
    after: Map<Seq<char>, DiscoveredAgentView>,
    after_order: Seq<DiscoveredAgentView>,
    did: AgentDIDView,
    name: Seq<char>,
    address: Seq<char>,
    now: Timestamp,
    other: Seq<char>,
)
    requires
        presence_recorded(before, before_order, after, after_order, did, name, address, now),
        before.contains_key(did_text(did)),
        before[did_text(did)].is_registered,
        other != did_text(did),
    ensures
        after.contains_key(did_text(did)),
        after[did_text(did)].is_registered,
        !is_shadow(after[did_text(did)]),
        after.get(other) == before.get(other),
{
}

/// The shadow report holds exactly the unregistered agents: none that is
/// registered, and every agent that is not.
pub proof fn lemma_shadow_report_exact(agents: Seq<DiscoveredAgentView>)
    ensures
        forall|i: int|
            0 <= i < shadows_of(agents).len() ==> !(#[trigger] shadows_of(agents)[i]).is_registered,
        forall|i: int|
            0 <= i < agents.len() && !agents[i].is_registered ==> #[trigger] shadows_of(
                agents,
            ).contains(agents[i]),
        forall|a: DiscoveredAgentView| #[trigger] shadows_of(agents).contains(a) ==> agents.contains(a),
{
    let pred = |a: DiscoveredAgentView| is_shadow(a);
    assert forall|i: int| 0 <= i < shadows_of(agents).len() implies !(#[trigger] shadows_of(
        agents,
    )[i]).is_registered by {
        agents.lemma_filter_pred(pred, i);
    }
    assert forall|i: int| 0 <= i < agents.len() && !agents[i].is_registered implies #[trigger] shadows_of(
        agents,
    ).contains(agents[i]) by {
        agents.lemma_filter_contains(pred, i);
    }
    assert forall|a: DiscoveredAgentView| #[trigger] shadows_of(agents).contains(a) implies agents.contains(a) by {
        agents.lemma_filter_contains_rev(pred, a);
    }
}

/// Once a seen agent is registered its record is no longer a shadow, and
/// the records of the other agents are unchanged.
pub proof fn lemma_registered_agent_not_shadow(
    m: Map<Seq<char>, DiscoveredAgentView>,
    did: Seq<char>,
    other: Seq<char>,
)
    requires
        m.contains_key(did),
        other != did,
    ensures
        !is_shadow(m.insert(did, DiscoveredAgentView { is_registered: true, ..m[did] })[did]),
        m.insert(did, DiscoveredAgentView { is_registered: true, ..m[did] }).get(other) == m.get(
            other,
        ),
{
}

/// A manager that has seen exactly one agent, not registered, reports
/// exactly that agent as a shadow.
pub proof fn lemma_single_unregistered_is_sole_shadow(agents: Seq<DiscoveredAgentView>)
    requires
        agents.len() == 1,
        !agents[0].is_registered,
    ensures
        shadows_of(agents) == agents,
{
    let pred = |a: DiscoveredAgentView| is_shadow(a);
    let e = Seq::<DiscoveredAgentView>::empty();
    assert(e.filter(pred) =~= e) by {
        reveal(Seq::filter);
    }
    e.lemma_filter_push(agents[0], pred);
    assert(e.push(agents[0]) =~= agents);
}

} // verus!
