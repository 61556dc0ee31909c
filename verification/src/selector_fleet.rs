//! Decisions of the HTTP selector fleet.
//!
//! The production path delegates worker selection to a fleet of selection-service
//! replicas fronted by a Kubernetes `Service`. The fleet watches the Service's
//! EndpointSlices and keeps its set of replicas in sync as they come and go.
//!
//! Each replica owns its own catalog and KV index, so every live replica is
//! reconciled on its own ([`crate::replica_catalog`]), and new or restarted replicas
//! are bootstrapped before they receive any selection traffic. As replicas appear and
//! disappear the fleet also wires their replica-sync peer mesh ([`crate::peer_mesh`]).

use vstd::prelude::*;
use vstd::string::*;

use crate::epp_config::EppConfig;
use crate::text;
use crate::text::{contains_text, insert_text, same_text, to_decimal};

verus! {

// ---------------------------------------------------------------------------
// Live replicas
// ---------------------------------------------------------------------------

/// Conditions of an endpoint, as Kubernetes reports them.
#[derive(Debug, Clone, Copy, PartialEq, Eq)]
pub struct EndpointConditions {
    pub ready: Option<bool>,
    pub serving: Option<bool>,
    pub terminating: Option<bool>,
}

/// One endpoint of an EndpointSlice.
#[derive(Debug, Clone)]
pub struct Endpoint {
    pub addresses: Vec<String>,
    pub conditions: Option<EndpointConditions>,
}

/// The part of an EndpointSlice that discovery reads.
#[derive(Debug, Clone)]
pub struct EndpointSlice {
    pub endpoints: Vec<Endpoint>,
}

/// Whether an endpoint is known to be terminating.
pub open spec fn terminating(endpoint: Endpoint) -> bool {
    match endpoint.conditions {
        Some(conditions) => conditions.terminating == Some(true),
        None => false,
    }
}

/// Whether an endpoint offers an address: it is not terminating and lists it.
pub open spec fn endpoint_offers(endpoint: Endpoint, ip: Seq<char>) -> bool {
    !terminating(endpoint) && ip.len() > 0 && text::texts(endpoint.addresses@).contains(ip)
}

/// Whether an endpoint of the slice offers an address.
pub open spec fn slice_offers(slice: EndpointSlice, ip: Seq<char>) -> bool {
    exists|j: int|
        0 <= j < slice.endpoints@.len() && endpoint_offers(#[trigger] slice.endpoints@[j], ip)
}

/// The addresses that some slice offers.
pub open spec fn live(slices: Seq<EndpointSlice>) -> Set<Seq<char>> {
    Set::new(
        |ip: Seq<char>|
            exists|i: int| 0 <= i < slices.len() && slice_offers(#[trigger] slices[i], ip),
    )
}

fn add_endpoint(ips: &mut Vec<String>, endpoint: &Endpoint)
    requires
        text::is_ordered(text::texts(old(ips)@)),
    ensures
        text::is_ordered(text::texts(final(ips)@)),
        forall|ip: Seq<char>| #[trigger]
            text::texts(final(ips)@).to_set().contains(ip) <==> text::texts(
                old(ips)@,
            ).to_set().contains(ip) || endpoint_offers(*endpoint, ip),
{
    let is_terminating = match &endpoint.conditions {
        Some(conditions) => match conditions.terminating {
            Some(t) => t,
            None => false,
        },
        None => false,
    };
    if is_terminating {
        return ;
    }
    let ghost before = text::texts(ips@).to_set();
    let ghost offered = text::texts(endpoint.addresses@);
    let mut k: usize = 0;
    while k < endpoint.addresses.len()
        invariant
            k <= endpoint.addresses.len(),
            !terminating(*endpoint),
            offered == text::texts(endpoint.addresses@),
            text::is_ordered(text::texts(ips@)),
            forall|ip: Seq<char>| #[trigger]
                text::texts(ips@).to_set().contains(ip) <==> before.contains(ip) || (ip.len() > 0
                    && offered.take(k as int).contains(ip)),
        decreases endpoint.addresses.len() - k,
    {
        let ghost listed = text::texts(ips@).to_set();
        let ghost done = offered.take(k as int);
        let address = endpoint.addresses[k].as_str();
        if !address.is_empty() {
            insert_text(ips, address);
        }
        k = k + 1;
        proof {
            let last = offered.take(k as int);
            assert(last =~= done.push(address@));
            assert(last[k - 1] == address@);
            assert forall|ip: Seq<char>| #[trigger]
                text::texts(ips@).to_set().contains(ip) <==> before.contains(ip) || (ip.len() > 0
                    && last.contains(ip)) by {
                if done.contains(ip) {
                    let j = choose|j: int| 0 <= j < done.len() && done[j] == ip;
                    assert(last[j] == ip);
                }
                if last.contains(ip) && ip != address@ {
                    let j = choose|j: int| 0 <= j < last.len() && last[j] == ip;
                    assert(done[j] == ip);
                }
                assert(listed.contains(ip) <==> before.contains(ip) || (ip.len() > 0
                    && done.contains(ip)));
            }
        }
    }
    proof {
        assert(offered.take(offered.len() as int) =~= offered);
    }
}

fn add_slice(ips: &mut Vec<String>, slice: &EndpointSlice)
    requires
        text::is_ordered(text::texts(old(ips)@)),
    ensures
        text::is_ordered(text::texts(final(ips)@)),
        forall|ip: Seq<char>| #[trigger]
            text::texts(final(ips)@).to_set().contains(ip) <==> text::texts(
                old(ips)@,
            ).to_set().contains(ip) || slice_offers(*slice, ip),
{
    let ghost before = text::texts(ips@).to_set();
    let mut j: usize = 0;
    while j < slice.endpoints.len()
        invariant
            j <= slice.endpoints.len(),
            text::is_ordered(text::texts(ips@)),
            forall|ip: Seq<char>| #[trigger]
                text::texts(ips@).to_set().contains(ip) <==> before.contains(ip) || exists|i: int|
                    0 <= i < j && endpoint_offers(#[trigger] slice.endpoints@[i], ip),
        decreases slice.endpoints.len() - j,
    {
        let ghost listed = text::texts(ips@).to_set();
        add_endpoint(ips, &slice.endpoints[j]);
        j = j + 1;
        proof {
            assert forall|ip: Seq<char>| #[trigger]
                text::texts(ips@).to_set().contains(ip) <==> before.contains(ip) || exists|i: int|
                    0 <= i < j && endpoint_offers(#[trigger] slice.endpoints@[i], ip) by {
                assert(listed.contains(ip) <==> before.contains(ip) || exists|i: int|
                    0 <= i < j - 1 && endpoint_offers(#[trigger] slice.endpoints@[i], ip));
                assert(text::texts(ips@).to_set().contains(ip) <==> listed.contains(ip)
                    || endpoint_offers(slice.endpoints@[j - 1], ip));
            }
        }
    }
}

/// Collect the replica addresses from a set of EndpointSlices, in order. Endpoints
/// that are terminating are excluded; not-ready endpoints are kept so the fleet can
/// bootstrap them before they start reporting ready.
pub fn ready_ips(slices: &Vec<EndpointSlice>) -> (r: Vec<String>)
    ensures
        text::texts(r@) == text::ordered(live(slices@)),
        text::is_ordered(text::texts(r@)),
        text::texts(r@).to_set() == live(slices@),
{
    let mut ips: Vec<String> = Vec::new();
    let mut i: usize = 0;
    proof {
        assert(text::texts(ips@) =~= Seq::<Seq<char>>::empty());
    }
    while i < slices.len()
        invariant
            i <= slices.len(),
            text::is_ordered(text::texts(ips@)),
            forall|ip: Seq<char>| #[trigger]
                text::texts(ips@).to_set().contains(ip) <==> exists|k: int|
                    0 <= k < i && slice_offers(#[trigger] slices@[k], ip),
        decreases slices.len() - i,
    {
        let ghost listed = text::texts(ips@).to_set();
        add_slice(&mut ips, &slices[i]);
        i = i + 1;
        proof {
            assert forall|ip: Seq<char>| #[trigger]
                text::texts(ips@).to_set().contains(ip) <==> exists|k: int|
                    0 <= k < i && slice_offers(#[trigger] slices@[k], ip) by {
                assert(listed.contains(ip) <==> exists|k: int|
                    0 <= k < i - 1 && slice_offers(#[trigger] slices@[k], ip));
                assert(text::texts(ips@).to_set().contains(ip) <==> listed.contains(ip)
                    || slice_offers(slices@[i - 1], ip));
            }
        }
    }
    proof {
        assert(text::texts(ips@).to_set() =~= live(slices@));
        text::lemma_ordered(text::texts(ips@), live(slices@));
    }
    ips
}

// ---------------------------------------------------------------------------
// The replica set
// ---------------------------------------------------------------------------

/// What is known of one selector replica.
#[derive(Debug, Clone, Copy, PartialEq, Eq, Structural)]
pub struct ReplicaState {
    /// Last readiness result; gates selection traffic.
    pub routable: bool,
}

/// A tracked replica.
#[derive(Debug)]
struct Replica {
    ip: String,
    state: ReplicaState,
}

/// Tracked replicas by pod IP, in the order of their addresses, which keeps the
/// choice of a selection target deterministic.
#[derive(Debug)]
pub struct ReplicaSet {
    entries: Vec<Replica>,
}

spec fn addresses(entries: Seq<Replica>) -> Seq<Seq<char>> {
    entries.map_values(|e: Replica| e.ip@)
}

spec fn is_routable(entries: Seq<Replica>, ip: Seq<char>) -> bool {
    exists|i: int|
        0 <= i < entries.len() && (#[trigger] entries[i]).ip@ == ip && entries[i].state.routable
}

spec fn replica_map(entries: Seq<Replica>) -> Map<Seq<char>, bool> {
    Map::new(
        |ip: Seq<char>| addresses(entries).contains(ip),
        |ip: Seq<char>| is_routable(entries, ip),
    )
}

proof fn lemma_replica_map_at(entries: Seq<Replica>, i: int)
    requires
        text::is_ordered(addresses(entries)),
        0 <= i < entries.len(),
    ensures
        replica_map(entries).contains_key(entries[i].ip@),
        replica_map(entries)[entries[i].ip@] == entries[i].state.routable,
{
    let ips = addresses(entries);
    assert(ips[i] == entries[i].ip@);
    if is_routable(entries, entries[i].ip@) {
        let j = choose|j: int|
            0 <= j < entries.len() && (#[trigger] entries[j]).ip@ == entries[i].ip@
                && entries[j].state.routable;
        assert(ips[j] == entries[j].ip@);
        text::lemma_precedes_irreflexive(entries[i].ip@);
        if j < i {
            assert(text::precedes(ips[j], ips[i]));
        }
        if i < j {
            assert(text::precedes(ips[i], ips[j]));
        }
    }
}

impl View for ReplicaSet {
    type V = Map<Seq<char>, bool>;

    /// Whether each tracked replica is routable.
    closed spec fn view(&self) -> Map<Seq<char>, bool> {
        replica_map(self.entries@)
    }
}

/// How the replica set changed.
#[derive(Debug, PartialEq, Eq)]
pub struct ReplicaSync {
    /// Replicas that are tracked from now on, in order.
    pub added: Vec<String>,
    /// Replicas that are no longer tracked, in order.
    pub removed: Vec<String>,
    /// All replicas that are now tracked, in order.
    pub all: Vec<String>,
}

/// What is tracked once the live addresses are known: a replica that stays keeps
/// its routability, a new one starts unroutable.
pub open spec fn tracked_after(before: Map<Seq<char>, bool>, live: Set<Seq<char>>) -> Map<
    Seq<char>,
    bool,
> {
    Map::new(
        |ip: Seq<char>| live.contains(ip),
        |ip: Seq<char>| before.contains_key(ip) && before[ip],
    )
}

/// The members of an ordered list that another list lacks.
fn lacking(list: &Vec<String>, other: &Vec<String>) -> (r: Vec<String>)
    requires
        text::is_ordered(text::texts(list@)),
    ensures
        text::texts(r@) == text::ordered(
            text::texts(list@).to_set().difference(text::texts(other@).to_set()),
        ),
{
    let ghost from = text::texts(list@);
    let ghost held = text::texts(other@);
    let mut out: Vec<String> = Vec::new();
    let mut i: usize = 0;
    while i < list.len()
        invariant
            i <= list.len(),
            from == text::texts(list@),
            held == text::texts(other@),
            text::is_ordered(from),
            text::is_ordered(text::texts(out@)),
            forall|j: int|
                0 <= j < out@.len() ==> from.take(i as int).contains(
                    #[trigger] text::texts(out@)[j],
                ) && !held.contains(text::texts(out@)[j]),
            forall|j: int|
                0 <= j < i && !held.contains(#[trigger] from[j]) ==> text::texts(out@).contains(
                    from[j],
                ),
        decreases list.len() - i,
    {
        let ghost done = from.take(i as int);
        let ghost listed = text::texts(out@);
        let ip = list[i].as_str();
        if !contains_text(other, ip) {
            out.push(ip.to_owned());
            proof {
                let now = text::texts(out@);
                assert(now =~= listed.push(ip@));
                assert forall|a: int, b: int| 0 <= a < b < now.len() implies #[trigger] text::precedes(
                    now[a],
                    now[b],
                ) by {
                    if b == listed.len() {
                        assert(done.contains(listed[a]));
                        let j = choose|j: int| 0 <= j < done.len() && done[j] == listed[a];
                        assert(text::precedes(from[j], from[i as int]));
                    } else {
                        assert(text::precedes(listed[a], listed[b]));
                    }
                }
                assert(now[listed.len() as int] == ip@);
            }
        }
        i = i + 1;
        proof {
            let last = from.take(i as int);
            let now = text::texts(out@);
            assert(last =~= done.push(ip@));
            assert(last[i - 1] == ip@);
            assert forall|j: int| 0 <= j < out@.len() implies last.contains(#[trigger] now[j])
                && !held.contains(now[j]) by {
                if j < listed.len() {
                    assert(now[j] == listed[j]);
                    assert(done.contains(listed[j]));
                    let k = choose|k: int| 0 <= k < done.len() && done[k] == listed[j];
                    assert(last[k] == listed[j]);
                }
            }
            assert forall|j: int| 0 <= j < i && !held.contains(#[trigger] from[j]) implies now.contains(
                from[j],
            ) by {
                if j < i - 1 {
                    assert(listed.contains(from[j]));
                    let k = choose|k: int| 0 <= k < listed.len() && listed[k] == from[j];
                    assert(now[k] == from[j]);
                }
            }
        }
    }
    proof {
        let kept = from.to_set().difference(held.to_set());
        let now = text::texts(out@);
        assert(from.take(from.len() as int) =~= from);
        assert(now.to_set() =~= kept) by {
            assert forall|ip: Seq<char>| now.to_set().contains(ip) == kept.contains(ip) by {
                if now.contains(ip) {
                    let j = choose|j: int| 0 <= j < now.len() && now[j] == ip;
                    assert(from.contains(now[j]));
                }
                if kept.contains(ip) {
                    let j = choose|j: int| 0 <= j < from.len() && from[j] == ip;
                    assert(now.contains(from[j]));
                }
            }
        }
        text::lemma_ordered(now, kept);
    }
    out
}

impl ReplicaSet {
    #[verifier::type_invariant]
    spec fn well_formed(self) -> bool {
        text::is_ordered(addresses(self.entries@))
    }

    /// A set with no replicas.
    pub fn new() -> (r: ReplicaSet)
        ensures
            r@ == Map::<Seq<char>, bool>::empty(),
    {
        let r = ReplicaSet { entries: Vec::new() };
        proof {
            assert(r@ =~= Map::<Seq<char>, bool>::empty());
        }
        r
    }

    /// The tracked addresses, in order.
    pub fn ips(&self) -> (r: Vec<String>)
        ensures
            text::texts(r@) == text::ordered(self@.dom()),
            text::is_ordered(text::texts(r@)),
            text::texts(r@).to_set() == self@.dom(),
    {
        proof {
            use_type_invariant(self);
        }
        let mut out: Vec<String> = Vec::new();
        let mut i: usize = 0;
        while i < self.entries.len()
            invariant
                i <= self.entries.len(),
                text::texts(out@) == addresses(self.entries@).take(i as int),
            decreases self.entries.len() - i,
        {
            let ghost done = text::texts(out@);
            out.push(self.entries[i].ip.clone());
            i = i + 1;
            proof {
                let ips = addresses(self.entries@);
                assert(text::texts(out@) =~= done.push(ips[i - 1]));
                assert(ips.take(i as int) =~= ips.take(i - 1).push(ips[i - 1]));
            }
        }
        proof {
            let ips = addresses(self.entries@);
            assert(ips.take(ips.len() as int) =~= ips);
            assert(ips.to_set() =~= self@.dom());
            text::lemma_ordered(ips, self@.dom());
        }
        out
    }

    /// Whether an address is tracked and routable.
    fn routable(&self, ip: &str) -> (r: bool)
        ensures
            r == (self@.contains_key(ip@) && self@[ip@]),
    {
        proof {
            use_type_invariant(self);
        }
        let mut i: usize = 0;
        while i < self.entries.len()
            invariant
                i <= self.entries.len(),
                text::is_ordered(addresses(self.entries@)),
                forall|j: int| 0 <= j < i ==> (#[trigger] self.entries@[j]).ip@ != ip@,
            decreases self.entries.len() - i,
        {
            if same_text(self.entries[i].ip.as_str(), ip) {
                proof {
                    lemma_replica_map_at(self.entries@, i as int);
                }
                return self.entries[i].state.routable;
            }
            i = i + 1;
        }
        proof {
            if self@.contains_key(ip@) {
                let ips = addresses(self.entries@);
                let j = choose|j: int| 0 <= j < ips.len() && ips[j] == ip@;
                assert(self.entries@[j].ip@ == ip@);
            }
        }
        false
    }

    /// Reconcile the replica set against the live EndpointSlices: track new
    /// replicas and drop those that are gone.
    pub fn sync(&mut self, slices: &Vec<EndpointSlice>) -> (r: ReplicaSync)
        ensures
            final(self)@ == tracked_after(old(self)@, live(slices@)),
            text::texts(r.added@) == text::ordered(live(slices@).difference(old(self)@.dom())),
            text::texts(r.removed@) == text::ordered(old(self)@.dom().difference(live(slices@))),
            text::texts(r.all@) == text::ordered(live(slices@)),
    {
        let all = ready_ips(slices);
        let before = self.ips();
        let added = lacking(&all, &before);
        let removed = lacking(&before, &all);
        let ghost old_view = self@;
        let ghost now = text::texts(all@);

        let mut entries: Vec<Replica> = Vec::new();
        let mut i: usize = 0;
        while i < all.len()
            invariant
                i <= all.len(),
                now == text::texts(all@),
                old_view == self@,
                addresses(entries@) == now.take(i as int),
                forall|j: int|
                    0 <= j < i ==> (#[trigger] entries@[j]).state.routable == (
                    old_view.contains_key(now[j]) && old_view[now[j]]),
            decreases all.len() - i,
        {
            let routable = self.routable(all[i].as_str());
            let ghost done = addresses(entries@);
            entries.push(Replica { ip: all[i].clone(), state: ReplicaState { routable } });
            i = i + 1;
            proof {
                assert(addresses(entries@) =~= done.push(now[i - 1]));
                assert(now.take(i as int) =~= now.take(i - 1).push(now[i - 1]));
            }
        }
        proof {
            assert(now.take(now.len() as int) =~= now);
            let after = tracked_after(old_view, live(slices@));
            assert(replica_map(entries@) =~= after) by {
                assert forall|ip: Seq<char>|
                    replica_map(entries@).contains_key(ip) == after.contains_key(ip) && (
                    after.contains_key(ip) ==> replica_map(entries@)[ip] == after[ip]) by {
                    assert(now.to_set().contains(ip) == now.contains(ip));
                    if now.contains(ip) {
                        let j = choose|j: int| 0 <= j < now.len() && now[j] == ip;
                        assert(addresses(entries@)[j] == entries@[j].ip@);
                        lemma_replica_map_at(entries@, j);
                    }
                }
            }
        }
        self.entries = entries;
        ReplicaSync { added, removed, all }
    }

    /// Record what reconciling a replica found: whether it reports ready, or
    /// nothing when it could not be reconciled, which makes it unroutable. A
    /// replica that is not tracked stays so.
    pub fn record(&mut self, ip: &str, outcome: Option<bool>)
        ensures
            final(self)@ == (if old(self)@.contains_key(ip@) {
                old(self)@.insert(ip@, outcome == Some(true))
            } else {
                old(self)@
            }),
    {
        proof {
            use_type_invariant(&*self);
        }
        let ghost old_entries = self.entries@;
        let ghost old_view = self@;
        let routable = match outcome {
            Some(ready) => ready,
            None => false,
        };
        let mut entries: Vec<Replica> = Vec::new();
        let mut i: usize = 0;
        while i < self.entries.len()
            invariant
                i <= self.entries.len(),
                self.entries@ == old_entries,
                entries@.len() == i,
                forall|j: int|
                    0 <= j < i ==> (#[trigger] entries@[j]).ip@ == old_entries[j].ip@
                        && entries@[j].state.routable == (if old_entries[j].ip@ == ip@ {
                        routable
                    } else {
                        old_entries[j].state.routable
                    }),
            decreases self.entries.len() - i,
        {
            let state = if same_text(self.entries[i].ip.as_str(), ip) {
                ReplicaState { routable }
            } else {
                self.entries[i].state
            };
            entries.push(Replica { ip: self.entries[i].ip.clone(), state });
            i = i + 1;
        }
        proof {
            assert(addresses(entries@) =~= addresses(old_entries));
            let after = if old_view.contains_key(ip@) {
                old_view.insert(ip@, routable)
            } else {
                old_view
            };
            assert(replica_map(entries@) =~= after) by {
                assert forall|k: Seq<char>|
                    replica_map(entries@).contains_key(k) == after.contains_key(k) && (
                    after.contains_key(k) ==> replica_map(entries@)[k] == after[k]) by {
                    let ips = addresses(entries@);
                    if ips.contains(k) {
                        let j = choose|j: int| 0 <= j < ips.len() && ips[j] == k;
                        assert(ips[j] == entries@[j].ip@);
                        lemma_replica_map_at(entries@, j);
                        lemma_replica_map_at(old_entries, j);
                    }
                }
            }
        }
        self.entries = entries;
    }

    /// The replica that selection requests go to: the first routable one in the
    /// order of addresses.
    pub fn target(&self) -> (r: Option<String>)
        ensures
            match r {
                Some(ip) => {
                    &&& self@.contains_key(ip@) && self@[ip@]
                    &&& forall|other: Seq<char>| #[trigger]
                        self@.contains_key(other) && self@[other] ==> other == ip@ || text::precedes(
                            ip@,
                            other,
                        )
                },
                None => forall|other: Seq<char>| #[trigger]
                    self@.contains_key(other) ==> !self@[other],
            },
    {
        proof {
            use_type_invariant(self);
        }
        let mut i: usize = 0;
        while i < self.entries.len()
            invariant
                i <= self.entries.len(),
                text::is_ordered(addresses(self.entries@)),
                forall|j: int| 0 <= j < i ==> !(#[trigger] self.entries@[j]).state.routable,
            decreases self.entries.len() - i,
        {
            if self.entries[i].state.routable {
                proof {
                    let ips = addresses(self.entries@);
                    lemma_replica_map_at(self.entries@, i as int);
                    assert forall|other: Seq<char>| #[trigger]
                        self@.contains_key(other) && self@[other] implies other
                        == self.entries@[i as int].ip@ || text::precedes(
                        self.entries@[i as int].ip@,
                        other,
                    ) by {
                        let j = choose|j: int|
                            0 <= j < self.entries@.len() && (#[trigger] self.entries@[j]).ip@
                                == other && self.entries@[j].state.routable;
                        assert(ips[j] == other);
                        assert(ips[i as int] == self.entries@[i as int].ip@);
                        if j > i {
                            assert(text::precedes(ips[i as int], ips[j]));
                        }
                    }
                }
                return Some(self.entries[i].ip.clone());
            }
            i = i + 1;
        }
        None
    }

    /// Whether at least one replica can be selected from.
    pub fn any_ready(&self) -> (r: bool)
        ensures
            r == exists|ip: Seq<char>| #[trigger] self@.contains_key(ip) && self@[ip],
    {
        match self.target() {
            Some(ip) => {
                proof {
                    assert(self@.contains_key(ip@) && self@[ip@]);
                }
                true
            },
            None => false,
        }
    }
}

// ---------------------------------------------------------------------------
// Addresses
// ---------------------------------------------------------------------------

/// `{scheme}{ip}:{port}`.
pub open spec fn address_of(scheme: Seq<char>, ip: Seq<char>, port: u16) -> Seq<char> {
    scheme + ip + ":"@ + text::decimal(port as nat)
}

fn address(scheme: &str, ip: &str, port: u16) -> (r: String)
    ensures
        r@ == address_of(scheme@, ip@, port),
{
    let mut r = scheme.to_owned();
    r.append(ip);
    r.append(":");
    r.append(to_decimal(port as u64).as_str());
    r
}

/// Base URL of a replica's HTTP API: `http://{ip}:{port}`.
pub fn http_base(ip: &str, http_port: u16) -> (r: String)
    ensures
        r@ == address_of("http://"@, ip@, http_port),
{
    address("http://", ip, http_port)
}

/// Replica-sync endpoint of a replica: `tcp://{ip}:{port}`.
pub fn zmq_endpoint(ip: &str, replica_sync_port: u16) -> (r: String)
    ensures
        r@ == address_of("tcp://"@, ip@, replica_sync_port),
{
    address("tcp://", ip, replica_sync_port)
}

/// URL of a route below a base.
pub fn route(base: &str, path: &str) -> (r: String)
    ensures
        r@ == base@ + path@,
{
    let mut r = base.to_owned();
    r.append(path);
    r
}

/// URL of one worker below a base: `{base}/workers/{id}`.
pub fn worker_url(base: &str, worker_id: u64) -> (r: String)
    ensures
        r@ == base@ + "/workers/"@ + text::decimal(worker_id as nat),
{
    let mut r = base.to_owned();
    r.append("/workers/");
    r.append(to_decimal(worker_id).as_str());
    r
}

/// URL of one reservation below a base: `{base}/reservations/{id}`.
pub fn reservation_url(base: &str, reservation_id: &str) -> (r: String)
    ensures
        r@ == base@ + "/reservations/"@ + reservation_id@,
{
    let mut r = base.to_owned();
    r.append("/reservations/");
    r.append(reservation_id);
    r
}

/// URL that marks a reservation's prefill as complete:
/// `{base}/reservations/{id}/prefill_complete`.
pub fn prefill_complete_url(base: &str, reservation_id: &str) -> (r: String)
    ensures
        r@ == base@ + "/reservations/"@ + reservation_id@ + "/prefill_complete"@,
{
    let mut r = reservation_url(base, reservation_id);
    r.append("/prefill_complete");
    r
}

// ---------------------------------------------------------------------------
// What is watched
// ---------------------------------------------------------------------------

/// Label Kubernetes sets on every EndpointSlice pointing back to its Service.
pub const SERVICE_NAME_LABEL: &'static str = "kubernetes.io/service-name";

/// Why the fleet cannot start.
#[derive(Debug, Clone, Copy, PartialEq, Eq, Structural)]
pub enum FleetError {
    /// The configuration names no selection-service Service.
    MissingService,
    /// Neither the configuration nor the pod says which namespace to watch.
    MissingNamespace,
}

/// Check that the configuration was built for HTTP mode: it names a Service.
pub fn require_service(cfg: &EppConfig) -> (r: Result<(), FleetError>)
    ensures
        r == (if cfg@.selector_service.len() == 0 {
            Err::<(), FleetError>(FleetError::MissingService)
        } else {
            Ok::<(), FleetError>(())
        }),
{
    if cfg.selector_service.as_str().is_empty() {
        Err(FleetError::MissingService)
    } else {
        Ok(())
    }
}

/// Namespace of the Service: the configured one, or else that of the pod.
pub fn service_namespace(cfg: &EppConfig, pod_namespace: Option<String>) -> (r: Result<
    String,
    FleetError,
>)
    ensures
        match (cfg@.selector_service_namespace, text::optional_text(pod_namespace)) {
            (Some(ns), _) => r is Ok && r->Ok_0@ == ns,
            (None, Some(ns)) => r is Ok && r->Ok_0@ == ns,
            (None, None) => r == Err::<String, FleetError>(FleetError::MissingNamespace),
        },
{
    match &cfg.selector_service_namespace {
        Some(ns) => Ok(ns.clone()),
        None => match pod_namespace {
            Some(ns) => Ok(ns),
            None => Err(FleetError::MissingNamespace),
        },
    }
}

/// Label selector for the EndpointSlices that the Service owns.
pub fn label_selector(cfg: &EppConfig) -> (r: String)
    ensures
        r@ == "kubernetes.io/service-name"@ + "="@ + cfg@.selector_service,
{
    let mut r = SERVICE_NAME_LABEL.to_owned();
    r.append("=");
    r.append(cfg.selector_service.as_str());
    r
}

// ---------------------------------------------------------------------------
// Laws
// ---------------------------------------------------------------------------

/// Whether two endpoints differ at most in their readiness.
pub open spec fn same_but_readiness(a: Endpoint, b: Endpoint) -> bool {
    text::texts(a.addresses@) == text::texts(b.addresses@) && terminating(a) == terminating(b)
}

/// Readiness does not matter for discovery: endpoints that are not ready are kept,
/// so that the fleet can bootstrap them.
pub proof fn readiness_does_not_gate_discovery(a: Seq<EndpointSlice>, b: Seq<EndpointSlice>)
    requires
        a.len() == b.len(),
        forall|i: int|
            0 <= i < a.len() ==> (#[trigger] a[i]).endpoints@.len() == b[i].endpoints@.len(),
        forall|i: int, j: int|
            0 <= i < a.len() && 0 <= j < a[i].endpoints@.len() ==> same_but_readiness(
                #[trigger] a[i].endpoints@[j],
                b[i].endpoints@[j],
            ),
    ensures
        live(a) == live(b),
{
    assert forall|ip: Seq<char>| live(a).contains(ip) == live(b).contains(ip) by {
        if live(a).contains(ip) {
            let i = choose|i: int| 0 <= i < a.len() && slice_offers(#[trigger] a[i], ip);
            let j = choose|j: int|
                0 <= j < a[i].endpoints@.len() && endpoint_offers(
                    #[trigger] a[i].endpoints@[j],
                    ip,
                );
            assert(same_but_readiness(a[i].endpoints@[j], b[i].endpoints@[j]));
            assert(endpoint_offers(b[i].endpoints@[j], ip));
            assert(slice_offers(b[i], ip));
        }
        if live(b).contains(ip) {
            let i = choose|i: int| 0 <= i < b.len() && slice_offers(#[trigger] b[i], ip);
            assert(a[i].endpoints@.len() == b[i].endpoints@.len());
            let j = choose|j: int|
                0 <= j < b[i].endpoints@.len() && endpoint_offers(
                    #[trigger] b[i].endpoints@[j],
                    ip,
                );
            assert(same_but_readiness(a[i].endpoints@[j], b[i].endpoints@[j]));
            assert(endpoint_offers(a[i].endpoints@[j], ip));
            assert(slice_offers(a[i], ip));
        }
    }
    assert(live(a) =~= live(b));
}

/// An address that only terminating endpoints list is not live, and no live
/// address is empty.
pub proof fn terminating_endpoints_are_excluded(slices: Seq<EndpointSlice>, ip: Seq<char>)
    requires
        forall|i: int, j: int|
            0 <= i < slices.len() && 0 <= j < slices[i].endpoints@.len() && text::texts(
                (#[trigger] slices[i].endpoints@[j]).addresses@,
            ).contains(ip) ==> terminating(slices[i].endpoints@[j]),
    ensures
        !live(slices).contains(ip),
        !live(slices).contains(Seq::empty()),
{
}

/// After a sync the tracked replicas are exactly the live ones. A replica that
/// stays keeps its routability, and a new one is not routable before it has been
/// reconciled.
pub proof fn sync_tracks_the_live_replicas(before: Map<Seq<char>, bool>, live: Set<Seq<char>>)
    ensures
        tracked_after(before, live).dom() == live,
        forall|ip: Seq<char>| #[trigger]
            live.contains(ip) && before.contains_key(ip) ==> tracked_after(before, live)[ip]
                == before[ip],
        forall|ip: Seq<char>| #[trigger]
            live.contains(ip) && !before.contains_key(ip) ==> !tracked_after(before, live)[ip],
{
    assert(tracked_after(before, live).dom() =~= live);
}

/// An address is live exactly when it is not empty and some slice lists it for an
/// endpoint whose `terminating` condition is not true; nothing else about the endpoint
/// matters.
pub proof fn live_addresses_are_those_of_endpoints_that_stay(
    slices: Seq<EndpointSlice>,
    ip: Seq<char>,
)
    ensures
        live(slices).contains(ip) <==> ip.len() > 0 && exists|i: int, j: int, k: int|
            0 <= i < slices.len() && 0 <= j < slices[i].endpoints@.len() && 0 <= k
                < slices[i].endpoints@[j].addresses@.len() && (
            #[trigger] slices[i].endpoints@[j].addresses@[k])@ == ip && !(
            slices[i].endpoints@[j].conditions is Some
                && slices[i].endpoints@[j].conditions->0.terminating == Some(true)),
{
    if live(slices).contains(ip) {
        let i = choose|i: int| 0 <= i < slices.len() && slice_offers(#[trigger] slices[i], ip);
        let j = choose|j: int|
            0 <= j < slices[i].endpoints@.len() && endpoint_offers(
                #[trigger] slices[i].endpoints@[j],
                ip,
            );
        let listed = text::texts(slices[i].endpoints@[j].addresses@);
        let k = choose|k: int| 0 <= k < listed.len() && listed[k] == ip;
        assert(slices[i].endpoints@[j].addresses@[k]@ == ip);
    }
    if ip.len() > 0 && exists|i: int, j: int, k: int|
        0 <= i < slices.len() && 0 <= j < slices[i].endpoints@.len() && 0 <= k
            < slices[i].endpoints@[j].addresses@.len() && (
        #[trigger] slices[i].endpoints@[j].addresses@[k])@ == ip && !(
        slices[i].endpoints@[j].conditions is Some
            && slices[i].endpoints@[j].conditions->0.terminating == Some(true)) {
        let (i, j, k) = choose|i: int, j: int, k: int|
            0 <= i < slices.len() && 0 <= j < slices[i].endpoints@.len() && 0 <= k
                < slices[i].endpoints@[j].addresses@.len() && (
            #[trigger] slices[i].endpoints@[j].addresses@[k])@ == ip && !(
            slices[i].endpoints@[j].conditions is Some
                && slices[i].endpoints@[j].conditions->0.terminating == Some(true));
        assert(text::texts(slices[i].endpoints@[j].addresses@)[k] == ip);
        assert(endpoint_offers(slices[i].endpoints@[j], ip));
        assert(slice_offers(slices[i], ip));
    }
}

/// Every non-empty address of an endpoint that is not terminating is live, however
/// unready the endpoint is.
pub proof fn endpoints_that_stay_are_live(
    slices: Seq<EndpointSlice>,
    i: int,
    j: int,
    k: int,
    ready: Option<bool>,
    serving: Option<bool>,
)
    requires
        0 <= i < slices.len(),
        0 <= j < slices[i].endpoints@.len(),
        0 <= k < slices[i].endpoints@[j].addresses@.len(),
        slices[i].endpoints@[j].addresses@[k]@.len() > 0,
        slices[i].endpoints@[j].conditions == Some(
            EndpointConditions { ready, serving, terminating: None },
        ) || slices[i].endpoints@[j].conditions == Some(
            EndpointConditions { ready, serving, terminating: Some(false) },
        ) || slices[i].endpoints@[j].conditions is None,
    ensures
        live(slices).contains(slices[i].endpoints@[j].addresses@[k]@),
{
    live_addresses_are_those_of_endpoints_that_stay(
        slices,
        slices[i].endpoints@[j].addresses@[k]@,
    );
}

/// The `ready` and `serving` conditions do not matter: slices that list the same
/// addresses with the same `terminating` condition have the same live addresses.
pub proof fn ready_and_serving_do_not_matter(a: Seq<EndpointSlice>, b: Seq<EndpointSlice>)
    requires
        a.len() == b.len(),
        forall|i: int|
            0 <= i < a.len() ==> (#[trigger] a[i]).endpoints@.len() == b[i].endpoints@.len(),
        forall|i: int, j: int|
            0 <= i < a.len() && 0 <= j < a[i].endpoints@.len() ==> (
            #[trigger] a[i].endpoints@[j]).addresses@ == b[i].endpoints@[j].addresses@,
        forall|i: int, j: int|
            0 <= i < a.len() && 0 <= j < a[i].endpoints@.len() ==> (match (
            #[trigger] a[i].endpoints@[j]).conditions {
                Some(conditions) => conditions.terminating,
                None => None,
            }) == (match b[i].endpoints@[j].conditions {
                Some(conditions) => conditions.terminating,
                None => None,
            }),
    ensures
        live(a) == live(b),
{
    assert forall|i: int, j: int| 0 <= i < a.len() && 0 <= j < a[i].endpoints@.len() implies
        same_but_readiness(#[trigger] a[i].endpoints@[j], b[i].endpoints@[j]) by {
        assert(a[i].endpoints@[j].addresses@ == b[i].endpoints@[j].addresses@);
    }
    readiness_does_not_gate_discovery(a, b);
}

/// A replica's address is its scheme, its host, a colon and its port in decimal, and
/// different hosts or ports have different addresses under one scheme.
pub proof fn addresses_name_host_and_port(scheme: Seq<char>, ip: Seq<char>, port: u16)
    ensures
        address_of(scheme, ip, port).len() == scheme.len() + ip.len() + 1 + text::decimal(
            port as nat,
        ).len(),
        address_of(scheme, ip, port).take(scheme.len() as int) == scheme,
        address_of(scheme, ip, port).subrange(
            scheme.len() as int,
            (scheme.len() + ip.len()) as int,
        ) == ip,
        address_of(scheme, ip, port)[(scheme.len() + ip.len()) as int] == ':',
        address_of(scheme, ip, port).skip((scheme.len() + ip.len() + 1) as int) == text::decimal(
            port as nat,
        ),
{
    reveal_strlit(":");
    let whole = address_of(scheme, ip, port);
    assert(whole.take(scheme.len() as int) =~= scheme);
    assert(whole.subrange(scheme.len() as int, (scheme.len() + ip.len()) as int) =~= ip);
    assert(whole.skip((scheme.len() + ip.len() + 1) as int) =~= text::decimal(port as nat));
}

/// The addresses that discovery collects are exactly the live ones, each once and in
/// order.
pub proof fn collected_addresses_are_live(
    slices: Vec<EndpointSlice>,
    r: Vec<String>,
    ip: Seq<char>,
)
    requires
        call_ensures(ready_ips, (&slices,), r),
    ensures
        text::texts(r@).contains(ip) <==> ip.len() > 0 && exists|i: int, j: int, k: int|
            0 <= i < slices@.len() && 0 <= j < slices@[i].endpoints@.len() && 0 <= k
                < slices@[i].endpoints@[j].addresses@.len() && (
            #[trigger] slices@[i].endpoints@[j].addresses@[k])@ == ip && !(
            slices@[i].endpoints@[j].conditions is Some
                && slices@[i].endpoints@[j].conditions->0.terminating == Some(true)),
        forall|a: int, b: int|
            0 <= a < b < r@.len() ==> #[trigger] text::precedes(
                text::texts(r@)[a],
                text::texts(r@)[b],
            ),
{
    live_addresses_are_those_of_endpoints_that_stay(slices@, ip);
    assert(text::texts(r@).to_set().contains(ip) <==> live(slices@).contains(ip));
    assert(text::texts(r@).len() == r@.len());
}

/// What is tracked after a sync are the live replicas; one that stays keeps its
/// routability, and a new one starts unroutable.
pub proof fn syncing_keeps_what_stays(
    before: Map<Seq<char>, bool>,
    live: Set<Seq<char>>,
    ip: Seq<char>,
)
    ensures
        tracked_after(before, live).contains_key(ip) <==> live.contains(ip),
        live.contains(ip) && before.contains_key(ip) ==> tracked_after(before, live)[ip]
            == before[ip],
        live.contains(ip) && !before.contains_key(ip) ==> !tracked_after(before, live)[ip],
{
}

/// A replica can be selected from exactly when there is one to send selections to.
pub proof fn ready_means_there_is_a_target(
    replicas: ReplicaSet,
    target: Option<String>,
    ready: bool,
)
    requires
        call_ensures(ReplicaSet::target, (&replicas,), target),
        call_ensures(ReplicaSet::any_ready, (&replicas,), ready),
    ensures
        ready <==> target is Some,
        target is Some ==> replicas@.contains_key(target->0@) && replicas@[target->0@],
        target is Some ==> forall|other: Seq<char>| #[trigger]
            replicas@.contains_key(other) && replicas@[other] && other != target->0@
                ==> text::precedes(target->0@, other),
{
    if target is Some {
        assert(replicas@.contains_key(target->0@) && replicas@[target->0@]);
    }
}

/// A fresh set tracks nothing, and a set lists exactly what it tracks.
pub proof fn tracked_addresses_are_listed(
    fresh: ReplicaSet,
    replicas: ReplicaSet,
    ips: Vec<String>,
    ip: Seq<char>,
)
    requires
        call_ensures(ReplicaSet::new, (), fresh),
        call_ensures(ReplicaSet::ips, (&replicas,), ips),
    ensures
        !fresh@.contains_key(ip),
        text::texts(ips@).contains(ip) <==> replicas@.contains_key(ip),
{
    assert(text::texts(ips@).to_set().contains(ip) <==> replicas@.dom().contains(ip));
}

/// A replica is reached over HTTP and over TCP at its own host and port.
pub proof fn replica_addresses_are_spelled(ip: &str, port: u16, http: String, tcp: String)
    requires
        call_ensures(http_base, (ip, port), http),
        call_ensures(zmq_endpoint, (ip, port), tcp),
    ensures
        http@ == "http://"@ + ip@ + ":"@ + text::decimal(port as nat),
        tcp@ == "tcp://"@ + ip@ + ":"@ + text::decimal(port as nat),
{
}

/// Workers and reservations are reached below the base, each under its own id.
pub proof fn routes_are_spelled(
    base: &str,
    path: &str,
    worker_id: u64,
    reservation_id: &str,
    plain: String,
    worker: String,
    reservation: String,
    prefill: String,
)
    requires
        call_ensures(route, (base, path), plain),
        call_ensures(worker_url, (base, worker_id), worker),
        call_ensures(reservation_url, (base, reservation_id), reservation),
        call_ensures(prefill_complete_url, (base, reservation_id), prefill),
    ensures
        plain@ == base@ + path@,
        worker@ == base@ + "/workers/"@ + text::decimal(worker_id as nat),
        reservation@ == base@ + "/reservations/"@ + reservation_id@,
        prefill@ == reservation@ + "/prefill_complete"@,
{
}

/// The fleet starts exactly when a Service is named, watches the configured namespace or
/// else the pod's, and selects the slices that are labelled with the Service.
pub proof fn watched_service_is_the_configured_one(
    cfg: EppConfig,
    pod_namespace: Option<String>,
    required: Result<(), FleetError>,
    namespace: Result<String, FleetError>,
    label: String,
)
    requires
        call_ensures(require_service, (&cfg,), required),
        call_ensures(service_namespace, (&cfg, pod_namespace), namespace),
        call_ensures(label_selector, (&cfg,), label),
    ensures
        required is Ok <==> cfg.selector_service@.len() > 0,
        required is Err ==> required->Err_0 == FleetError::MissingService,
        cfg.selector_service_namespace is Some ==> namespace is Ok && namespace->Ok_0@
            == cfg.selector_service_namespace->0@,
        cfg.selector_service_namespace is None && pod_namespace is Some ==> namespace is Ok
            && namespace->Ok_0@ == pod_namespace->0@,
        cfg.selector_service_namespace is None && pod_namespace is None ==> namespace == Err::<
            String,
            FleetError,
        >(FleetError::MissingNamespace),
        label@ == "kubernetes.io/service-name"@ + "="@ + cfg.selector_service@,
{
}

} // verus!
