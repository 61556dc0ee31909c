//! The replica-sync peer mesh of the selector fleet.
//!
//! Every selector replica is told of every other one, so that active-load and
//! admission events propagate across the fleet.

use vstd::prelude::*;

use crate::selector_fleet;
use crate::selector_fleet::{zmq_endpoint, ReplicaSync};
use crate::text;
use crate::text::same_text;

verus! {

/// What a replica is told about a peer.
#[derive(Debug, Clone, Copy, PartialEq, Eq, Structural)]
pub enum PeerOpKind {
    Register,
    Deregister,
}

impl PeerOpKind {
    /// Name of the operation on the replica-sync API.
    pub fn as_str(self) -> (r: &'static str)
        ensures
            r@ == match self {
                PeerOpKind::Register => "register_peer"@,
                PeerOpKind::Deregister => "deregister_peer"@,
            },
    {
        match self {
            PeerOpKind::Register => "register_peer",
            PeerOpKind::Deregister => "deregister_peer",
        }
    }
}

/// One call on a replica's replica-sync API.
#[derive(Debug, PartialEq, Eq)]
pub struct PeerOp {
    /// Replica that is told.
    pub ip: String,
    pub kind: PeerOpKind,
    /// Replica-sync endpoint of the peer it is told about.
    pub peer_endpoint: String,
}

/// What a [`PeerOp`] says.
#[verifier::ext_equal]
pub struct PeerOpView {
    pub ip: Seq<char>,
    pub kind: PeerOpKind,
    pub peer_endpoint: Seq<char>,
}

impl View for PeerOp {
    type V = PeerOpView;

    open spec fn view(&self) -> PeerOpView {
        PeerOpView { ip: self.ip@, kind: self.kind, peer_endpoint: self.peer_endpoint@ }
    }
}

/// What each call says.
pub open spec fn peer_op_views(ops: Seq<PeerOp>) -> Seq<PeerOpView> {
    ops.map_values(|op: PeerOp| op@)
}

/// Tell one replica about a peer.
pub open spec fn tell(ip: Seq<char>, kind: PeerOpKind, peer: Seq<char>, port: u16) -> PeerOpView {
    PeerOpView { ip, kind, peer_endpoint: selector_fleet::address_of("tcp://"@, peer, port) }
}

/// The calls that introduce a new replica to the others, in both directions.
pub open spec fn introductions(new: Seq<char>, all: Seq<Seq<char>>, port: u16) -> Seq<PeerOpView>
    decreases all.len(),
{
    if all.len() == 0 {
        Seq::empty()
    } else {
        let earlier = introductions(new, all.drop_last(), port);
        let other = all.last();
        if other == new {
            earlier
        } else {
            earlier.push(tell(other, PeerOpKind::Register, new, port)).push(
                tell(new, PeerOpKind::Register, other, port),
            )
        }
    }
}

/// The calls that introduce each new replica to the others.
pub open spec fn all_introductions(
    added: Seq<Seq<char>>,
    all: Seq<Seq<char>>,
    port: u16,
) -> Seq<PeerOpView>
    decreases added.len(),
{
    if added.len() == 0 {
        Seq::empty()
    } else {
        all_introductions(added.drop_last(), all, port) + introductions(added.last(), all, port)
    }
}

/// The calls that make every replica forget one that is gone.
pub open spec fn farewells(gone: Seq<char>, all: Seq<Seq<char>>, port: u16) -> Seq<PeerOpView> {
    all.map_values(|other: Seq<char>| tell(other, PeerOpKind::Deregister, gone, port))
}

/// The calls that make every replica forget those that are gone.
pub open spec fn all_farewells(
    removed: Seq<Seq<char>>,
    all: Seq<Seq<char>>,
    port: u16,
) -> Seq<PeerOpView>
    decreases removed.len(),
{
    if removed.len() == 0 {
        Seq::empty()
    } else {
        all_farewells(removed.drop_last(), all, port) + farewells(removed.last(), all, port)
    }
}

fn introduce(ops: &mut Vec<PeerOp>, new_ip: &str, all: &Vec<String>, replica_sync_port: u16)
    ensures
        peer_op_views(final(ops)@) == peer_op_views(old(ops)@) + introductions(
            new_ip@,
            text::texts(all@),
            replica_sync_port,
        ),
{
    let ghost before = peer_op_views(ops@);
    let ghost ips = text::texts(all@);
    let mut i: usize = 0;
    proof {
        assert(before =~= before + introductions(new_ip@, ips.take(0), replica_sync_port));
    }
    while i < all.len()
        invariant
            i <= all.len(),
            ips == text::texts(all@),
            peer_op_views(ops@) == before + introductions(
                new_ip@,
                ips.take(i as int),
                replica_sync_port,
            ),
        decreases all.len() - i,
    {
        let ghost done = peer_op_views(ops@);
        let other_ip = all[i].as_str();
        proof {
            assert(ips.take(i + 1).drop_last() =~= ips.take(i as int));
            assert(ips.take(i + 1).last() == other_ip@);
        }
        if !same_text(other_ip, new_ip) {
            ops.push(
                PeerOp {
                    ip: other_ip.to_owned(),
                    kind: PeerOpKind::Register,
                    peer_endpoint: zmq_endpoint(new_ip, replica_sync_port),
                },
            );
            ops.push(
                PeerOp {
                    ip: new_ip.to_owned(),
                    kind: PeerOpKind::Register,
                    peer_endpoint: zmq_endpoint(other_ip, replica_sync_port),
                },
            );
            proof {
                assert(peer_op_views(ops@) =~= done.push(
                    tell(other_ip@, PeerOpKind::Register, new_ip@, replica_sync_port),
                ).push(tell(new_ip@, PeerOpKind::Register, other_ip@, replica_sync_port)));
            }
        }
        i = i + 1;
        proof {
            assert(peer_op_views(ops@) =~= before + introductions(
                new_ip@,
                ips.take(i as int),
                replica_sync_port,
            ));
        }
    }
    proof {
        assert(ips.take(ips.len() as int) =~= ips);
    }
}

fn say_farewell(ops: &mut Vec<PeerOp>, gone_ip: &str, all: &Vec<String>, replica_sync_port: u16)
    ensures
        peer_op_views(final(ops)@) == peer_op_views(old(ops)@) + farewells(
            gone_ip@,
            text::texts(all@),
            replica_sync_port,
        ),
{
    let ghost before = peer_op_views(ops@);
    let ghost ips = text::texts(all@);
    let mut i: usize = 0;
    proof {
        assert(before =~= before + farewells(gone_ip@, ips.take(0), replica_sync_port));
    }
    while i < all.len()
        invariant
            i <= all.len(),
            ips == text::texts(all@),
            peer_op_views(ops@) == before + farewells(
                gone_ip@,
                ips.take(i as int),
                replica_sync_port,
            ),
        decreases all.len() - i,
    {
        let ghost done = peer_op_views(ops@);
        let other_ip = all[i].as_str();
        ops.push(
            PeerOp {
                ip: other_ip.to_owned(),
                kind: PeerOpKind::Deregister,
                peer_endpoint: zmq_endpoint(gone_ip, replica_sync_port),
            },
        );
        i = i + 1;
        proof {
            assert(peer_op_views(ops@) =~= done.push(
                tell(other_ip@, PeerOpKind::Deregister, gone_ip@, replica_sync_port),
            ));
            assert(farewells(gone_ip@, ips.take(i as int), replica_sync_port) =~= farewells(
                gone_ip@,
                ips.take(i - 1),
                replica_sync_port,
            ).push(tell(other_ip@, PeerOpKind::Deregister, gone_ip@, replica_sync_port)));
            assert(peer_op_views(ops@) =~= before + farewells(
                gone_ip@,
                ips.take(i as int),
                replica_sync_port,
            ));
        }
    }
    proof {
        assert(ips.take(ips.len() as int) =~= ips);
    }
}

impl ReplicaSync {
    /// The replica-sync calls that wire the peer mesh for the change: each new
    /// replica and every other one are introduced to each other, then every
    /// replica forgets each one that is gone. Registration is idempotent.
    pub fn peer_ops(&self, replica_sync_port: u16) -> (r: Vec<PeerOp>)
        ensures
            peer_op_views(r@) == all_introductions(
                text::texts(self.added@),
                text::texts(self.all@),
                replica_sync_port,
            ) + all_farewells(
                text::texts(self.removed@),
                text::texts(self.all@),
                replica_sync_port,
            ),
    {
        let mut ops: Vec<PeerOp> = Vec::new();
        let ghost added = text::texts(self.added@);
        let ghost removed = text::texts(self.removed@);
        let ghost all = text::texts(self.all@);
        let mut i: usize = 0;
        proof {
            assert(peer_op_views(ops@) =~= all_introductions(added.take(0), all, replica_sync_port));
        }
        while i < self.added.len()
            invariant
                i <= self.added.len(),
                added == text::texts(self.added@),
                all == text::texts(self.all@),
                peer_op_views(ops@) == all_introductions(
                    added.take(i as int),
                    all,
                    replica_sync_port,
                ),
            decreases self.added.len() - i,
        {
            introduce(&mut ops, self.added[i].as_str(), &self.all, replica_sync_port);
            i = i + 1;
            proof {
                assert(added.take(i as int).drop_last() =~= added.take(i - 1));
            }
        }
        proof {
            assert(added.take(added.len() as int) =~= added);
        }
        let ghost introduced = peer_op_views(ops@);
        let mut j: usize = 0;
        proof {
            assert(introduced =~= introduced + all_farewells(
                removed.take(0),
                all,
                replica_sync_port,
            ));
        }
        while j < self.removed.len()
            invariant
                j <= self.removed.len(),
                removed == text::texts(self.removed@),
                all == text::texts(self.all@),
                peer_op_views(ops@) == introduced + all_farewells(
                    removed.take(j as int),
                    all,
                    replica_sync_port,
                ),
            decreases self.removed.len() - j,
        {
            say_farewell(&mut ops, self.removed[j].as_str(), &self.all, replica_sync_port);
            j = j + 1;
            proof {
                assert(removed.take(j as int).drop_last() =~= removed.take(j - 1));
                assert(peer_op_views(ops@) =~= introduced + all_farewells(
                    removed.take(j as int),
                    all,
                    replica_sync_port,
                ));
            }
        }
        proof {
            assert(removed.take(removed.len() as int) =~= removed);
        }
        ops
    }
}

// ---------------------------------------------------------------------------
// Laws
// ---------------------------------------------------------------------------

/// A second sync against the same slices changes nothing and wires nothing.
pub proof fn repeated_sync_is_idle(before: Map<Seq<char>, bool>, live: Set<Seq<char>>, port: u16)
    ensures
        ({
            let after = selector_fleet::tracked_after(before, live);
            let added = text::ordered(live.difference(after.dom()));
            let removed = text::ordered(after.dom().difference(live));
            let all = text::ordered(live);
            &&& selector_fleet::tracked_after(after, live) == after
            &&& added == Seq::<Seq<char>>::empty()
            &&& removed == Seq::<Seq<char>>::empty()
            &&& all_introductions(added, all, port) + all_farewells(removed, all, port) == Seq::<
                PeerOpView,
            >::empty()
        }),
{
    let after = selector_fleet::tracked_after(before, live);
    assert(after.dom() =~= live);
    assert(selector_fleet::tracked_after(after, live) =~= after);
    assert(live.difference(after.dom()) =~= Set::<Seq<char>>::empty());
    assert(after.dom().difference(live) =~= Set::<Seq<char>>::empty());
    text::lemma_ordered_members(Set::empty());
    assert(text::ordered(Set::empty()) =~= Seq::<Seq<char>>::empty());
    assert(all_introductions(Seq::empty(), text::ordered(live), port) + all_farewells(
        Seq::empty(),
        text::ordered(live),
        port,
    ) =~= Seq::<PeerOpView>::empty());
}

/// Who knows whom after some calls: pairs of a replica and the replica-sync
/// endpoint of a peer it has been told about.
pub open spec fn mesh_after(
    mesh: Set<(Seq<char>, Seq<char>)>,
    ops: Seq<PeerOpView>,
) -> Set<(Seq<char>, Seq<char>)>
    decreases ops.len(),
{
    if ops.len() == 0 {
        mesh
    } else {
        let earlier = mesh_after(mesh, ops.drop_last());
        let op = ops.last();
        match op.kind {
            PeerOpKind::Register => earlier.insert((op.ip, op.peer_endpoint)),
            PeerOpKind::Deregister => earlier.remove((op.ip, op.peer_endpoint)),
        }
    }
}

/// Everyone knows everyone else.
pub open spec fn full_mesh(ips: Set<Seq<char>>, port: u16) -> Set<(Seq<char>, Seq<char>)> {
    Set::new(
        |pair: (Seq<char>, Seq<char>)|
            ips.contains(pair.0) && exists|peer: Seq<char>| #[trigger]
                ips.contains(peer) && peer != pair.0 && pair.1 == selector_fleet::address_of("tcp://"@, peer, port),
    )
}

/// Whether a call is about a pair.
pub open spec fn about(op: PeerOpView, pair: (Seq<char>, Seq<char>)) -> bool {
    op.ip == pair.0 && op.peer_endpoint == pair.1
}

proof fn lemma_mesh_in_two_parts(
    mesh: Set<(Seq<char>, Seq<char>)>,
    a: Seq<PeerOpView>,
    b: Seq<PeerOpView>,
)
    ensures
        mesh_after(mesh, a + b) == mesh_after(mesh_after(mesh, a), b),
    decreases b.len(),
{
    if b.len() == 0 {
        assert(a + b =~= a);
    } else {
        assert((a + b).drop_last() =~= a + b.drop_last());
        lemma_mesh_in_two_parts(mesh, a, b.drop_last());
    }
}

proof fn lemma_mesh_of_one_kind(
    mesh: Set<(Seq<char>, Seq<char>)>,
    ops: Seq<PeerOpView>,
    kind: PeerOpKind,
    pair: (Seq<char>, Seq<char>),
)
    requires
        forall|i: int| 0 <= i < ops.len() ==> (#[trigger] ops[i]).kind == kind,
    ensures
        mesh_after(mesh, ops).contains(pair) <==> (if exists|i: int|
            0 <= i < ops.len() && about(#[trigger] ops[i], pair) {
            kind == PeerOpKind::Register
        } else {
            mesh.contains(pair)
        }),
    decreases ops.len(),
{
    if ops.len() > 0 {
        let rest = ops.drop_last();
        lemma_mesh_of_one_kind(mesh, rest, kind, pair);
        assert(ops.last() == ops[ops.len() - 1]);
        if exists|i: int| 0 <= i < rest.len() && about(#[trigger] rest[i], pair) {
            let i = choose|i: int| 0 <= i < rest.len() && about(#[trigger] rest[i], pair);
            assert(about(ops[i], pair));
        }
        if exists|i: int| 0 <= i < ops.len() && about(#[trigger] ops[i], pair) {
            let i = choose|i: int| 0 <= i < ops.len() && about(#[trigger] ops[i], pair);
            if i < rest.len() {
                assert(about(rest[i], pair));
            }
        }
        assert(pair == (pair.0, pair.1));
    }
}

/// Whether introducing a new replica to another makes this call.
pub open spec fn introduces(
    op: PeerOpView,
    new: Seq<char>,
    other: Seq<char>,
    port: u16,
) -> bool {
    other != new && (op == tell(other, PeerOpKind::Register, new, port) || op == tell(
        new,
        PeerOpKind::Register,
        other,
        port,
    ))
}

proof fn lemma_introductions(new: Seq<char>, all: Seq<Seq<char>>, port: u16, op: PeerOpView)
    ensures
        introductions(new, all, port).contains(op) <==> exists|i: int|
            0 <= i < all.len() && introduces(op, new, #[trigger] all[i], port),
    decreases all.len(),
{
    broadcast use vstd::seq_lib::group_seq_properties;

    if all.len() > 0 {
        let rest = all.drop_last();
        lemma_introductions(new, rest, port, op);
        let other = all.last();
        assert(other == all[all.len() - 1]);
        if exists|i: int| 0 <= i < rest.len() && introduces(op, new, #[trigger] rest[i], port) {
            let i = choose|i: int|
                0 <= i < rest.len() && introduces(op, new, #[trigger] rest[i], port);
            assert(introduces(op, new, all[i], port));
        }
        if exists|i: int| 0 <= i < all.len() && introduces(op, new, #[trigger] all[i], port) {
            let i = choose|i: int|
                0 <= i < all.len() && introduces(op, new, #[trigger] all[i], port);
            if i < rest.len() {
                assert(introduces(op, new, rest[i], port));
            }
        }
    }
}

proof fn lemma_all_introductions(
    added: Seq<Seq<char>>,
    all: Seq<Seq<char>>,
    port: u16,
    op: PeerOpView,
)
    ensures
        all_introductions(added, all, port).contains(op) <==> exists|k: int, i: int|
            0 <= k < added.len() && 0 <= i < all.len() && introduces(
                op,
                #[trigger] added[k],
                #[trigger] all[i],
                port,
            ),
    decreases added.len(),
{
    broadcast use vstd::seq_lib::group_seq_properties;

    if added.len() > 0 {
        let rest = added.drop_last();
        lemma_all_introductions(rest, all, port, op);
        lemma_introductions(added.last(), all, port, op);
        assert(added.last() == added[added.len() - 1]);
        if all_introductions(rest, all, port).contains(op) {
            let (k, i) = choose|k: int, i: int|
                0 <= k < rest.len() && 0 <= i < all.len() && introduces(
                    op,
                    #[trigger] rest[k],
                    #[trigger] all[i],
                    port,
                );
            assert(introduces(op, added[k], all[i], port));
        }
        if introductions(added.last(), all, port).contains(op) {
            let i = choose|i: int|
                0 <= i < all.len() && introduces(op, added.last(), #[trigger] all[i], port);
            assert(introduces(op, added[added.len() - 1], all[i], port));
        }
        if exists|k: int, i: int|
            0 <= k < added.len() && 0 <= i < all.len() && introduces(
                op,
                #[trigger] added[k],
                #[trigger] all[i],
                port,
            ) {
            let (k, i) = choose|k: int, i: int|
                0 <= k < added.len() && 0 <= i < all.len() && introduces(
                    op,
                    #[trigger] added[k],
                    #[trigger] all[i],
                    port,
                );
            if k < rest.len() {
                assert(introduces(op, rest[k], all[i], port));
            } else {
                assert(introduces(op, added.last(), all[i], port));
            }
        }
    }
}

proof fn lemma_all_farewells(
    removed: Seq<Seq<char>>,
    all: Seq<Seq<char>>,
    port: u16,
    op: PeerOpView,
)
    ensures
        all_farewells(removed, all, port).contains(op) <==> exists|k: int, i: int|
            0 <= k < removed.len() && 0 <= i < all.len() && op == tell(
                #[trigger] all[i],
                PeerOpKind::Deregister,
                #[trigger] removed[k],
                port,
            ),
    decreases removed.len(),
{
    broadcast use vstd::seq_lib::group_seq_properties;

    if removed.len() > 0 {
        let rest = removed.drop_last();
        let farewell = farewells(removed.last(), all, port);
        lemma_all_farewells(rest, all, port, op);
        assert(removed.last() == removed[removed.len() - 1]);
        if all_farewells(rest, all, port).contains(op) {
            let (k, i) = choose|k: int, i: int|
                0 <= k < rest.len() && 0 <= i < all.len() && op == tell(
                    #[trigger] all[i],
                    PeerOpKind::Deregister,
                    #[trigger] rest[k],
                    port,
                );
            assert(op == tell(all[i], PeerOpKind::Deregister, removed[k], port));
        }
        if farewell.contains(op) {
            let i = choose|i: int| 0 <= i < farewell.len() && farewell[i] == op;
            assert(op == tell(all[i], PeerOpKind::Deregister, removed[removed.len() - 1], port));
        }
        if exists|k: int, i: int|
            0 <= k < removed.len() && 0 <= i < all.len() && op == tell(
                #[trigger] all[i],
                PeerOpKind::Deregister,
                #[trigger] removed[k],
                port,
            ) {
            let (k, i) = choose|k: int, i: int|
                0 <= k < removed.len() && 0 <= i < all.len() && op == tell(
                    #[trigger] all[i],
                    PeerOpKind::Deregister,
                    #[trigger] removed[k],
                    port,
                );
            if k < rest.len() {
                assert(op == tell(all[i], PeerOpKind::Deregister, rest[k], port));
            } else {
                assert(farewell[i] == op);
            }
        }
    }
}

proof fn lemma_addresses_differ(a: Seq<char>, b: Seq<char>, port: u16)
    requires
        selector_fleet::address_of("tcp://"@, a, port) == selector_fleet::address_of("tcp://"@, b, port),
    ensures
        a == b,
{
    let scheme = "tcp://"@;
    let tail = text::decimal(port as nat);
    let (x, y) = (selector_fleet::address_of(scheme, a, port), selector_fleet::address_of(scheme, b, port));
    assert(x.len() == scheme.len() + a.len() + ":"@.len() + tail.len());
    assert(y.len() == scheme.len() + b.len() + ":"@.len() + tail.len());
    assert(a.len() == b.len());
    assert forall|i: int| 0 <= i < a.len() implies a[i] == b[i] by {
        assert(x[scheme.len() + i] == a[i]);
        assert(y[scheme.len() + i] == b[i]);
    }
    assert(a =~= b);
}

/// The peer mesh stays full: if every tracked replica knew every other one, then
/// after a sync and its calls every live replica knows every other live one, and
/// none that is gone.
pub proof fn full_mesh_is_kept(before: Set<Seq<char>>, live: Set<Seq<char>>, port: u16)
    requires
        before.finite(),
        live.finite(),
    ensures
        ({
            let all = text::ordered(live);
            let ops = all_introductions(text::ordered(live.difference(before)), all, port)
                + all_farewells(text::ordered(before.difference(live)), all, port);
            mesh_after(full_mesh(before, port), ops).filter(
                |pair: (Seq<char>, Seq<char>)| live.contains(pair.0),
            ) == full_mesh(live, port)
        }),
{
    let all = text::ordered(live);
    let added = text::ordered(live.difference(before));
    let removed = text::ordered(before.difference(live));
    let hellos = all_introductions(added, all, port);
    let goodbyes = all_farewells(removed, all, port);
    let start = full_mesh(before, port);
    let end = mesh_after(start, hellos + goodbyes);
    let mine = |pair: (Seq<char>, Seq<char>)| live.contains(pair.0);
    vstd::set_lib::lemma_len_subset(live.difference(before), live);
    vstd::set_lib::lemma_len_subset(before.difference(live), before);
    text::lemma_ordered_members(live);
    text::lemma_ordered_members(live.difference(before));
    text::lemma_ordered_members(before.difference(live));
    lemma_mesh_in_two_parts(start, hellos, goodbyes);
    assert forall|i: int| 0 <= i < hellos.len() implies (#[trigger] hellos[i]).kind
        == PeerOpKind::Register by {
        lemma_all_introductions(added, all, port, hellos[i]);
        assert(hellos.contains(hellos[i]));
    }
    assert forall|i: int| 0 <= i < goodbyes.len() implies (#[trigger] goodbyes[i]).kind
        == PeerOpKind::Deregister by {
        lemma_all_farewells(removed, all, port, goodbyes[i]);
        assert(goodbyes.contains(goodbyes[i]));
    }
    assert forall|pair: (Seq<char>, Seq<char>)|
        end.filter(mine).contains(pair) == full_mesh(live, port).contains(pair) by {
        lemma_mesh_of_one_kind(start, hellos, PeerOpKind::Register, pair);
        lemma_mesh_of_one_kind(
            mesh_after(start, hellos),
            goodbyes,
            PeerOpKind::Deregister,
            pair,
        );
        lemma_full_mesh_pair(before, live, port, pair);
    }
    assert(end.filter(mine) =~= full_mesh(live, port));
}

proof fn lemma_full_mesh_pair(
    before: Set<Seq<char>>,
    live: Set<Seq<char>>,
    port: u16,
    pair: (Seq<char>, Seq<char>),
)
    requires
        before.finite(),
        live.finite(),
    ensures
        ({
            let all = text::ordered(live);
            let hellos = all_introductions(text::ordered(live.difference(before)), all, port);
            let goodbyes = all_farewells(text::ordered(before.difference(live)), all, port);
            let hello = exists|i: int| 0 <= i < hellos.len() && about(#[trigger] hellos[i], pair);
            let goodbye = exists|i: int|
                0 <= i < goodbyes.len() && about(#[trigger] goodbyes[i], pair);
            full_mesh(live, port).contains(pair) <==> live.contains(pair.0) && !goodbye && (hello
                || full_mesh(before, port).contains(pair))
        }),
{
    let all = text::ordered(live);
    let added = text::ordered(live.difference(before));
    let removed = text::ordered(before.difference(live));
    let hellos = all_introductions(added, all, port);
    let goodbyes = all_farewells(removed, all, port);
    vstd::set_lib::lemma_len_subset(live.difference(before), live);
    vstd::set_lib::lemma_len_subset(before.difference(live), before);
    text::lemma_ordered_members(live);
    text::lemma_ordered_members(live.difference(before));
    text::lemma_ordered_members(before.difference(live));
    let (me, endpoint) = pair;
    let hello = exists|i: int| 0 <= i < hellos.len() && about(#[trigger] hellos[i], pair);
    let goodbye = exists|i: int| 0 <= i < goodbyes.len() && about(#[trigger] goodbyes[i], pair);
    if goodbye {
        let i = choose|i: int| 0 <= i < goodbyes.len() && about(#[trigger] goodbyes[i], pair);
        lemma_all_farewells(removed, all, port, goodbyes[i]);
        assert(goodbyes.contains(goodbyes[i]));
        let (k, n) = choose|k: int, n: int|
            0 <= k < removed.len() && 0 <= n < all.len() && goodbyes[i] == tell(
                #[trigger] all[n],
                PeerOpKind::Deregister,
                #[trigger] removed[k],
                port,
            );
        assert(removed.contains(removed[k]));
        if full_mesh(live, port).contains(pair) {
            let peer = choose|peer: Seq<char>| #[trigger]
                live.contains(peer) && peer != me && endpoint == selector_fleet::address_of("tcp://"@, peer, port);
            lemma_addresses_differ(peer, removed[k], port);
        }
    }
    if hello {
        let i = choose|i: int| 0 <= i < hellos.len() && about(#[trigger] hellos[i], pair);
        lemma_all_introductions(added, all, port, hellos[i]);
        assert(hellos.contains(hellos[i]));
        let (k, n) = choose|k: int, n: int|
            0 <= k < added.len() && 0 <= n < all.len() && introduces(
                hellos[i],
                #[trigger] added[k],
                #[trigger] all[n],
                port,
            );
        assert(added.contains(added[k]));
        assert(all.contains(all[n]));
        assert(live.contains(added[k]) && live.contains(all[n]));
        assert(full_mesh(live, port).contains(pair));
    }
    if live.contains(me) && !goodbye && full_mesh(before, port).contains(pair) {
        let peer = choose|peer: Seq<char>| #[trigger]
            before.contains(peer) && peer != me && endpoint == selector_fleet::address_of("tcp://"@, peer, port);
        if !live.contains(peer) {
            let op = tell(me, PeerOpKind::Deregister, peer, port);
            assert(removed.contains(peer));
            assert(all.contains(me));
            let k = choose|k: int| 0 <= k < removed.len() && removed[k] == peer;
            let n = choose|n: int| 0 <= n < all.len() && all[n] == me;
            assert(op == tell(all[n], PeerOpKind::Deregister, removed[k], port));
            lemma_all_farewells(removed, all, port, op);
            let i = choose|i: int| 0 <= i < goodbyes.len() && goodbyes[i] == op;
            assert(about(goodbyes[i], pair));
        }
        assert(full_mesh(live, port).contains(pair));
    }
    if full_mesh(live, port).contains(pair) && !full_mesh(before, port).contains(pair) {
        let peer = choose|peer: Seq<char>| #[trigger]
            live.contains(peer) && peer != me && endpoint == selector_fleet::address_of("tcp://"@, peer, port);
        let op = tell(me, PeerOpKind::Register, peer, port);
        let (new, other) = if before.contains(peer) {
            (me, peer)
        } else {
            (peer, me)
        };
        assert(added.contains(new));
        assert(all.contains(other));
        let k = choose|k: int| 0 <= k < added.len() && added[k] == new;
        let n = choose|n: int| 0 <= n < all.len() && all[n] == other;
        assert(introduces(op, added[k], all[n], port));
        lemma_all_introductions(added, all, port, op);
        let i = choose|i: int| 0 <= i < hellos.len() && hellos[i] == op;
        assert(about(hellos[i], pair));
    }
}

/// The calls of a sync are exactly those for its change: two different live replicas
/// are told of each other where at least one of them is new, every live replica forgets
/// each one that is gone, and nothing else is said.
pub proof fn peer_calls_are_for_the_change(
    added: Seq<Seq<char>>,
    removed: Seq<Seq<char>>,
    all: Seq<Seq<char>>,
    port: u16,
    me: Seq<char>,
    peer: Seq<char>,
)
    requires
        forall|ip: Seq<char>| #[trigger] added.contains(ip) ==> all.contains(ip),
    ensures
        ({
            let ops = all_introductions(added, all, port) + all_farewells(removed, all, port);
            let endpoint = "tcp://"@ + peer + ":"@ + text::decimal(port as nat);
            &&& ops.contains(
                PeerOpView { ip: me, kind: PeerOpKind::Register, peer_endpoint: endpoint },
            ) <==> me != peer && all.contains(me) && all.contains(peer) && (added.contains(me)
                || added.contains(peer))
            &&& ops.contains(
                PeerOpView { ip: me, kind: PeerOpKind::Deregister, peer_endpoint: endpoint },
            ) <==> all.contains(me) && removed.contains(peer)
        }),
{
    let hellos = all_introductions(added, all, port);
    let goodbyes = all_farewells(removed, all, port);
    let ops = hellos + goodbyes;
    let hello = tell(me, PeerOpKind::Register, peer, port);
    let goodbye = tell(me, PeerOpKind::Deregister, peer, port);
    lemma_all_introductions(added, all, port, hello);
    lemma_all_introductions(added, all, port, goodbye);
    lemma_all_farewells(removed, all, port, hello);
    lemma_all_farewells(removed, all, port, goodbye);
    lemma_contains_of_two(hellos, goodbyes, hello);
    lemma_contains_of_two(hellos, goodbyes, goodbye);
    if hellos.contains(hello) {
        let (k, i) = choose|k: int, i: int|
            0 <= k < added.len() && 0 <= i < all.len() && introduces(
                hello,
                #[trigger] added[k],
                #[trigger] all[i],
                port,
            );
        assert(added.contains(added[k]));
        assert(all.contains(added[k]) && all.contains(all[i]));
        if hello == tell(all[i], PeerOpKind::Register, added[k], port) {
            lemma_addresses_differ(peer, added[k], port);
        } else {
            lemma_addresses_differ(peer, all[i], port);
        }
    }
    if me != peer && all.contains(me) && all.contains(peer) && (added.contains(me)
        || added.contains(peer)) {
        let (new, other) = if added.contains(me) {
            (me, peer)
        } else {
            (peer, me)
        };
        let k = choose|k: int| 0 <= k < added.len() && added[k] == new;
        let i = choose|i: int| 0 <= i < all.len() && all[i] == other;
        assert(introduces(hello, added[k], all[i], port));
    }
    if goodbyes.contains(goodbye) {
        let (k, i) = choose|k: int, i: int|
            0 <= k < removed.len() && 0 <= i < all.len() && goodbye == tell(
                #[trigger] all[i],
                PeerOpKind::Deregister,
                #[trigger] removed[k],
                port,
            );
        lemma_addresses_differ(peer, removed[k], port);
        assert(all.contains(all[i]) && removed.contains(removed[k]));
    }
    if all.contains(me) && removed.contains(peer) {
        let i = choose|i: int| 0 <= i < all.len() && all[i] == me;
        let k = choose|k: int| 0 <= k < removed.len() && removed[k] == peer;
        assert(goodbye == tell(all[i], PeerOpKind::Deregister, removed[k], port));
    }
}

proof fn lemma_contains_of_two(a: Seq<PeerOpView>, b: Seq<PeerOpView>, op: PeerOpView)
    ensures
        (a + b).contains(op) <==> a.contains(op) || b.contains(op),
{
    let both = a + b;
    if a.contains(op) {
        let i = choose|i: int| 0 <= i < a.len() && a[i] == op;
        assert(both[i] == op);
    }
    if b.contains(op) {
        let i = choose|i: int| 0 <= i < b.len() && b[i] == op;
        assert(both[a.len() + i] == op);
    }
}

/// Replicas are introduced before any is forgotten, and nobody is told of a peer but at
/// its replica-sync endpoint.
pub proof fn introductions_come_first(
    added: Seq<Seq<char>>,
    removed: Seq<Seq<char>>,
    all: Seq<Seq<char>>,
    port: u16,
)
    ensures
        ({
            let ops = all_introductions(added, all, port) + all_farewells(removed, all, port);
            forall|i: int, j: int|
                0 <= i < j < ops.len() && (#[trigger] ops[i]).kind == PeerOpKind::Deregister ==> (
                #[trigger] ops[j]).kind == PeerOpKind::Deregister
        }),
{
    let hellos = all_introductions(added, all, port);
    let goodbyes = all_farewells(removed, all, port);
    assert forall|i: int| 0 <= i < hellos.len() implies (#[trigger] hellos[i]).kind
        == PeerOpKind::Register by {
        lemma_all_introductions(added, all, port, hellos[i]);
        assert(hellos.contains(hellos[i]));
    }
    assert forall|i: int| 0 <= i < goodbyes.len() implies (#[trigger] goodbyes[i]).kind
        == PeerOpKind::Deregister by {
        lemma_all_farewells(removed, all, port, goodbyes[i]);
        assert(goodbyes.contains(goodbyes[i]));
    }
}

/// The two operations have their names, and what a call says is what it holds.
pub proof fn peer_operations_are_spelled(kind: PeerOpKind, name: &'static str, op: PeerOp)
    requires
        call_ensures(PeerOpKind::as_str, (kind,), name),
    ensures
        kind == PeerOpKind::Register ==> name@ == "register_peer"@,
        kind == PeerOpKind::Deregister ==> name@ == "deregister_peer"@,
        op@.ip == op.ip@,
        op@.kind == op.kind,
        op@.peer_endpoint == op.peer_endpoint@,
{
}

/// The calls of a sync tell two different live replicas of each other where one of them
/// is new, and every live one of each that is gone; and nothing else is said.
pub proof fn sync_calls_are_for_the_change(
    change: ReplicaSync,
    port: u16,
    ops: Vec<PeerOp>,
    me: Seq<char>,
    peer: Seq<char>,
)
    requires
        call_ensures(ReplicaSync::peer_ops, (&change, port), ops),
        forall|ip: Seq<char>| #[trigger]
            text::texts(change.added@).contains(ip) ==> text::texts(change.all@).contains(ip),
    ensures
        ({
            let (added, removed, all) = (
                text::texts(change.added@),
                text::texts(change.removed@),
                text::texts(change.all@),
            );
            let endpoint = "tcp://"@ + peer + ":"@ + text::decimal(port as nat);
            &&& (exists|i: int|
                0 <= i < ops@.len() && (#[trigger] ops@[i]).ip@ == me && ops@[i].kind
                    == PeerOpKind::Register && ops@[i].peer_endpoint@ == endpoint) <==> me != peer
                && all.contains(me) && all.contains(peer) && (added.contains(me) || added.contains(
                peer,
            ))
            &&& (exists|i: int|
                0 <= i < ops@.len() && (#[trigger] ops@[i]).ip@ == me && ops@[i].kind
                    == PeerOpKind::Deregister && ops@[i].peer_endpoint@ == endpoint)
                <==> all.contains(me) && removed.contains(peer)
        }),
{
    let (added, removed, all) = (
        text::texts(change.added@),
        text::texts(change.removed@),
        text::texts(change.all@),
    );
    peer_calls_are_for_the_change(added, removed, all, port, me, peer);
    let endpoint = "tcp://"@ + peer + ":"@ + text::decimal(port as nat);
    lemma_op_is_listed(
        ops@,
        PeerOpView { ip: me, kind: PeerOpKind::Register, peer_endpoint: endpoint },
    );
    lemma_op_is_listed(
        ops@,
        PeerOpView { ip: me, kind: PeerOpKind::Deregister, peer_endpoint: endpoint },
    );
}

proof fn lemma_op_is_listed(ops: Seq<PeerOp>, op: PeerOpView)
    ensures
        peer_op_views(ops).contains(op) <==> exists|i: int|
            0 <= i < ops.len() && (#[trigger] ops[i]).ip@ == op.ip && ops[i].kind == op.kind
                && ops[i].peer_endpoint@ == op.peer_endpoint,
{
    let views = peer_op_views(ops);
    if views.contains(op) {
        let i = choose|i: int| 0 <= i < views.len() && views[i] == op;
        assert(ops[i]@ == op);
    }
    if exists|i: int|
        0 <= i < ops.len() && (#[trigger] ops[i]).ip@ == op.ip && ops[i].kind == op.kind
            && ops[i].peer_endpoint@ == op.peer_endpoint {
        let i = choose|i: int|
            0 <= i < ops.len() && (#[trigger] ops[i]).ip@ == op.ip && ops[i].kind == op.kind
                && ops[i].peer_endpoint@ == op.peer_endpoint;
        assert(views[i] =~= op);
    }
}

} // verus!
