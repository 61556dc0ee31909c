//! Ordered listings of the members and keys of collections.

use std::collections::{BTreeMap, BTreeSet, HashMap, HashSet};

use vstd::prelude::*;

verus! {

broadcast use vstd::laws_cmp::group_laws_cmp;

// ---------------------------------------------------------------------------
// Ascending order
// ---------------------------------------------------------------------------

/// Whether each number is larger than the ones before it.
pub open spec fn is_ascending_u64(s: Seq<u64>) -> bool {
    forall|i: int, j: int| 0 <= i < j < s.len() ==> s[i] < s[j]
}

/// Whether each number is larger than the ones before it.
pub open spec fn is_ascending_u32(s: Seq<u32>) -> bool {
    forall|i: int, j: int| 0 <= i < j < s.len() ==> s[i] < s[j]
}

/// The members of a finite set of numbers, smallest first.
pub open spec fn ascending_u64(s: Set<u64>) -> Seq<u64> {
    s.to_sorted_seq(|a: u64, b: u64| a <= b)
}

/// The members of a finite set of numbers, smallest first.
pub open spec fn ascending_u32(s: Set<u32>) -> Seq<u32> {
    s.to_sorted_seq(|a: u32, b: u32| a <= b)
}

proof fn lemma_to_seq_once<A>(s: Set<A>)
    requires
        s.finite(),
    ensures
        s.to_seq().no_duplicates(),
        s.to_seq().to_set() == s,
    decreases s.len(),
{
    s.lemma_to_seq_to_set_id();
    if s.len() != 0 {
        let x = s.choose();
        let rest = s.remove(x);
        lemma_to_seq_once(rest);
        let head = Seq::<A>::empty().push(x);
        assert(s.to_seq() == head + rest.to_seq());
        assert(!rest.to_seq().contains(x)) by {
            assert(!rest.to_seq().to_set().contains(x));
        }
    }
}

proof fn lemma_same_members<A>(a: Seq<A>, b: Seq<A>)
    requires
        a.no_duplicates(),
        b.no_duplicates(),
        a.to_set() == b.to_set(),
    ensures
        a.to_multiset() == b.to_multiset(),
{
    broadcast use vstd::seq_lib::group_to_multiset_ensures;

    a.lemma_multiset_has_no_duplicates();
    b.lemma_multiset_has_no_duplicates();
    assert forall|x: A| a.to_multiset().count(x) == b.to_multiset().count(x) by {
        assert(a.to_set().contains(x) == a.contains(x));
        assert(b.to_set().contains(x) == b.contains(x));
        assert(a.contains(x) <==> a.to_multiset().count(x) > 0);
        assert(b.contains(x) <==> b.to_multiset().count(x) > 0);
    }
    assert(a.to_multiset() =~= b.to_multiset());
}

proof fn lemma_same_multiset_members<A>(a: Seq<A>, b: Seq<A>)
    requires
        a.no_duplicates(),
        a.to_multiset() == b.to_multiset(),
    ensures
        b.no_duplicates(),
        forall|x: A| a.contains(x) == b.contains(x),
{
    broadcast use vstd::seq_lib::group_to_multiset_ensures;

    a.lemma_multiset_has_no_duplicates();
    b.lemma_multiset_has_no_duplicates_conv();
    assert forall|x: A| a.contains(x) == b.contains(x) by {
        assert(a.contains(x) <==> a.to_multiset().count(x) > 0);
        assert(b.contains(x) <==> b.to_multiset().count(x) > 0);
    }
}

/// A sorted listing of a set without repetition is the only one.
pub(crate) proof fn lemma_sorted_listing<A>(q: Seq<A>, s: Set<A>, leq: spec_fn(A, A) -> bool)
    requires
        vstd::relations::total_ordering(leq),
        vstd::relations::sorted_by(q, leq),
        q.no_duplicates(),
        q.to_set() == s,
    ensures
        q == s.to_sorted_seq(leq),
{
    vstd::seq_lib::seq_to_set_is_finite(q);
    lemma_to_seq_once(s);
    s.to_seq().lemma_sort_by_ensures(leq);
    lemma_same_members(q, s.to_seq());
    vstd::seq_lib::lemma_sorted_unique(q, s.to_sorted_seq(leq), leq);
}

/// The sorted listing of a finite set is sorted and holds its members, each once.
pub(crate) proof fn lemma_sorted_listing_members<A>(s: Set<A>, leq: spec_fn(A, A) -> bool)
    requires
        vstd::relations::total_ordering(leq),
        s.finite(),
    ensures
        vstd::relations::sorted_by(s.to_sorted_seq(leq), leq),
        s.to_sorted_seq(leq).no_duplicates(),
        s.to_sorted_seq(leq).to_set() == s,
        forall|x: A| #[trigger] s.to_sorted_seq(leq).contains(x) <==> s.contains(x),
        s.to_sorted_seq(leq).len() == s.len(),
{
    let q = s.to_sorted_seq(leq);
    lemma_to_seq_once(s);
    s.to_seq().lemma_sort_by_ensures(leq);
    lemma_same_multiset_members(s.to_seq(), q);
    assert(q.to_set() =~= s) by {
        assert forall|x: A| q.to_set().contains(x) == s.contains(x) by {
            assert(s.to_seq().to_set().contains(x) == s.to_seq().contains(x));
        }
    }
    assert forall|x: A| #[trigger] q.contains(x) implies s.contains(x) by {
        assert(q.to_set().contains(x));
    }
    assert forall|x: A| s.contains(x) implies #[trigger] q.contains(x) by {
        assert(q.to_set().contains(x));
    }
    q.unique_seq_to_set();
}

/// The ascending listing of a set is the only one.
pub proof fn lemma_ascending_u64(q: Seq<u64>, s: Set<u64>)
    requires
        is_ascending_u64(q),
        q.to_set() == s,
    ensures
        q == ascending_u64(s),
{
    lemma_sorted_listing(q, s, |a: u64, b: u64| a <= b);
}

/// The ascending listing of a set holds its members, each once.
pub proof fn lemma_ascending_u64_members(s: Set<u64>)
    requires
        s.finite(),
    ensures
        is_ascending_u64(ascending_u64(s)),
        ascending_u64(s).to_set() == s,
        forall|x: u64| #[trigger] ascending_u64(s).contains(x) <==> s.contains(x),
        ascending_u64(s).len() == s.len(),
{
    let leq = |a: u64, b: u64| a <= b;
    let q = ascending_u64(s);
    lemma_sorted_listing_members(s, leq);
    assert forall|i: int, j: int| 0 <= i < j < q.len() implies q[i] < q[j] by {
        assert(leq(q[i], q[j]));
    }
}

/// The ascending listing of a set is the only one.
pub proof fn lemma_ascending_u32(q: Seq<u32>, s: Set<u32>)
    requires
        is_ascending_u32(q),
        q.to_set() == s,
    ensures
        q == ascending_u32(s),
{
    lemma_sorted_listing(q, s, |a: u32, b: u32| a <= b);
}

proof fn lemma_u32_below_finite(n: nat)
    ensures
        Set::new(|x: u32| x < n).finite(),
    decreases n,
{
    let below = Set::new(|x: u32| x < n);
    if n == 0 {
        assert(below =~= Set::<u32>::empty());
    } else {
        let less = Set::new(|x: u32| x < n - 1);
        lemma_u32_below_finite((n - 1) as nat);
        if n - 1 <= u32::MAX {
            assert(below =~= less.insert((n - 1) as u32));
        } else {
            assert(below =~= less);
        }
    }
}

/// Every set of ranks is finite.
pub proof fn lemma_u32_set_finite(s: Set<u32>)
    ensures
        s.finite(),
{
    let n = (u32::MAX + 1) as nat;
    lemma_u32_below_finite(n);
    vstd::set_lib::lemma_len_subset(s, Set::new(|x: u32| x < n));
}

/// Sets with the same ascending listing are the same.
pub proof fn lemma_same_ascending_u32(a: Set<u32>, b: Set<u32>)
    requires
        ascending_u32(a) == ascending_u32(b),
    ensures
        a == b,
{
    let leq = |x: u32, y: u32| x <= y;
    lemma_u32_set_finite(a);
    lemma_u32_set_finite(b);
    lemma_sorted_listing_members(a, leq);
    lemma_sorted_listing_members(b, leq);
}

// ---------------------------------------------------------------------------
// Listings
// ---------------------------------------------------------------------------

/// Order of pairs: by the first number, then by the second.
pub open spec fn pair_less(a: (u64, u32), b: (u64, u32)) -> bool {
    a.0 < b.0 || (a.0 == b.0 && a.1 < b.1)
}

proof fn lemma_increasing_numbers(ks: Seq<u64>)
    requires
        vstd::std_specs::btree::increasing_seq(ks),
    ensures
        is_ascending_u64(ks),
{
    assert forall|i: int, j: int| 0 <= i < j < ks.len() implies ks[i] < ks[j] by {
        assert(vstd::std_specs::cmp::OrdSpec::cmp_spec(&ks[i], &ks[j]) is Less);
    }
}

proof fn lemma_increasing_ranks(ks: Seq<u32>)
    requires
        vstd::std_specs::btree::increasing_seq(ks),
    ensures
        is_ascending_u32(ks),
{
    assert forall|i: int, j: int| 0 <= i < j < ks.len() implies ks[i] < ks[j] by {
        assert(vstd::std_specs::cmp::OrdSpec::cmp_spec(&ks[i], &ks[j]) is Less);
    }
}

proof fn lemma_increasing_pairs(ks: Seq<(u64, u32)>)
    requires
        vstd::std_specs::btree::increasing_seq(ks),
    ensures
        forall|i: int, j: int| 0 <= i < j < ks.len() ==> #[trigger] pair_less(ks[i], ks[j]),
{
    assert forall|i: int, j: int| 0 <= i < j < ks.len() implies #[trigger] pair_less(
        ks[i],
        ks[j],
    ) by {
        assert(vstd::std_specs::cmp::OrdSpec::cmp_spec(&ks[i], &ks[j]) is Less);
    }
}

/// List the keys of a map, smallest first.
pub(crate) fn ascending_keys<V>(m: &BTreeMap<u64, V>) -> (r: Vec<u64>)
    ensures
        is_ascending_u64(r@),
        r@.to_set() == m@.dom(),
        r@ == ascending_u64(m@.dom()),
{
    let mut out: Vec<u64> = Vec::new();
    let ghost items = vstd::std_specs::iter::IteratorSpec::remaining(&m.iter());
    let ghost ks = items.map_values(|kv: (&u64, &V)| *kv.0);
    for kv in it: m.iter()
        invariant
            it.seq() == items,
            ks == items.map_values(|kv: (&u64, &V)| *kv.0),
            vstd::std_specs::btree::increasing_seq(ks),
            out@ == ks.take(it.index()),
    {
        out.push(*kv.0);
        proof {
            assert(ks.take(it.index() + 1) =~= ks.take(it.index()).push(ks[it.index()]));
        }
    }
    proof {
        assert(ks.take(ks.len() as int) =~= ks);
        lemma_increasing_numbers(ks);
        assert(ks.to_set() =~= m@.dom()) by {
            assert forall|k: u64| ks.to_set().contains(k) == m@.dom().contains(k) by {
                if m@.contains_key(k) {
                    assert(items.contains((&k, &m@[k])));
                    let i = choose|i: int| 0 <= i < items.len() && items[i] == (&k, &m@[k]);
                    assert(ks[i] == k);
                }
                if ks.contains(k) {
                    let i = choose|i: int| 0 <= i < ks.len() && ks[i] == k;
                    assert(m@.contains_key(*items[i].0));
                }
            }
        }
        lemma_ascending_u64(out@, m@.dom());
    }
    out
}

/// List the keys of a map, smallest first.
pub(crate) fn ascending_ranks<V>(m: &BTreeMap<u32, V>) -> (r: Vec<u32>)
    ensures
        is_ascending_u32(r@),
        r@.to_set() == m@.dom(),
        r@ == ascending_u32(m@.dom()),
{
    let mut out: Vec<u32> = Vec::new();
    let ghost items = vstd::std_specs::iter::IteratorSpec::remaining(&m.iter());
    let ghost ks = items.map_values(|kv: (&u32, &V)| *kv.0);
    for kv in it: m.iter()
        invariant
            it.seq() == items,
            ks == items.map_values(|kv: (&u32, &V)| *kv.0),
            vstd::std_specs::btree::increasing_seq(ks),
            out@ == ks.take(it.index()),
    {
        out.push(*kv.0);
        proof {
            assert(ks.take(it.index() + 1) =~= ks.take(it.index()).push(ks[it.index()]));
        }
    }
    proof {
        assert(ks.take(ks.len() as int) =~= ks);
        lemma_increasing_ranks(ks);
        assert(ks.to_set() =~= m@.dom()) by {
            assert forall|k: u32| ks.to_set().contains(k) == m@.dom().contains(k) by {
                if m@.contains_key(k) {
                    assert(items.contains((&k, &m@[k])));
                    let i = choose|i: int| 0 <= i < items.len() && items[i] == (&k, &m@[k]);
                    assert(ks[i] == k);
                }
                if ks.contains(k) {
                    let i = choose|i: int| 0 <= i < ks.len() && ks[i] == k;
                    assert(m@.contains_key(*items[i].0));
                }
            }
        }
        lemma_ascending_u32(out@, m@.dom());
    }
    out
}

/// List the keys of a map of pairs, smallest first.
pub(crate) fn pair_keys<V>(m: &BTreeMap<(u64, u32), V>) -> (r: Vec<(u64, u32)>)
    ensures
        forall|i: int, j: int| 0 <= i < j < r@.len() ==> #[trigger] pair_less(r@[i], r@[j]),
        r@.to_set() == m@.dom(),
{
    let mut out: Vec<(u64, u32)> = Vec::new();
    let ghost items = vstd::std_specs::iter::IteratorSpec::remaining(&m.iter());
    let ghost ks = items.map_values(|kv: (&(u64, u32), &V)| *kv.0);
    for kv in it: m.iter()
        invariant
            it.seq() == items,
            ks == items.map_values(|kv: (&(u64, u32), &V)| *kv.0),
            vstd::std_specs::btree::increasing_seq(ks),
            out@ == ks.take(it.index()),
    {
        out.push(*kv.0);
        proof {
            assert(ks.take(it.index() + 1) =~= ks.take(it.index()).push(ks[it.index()]));
        }
    }
    proof {
        assert(ks.take(ks.len() as int) =~= ks);
        lemma_increasing_pairs(ks);
        assert(ks.to_set() =~= m@.dom()) by {
            assert forall|k: (u64, u32)| ks.to_set().contains(k) == m@.dom().contains(k) by {
                if m@.contains_key(k) {
                    assert(items.contains((&k, &m@[k])));
                    let i = choose|i: int| 0 <= i < items.len() && items[i] == (&k, &m@[k]);
                    assert(ks[i] == k);
                }
                if ks.contains(k) {
                    let i = choose|i: int| 0 <= i < ks.len() && ks[i] == k;
                    assert(m@.contains_key(*items[i].0));
                }
            }
        }
    }
    out
}

/// List the members of a set of pairs.
pub(crate) fn pair_members(s: &BTreeSet<(u64, u32)>) -> (r: Vec<(u64, u32)>)
    ensures
        r@.to_set() == s@,
{
    let mut out: Vec<(u64, u32)> = Vec::new();
    let ghost items = vstd::std_specs::iter::IteratorSpec::remaining(&s.iter());
    for k in it: s.iter()
        invariant
            it.seq() == items,
            out@ == items.unref().take(it.index()),
    {
        out.push(*k);
        proof {
            assert(items.unref().take(it.index() + 1) =~= items.unref().take(it.index()).push(
                items.unref()[it.index()],
            ));
        }
    }
    proof {
        assert(items.unref().take(items.len() as int) =~= items.unref());
    }
    out
}

/// List the keys of a hash map, smallest first.
pub(crate) fn ascending_hash_keys<V>(m: &HashMap<u64, V>) -> (r: Vec<u64>)
    ensures
        is_ascending_u64(r@),
        r@.to_set() == m@.dom(),
        r@ == ascending_u64(m@.dom()),
{
    let mut keys: BTreeMap<u64, ()> = BTreeMap::new();
    let ghost items = vstd::std_specs::iter::IteratorSpec::remaining(&m.iter());
    for kv in it: m.iter()
        invariant
            it.seq() == items,
            forall|k: u64|
                keys@.contains_key(k) <==> exists|i: int|
                    0 <= i < it.index() && *(#[trigger] items[i]).0 == k,
    {
        let ghost before = keys@;
        keys.insert(*kv.0, ());
        proof {
            assert forall|k: u64|
                keys@.contains_key(k) <==> exists|i: int|
                    0 <= i < it.index() + 1 && *(#[trigger] items[i]).0 == k by {
                if before.contains_key(k) {
                    let i = choose|i: int| 0 <= i < it.index() && *(#[trigger] items[i]).0 == k;
                    assert(*items[i].0 == k);
                }
                assert(*items[it.index()].0 == *kv.0);
            }
        }
    }
    proof {
        assert(keys@.dom() =~= m@.dom()) by {
            assert forall|k: u64| keys@.contains_key(k) == m@.contains_key(k) by {
                if m@.contains_key(k) {
                    assert(items.contains((&k, &m@[k])));
                    let i = choose|i: int| 0 <= i < items.len() && items[i] == (&k, &m@[k]);
                    assert(*items[i].0 == k);
                }
                if keys@.contains_key(k) {
                    let i = choose|i: int| 0 <= i < items.len() && *(#[trigger] items[i]).0 == k;
                    assert(m@.contains_key(*items[i].0));
                }
            }
        }
    }
    ascending_keys(&keys)
}

/// List the keys of a hash map, smallest first.
pub(crate) fn ascending_hash_ranks<V>(m: &HashMap<u32, V>) -> (r: Vec<u32>)
    ensures
        is_ascending_u32(r@),
        r@.to_set() == m@.dom(),
        r@ == ascending_u32(m@.dom()),
{
    let mut keys: BTreeMap<u32, ()> = BTreeMap::new();
    let ghost items = vstd::std_specs::iter::IteratorSpec::remaining(&m.iter());
    for kv in it: m.iter()
        invariant
            it.seq() == items,
            forall|k: u32|
                keys@.contains_key(k) <==> exists|i: int|
                    0 <= i < it.index() && *(#[trigger] items[i]).0 == k,
    {
        let ghost before = keys@;
        keys.insert(*kv.0, ());
        proof {
            assert forall|k: u32|
                keys@.contains_key(k) <==> exists|i: int|
                    0 <= i < it.index() + 1 && *(#[trigger] items[i]).0 == k by {
                if before.contains_key(k) {
                    let i = choose|i: int| 0 <= i < it.index() && *(#[trigger] items[i]).0 == k;
                    assert(*items[i].0 == k);
                }
                assert(*items[it.index()].0 == *kv.0);
            }
        }
    }
    proof {
        assert(keys@.dom() =~= m@.dom()) by {
            assert forall|k: u32| keys@.contains_key(k) == m@.contains_key(k) by {
                if m@.contains_key(k) {
                    assert(items.contains((&k, &m@[k])));
                    let i = choose|i: int| 0 <= i < items.len() && items[i] == (&k, &m@[k]);
                    assert(*items[i].0 == k);
                }
                if keys@.contains_key(k) {
                    let i = choose|i: int| 0 <= i < items.len() && *(#[trigger] items[i]).0 == k;
                    assert(m@.contains_key(*items[i].0));
                }
            }
        }
    }
    ascending_ranks(&keys)
}

/// List the members of a hash set, smallest first.
pub(crate) fn ascending_hash_members(s: &HashSet<u64>) -> (r: Vec<u64>)
    ensures
        is_ascending_u64(r@),
        r@.to_set() == s@,
        r@ == ascending_u64(s@),
{
    let mut keys: BTreeMap<u64, ()> = BTreeMap::new();
    let ghost items = vstd::std_specs::iter::IteratorSpec::remaining(&s.iter());
    for k in it: s.iter()
        invariant
            it.seq() == items,
            forall|k: u64|
                keys@.contains_key(k) <==> exists|i: int|
                    0 <= i < it.index() && *(#[trigger] items[i]) == k,
    {
        let ghost before = keys@;
        keys.insert(*k, ());
        proof {
            assert forall|key: u64|
                keys@.contains_key(key) <==> exists|i: int|
                    0 <= i < it.index() + 1 && *(#[trigger] items[i]) == key by {
                if before.contains_key(key) {
                    let i = choose|i: int| 0 <= i < it.index() && *(#[trigger] items[i]) == key;
                    assert(*items[i] == key);
                }
                assert(*items[it.index()] == *k);
            }
        }
    }
    proof {
        assert(keys@.dom() =~= s@) by {
            let members = items.unref();
            assert(members.to_set() == s@);
            assert forall|k: u64| keys@.contains_key(k) == s@.contains(k) by {
                if s@.contains(k) {
                    assert(members.to_set().contains(k));
                    let i = choose|i: int| 0 <= i < members.len() && members[i] == k;
                    assert(*items[i] == k);
                }
                if keys@.contains_key(k) {
                    let i = choose|i: int| 0 <= i < items.len() && *(#[trigger] items[i]) == k;
                    assert(members[i] == k);
                    assert(members.to_set().contains(k));
                }
            }
        }
    }
    ascending_keys(&keys)
}

/// Copy a hash set.
pub(crate) fn copy_members(s: &HashSet<u64>) -> (r: HashSet<u64>)
    ensures
        r@ == s@,
{
    let members = ascending_hash_members(s);
    let mut out: HashSet<u64> = HashSet::new();
    let mut i: usize = 0;
    while i < members.len()
        invariant
            i <= members.len(),
            out@ == members@.take(i as int).to_set(),
        decreases members.len() - i,
    {
        let ghost done = members@.take(i as int);
        out.insert(members[i]);
        i = i + 1;
        proof {
            broadcast use vstd::seq_lib::group_seq_properties;

            assert(members@.take(i as int) =~= done.push(members@[i - 1]));
            assert(out@ =~= members@.take(i as int).to_set());
        }
    }
    proof {
        assert(members@.take(members.len() as int) =~= members@);
    }
    out
}

/// The ascending listing of a set of ranks holds its members, each once, and each is
/// less than those behind it.
pub proof fn ascending_ranks_are_the_members(s: Set<u32>)
    ensures
        ascending_u32(s).len() == s.len(),
        forall|x: u32| #[trigger] ascending_u32(s).contains(x) <==> s.contains(x),
        forall|i: int, j: int|
            0 <= i < j < ascending_u32(s).len() ==> ascending_u32(s)[i] < ascending_u32(s)[j],
{
    let leq = |a: u32, b: u32| a <= b;
    let q = ascending_u32(s);
    lemma_u32_set_finite(s);
    lemma_sorted_listing_members(s, leq);
    assert forall|i: int, j: int| 0 <= i < j < q.len() implies q[i] < q[j] by {
        assert(leq(q[i], q[j]));
    }
}

/// The ascending listing of a finite set of ids holds its members, each once, and each
/// is less than those behind it.
pub proof fn ascending_ids_are_the_members(s: Set<u64>)
    requires
        s.finite(),
    ensures
        ascending_u64(s).len() == s.len(),
        forall|x: u64| #[trigger] ascending_u64(s).contains(x) <==> s.contains(x),
        forall|i: int, j: int|
            0 <= i < j < ascending_u64(s).len() ==> ascending_u64(s)[i] < ascending_u64(s)[j],
{
    lemma_ascending_u64_members(s);
}

} // verus!
