//! A bounded set of message identifiers that forgets its eldest entry when
//! it grows past its capacity.

use std::collections::VecDeque;
use vstd::hash_set::StringHashSet;
use vstd::prelude::*;

verus! {

/// What a ring holds after `id` has been offered to it: a known identifier
/// changes nothing, a new one goes to the back, and the eldest leaves when
/// the ring has outgrown `max`.
pub open spec fn ring_insert(ring: Seq<Seq<char>>, id: Seq<char>, max: nat) -> Seq<Seq<char>> {
    if ring.contains(id) {
        ring
    } else if ring.len() + 1 > max {
        ring.push(id).drop_first()
    } else {
        ring.push(id)
    }
}

/// The ring after a run of identifiers has been offered, first to last.
pub open spec fn ring_insert_all(ring: Seq<Seq<char>>, ids: Seq<Seq<char>>, max: nat) -> Seq<
    Seq<char>,
>
    decreases ids.len(),
{
    if ids.len() == 0 {
        ring
    } else {
        ring_insert_all(ring_insert(ring, ids[0], max), ids.drop_first(), max)
    }
}

/// A ring never holds more than `max` identifiers and never one twice.
pub open spec fn ring_ok(ring: Seq<Seq<char>>, max: nat) -> bool {
    &&& ring.len() <= max
    &&& ring.no_duplicates()
}

/// The identifiers that a ring holds, as a set.
pub open spec fn members(ring: Seq<Seq<char>>) -> Set<Seq<char>> {
    Set::new(|id: Seq<char>| ring.contains(id))
}

/// Identifiers seen in this session: a set to look them up in, and a
/// queue that keeps them in the order in which they came.
pub struct DedupeRing {
    seen: StringHashSet,
    order: VecDeque<String>,
    max: usize,
}

impl DedupeRing {
    /// The identifiers held, eldest first.
    pub closed spec fn view(&self) -> Seq<Seq<char>> {
        self.order@.map_values(|s: String| s@)
    }

    /// The largest number of identifiers the ring keeps.
    pub closed spec fn capacity(&self) -> nat {
        self.max as nat
    }

    /// The ring is within its bounds, and its set holds what its queue
    /// holds: every ring made by `new` and changed by `observe` is so.
    pub closed spec fn wf(&self) -> bool {
        &&& ring_ok(self@, self.capacity())
        &&& self.seen@ == members(self@)
    }

    /// An empty ring that keeps at most `max` identifiers.
    pub fn new(max: usize) -> (r: Self)
        ensures
            r.wf(),
            r@ == Seq::<Seq<char>>::empty(),
            r.capacity() == max,
    {
        let r = DedupeRing { seen: StringHashSet::new(), order: VecDeque::new(), max };
        assert(r@ =~= Seq::<Seq<char>>::empty());
        assert(r.seen@ =~= members(r@));
        r
    }

    /// The number of identifiers held.
    pub fn len(&self) -> (n: usize)
        ensures
            n == self@.len(),
            self.wf() ==> n <= self.capacity(),
    {
        self.order.len()
    }

    /// The capacity the ring was made with.
    pub fn max(&self) -> (n: usize)
        ensures
            n == self.capacity(),
    {
        self.max
    }

    /// Whether `id` is held.
    pub fn contains(&self, id: &str) -> (found: bool)
        requires
            self.wf(),
        ensures
            found == self@.contains(id@),
    {
        self.seen.contains(id)
    }

    /// Offers `id` to the ring and says whether it was already held. A new
    /// identifier is remembered, and the eldest forgotten on overflow.
    pub fn observe(&mut self, id: &str) -> (duplicate: bool)
        requires
            old(self).wf(),
        ensures
            final(self).wf(),
            duplicate == old(self)@.contains(id@),
            final(self)@ == ring_insert(old(self)@, id@, old(self).capacity()),
            final(self).capacity() == old(self).capacity(),
    {
        if self.seen.contains(id) {
            return true;
        }
        let ghost before = self@;
        let _ = self.seen.insert(id.to_owned());
        self.order.push_back(id.to_owned());
        assert(self@ =~= before.push(id@));
        proof {
            lemma_push_fresh(before, id@);
            lemma_members_push(before, id@);
        }
        if self.order.len() > self.max {
            let ghost grown = self@;
            match self.order.pop_front() {
                Some(eldest) => {
                    let _ = self.seen.remove(eldest.as_str());
                    assert(self@ =~= grown.drop_first());
                    proof {
                        lemma_drop_first_no_duplicates(grown);
                        lemma_members_drop_first(grown);
                    }
                },
                None => {},
            }
        }
        false
    }
}

proof fn lemma_members_push(ring: Seq<Seq<char>>, id: Seq<char>)
    ensures
        members(ring.push(id)) == members(ring).insert(id),
{
    let grown = ring.push(id);
    assert forall|x: Seq<char>| members(grown).contains(x) == members(ring).insert(id).contains(
        x,
    ) by {
        if ring.contains(x) {
            let k = choose|k: int| 0 <= k < ring.len() && ring[k] == x;
            assert(grown[k] == x);
        }
        if x == id {
            assert(grown[ring.len() as int] == id);
        }
        if grown.contains(x) {
            let k = choose|k: int| 0 <= k < grown.len() && grown[k] == x;
            if k < ring.len() {
                assert(ring[k] == x);
            }
        }
    }
    assert(members(grown) =~= members(ring).insert(id));
}

proof fn lemma_members_drop_first(ring: Seq<Seq<char>>)
    requires
        ring.len() > 0,
        ring.no_duplicates(),
    ensures
        members(ring.drop_first()) == members(ring).remove(ring[0]),
{
    let rest = ring.drop_first();
    assert forall|x: Seq<char>| members(rest).contains(x) == members(ring).remove(ring[0]).contains(
        x,
    ) by {
        if rest.contains(x) {
            let k = choose|k: int| 0 <= k < rest.len() && rest[k] == x;
            assert(ring[k + 1] == x);
        }
        if ring.contains(x) && x != ring[0] {
            let k = choose|k: int| 0 <= k < ring.len() && ring[k] == x;
            assert(rest[k - 1] == x);
        }
    }
    assert(members(rest) =~= members(ring).remove(ring[0]));
}

/// Whether two strings hold the same characters.
pub fn str_same(a: &str, b: &str) -> (same: bool)
    ensures
        same == (a@ == b@),
{
    let x: String = a.to_owned();
    let y: String = b.to_owned();
    x == y
}

proof fn lemma_push_fresh(ring: Seq<Seq<char>>, id: Seq<char>)
    requires
        ring.no_duplicates(),
        !ring.contains(id),
    ensures
        ring.push(id).no_duplicates(),
{
    let grown = ring.push(id);
    assert forall|i: int, j: int| 0 <= i < grown.len() && 0 <= j < grown.len() && i != j implies grown[i]
        != grown[j] by {
        if i < ring.len() && j < ring.len() {
        } else if i < ring.len() {
            assert(ring.contains(ring[i]));
        } else {
            assert(ring.contains(ring[j]));
        }
    }
}

proof fn lemma_drop_first_no_duplicates(ring: Seq<Seq<char>>)
    requires
        ring.len() > 0,
        ring.no_duplicates(),
    ensures
        ring.drop_first().no_duplicates(),
{
    let rest = ring.drop_first();
    assert forall|i: int, j: int| 0 <= i < rest.len() && 0 <= j < rest.len() && i != j implies rest[i]
        != rest[j] by {
        assert(rest[i] == ring[i + 1]);
        assert(rest[j] == ring[j + 1]);
    }
}

/// Offering an identifier keeps a ring within its bounds.
pub proof fn lemma_ring_insert_ok(ring: Seq<Seq<char>>, id: Seq<char>, max: nat)
    requires
        ring_ok(ring, max),
    ensures
        ring_ok(ring_insert(ring, id, max), max),
{
    if !ring.contains(id) {
        lemma_push_fresh(ring, id);
        if ring.len() + 1 > max {
            lemma_drop_first_no_duplicates(ring.push(id));
        }
    }
}

/// The place of `id` in `ring`, counted from the back; the ring's length
/// where it is absent.
pub open spec fn age(ring: Seq<Seq<char>>, id: Seq<char>) -> int {
    if ring.contains(id) {
        ring.len() - 1 - ring.index_of(id)
    } else {
        ring.len() as int
    }
}

proof fn lemma_age_after_insert(ring: Seq<Seq<char>>, id: Seq<char>, other: Seq<char>, max: nat)
    requires
        ring_ok(ring, max),
        ring.contains(id),
        age(ring, id) + 1 < max,
    ensures
        ring_insert(ring, other, max).contains(id),
        age(ring_insert(ring, other, max), id) <= age(ring, id) + 1,
{
    let next = ring_insert(ring, other, max);
    let p = ring.index_of(id);
    lemma_ring_insert_ok(ring, other, max);
    if ring.contains(other) {
    } else if ring.len() + 1 > max {
        assert(ring.len() == max);
        assert(p >= 1);
        let grown = ring.push(other);
        assert(grown[p] == id);
        assert(next[p - 1] == grown[p]);
        assert(next.contains(id));
        let q = next.index_of(id);
        assert(next[q] == id);
        assert(q == p - 1) by {
            if q != p - 1 {
                assert(next[q] == next[p - 1]);
            }
        }
    } else {
        let grown = ring.push(other);
        assert(grown[p] == id);
        assert(next.contains(id));
        let q = next.index_of(id);
        assert(next[q] == id);
        assert(q == p) by {
            if q != p {
                assert(next[q] == next[p]);
            }
        }
    }
}

proof fn lemma_survives(ring: Seq<Seq<char>>, id: Seq<char>, others: Seq<Seq<char>>, max: nat)
    requires
        ring_ok(ring, max),
        ring.contains(id),
        age(ring, id) + others.len() < max,
    ensures
        ring_insert_all(ring, others, max).contains(id),
    decreases others.len(),
{
    if others.len() > 0 {
        lemma_age_after_insert(ring, id, others[0], max);
        lemma_ring_insert_ok(ring, others[0], max);
        lemma_survives(ring_insert(ring, others[0], max), id, others.drop_first(), max);
    }
}

/// An identifier that the ring took in is still held after fewer than
/// `max` further identifiers have been offered, whatever they are: within
/// the ring's capacity a second delivery is always recognised.
pub proof fn lemma_second_delivery_is_duplicate(
    ring: Seq<Seq<char>>,
    id: Seq<char>,
    others: Seq<Seq<char>>,
    max: nat,
)
    requires
        ring_ok(ring, max),
        !ring.contains(id),
        others.len() < max,
    ensures
        ring_insert_all(ring_insert(ring, id, max), others, max).contains(id),
{
    let first = ring_insert(ring, id, max);
    lemma_ring_insert_ok(ring, id, max);
    let grown = ring.push(id);
    assert(grown[ring.len() as int] == id);
    if ring.len() + 1 > max {
        assert(first[ring.len() - 1] == grown[ring.len() as int]);
    }
    assert(first.contains(id)) by {
        assert(first[first.len() - 1] == id);
    }
    let q = first.index_of(id);
    assert(first[q] == id);
    assert(q == first.len() - 1) by {
        if q != first.len() - 1 {
            assert(first[q] == first[first.len() - 1]);
        }
    }
    lemma_survives(first, id, others, max);
}

} // verus!
