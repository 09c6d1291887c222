use crate::drive_id::DriveId;
use vstd::prelude::*;

verus! {

/// Whether no two slots hold the same id.
pub open spec fn distinct_keys<V>(slots: Seq<(DriveId, V)>) -> bool {
    forall|i: int, j: int|
        0 <= i < j < slots.len() ==> (#[trigger] slots[i]).0@ != (#[trigger] slots[j]).0@
}

/// Whether some slot holds the id `k`.
pub open spec fn has_key<V>(slots: Seq<(DriveId, V)>, k: Seq<char>) -> bool {
    exists|i: int| 0 <= i < slots.len() && (#[trigger] slots[i]).0@ == k
}

/// The position of a slot that holds the id `k`.
pub open spec fn slot_of<V>(slots: Seq<(DriveId, V)>, k: Seq<char>) -> int {
    choose|i: int| 0 <= i < slots.len() && (#[trigger] slots[i]).0@ == k
}

/// The map that a list of slots stands for.
pub open spec fn slots_map<V>(slots: Seq<(DriveId, V)>) -> Map<Seq<char>, V> {
    Map::new(|k: Seq<char>| has_key(slots, k), |k: Seq<char>| slots[slot_of(slots, k)].1)
}

/// In a list without repeated ids, the slot at `i` is the one its id maps to.
pub proof fn lemma_slot_at<V>(slots: Seq<(DriveId, V)>, i: int)
    requires
        distinct_keys(slots),
        0 <= i < slots.len(),
    ensures
        has_key(slots, slots[i].0@),
        slot_of(slots, slots[i].0@) == i,
        slots_map(slots).contains_key(slots[i].0@),
        slots_map(slots)[slots[i].0@] == slots[i].1,
{
    let k = slots[i].0@;
    assert(has_key(slots, k));
    let j = slot_of(slots, k);
    assert(0 <= j < slots.len() && slots[j].0@ == k);
    if j < i {
        assert(slots[j].0@ != slots[i].0@);
    } else if i < j {
        assert(slots[i].0@ != slots[j].0@);
    }
}

/// Appending a slot with a new id adds one pair to the map.
pub proof fn lemma_push_slot<V>(slots: Seq<(DriveId, V)>, key: DriveId, value: V)
    requires
        distinct_keys(slots),
        !has_key(slots, key@),
    ensures
        distinct_keys(slots.push((key, value))),
        slots_map(slots.push((key, value))) == slots_map(slots).insert(key@, value),
{
    let after = slots.push((key, value));
    assert forall|i: int, j: int| 0 <= i < j < after.len() implies (#[trigger] after[i]).0@ != (
    #[trigger] after[j]).0@ by {
        if j < slots.len() {
            assert(slots[i].0@ != slots[j].0@);
        } else {
            assert(after[i] == slots[i]);
        }
    }
    let last = slots.len() as int;
    assert(after[last] == (key, value));
    assert forall|k: Seq<char>| has_key(after, k) <==> (has_key(slots, k) || k == key@) by {
        if has_key(slots, k) {
            let i = slot_of(slots, k);
            assert(after[i] == slots[i]);
        }
        if has_key(after, k) {
            let i = slot_of(after, k);
            if i < slots.len() {
                assert(after[i] == slots[i]);
            }
        }
    }
    assert forall|k: Seq<char>| has_key(after, k) implies #[trigger] slots_map(after)[k]
        == slots_map(slots).insert(key@, value)[k] by {
        let i = slot_of(after, k);
        lemma_slot_at(after, i);
        if i < slots.len() {
            assert(after[i] == slots[i]);
            lemma_slot_at(slots, i);
        }
    }
    assert(slots_map(after) =~= slots_map(slots).insert(key@, value));
}

/// Taking the slot at `i` out removes its id from the map.
pub proof fn lemma_remove_slot<V>(slots: Seq<(DriveId, V)>, i: int)
    requires
        distinct_keys(slots),
        0 <= i < slots.len(),
    ensures
        distinct_keys(slots.remove(i)),
        !has_key(slots.remove(i), slots[i].0@),
        slots_map(slots.remove(i)) == slots_map(slots).remove(slots[i].0@),
{
    let after = slots.remove(i);
    let gone = slots[i].0@;
    assert forall|a: int, b: int| 0 <= a < b < after.len() implies (#[trigger] after[a]).0@ != (
    #[trigger] after[b]).0@ by {
        let a0 = if a < i { a } else { a + 1 };
        let b0 = if b < i { b } else { b + 1 };
        assert(after[a] == slots[a0]);
        assert(after[b] == slots[b0]);
        assert(slots[a0].0@ != slots[b0].0@);
    }
    assert forall|k: Seq<char>| has_key(after, k) <==> (has_key(slots, k) && k != gone) by {
        if has_key(after, k) {
            let a = slot_of(after, k);
            let a0 = if a < i { a } else { a + 1 };
            assert(after[a] == slots[a0]);
            if a0 < i {
                assert(slots[a0].0@ != slots[i].0@);
            } else {
                assert(slots[i].0@ != slots[a0].0@);
            }
        }
        if has_key(slots, k) && k != gone {
            let a0 = slot_of(slots, k);
            let a = if a0 < i { a0 } else { a0 - 1 };
            assert(after[a] == slots[a0]);
        }
    }
    assert forall|k: Seq<char>| has_key(after, k) implies #[trigger] slots_map(after)[k]
        == slots_map(slots).remove(gone)[k] by {
        let a = slot_of(after, k);
        lemma_slot_at(after, a);
        let a0 = if a < i { a } else { a + 1 };
        assert(after[a] == slots[a0]);
        lemma_slot_at(slots, a0);
    }
    assert(slots_map(after) =~= slots_map(slots).remove(gone));
}

/// Replacing the value of the slot at `i` rebinds its id.
pub proof fn lemma_update_slot<V>(slots: Seq<(DriveId, V)>, i: int, value: V)
    requires
        distinct_keys(slots),
        0 <= i < slots.len(),
    ensures
        distinct_keys(slots.update(i, (slots[i].0, value))),
        slots_map(slots.update(i, (slots[i].0, value))) == slots_map(slots).insert(
            slots[i].0@,
            value,
        ),
{
    let after = slots.update(i, (slots[i].0, value));
    assert forall|a: int, b: int| 0 <= a < b < after.len() implies (#[trigger] after[a]).0@ != (
    #[trigger] after[b]).0@ by {
        assert(after[a].0 == slots[a].0);
        assert(after[b].0 == slots[b].0);
        assert(slots[a].0@ != slots[b].0@);
    }
    assert forall|k: Seq<char>| has_key(after, k) <==> has_key(slots, k) by {
        if has_key(after, k) {
            let a = slot_of(after, k);
            assert(after[a].0 == slots[a].0);
        }
        if has_key(slots, k) {
            let a = slot_of(slots, k);
            assert(after[a].0 == slots[a].0);
        }
    }
    lemma_slot_at(slots, i);
    assert forall|k: Seq<char>| has_key(after, k) implies #[trigger] slots_map(after)[k]
        == slots_map(slots).insert(slots[i].0@, value)[k] by {
        let a = slot_of(after, k);
        lemma_slot_at(after, a);
        lemma_slot_at(slots, a);
    }
    assert(slots_map(after) =~= slots_map(slots).insert(slots[i].0@, value));
}

/// A map from remote ids to values, kept as a list of slots in which no id
/// occurs twice.
pub struct IdMap<V> {
    slots: Vec<(DriveId, V)>,
}

impl<V> IdMap<V> {
    /// The invariant of the map: no id is held twice.
    pub closed spec fn wf(&self) -> bool {
        distinct_keys(self.slots@)
    }

    /// The pairs that the map holds.
    pub closed spec fn view(&self) -> Map<Seq<char>, V> {
        slots_map(self.slots@)
    }

    pub fn new() -> (r: Self)
        ensures
            r.wf(),
            r@ == Map::<Seq<char>, V>::empty(),
    {
        let r = IdMap { slots: Vec::new() };
        assert(r@ =~= Map::<Seq<char>, V>::empty());
        r
    }

    fn find(&self, key: &DriveId) -> (r: Option<usize>)
        ensures
            match r {
                Some(i) => i < self.slots@.len() && self.slots@[i as int].0@ == key@,
                None => !has_key(self.slots@, key@),
            },
    {
        let mut i: usize = 0;
        while i < self.slots.len()
            invariant
                i <= self.slots@.len(),
                forall|j: int| 0 <= j < i ==> (#[trigger] self.slots@[j]).0@ != key@,
            decreases self.slots@.len() - i,
        {
            if self.slots[i].0 == *key {
                return Some(i);
            }
            i += 1;
        }
        None
    }

    pub fn contains_key(&self, key: &DriveId) -> (r: bool)
        requires
            self.wf(),
        ensures
            r == self@.contains_key(key@),
    {
        self.find(key).is_some()
    }

    pub fn get(&self, key: &DriveId) -> (r: Option<&V>)
        requires
            self.wf(),
        ensures
            r is Some == self@.contains_key(key@),
            r is Some ==> *r.unwrap() == self@[key@],
    {
        match self.find(key) {
            Some(i) => {
                proof {
                    lemma_slot_at(self.slots@, i as int);
                }
                Some(&self.slots[i].1)
            },
            None => None,
        }
    }

    /// The value bound to `key`, to be changed in place.
    pub fn get_mut(&mut self, key: &DriveId) -> (r: Option<&mut V>)
        requires
            old(self).wf(),
        ensures
            final(self).wf(),
            r is Some == old(self)@.contains_key(key@),
            r is Some ==> *r.unwrap() == old(self)@[key@],
            r is Some ==> final(self)@ == old(self)@.insert(key@, *final(r.unwrap())),
            r is None ==> final(self)@ == old(self)@,
    {
        match self.find(key) {
            Some(i) => {
                proof {
                    lemma_slot_at(self.slots@, i as int);
                }
                let ghost before = self.slots@;
                let slot = &mut self.slots[i];
                proof {
                    lemma_update_slot(before, i as int, final(slot).1);
                }
                Some(&mut slot.1)
            },
            None => None,
        }
    }

    /// Binds `key` to `value` and hands out what it was bound to before.
    pub fn insert(&mut self, key: DriveId, value: V) -> (r: Option<V>)
        requires
            old(self).wf(),
        ensures
            final(self).wf(),
            final(self)@ == old(self)@.insert(key@, value),
            r is Some == old(self)@.contains_key(key@),
            r is Some ==> r.unwrap() == old(self)@[key@],
    {
        let previous = match self.find(&key) {
            Some(i) => {
                proof {
                    lemma_slot_at(self.slots@, i as int);
                    lemma_remove_slot(self.slots@, i as int);
                }
                let slot = self.slots.remove(i);
                Some(slot.1)
            },
            None => None,
        };
        proof {
            lemma_push_slot(self.slots@, key, value);
            assert(old(self)@.remove(key@).insert(key@, value) =~= old(self)@.insert(key@, value));
        }
        self.slots.push((key, value));
        previous
    }

    /// Unbinds `key` and hands out what it was bound to.
    pub fn remove(&mut self, key: &DriveId) -> (r: Option<V>)
        requires
            old(self).wf(),
        ensures
            final(self).wf(),
            final(self)@ == old(self)@.remove(key@),
            r is Some == old(self)@.contains_key(key@),
            r is Some ==> r.unwrap() == old(self)@[key@],
    {
        match self.find(key) {
            Some(i) => {
                proof {
                    lemma_slot_at(self.slots@, i as int);
                    lemma_remove_slot(self.slots@, i as int);
                }
                let slot = self.slots.remove(i);
                Some(slot.1)
            },
            None => {
                assert(old(self)@.remove(key@) =~= old(self)@);
                None
            },
        }
    }

    pub fn len(&self) -> (r: usize)
        requires
            self.wf(),
        ensures
            r == self@.dom().len(),
    {
        proof {
            lemma_len(self.slots@);
        }
        self.slots.len()
    }
}

/// A list without repeated ids holds as many slots as its map holds ids.
pub proof fn lemma_len<V>(slots: Seq<(DriveId, V)>)
    requires
        distinct_keys(slots),
    ensures
        slots_map(slots).dom().finite(),
        slots_map(slots).dom().len() == slots.len(),
    decreases slots.len(),
{
    if slots.len() == 0 {
        assert(slots_map(slots).dom() =~= Set::<Seq<char>>::empty());
    } else {
        let last = slots.len() - 1;
        let init = slots.remove(last);
        lemma_remove_slot(slots, last);
        lemma_len(init);
        lemma_slot_at(slots, last);
        assert(slots_map(slots).dom() =~= slots_map(init).dom().insert(slots[last].0@));
    }
}

} // verus!
