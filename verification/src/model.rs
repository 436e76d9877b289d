//! The data model: one entry per instance, and the ordered index of entries.
//!
//! Contracts speak of an index as a sequence of [`Entry`] values. The order
//! of the sequence is the order of insertion. Identifiers are meant to be
//! unique ([`distinct_ids`]), yet an index read from disk may break that, so
//! every operation is defined on every sequence.

use vstd::prelude::*;

verus! {

/// One entry of the index as a mathematical value.
pub struct Entry {
    pub id: u128,
    pub name: Seq<char>,
    pub order_index: u32,
}

/// Whether some entry carries the identifier `id`.
pub open spec fn lists(entries: Seq<Entry>, id: u128) -> bool {
    exists|i: int| 0 <= i < entries.len() && (#[trigger] entries[i]).id == id
}

/// Whether position `i` holds the first entry with identifier `id`.
pub open spec fn is_first(entries: Seq<Entry>, id: u128, i: int) -> bool {
    &&& 0 <= i < entries.len()
    &&& entries[i].id == id
    &&& forall|j: int| 0 <= j < i ==> (#[trigger] entries[j]).id != id
}

/// The first entry with identifier `id`, if any entry has it.
pub open spec fn first(entries: Seq<Entry>, id: u128) -> Option<Entry> {
    if exists|i: int| is_first(entries, id, i) {
        Some(entries[choose|i: int| is_first(entries, id, i)])
    } else {
        None
    }
}

/// The entries whose identifier is not `id`, in their order.
pub open spec fn without(entries: Seq<Entry>, id: u128) -> Seq<Entry> {
    entries.filter(other_than(id))
}

/// The test that an entry's identifier is not `id`.
pub open spec fn other_than(id: u128) -> spec_fn(Entry) -> bool {
    |e: Entry| e.id != id
}

/// No identifier occurs twice.
pub open spec fn distinct_ids(entries: Seq<Entry>) -> bool {
    forall|i: int, j: int|
        0 <= i < j < entries.len() ==> (#[trigger] entries[i]).id != (#[trigger] entries[j]).id
}

/// Among the entries up to position `k`, the earliest one with the
/// identifier of `entries[k]` is a first entry.
proof fn lemma_earliest(entries: Seq<Entry>, id: u128, k: int)
    requires
        0 <= k < entries.len(),
        entries[k].id == id,
    ensures
        exists|i: int| is_first(entries, id, i),
    decreases k,
{
    if forall|j: int| 0 <= j < k ==> (#[trigger] entries[j]).id != id {
        assert(is_first(entries, id, k));
    } else {
        let j = choose|j: int| 0 <= j < k && (#[trigger] entries[j]).id == id;
        lemma_earliest(entries, id, j);
    }
}

/// An identifier has a first entry exactly when it is listed.
pub proof fn lemma_first_iff_listed(entries: Seq<Entry>, id: u128)
    ensures
        first(entries, id) is Some <==> lists(entries, id),
        first(entries, id) matches Some(e) ==> e.id == id && entries.contains(e),
{
    if lists(entries, id) {
        let k = choose|k: int| 0 <= k < entries.len() && (#[trigger] entries[k]).id == id;
        lemma_earliest(entries, id, k);
    }
    if exists|i: int| is_first(entries, id, i) {
        let i = choose|i: int| is_first(entries, id, i);
        assert(entries[i].id == id);
    }
}

/// A first entry is the one that [`first`] names.
pub proof fn lemma_first_at(entries: Seq<Entry>, id: u128, i: int)
    requires
        is_first(entries, id, i),
    ensures
        first(entries, id) == Some(entries[i]),
{
    let c = choose|c: int| is_first(entries, id, c);
    assert(is_first(entries, id, c));
    if c < i {
        assert(entries[c].id != id);
    }
    if i < c {
        assert(entries[i].id != id);
    }
}

/// Removal after an append: the appended entry stays unless it has the
/// identifier that is removed.
pub proof fn lemma_without_push(entries: Seq<Entry>, entry: Entry, id: u128)
    ensures
        without(entries.push(entry), id) == if entry.id != id {
            without(entries, id).push(entry)
        } else {
            without(entries, id)
        },
{
    entries.lemma_filter_push(entry, other_than(id));
}

/// Removal from the empty index leaves it empty.
pub proof fn lemma_without_empty(id: u128)
    ensures
        without(Seq::<Entry>::empty(), id) == Seq::<Entry>::empty(),
{
    Seq::<Entry>::empty().lemma_filter_len(other_than(id));
    assert(without(Seq::<Entry>::empty(), id) =~= Seq::<Entry>::empty());
}

/// After removal an identifier is listed exactly when it was listed before
/// and is not the one removed.
pub proof fn lemma_without_lists(entries: Seq<Entry>, id: u128, other: u128)
    ensures
        lists(without(entries, id), other) <==> other != id && lists(entries, other),
    decreases entries.len(),
{
    let kept = without(entries, id);
    if entries.len() == 0 {
        assert(entries =~= Seq::<Entry>::empty());
        lemma_without_empty(id);
    } else {
        let front = entries.drop_last();
        let last = entries.last();
        let kept_front = without(front, id);
        lemma_without_lists(front, id, other);
        assert(front.push(last) =~= entries);
        lemma_without_push(front, last, id);
        lemma_push_lists(front, last, other);
        if last.id != id {
            lemma_push_lists(kept_front, last, other);
        }
    }
}

/// Removal never adds an entry, and identifiers that were distinct stay so.
pub proof fn lemma_without_distinct(entries: Seq<Entry>, id: u128)
    ensures
        without(entries, id).len() <= entries.len(),
        distinct_ids(entries) ==> distinct_ids(without(entries, id)),
    decreases entries.len(),
{
    if entries.len() == 0 {
        assert(entries =~= Seq::<Entry>::empty());
        lemma_without_empty(id);
    } else {
        let front = entries.drop_last();
        let last = entries.last();
        lemma_without_distinct(front, id);
        assert(front.push(last) =~= entries);
        lemma_without_push(front, last, id);
        lemma_push_distinct(front, last);
        if last.id != id {
            lemma_without_lists(front, id, last.id);
            lemma_push_distinct(without(front, id), last);
        }
    }
}

/// Removing an identifier that is not listed changes nothing.
pub proof fn lemma_without_unlisted(entries: Seq<Entry>, id: u128)
    requires
        !lists(entries, id),
    ensures
        without(entries, id) == entries,
    decreases entries.len(),
{
    if entries.len() == 0 {
        assert(entries =~= Seq::<Entry>::empty());
        lemma_without_empty(id);
    } else {
        let front = entries.drop_last();
        let last = entries.last();
        assert(front.push(last) =~= entries);
        lemma_push_lists(front, last, id);
        lemma_without_unlisted(front, id);
        lemma_without_push(front, last, id);
    }
}

/// After an append an identifier is listed exactly when it was listed before
/// or is the one appended.
pub proof fn lemma_push_lists(entries: Seq<Entry>, entry: Entry, other: u128)
    ensures
        lists(entries.push(entry), other) <==> other == entry.id || lists(entries, other),
{
    let longer = entries.push(entry);
    assert(longer[entries.len() as int].id == entry.id);
    if lists(longer, other) && other != entry.id {
        let i = choose|i: int| 0 <= i < longer.len() && (#[trigger] longer[i]).id == other;
        assert(entries[i].id == other);
    }
    if lists(entries, other) {
        let i = choose|i: int| 0 <= i < entries.len() && (#[trigger] entries[i]).id == other;
        assert(longer[i].id == other);
    }
}

/// After an append the identifiers are distinct exactly when they were
/// distinct before and the new one was not listed.
pub proof fn lemma_push_distinct(entries: Seq<Entry>, entry: Entry)
    ensures
        distinct_ids(entries.push(entry)) <==> distinct_ids(entries) && !lists(entries, entry.id),
{
    let longer = entries.push(entry);
    if distinct_ids(longer) {
        assert forall|i: int, j: int| 0 <= i < j < entries.len() implies (#[trigger] entries[i]).id != (
        #[trigger] entries[j]).id by {
            assert(longer[i].id != longer[j].id);
        }
        if lists(entries, entry.id) {
            let i = choose|i: int| 0 <= i < entries.len() && (#[trigger] entries[i]).id == entry.id;
            assert(longer[i].id != longer[entries.len() as int].id);
        }
    }
    if distinct_ids(entries) && !lists(entries, entry.id) {
        assert forall|i: int, j: int| 0 <= i < j < longer.len() implies (#[trigger] longer[i]).id != (
        #[trigger] longer[j]).id by {
            if j < entries.len() {
                assert(entries[i].id != entries[j].id);
            } else {
                assert(entries[i].id != entry.id);
            }
        }
    }
}

/// A lookup after an append: an identifier that was listed keeps its first
/// entry, and the appended entry is found under its identifier only if that
/// was not listed before.
pub proof fn lemma_push_first(entries: Seq<Entry>, entry: Entry, other: u128)
    ensures
        first(entries.push(entry), other) == if lists(entries, other) {
            first(entries, other)
        } else if other == entry.id {
            Some(entry)
        } else {
            None
        },
{
    let longer = entries.push(entry);
    lemma_first_iff_listed(entries, other);
    lemma_first_iff_listed(longer, other);
    lemma_push_lists(entries, entry, other);
    if lists(entries, other) {
        let i = choose|i: int| is_first(entries, other, i);
        assert(is_first(entries, other, i));
        assert forall|j: int| 0 <= j < i implies (#[trigger] longer[j]).id != other by {
            assert(entries[j].id != other);
        }
        assert(longer[i] == entries[i]);
        lemma_first_at(longer, other, i);
    } else if other == entry.id {
        assert forall|j: int| 0 <= j < entries.len() implies (#[trigger] longer[j]).id != other by {
            assert(entries[j].id != other);
        }
        lemma_first_at(longer, other, entries.len() as int);
    }
}

/// What the index records of one instance.
#[derive(Debug, PartialEq, Eq)]
pub struct InstanceInfo {
    /// The identifier, unique and fixed once drawn.
    pub id: u128,
    /// The name shown to the user.
    pub name: String,
    /// A hint for the position in listings.
    pub order_index: u32,
}

impl View for InstanceInfo {
    type V = Entry;

    open spec fn view(&self) -> Entry {
        Entry { id: self.id, name: self.name@, order_index: self.order_index }
    }
}

impl Clone for InstanceInfo {
    fn clone(&self) -> (copy: Self)
        ensures
            copy@ == self@,
    {
        InstanceInfo { id: self.id, name: self.name.clone(), order_index: self.order_index }
    }
}

impl InstanceInfo {
    /// The entry of a newly created instance: position hint 0.
    pub fn new(id: u128, name: String) -> (info: Self)
        ensures
            info@ == (Entry { id, name: name@, order_index: 0 }),
    {
        InstanceInfo { id, name, order_index: 0 }
    }
}

/// The ordered list of all instances: the one document that is persisted.
#[derive(Debug, PartialEq, Eq)]
pub struct InstanceIndex {
    /// The entries, oldest first.
    pub instances: Vec<InstanceInfo>,
}

impl View for InstanceIndex {
    type V = Seq<Entry>;

    open spec fn view(&self) -> Seq<Entry> {
        self.instances@.map_values(|info: InstanceInfo| info@)
    }
}

impl Clone for InstanceIndex {
    fn clone(&self) -> (copy: Self)
        ensures
            copy@ == self@,
    {
        let mut instances: Vec<InstanceInfo> = Vec::new();
        let mut i: usize = 0;
        while i < self.instances.len()
            invariant
                i <= self.instances.len(),
                instances@.len() == i,
                forall|j: int| 0 <= j < i ==> (#[trigger] instances@[j])@ == self.instances@[j]@,
            decreases self.instances.len() - i,
        {
            instances.push(self.instances[i].clone());
            i += 1;
        }
        let copy = InstanceIndex { instances };
        assert(copy@ =~= self@);
        copy
    }
}

impl InstanceIndex {
    /// The invariant that the manager keeps: no identifier is listed twice.
    pub open spec fn well_formed(&self) -> bool {
        distinct_ids(self@)
    }

    /// The index without entries.
    pub fn new() -> (index: Self)
        ensures
            index@ == Seq::<Entry>::empty(),
            index.well_formed(),
    {
        let index = InstanceIndex { instances: Vec::new() };
        assert(index@ =~= Seq::<Entry>::empty());
        index
    }

    /// The number of entries.
    pub fn len(&self) -> (n: usize)
        ensures
            n == self@.len(),
    {
        self.instances.len()
    }

    /// The first entry with identifier `id`.
    pub fn find(&self, id: u128) -> (found: Option<&InstanceInfo>)
        ensures
            match found {
                Some(info) => first(self@, id) == Some(info@),
                None => first(self@, id) is None,
            },
    {
        let mut i: usize = 0;
        while i < self.instances.len()
            invariant
                i <= self.instances.len(),
                forall|j: int| 0 <= j < i ==> (#[trigger] self@[j]).id != id,
            decreases self.instances.len() - i,
        {
            if self.instances[i].id == id {
                proof {
                    assert(self@[i as int] == self.instances@[i as int]@);
                    lemma_first_at(self@, id, i as int);
                }
                return Some(&self.instances[i]);
            }
            assert(self@[i as int].id != id);
            i += 1;
        }
        proof {
            lemma_first_iff_listed(self@, id);
        }
        None
    }

    /// Whether some entry has identifier `id`.
    pub fn contains(&self, id: u128) -> (listed: bool)
        ensures
            listed == lists(self@, id),
    {
        proof {
            lemma_first_iff_listed(self@, id);
        }
        self.find(id).is_some()
    }

    /// Appends `info` behind the entries that are there, which stay as they
    /// are. The index stays well formed exactly when the identifier is new
    /// to it.
    pub fn push(&mut self, info: InstanceInfo)
        ensures
            final(self)@ == old(self)@.push(info@),
            final(self).well_formed() <==> old(self).well_formed() && !lists(old(self)@, info.id),
    {
        proof {
            lemma_push_distinct(self@, info@);
        }
        self.instances.push(info);
        assert(self@ =~= old(self)@.push(info@));
    }

    /// Removes every entry with identifier `id` and keeps the others in
    /// their order. A well-formed index stays well formed.
    pub fn remove(&mut self, id: u128)
        ensures
            final(self)@ == without(old(self)@, id),
            !lists(final(self)@, id),
            old(self).well_formed() ==> final(self).well_formed(),
    {
        let ghost initial = self@;
        proof {
            lemma_without_lists(initial, id, id);
            lemma_without_distinct(initial, id);
        }
        let ghost mut seen: int = 0;
        let mut kept: usize = 0;
        proof {
            lemma_without_empty(id);
            assert(initial.take(0) =~= Seq::<Entry>::empty());
            assert(self@.take(0) =~= Seq::<Entry>::empty());
            assert(self@.skip(0) =~= initial.skip(0));
        }
        while kept < self.instances.len()
            invariant
                0 <= seen <= initial.len(),
                kept <= self.instances.len(),
                self@.len() - kept == initial.len() - seen,
                self@.take(kept as int) == without(initial.take(seen), id),
                self@.skip(kept as int) == initial.skip(seen),
            decreases self.instances.len() - kept,
        {
            let ghost before = self@;
            let ghost head = initial.take(seen);
            proof {
                assert(before[kept as int] == before.skip(kept as int)[0]);
                assert(initial[seen] == initial.skip(seen)[0]);
                assert(initial.take(seen + 1) =~= head.push(initial[seen]));
                lemma_without_push(head, initial[seen], id);
                assert(before.skip(kept as int).skip(1) =~= before.skip(kept + 1));
                assert(initial.skip(seen).skip(1) =~= initial.skip(seen + 1));
            }
            if self.instances[kept].id == id {
                self.instances.remove(kept);
                proof {
                    assert(self@ =~= before.remove(kept as int));
                    assert(self@.take(kept as int) =~= before.take(kept as int));
                    assert(self@.skip(kept as int) =~= before.skip(kept + 1));
                }
            } else {
                kept += 1;
                proof {
                    assert(self@.take(kept as int) =~= before.take(kept - 1).push(initial[seen]));
                    assert(self@.skip(kept as int) =~= initial.skip(seen + 1));
                }
            }
            proof {
                seen = seen + 1;
            }
        }
        proof {
            assert(self@.take(kept as int) =~= self@);
            assert(initial.take(seen) =~= initial);
        }
    }
}

} // verus!
