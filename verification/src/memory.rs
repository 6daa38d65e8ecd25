//! The value store: a map from ever-growing identifiers to reference-counted
//! entries. Identifiers are issued in order and never issued twice, so no
//! holder of an identifier can see it come to name another value.

use std::collections::hash_map::Entry;
use std::collections::HashMap;
use vstd::prelude::*;

verus! {

broadcast use vstd::std_specs::hash::group_hash_axioms;

/// The handle of one slot of a `Memory`.
pub type MemoryID = u64;

/// What a slot can hold.
#[derive(Clone, Copy, Debug, PartialEq, Eq, Structural)]
pub enum Value {
    /// An alias of another slot.
    Reference(MemoryID),
    /// A 32-bit signed integer.
    I32(i32),
    /// A 32-bit IEEE 754 number, held as its bit pattern.
    F32(u32),
}

/// One allocated slot: a value and the number of further owners that share it.
#[derive(Clone, Copy, Debug, PartialEq, Eq, Structural)]
pub struct MemoryEntry {
    pub value: Value,
    pub reference_count: u32,
}

impl MemoryEntry {
    /// A slot holding `value` that no further owner shares yet.
    pub fn new(value: Value) -> (entry: Self)
        ensures
            entry == (MemoryEntry { value, reference_count: 0 }),
    {
        Self { value, reference_count: 0 }
    }
}

/// The mathematical content of a `Memory`: its live entries and the next
/// identifier it will issue.
pub struct MemoryView {
    pub entries: Map<MemoryID, MemoryEntry>,
    pub next_id: MemoryID,
}

impl MemoryView {
    /// No entry and nothing issued yet.
    pub open spec fn empty() -> MemoryView {
        MemoryView { entries: Map::empty(), next_id: 0 }
    }

    /// Every live identifier was issued before: it lies below the next one.
    pub open spec fn wf(self) -> bool {
        forall|id: MemoryID| self.entries.contains_key(id) ==> id < self.next_id
    }

    /// Whether `id` names a live entry.
    pub open spec fn live(self, id: MemoryID) -> bool {
        self.entries.contains_key(id)
    }

    /// The value stored under `id`, if `id` is live.
    pub open spec fn read(self, id: MemoryID) -> Option<Value> {
        if self.live(id) {
            Some(self.entries[id].value)
        } else {
            None
        }
    }

    /// The store after `value` was put under the next identifier.
    pub open spec fn allocate(self, value: Value) -> MemoryView {
        MemoryView {
            entries: self.entries.insert(
                self.next_id,
                MemoryEntry { value, reference_count: 0 },
            ),
            next_id: (self.next_id + 1) as MemoryID,
        }
    }

    /// The store after the value under `id` was overwritten in place; the
    /// entry's reference count stays. Nothing changes if `id` is not live.
    pub open spec fn write(self, id: MemoryID, value: Value) -> MemoryView {
        if self.live(id) {
            MemoryView {
                entries: self.entries.insert(
                    id,
                    MemoryEntry { value, reference_count: self.entries[id].reference_count },
                ),
                next_id: self.next_id,
            }
        } else {
            self
        }
    }

    /// The store after one owner let go of `id`: an entry that nobody else
    /// shares is removed, a shared one loses one owner, and an identifier
    /// that is not live changes nothing.
    pub open spec fn free(self, id: MemoryID) -> MemoryView {
        if !self.live(id) {
            self
        } else if self.entries[id].reference_count == 0 {
            MemoryView { entries: self.entries.remove(id), next_id: self.next_id }
        } else {
            MemoryView {
                entries: self.entries.insert(
                    id,
                    MemoryEntry {
                        value: self.entries[id].value,
                        reference_count: (self.entries[id].reference_count - 1) as u32,
                    },
                ),
                next_id: self.next_id,
            }
        }
    }
}

/// One operation on a store. A sequence of operations is a history.
pub enum MemoryOp {
    /// Storing a value under a fresh identifier.
    Allocate(Value),
    /// Overwriting the value under an identifier in place.
    Write(MemoryID, Value),
    /// Letting go of one owner's hold on an identifier.
    Free(MemoryID),
}

/// The number of allocations in `history`.
pub open spec fn allocations(history: Seq<MemoryOp>) -> nat
    decreases history.len(),
{
    if history.len() == 0 {
        0
    } else if history.last() is Allocate {
        allocations(history.drop_last()) + 1
    } else {
        allocations(history.drop_last())
    }
}

/// A longer prefix of a history holds at least the allocations of a shorter
/// one, and more if the shorter one stops right before an allocation.
pub proof fn lemma_allocations_of_prefixes(history: Seq<MemoryOp>, i: int, j: int)
    requires
        0 <= i <= j <= history.len(),
    ensures
        allocations(history.take(i)) <= allocations(history.take(j)),
        i < j && history[i] is Allocate ==> allocations(history.take(i)) < allocations(
            history.take(j),
        ),
    decreases j - i,
{
    if i < j {
        assert(history.take(j).drop_last() =~= history.take(j - 1));
        lemma_allocations_of_prefixes(history, i, j - 1);
    }
}

impl MemoryView {
    /// The store after `op`.
    pub open spec fn apply(self, op: MemoryOp) -> MemoryView {
        match op {
            MemoryOp::Allocate(value) => self.allocate(value),
            MemoryOp::Write(id, value) => self.write(id, value),
            MemoryOp::Free(id) => self.free(id),
        }
    }

    /// The store after the operations of `history`, first to last.
    pub open spec fn apply_all(self, history: Seq<MemoryOp>) -> MemoryView
        decreases history.len(),
    {
        if history.len() == 0 {
            self
        } else {
            self.apply_all(history.drop_last()).apply(history.last())
        }
    }

    /// The identifier that the operation at index `at` of `history` is given
    /// if it is an allocation: the next identifier of the store that the
    /// operations before it have left.
    pub open spec fn issued_at(self, history: Seq<MemoryOp>, at: int) -> MemoryID {
        self.apply_all(history.take(at)).next_id
    }

    /// A value that was just allocated reads back, under the identifier that
    /// was issued for it, as the same value.
    pub proof fn lemma_read_after_allocate(self, value: Value)
        ensures
            self.allocate(value).read(self.next_id) == Some(value),
    {
    }

    /// Over any history the next identifier moves on by one for each
    /// allocation and by nothing else, and a well-formed store stays well
    /// formed.
    pub proof fn lemma_history_counts_allocations(self, history: Seq<MemoryOp>)
        requires
            self.next_id + allocations(history) <= u64::MAX,
        ensures
            self.apply_all(history).next_id == self.next_id + allocations(history),
            self.wf() ==> self.apply_all(history).wf(),
        decreases history.len(),
    {
        if history.len() > 0 {
            self.lemma_history_counts_allocations(history.drop_last());
        }
    }

    /// Identifiers strictly increase from each allocation to every later one
    /// of the same store, whatever was written or freed in between. So an
    /// identifier that was issued is never issued again, not even when its
    /// entry was freed right after it was allocated; and in a well-formed
    /// store a newly issued identifier names no entry that is live.
    pub proof fn lemma_identifiers_increase(self, history: Seq<MemoryOp>, i: int, j: int)
        requires
            self.next_id + allocations(history) <= u64::MAX,
            0 <= i < j < history.len(),
            history[i] is Allocate,
            history[j] is Allocate,
        ensures
            self.issued_at(history, i) < self.issued_at(history, j),
            self.wf() ==> !self.apply_all(history.take(j)).live(self.issued_at(history, j)),
    {
        lemma_allocations_of_prefixes(history, i, j);
        lemma_allocations_of_prefixes(history, j, history.len() as int);
        assert(history.take(history.len() as int) =~= history);
        self.lemma_history_counts_allocations(history.take(i));
        self.lemma_history_counts_allocations(history.take(j));
    }

    /// Freeing an entry that no further owner shares removes it: its
    /// identifier then reads as absent, and nothing else changes.
    pub proof fn lemma_free_unshared_removes(self, id: MemoryID)
        requires
            self.live(id),
            self.entries[id].reference_count == 0,
        ensures
            self.free(id).read(id) is None,
            self.free(id).entries == self.entries.remove(id),
            self.free(id).next_id == self.next_id,
    {
    }

    /// Freeing an entry that further owners share lowers its count by exactly
    /// one and leaves it readable, with the value it had.
    pub proof fn lemma_free_shared_decrements(self, id: MemoryID)
        requires
            self.live(id),
            self.entries[id].reference_count > 0,
        ensures
            self.free(id).read(id) == self.read(id),
            self.free(id).entries[id].reference_count == self.entries[id].reference_count - 1,
            self.free(id).entries.dom() == self.entries.dom(),
            self.free(id).next_id == self.next_id,
    {
        assert(self.free(id).entries.dom() =~= self.entries.dom());
    }

    /// Freeing an identifier that names no live entry changes nothing; the
    /// store keeps its size.
    pub proof fn lemma_free_unknown_is_noop(self, id: MemoryID)
        requires
            !self.live(id),
        ensures
            self.free(id) == self,
            self.free(id).entries.len() == self.entries.len(),
    {
    }
}

/// The store of all values, keyed by identifier, with the counter from which
/// identifiers are issued.
pub struct Memory {
    pub memory: HashMap<MemoryID, MemoryEntry>,
    pub current_memory_id: MemoryID,
}

impl View for Memory {
    type V = MemoryView;

    open spec fn view(&self) -> MemoryView {
        MemoryView { entries: self.memory@, next_id: self.current_memory_id }
    }
}

impl Memory {
    /// An empty store whose first identifier will be 0.
    pub fn new() -> (memory: Memory)
        ensures
            memory@ == MemoryView::empty(),
            memory@.wf(),
    {
        Memory { memory: HashMap::new(), current_memory_id: 0 }
    }

    /// Stores `value` under a fresh identifier and returns that identifier.
    ///
    /// The counter must not be exhausted: the identifier after the last one
    /// does not exist.
    pub fn allocate(&mut self, value: Value) -> (id: MemoryID)
        requires
            old(self)@.next_id < u64::MAX,
        ensures
            id == old(self)@.next_id,
            final(self)@ == old(self)@.allocate(value),
            final(self)@.next_id == id + 1,
            final(self)@.read(id) == Some(value),
            final(self)@.entries[id].reference_count == 0,
            old(self)@.wf() ==> !old(self)@.live(id) && final(self)@.wf(),
    {
        let id = self.current_memory_id;

        self.memory.insert(id, MemoryEntry::new(value));
        self.current_memory_id += 1;

        id
    }

    /// The value stored under `id`, or `None` if `id` names no live entry.
    pub fn read(&self, id: &MemoryID) -> (value: Option<&Value>)
        ensures
            match value {
                Some(v) => self@.read(*id) == Some(*v),
                None => self@.read(*id) is None,
            },
    {
        match self.memory.get(id) {
            Some(entry) => Some(&entry.value),
            None => None,
        }
    }

    /// A handle through which the value under `id` can be overwritten in
    /// place, or `None` if `id` names no live entry. What the caller leaves in
    /// the handle is what the store then holds under `id`; nothing else
    /// changes.
    pub fn read_mut(&mut self, id: &MemoryID) -> (value: Option<&mut Value>)
        ensures
            match value {
                Some(v) => old(self)@.read(*id) == Some(*v) && final(self)@ =~= old(self)@.write(
                    *id,
                    *final(v),
                ),
                None => old(self)@.read(*id) is None && final(self)@ =~= old(self)@,
            },
    {
        let ghost before = self.memory@;
        match self.memory.entry(*id) {
            Entry::Occupied(occupied) => {
                let entry = occupied.into_mut();
                Some(&mut entry.value)
            },
            Entry::Vacant(_) => {
                assert(before.remove(*id) =~= before);
                None
            },
        }
    }

    /// Lets go of one owner's hold on `id`.
    ///
    /// An entry that no further owner shares is removed, and `id` then reads
    /// as absent. An entry that others share stays readable with its count one
    /// lower. An identifier that names no live entry changes nothing. No
    /// identifier is ever handed out again on account of a `free`.
    pub fn free(&mut self, id: &MemoryID)
        ensures
            final(self)@ =~= old(self)@.free(*id),
            final(self)@.next_id == old(self)@.next_id,
            old(self)@.live(*id) && old(self)@.entries[*id].reference_count == 0
                ==> final(self)@.read(*id) is None,
            old(self)@.live(*id) && old(self)@.entries[*id].reference_count > 0 ==> {
                &&& final(self)@.read(*id) == old(self)@.read(*id)
                &&& final(self)@.entries[*id].reference_count
                    == old(self)@.entries[*id].reference_count - 1
            },
            !old(self)@.live(*id) ==> {
                &&& final(self)@ =~= old(self)@
                &&& final(self)@.entries.len() == old(self)@.entries.len()
            },
            old(self)@.wf() ==> final(self)@.wf(),
    {
        let ghost before = self.memory@;
        match self.memory.entry(*id) {
            Entry::Occupied(mut occupied) => {
                // nobody else holds the entry: it goes
                if occupied.get().reference_count == 0 {
                    occupied.remove();
                } else {
                    let entry = occupied.get_mut();
                    entry.reference_count -= 1;
                }
            },
            Entry::Vacant(_) => {
                assert(before.remove(*id) =~= before);
            },
        }
    }
}

} // verus!
