//! The slot table: a growable vector of slots, a free list threaded through
//! the free slots, and a generation counter shared by all slots.
//!
//! What the table means is an [`Arena`], its view. Each operation here is
//! proved to do to the view what the operation of the same name does to the
//! arena.

use crate::arena::{Arena, Handle};
use vstd::prelude::*;

verus! {

/// A handle to a value in an [`EntityMap`]: the number of a slot and the
/// generation under which the slot was filled. It owns nothing, and means
/// something only to the map that issued it.
#[derive(Clone, Copy, Debug, PartialEq, Eq, Structural)]
pub struct Entity {
    index: usize,
    generational_index: u64,
}

impl View for Entity {
    type V = Handle;

    closed spec fn view(&self) -> Handle {
        Handle { index: self.index as nat, generation: self.generational_index as nat }
    }
}

impl Entity {
    /// The handle to slot `a` as filled under generation `b`.
    pub fn new(a: usize, b: u64) -> (e: Entity)
        ensures
            e@ == (Handle { index: a as nat, generation: b as nat }),
    {
        Entity { index: a, generational_index: b }
    }

    /// The number of the slot.
    pub fn index(&self) -> (n: usize)
        ensures
            n == self@.index,
    {
        self.index
    }

    /// The generation under which the slot was filled.
    pub fn generation(&self) -> (g: u64)
        ensures
            g == self@.generation,
    {
        self.generational_index
    }

    /// Handles to the same slot under the same generation are equal.
    pub proof fn lemma_view_injective(self, other: Entity)
        requires
            self@ == other@,
        ensures
            self == other,
    {
    }
}

/// One slot of the table.
#[derive(Clone, Debug)]
enum EntityEntry<T> {
    /// Unoccupied; `next_free` is the slot that follows on the free list.
    Free { next_free: Option<usize> },
    /// Holds `value`, stored under generation `generational_index`.
    Occupied { generational_index: u64, value: T },
}

/// A table of values of type `T`, each reached through the [`Entity`] that
/// [`EntityMap::insert`] returned for it.
#[derive(Clone, Debug)]
pub struct EntityMap<T> {
    items: Vec<EntityEntry<T>>,
    generational_index: u64,
    free_list_head: Option<usize>,
    len: usize,
}

/// The number of slots of a table made by [`EntityMap::new`].
pub const DEFAULT_CAPACITY: usize = 4;

/// The link that the slot before place `k` of the free list `free` holds:
/// the slot at place `k`, or none behind the last.
spec fn link_at(free: Seq<nat>, k: int) -> Option<usize> {
    if 0 <= k < free.len() {
        Some(free[k] as usize)
    } else {
        None
    }
}

/// `free` is the free list of `slots` that starts at `head`: each slot on it
/// is free and holds the link to the next, no slot is on it twice, and every
/// free slot is on it.
spec fn is_free_chain<T>(slots: Seq<EntityEntry<T>>, head: Option<usize>, free: Seq<nat>) -> bool {
    &&& head == link_at(free, 0)
    &&& forall|k: int|
        0 <= k < free.len() ==> {
            &&& (#[trigger] free[k]) < slots.len()
            &&& slots[free[k] as int] == EntityEntry::<T>::Free { next_free: link_at(free, k + 1) }
        }
    &&& free.no_duplicates()
    &&& forall|i: nat| i < slots.len() && slots[i as int] is Free ==> #[trigger] free.contains(i)
}

/// `h` denotes the value in one of `slots`.
spec fn is_live<T>(slots: Seq<EntityEntry<T>>, h: Handle) -> bool {
    &&& h.index < slots.len()
    &&& slots[h.index as int] matches EntityEntry::Occupied { generational_index, .. }
    &&& generational_index == h.generation
}

/// The handles that denote a value in `slots`, each with its value.
spec fn live_of<T>(slots: Seq<EntityEntry<T>>) -> Map<Handle, T> {
    Map::new(|h: Handle| is_live(slots, h), |h: Handle| slots[h.index as int]->value)
}

/// The `additional` free slots that follow slot `start - 1`: each links to
/// the next, and the last to `head`.
spec fn fresh_slots<T>(start: nat, additional: nat, head: Option<usize>) -> Seq<EntityEntry<T>> {
    Seq::new(
        additional,
        |k: int|
            EntityEntry::Free {
                next_free: if k == additional - 1 {
                    head
                } else {
                    Some((start + k + 1) as usize)
                },
            },
    )
}

/// Two free lists of the same slots that start at the same head agree at
/// every place of the first.
proof fn lemma_chain_agrees<T>(
    slots: Seq<EntityEntry<T>>,
    head: Option<usize>,
    a: Seq<nat>,
    b: Seq<nat>,
    k: int,
)
    requires
        slots.len() <= usize::MAX,
        is_free_chain(slots, head, a),
        is_free_chain(slots, head, b),
        0 <= k < a.len(),
    ensures
        k < b.len(),
        a[k] == b[k],
    decreases k,
{
    if k > 0 {
        lemma_chain_agrees(slots, head, a, b, k - 1);
    } else if b.len() > 0 {
        assert(b[0] < slots.len());
    }
}

/// The slots and the head determine the free list.
proof fn lemma_chain_unique<T>(
    slots: Seq<EntityEntry<T>>,
    head: Option<usize>,
    a: Seq<nat>,
    b: Seq<nat>,
)
    requires
        slots.len() <= usize::MAX,
        is_free_chain(slots, head, a),
        is_free_chain(slots, head, b),
    ensures
        a == b,
{
    if b.len() > 0 {
        lemma_chain_agrees(slots, head, b, a, b.len() - 1);
    }
    assert forall|k: int| 0 <= k < a.len() implies a[k] == b[k] by {
        lemma_chain_agrees(slots, head, a, b, k);
    }
}

impl<T> View for EntityMap<T> {
    type V = Arena<T>;

    closed spec fn view(&self) -> Arena<T> {
        Arena {
            live: live_of(self.items@),
            generation: self.generational_index as nat,
            free: self.free_seq(),
            capacity: self.items@.len(),
        }
    }
}

impl<T> Default for EntityMap<T> {
    fn default() -> (m: EntityMap<T>)
        ensures
            m.wf(),
            m@ == Arena::<T>::empty().reserve(DEFAULT_CAPACITY as nat),
    {
        EntityMap::new()
    }
}

impl<T> EntityMap<T> {
    /// The free list, read off the links between the free slots.
    closed spec fn free_seq(&self) -> Seq<nat> {
        choose|free: Seq<nat>| is_free_chain(self.items@, self.free_list_head, free)
    }

    /// The table is consistent: the free list runs through exactly the free
    /// slots, the count is that of the occupied slots, and no stored
    /// generation is ahead of the counter.
    pub closed spec fn wf(&self) -> bool {
        &&& exists|free: Seq<nat>| is_free_chain(self.items@, self.free_list_head, free)
        &&& self.len + self.free_seq().len() == self.items@.len()
        &&& self@.live.dom().finite()
        &&& self@.live.dom().len() == self.len
        &&& forall|i: int|
            0 <= i < self.items@.len() ==> (#[trigger] self.items@[i] matches EntityEntry::Occupied {
                generational_index,
                ..
            } ==> generational_index <= self.generational_index)
    }

    /// The table is as `prior` was but for the first slot of the free list,
    /// which is off the list and counted as occupied, though not yet filled.
    pub closed spec fn reserved_from(&self, prior: &Self) -> bool {
        &&& prior.wf()
        &&& prior.free_seq().len() > 0
        &&& self.items == prior.items
        &&& self.generational_index == prior.generational_index
        &&& self.free_list_head == link_at(prior.free_seq(), 1)
        &&& self.len == prior.len + 1
    }

    /// A consistent table is a valid state of the model.
    pub proof fn lemma_wf_inv(&self)
        requires
            self.wf(),
        ensures
            self@.inv(),
    {
        assert(is_free_chain(self.items@, self.free_list_head, self.free_seq()));
    }

    /// `free` is the free list, where it is a free list of the slots from
    /// the head on.
    proof fn lemma_free_seq_is(&self, free: Seq<nat>)
        requires
            is_free_chain(self.items@, self.free_list_head, free),
        ensures
            self.free_seq() == free,
    {
        assert(self.items@.len() == self.items.len());
        lemma_chain_unique(self.items@, self.free_list_head, self.free_seq(), free);
    }

    /// A table without slots is consistent and stands for the empty arena.
    proof fn lemma_empty(&self)
        requires
            self.items@.len() == 0,
            self.free_list_head is None,
            self.generational_index == 0,
            self.len == 0,
        ensures
            self.wf(),
            self@ == Arena::<T>::empty(),
    {
        let none = Seq::<nat>::empty();
        assert(is_free_chain(self.items@, self.free_list_head, none));
        self.lemma_free_seq_is(none);
        assert(self@ =~= Arena::<T>::empty());
    }

    /// `next` is `prior` with `additional` fresh slots appended and made
    /// the head of the free list: it is consistent, and stands for the arena
    /// of `prior` after growing.
    proof fn lemma_grown(prior: &Self, next: &Self, additional: nat)
        requires
            prior.wf(),
            additional > 0,
            prior.items@.len() + additional <= usize::MAX,
            next.items@ == prior.items@ + fresh_slots::<T>(
                prior.items@.len(),
                additional,
                prior.free_list_head,
            ),
            next.free_list_head == Some(prior.items@.len() as usize),
            next.generational_index == prior.generational_index,
            next.len == prior.len,
        ensures
            next.wf(),
            next@ == prior@.reserve(additional),
    {
        let slots = next.items@;
        let before = prior.items@;
        let start = before.len();
        let old_free = prior.free_seq();
        let free = prior@.fresh(additional) + old_free;
        assert forall|j: nat| j < slots.len() && slots[j as int] is Free implies #[trigger] free.contains(
            j,
        ) by {
            if j < start {
                assert(old_free.contains(j));
                let k = choose|k: int| 0 <= k < old_free.len() && old_free[k] == j;
                assert(free[k + additional] == j);
            } else {
                assert(free[j - start] == j);
            }
        }
        next.lemma_free_seq_is(free);
        assert(next@ =~= prior@.reserve(additional));
    }

    /// `next` is `prior` with `value` stored in the first slot of the free
    /// list: it is consistent, and stands for the arena of `prior` after the
    /// insertion.
    proof fn lemma_filled(prior: &Self, next: &Self, value: T)
        requires
            prior.wf(),
            prior.free_seq().len() > 0,
            next.items@ == prior.items@.update(
                prior.free_seq()[0] as int,
                EntityEntry::Occupied { generational_index: prior.generational_index, value },
            ),
            next.free_list_head == link_at(prior.free_seq(), 1),
            next.generational_index == prior.generational_index,
            next.len == prior.len + 1,
        ensures
            next.wf(),
            next@ == prior@.try_insert(value),
    {
        let slots = next.items@;
        let before = prior.items@;
        let free = prior.free_seq();
        let rest = free.drop_first();
        assert forall|j: nat| j < slots.len() && slots[j as int] is Free implies #[trigger] rest.contains(
            j,
        ) by {
            assert(free.contains(j));
            let k = choose|k: int| 0 <= k < free.len() && free[k] == j;
            assert(rest[k - 1] == j);
        }
        next.lemma_free_seq_is(rest);
        assert(next@ =~= prior@.try_insert(value));
    }

    /// A table that holds a value holds at least one.
    proof fn lemma_holds_one(&self, h: Handle)
        requires
            self.wf(),
            self@.live.contains_key(h),
        ensures
            self.len >= 1,
    {
    }

    /// `next` is `prior` with the slot of `h` freed and made the head of the
    /// free list, and with the generation counter advanced: it is
    /// consistent, and stands for the arena of `prior` after the removal.
    proof fn lemma_freed(prior: &Self, next: &Self, h: Handle)
        requires
            prior.wf(),
            prior@.live.contains_key(h),
            next.items@ == prior.items@.update(
                h.index as int,
                EntityEntry::Free { next_free: prior.free_list_head },
            ),
            next.free_list_head == Some(h.index as usize),
            next.generational_index == prior.generational_index + 1,
            next.len == prior.len - 1,
        ensures
            next.wf(),
            next@ == prior@.remove(h),
    {
        let slots = next.items@;
        let before = prior.items@;
        let free = prior.free_seq();
        let grown = seq![h.index] + free;
        assert forall|a: int, b: int|
            0 <= a < grown.len() && 0 <= b < grown.len() && a != b implies grown[a]
            != grown[b] by {
            if b > 0 {
                assert(before[free[b - 1] as int] is Free);
            }
        }
        assert forall|j: nat| j < slots.len() && slots[j as int] is Free implies #[trigger] grown.contains(
            j,
        ) by {
            if j == h.index {
                assert(grown[0] == j);
            } else {
                assert(free.contains(j));
                let k = choose|k: int| 0 <= k < free.len() && free[k] == j;
                assert(grown[k + 1] == j);
            }
        }
        next.lemma_free_seq_is(grown);
        prior.lemma_holds_one(h);
        assert(next@ =~= prior@.remove(h));
    }

    /// `next` is `prior` with another value in the slot of `h`: it is
    /// consistent, and stands for the arena of `prior` with that value
    /// replaced.
    proof fn lemma_value_changed(prior: &Self, next: &Self, h: Handle, value: T)
        requires
            prior.wf(),
            prior@.live.contains_key(h),
            next.items@ == prior.items@.update(
                h.index as int,
                EntityEntry::Occupied { generational_index: h.generation as u64, value },
            ),
            next.free_list_head == prior.free_list_head,
            next.generational_index == prior.generational_index,
            next.len == prior.len,
        ensures
            next.wf(),
            next@ == prior@.update(h, value),
    {
        let slots = next.items@;
        let free = prior.free_seq();
        assert(is_free_chain(slots, next.free_list_head, free));
        next.lemma_free_seq_is(free);
        assert(next@ =~= prior@.update(h, value));
    }

    /// A table of [`DEFAULT_CAPACITY`] free slots.
    pub fn new() -> (m: EntityMap<T>)
        ensures
            m.wf(),
            m@ == Arena::<T>::empty().reserve(DEFAULT_CAPACITY as nat),
    {
        EntityMap::with_capcity(DEFAULT_CAPACITY)
    }

    /// A table of `n` free slots, or of one where `n` is 0. It holds no
    /// value, its generation counter is 0, and its slots are handed out in
    /// rising order.
    pub fn with_capcity(n: usize) -> (m: EntityMap<T>)
        ensures
            m.wf(),
            m@ == Arena::<T>::empty().reserve(
                if n == 0 {
                    1
                } else {
                    n as nat
                },
            ),
    {
        let n = if n == 0 {
            1
        } else {
            n
        };
        let mut entity_map = EntityMap {
            items: Vec::new(),
            generational_index: 0,
            free_list_head: None,
            len: 0,
        };
        proof {
            entity_map.lemma_empty();
        }
        entity_map.reserve(n);
        entity_map
    }

    /// Stores `value` in the first slot of the free list, under the current
    /// generation, and returns its handle. Hands `value` back, and changes
    /// nothing, where no slot is free: it does not grow the table.
    pub fn try_insert(&mut self, value: T) -> (r: Result<Entity, T>)
        requires
            old(self).wf(),
        ensures
            final(self).wf(),
            final(self)@ == old(self)@.try_insert(value),
            match r {
                Ok(e) => old(self)@.free.len() > 0 && e@ == old(self)@.next_handle(),
                Err(v) => old(self)@.free.len() == 0 && v == value,
            },
    {
        match self.try_alloc_next_index() {
            None => Err(value),
            Some(index) => {
                self.items[index.index] = EntityEntry::Occupied {
                    generational_index: self.generational_index,
                    value,
                };
                proof {
                    Self::lemma_filled(old(self), self, value);
                }
                Ok(index)
            },
        }
    }

    /// Takes the first slot off the free list and counts it as occupied. The
    /// slot is left unfilled: the table is consistent again once a value is
    /// stored there, as [`EntityMap::try_insert`] does. Returns `None`, and
    /// changes nothing, where no slot is free.
    pub fn try_alloc_next_index(&mut self) -> (r: Option<Entity>)
        requires
            old(self).wf(),
        ensures
            match r {
                Some(e) => {
                    &&& old(self)@.free.len() > 0
                    &&& e@ == old(self)@.next_handle()
                    &&& final(self).reserved_from(old(self))
                },
                None => old(self)@.free.len() == 0 && *final(self) == *old(self),
            },
    {
        proof {
            assert(is_free_chain(self.items@, self.free_list_head, self.free_seq()));
            assert(self.items@.len() == self.items.len());
        }
        match self.free_list_head {
            None => None,
            Some(i) => {
                match self.items[i] {
                    EntityEntry::Occupied { .. } => vstd::pervasive::unreached(),
                    EntityEntry::Free { next_free } => {
                        self.free_list_head = next_free;
                        self.len += 1;
                        Some(Entity { index: i, generational_index: self.generational_index })
                    },
                }
            },
        }
    }

    /// Stores `value` under the current generation and returns its handle.
    /// It takes the first slot of the free list; where no slot is free the
    /// table first grows as [`EntityMap::insert_slow_path`] says.
    pub fn insert(&mut self, value: T) -> (e: Entity)
        requires
            old(self).wf(),
            old(self)@.free.len() == 0 ==> old(self)@.capacity + old(self)@.growth()
                <= usize::MAX,
        ensures
            final(self).wf(),
            final(self)@ == old(self)@.insert(value),
            e@ == old(self)@.inserted(),
    {
        match self.try_insert(value) {
            Ok(i) => i,
            Err(value) => self.insert_slow_path(value),
        }
    }

    /// Grows the table by as many slots as it has, and by one where it has
    /// none, then stores `value` in the first of the new slots.
    pub fn insert_slow_path(&mut self, value: T) -> (e: Entity)
        requires
            old(self).wf(),
            old(self)@.capacity + old(self)@.growth() <= usize::MAX,
        ensures
            final(self).wf(),
            final(self)@ == old(self)@.reserve(old(self)@.growth()).try_insert(value),
            e@ == old(self)@.reserve(old(self)@.growth()).next_handle(),
    {
        let len = if self.capacity() == 0 {
            1
        } else {
            self.items.len()
        };
        self.reserve(len);
        match self.try_insert(value) {
            Ok(e) => e,
            Err(_) => vstd::pervasive::unreached(),
        }
    }

    /// Takes out the value that `i` denotes and returns it. Its slot goes in
    /// front of the free list, and the generation counter advances, so that
    /// no handle issued until now will ever denote what the slot holds next.
    /// Returns `None`, and changes nothing, where `i` denotes no value.
    pub fn remove(&mut self, i: Entity) -> (r: Option<T>)
        requires
            old(self).wf(),
            old(self)@.live.contains_key(i@) ==> old(self)@.generation < u64::MAX,
        ensures
            final(self).wf(),
            final(self)@ == old(self)@.remove(i@),
            r == old(self)@.get(i@),
    {
        if i.index >= self.items.len() {
            return None;
        }
        let live = match &self.items[i.index] {
            EntityEntry::Occupied { generational_index, .. } => *generational_index
                == i.generational_index,
            EntityEntry::Free { .. } => false,
        };
        if !live {
            return None;
        }
        proof {
            self.lemma_holds_one(i@);
        }
        let mut entry = EntityEntry::Free { next_free: self.free_list_head };
        core::mem::swap(&mut self.items[i.index], &mut entry);
        self.generational_index += 1;
        self.free_list_head = Some(i.index);
        self.len -= 1;
        proof {
            Self::lemma_freed(old(self), self, i@);
        }
        match entry {
            EntityEntry::Occupied { generational_index: _, value } => Some(value),
            EntityEntry::Free { .. } => vstd::pervasive::unreached(),
        }
    }

    /// The number of slots, free and occupied.
    pub fn capacity(&self) -> (n: usize)
        ensures
            n == self@.capacity,
    {
        self.items.len()
    }

    /// The number of values in the table.
    pub fn len(&self) -> (n: usize)
        requires
            self.wf(),
        ensures
            n == self@.live.dom().len(),
    {
        self.len
    }

    /// The generation counter: the number of values removed so far, and the
    /// generation under which the next value is stored.
    pub fn generation(&self) -> (g: u64)
        ensures
            g == self@.generation,
    {
        self.generational_index
    }

    /// Whether `i` denotes a value.
    pub fn contains(&self, i: Entity) -> (b: bool)
        ensures
            b == self@.live.contains_key(i@),
    {
        self.get(i).is_some()
    }

    /// The value that `i` denotes, or `None` where it denotes none: its slot
    /// does not exist, is free, or was filled under another generation.
    pub fn get(&self, i: Entity) -> (r: Option<&T>)
        ensures
            r == (match self@.get(i@) {
                Some(value) => Some(&value),
                None => None,
            }),
    {
        if i.index < self.items.len() {
            match &self.items[i.index] {
                EntityEntry::Occupied { generational_index, value } if *generational_index
                    == i.generational_index => Some(value),
                _ => None,
            }
        } else {
            None
        }
    }

    /// The value that `i` denotes, for the caller to change, or `None` where
    /// it denotes none. The table is as before but for that value.
    pub fn get_mut(&mut self, i: Entity) -> (r: Option<&mut T>)
        requires
            old(self).wf(),
        ensures
            match r {
                Some(value) => {
                    &&& old(self)@.get(i@) == Some(*value)
                    &&& final(self)@ == old(self)@.update(i@, *final(value))
                    &&& final(self).wf()
                },
                None => old(self)@.get(i@) is None && *final(self) == *old(self),
            },
    {
        if i.index >= self.items.len() {
            return None;
        }
        let live = match &self.items[i.index] {
            EntityEntry::Occupied { generational_index, .. } => *generational_index
                == i.generational_index,
            EntityEntry::Free { .. } => false,
        };
        if !live {
            return None;
        }
        let ghost next = *final(self);
        match &mut self.items[i.index] {
            EntityEntry::Occupied { value, .. } => {
                proof {
                    Self::lemma_value_changed(old(self), &next, i@, *final(value));
                }
                Some(value)
            },
            EntityEntry::Free { .. } => None,
        }
    }

    /// Grows the table by `additional_capacity` free slots. They go in front
    /// of the free list in rising order, so the first of them is handed out
    /// next.
    pub fn reserve(&mut self, additional_capacity: usize)
        requires
            old(self).wf(),
            old(self)@.capacity + additional_capacity <= usize::MAX,
        ensures
            final(self).wf(),
            final(self)@ == old(self)@.reserve(additional_capacity as nat),
    {
        if additional_capacity == 0 {
            proof {
                assert(self@.fresh(0) + self@.free =~= self@.free);
            }
            return ;
        }
        let start = self.items.len();
        let end = start + additional_capacity;
        let old_head = self.free_list_head;
        let ghost fresh = fresh_slots::<T>(start as nat, additional_capacity as nat, old_head);
        self.items.reserve(additional_capacity);
        let mut i: usize = start;
        while i < end
            invariant
                start <= i <= end,
                end == start + additional_capacity,
                fresh == fresh_slots::<T>(start as nat, additional_capacity as nat, old_head),
                self.items@ == old(self).items@ + fresh.take(i - start),
                old(self).items@.len() == start,
                self.generational_index == old(self).generational_index,
                self.free_list_head == old(self).free_list_head,
                self.len == old(self).len,
            decreases end - i,
        {
            let next_free = if i == end - 1 {
                old_head
            } else {
                Some(i + 1)
            };
            self.items.push(EntityEntry::Free { next_free });
            proof {
                assert(fresh.take(i - start).push(fresh[i - start]) =~= fresh.take(i + 1 - start));
                assert(self.items@ =~= old(self).items@ + fresh.take(i + 1 - start));
            }
            i += 1;
        }
        self.free_list_head = Some(start);
        proof {
            assert(fresh.take(end - start) =~= fresh);
            Self::lemma_grown(old(self), self, additional_capacity as nat);
        }
    }
}

} // verus!
