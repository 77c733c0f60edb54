//! The mathematical model of a generational slot allocator.
//!
//! An [`Arena`] says which handles denote a value, what the shared generation
//! counter holds, in which order free slots will be handed out, and how many
//! slots there are. The operations are total functions on that state.

use vstd::prelude::*;

verus! {

/// What a handle is: a slot number and the generation under which the slot
/// was filled.
pub struct Handle {
    pub index: nat,
    pub generation: nat,
}

/// The abstract state of a slot allocator that stores values of type `T`.
#[verifier::ext_equal]
pub struct Arena<T> {
    /// The handles that denote a value, each with its value.
    pub live: Map<Handle, T>,
    /// The generation counter, shared by all slots.
    pub generation: nat,
    /// The free slots in the order in which they will be handed out.
    pub free: Seq<nat>,
    /// The number of slots, free and occupied.
    pub capacity: nat,
}

/// One operation on an arena.
pub enum Op<T> {
    Reserve(nat),
    TryInsert(T),
    Insert(T),
    Remove(Handle),
    Update(Handle, T),
}

impl<T> Arena<T> {
    /// An arena without slots.
    pub open spec fn empty() -> Self {
        Arena { live: Map::empty(), generation: 0, free: Seq::empty(), capacity: 0 }
    }

    /// What holds of every reachable state. Every slot is either on the free
    /// list or the slot of exactly one live handle, and no live handle is
    /// ahead of the generation counter.
    pub open spec fn inv(self) -> bool {
        &&& self.live.dom().finite()
        &&& self.live.dom().len() + self.free.len() == self.capacity
        &&& self.free.no_duplicates()
        &&& forall|k: int| 0 <= k < self.free.len() ==> #[trigger] self.free[k] < self.capacity
        &&& forall|h: Handle| #[trigger]
            self.live.contains_key(h) ==> {
                &&& h.index < self.capacity
                &&& h.generation <= self.generation
                &&& !self.free.contains(h.index)
            }
        &&& forall|h1: Handle, h2: Handle|
            #![trigger self.live.contains_key(h1), self.live.contains_key(h2)]
            self.live.contains_key(h1) && self.live.contains_key(h2) && h1.index == h2.index
                ==> h1 == h2
    }

    /// The value that `h` denotes, if it denotes one.
    pub open spec fn get(self, h: Handle) -> Option<T> {
        if self.live.contains_key(h) {
            Some(self.live[h])
        } else {
            None
        }
    }

    /// The slot numbers `capacity, capacity + 1, ..` of `additional` new slots.
    pub open spec fn fresh(self, additional: nat) -> Seq<nat> {
        Seq::new(additional, |i: int| (self.capacity + i) as nat)
    }

    /// `additional` new slots, put in front of the free list in rising order.
    pub open spec fn reserve(self, additional: nat) -> Self {
        Arena {
            free: self.fresh(additional) + self.free,
            capacity: self.capacity + additional,
            ..self
        }
    }

    /// The handle that the next insertion without growth returns.
    pub open spec fn next_handle(self) -> Handle
        recommends
            self.free.len() > 0,
    {
        Handle { index: self.free[0], generation: self.generation }
    }

    /// `value` stored in the first free slot; nothing changes where no slot is
    /// free.
    pub open spec fn try_insert(self, value: T) -> Self {
        if self.free.len() > 0 {
            Arena {
                live: self.live.insert(self.next_handle(), value),
                free: self.free.drop_first(),
                ..self
            }
        } else {
            self
        }
    }

    /// The number of slots by which a full arena grows: as many as it has,
    /// and at least one.
    pub open spec fn growth(self) -> nat {
        if self.capacity == 0 {
            1
        } else {
            self.capacity
        }
    }

    /// The arena in which the next insertion takes place: this one where a
    /// slot is free, else this one after growing.
    pub open spec fn with_room(self) -> Self {
        if self.free.len() > 0 {
            self
        } else {
            self.reserve(self.growth())
        }
    }

    /// `value` stored, after growing where no slot is free.
    pub open spec fn insert(self, value: T) -> Self {
        self.with_room().try_insert(value)
    }

    /// The handle that the next insertion returns.
    pub open spec fn inserted(self) -> Handle {
        self.with_room().next_handle()
    }

    /// The value of `h` taken out, its slot put in front of the free list
    /// and the generation counter advanced; nothing changes where `h`
    /// denotes no value.
    pub open spec fn remove(self, h: Handle) -> Self {
        if self.live.contains_key(h) {
            Arena {
                live: self.live.remove(h),
                generation: self.generation + 1,
                free: seq![h.index] + self.free,
                ..self
            }
        } else {
            self
        }
    }

    /// The value of `h` replaced by `value`; nothing changes where `h`
    /// denotes no value.
    pub open spec fn update(self, h: Handle, value: T) -> Self {
        if self.live.contains_key(h) {
            Arena { live: self.live.insert(h, value), ..self }
        } else {
            self
        }
    }

    /// The state after one operation.
    pub open spec fn step(self, op: Op<T>) -> Self {
        match op {
            Op::Reserve(additional) => self.reserve(additional),
            Op::TryInsert(value) => self.try_insert(value),
            Op::Insert(value) => self.insert(value),
            Op::Remove(h) => self.remove(h),
            Op::Update(h, value) => self.update(h, value),
        }
    }

    /// The state after a sequence of operations, the first one first.
    pub open spec fn run(self, ops: Seq<Op<T>>) -> Self
        decreases ops.len(),
    {
        if ops.len() == 0 {
            self
        } else {
            self.run(ops.drop_last()).step(ops.last())
        }
    }

    /// `h` was removed: it denotes nothing and is behind the generation
    /// counter.
    pub open spec fn retired(self, h: Handle) -> bool {
        !self.live.contains_key(h) && h.generation < self.generation
    }
}

impl<T> Arena<T> {
    /// The empty arena is a valid state.
    pub proof fn lemma_empty_inv()
        ensures
            Self::empty().inv(),
    {
    }

    /// Growing keeps the state valid.
    pub proof fn lemma_reserve_inv(self, additional: nat)
        requires
            self.inv(),
        ensures
            self.reserve(additional).inv(),
    {
    }

    /// Storing a value in a free slot keeps the state valid.
    pub proof fn lemma_try_insert_inv(self, value: T)
        requires
            self.inv(),
        ensures
            self.try_insert(value).inv(),
    {
    }

    /// Storing a value, with growth where it is needed, keeps the state valid.
    pub proof fn lemma_insert_inv(self, value: T)
        requires
            self.inv(),
        ensures
            self.with_room().inv(),
            self.with_room().free.len() > 0,
            self.insert(value).inv(),
    {
        self.with_room().lemma_try_insert_inv(value);
    }

    /// Taking a value out keeps the state valid.
    pub proof fn lemma_remove_inv(self, h: Handle)
        requires
            self.inv(),
        ensures
            self.remove(h).inv(),
    {
    }

    /// Replacing a value keeps the state valid.
    pub proof fn lemma_update_inv(self, h: Handle, value: T)
        requires
            self.inv(),
        ensures
            self.update(h, value).inv(),
    {
    }

    /// Every operation keeps the state valid.
    pub proof fn lemma_step_inv(self, op: Op<T>)
        requires
            self.inv(),
        ensures
            self.step(op).inv(),
    {
        match op {
            Op::Reserve(additional) => self.lemma_reserve_inv(additional),
            Op::TryInsert(value) => self.lemma_try_insert_inv(value),
            Op::Insert(value) => self.lemma_insert_inv(value),
            Op::Remove(h) => self.lemma_remove_inv(h),
            Op::Update(h, value) => self.lemma_update_inv(h, value),
        }
    }

    /// Every sequence of operations keeps the state valid.
    pub proof fn lemma_run_inv(self, ops: Seq<Op<T>>)
        requires
            self.inv(),
        ensures
            self.run(ops).inv(),
        decreases ops.len(),
    {
        if ops.len() > 0 {
            self.lemma_run_inv(ops.drop_last());
            self.run(ops.drop_last()).lemma_step_inv(ops.last());
        }
    }
}

impl<T> Arena<T> {
    /// After growing by at least one slot, a slot is free, and the first of
    /// the new slots is the one handed out next.
    pub proof fn lemma_reserve_makes_room(self, additional: nat)
        requires
            additional >= 1,
        ensures
            self.reserve(additional).free.len() > 0,
            self.reserve(additional).next_handle() == (Handle {
                index: self.capacity,
                generation: self.generation,
            }),
    {
    }

    /// No operation takes slots away or turns the generation counter back,
    /// and only a removal that finds a value advances the counter, by one.
    pub proof fn lemma_step_monotone(self, op: Op<T>)
        ensures
            self.step(op).capacity >= self.capacity,
            self.step(op).generation >= self.generation,
            self.step(op).generation == self.generation + (if op matches Op::Remove(h)
                && self.live.contains_key(h) {
                1nat
            } else {
                0nat
            }),
    {
    }

    /// No sequence of operations takes slots away or turns the generation
    /// counter back.
    pub proof fn lemma_run_monotone(self, ops: Seq<Op<T>>)
        ensures
            self.run(ops).capacity >= self.capacity,
            self.run(ops).generation >= self.generation,
        decreases ops.len(),
    {
        if ops.len() > 0 {
            self.lemma_run_monotone(ops.drop_last());
            self.run(ops.drop_last()).lemma_step_monotone(ops.last());
        }
    }

    /// No operation brings a retired handle back: the generation counter
    /// never falls, and a value is only ever stored under the counter's
    /// current value.
    pub proof fn lemma_step_keeps_retired(self, h: Handle, op: Op<T>)
        requires
            self.retired(h),
        ensures
            self.step(op).retired(h),
    {
    }

    /// No sequence of operations brings a retired handle back.
    pub proof fn lemma_run_keeps_retired(self, h: Handle, ops: Seq<Op<T>>)
        requires
            self.retired(h),
        ensures
            self.run(ops).retired(h),
        decreases ops.len(),
    {
        if ops.len() > 0 {
            self.lemma_run_keeps_retired(h, ops.drop_last());
            self.run(ops.drop_last()).lemma_step_keeps_retired(h, ops.last());
        }
    }

    /// Once the value of a handle has been removed, the handle denotes
    /// nothing after any further sequence of operations, also where a later
    /// insertion has reused its slot: looking it up finds nothing, and
    /// removing it again changes nothing.
    pub proof fn lemma_removed_stays_absent(self, h: Handle, ops: Seq<Op<T>>)
        requires
            self.inv(),
            self.live.contains_key(h),
        ensures
            self.remove(h).run(ops).get(h) is None,
            self.remove(h).run(ops).remove(h) == self.remove(h).run(ops),
    {
        self.remove(h).lemma_run_keeps_retired(h, ops);
    }

    /// A value is found under the handle that its insertion returned, and
    /// that handle denoted nothing before.
    pub proof fn lemma_insert_then_get(self, value: T)
        requires
            self.inv(),
        ensures
            self.insert(value).get(self.inserted()) == Some(value),
            self.get(self.inserted()) is None,
    {
        self.lemma_insert_inv(value);
    }

    /// Insertion changes nothing that was there: every handle that denoted
    /// a value denotes the same value afterwards.
    pub proof fn lemma_insert_keeps_others(self, value: T, h: Handle)
        requires
            self.inv(),
            self.live.contains_key(h),
        ensures
            self.insert(value).get(h) == self.get(h),
    {
        self.lemma_insert_then_get(value);
    }

    /// The slot of the value removed last is the one filled next, under the
    /// generation that the removal advanced to.
    pub proof fn lemma_remove_then_insert_reuses_slot(self, h: Handle)
        requires
            self.inv(),
            self.live.contains_key(h),
        ensures
            self.remove(h).inserted() == (Handle {
                index: h.index,
                generation: self.generation + 1,
            }),
            self.remove(h).inserted() != h,
    {
    }

    /// Insertion into a full arena succeeds: the arena grows by at least one
    /// slot, by as many as it had, and holds the value in the first new slot.
    pub proof fn lemma_insert_into_full_grows(self, value: T)
        requires
            self.inv(),
            self.free.len() == 0,
        ensures
            self.insert(value).capacity == self.capacity + self.growth(),
            self.insert(value).capacity >= self.capacity + 1,
            self.inserted() == (Handle { index: self.capacity, generation: self.generation }),
            self.insert(value).get(self.inserted()) == Some(value),
    {
        self.lemma_insert_then_get(value);
    }

    /// The number of live handles is that of the insertions made less that
    /// of the removals that found a value: each insertion adds one, each
    /// such removal takes one away, and nothing else changes it. Together
    /// with the free slots they make up the capacity.
    pub proof fn lemma_count(self, value: T, h: Handle, additional: nat)
        requires
            self.inv(),
        ensures
            self.live.dom().len() + self.free.len() == self.capacity,
            self.insert(value).live.dom().len() == self.live.dom().len() + 1,
            self.try_insert(value).live.dom().len() == self.live.dom().len() + (if self.free.len()
                > 0 {
                1nat
            } else {
                0nat
            }),
            self.remove(h).live.dom().len() + (if self.live.contains_key(h) {
                1nat
            } else {
                0nat
            }) == self.live.dom().len(),
            self.update(h, value).live.dom().len() == self.live.dom().len(),
            self.reserve(additional).live.dom().len() == self.live.dom().len(),
    {
        self.lemma_insert_then_get(value);
    }
}

} // verus!
