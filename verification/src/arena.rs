//! Generational-index arena.
//!
//! Entities and instancing groups are named by `ArenaId`, a slot index paired
//! with a generation. A slot's generation changes whenever its occupant is
//! removed, so an `ArenaId` kept after its value was removed no longer
//! resolves: the dangling-member failure mode of extraction is explicit and
//! checkable rather than a dangling pointer.

use vstd::prelude::*;

verus! {

/// Name of one occupant of an [`Arena`]: slot index plus the generation the
/// slot had when the occupant was inserted.
#[derive(Clone, Copy, PartialEq, Eq, Structural, Debug)]
pub struct ArenaId {
    pub index: usize,
    pub generation: u64,
}

/// One slot of an [`Arena`].
pub enum Slot<T> {
    /// Vacant; `next_generation` is the generation the next occupant will
    /// get. A slot whose generations are exhausted stays vacant forever.
    Free { next_generation: u64 },
    /// Occupied since generation `generation`.
    Occupied { generation: u64, value: T },
}

/// Growable store of values named by generational indices.
pub struct Arena<T> {
    pub slots: Vec<Slot<T>>,
}

impl<T> Arena<T> {
    /// Every occupied slot has a generation that can still be bumped on
    /// removal.
    pub open spec fn wf(self) -> bool {
        forall|i: int|
            0 <= i < self.slots.len() ==> match #[trigger] self.slots[i] {
                Slot::Occupied { generation, .. } => generation < u64::MAX,
                Slot::Free { .. } => true,
            }
    }

    /// The value `id` names, if `id` is live.
    pub open spec fn spec_get(self, id: ArenaId) -> Option<T> {
        if id.index < self.slots.len() {
            match self.slots[id.index as int] {
                Slot::Occupied { generation, value } => if generation == id.generation {
                    Some(value)
                } else {
                    None
                },
                Slot::Free { .. } => None,
            }
        } else {
            None
        }
    }

    /// True iff `id` names a live value.
    pub open spec fn contains(self, id: ArenaId) -> bool {
        self.spec_get(id) is Some
    }

    pub fn new() -> (r: Arena<T>)
        ensures
            r.wf(),
            r.slots@.len() == 0,
            forall|id: ArenaId| !r.contains(id),
    {
        Arena { slots: Vec::new() }
    }

    /// First vacant slot that still has generations left, with the
    /// generation its next occupant gets.
    fn find_free_slot(&self) -> (r: Option<(usize, u64)>)
        ensures
            match r {
                Some(p) => {
                    &&& p.0 < self.slots@.len()
                    &&& match self.slots@[p.0 as int] {
                        Slot::Free { next_generation } => next_generation == p.1 && p.1 < u64::MAX,
                        Slot::Occupied { .. } => false,
                    }
                },
                None => true,
            },
    {
        let mut i: usize = 0;
        while i < self.slots.len()
            invariant
                i <= self.slots@.len(),
            decreases self.slots@.len() - i,
        {
            match &self.slots[i] {
                Slot::Free { next_generation } => {
                    if *next_generation < u64::MAX {
                        return Some((i, *next_generation));
                    }
                },
                Slot::Occupied { .. } => {},
            }
            i = i + 1;
        }
        None
    }

    /// Inserts `value` into a vacant slot (reusing one if possible) and
    /// returns its fresh id. Ids of other live values keep resolving to the
    /// same values; the returned id did not resolve before the call.
    pub fn insert(&mut self, value: T) -> (id: ArenaId)
        requires
            old(self).wf(),
        ensures
            final(self).wf(),
            final(self).spec_get(id) == Some(value),
            !old(self).contains(id),
            forall|other: ArenaId|
                other != id ==> final(self).spec_get(other) == old(self).spec_get(other),
    {
        match self.find_free_slot() {
            Some((index, generation)) => {
                self.slots[index] = Slot::Occupied { generation, value };
                ArenaId { index, generation }
            },
            None => {
                let index = self.slots.len();
                self.slots.push(Slot::Occupied { generation: 0, value });
                ArenaId { index, generation: 0 }
            },
        }
    }

    /// Removes the value `id` names, if it is live. Afterwards `id` no
    /// longer resolves, and no other id's value changed.
    pub fn remove(&mut self, id: ArenaId) -> (r: Option<T>)
        requires
            old(self).wf(),
        ensures
            final(self).wf(),
            r == old(self).spec_get(id),
            !final(self).contains(id),
            forall|other: ArenaId|
                other != id ==> final(self).spec_get(other) == old(self).spec_get(other),
    {
        if id.index >= self.slots.len() {
            return None;
        }
        let live = match &self.slots[id.index] {
            Slot::Occupied { generation, .. } => *generation == id.generation,
            Slot::Free { .. } => false,
        };
        if !live {
            return None;
        }
        let mut taken: Slot<T> = Slot::Free { next_generation: id.generation + 1 };
        core::mem::swap(&mut taken, &mut self.slots[id.index]);
        match taken {
            Slot::Occupied { value, .. } => Some(value),
            Slot::Free { .. } => None,
        }
    }

    /// Borrows the value `id` names, if it is live.
    pub fn get(&self, id: ArenaId) -> (r: Option<&T>)
        ensures
            match r {
                Some(v) => self.spec_get(id) == Some(*v),
                None => self.spec_get(id) is None,
            },
    {
        if id.index >= self.slots.len() {
            return None;
        }
        match &self.slots[id.index] {
            Slot::Occupied { generation, value } => if *generation == id.generation {
                Some(value)
            } else {
                None
            },
            Slot::Free { .. } => None,
        }
    }
}

} // verus!
