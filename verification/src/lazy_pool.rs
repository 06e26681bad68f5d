//! Lazy allocation pool: a bounded arena of optional slots with an
//! explicit occupancy marker per slot, for structures created on demand
//! without dynamic allocation.

use vstd::prelude::*;

verus! {

/// Maximum number of slots in the lazy pool's reference sizing.
pub const MAX_POOL_SLOTS: usize = 256;

/// Occupancy marker of a slot.
#[derive(Clone, Copy, PartialEq, Eq, Structural, Debug)]
pub enum SlotState {
    Free,
    Allocated,
}

/// Pool allocation errors.
#[derive(Clone, Copy, PartialEq, Eq, Structural, Debug)]
pub enum PoolError {
    PoolFull,
    SlotInUse,
    SlotNotAllocated,
    InvalidIndex,
}

/// One pool slot: an occupancy marker and the optional payload.
#[derive(Clone, Copy)]
pub struct PoolSlot<T> {
    state: SlotState,
    data: Option<T>,
}

impl<T> PoolSlot<T> {
    /// The occupancy marker.
    pub closed spec fn spec_state(self) -> SlotState {
        self.state
    }

    /// The payload.
    pub closed spec fn spec_data(self) -> Option<T> {
        self.data
    }

    /// Marker and payload agree: exactly the allocated slots hold data.
    pub open spec fn wf(self) -> bool {
        self.spec_state() == SlotState::Allocated <==> self.spec_data() is Some
    }

    /// Create a free slot.
    pub fn new() -> (s: Self)
        ensures
            s.wf(),
            s.spec_state() == SlotState::Free,
            s.spec_data() is None,
    {
        Self { state: SlotState::Free, data: None }
    }

    /// Fill a free slot; a slot already in use is left unchanged.
    pub fn allocate(&mut self, data: T) -> (r: Result<(), PoolError>)
        requires
            old(self).wf(),
        ensures
            final(self).wf(),
            if old(self).spec_state() == SlotState::Free {
                &&& r == Ok::<(), PoolError>(())
                &&& final(self).spec_state() == SlotState::Allocated
                &&& final(self).spec_data() == Some(data)
            } else {
                &&& r == Err::<(), PoolError>(PoolError::SlotInUse)
                &&& *final(self) == *old(self)
            },
    {
        if self.state == SlotState::Free {
            self.data = Some(data);
            self.state = SlotState::Allocated;
            Ok(())
        } else {
            Err(PoolError::SlotInUse)
        }
    }

    /// Empty the slot, handing back whatever it held.
    pub fn free(&mut self) -> (r: Option<T>)
        requires
            old(self).wf(),
        ensures
            final(self).wf(),
            final(self).spec_state() == SlotState::Free,
            final(self).spec_data() is None,
            r == old(self).spec_data(),
    {
        self.state = SlotState::Free;
        self.data.take()
    }

    /// Read the payload of an allocated slot.
    pub fn get(&self) -> (r: Option<&T>)
        ensures
            match r {
                Some(v) => self.spec_data() == Some(*v),
                None => self.spec_data() is None,
            },
    {
        self.data.as_ref()
    }

    /// Borrow the payload of an allocated slot mutably.
    pub fn get_mut(&mut self) -> (r: Option<&mut T>)
        requires
            old(self).wf(),
        ensures
            final(self).wf(),
            final(self).spec_state() == old(self).spec_state(),
            match r {
                Some(m) => old(self).spec_data() == Some(*m) && final(self).spec_data() == Some(
                    *final(m),
                ),
                None => old(self).spec_data() is None && *final(self) == *old(self),
            },
    {
        self.data.as_mut()
    }
}

/// Bounded pool of lazily allocated slots.
pub struct LazyPool<T, const N: usize> {
    slots: Vec<PoolSlot<T>>,
}

impl<T: Copy, const N: usize> LazyPool<T, N> {
    /// The pool's slots.
    pub closed spec fn spec_slots(self) -> Seq<PoolSlot<T>> {
        self.slots@
    }

    /// Structural invariant: full fixed size, every slot consistent.
    pub open spec fn wf(self) -> bool {
        &&& self.spec_slots().len() == N
        &&& forall|i: int| 0 <= i < N ==> (#[trigger] self.spec_slots()[i]).wf()
    }

    /// Create a pool of free slots.
    pub fn new() -> (p: Self)
        ensures
            p.wf(),
            forall|i: int| 0 <= i < N ==> (#[trigger] p.spec_slots()[i]).spec_state()
                == SlotState::Free,
    {
        let mut slots: Vec<PoolSlot<T>> = Vec::new();
        let mut i: usize = 0;
        while i < N
            invariant
                i <= N,
                slots@.len() == i,
                forall|j: int| 0 <= j < i ==> (#[trigger] slots@[j]).wf(),
                forall|j: int| 0 <= j < i ==> (#[trigger] slots@[j]).spec_state()
                    == SlotState::Free,
            decreases N - i,
        {
            slots.push(PoolSlot::new());
            i = i + 1;
        }
        Self { slots }
    }

    /// Fill the first free slot, reporting its index; `PoolFull` when no
    /// slot is free.
    pub fn allocate(&mut self, data: T) -> (r: Result<usize, PoolError>)
        requires
            old(self).wf(),
        ensures
            final(self).wf(),
            match r {
                Ok(i) => {
                    &&& i < N
                    &&& old(self).spec_slots()[i as int].spec_state() == SlotState::Free
                    &&& forall|j: int|
                        0 <= j < i ==> (#[trigger] old(self).spec_slots()[j]).spec_state()
                            == SlotState::Allocated
                    &&& final(self).spec_slots()[i as int].spec_state() == SlotState::Allocated
                    &&& final(self).spec_slots()[i as int].spec_data() == Some(data)
                    &&& forall|j: int|
                        0 <= j < N && j != i ==> (#[trigger] final(self).spec_slots()[j]) == old(
                            self,
                        ).spec_slots()[j]
                },
                Err(e) => {
                    &&& e == PoolError::PoolFull
                    &&& forall|j: int|
                        0 <= j < N ==> (#[trigger] old(self).spec_slots()[j]).spec_state()
                            == SlotState::Allocated
                    &&& *final(self) == *old(self)
                },
            },
    {
        let n = self.slots.len();
        let mut i: usize = 0;
        while i < n
            invariant
                old(self).wf(),
                *self == *old(self),
                n == N,
                i <= n,
                forall|j: int|
                    0 <= j < i ==> (#[trigger] self.spec_slots()[j]).spec_state()
                        == SlotState::Allocated,
            decreases n - i,
        {
            let free_here = match &self.slots[i] {
                slot => slot.state == SlotState::Free,
            };
            if free_here {
                let r = match &mut self.slots[i] {
                    slot => slot.allocate(data),
                };
                proof {
                    assert(r is Ok);
                }
                return Ok(i);
            }
            i = i + 1;
        }
        Err(PoolError::PoolFull)
    }

    /// Empty a slot by index, handing back its payload; an index outside
    /// the pool or a slot that holds nothing is an error.
    pub fn free(&mut self, index: usize) -> (r: Result<T, PoolError>)
        requires
            old(self).wf(),
        ensures
            final(self).wf(),
            match r {
                Ok(v) => {
                    &&& index < N
                    &&& old(self).spec_slots()[index as int].spec_data() == Some(v)
                    &&& final(self).spec_slots()[index as int].spec_state() == SlotState::Free
                    &&& final(self).spec_slots()[index as int].spec_data() is None
                    &&& forall|j: int|
                        0 <= j < N && j != index ==> (#[trigger] final(self).spec_slots()[j])
                            == old(self).spec_slots()[j]
                },
                Err(PoolError::InvalidIndex) => index >= N && *final(self) == *old(self),
                Err(PoolError::SlotNotAllocated) => {
                    &&& index < N
                    &&& old(self).spec_slots()[index as int].spec_data() is None
                    &&& final(self).spec_slots() == old(self).spec_slots()
                },
                Err(_) => false,
            },
    {
        if index >= self.slots.len() {
            return Err(PoolError::InvalidIndex);
        }
        let r = match &mut self.slots[index] {
            slot => slot.free(),
        };
        match r {
            Some(v) => Ok(v),
            None => {
                proof {
                    assert(self.spec_slots() =~= old(self).spec_slots());
                }
                Err(PoolError::SlotNotAllocated)
            },
        }
    }

    /// Read the payload of a slot.
    pub fn get(&self, index: usize) -> (r: Option<&T>)
        requires
            self.wf(),
        ensures
            match r {
                Some(v) => index < N && self.spec_slots()[index as int].spec_data() == Some(*v),
                None => index >= N || self.spec_slots()[index as int].spec_data() is None,
            },
    {
        if index >= self.slots.len() {
            return None;
        }
        self.slots[index].get()
    }

    /// Borrow the payload of a slot mutably.
    pub fn get_mut(&mut self, index: usize) -> (r: Option<&mut T>)
        requires
            old(self).wf(),
        ensures
            final(self).wf(),
            match r {
                Some(m) => {
                    &&& index < N
                    &&& old(self).spec_slots()[index as int].spec_data() == Some(*m)
                    &&& final(self).spec_slots()[index as int].spec_data() == Some(*final(m))
                    &&& final(self).spec_slots()[index as int].spec_state() == old(
                        self,
                    ).spec_slots()[index as int].spec_state()
                    &&& forall|j: int|
                        0 <= j < N && j != index ==> (#[trigger] final(self).spec_slots()[j])
                            == old(self).spec_slots()[j]
                },
                None => (index >= N || old(self).spec_slots()[index as int].spec_data() is None)
                    && final(self).spec_slots() == old(self).spec_slots(),
            },
    {
        if index >= self.slots.len() {
            return None;
        }
        let empty_here = match &self.slots[index] {
            slot => slot.state != SlotState::Allocated,
        };
        if empty_here {
            return None;
        }
        let slot = &mut self.slots[index];
        slot.get_mut()
    }
}

} // verus!
