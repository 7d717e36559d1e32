use crate::path::names;
use crate::value::{navigate, replace_at, HostValue, Reflection};
use vstd::prelude::*;

verus! {

/// Whether the memory behind a handle may still be touched.
#[derive(Clone, Copy, Debug, PartialEq, Eq, Structural)]
pub enum PtrState {
    Valid,
    Invalid,
}

/// The mathematical content of a `HostMemory`.
pub ghost struct Memory {
    /// The generation of the memory: the number of the invocation that it was made for.
    /// No two invocations have the same.
    pub generation: u64,
    /// Whether the memory is closed: its invocation is finished, and no window opens in
    /// it any more.
    pub closed: bool,
    /// The host values lent to the script, by slot.
    pub slots: Seq<Reflection>,
    /// The single-take cells; a cell is `None` once its value was taken.
    pub cells: Seq<Option<Reflection>>,
    /// The validity flags.
    pub states: Seq<PtrState>,
}

impl Memory {
    /// The memory of the generation `generation` before anything was lent.
    pub open spec fn empty(generation: u64) -> Memory {
        Memory {
            generation,
            closed: false,
            slots: Seq::empty(),
            cells: Seq::empty(),
            states: Seq::empty(),
        }
    }

    /// Whether the memory can be held: its parts can be counted by the machine.
    pub open spec fn fits(self) -> bool {
        &&& self.slots.len() <= usize::MAX
        &&& self.cells.len() <= usize::MAX
        &&& self.states.len() <= usize::MAX
    }

    /// The flag `id`; a flag that was never made counts as invalid.
    pub open spec fn state(self, id: usize) -> PtrState {
        if id < self.states.len() {
            self.states[id as int]
        } else {
            PtrState::Invalid
        }
    }

    /// The memory with the flag `id` invalid.
    pub open spec fn invalidate(self, id: usize) -> Memory {
        if id < self.states.len() {
            Memory { states: self.states.update(id as int, PtrState::Invalid), ..self }
        } else {
            self
        }
    }

    /// The memory with every flag invalid, and closed: its handles are stale for good.
    pub open spec fn invalidate_all(self) -> Memory {
        Memory {
            closed: true,
            states: Seq::new(self.states.len(), |i: int| PtrState::Invalid),
            ..self
        }
    }
}

/// Everything that handles refer to during one invocation: the host values lent to the
/// script, the cells of owned values, and the validity flags. Handles hold indices into
/// it, never addresses, and the generation of the memory that the indices are good for.
#[derive(Debug)]
pub struct HostMemory {
    generation: u64,
    closed: bool,
    slots: Vec<HostValue>,
    cells: Vec<Option<HostValue>>,
    states: Vec<PtrState>,
}

impl View for HostMemory {
    type V = Memory;

    closed spec fn view(&self) -> Memory {
        Memory {
            generation: self.generation,
            closed: self.closed,
            slots: Seq::new(self.slots.len() as nat, |i: int| self.slots[i]@),
            cells: Seq::new(
                self.cells.len() as nat,
                |i: int|
                    match self.cells[i] {
                        Some(v) => Some(v@),
                        None => None,
                    },
            ),
            states: self.states@,
        }
    }
}

impl HostMemory {
    /// What a memory holds can be counted.
    pub proof fn lemma_fits(&self)
        ensures
            self@.fits(),
    {
        assert(self@.slots.len() == self.slots.len());
        assert(self@.cells.len() == self.cells.len());
        assert(self@.states.len() == self.states.len());
    }

    /// An empty memory of the generation `generation`.
    pub fn new(generation: u64) -> (m: HostMemory)
        ensures
            m@ == Memory::empty(generation),
    {
        let m = HostMemory {
            generation,
            closed: false,
            slots: Vec::new(),
            cells: Vec::new(),
            states: Vec::new(),
        };
        assert(m@.slots =~= Seq::empty());
        assert(m@.cells =~= Seq::empty());
        m
    }

    /// The generation of the memory.
    pub fn generation(&self) -> (g: u64)
        ensures
            g == self@.generation,
    {
        self.generation
    }

    /// Whether the memory is closed.
    pub fn is_closed(&self) -> (c: bool)
        ensures
            c == self@.closed,
    {
        self.closed
    }

    /// Lends a host value to the script and returns its slot.
    pub fn add_slot(&mut self, value: HostValue) -> (slot: usize)
        ensures
            slot == old(self)@.slots.len(),
            final(self)@ == (Memory { slots: old(self)@.slots.push(value@), ..old(self)@ }),
    {
        let slot = self.slots.len();
        self.slots.push(value);
        assert(self@.slots =~= old(self)@.slots.push(value@));
        assert(self@.cells =~= old(self)@.cells);
        slot
    }

    /// Puts an owned value into a new cell and returns the cell.
    pub fn add_cell(&mut self, value: HostValue) -> (cell: usize)
        ensures
            cell == old(self)@.cells.len(),
            final(self)@ == (Memory { cells: old(self)@.cells.push(Some(value@)), ..old(self)@ }),
    {
        let cell = self.cells.len();
        self.cells.push(Some(value));
        assert(self@.cells =~= old(self)@.cells.push(Some(value@)));
        assert(self@.slots =~= old(self)@.slots);
        cell
    }

    /// Opens a validity window and returns its flag, which is valid.
    pub fn add_state(&mut self) -> (state: usize)
        ensures
            state == old(self)@.states.len(),
            final(self)@ == (Memory { states: old(self)@.states.push(PtrState::Valid), ..old(self)@ }),
    {
        let state = self.states.len();
        self.states.push(PtrState::Valid);
        assert(self@.slots =~= old(self)@.slots);
        assert(self@.cells =~= old(self)@.cells);
        state
    }

    /// The flag `id`.
    pub fn state(&self, id: usize) -> (s: PtrState)
        ensures
            s == self@.state(id),
    {
        if id < self.states.len() {
            self.states[id]
        } else {
            PtrState::Invalid
        }
    }

    /// Closes the validity window of the flag `id`.
    pub fn invalidate(&mut self, id: usize)
        ensures
            final(self)@ == old(self)@.invalidate(id),
    {
        if id < self.states.len() {
            self.states[id] = PtrState::Invalid;
        }
        assert(self@.slots =~= old(self)@.slots);
        assert(self@.cells =~= old(self)@.cells);
    }

    /// Closes every validity window, and the memory with them: no window opens in it
    /// any more.
    pub fn invalidate_all(&mut self)
        ensures
            final(self)@ == old(self)@.invalidate_all(),
    {
        let mut i: usize = 0;
        while i < self.states.len()
            invariant
                i <= self.states.len(),
                self.states.len() == old(self).states.len(),
                self.generation == old(self).generation,
                self.closed == old(self).closed,
                self.slots == old(self).slots,
                self.cells == old(self).cells,
                forall|j: int| 0 <= j < i ==> self.states[j] == PtrState::Invalid,
            decreases self.states.len() - i,
        {
            self.states[i] = PtrState::Invalid;
            i += 1;
        }
        self.closed = true;
        assert(self@.states =~= old(self)@.invalidate_all().states);
    }

    /// The number of slots.
    pub fn slot_count(&self) -> (n: usize)
        ensures
            n == self@.slots.len(),
    {
        self.slots.len()
    }

    /// The number of cells.
    pub fn cell_count(&self) -> (n: usize)
        ensures
            n == self@.cells.len(),
    {
        self.cells.len()
    }

    /// The value in `slot`, as it stands.
    pub fn slot(&self, slot: usize) -> (r: Option<&HostValue>)
        ensures
            match r {
                Some(v) => slot < self@.slots.len() && v@ == self@.slots[slot as int],
                None => slot >= self@.slots.len(),
            },
    {
        if slot < self.slots.len() {
            Some(&self.slots[slot])
        } else {
            None
        }
    }

    /// The value in `cell`: `Some(None)` once it was taken, `None` where there is no such cell.
    pub fn cell(&self, cell: usize) -> (r: Option<Option<&HostValue>>)
        ensures
            match r {
                Some(Some(v)) => cell < self@.cells.len() && self@.cells[cell as int] == Some(v@),
                Some(None) => cell < self@.cells.len() && self@.cells[cell as int] is None,
                None => cell >= self@.cells.len(),
            },
    {
        if cell < self.cells.len() {
            match &self.cells[cell] {
                Some(v) => Some(Some(v)),
                None => Some(None),
            }
        } else {
            None
        }
    }

    /// Takes the value out of `cell`, leaving the cell empty.
    pub fn take_cell(&mut self, cell: usize) -> (r: Option<HostValue>)
        ensures
            match r {
                Some(v) => cell < old(self)@.cells.len() && old(self)@.cells[cell as int] == Some(v@)
                    && final(self)@ == (Memory {
                    cells: old(self)@.cells.update(cell as int, None),
                    ..old(self)@
                }),
                None => (cell >= old(self)@.cells.len() || old(self)@.cells[cell as int] is None)
                    && final(self)@ == old(self)@,
            },
    {
        if cell < self.cells.len() {
            let mut taken: Option<HostValue> = None;
            core::mem::swap(&mut self.cells[cell], &mut taken);
            proof {
                assert(self@.slots =~= old(self)@.slots);
                if taken is Some {
                    assert(self@.cells =~= old(self)@.cells.update(cell as int, None));
                } else {
                    assert(self@.cells =~= old(self)@.cells);
                }
            }
            taken
        } else {
            None
        }
    }

    /// Replaces the value that `path` leads to from the value in `slot`.
    pub fn replace_in_slot(&mut self, slot: usize, path: &Vec<String>, new: HostValue) -> (done: bool)
        ensures
            done == (slot < old(self)@.slots.len() && replace_at(
                old(self)@.slots[slot as int],
                names(path@),
                new@,
            ) is Some),
            done ==> final(self)@ == (Memory {
                slots: old(self)@.slots.update(
                    slot as int,
                    replace_at(old(self)@.slots[slot as int], names(path@), new@)->0,
                ),
                ..old(self)@
            }),
            !done ==> final(self)@ == old(self)@,
    {
        if slot < self.slots.len() {
            let done = self.slots[slot].replace(path, new);
            proof {
                assert(self@.cells =~= old(self)@.cells);
                if done {
                    assert(self@.slots =~= old(self)@.slots.update(
                        slot as int,
                        replace_at(old(self)@.slots[slot as int], names(path@), new@)->0,
                    ));
                } else {
                    assert(self@.slots =~= old(self)@.slots);
                }
            }
            done
        } else {
            false
        }
    }

    /// Replaces the value that `path` leads to from the value in `cell`.
    pub fn replace_in_cell(&mut self, cell: usize, path: &Vec<String>, new: HostValue) -> (done: bool)
        ensures
            done == (cell < old(self)@.cells.len() && old(self)@.cells[cell as int] is Some
                && replace_at(old(self)@.cells[cell as int]->0, names(path@), new@) is Some),
            done ==> final(self)@ == (Memory {
                cells: old(self)@.cells.update(
                    cell as int,
                    replace_at(old(self)@.cells[cell as int]->0, names(path@), new@),
                ),
                ..old(self)@
            }),
            !done ==> final(self)@ == old(self)@,
    {
        if cell < self.cells.len() {
            let done = match &mut self.cells[cell] {
                Some(v) => v.replace(path, new),
                None => false,
            };
            proof {
                assert(self@.slots =~= old(self)@.slots);
                if done {
                    assert(self@.cells =~= old(self)@.cells.update(
                        cell as int,
                        replace_at(old(self)@.cells[cell as int]->0, names(path@), new@),
                    ));
                } else {
                    assert(self@.cells =~= old(self)@.cells);
                }
            }
            done
        } else {
            false
        }
    }
}

} // verus!
