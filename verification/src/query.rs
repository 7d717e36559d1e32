use crate::commands::handles;
use crate::error::BridgeError;
use crate::memory::{HostMemory, Memory, PtrState};
use crate::path::segments;
use crate::reflect::{Handle, ReflectPtr, ReflectType};
use crate::value::Reflection;
use vstd::prelude::*;

verus! {

/// The mathematical content of an iteration over the rows of a query.
pub ghost struct Iteration {
    /// The rows that are still to come.
    pub rows: Seq<Seq<ReflectType>>,
    /// The flag of the step under way.
    pub ptr_state: Option<usize>,
    /// The generation of the memory that the rows were lent in.
    pub generation: u64,
}

/// The iteration over the rows that a query matched. Each step hands out one row as
/// handles that are good until the next step. It can be stepped on the memory that its
/// rows were lent in and on no other.
#[derive(Debug, PartialEq)]
pub struct IteratorState {
    pub components: Vec<Vec<ReflectType>>,
    pub ptr_state: Option<usize>,
    /// The generation of the memory that the rows were lent in.
    pub generation: u64,
}

impl View for IteratorState {
    type V = Iteration;

    open spec fn view(&self) -> Iteration {
        Iteration {
            rows: self.components@.map_values(|row: Vec<ReflectType>| row@),
            ptr_state: self.ptr_state,
            generation: self.generation,
        }
    }
}

/// The memory once the step under way is over.
pub open spec fn step_closed(it: Iteration, m: Memory) -> Memory {
    match it.ptr_state {
        Some(state) => m.invalidate(state),
        None => m,
    }
}

/// The handles of a row in a step whose flag is `state`, in a memory of the generation
/// `generation`.
pub open spec fn row_handles(row: Seq<ReflectType>, state: usize, generation: u64) -> Seq<Handle> {
    Seq::new(
        row.len(),
        |i: int| Handle { data: row[i], path: Seq::empty(), ptr_state: state, generation },
    )
}

/// One step of an iteration: the handles of the next row if there is one, the iteration
/// after the step, and the memory after it. The step before it is over either way, so
/// the handles that it gave out are stale. On a memory other than the one that the rows
/// were lent in, and on a memory that is closed, the step hands out nothing and changes
/// nothing: an iteration that a script has kept opens no window in a later invocation,
/// nor in its own once that is finished.
pub open spec fn advance(it: Iteration, m: Memory) -> (Option<Seq<Handle>>, Iteration, Memory) {
    if it.generation != m.generation || m.closed {
        (None, it, m)
    } else {
        let closed = step_closed(it, m);
        if it.rows.len() == 0 {
            (None, Iteration { ptr_state: None, ..it }, closed)
        } else {
            let state = closed.states.len() as usize;
            (
                Some(row_handles(it.rows[0], state, m.generation)),
                Iteration { rows: it.rows.drop_first(), ptr_state: Some(state), ..it },
                Memory { states: closed.states.push(PtrState::Valid), ..closed },
            )
        }
    }
}

impl IteratorState {
    /// Whether a row is still to come.
    pub fn has_next(&self) -> (r: bool)
        ensures
            r == (self@.rows.len() > 0),
    {
        self.components.len() > 0
    }

    /// Steps to the next row and hands it out; `None` when no row is left, and also on
    /// a memory that is not the one of the iteration.
    pub fn iterator_fn(&mut self, memory: &mut HostMemory) -> (r: Option<Vec<ReflectPtr>>)
        ensures
            final(self)@ == advance(old(self)@, old(memory)@).1,
            final(memory)@ == advance(old(self)@, old(memory)@).2,
            match r {
                Some(row) => advance(old(self)@, old(memory)@).0 == Some(handles(row@))
                    && forall|i: int|
                    0 <= i < row@.len() ==> (#[trigger] row@[i])@.generation
                        == old(memory)@.generation,
                None => advance(old(self)@, old(memory)@).0 is None,
            },
    {
        if self.generation != memory.generation() || memory.is_closed() {
            return None;
        }
        match self.ptr_state {
            Some(state) => {
                memory.invalidate(state);
            },
            None => {},
        }
        if self.components.len() == 0 {
            self.ptr_state = None;
            return None;
        }
        let targets = self.components.remove(0);
        assert(self@.rows =~= old(self)@.rows.drop_first());
        let state = memory.add_state();
        self.ptr_state = Some(state);
        let mut row: Vec<ReflectPtr> = Vec::new();
        let mut i: usize = 0;
        while i < targets.len()
            invariant
                i <= targets.len(),
                row@.len() == i,
                forall|j: int|
                    0 <= j < i ==> (#[trigger] row[j])@ == (Handle {
                        data: targets[j],
                        path: Seq::empty(),
                        ptr_state: state,
                        generation: memory@.generation,
                    }),
                memory@.generation == old(memory)@.generation,
            decreases targets.len() - i,
        {
            let handle = match targets[i] {
                ReflectType::PtrMut(slot) => ReflectPtr::new_mut(memory, slot, state),
                ReflectType::PtrRef(slot) => ReflectPtr::new_ref(memory, slot, state),
                ReflectType::Boxed(cell) => ReflectPtr {
                    data: ReflectType::Boxed(cell),
                    path: String::new(),
                    ptr_state: state,
                    generation: memory.generation(),
                },
            };
            row.push(handle);
            i += 1;
        }
        assert(handles(row@) =~= row_handles(targets@, state, memory@.generation));
        Some(row)
    }
}

/// An iteration without rows hands out nothing, at the first step and ever after.
pub proof fn lemma_empty_iteration_yields_nothing(it: Iteration, m: Memory)
    requires
        it.rows.len() == 0,
    ensures
        advance(it, m).0 is None,
        advance(it, m).1.rows.len() == 0,
{
}

/// An iteration that is stepped on the memory of another invocation, or on a memory
/// that is closed, hands out nothing and leaves that memory as it is, however many rows
/// it has left.
pub proof fn lemma_kept_iteration_opens_no_window(it: Iteration, m: Memory)
    requires
        it.generation != m.generation || m.closed,
    ensures
        advance(it, m) == (None::<Seq<Handle>>, it, m),
{
}

/// A step makes the handles of the step before it stale.
pub proof fn lemma_step_invalidates_previous_row(it: Iteration, m: Memory, i: int)
    requires
        m.fits(),
        it.generation == m.generation,
        !m.closed,
        it.rows.len() > 0,
        0 <= i < it.rows[0].len(),
    ensures
        ({
            let first = advance(it, m);
            let second = advance(first.1, first.2);
            first.0->0[i].live(first.2) && !first.0->0[i].live(second.2)
        }),
{
}

/// The handles of the step under way stand for the values in the slots that the row
/// refers to: through the `j`-th handle of the row the script reaches what the host
/// lent for the row's `j`-th access.
pub proof fn lemma_row_handle_stands_for_its_value(it: Iteration, m: Memory, j: int, slot: usize)
    requires
        m.fits(),
        it.generation == m.generation,
        !m.closed,
        it.rows.len() > 0,
        0 <= j < it.rows[0].len(),
        it.rows[0][j] == ReflectType::PtrMut(slot) || it.rows[0][j] == ReflectType::PtrRef(slot),
        slot < m.slots.len(),
    ensures
        ({
            let step = advance(it, m);
            step.0->0[j].target(step.2) == Ok::<Reflection, BridgeError>(m.slots[slot as int])
        }),
{
    let step = advance(it, m);
    let handle = step.0->0[j];
    assert(handle.path =~= Seq::<char>::empty());
    assert(segments(handle.path) =~= Seq::<Seq<char>>::empty());
    assert(handle.live(step.2));
}

} // verus!
