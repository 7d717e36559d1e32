use crate::commands::TYPE_COMMAND_QUEUE;
use crate::error::BridgeError;
use crate::memory::{HostMemory, Memory, PtrState};
use crate::query::{advance, Iteration, IteratorState};
use crate::reflect::{ComponentType, Handle, ReflectPtr, ReflectType};
use crate::system::{LuaSystem, Parameter, SystemParameter};
use crate::util::reversed;
use crate::value::{HostValue, Reflection};
use vstd::prelude::*;

verus! {

/// What the host has found for one parameter of a system.
#[derive(Debug)]
pub enum ParameterInput {
    /// The entities that a query matched: for each, the values of the components asked
    /// for, in the order of the query.
    Query(Vec<Vec<HostValue>>),
    /// Nothing: the command queue is the bridge's own.
    CommandQueue,
    /// The resource, if the host has it.
    Resource(Option<HostValue>),
}

/// The mathematical content of what the host has found for a parameter.
pub ghost enum Input {
    Query(Seq<Seq<Reflection>>),
    CommandQueue,
    Resource(Option<Reflection>),
}

/// The views of the rows of a query.
pub open spec fn row_views(rows: Seq<Vec<HostValue>>) -> Seq<Seq<Reflection>> {
    rows.map_values(|row: Vec<HostValue>| row@.map_values(|v: HostValue| v@))
}

impl View for ParameterInput {
    type V = Input;

    open spec fn view(&self) -> Input {
        match self {
            ParameterInput::Query(rows) => Input::Query(row_views(rows@)),
            ParameterInput::CommandQueue => Input::CommandQueue,
            ParameterInput::Resource(Some(v)) => Input::Resource(Some(v@)),
            ParameterInput::Resource(None) => Input::Resource(None),
        }
    }
}

/// The views of a list of inputs.
pub open spec fn inputs(list: Seq<ParameterInput>) -> Seq<Input> {
    list.map_values(|i: ParameterInput| i@)
}

/// One argument of a system, as the script receives it.
#[derive(Debug, PartialEq)]
pub enum Argument {
    /// The rows of a query, to iterate over.
    Query(IteratorState),
    /// A handle to a resource or to the command queue.
    Handle(ReflectPtr),
}

/// The mathematical content of an argument of a system.
pub ghost enum Resolved {
    Query(Iteration),
    Handle(Handle),
}

impl View for Argument {
    type V = Resolved;

    open spec fn view(&self) -> Resolved {
        match self {
            Argument::Query(it) => Resolved::Query(it@),
            Argument::Handle(h) => Resolved::Handle(h@),
        }
    }
}

/// Whether the argument was made for a memory of the generation `generation`.
pub open spec fn made_for(argument: Resolved, generation: u64) -> bool {
    match argument {
        Resolved::Query(it) => it.generation == generation,
        Resolved::Handle(h) => h.generation == generation,
    }
}

/// The views of a list of arguments.
pub open spec fn arguments(list: Seq<Argument>) -> Seq<Resolved> {
    list.map_values(|a: Argument| a@)
}

/// What a handle with the access `access` to the value in `slot` refers to.
pub open spec fn target_for(access: ComponentType, slot: int) -> ReflectType {
    if access.is_mut() {
        ReflectType::PtrMut(slot as usize)
    } else {
        ReflectType::PtrRef(slot as usize)
    }
}

/// The rows from the `k`-th on, lent to the script: each value gets the next free slot,
/// row after row, and each row lists what its handles will refer to.
pub open spec fn place_rows(accesses: Seq<ComponentType>, rows: Seq<Seq<Reflection>>, m: Memory, k: int) -> (
    Seq<Seq<ReflectType>>,
    Memory,
)
    decreases rows.len() - k,
{
    if k < 0 || k >= rows.len() {
        (Seq::empty(), m)
    } else {
        let row = Seq::new(rows[k].len(), |i: int| target_for(accesses[i], m.slots.len() + i));
        let rest = place_rows(accesses, rows, Memory { slots: m.slots + rows[k], ..m }, k + 1);
        (seq![row] + rest.0, rest.1)
    }
}

/// The number of values in the `count` rows from the `k`-th on.
pub open spec fn values_in(rows: Seq<Seq<Reflection>>, k: int, count: int) -> int
    decreases count,
{
    if count <= 0 {
        0
    } else {
        rows[k].len() + values_in(rows, k + 1, count - 1)
    }
}

/// Rows are lent value by value and row by row: the value that the `i`-th row has for
/// its `j`-th access lies in the slot that follows those of all the values before it,
/// and the row's `j`-th handle will refer to that slot with the access asked for.
/// What the memory held before stays where it was.
pub proof fn lemma_rows_are_lent_in_order(
    accesses: Seq<ComponentType>,
    rows: Seq<Seq<Reflection>>,
    m: Memory,
    k: int,
    i: int,
    j: int,
)
    requires
        0 <= k <= i < rows.len(),
        0 <= j < rows[i].len(),
    ensures
        ({
            let placed = place_rows(accesses, rows, m, k);
            let slot = m.slots.len() + values_in(rows, k, i - k) + j;
            &&& placed.0.len() == rows.len() - k
            &&& placed.0[i - k].len() == rows[i].len()
            &&& placed.0[i - k][j] == target_for(accesses[j], slot)
            &&& slot < placed.1.slots.len()
            &&& placed.1.slots[slot] == rows[i][j]
            &&& placed.1.generation == m.generation
            &&& placed.1.cells == m.cells
            &&& placed.1.states == m.states
            &&& m.slots.len() <= placed.1.slots.len()
            &&& forall|s: int| 0 <= s < m.slots.len() ==> placed.1.slots[s] == m.slots[s]
        }),
    decreases rows.len() - k,
{
    let after = Memory { slots: m.slots + rows[k], ..m };
    lemma_rows_keep_memory(accesses, rows, after, k + 1);
    if k < i {
        lemma_rows_are_lent_in_order(accesses, rows, after, k + 1, i, j);
        assert(values_in(rows, k, i - k) == rows[k].len() + values_in(rows, k + 1, i - k - 1));
        let placed = place_rows(accesses, rows, m, k);
        let rest = place_rows(accesses, rows, after, k + 1);
        assert(placed.1 == rest.1);
        assert(placed.0[i - k] == rest.0[i - k - 1]);
        assert(after.slots.len() == m.slots.len() + rows[k].len());
        assert forall|s: int| 0 <= s < m.slots.len() implies placed.1.slots[s] == m.slots[s] by {
            assert(after.slots[s] == m.slots[s]);
        }
    } else {
        let placed = place_rows(accesses, rows, m, k);
        assert(values_in(rows, k, 0) == 0);
        assert(after.slots.len() == m.slots.len() + rows[k].len());
        assert(after.slots[m.slots.len() + j] == rows[k][j]);
        assert forall|s: int| 0 <= s < m.slots.len() implies placed.1.slots[s] == m.slots[s] by {
            assert(after.slots[s] == m.slots[s]);
        }
    }
}

/// Lending rows adds slots and changes nothing else.
proof fn lemma_rows_keep_memory(accesses: Seq<ComponentType>, rows: Seq<Seq<Reflection>>, m: Memory, k: int)
    requires
        0 <= k <= rows.len(),
    ensures
        ({
            let placed = place_rows(accesses, rows, m, k);
            &&& placed.0.len() == rows.len() - k
            &&& placed.1.generation == m.generation
            &&& placed.1.cells == m.cells
            &&& placed.1.states == m.states
            &&& m.slots.len() <= placed.1.slots.len()
            &&& forall|s: int| 0 <= s < m.slots.len() ==> placed.1.slots[s] == m.slots[s]
        }),
    decreases rows.len() - k,
{
    if k < rows.len() {
        let after = Memory { slots: m.slots + rows[k], ..m };
        lemma_rows_keep_memory(accesses, rows, after, k + 1);
        assert forall|s: int| 0 <= s < m.slots.len() implies place_rows(
            accesses,
            rows,
            m,
            k,
        ).1.slots[s] == m.slots[s] by {
            assert(after.slots[s] == m.slots[s]);
        }
    }
}

/// No two values of a query share a slot: a value that comes later, in a later row or
/// later in the same row, lies in a later slot.
pub proof fn lemma_lent_values_have_slots_of_their_own(
    rows: Seq<Seq<Reflection>>,
    i: int,
    j: int,
    later_i: int,
    later_j: int,
)
    requires
        0 <= i <= later_i < rows.len(),
        0 <= j < rows[i].len(),
        0 <= later_j < rows[later_i].len(),
        i < later_i || j < later_j,
    ensures
        values_in(rows, 0, i) + j < values_in(rows, 0, later_i) + later_j,
{
    if i < later_i {
        lemma_values_in_grows(rows, 0, i + 1, later_i);
        lemma_values_in_split(rows, 0, i);
    }
}

/// The values of more rows are at least as many.
proof fn lemma_values_in_grows(rows: Seq<Seq<Reflection>>, k: int, fewer: int, more: int)
    requires
        0 <= fewer <= more,
    ensures
        values_in(rows, k, fewer) <= values_in(rows, k, more),
    decreases more,
{
    if fewer > 0 {
        lemma_values_in_grows(rows, k + 1, fewer - 1, more - 1);
    } else if more > 0 {
        lemma_values_in_grows(rows, k + 1, 0, more - 1);
    }
}

/// The values of one more row are those of the rows before it and its own.
proof fn lemma_values_in_split(rows: Seq<Seq<Reflection>>, k: int, count: int)
    requires
        0 <= count,
    ensures
        values_in(rows, k, count + 1) == values_in(rows, k, count) + rows[k + count].len(),
    decreases count,
{
    if count > 0 {
        lemma_values_in_split(rows, k + 1, count - 1);
    } else {
        assert(values_in(rows, k + 1, 0) == 0);
    }
}

/// The argument for one parameter, and the memory after it was resolved. A query needs
/// rows with one value for each of its accesses; the command queue comes as an
/// exclusive handle; a resource comes as a handle with the access asked for, and must
/// be there. Otherwise the system cannot be invoked.
pub open spec fn resolve_one(parameter: Parameter, input: Input, m: Memory) -> Result<
    (Resolved, Memory),
    BridgeError,
> {
    match (parameter, input) {
        (Parameter::Query(accesses), Input::Query(rows)) => if forall|r: int|
            0 <= r < rows.len() ==> (#[trigger] rows[r]).len() == accesses.len() {
            let placed = place_rows(accesses, rows, m, 0);
            Ok(
                (
                    Resolved::Query(
                        Iteration { rows: placed.0, ptr_state: None, generation: m.generation },
                    ),
                    placed.1,
                ),
            )
        } else {
            Err(BridgeError::InvocationError)
        },
        (Parameter::CommandQueue, Input::CommandQueue) => Ok(
            (
                Resolved::Handle(
                    Handle {
                        data: ReflectType::PtrMut(m.slots.len() as usize),
                        path: Seq::empty(),
                        ptr_state: m.states.len() as usize,
                        generation: m.generation,
                    },
                ),
                Memory {
                    slots: m.slots.push(Reflection::Opaque(TYPE_COMMAND_QUEUE)),
                    states: m.states.push(PtrState::Valid),
                    ..m
                },
            ),
        ),
        (Parameter::Resource(access), Input::Resource(Some(v))) => Ok(
            (
                Resolved::Handle(
                    Handle {
                        data: target_for(access, m.slots.len() as int),
                        path: Seq::empty(),
                        ptr_state: m.states.len() as usize,
                        generation: m.generation,
                    },
                ),
                Memory { slots: m.slots.push(v), states: m.states.push(PtrState::Valid), ..m },
            ),
        ),
        _ => Err(BridgeError::InvocationError),
    }
}

/// The arguments for the parameters from the `k`-th on, resolved in their order, and
/// the memory after them. The first parameter that cannot be resolved ends it.
pub open spec fn resolve_from(parameters: Seq<Parameter>, found: Seq<Input>, m: Memory, k: int) -> (
    Result<Seq<Resolved>, BridgeError>,
    Memory,
)
    decreases parameters.len() - k,
{
    if k < 0 || k >= parameters.len() {
        (Ok(Seq::empty()), m)
    } else {
        match resolve_one(parameters[k], found[k], m) {
            Err(e) => (Err(e), m),
            Ok((a, after)) => {
                let rest = resolve_from(parameters, found, after, k + 1);
                match rest.0 {
                    Ok(r) => (Ok(seq![a] + r), rest.1),
                    Err(e) => (Err(e), rest.1),
                }
            },
        }
    }
}

/// The arguments of a system, one for each of its parameters and in their order, and
/// the memory after they were resolved. The host must have looked for every parameter.
pub open spec fn resolve(parameters: Seq<Parameter>, found: Seq<Input>, m: Memory) -> (
    Result<Seq<Resolved>, BridgeError>,
    Memory,
) {
    if parameters.len() != found.len() {
        (Err(BridgeError::InvocationError), m)
    } else {
        resolve_from(parameters, found, m, 0)
    }
}

/// Whether every row has `width` values.
fn rows_have_width(rows: &Vec<Vec<HostValue>>, width: usize) -> (r: bool)
    ensures
        r == forall|i: int| 0 <= i < rows.len() ==> (#[trigger] row_views(rows@)[i]).len() == width,
{
    let mut i: usize = 0;
    while i < rows.len()
        invariant
            i <= rows.len(),
            forall|j: int| 0 <= j < i ==> (#[trigger] row_views(rows@)[j]).len() == width,
        decreases rows.len() - i,
    {
        if rows[i].len() != width {
            assert(row_views(rows@)[i as int].len() != width);
            return false;
        }
        i += 1;
    }
    true
}

/// Lends one row to the script.
fn place_row(accesses: &Vec<ComponentType>, row: Vec<HostValue>, memory: &mut HostMemory) -> (r: Vec<
    ReflectType,
>)
    requires
        row@.len() == accesses@.len(),
    ensures
        r@ == Seq::new(
            row@.len(),
            |i: int| target_for(accesses@[i], old(memory)@.slots.len() + i),
        ),
        final(memory)@ == (Memory {
            slots: old(memory)@.slots + row@.map_values(|v: HostValue| v@),
            ..old(memory)@
        }),
{
    let n = row.len();
    let ghost values = row@.map_values(|v: HostValue| v@);
    let mut stack = reversed(row);
    let mut out: Vec<ReflectType> = Vec::new();
    let mut i: usize = 0;
    assert(old(memory)@.slots + values.take(0) =~= old(memory)@.slots);
    while i < n
        invariant
            i <= n,
            n == accesses@.len(),
            n == values.len(),
            n == row@.len(),
            values == row@.map_values(|v: HostValue| v@),
            stack@.len() == n - i,
            forall|j: int| 0 <= j < stack@.len() ==> stack@[j] == row@[n - 1 - j],
            out@.len() == i,
            forall|j: int|
                0 <= j < i ==> #[trigger] out@[j] == target_for(
                    accesses@[j],
                    old(memory)@.slots.len() + j,
                ),
            memory@ == (Memory {
                slots: old(memory)@.slots + values.take(i as int),
                ..old(memory)@
            }),
        decreases n - i,
    {
        let value = stack.pop().unwrap();
        assert(value == row@[i as int]);
        let slot = memory.add_slot(value);
        let target = if accesses[i].is_mut() {
            ReflectType::PtrMut(slot)
        } else {
            ReflectType::PtrRef(slot)
        };
        out.push(target);
        assert(old(memory)@.slots + values.take(i + 1) =~= (old(memory)@.slots + values.take(
            i as int,
        )).push(value@));
        i += 1;
    }
    assert(values.take(n as int) =~= values);
    assert(out@ =~= Seq::new(
        row@.len(),
        |i: int| target_for(accesses@[i], old(memory)@.slots.len() + i),
    ));
    out
}

/// Resolves one parameter.
fn resolve_parameter(parameter: &SystemParameter, input: ParameterInput, memory: &mut HostMemory) -> (r:
    Result<Argument, BridgeError>)
    ensures
        final(memory)@.generation == old(memory)@.generation,
        r matches Ok(a) ==> made_for(a@, old(memory)@.generation),
        match r {
            Ok(a) => resolve_one(parameter@, input@, old(memory)@) == Ok::<
                (Resolved, Memory),
                BridgeError,
            >((a@, final(memory)@)),
            Err(e) => resolve_one(parameter@, input@, old(memory)@) == Err::<
                (Resolved, Memory),
                BridgeError,
            >(e) && final(memory)@ == old(memory)@,
        },
{
    match (parameter, input) {
        (SystemParameter::Query(accesses), ParameterInput::Query(rows)) => {
            if !rows_have_width(&rows, accesses.len()) {
                return Err(BridgeError::InvocationError);
            }
            let n = rows.len();
            let ghost views = row_views(rows@);
            let mut stack = reversed(rows);
            let mut components: Vec<Vec<ReflectType>> = Vec::new();
            let mut k: usize = 0;
            let ghost placed = place_rows(accesses@, views, old(memory)@, 0);
            assert(components@.map_values(|row: Vec<ReflectType>| row@) =~= Seq::<
                Seq<ReflectType>,
            >::empty());
            while k < n
                invariant
                    k <= n,
                    n == rows@.len(),
                    views == row_views(rows@),
                    forall|i: int| 0 <= i < n ==> (#[trigger] views[i]).len() == accesses@.len(),
                    stack@.len() == n - k,
                    forall|j: int| 0 <= j < stack@.len() ==> stack@[j] == rows@[n - 1 - j],
                    placed == place_rows(accesses@, views, old(memory)@, 0),
                    memory@.generation == old(memory)@.generation,
                    placed.0 == components@.map_values(|row: Vec<ReflectType>| row@) + place_rows(
                        accesses@,
                        views,
                        memory@,
                        k as int,
                    ).0,
                    placed.1 == place_rows(accesses@, views, memory@, k as int).1,
                decreases n - k,
            {
                let row = stack.pop().unwrap();
                assert(row == rows@[k as int]);
                assert(views[k as int] == row@.map_values(|v: HostValue| v@));
                let ghost before = components@.map_values(|row: Vec<ReflectType>| row@);
                let ghost rest = place_rows(accesses@, views, memory@, k as int);
                let targets = place_row(accesses, row, memory);
                components.push(targets);
                proof {
                    let next = place_rows(accesses@, views, memory@, k + 1);
                    assert(components@.map_values(|row: Vec<ReflectType>| row@) =~= before + seq![
                        targets@,
                    ]);
                    assert(rest.0 == seq![targets@] + next.0);
                    assert(before + (seq![targets@] + next.0) =~= (before + seq![targets@])
                        + next.0);
                }
                k += 1;
            }
            assert(components@.map_values(|row: Vec<ReflectType>| row@) + Seq::<
                Seq<ReflectType>,
            >::empty() =~= components@.map_values(|row: Vec<ReflectType>| row@));
            Ok(
                Argument::Query(
                    IteratorState { components, ptr_state: None, generation: memory.generation() },
                ),
            )
        },
        (SystemParameter::CommandQueue, ParameterInput::CommandQueue) => {
            let state = memory.add_state();
            let slot = memory.add_slot(HostValue::Opaque(TYPE_COMMAND_QUEUE));
            Ok(Argument::Handle(ReflectPtr::new_mut(memory, slot, state)))
        },
        (SystemParameter::Resource(access), ParameterInput::Resource(Some(v))) => {
            let state = memory.add_state();
            let slot = memory.add_slot(v);
            if access.is_mut() {
                Ok(Argument::Handle(ReflectPtr::new_mut(memory, slot, state)))
            } else {
                Ok(Argument::Handle(ReflectPtr::new_ref(memory, slot, state)))
            }
        },
        _ => Err(BridgeError::InvocationError),
    }
}

/// Resolves the parameters of `system`, in their order, into the arguments that its
/// function is to be called with. `found` holds what the host has found for each
/// parameter. Where a parameter cannot be resolved, the system is not to be invoked in
/// this tick; what was lent to the script before that stays in the memory until the
/// invocation is finished.
pub fn resolve_parameters(system: &LuaSystem, found: Vec<ParameterInput>, memory: &mut HostMemory) -> (r:
    Result<Vec<Argument>, BridgeError>)
    ensures
        final(memory)@ == resolve(system@.system_parameters, inputs(found@), old(memory)@).1,
        final(memory)@.generation == old(memory)@.generation,
        r matches Ok(list) ==> forall|i: int|
            0 <= i < list@.len() ==> made_for(
                (#[trigger] list@[i])@,
                old(memory)@.generation,
            ),
        match r {
            Ok(list) => resolve(system@.system_parameters, inputs(found@), old(memory)@).0 == Ok::<
                Seq<Resolved>,
                BridgeError,
            >(arguments(list@)),
            Err(e) => resolve(system@.system_parameters, inputs(found@), old(memory)@).0 == Err::<
                Seq<Resolved>,
                BridgeError,
            >(e),
        },
{
    if system.system_parameters.len() != found.len() {
        return Err(BridgeError::InvocationError);
    }
    let n = found.len();
    let ghost parameters = system@.system_parameters;
    let ghost all = inputs(found@);
    let mut stack = reversed(found);
    let mut out: Vec<Argument> = Vec::new();
    let mut k: usize = 0;
    assert(arguments(out@) =~= Seq::<Resolved>::empty());
    while k < n
        invariant
            k <= n,
            n == found@.len(),
            n == system.system_parameters@.len(),
            parameters == system@.system_parameters,
            all == inputs(found@),
            memory@.generation == old(memory)@.generation,
            out@.len() == k,
            forall|i: int|
                0 <= i < out@.len() ==> made_for((#[trigger] out@[i])@, old(memory)@.generation),
            stack@.len() == n - k,
            forall|i: int| 0 <= i < stack@.len() ==> stack@[i] == found@[n - 1 - i],
            resolve_from(parameters, all, old(memory)@, 0).1 == resolve_from(
                parameters,
                all,
                memory@,
                k as int,
            ).1,
            resolve_from(parameters, all, old(memory)@, 0).0 == match resolve_from(
                parameters,
                all,
                memory@,
                k as int,
            ).0 {
                Ok(rest) => Ok::<Seq<Resolved>, BridgeError>(arguments(out@) + rest),
                Err(e) => Err::<Seq<Resolved>, BridgeError>(e),
            },
        decreases n - k,
    {
        let input = stack.pop().unwrap();
        assert(input == found@[k as int]);
        assert(parameters[k as int] == system.system_parameters[k as int]@);
        let ghost before = arguments(out@);
        match resolve_parameter(&system.system_parameters[k], input, memory) {
            Ok(a) => {
                out.push(a);
                proof {
                    assert(arguments(out@) =~= before + seq![a@]);
                    let rest = resolve_from(parameters, all, memory@, k + 1);
                    if rest.0 is Ok {
                        assert(before + (seq![a@] + rest.0->Ok_0) =~= (before + seq![a@])
                            + rest.0->Ok_0);
                    }
                }
            },
            Err(e) => {
                return Err(e);
            },
        }
        k += 1;
    }
    assert(arguments(out@) + Seq::<Resolved>::empty() =~= arguments(out@));
    Ok(out)
}

/// A query that matched no entity resolves to an iteration that has no row: it lends
/// nothing to the script, its first step hands out nothing, and it stays without rows.
pub proof fn lemma_empty_query_yields_nothing(accesses: Seq<ComponentType>, m: Memory)
    ensures
        ({
            let resolved = resolve_one(Parameter::Query(accesses), Input::Query(Seq::empty()), m);
            &&& resolved is Ok
            &&& resolved->Ok_0.1 == m
            &&& resolved->Ok_0.0 matches Resolved::Query(it) && it.rows.len() == 0 && advance(
                it,
                m,
            ).0 is None && advance(it, m).1.rows.len() == 0
        }),
{
}

} // verus!
