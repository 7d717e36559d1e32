use crate::error::BridgeError;
use crate::marshal::{HostArg, HostArgView, HostCall, Return, TableReflectWrapper};
use crate::memory::{HostMemory, Memory};
use crate::reflect::{Handle, ReflectPtr, ReflectType};
use crate::registry::{table_of, Function, ObjectFunctionRegistry, ParamKind, ReturnKind, Signature};
use crate::script::{ScriptValue, TableEntry, UserData};
use crate::system::{is_component_type, WorldMut};
use crate::value::{type_of, HostValue, Reflection};
use vstd::prelude::*;

verus! {

/// Identity of the type of the command queue, under which its functions are registered.
pub const TYPE_COMMAND_QUEUE: u64 = 6;

/// The declaration of `spawn`: it takes the command queue, exclusively, and a table of
/// components, and gives back nothing.
pub open spec fn spawn_signature() -> Signature {
    Signature { params: seq![ParamKind::Mut, ParamKind::Table], returns: ReturnKind::Owned }
}

/// Registers the function of the command queue, `spawn`, so that scripts find it on the
/// handle to the queue. It is registered once.
pub fn register_command_queue(registry: &mut ObjectFunctionRegistry) -> (registered: bool)
    ensures
        registered == !table_of(old(registry)@, TYPE_COMMAND_QUEUE).contains_key("spawn"@),
        registered ==> final(registry)@ == old(registry)@.insert(
            TYPE_COMMAND_QUEUE,
            table_of(old(registry)@, TYPE_COMMAND_QUEUE).insert("spawn"@, spawn_signature()),
        ),
        !registered ==> final(registry)@ == old(registry)@,
{
    let mut params: Vec<ParamKind> = Vec::new();
    params.push(ParamKind::Mut);
    params.push(ParamKind::Table);
    assert(params@ =~= seq![ParamKind::Mut, ParamKind::Table]);
    let spawn = Function { name: String::from_str("spawn"), params, returns: ReturnKind::Owned };
    registry.register_object_function(TYPE_COMMAND_QUEUE, spawn, None)
}

/// The table that a call of `spawn` hands over: the call must be of a function of the
/// command queue and of that name, with the queue and one table as its arguments.
pub open spec fn spawn_table(type_id: u64, name: Seq<char>, args: Seq<HostArgView>) -> Result<
    Seq<TableEntry>,
    BridgeError,
> {
    if type_id != TYPE_COMMAND_QUEUE || name != "spawn"@ {
        Err(BridgeError::NoSuchMethod)
    } else if args.len() != 2 {
        Err(BridgeError::ArityMismatch)
    } else {
        match (args[0], args[1]) {
            (HostArgView::Mut(_), HostArgView::Table(table)) => Ok(table),
            _ => Err(BridgeError::TypeMismatch),
        }
    }
}

/// The views of a list of handles.
pub open spec fn handles(list: Seq<ReflectPtr>) -> Seq<Handle> {
    list.map_values(|h: ReflectPtr| h@)
}

/// Whether the handle owns a component: it is live, the value is in its cell, reflection
/// can open the value, and the host has registered the value's type as a component.
pub open spec fn owns_component(h: Handle, m: Memory, components: Seq<(usize, u64)>) -> bool {
    match h.take(m) {
        Ok(taken) => !(taken.0 is Opaque) && is_component_type(components, type_of(taken.0)),
        Err(_) => false,
    }
}

/// Whether the entry hands over a component: it holds a handle that owns one.
pub open spec fn is_component(entry: TableEntry, m: Memory, components: Seq<(usize, u64)>) -> bool {
    entry.value matches ScriptValue::UserData(UserData::Reflect(h)) && owns_component(
        h@,
        m,
        components,
    )
}

/// The handle that the entry hands over.
pub open spec fn component_of(entry: TableEntry) -> Handle {
    entry.value->UserData_0->Reflect_0@
}

/// The owning handles of a component table, in the table's order; `None` where an entry
/// is anything but a handle that owns a component: a scalar, a table, a handle that
/// refers to a value of the host's, a handle that is stale or whose value is gone, or
/// an owned value that is no registered component.
pub open spec fn components_of(
    entries: Seq<TableEntry>,
    m: Memory,
    components: Seq<(usize, u64)>,
) -> Option<Seq<Handle>> {
    if forall|i: int|
        0 <= i < entries.len() ==> is_component(#[trigger] entries[i], m, components) {
        Some(Seq::new(entries.len(), |i: int| component_of(entries[i])))
    } else {
        None
    }
}

/// What applying the operations from the `k`-th on gives, one after the other: for each
/// the component taken out of its cell, or the reason why it could not be, and the
/// memory after all of them.
pub open spec fn apply_from(pending: Seq<Handle>, m: Memory, k: int) -> (
    Seq<Result<Reflection, BridgeError>>,
    Memory,
)
    decreases pending.len() - k,
{
    if k < 0 || k >= pending.len() {
        (Seq::empty(), m)
    } else {
        match pending[k].take(m) {
            Ok((v, after)) => {
                let rest = apply_from(pending, after, k + 1);
                (seq![Ok(v)] + rest.0, rest.1)
            },
            Err(e) => {
                let rest = apply_from(pending, m, k + 1);
                (seq![Err(e)] + rest.0, rest.1)
            },
        }
    }
}

/// The views of a list of applied operations.
pub open spec fn applied(list: Seq<Result<HostValue, BridgeError>>) -> Seq<
    Result<Reflection, BridgeError>,
> {
    list.map_values(
        |r: Result<HostValue, BridgeError>|
            match r {
                Ok(v) => Ok(v@),
                Err(e) => Err(e),
            },
    )
}

/// The changes that one invocation of a system has asked for and that wait until the
/// system has returned. Each operation creates one entity with one component, which is
/// the value that an owning handle gives up when the operation is applied.
#[derive(Debug)]
pub struct CommandQueueWrapper {
    pub commands: Vec<ReflectPtr>,
}

impl CommandQueueWrapper {
    /// Whether the handle owns a component that `world` has registered.
    fn owns_component(h: &ReflectPtr, memory: &HostMemory, world: &WorldMut) -> (r: bool)
        ensures
            r == owns_component(h@, memory@, world@),
    {
        if !h.is_live(memory) {
            return false;
        }
        match h.data {
            ReflectType::Boxed(cell) => match memory.cell(cell) {
                Some(Some(value)) => match value {
                    HostValue::Opaque(_) => false,
                    _ => world.has_component_type(value.type_id()),
                },
                _ => false,
            },
            _ => false,
        }
    }

    /// A queue with nothing pending.
    pub fn new() -> (q: CommandQueueWrapper)
        ensures
            q.commands@.len() == 0,
    {
        CommandQueueWrapper { commands: Vec::new() }
    }

    /// Records, for each entry of `table`, the creation of an entity with the component
    /// that the entry hands over. Every entry must hold a handle that owns a component
    /// which the host `world` has registered; otherwise nothing is recorded. The values
    /// are taken when the queue is applied.
    #[verifier::loop_isolation(false)]
    pub fn spawn(&mut self, memory: &HostMemory, world: &WorldMut, table: TableReflectWrapper) -> (r:
        Result<(), BridgeError>)
        ensures
            match components_of(table@, memory@, world@) {
                Some(added) => r is Ok && handles(final(self).commands@) == handles(
                    old(self).commands@,
                ) + added,
                None => r == Err::<(), BridgeError>(BridgeError::NonReflectableComponent)
                    && final(self).commands == old(self).commands,
            },
    {
        let entries = table.take();
        let mut i: usize = 0;
        while i < entries.len()
            invariant
                i <= entries.len(),
                forall|j: int|
                    0 <= j < i ==> is_component(#[trigger] entries[j], memory@, world@),
            decreases entries.len() - i,
        {
            let fits = match &entries[i].value {
                ScriptValue::UserData(UserData::Reflect(h)) => Self::owns_component(
                    h,
                    memory,
                    world,
                ),
                _ => false,
            };
            if !fits {
                assert(!is_component(entries[i as int], memory@, world@));
                return Err(BridgeError::NonReflectableComponent);
            }
            i += 1;
        }
        let ghost added = components_of(entries@, memory@, world@)->0;
        let mut k: usize = 0;
        assert(handles(self.commands@) =~= handles(old(self).commands@) + added.take(0));
        while k < entries.len()
            invariant
                k <= entries.len(),
                handles(self.commands@) == handles(old(self).commands@) + added.take(k as int),
            decreases entries.len() - k,
        {
            let ghost before = handles(self.commands@);
            match &entries[k].value {
                ScriptValue::UserData(UserData::Reflect(h)) => {
                    let h = h.clone();
                    self.commands.push(h);
                    assert(handles(self.commands@) =~= before.push(h@));
                    assert(is_component(entries[k as int], memory@, world@));
                    assert(added.take(k + 1) =~= added.take(k as int).push(h@));
                    assert(handles(self.commands@) =~= handles(old(self).commands@) + added.take(
                        k + 1,
                    ));
                },
                _ => {
                    assert(is_component(entries[k as int], memory@, world@));
                },
            }
            k += 1;
        }
        assert(added.take(entries.len() as int) =~= added);
        Ok(())
    }

    /// Applies the pending operations in the order in which they were recorded, and
    /// leaves the queue empty. The result holds, for each operation in that order, the
    /// component for the entity that the host is to create, or the reason why the
    /// operation came to nothing.
    pub fn apply(&mut self, memory: &mut HostMemory) -> (r: Vec<Result<HostValue, BridgeError>>)
        ensures
            final(self).commands@.len() == 0,
            applied(r@) == apply_from(handles(old(self).commands@), old(memory)@, 0).0,
            final(memory)@ == apply_from(handles(old(self).commands@), old(memory)@, 0).1,
    {
        let ghost pending = handles(self.commands@);
        let n = self.commands.len();
        let mut out: Vec<Result<HostValue, BridgeError>> = Vec::new();
        let mut k: usize = 0;
        assert(applied(out@) =~= Seq::<Result<Reflection, BridgeError>>::empty());
        while k < n
            invariant
                k <= n,
                n == self.commands@.len(),
                pending == handles(self.commands@),
                apply_from(pending, old(memory)@, 0).0 == applied(out@) + apply_from(
                    pending,
                    memory@,
                    k as int,
                ).0,
                apply_from(pending, old(memory)@, 0).1 == apply_from(pending, memory@, k as int).1,
            decreases n - k,
        {
            let ghost before = applied(out@);
            let ghost m = memory@;
            let taken = self.commands[k].take(memory);
            assert(pending[k as int] == self.commands[k as int]@);
            let ghost head: Result<Reflection, BridgeError> = if taken is Ok {
                Ok(taken->Ok_0@)
            } else {
                Err(taken->Err_0)
            };
            out.push(taken);
            proof {
                let rest = apply_from(pending, memory@, k + 1);
                assert(applied(out@) =~= before + seq![head]);
                assert(before + (seq![head] + rest.0) =~= (before + seq![head]) + rest.0);
            }
            k += 1;
        }
        assert(applied(out@) + Seq::<Result<Reflection, BridgeError>>::empty() =~= applied(out@));
        self.commands.clear();
        out
    }

    /// Makes a call of a function of the command queue, as the library prepared it.
    /// The queue has one function, `spawn`.
    pub fn call(&mut self, memory: &HostMemory, world: &WorldMut, call: HostCall) -> (r: Result<
        Return,
        BridgeError,
    >)
        ensures
            match spawn_table(
                call.type_id,
                call.function.name@,
                crate::marshal::arg_views(call.args@),
            ) {
                Err(e) => r == Err::<Return, BridgeError>(e) && final(self).commands == old(
                    self,
                ).commands,
                Ok(table) => match components_of(table, memory@, world@) {
                    Some(added) => r == Ok::<Return, BridgeError>(Return::Owned(HostValue::Unit))
                        && handles(final(self).commands@) == handles(old(self).commands@) + added,
                    None => r == Err::<Return, BridgeError>(BridgeError::NonReflectableComponent)
                        && final(self).commands == old(self).commands,
                },
            },
    {
        if call.type_id != TYPE_COMMAND_QUEUE || call.function.name != String::from_str("spawn") {
            return Err(BridgeError::NoSuchMethod);
        }
        let mut args = call.args;
        if args.len() != 2 {
            return Err(BridgeError::ArityMismatch);
        }
        let ghost views = crate::marshal::arg_views(args@);
        let second = args.pop().unwrap();
        let first = args.pop().unwrap();
        assert(views[0] == first@ && views[1] == second@);
        match (first, second) {
            (HostArg::Mut(_), HostArg::Table(table)) => match self.spawn(memory, world, table) {
                Ok(()) => Ok(Return::Owned(HostValue::Unit)),
                Err(e) => Err(e),
            },
            _ => Err(BridgeError::TypeMismatch),
        }
    }

    /// Drops the pending operations without applying them.
    pub fn discard(&mut self)
        ensures
            final(self).commands@.len() == 0,
    {
        self.commands.clear();
    }
}

/// Operations are applied in the order in which they were recorded: where every handle
/// is live and owns a full cell of its own, the `i`-th result is the value that the
/// `i`-th handle owned, and afterwards that cell is empty.
pub proof fn lemma_applied_in_order(pending: Seq<Handle>, m: Memory, i: int)
    requires
        0 <= i < pending.len(),
        forall|j: int| 0 <= j < pending.len() ==> (#[trigger] pending[j]).take(m) is Ok,
        forall|j: int, k: int|
            0 <= j < k < pending.len() ==> (#[trigger] pending[j]).data != (
            #[trigger] pending[k]).data,
    ensures
        apply_from(pending, m, 0).0.len() == pending.len(),
        apply_from(pending, m, 0).0[i] == Ok::<Reflection, BridgeError>(pending[i].take(m)->Ok_0.0),
        pending[i].take(apply_from(pending, m, 0).1) == Err::<(Reflection, Memory), BridgeError>(
            BridgeError::AlreadyTaken,
        ),
{
    lemma_applied_from(pending, m, m, 0, i);
}

/// Whether the handle owns the cell `c`.
spec fn owns(h: Handle, c: int) -> bool {
    h.data matches ReflectType::Boxed(cell) && cell == c
}

/// The memory `now` is `m` with the cells of the handles before `k` emptied.
spec fn emptied_before(pending: Seq<Handle>, m: Memory, now: Memory, k: int) -> bool {
    &&& now.generation == m.generation
    &&& now.closed == m.closed
    &&& now.slots == m.slots
    &&& now.states == m.states
    &&& now.cells.len() == m.cells.len()
    &&& forall|c: int|
        0 <= c < m.cells.len() ==> #[trigger] now.cells[c] == if exists|j: int|
            0 <= j < k && owns(#[trigger] pending[j], c) {
            None
        } else {
            m.cells[c]
        }
}

proof fn lemma_applied_from(pending: Seq<Handle>, m: Memory, now: Memory, k: int, i: int)
    requires
        0 <= k <= pending.len(),
        0 <= i < pending.len(),
        forall|j: int| 0 <= j < pending.len() ==> (#[trigger] pending[j]).take(m) is Ok,
        forall|j: int, l: int|
            0 <= j < l < pending.len() ==> (#[trigger] pending[j]).data != (
            #[trigger] pending[l]).data,
        emptied_before(pending, m, now, k),
    ensures
        apply_from(pending, now, k).0.len() == pending.len() - k,
        k <= i ==> apply_from(pending, now, k).0[i - k] == Ok::<Reflection, BridgeError>(
            pending[i].take(m)->Ok_0.0,
        ),
        pending[i].take(apply_from(pending, now, k).1) == Err::<(Reflection, Memory), BridgeError>(
            BridgeError::AlreadyTaken,
        ),
    decreases pending.len() - k,
{
    if k >= pending.len() {
        assert(pending[i].take(m) is Ok);
        let c = pending[i].data->Boxed_0 as int;
        assert(owns(pending[i], c));
        assert(now.cells[c] is None);
    } else {
        let h = pending[k];
        assert(h.take(m) is Ok);
        let c = h.data->Boxed_0 as int;
        assert(!(exists|j: int| 0 <= j < k && owns(#[trigger] pending[j], c))) by {
            if exists|j: int| 0 <= j < k && owns(#[trigger] pending[j], c) {
                let j = choose|j: int| 0 <= j < k && owns(#[trigger] pending[j], c);
                assert(pending[j].data != pending[k].data);
            }
        }
        assert(now.cells[c] == m.cells[c]);
        let after = h.take(now)->Ok_0.1;
        assert forall|d: int| 0 <= d < m.cells.len() implies #[trigger] after.cells[d] == if exists|
            j: int,
        |
            0 <= j < k + 1 && owns(#[trigger] pending[j], d) {
            None
        } else {
            m.cells[d]
        } by {
            if d == c {
                assert(owns(pending[k], d));
            } else {
                assert(after.cells[d] == now.cells[d]);
                if exists|j: int| 0 <= j < k + 1 && owns(#[trigger] pending[j], d) {
                    let j = choose|j: int| 0 <= j < k + 1 && owns(#[trigger] pending[j], d);
                    assert(j != k);
                    assert(0 <= j < k && owns(pending[j], d));
                } else {
                    if exists|j: int| 0 <= j < k && owns(#[trigger] pending[j], d) {
                        let j = choose|j: int| 0 <= j < k && owns(#[trigger] pending[j], d);
                        assert(0 <= j < k + 1 && owns(pending[j], d));
                    }
                }
            }
        }
        lemma_applied_from(pending, m, after, k + 1, i);
    }
}

} // verus!
