use crate::error::BridgeError;
use crate::memory::{HostMemory, Memory, PtrState};
use crate::reflect::{Handle, Indexed, ReflectPtr, ReflectType};
use crate::registry::{Function, ObjectFunctionRegistry, ParamKind, Signature};
use crate::script::{ScriptValue, TableEntry, UserData};
use crate::util::reversed;
use crate::value::{type_of, HostValue, Reflection};
use vstd::prelude::*;

verus! {

/// A table of the script on its way to a function of the host. The table can be taken
/// out once the function has it.
#[derive(Debug, PartialEq)]
pub struct TableReflectWrapper {
    table: Vec<TableEntry>,
}

impl View for TableReflectWrapper {
    type V = Seq<TableEntry>;

    closed spec fn view(&self) -> Seq<TableEntry> {
        self.table@
    }
}

impl TableReflectWrapper {
    /// Wraps the entries of a table.
    pub fn new(table: Vec<TableEntry>) -> (r: TableReflectWrapper)
        ensures
            r@ == table@,
    {
        TableReflectWrapper { table }
    }

    /// The entries of the table, in their order.
    pub fn take(self) -> (table: Vec<TableEntry>)
        ensures
            table@ == self@,
    {
        self.table
    }
}

/// The mathematical content of an argument as the host receives it.
pub ghost enum HostArgView {
    Owned(Reflection),
    Table(Seq<TableEntry>),
    Ref(Handle),
    Mut(Handle),
}

/// An argument as a function of the host receives it.
#[derive(Debug, PartialEq)]
pub enum HostArg {
    /// A value that the callee owns.
    Owned(HostValue),
    /// A table of the script.
    Table(TableReflectWrapper),
    /// Shared access to what the handle stands for.
    Ref(ReflectPtr),
    /// Exclusive access to what the handle stands for.
    Mut(ReflectPtr),
}

impl View for HostArg {
    type V = HostArgView;

    open spec fn view(&self) -> HostArgView {
        match self {
            HostArg::Owned(v) => HostArgView::Owned(v@),
            HostArg::Table(t) => HostArgView::Table(t@),
            HostArg::Ref(h) => HostArgView::Ref(h@),
            HostArg::Mut(h) => HostArgView::Mut(h@),
        }
    }
}

/// The views of a list of arguments.
pub open spec fn arg_views(args: Seq<HostArg>) -> Seq<HostArgView> {
    args.map_values(|a: HostArg| a@)
}

/// One argument of the script, fitted to the kind that the callee declares for it, and
/// the memory after that. A scalar must have the declared kind. A reference is had
/// only from a handle whose target can be reached, an exclusive one not from a shared
/// handle. An owned host value is taken out of the cell of an owning handle.
pub open spec fn marshal_one(kind: ParamKind, arg: ScriptValue, m: Memory) -> Result<
    (HostArgView, Memory),
    BridgeError,
> {
    match (kind, arg) {
        (ParamKind::Nil, ScriptValue::Nil) => Ok((HostArgView::Owned(Reflection::Unit), m)),
        (ParamKind::Bool, ScriptValue::Boolean(b)) => Ok(
            (HostArgView::Owned(Reflection::Bool(b)), m),
        ),
        (ParamKind::Int, ScriptValue::Integer(i)) => Ok((HostArgView::Owned(Reflection::I64(i)), m)),
        (ParamKind::Float, ScriptValue::Number(bits)) => Ok(
            (HostArgView::Owned(Reflection::Float(bits)), m),
        ),
        (ParamKind::String, ScriptValue::String(s)) => Ok(
            (HostArgView::Owned(Reflection::Str(s@)), m),
        ),
        (ParamKind::Table, ScriptValue::Table(t)) => Ok((HostArgView::Table(t@), m)),
        (ParamKind::Ref, ScriptValue::UserData(UserData::Reflect(h))) => match h@.target(m) {
            Ok(_) => Ok((HostArgView::Ref(h@), m)),
            Err(e) => Err(e),
        },
        (ParamKind::Mut, ScriptValue::UserData(UserData::Reflect(h))) => if !h@.live(m) {
            Err(BridgeError::StaleHandle)
        } else if h@.data is PtrRef {
            Err(BridgeError::ArityMismatch)
        } else {
            match h@.target(m) {
                Ok(_) => Ok((HostArgView::Mut(h@), m)),
                Err(e) => Err(e),
            }
        },
        (ParamKind::Owned, ScriptValue::UserData(UserData::Reflect(h))) => match h@.take(m) {
            Ok((v, after)) => Ok((HostArgView::Owned(v), after)),
            Err(e) => Err(e),
        },
        _ => Err(BridgeError::TypeMismatch),
    }
}

/// The arguments from the `k`-th on, fitted one after the other, and the memory after
/// them. The first argument that does not fit ends it.
pub open spec fn marshal_from(params: Seq<ParamKind>, args: Seq<ScriptValue>, m: Memory, k: int) -> (
    Result<Seq<HostArgView>, BridgeError>,
    Memory,
)
    decreases args.len() - k,
{
    if k < 0 || k >= args.len() {
        (Ok(Seq::empty()), m)
    } else {
        match marshal_one(params[k], args[k], m) {
            Err(e) => (Err(e), m),
            Ok((a, after)) => {
                let rest = marshal_from(params, args, after, k + 1);
                match rest.0 {
                    Ok(r) => (Ok(seq![a] + r), rest.1),
                    Err(e) => (Err(e), rest.1),
                }
            },
        }
    }
}

/// The arguments of a call as the host receives them, and the memory after they were
/// fitted. There must be as many as the callee declares, and each must fit: the
/// arguments are fitted in their order, so that an owned value that is handed over
/// twice is gone at the second time. Where the call cannot be prepared, the memory
/// stays as it was, with every owned value in its cell.
pub open spec fn marshal(params: Seq<ParamKind>, args: Seq<ScriptValue>, m: Memory) -> (
    Result<Seq<HostArgView>, BridgeError>,
    Memory,
) {
    if params.len() != args.len() {
        (Err(BridgeError::ArityMismatch), m)
    } else {
        match marshal_from(params, args, m, 0).0 {
            Ok(fitted) => (Ok(fitted), marshal_from(params, args, m, 0).1),
            Err(e) => (Err(e), m),
        }
    }
}

/// Whether the cell `c` is among those in `taken`.
spec fn is_taken(taken: Seq<usize>, c: int) -> bool {
    exists|i: int| 0 <= i < taken.len() && #[trigger] taken[i] == c
}

/// The memory with the cells in `taken` emptied.
spec fn without_cells(m: Memory, taken: Seq<usize>) -> Memory {
    Memory {
        cells: Seq::new(
            m.cells.len(),
            |c: int|
                if is_taken(taken, c) {
                    None
                } else {
                    m.cells[c]
                },
        ),
        ..m
    }
}

/// Whether `cell` is among `taken`.
fn contains_cell(taken: &Vec<usize>, cell: usize) -> (r: bool)
    ensures
        r == is_taken(taken@, cell as int),
{
    let mut i: usize = 0;
    while i < taken.len()
        invariant
            i <= taken.len(),
            forall|j: int| 0 <= j < i ==> #[trigger] taken@[j] != cell,
        decreases taken.len() - i,
    {
        if taken[i] == cell {
            return true;
        }
        i += 1;
    }
    false
}

/// Whether a reference can be had from the handle once the cells in `taken` are empty.
fn check_reference(h: &ReflectPtr, memory: &HostMemory, taken: &Vec<usize>) -> (r: Result<
    (),
    BridgeError,
>)
    ensures
        match r {
            Ok(()) => h@.target(without_cells(memory@, taken@)) is Ok,
            Err(e) => h@.target(without_cells(memory@, taken@)) == Err::<Reflection, BridgeError>(e),
        },
{
    if !h.is_live(memory) {
        return Err(BridgeError::StaleHandle);
    }
    if let ReflectType::Boxed(cell) = h.data {
        if cell < memory.cell_count() && contains_cell(taken, cell) {
            return Err(BridgeError::AlreadyTaken);
        }
    }
    match h.get_field_value_ref(memory) {
        Ok(_) => Ok(()),
        Err(e) => Err(e),
    }
}

/// Whether one argument fits its declared kind once the cells in `taken` are empty, and
/// the cell that fitting it empties, if it empties one.
fn check_argument(kind: ParamKind, arg: &ScriptValue, memory: &HostMemory, taken: &Vec<usize>) -> (r:
    Result<Option<usize>, BridgeError>)
    ensures
        match r {
            Ok(None) => marshal_one(kind, *arg, without_cells(memory@, taken@)) matches Ok(fitted)
                && fitted.1 == without_cells(memory@, taken@),
            Ok(Some(cell)) => marshal_one(kind, *arg, without_cells(memory@, taken@)) matches Ok(
                fitted,
            ) && fitted.1 == without_cells(memory@, taken@.push(cell)),
            Err(e) => marshal_one(kind, *arg, without_cells(memory@, taken@)) == Err::<
                (HostArgView, Memory),
                BridgeError,
            >(e),
        },
{
    match (kind, arg) {
        (ParamKind::Nil, ScriptValue::Nil) => Ok(None),
        (ParamKind::Bool, ScriptValue::Boolean(_)) => Ok(None),
        (ParamKind::Int, ScriptValue::Integer(_)) => Ok(None),
        (ParamKind::Float, ScriptValue::Number(_)) => Ok(None),
        (ParamKind::String, ScriptValue::String(_)) => Ok(None),
        (ParamKind::Table, ScriptValue::Table(_)) => Ok(None),
        (ParamKind::Ref, ScriptValue::UserData(UserData::Reflect(h))) => {
            match check_reference(h, memory, taken) {
                Ok(()) => Ok(None),
                Err(e) => Err(e),
            }
        },
        (ParamKind::Mut, ScriptValue::UserData(UserData::Reflect(h))) => {
            if !h.is_live(memory) {
                return Err(BridgeError::StaleHandle);
            }
            if let ReflectType::PtrRef(_) = h.data {
                return Err(BridgeError::ArityMismatch);
            }
            match check_reference(h, memory, taken) {
                Ok(()) => Ok(None),
                Err(e) => Err(e),
            }
        },
        (ParamKind::Owned, ScriptValue::UserData(UserData::Reflect(h))) => {
            if !h.is_live(memory) {
                return Err(BridgeError::StaleHandle);
            }
            match h.data {
                ReflectType::Boxed(cell) => {
                    if contains_cell(taken, cell) && cell < memory.cell_count() {
                        return Err(BridgeError::AlreadyTaken);
                    }
                    match memory.cell(cell) {
                        Some(Some(_)) => {
                            proof {
                                let now = without_cells(memory@, taken@);
                                assert(now.cells.update(cell as int, None) =~= without_cells(
                                    memory@,
                                    taken@.push(cell),
                                ).cells) by {
                                    assert forall|c: int| 0 <= c < now.cells.len() implies is_taken(
                                        taken@.push(cell),
                                        c,
                                    ) == (is_taken(taken@, c) || c == cell) by {
                                        if is_taken(taken@, c) {
                                            let i = choose|i: int|
                                                0 <= i < taken@.len() && #[trigger] taken@[i] == c;
                                            assert(taken@.push(cell)[i] == c);
                                        }
                                        if c == cell {
                                            assert(taken@.push(cell)[taken@.len() as int] == c);
                                        }
                                        if is_taken(taken@.push(cell), c) {
                                            let i = choose|i: int|
                                                0 <= i < taken@.push(cell).len()
                                                    && #[trigger] taken@.push(cell)[i] == c;
                                            if i < taken@.len() {
                                                assert(taken@[i] == c);
                                            }
                                        }
                                    }
                                }
                            }
                            Ok(Some(cell))
                        },
                        Some(None) => Err(BridgeError::AlreadyTaken),
                        None => Err(BridgeError::StaleHandle),
                    }
                },
                _ => Err(BridgeError::ArityMismatch),
            }
        },
        _ => Err(BridgeError::TypeMismatch),
    }
}

/// Whether every argument fits, one after the other.
fn check_arguments(params: &Vec<ParamKind>, args: &Vec<ScriptValue>, memory: &HostMemory) -> (r: Result<
    (),
    BridgeError,
>)
    requires
        params@.len() == args@.len(),
    ensures
        match r {
            Ok(()) => marshal_from(params@, args@, memory@, 0).0 is Ok,
            Err(e) => marshal_from(params@, args@, memory@, 0).0 == Err::<
                Seq<HostArgView>,
                BridgeError,
            >(e),
        },
{
    let mut taken: Vec<usize> = Vec::new();
    let mut k: usize = 0;
    assert(without_cells(memory@, taken@).cells =~= memory@.cells);
    while k < args.len()
        invariant
            k <= args.len(),
            params@.len() == args@.len(),
            marshal_from(params@, args@, memory@, 0).0 is Ok <==> marshal_from(
                params@,
                args@,
                without_cells(memory@, taken@),
                k as int,
            ).0 is Ok,
            marshal_from(params@, args@, memory@, 0).0 is Err ==> marshal_from(
                params@,
                args@,
                memory@,
                0,
            ).0->Err_0 == marshal_from(
                params@,
                args@,
                without_cells(memory@, taken@),
                k as int,
            ).0->Err_0,
        decreases args.len() - k,
    {
        match check_argument(params[k], &args[k], memory, &taken) {
            Ok(None) => {},
            Ok(Some(cell)) => {
                taken.push(cell);
            },
            Err(e) => {
                return Err(e);
            },
        }
        k += 1;
    }
    Ok(())
}

/// Fits one argument to its declared kind.
fn marshal_argument(kind: ParamKind, arg: ScriptValue, memory: &mut HostMemory) -> (r: Result<
    HostArg,
    BridgeError,
>)
    ensures
        match r {
            Ok(a) => marshal_one(kind, arg, old(memory)@) == Ok::<(HostArgView, Memory), BridgeError>(
                (a@, final(memory)@),
            ),
            Err(e) => marshal_one(kind, arg, old(memory)@) == Err::<
                (HostArgView, Memory),
                BridgeError,
            >(e) && final(memory)@ == old(memory)@,
        },
{
    match (kind, arg) {
        (ParamKind::Nil, ScriptValue::Nil) => Ok(HostArg::Owned(HostValue::Unit)),
        (ParamKind::Bool, ScriptValue::Boolean(b)) => Ok(HostArg::Owned(HostValue::Bool(b))),
        (ParamKind::Int, ScriptValue::Integer(i)) => Ok(HostArg::Owned(HostValue::I64(i))),
        (ParamKind::Float, ScriptValue::Number(bits)) => Ok(HostArg::Owned(HostValue::Float(bits))),
        (ParamKind::String, ScriptValue::String(s)) => Ok(HostArg::Owned(HostValue::Str(s))),
        (ParamKind::Table, ScriptValue::Table(t)) => Ok(HostArg::Table(TableReflectWrapper::new(t))),
        (ParamKind::Ref, ScriptValue::UserData(UserData::Reflect(h))) => {
            match h.get_field_value_ref(memory) {
                Ok(_) => Ok(HostArg::Ref(h)),
                Err(e) => Err(e),
            }
        },
        (ParamKind::Mut, ScriptValue::UserData(UserData::Reflect(h))) => {
            if !h.is_live(memory) {
                return Err(BridgeError::StaleHandle);
            }
            if let ReflectType::PtrRef(_) = h.data {
                return Err(BridgeError::ArityMismatch);
            }
            match h.get_field_value_ref(memory) {
                Ok(_) => Ok(HostArg::Mut(h)),
                Err(e) => Err(e),
            }
        },
        (ParamKind::Owned, ScriptValue::UserData(UserData::Reflect(h))) => {
            match h.take(memory) {
                Ok(v) => Ok(HostArg::Owned(v)),
                Err(e) => Err(e),
            }
        },
        _ => Err(BridgeError::TypeMismatch),
    }
}

/// A call of a function of the host, ready to be made: the type that the function is
/// registered for, its declaration, and the arguments.
#[derive(Debug, PartialEq)]
pub struct HostCall {
    pub type_id: u64,
    pub function: Function,
    pub args: Vec<HostArg>,
}

/// Prepares the call of `function`, which is registered for the type `type_id`, with
/// the arguments `args` of the script: each argument is matched against the kind that
/// the function declares at its position. The host makes the call with what comes
/// back. Where an argument does not fit, no call is prepared and nothing is consumed.
pub fn lua_wrapped_dynamic_function_call(
    type_id: u64,
    function: Function,
    args: Vec<ScriptValue>,
    memory: &mut HostMemory,
) -> (r: Result<HostCall, BridgeError>)
    ensures
        final(memory)@ == marshal(function.params@, args@, old(memory)@).1,
        match r {
            Ok(call) => call.type_id == type_id && call.function == function && marshal(
                function.params@,
                args@,
                old(memory)@,
            ).0 == Ok::<Seq<HostArgView>, BridgeError>(arg_views(call.args@)),
            Err(e) => marshal(function.params@, args@, old(memory)@).0 == Err::<
                Seq<HostArgView>,
                BridgeError,
            >(e),
        },
{
    if function.params.len() != args.len() {
        return Err(BridgeError::ArityMismatch);
    }
    match check_arguments(&function.params, &args, memory) {
        Ok(()) => {},
        Err(e) => {
            return Err(e);
        },
    }
    let n = args.len();
    let mut stack = reversed(args);
    let mut out: Vec<HostArg> = Vec::new();
    let mut k: usize = 0;
    assert(arg_views(out@) =~= Seq::<HostArgView>::empty());
    while k < n
        invariant
            n == args@.len(),
            n == function.params@.len(),
            k <= n,
            stack@.len() == n - k,
            forall|i: int| 0 <= i < stack@.len() ==> stack@[i] == args@[n - 1 - i],
            out@.len() == k,
            marshal_from(function.params@, args@, old(memory)@, 0).0 is Ok,
            marshal_from(function.params@, args@, old(memory)@, 0).1 == marshal_from(
                function.params@,
                args@,
                memory@,
                k as int,
            ).1,
            marshal_from(function.params@, args@, old(memory)@, 0).0 == match marshal_from(
                function.params@,
                args@,
                memory@,
                k as int,
            ).0 {
                Ok(rest) => Ok::<Seq<HostArgView>, BridgeError>(arg_views(out@) + rest),
                Err(e) => Err::<Seq<HostArgView>, BridgeError>(e),
            },
        decreases n - k,
    {
        let arg = stack.pop().unwrap();
        assert(arg == args@[k as int]);
        let ghost before = arg_views(out@);
        match marshal_argument(function.params[k], arg, memory) {
            Ok(a) => {
                out.push(a);
                proof {
                    assert(arg_views(out@) =~= before + seq![a@]);
                    let rest = marshal_from(function.params@, args@, memory@, k + 1);
                    if rest.0 is Ok {
                        assert(before + (seq![a@] + rest.0->Ok_0) =~= (before + seq![a@])
                            + rest.0->Ok_0);
                    }
                }
            },
            Err(e) => {
                return Err(e);
            },
        }
        k += 1;
    }
    assert(arg_views(out@) + Seq::<HostArgView>::empty() =~= arg_views(out@));
    Ok(HostCall { type_id, function, args: out })
}

/// What a function of the host hands back: a value of its own, or a host value that it
/// lends, shared or exclusive.
#[derive(Debug, PartialEq)]
pub enum Return {
    Owned(HostValue),
    Ref(HostValue),
    Mut(HostValue),
}

impl Return {
    /// The value handed back.
    pub open spec fn value(self) -> Reflection {
        match self {
            Return::Owned(v) => v@,
            Return::Ref(v) => v@,
            Return::Mut(v) => v@,
        }
    }
}

/// Whether a host value goes to the script by value.
pub open spec fn is_scalar(v: Reflection) -> bool {
    !(v is Struct || v is Opaque)
}

/// The handle under which the script receives a composite result: the owner of a new
/// cell, or a reference to a new slot, with a window of its own.
pub open spec fn result_handle(ret: Return, m: Memory) -> Handle {
    Handle {
        data: match ret {
            Return::Owned(_) => ReflectType::Boxed(m.cells.len() as usize),
            Return::Ref(_) => ReflectType::PtrRef(m.slots.len() as usize),
            Return::Mut(_) => ReflectType::PtrMut(m.slots.len() as usize),
        },
        path: Seq::empty(),
        ptr_state: m.states.len() as usize,
        generation: m.generation,
    }
}

/// The memory after a result was handed to the script. A scalar leaves it as it is; a
/// composite result gets its cell or slot, and a new validity flag.
pub open spec fn memory_after_return(ret: Return, m: Memory) -> Memory {
    if is_scalar(ret.value()) {
        m
    } else {
        match ret {
            Return::Owned(v) => Memory {
                cells: m.cells.push(Some(v@)),
                states: m.states.push(PtrState::Valid),
                ..m
            },
            Return::Ref(v) | Return::Mut(v) => Memory {
                slots: m.slots.push(v@),
                states: m.states.push(PtrState::Valid),
                ..m
            },
        }
    }
}

/// The scalar of the script that shows the host scalar `v`.
fn scalar_of(v: HostValue) -> (r: Result<ScriptValue, HostValue>)
    ensures
        match r {
            Ok(s) => is_scalar(v@) && crate::reflect::shows(s, v@, arbitrary()),
            Err(back) => !is_scalar(v@) && back == v,
        },
{
    match v {
        HostValue::Unit => Ok(ScriptValue::Nil),
        HostValue::Bool(b) => Ok(ScriptValue::Boolean(b)),
        HostValue::I32(i) => Ok(ScriptValue::Integer(i as i64)),
        HostValue::I64(i) => Ok(ScriptValue::Integer(i)),
        HostValue::Float(bits) => Ok(ScriptValue::Number(bits)),
        HostValue::Str(s) => Ok(ScriptValue::String(s)),
        other => Err(other),
    }
}

/// Hands the result of a call back to the script. Numbers go by value, integers
/// widened to 64 bits; strings, booleans and the unit value go as they are; anything
/// else is wrapped in a new handle, which owns it where the function gave it away.
pub fn lua_wrapped_dynamic_function_return(ret: Return, memory: &mut HostMemory) -> (r: ScriptValue)
    ensures
        final(memory)@ == memory_after_return(ret, old(memory)@),
        crate::reflect::shows(r, ret.value(), result_handle(ret, old(memory)@)),
{
    match ret {
        Return::Owned(v) => match scalar_of(v) {
            Ok(s) => s,
            Err(v) => {
                let state = memory.add_state();
                let handle = ReflectPtr::new_boxed(memory, v, state);
                ScriptValue::UserData(UserData::Reflect(handle))
            },
        },
        Return::Ref(v) => match scalar_of(v) {
            Ok(s) => s,
            Err(v) => {
                let state = memory.add_state();
                let slot = memory.add_slot(v);
                ScriptValue::UserData(UserData::Reflect(ReflectPtr::new_ref(memory, slot, state)))
            },
        },
        Return::Mut(v) => match scalar_of(v) {
            Ok(s) => s,
            Err(v) => {
                let state = memory.add_state();
                let slot = memory.add_slot(v);
                ScriptValue::UserData(UserData::Reflect(ReflectPtr::new_mut(memory, slot, state)))
            },
        },
    }
}

/// The memory after the values that a function of the host left behind its exclusive
/// references were written back, from the `k`-th on and in their order, each through
/// the handle that the reference was had from. The first that cannot be written ends it.
pub open spec fn write_back_from(changed: Seq<(Handle, Reflection)>, m: Memory, k: int) -> (
    Result<(), BridgeError>,
    Memory,
)
    decreases changed.len() - k,
{
    if k < 0 || k >= changed.len() {
        (Ok(()), m)
    } else {
        match changed[k].0.store(m, changed[k].1) {
            Ok(after) => write_back_from(changed, after, k + 1),
            Err(e) => (Err(e), m),
        }
    }
}

/// The views of a list of handles with the values to write through them.
pub open spec fn changes(list: Seq<(ReflectPtr, HostValue)>) -> Seq<(Handle, Reflection)> {
    list.map_values(|c: (ReflectPtr, HostValue)| (c.0@, c.1@))
}

/// Writes back what a function of the host did to the values that it had exclusive
/// references to: for each such argument, in the order of the arguments, the value as
/// the function left it goes where the handle of the argument points.
pub fn write_back(changed: Vec<(ReflectPtr, HostValue)>, memory: &mut HostMemory) -> (r: Result<
    (),
    BridgeError,
>)
    ensures
        (r, final(memory)@) == write_back_from(changes(changed@), old(memory)@, 0),
{
    let n = changed.len();
    let ghost all = changes(changed@);
    let mut stack = reversed(changed);
    let mut k: usize = 0;
    while k < n
        invariant
            k <= n,
            n == changed@.len(),
            all == changes(changed@),
            stack@.len() == n - k,
            forall|i: int| 0 <= i < stack@.len() ==> stack@[i] == changed@[n - 1 - i],
            write_back_from(all, old(memory)@, 0) == write_back_from(all, memory@, k as int),
        decreases n - k,
    {
        let (handle, value) = stack.pop().unwrap();
        assert(all[k as int] == (handle@, value@));
        match handle.set_field_value(memory, value) {
            Ok(()) => {},
            Err(e) => {
                return Err(e);
            },
        }
        k += 1;
    }
    Ok(())
}

/// What calling a method on a handle comes to.
#[derive(Debug, PartialEq)]
pub enum MethodCall {
    /// A function is registered under the name: the host is to call it.
    Invoke(HostCall),
    /// No function is registered under the name: the name is a field, and this is the
    /// handle to it.
    Field(ReflectPtr),
}

/// The arguments of a method call: the receiver first.
pub open spec fn with_receiver(handle: ReflectPtr, args: Seq<ScriptValue>) -> Seq<ScriptValue> {
    seq![ScriptValue::UserData(UserData::Reflect(handle))] + args
}

/// Calls the method `name` on what `handle` stands for, as the script does with
/// `handle:name(args)`. Where a function is registered under `name` for the type of the
/// target, the call is prepared with the handle as the first argument. Where none is,
/// the name is taken for a field and the handle to that field comes back. A handle that
/// is stale, or whose target cannot be reached, fails before anything is touched.
pub fn call_method(
    handle: &ReflectPtr,
    memory: &mut HostMemory,
    registry: &ObjectFunctionRegistry,
    name: &str,
    args: Vec<ScriptValue>,
) -> (r: Result<MethodCall, BridgeError>)
    ensures
        match handle@.index(old(memory)@, registry@, name@) {
            Err(e) => r == Err::<MethodCall, BridgeError>(e) && final(memory)@ == old(memory)@,
            Ok(None) => r matches Ok(MethodCall::Field(p)) && p@ == handle@.child(name@)
                && final(memory)@ == old(memory)@,
            Ok(Some(signature)) => exists|receiver: ReflectPtr|
                {
                    let outcome = marshal(
                        signature.params,
                        #[trigger] with_receiver(receiver, args@),
                        old(memory)@,
                    );
                    &&& receiver@ == handle@
                    &&& final(memory)@ == outcome.1
                    &&& match r {
                        Ok(MethodCall::Invoke(call)) => call.type_id == type_of(
                            handle@.target(old(memory)@)->Ok_0,
                        ) && call.function.name@ == name@ && call.function.signature()
                            == signature && outcome.0 == Ok::<
                            Seq<HostArgView>,
                            BridgeError,
                        >(arg_views(call.args@)),
                        Ok(MethodCall::Field(_)) => false,
                        Err(e) => outcome.0 == Err::<Seq<HostArgView>, BridgeError>(e),
                    }
                },
        },
{
    match handle.lua_index(memory, registry, name) {
        Err(e) => Err(e),
        Ok(Indexed::Field(p)) => Ok(MethodCall::Field(p)),
        Ok(Indexed::Function(type_id, f)) => {
            let receiver = handle.clone();
            let mut all = args;
            all.insert(0, ScriptValue::UserData(UserData::Reflect(receiver)));
            assert(all@ =~= with_receiver(receiver, args@));
            match lua_wrapped_dynamic_function_call(type_id, f, all, memory) {
                Ok(call) => Ok(MethodCall::Invoke(call)),
                Err(e) => Err(e),
            }
        },
    }
}

/// Calls the function registered for the type `type_id` under `name`, as the script does
/// with a function that it found under the type's path.
pub fn call_function(
    registry: &ObjectFunctionRegistry,
    type_id: u64,
    name: &str,
    args: Vec<ScriptValue>,
    memory: &mut HostMemory,
) -> (r: Result<HostCall, BridgeError>)
    ensures
        !crate::registry::table_of(registry@, type_id).contains_key(name@) ==> r == Err::<
            HostCall,
            BridgeError,
        >(BridgeError::NoSuchMethod) && final(memory)@ == old(memory)@,
        crate::registry::table_of(registry@, type_id).contains_key(name@) ==> {
            let signature = crate::registry::table_of(registry@, type_id)[name@];
            let outcome = marshal(signature.params, args@, old(memory)@);
            &&& final(memory)@ == outcome.1
            &&& match r {
                Ok(call) => call.type_id == type_id && call.function.name@ == name@
                    && call.function.signature() == signature
                    && outcome.0 == Ok::<Seq<HostArgView>, BridgeError>(arg_views(call.args@)),
                Err(e) => outcome.0 == Err::<Seq<HostArgView>, BridgeError>(e),
            }
        },
{
    match registry.get(type_id, name) {
        None => Err(BridgeError::NoSuchMethod),
        Some(f) => lua_wrapped_dynamic_function_call(type_id, f.clone(), args, memory),
    }
}

} // verus!
