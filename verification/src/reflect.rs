use crate::error::BridgeError;
use crate::memory::{HostMemory, Memory, PtrState};
use crate::path::{join_path, lemma_segments_join, segments, split_path};
use crate::registry::{table_of, Function, ObjectFunctionRegistry, Signature};
use crate::script::{ScriptValue, UserData};
use crate::value::{
    lemma_navigate_concat, lemma_navigate_replaced, lemma_replace_reaches, navigate, replace_at,
    type_of, HostValue, Reflection,
};
use vstd::prelude::*;

verus! {

/// A request for access to one component or resource: shared or exclusive, and the
/// component's identity together with the identity of its type.
#[derive(Clone, Copy, Debug, PartialEq, Eq)]
pub enum ComponentType {
    Ref((usize, u64)),
    Mut((usize, u64)),
}

impl ComponentType {
    /// The identity of the component.
    pub open spec fn spec_component_id(self) -> usize {
        match self {
            ComponentType::Ref(ids) => ids.0,
            ComponentType::Mut(ids) => ids.0,
        }
    }

    /// The identity of the component.
    #[verifier::when_used_as_spec(spec_component_id)]
    pub fn component_id(self) -> (id: usize)
        ensures
            id == self.spec_component_id(),
    {
        match self {
            ComponentType::Ref(ids) => ids.0,
            ComponentType::Mut(ids) => ids.0,
        }
    }

    /// The identity of the component's type.
    pub open spec fn spec_type_id(self) -> u64 {
        match self {
            ComponentType::Ref(ids) => ids.1,
            ComponentType::Mut(ids) => ids.1,
        }
    }

    /// The identity of the component's type.
    #[verifier::when_used_as_spec(spec_type_id)]
    pub fn type_id(self) -> (id: u64)
        ensures
            id == self.spec_type_id(),
    {
        match self {
            ComponentType::Ref(ids) => ids.1,
            ComponentType::Mut(ids) => ids.1,
        }
    }

    /// Whether the access is exclusive.
    pub open spec fn spec_is_mut(self) -> bool {
        self is Mut
    }

    /// Whether the access is exclusive.
    #[verifier::when_used_as_spec(spec_is_mut)]
    pub fn is_mut(self) -> (m: bool)
        ensures
            m == self.spec_is_mut(),
    {
        match self {
            ComponentType::Ref(_) => false,
            ComponentType::Mut(_) => true,
        }
    }
}

/// The token by which a system asks for the command queue.
#[derive(Clone, Copy, Debug, PartialEq, Eq, Structural)]
pub struct CommandQueueMarker;

/// What a handle refers to, and how.
#[derive(Clone, Copy, Debug, PartialEq, Eq, Structural)]
pub enum ReflectType {
    /// Exclusive access to the host value in a slot.
    PtrMut(usize),
    /// Shared access to the host value in a slot.
    PtrRef(usize),
    /// Ownership of the value in a single-take cell.
    Boxed(usize),
}

/// The mathematical content of a handle.
pub ghost struct Handle {
    pub data: ReflectType,
    pub path: Seq<char>,
    pub ptr_state: usize,
    /// The generation of the memory that the handle was made for.
    pub generation: u64,
}

impl Handle {
    /// Whether the handle may be used on `m`: `m` is the memory that the handle was made
    /// for, it is not closed, and the validity window of the handle is open. A handle
    /// that was made for the memory of another invocation is never live, whatever the
    /// flags of `m` say; and no handle is live in the memory of an invocation that is
    /// finished.
    pub open spec fn live(self, m: Memory) -> bool {
        self.generation == m.generation && !m.closed && m.state(self.ptr_state)
            == PtrState::Valid
    }

    /// The value that the handle starts from. A handle whose window has closed, or which
    /// refers to nothing in `m`, is stale; an owned value that was taken is gone.
    pub open spec fn root(self, m: Memory) -> Result<Reflection, BridgeError> {
        if !self.live(m) {
            Err(BridgeError::StaleHandle)
        } else {
            match self.data {
                ReflectType::PtrMut(slot) | ReflectType::PtrRef(slot) => if slot < m.slots.len() {
                    Ok(m.slots[slot as int])
                } else {
                    Err(BridgeError::StaleHandle)
                },
                ReflectType::Boxed(cell) => if cell < m.cells.len() {
                    match m.cells[cell as int] {
                        Some(v) => Ok(v),
                        None => Err(BridgeError::AlreadyTaken),
                    }
                } else {
                    Err(BridgeError::StaleHandle)
                },
            }
        }
    }

    /// The value that the handle stands for: what its path leads to from its root.
    pub open spec fn target(self, m: Memory) -> Result<Reflection, BridgeError> {
        match self.root(m) {
            Ok(v) => match navigate(v, segments(self.path)) {
                Some(t) => Ok(t),
                None => Err(BridgeError::NoSuchField),
            },
            Err(e) => Err(e),
        }
    }

    /// The handle to the field `key` of what this handle stands for.
    pub open spec fn child(self, key: Seq<char>) -> Handle {
        Handle { path: self.path + seq!['.'] + key, ..self }
    }

    /// The memory after `new` was written through the handle. A stale handle writes
    /// nothing; nor does a shared one; the value written must have the type of the
    /// value it replaces.
    pub open spec fn store(self, m: Memory, new: Reflection) -> Result<Memory, BridgeError> {
        if !self.live(m) {
            Err(BridgeError::StaleHandle)
        } else if self.data is PtrRef {
            Err(BridgeError::ArityMismatch)
        } else {
            match self.target(m) {
                Err(e) => Err(e),
                Ok(old) => if type_of(old) != type_of(new) {
                    Err(BridgeError::TypeMismatch)
                } else {
                    match self.data {
                        ReflectType::Boxed(cell) => Ok(
                            Memory {
                                cells: m.cells.update(
                                    cell as int,
                                    replace_at(m.cells[cell as int]->0, segments(self.path), new),
                                ),
                                ..m
                            },
                        ),
                        ReflectType::PtrMut(slot) | ReflectType::PtrRef(slot) => Ok(
                            Memory {
                                slots: m.slots.update(
                                    slot as int,
                                    replace_at(m.slots[slot as int], segments(self.path), new)->0,
                                ),
                                ..m
                            },
                        ),
                    }
                },
            }
        }
    }

    /// The value taken through the handle, and the memory after it. Only a live owning
    /// handle takes, and only once: the path plays no part, the cell is emptied whole.
    pub open spec fn take(self, m: Memory) -> Result<(Reflection, Memory), BridgeError> {
        if !self.live(m) {
            Err(BridgeError::StaleHandle)
        } else {
            match self.data {
                ReflectType::Boxed(cell) => if cell < m.cells.len() {
                    match m.cells[cell as int] {
                        Some(v) => Ok((v, Memory { cells: m.cells.update(cell as int, None), ..m })),
                        None => Err(BridgeError::AlreadyTaken),
                    }
                } else {
                    Err(BridgeError::StaleHandle)
                },
                _ => Err(BridgeError::ArityMismatch),
            }
        }
    }

    /// What indexing the handle with `key` gives: the function registered under that
    /// name for the type of the target, or else the handle to the field of that name.
    pub open spec fn index(
        self,
        m: Memory,
        registry: Map<u64, Map<Seq<char>, Signature>>,
        key: Seq<char>,
    ) -> Result<Option<Signature>, BridgeError> {
        match self.target(m) {
            Err(e) => Err(e),
            Ok(v) => if table_of(registry, type_of(v)).contains_key(key) {
                Ok(Some(table_of(registry, type_of(v))[key]))
            } else {
                Ok(None)
            },
        }
    }
}

/// The value that the host stores when the script assigns `v` where `old` stands: a
/// number as a float; an integer as it is where a 64-bit integer stands, and narrowed
/// to 32 bits anywhere else; a boolean and a string as they are; a handle as a copy of
/// what it stands for. Nothing else can be assigned.
pub open spec fn assignable(v: ScriptValue, m: Memory, old: Result<Reflection, BridgeError>) -> Result<
    Reflection,
    BridgeError,
> {
    match v {
        ScriptValue::Number(bits) => Ok(Reflection::Float(bits)),
        ScriptValue::Integer(i) => if old matches Ok(Reflection::I64(_)) {
            Ok(Reflection::I64(i))
        } else {
            Ok(Reflection::I32(i as i32))
        },
        ScriptValue::Boolean(b) => Ok(Reflection::Bool(b)),
        ScriptValue::String(s) => Ok(Reflection::Str(s@)),
        ScriptValue::UserData(UserData::Reflect(source)) => source@.target(m),
        _ => Err(BridgeError::TypeMismatch),
    }
}

/// The memory after the script assigned `v` to the field `key` of the handle.
pub open spec fn assign(h: Handle, m: Memory, key: Seq<char>, v: ScriptValue) -> Result<
    Memory,
    BridgeError,
> {
    if !h.live(m) {
        Err(BridgeError::StaleHandle)
    } else {
        match assignable(v, m, h.child(key).target(m)) {
            Err(e) => Err(e),
            Ok(new) => h.child(key).store(m, new),
        }
    }
}

/// Whether the script value `r` shows the host value `v` that the handle `h` stands
/// for: a scalar by its value, integers widened to 64 bits, anything else by `h` itself.
pub open spec fn shows(r: ScriptValue, v: Reflection, h: Handle) -> bool {
    match v {
        Reflection::Unit => r is Nil,
        Reflection::Bool(b) => r == ScriptValue::Boolean(b),
        Reflection::I32(i) => r == ScriptValue::Integer(i as i64),
        Reflection::I64(i) => r == ScriptValue::Integer(i),
        Reflection::Float(bits) => r == ScriptValue::Number(bits),
        Reflection::Str(s) => r matches ScriptValue::String(t) && t@ == s,
        Reflection::Struct { .. } | Reflection::Opaque(_) => r matches ScriptValue::UserData(
            UserData::Reflect(p),
        ) && p@ == h,
    }
}

/// What adding a value of the script to a host value comes to.
#[derive(Debug, PartialEq)]
pub enum Sum {
    /// The sum of two integers.
    Integer(i64),
    /// Two floats, by their bit patterns, for the host to add.
    Number { left: u64, right: u64 },
    /// Nothing: the two cannot be added.
    Nil,
}

/// The sum of a host value and a value of the script. A 32-bit integer of the host and
/// an integer of the script are added as the script adds integers: in 64 bits, and the
/// sum wraps around. A float of the host and a number of the script are for the host to
/// add, since the bridge does not compute with floats. Nothing else can be added.
pub open spec fn sum_of(target: Reflection, rhs: ScriptValue) -> Sum {
    match (target, rhs) {
        (Reflection::I32(value), ScriptValue::Integer(integer)) => Sum::Integer(
            (value as i64).wrapping_add(integer),
        ),
        (Reflection::Float(left), ScriptValue::Number(right)) => Sum::Number { left, right },
        _ => Sum::Nil,
    }
}

/// What indexing a handle gives.
#[derive(Debug)]
pub enum Indexed {
    /// The function registered under the key for the type of the target, with the
    /// identity of that type.
    Function(u64, Function),
    /// The handle to the field that the key names.
    Field(ReflectPtr),
}

/// A handle: a reference to a host value, or the owner of one, that the script may hold.
/// It is good for one validity window of one memory, and every access checks that.
#[derive(Debug, PartialEq)]
pub struct ReflectPtr {
    pub data: ReflectType,
    /// The dot-separated path from the value referred to down to the value meant.
    pub path: String,
    /// The flag of the validity window.
    pub ptr_state: usize,
    /// The generation of the memory that the handle was made for.
    pub generation: u64,
}

impl View for ReflectPtr {
    type V = Handle;

    open spec fn view(&self) -> Handle {
        Handle {
            data: self.data,
            path: self.path@,
            ptr_state: self.ptr_state,
            generation: self.generation,
        }
    }
}

impl Clone for ReflectPtr {
    /// A second handle to the same value, with the same window.
    fn clone(&self) -> (r: ReflectPtr)
        ensures
            r@ == self@,
    {
        ReflectPtr {
            data: self.data,
            path: self.path.clone(),
            ptr_state: self.ptr_state,
            generation: self.generation,
        }
    }
}

impl ReflectPtr {
    /// An exclusive handle to the value in `slot` of `memory`.
    pub fn new_mut(memory: &HostMemory, slot: usize, ptr_state: usize) -> (r: ReflectPtr)
        ensures
            r@ == (Handle {
                data: ReflectType::PtrMut(slot),
                path: Seq::empty(),
                ptr_state,
                generation: memory@.generation,
            }),
    {
        ReflectPtr {
            data: ReflectType::PtrMut(slot),
            path: String::new(),
            ptr_state,
            generation: memory.generation(),
        }
    }

    /// A shared handle to the value in `slot` of `memory`.
    pub fn new_ref(memory: &HostMemory, slot: usize, ptr_state: usize) -> (r: ReflectPtr)
        ensures
            r@ == (Handle {
                data: ReflectType::PtrRef(slot),
                path: Seq::empty(),
                ptr_state,
                generation: memory@.generation,
            }),
    {
        ReflectPtr {
            data: ReflectType::PtrRef(slot),
            path: String::new(),
            ptr_state,
            generation: memory.generation(),
        }
    }

    /// An owning handle to `value`, which goes into a cell of its own.
    pub fn new_boxed(memory: &mut HostMemory, value: HostValue, ptr_state: usize) -> (r: ReflectPtr)
        ensures
            r@ == (Handle {
                data: ReflectType::Boxed(old(memory)@.cells.len() as usize),
                path: Seq::empty(),
                ptr_state,
                generation: old(memory)@.generation,
            }),
            final(memory)@ == (Memory {
                cells: old(memory)@.cells.push(Some(value@)),
                ..old(memory)@
            }),
    {
        let cell = memory.add_cell(value);
        ReflectPtr {
            data: ReflectType::Boxed(cell),
            path: String::new(),
            ptr_state,
            generation: memory.generation(),
        }
    }

    /// The handle to the field `key` of what this handle stands for. Nothing is read:
    /// whether there is such a field shows when the handle is used.
    pub fn child(&self, key: &str) -> (r: ReflectPtr)
        ensures
            r@ == self@.child(key@),
    {
        ReflectPtr {
            data: self.data,
            path: join_path(&self.path, key),
            ptr_state: self.ptr_state,
            generation: self.generation,
        }
    }

    /// Whether the handle may be used on `memory`: it was made for this memory, and its
    /// validity window is open.
    pub fn is_live(&self, memory: &HostMemory) -> (r: bool)
        ensures
            r == self@.live(memory@),
    {
        if self.generation != memory.generation() || memory.is_closed() {
            return false;
        }
        match memory.state(self.ptr_state) {
            PtrState::Valid => true,
            PtrState::Invalid => false,
        }
    }

    /// The value that the handle starts from.
    fn root<'a>(&self, memory: &'a HostMemory) -> (r: Result<&'a HostValue, BridgeError>)
        ensures
            match r {
                Ok(v) => self@.root(memory@) == Ok::<Reflection, BridgeError>(v@),
                Err(e) => self@.root(memory@) == Err::<Reflection, BridgeError>(e),
            },
    {
        if !self.is_live(memory) {
            return Err(BridgeError::StaleHandle);
        }
        match self.data {
            ReflectType::PtrMut(slot) | ReflectType::PtrRef(slot) => match memory.slot(slot) {
                Some(v) => Ok(v),
                None => Err(BridgeError::StaleHandle),
            },
            ReflectType::Boxed(cell) => match memory.cell(cell) {
                Some(Some(v)) => Ok(v),
                Some(None) => Err(BridgeError::AlreadyTaken),
                None => Err(BridgeError::StaleHandle),
            },
        }
    }

    /// The host value that the handle stands for.
    pub fn get_field_value_ref<'a>(&self, memory: &'a HostMemory) -> (r: Result<
        &'a HostValue,
        BridgeError,
    >)
        ensures
            match r {
                Ok(v) => self@.target(memory@) == Ok::<Reflection, BridgeError>(v@),
                Err(e) => self@.target(memory@) == Err::<Reflection, BridgeError>(e),
            },
    {
        let root = match self.root(memory) {
            Ok(v) => v,
            Err(e) => {
                return Err(e);
            },
        };
        let path = split_path(self.path.as_str());
        match root.navigate(&path) {
            Some(v) => Ok(v),
            None => Err(BridgeError::NoSuchField),
        }
    }

    /// Writes `value` in place of the host value that the handle stands for. On an error
    /// the memory stays as it was.
    pub fn set_field_value(&self, memory: &mut HostMemory, value: HostValue) -> (r: Result<
        (),
        BridgeError,
    >)
        ensures
            match r {
                Ok(()) => self@.store(old(memory)@, value@) == Ok::<Memory, BridgeError>(
                    final(memory)@,
                ),
                Err(e) => self@.store(old(memory)@, value@) == Err::<Memory, BridgeError>(e)
                    && final(memory)@ == old(memory)@,
            },
    {
        if !self.is_live(memory) {
            return Err(BridgeError::StaleHandle);
        }
        if let ReflectType::PtrRef(_) = self.data {
            return Err(BridgeError::ArityMismatch);
        }
        let fits = match self.get_field_value_ref(memory) {
            Ok(old) => old.type_id() == value.type_id(),
            Err(e) => {
                return Err(e);
            },
        };
        if !fits {
            return Err(BridgeError::TypeMismatch);
        }
        let path = split_path(self.path.as_str());
        proof {
            lemma_replace_reaches(self@.root(memory@)->Ok_0, segments(self@.path), value@);
        }
        match self.data {
            ReflectType::Boxed(cell) => {
                memory.replace_in_cell(cell, &path, value);
            },
            ReflectType::PtrMut(slot) | ReflectType::PtrRef(slot) => {
                memory.replace_in_slot(slot, &path, value);
            },
        }
        Ok(())
    }

    /// Takes the owned value out of its cell. This succeeds once.
    pub fn take(&self, memory: &mut HostMemory) -> (r: Result<HostValue, BridgeError>)
        ensures
            match r {
                Ok(v) => self@.take(old(memory)@) == Ok::<(Reflection, Memory), BridgeError>(
                    (v@, final(memory)@),
                ),
                Err(e) => self@.take(old(memory)@) == Err::<(Reflection, Memory), BridgeError>(e)
                    && final(memory)@ == old(memory)@,
            },
    {
        if !self.is_live(memory) {
            return Err(BridgeError::StaleHandle);
        }
        match self.data {
            ReflectType::Boxed(cell) => {
                if cell >= memory.cell_count() {
                    return Err(BridgeError::StaleHandle);
                }
                match memory.take_cell(cell) {
                    Some(v) => Ok(v),
                    None => Err(BridgeError::AlreadyTaken),
                }
            },
            _ => Err(BridgeError::ArityMismatch),
        }
    }

    /// Reads the field that `field_path` names, from what the handle stands for, as a
    /// value of the script. A scalar comes as its value; a composite value comes as
    /// the handle to it.
    pub fn read(&self, memory: &HostMemory, field_path: &str) -> (r: Result<ScriptValue, BridgeError>)
        ensures
            match r {
                Ok(s) => self@.child(field_path@).target(memory@) is Ok && shows(
                    s,
                    self@.child(field_path@).target(memory@)->Ok_0,
                    self@.child(field_path@),
                ),
                Err(e) => self@.child(field_path@).target(memory@) == Err::<Reflection, BridgeError>(
                    e,
                ),
            },
    {
        let field = self.child(field_path);
        let r = match field.get_field_value_ref(memory) {
            Ok(v) => match v {
                HostValue::Unit => ScriptValue::Nil,
                HostValue::Bool(b) => ScriptValue::Boolean(*b),
                HostValue::I32(i) => ScriptValue::Integer(*i as i64),
                HostValue::I64(i) => ScriptValue::Integer(*i),
                HostValue::Float(bits) => ScriptValue::Number(*bits),
                HostValue::Str(s) => ScriptValue::String(s.clone()),
                HostValue::Struct { .. } | HostValue::Opaque(_) => {
                    return Ok(ScriptValue::UserData(UserData::Reflect(field)));
                },
            },
            Err(e) => {
                return Err(e);
            },
        };
        Ok(r)
    }

    /// Indexes the handle with `key`, as the script does with `handle.key`. Where a
    /// function is registered under that name for the type of what the handle stands
    /// for, the result is that function; otherwise it is the handle to the field `key`.
    pub fn lua_index(&self, memory: &HostMemory, registry: &ObjectFunctionRegistry, key: &str) -> (r:
        Result<Indexed, BridgeError>)
        ensures
            match r {
                Ok(Indexed::Function(type_id, f)) => self@.index(memory@, registry@, key@) == Ok::<
                    Option<Signature>,
                    BridgeError,
                >(Some(f.signature())) && f.name@ == key@ && type_id == type_of(
                    self@.target(memory@)->Ok_0,
                ),
                Ok(Indexed::Field(p)) => self@.index(memory@, registry@, key@) == Ok::<
                    Option<Signature>,
                    BridgeError,
                >(None) && p@ == self@.child(key@),
                Err(e) => self@.index(memory@, registry@, key@) == Err::<
                    Option<Signature>,
                    BridgeError,
                >(e),
            },
    {
        let type_id = match self.get_field_value_ref(memory) {
            Ok(v) => v.type_id(),
            Err(e) => {
                return Err(e);
            },
        };
        match registry.get(type_id, key) {
            Some(f) => Ok(Indexed::Function(type_id, f.clone())),
            None => Ok(Indexed::Field(self.child(key))),
        }
    }

    /// Adds `rhs` to what the handle stands for, as the script does with `handle + rhs`.
    pub fn lua_add(&self, memory: &HostMemory, rhs: &ScriptValue) -> (r: Result<Sum, BridgeError>)
        ensures
            match self@.target(memory@) {
                Ok(v) => r == Ok::<Sum, BridgeError>(sum_of(v, *rhs)),
                Err(e) => r == Err::<Sum, BridgeError>(e),
            },
    {
        let target = match self.get_field_value_ref(memory) {
            Ok(v) => v,
            Err(e) => {
                return Err(e);
            },
        };
        match (target, rhs) {
            (HostValue::I32(value), ScriptValue::Integer(integer)) => Ok(
                Sum::Integer((*value as i64).wrapping_add(*integer)),
            ),
            (HostValue::Float(left), ScriptValue::Number(right)) => Ok(
                Sum::Number { left: *left, right: *right },
            ),
            _ => Ok(Sum::Nil),
        }
    }

    /// Assigns `new_value` to the field `key` of what the handle stands for, as the
    /// script does with `handle.key = value`. On an error the memory stays as it was.
    pub fn lua_new_index(&self, memory: &mut HostMemory, key: &str, new_value: &ScriptValue) -> (r:
        Result<(), BridgeError>)
        ensures
            match r {
                Ok(()) => assign(self@, old(memory)@, key@, *new_value) == Ok::<Memory, BridgeError>(
                    final(memory)@,
                ),
                Err(e) => assign(self@, old(memory)@, key@, *new_value) == Err::<Memory, BridgeError>(
                    e,
                ) && final(memory)@ == old(memory)@,
            },
    {
        if !self.is_live(memory) {
            return Err(BridgeError::StaleHandle);
        }
        let field = self.child(key);
        let value = match new_value {
            ScriptValue::Number(bits) => HostValue::Float(*bits),
            ScriptValue::Integer(i) => match field.get_field_value_ref(memory) {
                Ok(HostValue::I64(_)) => HostValue::I64(*i),
                _ => HostValue::I32(#[verifier::truncate] (*i as i32)),
            },
            ScriptValue::Boolean(b) => HostValue::Bool(*b),
            ScriptValue::String(s) => HostValue::Str(s.clone()),
            ScriptValue::UserData(UserData::Reflect(source)) => match source.get_field_value_ref(
                memory,
            ) {
                Ok(v) => v.clone(),
                Err(e) => {
                    return Err(e);
                },
            },
            _ => {
                return Err(BridgeError::TypeMismatch);
            },
        };
        field.set_field_value(memory, value)
    }
}

/// While the flag of a handle is invalid, every access through the handle is refused as
/// stale: reading, writing, indexing, calling a method and taking. The functions that
/// make these accesses leave the memory as it is when they refuse. In a memory of
/// another generation the handle is stale whatever the flags are: see
/// `lemma_handle_of_another_memory_is_stale`.
pub proof fn lemma_invalidated_handle_is_stale(
    h: Handle,
    m: Memory,
    registry: Map<u64, Map<Seq<char>, Signature>>,
    key: Seq<char>,
    v: ScriptValue,
    new: Reflection,
)
    ensures
        ({
            let closed = m.invalidate(h.ptr_state);
            &&& !h.live(closed)
            &&& h.target(closed) == Err::<Reflection, BridgeError>(BridgeError::StaleHandle)
            &&& h.child(key).target(closed) == Err::<Reflection, BridgeError>(
                BridgeError::StaleHandle,
            )
            &&& h.store(closed, new) == Err::<Memory, BridgeError>(BridgeError::StaleHandle)
            &&& assign(h, closed, key, v) == Err::<Memory, BridgeError>(BridgeError::StaleHandle)
            &&& h.index(closed, registry, key) == Err::<Option<Signature>, BridgeError>(
                BridgeError::StaleHandle,
            )
            &&& h.take(closed) == Err::<(Reflection, Memory), BridgeError>(BridgeError::StaleHandle)
        }),
{
}

/// A handle that was made for one memory is live in no memory of another generation,
/// whatever that memory holds and whatever is done to it: every access through the
/// handle is refused as stale there. Each invocation has a memory of a generation of
/// its own, so what a script keeps from one invocation is stale in every other.
pub proof fn lemma_handle_of_another_memory_is_stale(
    h: Handle,
    m: Memory,
    registry: Map<u64, Map<Seq<char>, Signature>>,
    key: Seq<char>,
    v: ScriptValue,
    new: Reflection,
)
    requires
        h.generation != m.generation,
    ensures
        !h.live(m),
        h.target(m) == Err::<Reflection, BridgeError>(BridgeError::StaleHandle),
        h.child(key).target(m) == Err::<Reflection, BridgeError>(BridgeError::StaleHandle),
        h.store(m, new) == Err::<Memory, BridgeError>(BridgeError::StaleHandle),
        assign(h, m, key, v) == Err::<Memory, BridgeError>(BridgeError::StaleHandle),
        h.index(m, registry, key) == Err::<Option<Signature>, BridgeError>(
            BridgeError::StaleHandle,
        ),
        h.take(m) == Err::<(Reflection, Memory), BridgeError>(BridgeError::StaleHandle),
{
}

/// An owned value can be taken once: the first taking gives the value that the handle
/// was made for, the second is refused because the value is gone.
pub proof fn lemma_owned_value_is_taken_once(m: Memory, v: Reflection, ptr_state: usize)
    requires
        m.fits(),
        !m.closed,
        m.state(ptr_state) == PtrState::Valid,
    ensures
        ({
            let h = Handle {
                data: ReflectType::Boxed(m.cells.len() as usize),
                path: Seq::empty(),
                ptr_state,
                generation: m.generation,
            };
            let boxed = Memory { cells: m.cells.push(Some(v)), ..m };
            &&& h.take(boxed) is Ok
            &&& h.take(boxed)->Ok_0.0 == v
            &&& h.take(h.take(boxed)->Ok_0.1) == Err::<(Reflection, Memory), BridgeError>(
                BridgeError::AlreadyTaken,
            )
        }),
{
}

/// What was written through a handle is what the handle stands for afterwards.
pub proof fn lemma_stored_value_is_read(h: Handle, m: Memory, new: Reflection)
    requires
        h.store(m, new) is Ok,
    ensures
        h.target(h.store(m, new)->Ok_0) == Ok::<Reflection, BridgeError>(new),
{
    let path = segments(h.path);
    match h.data {
        ReflectType::Boxed(cell) => {
            lemma_replace_reaches(m.cells[cell as int]->0, path, new);
            lemma_navigate_replaced(m.cells[cell as int]->0, path, new);
        },
        ReflectType::PtrMut(slot) | ReflectType::PtrRef(slot) => {
            lemma_replace_reaches(m.slots[slot as int], path, new);
            lemma_navigate_replaced(m.slots[slot as int], path, new);
        },
    }
}

/// The handle to a field stands for what the field's name leads to from what the handle
/// itself stands for.
pub proof fn lemma_child_target(h: Handle, m: Memory, key: Seq<char>)
    ensures
        h.child(key).target(m) == match h.target(m) {
            Ok(v) => match navigate(v, segments(key)) {
                Some(t) => Ok::<Reflection, BridgeError>(t),
                None => Err::<Reflection, BridgeError>(BridgeError::NoSuchField),
            },
            Err(e) => Err::<Reflection, BridgeError>(e),
        },
{
    lemma_segments_join(h.path, key);
    match h.root(m) {
        Ok(v) => {
            lemma_navigate_concat(v, segments(h.path), segments(key));
        },
        Err(_) => {},
    }
}

} // verus!
