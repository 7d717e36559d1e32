use crate::reflect::{CommandQueueMarker, ComponentType, ReflectPtr};
use vstd::prelude::*;

verus! {

/// The key of a table entry.
#[derive(Debug, PartialEq)]
pub enum TableKey {
    /// A position in the array part of a table.
    Index(i64),
    /// A name.
    Name(String),
}

/// One entry of a table of the script.
#[derive(Debug, PartialEq)]
pub struct TableEntry {
    pub key: TableKey,
    pub value: ScriptValue,
}

/// A host object that the script holds by reference.
#[derive(Debug, PartialEq)]
pub enum UserData {
    /// A handle to a host value.
    Reflect(ReflectPtr),
    /// The token by which a system asks for the command queue.
    Commands(CommandQueueMarker),
    /// A token by which a system asks for access to a component or a resource.
    Component(ComponentType),
    /// Any other object; the bridge cannot use it.
    Other,
}

/// A value of the script runtime, as far as the bridge looks into it.
///
/// A number is carried as the bit pattern of its double-precision value. A function is
/// the reference under which the runtime keeps it. A table is its entries in the order
/// in which the runtime walks them.
#[derive(Debug, PartialEq)]
pub enum ScriptValue {
    Nil,
    Boolean(bool),
    Integer(i64),
    Number(u64),
    String(String),
    Table(Vec<TableEntry>),
    Function(u64),
    Thread,
    UserData(UserData),
}

/// Why a value of the script is not the host object asked for.
#[derive(Clone, Copy, Debug, PartialEq, Eq, Structural)]
pub enum TypeError {
    /// The value is a host object, but of another kind.
    OtherUserData,
    /// The value is no host object at all.
    OtherLuaValue,
}

impl ScriptValue {
    /// The host object that the value holds.
    pub fn as_static_user_data(&self) -> (r: Result<&UserData, TypeError>)
        ensures
            match *self {
                ScriptValue::UserData(UserData::Other) => r == Err::<&UserData, TypeError>(
                    TypeError::OtherUserData,
                ),
                ScriptValue::UserData(data) => r == Ok::<&UserData, TypeError>(&data),
                _ => r == Err::<&UserData, TypeError>(TypeError::OtherLuaValue),
            },
    {
        match self {
            ScriptValue::UserData(UserData::Other) => Err(TypeError::OtherUserData),
            ScriptValue::UserData(data) => Ok(data),
            _ => Err(TypeError::OtherLuaValue),
        }
    }

    /// The handle that the value holds.
    pub fn as_reflect_ptr(&self) -> (r: Result<&ReflectPtr, TypeError>)
        ensures
            match *self {
                ScriptValue::UserData(UserData::Reflect(h)) => r == Ok::<&ReflectPtr, TypeError>(&h),
                ScriptValue::UserData(_) => r == Err::<&ReflectPtr, TypeError>(
                    TypeError::OtherUserData,
                ),
                _ => r == Err::<&ReflectPtr, TypeError>(TypeError::OtherLuaValue),
            },
    {
        match self {
            ScriptValue::UserData(UserData::Reflect(h)) => Ok(h),
            ScriptValue::UserData(_) => Err(TypeError::OtherUserData),
            _ => Err(TypeError::OtherLuaValue),
        }
    }

    /// The access token that the value holds.
    pub fn as_component_type(&self) -> (r: Result<ComponentType, TypeError>)
        ensures
            match *self {
                ScriptValue::UserData(UserData::Component(access)) => r == Ok::<
                    ComponentType,
                    TypeError,
                >(access),
                ScriptValue::UserData(_) => r == Err::<ComponentType, TypeError>(
                    TypeError::OtherUserData,
                ),
                _ => r == Err::<ComponentType, TypeError>(TypeError::OtherLuaValue),
            },
    {
        match self {
            ScriptValue::UserData(UserData::Component(access)) => Ok(*access),
            ScriptValue::UserData(_) => Err(TypeError::OtherUserData),
            _ => Err(TypeError::OtherLuaValue),
        }
    }
}

} // verus!
