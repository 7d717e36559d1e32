use crate::error::BridgeError;
use crate::reflect::ComponentType;
use crate::script::{ScriptValue, TableEntry, UserData};
use vstd::prelude::*;

verus! {

/// The mathematical content of a parameter description.
pub ghost enum Parameter {
    Query(Seq<ComponentType>),
    CommandQueue,
    Resource(ComponentType),
}

/// One thing that a system asks of the host each time it runs.
#[derive(Debug, PartialEq)]
pub enum SystemParameter {
    /// The entities that have all of these components, one row of handles for each.
    Query(Vec<ComponentType>),
    /// The queue that takes the system's deferred changes.
    CommandQueue,
    /// One resource.
    Resource(ComponentType),
}

impl View for SystemParameter {
    type V = Parameter;

    open spec fn view(&self) -> Parameter {
        match self {
            SystemParameter::Query(accesses) => Parameter::Query(accesses@),
            SystemParameter::CommandQueue => Parameter::CommandQueue,
            SystemParameter::Resource(access) => Parameter::Resource(*access),
        }
    }
}

/// The mathematical content of a registered system.
pub ghost struct System {
    pub lua_func: u64,
    pub system_parameters: Seq<Parameter>,
}

/// A system that a script registered: the function to call, by the reference under
/// which the runtime keeps it, and what to call it with, in the order of its arguments.
#[derive(Debug, PartialEq)]
pub struct LuaSystem {
    pub lua_func: u64,
    pub system_parameters: Vec<SystemParameter>,
}

impl View for LuaSystem {
    type V = System;

    open spec fn view(&self) -> System {
        System {
            lua_func: self.lua_func,
            system_parameters: self.system_parameters@.map_values(|p: SystemParameter| p@),
        }
    }
}

/// The views of a list of systems.
pub open spec fn systems(list: Seq<LuaSystem>) -> Seq<System> {
    list.map_values(|s: LuaSystem| s@)
}

/// Whether the host has registered the component that `access` names, under that type.
pub open spec fn known(components: Seq<(usize, u64)>, access: ComponentType) -> bool {
    exists|i: int|
        0 <= i < components.len() && #[trigger] components[i] == (
            access.component_id(),
            access.type_id(),
        )
}

/// Whether the host has registered a component of the type `type_id`.
pub open spec fn is_component_type(components: Seq<(usize, u64)>, type_id: u64) -> bool {
    exists|i: int| 0 <= i < components.len() && (#[trigger] components[i]).1 == type_id
}

/// Whether two accesses cannot be granted together: they name one component, and one
/// of them is exclusive.
pub open spec fn conflicting(a: ComponentType, b: ComponentType) -> bool {
    a.component_id() == b.component_id() && (a.is_mut() || b.is_mut())
}

/// Whether the host can run a query for `accesses`: it knows every component, and no
/// component is asked for exclusively together with another access to it.
pub open spec fn query_allowed(components: Seq<(usize, u64)>, accesses: Seq<ComponentType>) -> bool {
    &&& forall|i: int| 0 <= i < accesses.len() ==> known(components, #[trigger] accesses[i])
    &&& forall|i: int, j: int|
        0 <= i < j < accesses.len() ==> !conflicting(#[trigger] accesses[i], #[trigger] accesses[j])
}

/// Whether the entry holds an access token.
pub open spec fn is_access(entry: TableEntry) -> bool {
    entry.value matches ScriptValue::UserData(UserData::Component(_))
}

/// The access token that the entry holds.
pub open spec fn access_of(entry: TableEntry) -> ComponentType {
    entry.value->UserData_0->Component_0
}

/// The accesses that a table of access tokens asks for, in the table's order.
pub open spec fn accesses_of(entries: Seq<TableEntry>) -> Option<Seq<ComponentType>> {
    if forall|i: int| 0 <= i < entries.len() ==> is_access(#[trigger] entries[i]) {
        Some(Seq::new(entries.len(), |i: int| access_of(entries[i])))
    } else {
        None
    }
}

/// What one entry of a parameter table asks for: the marker of the command queue asks
/// for the queue, an access token for a resource, a table of access tokens for a query
/// that the host can run. Nothing else is a parameter.
pub open spec fn parameter_of(components: Seq<(usize, u64)>, value: ScriptValue) -> Option<
    Parameter,
> {
    match value {
        ScriptValue::UserData(UserData::Commands(_)) => Some(Parameter::CommandQueue),
        ScriptValue::UserData(UserData::Component(access)) => Some(Parameter::Resource(access)),
        ScriptValue::Table(entries) => match accesses_of(entries@) {
            Some(accesses) => if query_allowed(components, accesses) {
                Some(Parameter::Query(accesses))
            } else {
                None
            },
            None => None,
        },
        _ => None,
    }
}

/// The parameters that a parameter table describes, in the table's order.
pub open spec fn parameters_of(components: Seq<(usize, u64)>, entries: Seq<TableEntry>) -> Option<
    Seq<Parameter>,
> {
    if forall|i: int|
        0 <= i < entries.len() ==> parameter_of(components, (#[trigger] entries[i]).value) is Some {
        Some(Seq::new(entries.len(), |i: int| parameter_of(components, entries[i].value)->0))
    } else {
        None
    }
}

/// The system that a registration describes: a function, and a table of parameters.
pub open spec fn system_of(components: Seq<(usize, u64)>, system: ScriptValue, params: ScriptValue) -> Option<
    System,
> {
    match (system, params) {
        (ScriptValue::Function(f), ScriptValue::Table(entries)) => match parameters_of(
            components,
            entries@,
        ) {
            Some(parameters) => Some(System { lua_func: f, system_parameters: parameters }),
            None => None,
        },
        _ => None,
    }
}

/// What the script finds under a name of the world object.
#[derive(Clone, Copy, Debug, PartialEq, Eq, Structural)]
pub enum WorldMember {
    /// The function that hands a query description back as it is.
    Query,
    /// The function that registers a system.
    RegisterSystem,
    /// Nothing.
    Nil,
}

/// The host's world as a script sees it while it registers its systems: the components
/// that the host has registered, each with the identity of its type.
#[derive(Debug)]
pub struct WorldMut {
    components: Vec<(usize, u64)>,
}

impl View for WorldMut {
    type V = Seq<(usize, u64)>;

    closed spec fn view(&self) -> Seq<(usize, u64)> {
        self.components@
    }
}

impl WorldMut {
    /// The world of a host that has registered `components`.
    pub fn new(components: Vec<(usize, u64)>) -> (w: WorldMut)
        ensures
            w@ == components@,
    {
        WorldMut { components }
    }

    /// Whether the host has registered a component of the type `type_id`.
    pub fn has_component_type(&self, type_id: u64) -> (r: bool)
        ensures
            r == is_component_type(self@, type_id),
    {
        let mut i: usize = 0;
        while i < self.components.len()
            invariant
                i <= self.components.len(),
                forall|j: int| 0 <= j < i ==> (#[trigger] self.components[j]).1 != type_id,
            decreases self.components.len() - i,
        {
            if self.components[i].1 == type_id {
                return true;
            }
            i += 1;
        }
        false
    }

    /// The member of the world object called `key`.
    pub fn lua_index(key: &str) -> (m: WorldMember)
        ensures
            m == if key@ == "query"@ {
                WorldMember::Query
            } else if key@ == "register_system"@ {
                WorldMember::RegisterSystem
            } else {
                WorldMember::Nil
            },
    {
        let key = String::from_str(key);
        if key == String::from_str("query") {
            WorldMember::Query
        } else if key == String::from_str("register_system") {
            WorldMember::RegisterSystem
        } else {
            WorldMember::Nil
        }
    }

    /// The name under which the script prints the world object.
    pub fn lua_to_string() -> (s: String)
        ensures
            s@ == "app"@,
    {
        String::from_str("app")
    }

    /// Hands a query description back as it is.
    pub fn query(args: ScriptValue) -> (r: ScriptValue)
        ensures
            r == args,
    {
        args
    }

    /// Whether the host has registered the component that `access` names.
    fn knows(&self, access: ComponentType) -> (r: bool)
        ensures
            r == known(self@, access),
    {
        let mut i: usize = 0;
        while i < self.components.len()
            invariant
                i <= self.components.len(),
                forall|j: int|
                    0 <= j < i ==> #[trigger] self.components[j] != (
                        access.component_id(),
                        access.type_id(),
                    ),
            decreases self.components.len() - i,
        {
            if self.components[i].0 == access.component_id() && self.components[i].1
                == access.type_id() {
                return true;
            }
            i += 1;
        }
        false
    }

    /// The query that a table of access tokens describes.
    #[verifier::loop_isolation(false)]
    fn query_parameter(&self, entries: &Vec<TableEntry>) -> (r: Option<Vec<ComponentType>>)
        ensures
            match r {
                Some(accesses) => accesses_of(entries@) == Some(accesses@) && query_allowed(
                    self@,
                    accesses@,
                ),
                None => accesses_of(entries@) matches Some(accesses) ==> !query_allowed(
                    self@,
                    accesses,
                ),
            },
    {
        let mut accesses: Vec<ComponentType> = Vec::new();
        let mut i: usize = 0;
        while i < entries.len()
            invariant
                i <= entries.len(),
                accesses@.len() == i,
                forall|j: int| 0 <= j < i ==> is_access(#[trigger] entries[j]),
                forall|j: int| 0 <= j < i ==> #[trigger] accesses[j] == access_of(entries[j]),
                forall|j: int| 0 <= j < i ==> known(self@, #[trigger] accesses[j]),
                forall|j: int, k: int|
                    0 <= j < k < i ==> !conflicting(#[trigger] accesses[j], #[trigger] accesses[k]),
            decreases entries.len() - i,
        {
            let access = match &entries[i].value {
                ScriptValue::UserData(UserData::Component(access)) => *access,
                _ => {
                    return None;
                },
            };
            if !self.knows(access) {
                proof {
                    if accesses_of(entries@) is Some {
                        let all = accesses_of(entries@)->0;
                        assert(all[i as int] == access);
                    }
                }
                return None;
            }
            let mut j: usize = 0;
            while j < i
                invariant
                    j <= i,
                    i < entries.len(),
                    accesses@.len() == i,
                    forall|k: int| 0 <= k < j ==> !conflicting(#[trigger] accesses[k], access),
                decreases i - j,
            {
                let earlier = accesses[j];
                if earlier.component_id() == access.component_id() && (earlier.is_mut()
                    || access.is_mut()) {
                    proof {
                        if accesses_of(entries@) is Some {
                            let all = accesses_of(entries@)->0;
                            assert(all[i as int] == access);
                            assert(all[j as int] == accesses[j as int]);
                        }
                    }
                    return None;
                }
                j += 1;
            }
            accesses.push(access);
            i += 1;
        }
        assert(accesses@ =~= accesses_of(entries@)->0);
        Some(accesses)
    }

    /// What one entry of a parameter table asks for.
    fn parameter(&self, value: &ScriptValue) -> (r: Option<SystemParameter>)
        ensures
            match r {
                Some(p) => parameter_of(self@, *value) == Some(p@),
                None => parameter_of(self@, *value) is None,
            },
    {
        match value {
            ScriptValue::UserData(UserData::Commands(_)) => Some(SystemParameter::CommandQueue),
            ScriptValue::UserData(UserData::Component(access)) => Some(
                SystemParameter::Resource(*access),
            ),
            ScriptValue::Table(entries) => match self.query_parameter(entries) {
                Some(accesses) => Some(SystemParameter::Query(accesses)),
                None => None,
            },
            _ => None,
        }
    }

    /// Registers the function `system` as a system that takes what the table
    /// `system_params` describes, entry by entry. A registration that is not of that
    /// form, or that asks for a query that the host cannot run, is refused as a whole:
    /// the list of systems stays as it was.
    #[verifier::loop_isolation(false)]
    pub fn register_system(
        &self,
        systems_vec: &mut Vec<LuaSystem>,
        system: &ScriptValue,
        system_params: &ScriptValue,
    ) -> (r: Result<(), BridgeError>)
        ensures
            match system_of(self@, *system, *system_params) {
                Some(registered) => r is Ok && systems(final(systems_vec)@) == systems(
                    old(systems_vec)@,
                ).push(registered),
                None => r == Err::<(), BridgeError>(BridgeError::BadSpec) && *final(systems_vec)
                    == *old(systems_vec),
            },
    {
        let lua_func = match system {
            ScriptValue::Function(f) => *f,
            _ => {
                return Err(BridgeError::BadSpec);
            },
        };
        let entries = match system_params {
            ScriptValue::Table(entries) => entries,
            _ => {
                return Err(BridgeError::BadSpec);
            },
        };
        let mut system_parameters: Vec<SystemParameter> = Vec::new();
        let mut i: usize = 0;
        while i < entries.len()
            invariant
                i <= entries.len(),
                system_parameters@.len() == i,
                forall|j: int|
                    0 <= j < i ==> parameter_of(self@, (#[trigger] entries[j]).value) == Some(
                        system_parameters[j]@,
                    ),
            decreases entries.len() - i,
        {
            match self.parameter(&entries[i].value) {
                Some(p) => {
                    system_parameters.push(p);
                },
                None => {
                    assert(parameter_of(self@, entries[i as int].value) is None);
                    return Err(BridgeError::BadSpec);
                },
            }
            i += 1;
        }
        let registered = LuaSystem { lua_func, system_parameters };
        proof {
            assert(registered@.system_parameters =~= parameters_of(self@, entries@)->0);
            assert(systems(systems_vec@.push(registered)) =~= systems(systems_vec@).push(registered@));
        }
        systems_vec.push(registered);
        Ok(())
    }
}

} // verus!
