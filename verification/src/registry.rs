use std::collections::HashMap;
use vstd::prelude::*;

verus! {

broadcast use vstd::std_specs::hash::group_hash_axioms;

/// How a function of the host takes one of its arguments.
#[derive(Clone, Copy, Debug, PartialEq, Eq, Structural)]
pub enum ParamKind {
    /// No value.
    Nil,
    Bool,
    Int,
    Float,
    String,
    /// A table of the script, handed over whole.
    Table,
    /// A shared reference to a host value.
    Ref,
    /// An exclusive reference to a host value.
    Mut,
    /// A host value that the callee consumes.
    Owned,
}

/// How a function of the host hands back its result.
#[derive(Clone, Copy, Debug, PartialEq, Eq, Structural)]
pub enum ReturnKind {
    Owned,
    Ref,
    Mut,
}

/// The mathematical content of a function's declaration.
pub ghost struct Signature {
    pub params: Seq<ParamKind>,
    pub returns: ReturnKind,
}

/// The declaration of a function that the host offers to scripts: what the bridge reads
/// of it. The function itself is kept beside it, in bevy's registry, and found again by
/// type and name.
#[derive(Debug, PartialEq)]
pub struct Function {
    pub name: String,
    pub params: Vec<ParamKind>,
    pub returns: ReturnKind,
}

impl Function {
    pub open spec fn signature(&self) -> Signature {
        Signature { params: self.params@, returns: self.returns }
    }

}

impl Clone for Function {
    /// A copy of the declaration.
    fn clone(&self) -> (r: Function)
        ensures
            r.name@ == self.name@,
            r.signature() == self.signature(),
    {
        let mut params: Vec<ParamKind> = Vec::new();
        let mut i: usize = 0;
        while i < self.params.len()
            invariant
                i <= self.params.len(),
                params@ == self.params@.take(i as int),
            decreases self.params.len() - i,
        {
            params.push(self.params[i]);
            assert(self.params@.take(i + 1) =~= self.params@.take(i as int).push(self.params[i as int]));
            i += 1;
        }
        assert(self.params@.take(self.params.len() as int) =~= self.params@);
        Function { name: self.name.clone(), params, returns: self.returns }
    }
}

/// The index of the first function at or after `from` that is called `name`.
pub open spec fn find_function(functions: Seq<Function>, name: Seq<char>, from: int) -> Option<int>
    decreases functions.len() - from,
{
    if from < 0 || from >= functions.len() {
        None
    } else if functions[from].name@ == name {
        Some(from)
    } else {
        find_function(functions, name, from + 1)
    }
}

proof fn lemma_find_function_push(functions: Seq<Function>, added: Function, name: Seq<char>, from: int)
    requires
        0 <= from <= functions.len(),
    ensures
        find_function(functions.push(added), name, from) == match find_function(
            functions,
            name,
            from,
        ) {
            Some(i) => Some(i),
            None => if added.name@ == name {
                Some(functions.len() as int)
            } else {
                None
            },
        },
    decreases functions.len() - from,
{
    let longer = functions.push(added);
    if from < functions.len() {
        assert(longer[from] == functions[from]);
        if functions[from].name@ != name {
            lemma_find_function_push(functions, added, name, from + 1);
        }
    } else {
        assert(longer[from] == added);
        assert(find_function(longer, name, from + 1) is None);
    }
}

proof fn lemma_find_function_bounds(functions: Seq<Function>, name: Seq<char>, from: int)
    ensures
        find_function(functions, name, from) matches Some(i) ==> from <= i < functions.len()
            && functions[i].name@ == name,
    decreases functions.len() - from,
{
    if 0 <= from < functions.len() && functions[from].name@ != name {
        lemma_find_function_bounds(functions, name, from + 1);
    }
}

/// `bevy::reflect::func::FunctionRegistry`: bevy's registry of functions, by name.
/// Nothing is claimed of what is inside it but through `callable_names`.
#[verifier::external_type_specification]
#[verifier::external_body]
pub struct ExCallables(bevy::reflect::func::FunctionRegistry);

/// `bevy::reflect::func::DynamicFunction`: a function of the host that bevy can call
/// with reflected arguments. The bridge carries it and never looks into it.
#[verifier::external_type_specification]
#[verifier::external_body]
pub struct ExCallable<'env>(bevy::reflect::func::DynamicFunction<'env>);

/// The names under which a `bevy::reflect::func::FunctionRegistry` holds a function:
/// the keys of the map that it is made of.
pub uninterp spec fn callable_names(callables: bevy::reflect::func::FunctionRegistry) -> Set<
    Seq<char>,
>;

/// `bevy::reflect::func::FunctionRegistry::default`: the registry that it makes holds
/// no function.
#[verifier::external_body]
fn callables_new() -> (callables: bevy::reflect::func::FunctionRegistry)
    ensures
        callable_names(callables) == Set::<Seq<char>>::empty(),
{
    bevy::reflect::func::FunctionRegistry::default()
}

/// `bevy::reflect::func::FunctionRegistry::register_with_name`: it gives the function
/// the name and puts it into the registry, unless a function is there under that name;
/// then it fails and the registry stays as it was. The result says whether the function
/// went in.
#[verifier::external_body]
fn callables_register(
    callables: &mut bevy::reflect::func::FunctionRegistry,
    name: &str,
    function: bevy::reflect::func::DynamicFunction<'static>,
) -> (registered: bool)
    ensures
        registered == !callable_names(*old(callables)).contains(name@),
        registered ==> callable_names(*final(callables)) == callable_names(
            *old(callables),
        ).insert(name@),
        !registered ==> callable_names(*final(callables)) == callable_names(*old(callables)),
{
    callables.register_with_name(name.to_string(), function).is_ok()
}

/// `bevy::reflect::func::FunctionRegistry::get`, with a copy of what it finds: there is
/// a function exactly where the registry holds one under the name.
#[verifier::external_body]
fn callables_get(callables: &bevy::reflect::func::FunctionRegistry, name: &str) -> (function: Option<
    bevy::reflect::func::DynamicFunction<'static>,
>)
    ensures
        function is Some == callable_names(*callables).contains(name@),
{
    callables.get(name).cloned()
}

/// The functions registered for one host type, by name. A name is registered once.
/// The table holds the declaration of each function, which is what the bridge reads,
/// and bevy's registry with the functions themselves, which the host calls. A function
/// that the bridge performs itself has a declaration alone.
#[derive(Debug)]
pub struct FunctionTable {
    functions: Vec<Function>,
    callables: bevy::reflect::func::FunctionRegistry,
}

impl View for FunctionTable {
    type V = Map<Seq<char>, Signature>;

    closed spec fn view(&self) -> Map<Seq<char>, Signature> {
        Map::new(
            |name: Seq<char>| find_function(self.functions@, name, 0) is Some,
            |name: Seq<char>| self.functions@[find_function(self.functions@, name, 0)->0].signature(),
        )
    }
}

impl FunctionTable {
    /// Bevy's registry holds functions under declared names only.
    #[verifier::type_invariant]
    spec fn callables_are_declared(self) -> bool {
        forall|name: Seq<char>| #[trigger]
            callable_names(self.callables).contains(name) ==> find_function(
                self.functions@,
                name,
                0,
            ) is Some
    }

    /// Whether the table holds the function itself under `name`, for the host to call.
    pub closed spec fn has_callable(&self, name: Seq<char>) -> bool {
        callable_names(self.callables).contains(name)
    }

    /// A table without functions.
    pub fn new() -> (r: FunctionTable)
        ensures
            r@ == Map::<Seq<char>, Signature>::empty(),
            forall|name: Seq<char>| !#[trigger] r.has_callable(name),
    {
        let r = FunctionTable { functions: Vec::new(), callables: callables_new() };
        assert(r@ =~= Map::<Seq<char>, Signature>::empty());
        r
    }

    /// Registers `function` under its name, unless a function of that name is there.
    /// `callable` is the function itself, where the host is to call it.
    pub fn register(
        &mut self,
        function: Function,
        callable: Option<bevy::reflect::func::DynamicFunction<'static>>,
    ) -> (registered: bool)
        ensures
            registered == !old(self)@.contains_key(function.name@),
            registered ==> final(self)@ == old(self)@.insert(function.name@, function.signature()),
            registered ==> forall|name: Seq<char>| #[trigger]
                final(self).has_callable(name) == if name == function.name@ {
                    callable is Some
                } else {
                    old(self).has_callable(name)
                },
            !registered ==> final(self)@ == old(self)@,
            !registered ==> forall|name: Seq<char>| #[trigger]
                final(self).has_callable(name) == old(self).has_callable(name),
    {
        if self.position(&function.name).is_some() {
            return false;
        }
        let name = function.name.clone();
        proof {
            use_type_invariant(&*self);
            assert forall|name: Seq<char>|
                find_function(self.functions@.push(function), name, 0) == match find_function(
                    self.functions@,
                    name,
                    0,
                ) {
                    Some(i) => Some(i),
                    None => if function.name@ == name {
                        Some(self.functions@.len() as int)
                    } else {
                        None
                    },
                } by {
                lemma_find_function_push(self.functions@, function, name, 0);
            }
            assert forall|name: Seq<char>|
                find_function(self.functions@, name, 0) is Some implies 0 <= find_function(
                    self.functions@,
                    name,
                    0,
                )->0 < self.functions@.len() by {
                lemma_find_function_bounds(self.functions@, name, 0);
            }
        }
        let mut taken = FunctionTable::new();
        core::mem::swap(self, &mut taken);
        let FunctionTable { functions, callables } = taken;
        let mut functions = functions;
        let mut callables = callables;
        functions.push(function);
        match callable {
            Some(callable) => {
                let went_in = callables_register(&mut callables, name.as_str(), callable);
                assert(went_in);
            },
            None => {},
        }
        *self = FunctionTable { functions, callables };
        assert(self@ =~= old(self)@.insert(function.name@, function.signature()));
        true
    }

    /// The index of the function called `name`.
    fn position(&self, name: &String) -> (r: Option<usize>)
        ensures
            match r {
                Some(i) => i < self.functions.len() && find_function(self.functions@, name@, 0)
                    == Some(i as int) && self.functions[i as int].name@ == name@,
                None => find_function(self.functions@, name@, 0) is None,
            },
    {
        let mut i: usize = 0;
        while i < self.functions.len()
            invariant
                i <= self.functions.len(),
                find_function(self.functions@, name@, 0) == find_function(
                    self.functions@,
                    name@,
                    i as int,
                ),
            decreases self.functions.len() - i,
        {
            if self.functions[i].name == *name {
                return Some(i);
            }
            i += 1;
        }
        None
    }

    /// The function registered under `name`.
    pub fn get(&self, name: &str) -> (r: Option<&Function>)
        ensures
            match r {
                Some(f) => self@.contains_key(name@) && f.name@ == name@ && f.signature()
                    == self@[name@],
                None => !self@.contains_key(name@),
            },
    {
        let key = String::from_str(name);
        match self.position(&key) {
            Some(i) => Some(&self.functions[i]),
            None => None,
        }
    }

    /// Whether a function is registered under `name`.
    pub fn contains(&self, name: &str) -> (r: bool)
        ensures
            r == self@.contains_key(name@),
    {
        self.get(name).is_some()
    }

    /// The function itself that is registered under `name`, for the host to call.
    /// A function that is there to be called is declared.
    pub fn callable(&self, name: &str) -> (r: Option<bevy::reflect::func::DynamicFunction<'static>>)
        ensures
            r is Some == self.has_callable(name@),
            r is Some ==> self@.contains_key(name@),
    {
        proof {
            use_type_invariant(self);
        }
        callables_get(&self.callables, name)
    }
}

/// The functions that the host offers, by the type they belong to and by name.
#[derive(Debug)]
pub struct ObjectFunctionRegistry {
    map: HashMap<u64, FunctionTable>,
}

impl View for ObjectFunctionRegistry {
    type V = Map<u64, Map<Seq<char>, Signature>>;

    closed spec fn view(&self) -> Map<u64, Map<Seq<char>, Signature>> {
        Map::new(|t: u64| self.map@.contains_key(t), |t: u64| self.map@[t]@)
    }
}

impl ObjectFunctionRegistry {
    /// Whether the registry holds the function itself for `type_id` under `name`, for
    /// the host to call.
    pub closed spec fn has_callable(&self, type_id: u64, name: Seq<char>) -> bool {
        self.map@.contains_key(type_id) && self.map@[type_id].has_callable(name)
    }
}

/// The functions registered for `type_id`; none where the type is unknown.
pub open spec fn table_of(registry: Map<u64, Map<Seq<char>, Signature>>, type_id: u64) -> Map<
    Seq<char>,
    Signature,
> {
    if registry.contains_key(type_id) {
        registry[type_id]
    } else {
        Map::empty()
    }
}

impl ObjectFunctionRegistry {
    /// A registry without types.
    pub fn new() -> (r: ObjectFunctionRegistry)
        ensures
            r@ == Map::<u64, Map<Seq<char>, Signature>>::empty(),
            forall|type_id: u64, name: Seq<char>| !#[trigger] r.has_callable(type_id, name),
    {
        let r = ObjectFunctionRegistry { map: HashMap::new() };
        assert(r@ =~= Map::<u64, Map<Seq<char>, Signature>>::empty());
        r
    }

    /// Registers `function` for the host type `type_id`. A type that is new to the
    /// registry gets a table of its own. A name that the type already has is refused,
    /// and the registry stays as it was. `callable` is the function itself, where the
    /// host is to call it; a function that the bridge performs itself has none.
    pub fn register_object_function(
        &mut self,
        type_id: u64,
        function: Function,
        callable: Option<bevy::reflect::func::DynamicFunction<'static>>,
    ) -> (registered: bool)
        ensures
            registered == !table_of(old(self)@, type_id).contains_key(function.name@),
            registered ==> final(self)@ == old(self)@.insert(
                type_id,
                table_of(old(self)@, type_id).insert(function.name@, function.signature()),
            ),
            registered ==> forall|t: u64, name: Seq<char>| #[trigger]
                final(self).has_callable(t, name) == if t == type_id && name == function.name@ {
                    callable is Some
                } else {
                    old(self).has_callable(t, name)
                },
            !registered ==> final(self)@ == old(self)@,
            !registered ==> forall|t: u64, name: Seq<char>| #[trigger]
                final(self).has_callable(t, name) == old(self).has_callable(t, name),
    {
        let mut table = match self.map.remove(&type_id) {
            Some(table) => table,
            None => FunctionTable::new(),
        };
        let ghost before = table@;
        let ghost held = table;
        assert(before == table_of(old(self)@, type_id));
        assert(forall|name: Seq<char>| #[trigger]
            held.has_callable(name) == old(self).has_callable(type_id, name));
        let registered = table.register(function, callable);
        self.map.insert(type_id, table);
        proof {
            if registered {
                assert(self@ =~= old(self)@.insert(
                    type_id,
                    before.insert(function.name@, function.signature()),
                ));
            } else {
                assert(old(self)@.contains_key(type_id));
                assert(self@ =~= old(self)@);
            }
        }
        registered
    }

    /// The function itself that is registered for `type_id` under `name`, for the host
    /// to call.
    pub fn callable(&self, type_id: u64, name: &str) -> (r: Option<
        bevy::reflect::func::DynamicFunction<'static>,
    >)
        ensures
            r is Some == self.has_callable(type_id, name@),
            r is Some ==> table_of(self@, type_id).contains_key(name@),
    {
        match self.map.get(&type_id) {
            Some(table) => table.callable(name),
            None => None,
        }
    }

    /// The function registered for `type_id` under `name`.
    pub fn get(&self, type_id: u64, name: &str) -> (r: Option<&Function>)
        ensures
            match r {
                Some(f) => table_of(self@, type_id).contains_key(name@) && f.name@ == name@
                    && f.signature() == table_of(self@, type_id)[name@],
                None => !table_of(self@, type_id).contains_key(name@),
            },
    {
        match self.map.get(&type_id) {
            Some(table) => table.get(name),
            None => None,
        }
    }
}

} // verus!
