use crate::error::BridgeError;
use crate::globals::{bind_all, bind_at, Globals};
use crate::path::names;
use crate::reflect::{CommandQueueMarker, ComponentType};
use crate::registry::{table_of, Function, ObjectFunctionRegistry};
use vstd::prelude::*;

verus! {

/// The pieces of `s[start..]` between double colons, when the piece under way begins at
/// `start` and the characters before `i` have been read. Pieces may be empty; there is
/// always at least one.
pub open spec fn type_path_from(s: Seq<char>, start: int, i: int) -> Seq<Seq<char>>
    decreases s.len() - i,
{
    if i < 0 || start < 0 || start > i {
        Seq::empty()
    } else if i >= s.len() {
        seq![s.subrange(start, s.len() as int)]
    } else if i + 1 < s.len() && s[i] == ':' && s[i + 1] == ':' {
        seq![s.subrange(start, i)] + type_path_from(s, i + 2, i + 2)
    } else {
        type_path_from(s, start, i + 1)
    }
}

/// The modules and the name that the fully qualified name of a type is made of.
pub open spec fn type_path_segments(s: Seq<char>) -> Seq<Seq<char>> {
    type_path_from(s, 0, 0)
}

/// Splits the fully qualified name of a type at its double colons.
pub fn split_type_path(type_path: &str) -> (r: Vec<String>)
    ensures
        names(r@) == type_path_segments(type_path@),
{
    let n = type_path.unicode_len();
    let mut out: Vec<String> = Vec::new();
    let mut start: usize = 0;
    let mut i: usize = 0;
    assert(names(out@) =~= Seq::<Seq<char>>::empty());
    while i < n
        invariant
            n == type_path@.len(),
            start <= i <= n,
            type_path_segments(type_path@) == names(out@) + type_path_from(
                type_path@,
                start as int,
                i as int,
            ),
        decreases n - i,
    {
        let cut = i + 1 < n && type_path.get_char(i) == ':' && type_path.get_char(i + 1) == ':';
        if cut {
            let piece = String::from_str(type_path.substring_char(start, i));
            let ghost before = names(out@);
            let ghost head = type_path@.subrange(start as int, i as int);
            out.push(piece);
            assert(names(out@) =~= before + seq![head]);
            assert(before + (seq![head] + type_path_from(type_path@, i + 2, i + 2)) =~= (before
                + seq![head]) + type_path_from(type_path@, i + 2, i + 2));
            start = i + 2;
            i += 2;
        } else {
            i += 1;
        }
    }
    let piece = String::from_str(type_path.substring_char(start, n));
    let ghost before = names(out@);
    out.push(piece);
    assert(names(out@) =~= before + seq![type_path@.subrange(start as int, n as int)]);
    out
}

/// A component or a resource that the host has registered.
#[derive(Debug, PartialEq)]
pub struct ComponentInfo {
    pub component_id: usize,
    pub type_id: u64,
    /// The fully qualified name of the type.
    pub type_path: String,
}

/// What the script finds under a name that the bridge has given out.
#[derive(Debug, PartialEq)]
pub enum Token {
    /// The marker by which a system asks for the command queue.
    Commands(CommandQueueMarker),
    /// A request for access to a component or a resource.
    Component(ComponentType),
    /// A function of the host, by the type that it belongs to and its name.
    Function(u64, String),
}

/// The mathematical content of a token.
pub ghost enum TokenView {
    Commands,
    Ref(usize, u64),
    Mut(usize, u64),
    Function(u64, Seq<char>),
}

impl View for Token {
    type V = TokenView;

    open spec fn view(&self) -> TokenView {
        match self {
            Token::Commands(_) => TokenView::Commands,
            Token::Component(ComponentType::Ref(ids)) => TokenView::Ref(ids.0, ids.1),
            Token::Component(ComponentType::Mut(ids)) => TokenView::Mut(ids.0, ids.1),
            Token::Function(type_id, name) => TokenView::Function(*type_id, name@),
        }
    }
}

/// A name among the globals of the script, and what stands under it. The path leads
/// from the globals through nested tables to the name.
#[derive(Debug, PartialEq)]
pub struct Binding {
    pub path: Vec<String>,
    pub token: Token,
}

impl View for Binding {
    type V = (Seq<Seq<char>>, TokenView);

    open spec fn view(&self) -> (Seq<Seq<char>>, TokenView) {
        (names(self.path@), self.token@)
    }
}

/// The views of a list of bindings.
pub open spec fn bindings(list: Seq<Binding>) -> Seq<(Seq<Seq<char>>, TokenView)> {
    list.map_values(|b: Binding| b@)
}

/// The two names under which a component is asked for: `ref` and `mut` under the path
/// of its type.
pub open spec fn access_bindings(info: ComponentInfo) -> Seq<(Seq<Seq<char>>, TokenView)> {
    seq![
        (
            type_path_segments(info.type_path@).push("ref"@),
            TokenView::Ref(info.component_id, info.type_id),
        ),
        (
            type_path_segments(info.type_path@).push("mut"@),
            TokenView::Mut(info.component_id, info.type_id),
        ),
    ]
}

/// The names for the components from the `k`-th on, in their order.
pub open spec fn all_access_bindings(list: Seq<ComponentInfo>, k: int) -> Seq<
    (Seq<Seq<char>>, TokenView),
>
    decreases list.len() - k,
{
    if k < 0 || k >= list.len() {
        Seq::empty()
    } else {
        access_bindings(list[k]) + all_access_bindings(list, k + 1)
    }
}

/// The path of a type with one more name at its end.
fn path_with(type_path: &str, last: &str) -> (r: Vec<String>)
    ensures
        names(r@) == type_path_segments(type_path@).push(last@),
{
    let mut path = split_type_path(type_path);
    let ghost before = names(path@);
    path.push(String::from_str(last));
    assert(names(path@) =~= before.push(last@));
    path
}

/// Appends the names under which the components of `list` are asked for.
fn push_access_bindings(out: &mut Vec<Binding>, list: &Vec<ComponentInfo>)
    ensures
        bindings(final(out)@) == bindings(old(out)@) + all_access_bindings(list@, 0),
{
    let mut k: usize = 0;
    assert(bindings(out@) + all_access_bindings(list@, 0) =~= bindings(old(out)@)
        + all_access_bindings(list@, 0));
    while k < list.len()
        invariant
            k <= list.len(),
            bindings(out@) + all_access_bindings(list@, k as int) == bindings(old(out)@)
                + all_access_bindings(list@, 0),
        decreases list.len() - k,
    {
        let info = &list[k];
        let ids = (info.component_id, info.type_id);
        let ghost before = bindings(out@);
        out.push(
            Binding {
                path: path_with(info.type_path.as_str(), "ref"),
                token: Token::Component(ComponentType::Ref(ids)),
            },
        );
        out.push(
            Binding {
                path: path_with(info.type_path.as_str(), "mut"),
                token: Token::Component(ComponentType::Mut(ids)),
            },
        );
        proof {
            assert(bindings(out@) =~= before + access_bindings(list@[k as int]));
            assert((before + access_bindings(list@[k as int])) + all_access_bindings(list@, k + 1)
                =~= before + (access_bindings(list@[k as int]) + all_access_bindings(
                list@,
                k + 1,
            )));
        }
        k += 1;
    }
    assert(bindings(out@) + Seq::<(Seq<Seq<char>>, TokenView)>::empty() =~= bindings(out@));
}

/// The names that the bridge gives out to scripts at startup: `Commands` for the marker
/// of the command queue; then, for every component and after them for every resource
/// that the host has registered, `ref` and `mut` under the path of its type.
pub open spec fn startup_bindings(components: Seq<ComponentInfo>, resources: Seq<ComponentInfo>) -> Seq<
    (Seq<Seq<char>>, TokenView),
> {
    seq![(seq!["Commands"@], TokenView::Commands)] + all_access_bindings(components, 0)
        + all_access_bindings(resources, 0)
}

/// Gives out the names that scripts start from: see `startup_bindings`. They are bound
/// among `globals` in their order. A name that cannot be bound, because a token stands
/// where one of its tables belongs, ends it.
pub fn register_components_and_markers(
    globals: &mut Globals,
    components: &Vec<ComponentInfo>,
    resources: &Vec<ComponentInfo>,
) -> (r: Result<(), BridgeError>)
    ensures
        (r is Ok, final(globals)@) == bind_all(
            old(globals)@,
            startup_bindings(components@, resources@),
            0,
        ),
        r is Err ==> r == Err::<(), BridgeError>(BridgeError::TypeMismatch),
{
    globals.bind_each(component_bindings(components, resources))
}

/// The list of the names that scripts start from.
pub fn component_bindings(components: &Vec<ComponentInfo>, resources: &Vec<ComponentInfo>) -> (r:
    Vec<Binding>)
    ensures
        bindings(r@) == startup_bindings(components@, resources@),
{
    let mut out: Vec<Binding> = Vec::new();
    let mut path: Vec<String> = Vec::new();
    path.push(String::from_str("Commands"));
    assert(names(path@) =~= seq!["Commands"@]);
    out.push(Binding { path, token: Token::Commands(CommandQueueMarker) });
    assert(bindings(out@) =~= seq![(seq!["Commands"@], TokenView::Commands)]);
    push_access_bindings(&mut out, components);
    push_access_bindings(&mut out, resources);
    out
}

impl ObjectFunctionRegistry {
    /// Registers `function` for the host type `type_id`, and gives it a name among the
    /// globals of the script: its own, under the path of the type. A function whose name
    /// the type already has is not registered again; `Ok(false)` says so. Where the name
    /// cannot be bound, the function is not registered either. Unless the result is
    /// `Ok(true)`, the registry and the globals stay as they were. `callable` is the
    /// function itself, where the host is to call it.
    pub fn register_non_self_object_function(
        &mut self,
        globals: &mut Globals,
        type_id: u64,
        type_path: &str,
        function: Function,
        callable: Option<bevy::reflect::func::DynamicFunction<'static>>,
    ) -> (r: Result<bool, BridgeError>)
        ensures
            forall|t: u64, name: Seq<char>| #[trigger]
                final(self).has_callable(t, name) == if r == Ok::<bool, BridgeError>(true) && t
                    == type_id && name == function.name@ {
                    callable is Some
                } else {
                    old(self).has_callable(t, name)
                },
            ({
                let path = type_path_segments(type_path@).push(function.name@);
                let token = TokenView::Function(type_id, function.name@);
                if table_of(old(self)@, type_id).contains_key(function.name@) {
                    &&& r == Ok::<bool, BridgeError>(false)
                    &&& final(self)@ == old(self)@
                    &&& final(globals)@ == old(globals)@
                } else {
                    match bind_at(old(globals)@, path, token) {
                        Some(bound) => {
                            &&& r == Ok::<bool, BridgeError>(true)
                            &&& final(globals)@ == bound
                            &&& final(self)@ == old(self)@.insert(
                                type_id,
                                table_of(old(self)@, type_id).insert(
                                    function.name@,
                                    function.signature(),
                                ),
                            )
                        },
                        None => {
                            &&& r == Err::<bool, BridgeError>(BridgeError::TypeMismatch)
                            &&& final(self)@ == old(self)@
                            &&& final(globals)@ == old(globals)@
                        },
                    }
                }
            }),
    {
        if self.get(type_id, function.name.as_str()).is_some() {
            return Ok(false);
        }
        let name = function.name.clone();
        let path = path_with(type_path, name.as_str());
        match globals.bind(Binding { path, token: Token::Function(type_id, name) }) {
            Ok(()) => {},
            Err(e) => {
                return Err(e);
            },
        }
        self.register_object_function(type_id, function, callable);
        Ok(true)
    }
}

} // verus!
