use crate::error::BridgeError;
use crate::namespace::{bindings, Binding, Token, TokenView};
use crate::util::reversed;
use crate::path::names;
use vstd::prelude::*;

verus! {

/// The mathematical content of what stands under a name: a table of further names, or
/// a token.
pub ghost enum Node {
    Table(Seq<(Seq<char>, Node)>),
    Token(TokenView),
}

/// What stands under a name among the globals of the script.
#[derive(Debug, PartialEq)]
pub enum Global {
    /// A table: the names in it, in the order in which they were first bound.
    Table(Vec<(String, Global)>),
    /// A token that the bridge has given out.
    Token(Token),
}

/// The content of a table.
pub open spec fn entries_of(entries: Seq<(String, Global)>) -> Seq<(Seq<char>, Node)>
    decreases entries,
{
    Seq::new(
        entries.len(),
        |i: int|
            if 0 <= i < entries.len() {
                (entries[i].0@, node_of(entries[i].1))
            } else {
                (Seq::empty(), Node::Table(Seq::empty()))
            },
    )
}

/// The content of what stands under a name.
pub open spec fn node_of(global: Global) -> Node
    decreases global,
{
    match global {
        Global::Table(entries) => Node::Table(entries_of(entries@)),
        Global::Token(token) => Node::Token(token@),
    }
}

impl View for Global {
    type V = Node;

    open spec fn view(&self) -> Node {
        node_of(*self)
    }
}

/// The index of the first entry at or after `from` that is called `name`.
pub open spec fn find_entry(entries: Seq<(Seq<char>, Node)>, name: Seq<char>, from: int) -> Option<int>
    decreases entries.len() - from,
{
    if from < 0 || from >= entries.len() {
        None
    } else if entries[from].0 == name {
        Some(from)
    } else {
        find_entry(entries, name, from + 1)
    }
}

/// The table after `token` was bound under the last name of `path`, in the table that
/// the names before it lead to. A table that is missing on the way is made; a name
/// that is bound already is bound anew. `None` where the path is empty, or where one
/// of the names on the way stands for a token: a token has no names in it.
pub open spec fn bind_at(entries: Seq<(Seq<char>, Node)>, path: Seq<Seq<char>>, token: TokenView) -> Option<
    Seq<(Seq<char>, Node)>,
>
    decreases path.len(),
{
    if path.len() == 0 {
        None
    } else if path.len() == 1 {
        match find_entry(entries, path[0], 0) {
            Some(i) => Some(entries.update(i, (entries[i].0, Node::Token(token)))),
            None => Some(entries.push((path[0], Node::Token(token)))),
        }
    } else {
        match find_entry(entries, path[0], 0) {
            Some(i) => match entries[i].1 {
                Node::Table(inner) => match bind_at(inner, path.drop_first(), token) {
                    Some(bound) => Some(entries.update(i, (entries[i].0, Node::Table(bound)))),
                    None => None,
                },
                Node::Token(_) => None,
            },
            None => match bind_at(Seq::empty(), path.drop_first(), token) {
                Some(bound) => Some(entries.push((path[0], Node::Table(bound)))),
                None => None,
            },
        }
    }
}

/// Whether the bindings from the `k`-th on can be made, one after the other, and the
/// table after them. The first that cannot be made ends it; those before it stay.
pub open spec fn bind_all(
    entries: Seq<(Seq<char>, Node)>,
    bindings: Seq<(Seq<Seq<char>>, TokenView)>,
    k: int,
) -> (bool, Seq<(Seq<char>, Node)>)
    decreases bindings.len() - k,
{
    if k < 0 || k >= bindings.len() {
        (true, entries)
    } else {
        match bind_at(entries, bindings[k].0, bindings[k].1) {
            Some(bound) => bind_all(bound, bindings, k + 1),
            None => (false, entries),
        }
    }
}

/// What stands under `path`, reading from a table.
pub open spec fn lookup_at(entries: Seq<(Seq<char>, Node)>, path: Seq<Seq<char>>) -> Option<Node>
    decreases path.len(),
{
    if path.len() == 0 {
        Some(Node::Table(entries))
    } else {
        match find_entry(entries, path[0], 0) {
            Some(i) => match entries[i].1 {
                Node::Table(inner) => lookup_at(inner, path.drop_first()),
                Node::Token(token) => if path.len() == 1 {
                    Some(Node::Token(token))
                } else {
                    None
                },
            },
            None => None,
        }
    }
}

/// An entry that is found lies in the table and has the name looked for.
proof fn lemma_find_entry_bounds(entries: Seq<(Seq<char>, Node)>, name: Seq<char>, from: int)
    ensures
        find_entry(entries, name, from) matches Some(i) ==> from <= i < entries.len() && entries[i].0
            == name,
    decreases entries.len() - from,
{
    if 0 <= from < entries.len() && entries[from].0 != name {
        lemma_find_entry_bounds(entries, name, from + 1);
    }
}

/// Putting something else under a name does not change where names are found.
proof fn lemma_find_entry_update(
    entries: Seq<(Seq<char>, Node)>,
    name: Seq<char>,
    from: int,
    i: int,
    node: Node,
)
    requires
        0 <= i < entries.len(),
    ensures
        find_entry(entries.update(i, (entries[i].0, node)), name, from) == find_entry(
            entries,
            name,
            from,
        ),
    decreases entries.len() - from,
{
    let updated = entries.update(i, (entries[i].0, node));
    if 0 <= from < entries.len() {
        assert(updated[from].0 == entries[from].0);
        if entries[from].0 != name {
            lemma_find_entry_update(entries, name, from + 1, i, node);
        }
    }
}

/// A name that is new to a table is found at the end after it was added.
proof fn lemma_find_entry_push(entries: Seq<(Seq<char>, Node)>, name: Seq<char>, from: int, node: Node)
    requires
        0 <= from <= entries.len(),
        find_entry(entries, name, from) is None,
    ensures
        find_entry(entries.push((name, node)), name, from) == Some(entries.len() as int),
    decreases entries.len() - from,
{
    let longer = entries.push((name, node));
    if from < entries.len() {
        assert(longer[from] == entries[from]);
        lemma_find_entry_push(entries, name, from + 1, node);
    } else {
        assert(longer[from].0 == name);
    }
}

/// A token is found under the path at which it was bound.
pub proof fn lemma_bound_token_is_found(
    entries: Seq<(Seq<char>, Node)>,
    path: Seq<Seq<char>>,
    token: TokenView,
)
    requires
        bind_at(entries, path, token) is Some,
    ensures
        lookup_at(bind_at(entries, path, token)->0, path) == Some(Node::Token(token)),
    decreases path.len(),
{
    let bound = bind_at(entries, path, token)->0;
    lemma_find_entry_bounds(entries, path[0], 0);
    match find_entry(entries, path[0], 0) {
        Some(i) => {
            if path.len() == 1 {
                lemma_find_entry_update(entries, path[0], 0, i, Node::Token(token));
            } else {
                let inner = entries[i].1->Table_0;
                lemma_bound_token_is_found(inner, path.drop_first(), token);
                let below = bind_at(inner, path.drop_first(), token)->0;
                lemma_find_entry_update(entries, path[0], 0, i, Node::Table(below));
            }
        },
        None => {
            if path.len() == 1 {
                lemma_find_entry_push(entries, path[0], 0, Node::Token(token));
            } else {
                lemma_bound_token_is_found(Seq::empty(), path.drop_first(), token);
                let below = bind_at(Seq::empty(), path.drop_first(), token)->0;
                lemma_find_entry_push(entries, path[0], 0, Node::Table(below));
            }
        },
    }
}

/// The index of the first entry called `name`.
fn position(entries: &Vec<(String, Global)>, name: &String) -> (r: Option<usize>)
    ensures
        match r {
            Some(i) => i < entries.len() && find_entry(entries_of(entries@), name@, 0) == Some(
                i as int,
            ) && entries[i as int].0@ == name@,
            None => find_entry(entries_of(entries@), name@, 0) is None,
        },
{
    let mut i: usize = 0;
    while i < entries.len()
        invariant
            i <= entries.len(),
            find_entry(entries_of(entries@), name@, 0) == find_entry(
                entries_of(entries@),
                name@,
                i as int,
            ),
        decreases entries.len() - i,
    {
        if entries[i].0 == *name {
            return Some(i);
        }
        i += 1;
    }
    None
}

/// Binds `token` at what is left of `path` from `depth` on.
fn bind_from(entries: &mut Vec<(String, Global)>, path: &Vec<String>, depth: usize, token: Token) -> (done:
    bool)
    requires
        depth <= path.len(),
    ensures
        match bind_at(entries_of(old(entries)@), names(path@).skip(depth as int), token@) {
            Some(bound) => done && entries_of(final(entries)@) == bound,
            None => !done && entries_of(final(entries)@) == entries_of(old(entries)@),
        },
    decreases path.len() - depth,
{
    if depth >= path.len() {
        return false;
    }
    let ghost rest = names(path@).skip(depth as int);
    let ghost before = entries_of(entries@);
    assert(rest[0] == path[depth as int]@);
    assert(rest.drop_first() =~= names(path@).skip(depth + 1));
    let found = position(entries, &path[depth]);
    if depth + 1 == path.len() {
        match found {
            Some(i) => {
                let name = path[depth].clone();
                entries[i] = (name, Global::Token(token));
                assert(entries_of(entries@) =~= before.update(
                    i as int,
                    (before[i as int].0, Node::Token(token@)),
                ));
            },
            None => {
                entries.push((path[depth].clone(), Global::Token(token)));
                assert(entries_of(entries@) =~= before.push((rest[0], Node::Token(token@))));
            },
        }
        true
    } else {
        match found {
            Some(i) => {
                let done = match &mut entries[i].1 {
                    Global::Table(inner) => bind_from(inner, path, depth + 1, token),
                    Global::Token(_) => false,
                };
                proof {
                    if done {
                        assert(entries_of(entries@) =~= before.update(
                            i as int,
                            (before[i as int].0, entries[i as int].1@),
                        ));
                    } else {
                        assert(entries_of(entries@) =~= before);
                    }
                }
                done
            },
            None => {
                let mut inner: Vec<(String, Global)> = Vec::new();
                assert(entries_of(inner@) =~= Seq::<(Seq<char>, Node)>::empty());
                let done = bind_from(&mut inner, path, depth + 1, token);
                if done {
                    let ghost bound = entries_of(inner@);
                    entries.push((path[depth].clone(), Global::Table(inner)));
                    assert(entries_of(entries@) =~= before.push((rest[0], Node::Table(bound))));
                }
                done
            },
        }
    }
}

/// The globals that the bridge gives to scripts: nested tables of names, with tokens
/// under the innermost names.
#[derive(Debug, PartialEq)]
pub struct Globals {
    entries: Vec<(String, Global)>,
}

impl View for Globals {
    type V = Seq<(Seq<char>, Node)>;

    closed spec fn view(&self) -> Seq<(Seq<char>, Node)> {
        entries_of(self.entries@)
    }
}

impl Globals {
    /// No names.
    pub fn new() -> (g: Globals)
        ensures
            g@ == Seq::<(Seq<char>, Node)>::empty(),
    {
        let g = Globals { entries: Vec::new() };
        assert(g@ =~= Seq::<(Seq<char>, Node)>::empty());
        g
    }

    /// Binds the token of `binding` under its path, making the tables on the way that
    /// are missing. Where a token stands on the way, or the path is empty, nothing is
    /// bound and the globals stay as they were.
    pub fn bind(&mut self, binding: Binding) -> (r: Result<(), BridgeError>)
        ensures
            match bind_at(old(self)@, binding@.0, binding@.1) {
                Some(bound) => r is Ok && final(self)@ == bound,
                None => r == Err::<(), BridgeError>(BridgeError::TypeMismatch) && final(self)@
                    == old(self)@,
            },
    {
        assert(names(binding.path@).skip(0) =~= names(binding.path@));
        if bind_from(&mut self.entries, &binding.path, 0, binding.token) {
            Ok(())
        } else {
            Err(BridgeError::TypeMismatch)
        }
    }

    /// Makes the bindings of `list`, one after the other. Where one of them cannot be
    /// made, those before it stay and those after it are not tried.
    pub fn bind_each(&mut self, list: Vec<Binding>) -> (r: Result<(), BridgeError>)
        ensures
            (r is Ok, final(self)@) == bind_all(old(self)@, bindings(list@), 0),
            r is Err ==> r == Err::<(), BridgeError>(BridgeError::TypeMismatch),
    {
        let ghost all = bindings(list@);
        let n = list.len();
        let mut stack = reversed(list);
        let mut k: usize = 0;
        while k < n
            invariant
                k <= n,
                n == list@.len(),
                all == bindings(list@),
                stack@.len() == n - k,
                forall|i: int| 0 <= i < stack@.len() ==> stack@[i] == list@[n - 1 - i],
                bind_all(old(self)@, all, 0) == bind_all(self@, all, k as int),
            decreases n - k,
        {
            let binding = stack.pop().unwrap();
            assert(all[k as int] == binding@);
            match self.bind(binding) {
                Ok(()) => {},
                Err(e) => {
                    return Err(e);
                },
            }
            k += 1;
        }
        Ok(())
    }

    /// What stands under `path`: a token, or a table of further names.
    pub fn lookup(&self, path: &Vec<String>) -> (r: Option<&Global>)
        ensures
            match r {
                Some(found) => path@.len() > 0 && lookup_at(self@, names(path@)) == Some(found@),
                None => path@.len() == 0 || lookup_at(self@, names(path@)) is None,
            },
    {
        if path.len() == 0 {
            return None;
        }
        let mut entries = &self.entries;
        let mut depth: usize = 0;
        assert(names(path@).skip(0) =~= names(path@));
        loop
            invariant
                depth < path.len(),
                lookup_at(self@, names(path@)) == lookup_at(
                    entries_of(entries@),
                    names(path@).skip(depth as int),
                ),
            decreases path.len() - depth,
        {
            let ghost rest = names(path@).skip(depth as int);
            assert(rest[0] == path[depth as int]@);
            assert(rest.drop_first() =~= names(path@).skip(depth + 1));
            let found = match position(entries, &path[depth]) {
                Some(i) => &entries[i].1,
                None => {
                    return None;
                },
            };
            if depth + 1 == path.len() {
                proof {
                    assert(rest.len() == 1);
                    match found {
                        Global::Table(inner) => {
                            assert(rest.drop_first().len() == 0);
                            assert(lookup_at(entries_of(inner@), rest.drop_first()) == Some(
                                Node::Table(entries_of(inner@)),
                            ));
                        },
                        Global::Token(_) => {},
                    }
                }
                return Some(found);
            }
            match found {
                Global::Table(inner) => {
                    entries = inner;
                },
                Global::Token(_) => {
                    return None;
                },
            }
            depth += 1;
        }
    }

    /// The names at the top, with what stands under them.
    pub fn entries(&self) -> (entries: &Vec<(String, Global)>)
        ensures
            entries_of(entries@) == self@,
    {
        &self.entries
    }
}

} // verus!
