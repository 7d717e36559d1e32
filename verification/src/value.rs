use crate::path::names;
use vstd::prelude::*;

verus! {

/// Identity of the host's unit type.
pub const TYPE_UNIT: u64 = 0;

/// Identity of the host's boolean type.
pub const TYPE_BOOL: u64 = 1;

/// Identity of the host's 32-bit integer type.
pub const TYPE_I32: u64 = 2;

/// Identity of the host's 64-bit integer type.
pub const TYPE_I64: u64 = 3;

/// Identity of the host's floating-point type.
pub const TYPE_FLOAT: u64 = 4;

/// Identity of the host's string type.
pub const TYPE_STRING: u64 = 5;

/// The mathematical content of a host value: what reflection shows of it.
pub ghost enum Reflection {
    Unit,
    Bool(bool),
    I32(i32),
    I64(i64),
    Float(u64),
    Str(Seq<char>),
    Struct { type_id: u64, fields: Seq<(Seq<char>, Reflection)> },
    Opaque(u64),
}

/// A host value as reflection exposes it to the bridge.
///
/// A float is carried as the bit pattern of its double-precision value: the bridge
/// moves floats but never computes with them.
#[derive(Debug, PartialEq)]
pub enum HostValue {
    Unit,
    Bool(bool),
    I32(i32),
    I64(i64),
    Float(u64),
    Str(String),
    /// A struct-like value: its type identity and its named fields in declaration order.
    Struct { type_id: u64, fields: Vec<(String, HostValue)> },
    /// A value that reflection cannot open; only its type identity is known.
    Opaque(u64),
}

/// What reflection shows of a list of named fields.
pub open spec fn fields_of(fields: Seq<(String, HostValue)>) -> Seq<(Seq<char>, Reflection)>
    decreases fields,
{
    Seq::new(
        fields.len(),
        |i: int|
            if 0 <= i < fields.len() {
                (fields[i].0@, reflection(fields[i].1))
            } else {
                (Seq::empty(), Reflection::Unit)
            },
    )
}

/// What reflection shows of a host value.
pub open spec fn reflection(v: HostValue) -> Reflection
    decreases v,
{
    match v {
        HostValue::Unit => Reflection::Unit,
        HostValue::Bool(b) => Reflection::Bool(b),
        HostValue::I32(i) => Reflection::I32(i),
        HostValue::I64(i) => Reflection::I64(i),
        HostValue::Float(f) => Reflection::Float(f),
        HostValue::Str(s) => Reflection::Str(s@),
        HostValue::Struct { type_id, fields } => Reflection::Struct {
            type_id,
            fields: fields_of(fields@),
        },
        HostValue::Opaque(t) => Reflection::Opaque(t),
    }
}

impl View for HostValue {
    type V = Reflection;

    open spec fn view(&self) -> Reflection {
        reflection(*self)
    }
}

/// The type identity under which functions are registered for a value.
pub open spec fn type_of(v: Reflection) -> u64 {
    match v {
        Reflection::Unit => TYPE_UNIT,
        Reflection::Bool(_) => TYPE_BOOL,
        Reflection::I32(_) => TYPE_I32,
        Reflection::I64(_) => TYPE_I64,
        Reflection::Float(_) => TYPE_FLOAT,
        Reflection::Str(_) => TYPE_STRING,
        Reflection::Struct { type_id, .. } => type_id,
        Reflection::Opaque(t) => t,
    }
}

/// The index of the first field at or after `from` that is called `name`.
pub open spec fn find_field(fields: Seq<(Seq<char>, Reflection)>, name: Seq<char>, from: int) -> Option<int>
    decreases fields.len() - from,
{
    if from < 0 || from >= fields.len() {
        None
    } else if fields[from].0 == name {
        Some(from)
    } else {
        find_field(fields, name, from + 1)
    }
}

/// The field `name` of a struct-like value; nothing else has fields.
pub open spec fn child(v: Reflection, name: Seq<char>) -> Option<Reflection> {
    match v {
        Reflection::Struct { fields, .. } => match find_field(fields, name, 0) {
            Some(i) => Some(fields[i].1),
            None => None,
        },
        _ => None,
    }
}

/// The value reached from `v` by taking the fields of `path` one after the other.
pub open spec fn navigate(v: Reflection, path: Seq<Seq<char>>) -> Option<Reflection>
    decreases path.len(),
{
    if path.len() == 0 {
        Some(v)
    } else {
        match child(v, path[0]) {
            Some(c) => navigate(c, path.drop_first()),
            None => None,
        }
    }
}

/// `v` with the value at `path` replaced by `new`; `None` where `path` leads nowhere.
pub open spec fn replace_at(v: Reflection, path: Seq<Seq<char>>, new: Reflection) -> Option<Reflection>
    decreases path.len(),
{
    if path.len() == 0 {
        Some(new)
    } else {
        match v {
            Reflection::Struct { type_id, fields } => match find_field(fields, path[0], 0) {
                Some(i) => match replace_at(fields[i].1, path.drop_first(), new) {
                    Some(c) => Some(
                        Reflection::Struct { type_id, fields: fields.update(i, (fields[i].0, c)) },
                    ),
                    None => None,
                },
                None => None,
            },
            _ => None,
        }
    }
}

/// A path that leads somewhere can be written to.
pub proof fn lemma_replace_reaches(v: Reflection, path: Seq<Seq<char>>, new: Reflection)
    ensures
        replace_at(v, path, new) is Some <==> navigate(v, path) is Some,
    decreases path.len(),
{
    if path.len() > 0 {
        match v {
            Reflection::Struct { type_id, fields } => match find_field(fields, path[0], 0) {
                Some(i) => {
                    lemma_replace_reaches(fields[i].1, path.drop_first(), new);
                },
                None => {},
            },
            _ => {},
        }
    }
}

/// What was written at a path is what is read there afterwards.
pub proof fn lemma_navigate_replaced(v: Reflection, path: Seq<Seq<char>>, new: Reflection)
    requires
        replace_at(v, path, new) is Some,
    ensures
        navigate(replace_at(v, path, new)->0, path) == Some(new),
    decreases path.len(),
{
    if path.len() > 0 {
        match v {
            Reflection::Struct { type_id, fields } => {
                let i = find_field(fields, path[0], 0)->0;
                lemma_find_field_bounds(fields, path[0], 0);
                lemma_navigate_replaced(fields[i].1, path.drop_first(), new);
                let c = replace_at(fields[i].1, path.drop_first(), new)->0;
                lemma_find_field_update(fields, path[0], 0, i, c);
            },
            _ => {},
        }
    }
}

/// A field that is found lies in the list and has the name looked for.
proof fn lemma_find_field_bounds(fields: Seq<(Seq<char>, Reflection)>, name: Seq<char>, from: int)
    ensures
        find_field(fields, name, from) matches Some(i) ==> from <= i < fields.len() && fields[i].0
            == name,
    decreases fields.len() - from,
{
    if 0 <= from < fields.len() && fields[from].0 != name {
        lemma_find_field_bounds(fields, name, from + 1);
    }
}

/// Giving a field another value does not change where names are found.
proof fn lemma_find_field_update(
    fields: Seq<(Seq<char>, Reflection)>,
    name: Seq<char>,
    from: int,
    i: int,
    c: Reflection,
)
    requires
        0 <= i < fields.len(),
    ensures
        find_field(fields.update(i, (fields[i].0, c)), name, from) == find_field(fields, name, from),
    decreases fields.len() - from,
{
    let updated = fields.update(i, (fields[i].0, c));
    if 0 <= from < fields.len() {
        assert(updated[from].0 == fields[from].0);
        if fields[from].0 != name {
            lemma_find_field_update(fields, name, from + 1, i, c);
        }
    }
}

/// Following one path and then another is following the two joined.
pub proof fn lemma_navigate_concat(v: Reflection, a: Seq<Seq<char>>, b: Seq<Seq<char>>)
    ensures
        navigate(v, a + b) == match navigate(v, a) {
            Some(mid) => navigate(mid, b),
            None => None,
        },
    decreases a.len(),
{
    if a.len() == 0 {
        assert(a + b =~= b);
    } else {
        assert((a + b)[0] == a[0]);
        assert((a + b).drop_first() =~= a.drop_first() + b);
        match child(v, a[0]) {
            Some(c) => {
                lemma_navigate_concat(c, a.drop_first(), b);
            },
            None => {},
        }
    }
}

impl Clone for HostValue {
    /// A copy of the value, field by field.
    fn clone(&self) -> (r: HostValue)
        ensures
            r@ == self@,
    {
        self.deep_clone()
    }
}

impl HostValue {
    /// The type identity of the value.
    pub fn type_id(&self) -> (id: u64)
        ensures
            id == type_of(self@),
    {
        match self {
            HostValue::Unit => TYPE_UNIT,
            HostValue::Bool(_) => TYPE_BOOL,
            HostValue::I32(_) => TYPE_I32,
            HostValue::I64(_) => TYPE_I64,
            HostValue::Float(_) => TYPE_FLOAT,
            HostValue::Str(_) => TYPE_STRING,
            HostValue::Struct { type_id, .. } => *type_id,
            HostValue::Opaque(t) => *t,
        }
    }

    /// A copy of the value, field by field.
    #[verifier::loop_isolation(false)]
    fn deep_clone(&self) -> (r: HostValue)
        ensures
            r@ == self@,
        decreases self,
    {
        match self {
            HostValue::Unit => HostValue::Unit,
            HostValue::Bool(b) => HostValue::Bool(*b),
            HostValue::I32(i) => HostValue::I32(*i),
            HostValue::I64(i) => HostValue::I64(*i),
            HostValue::Float(f) => HostValue::Float(*f),
            HostValue::Str(s) => HostValue::Str(s.clone()),
            HostValue::Struct { type_id, fields } => {
                let mut out: Vec<(String, HostValue)> = Vec::new();
                let mut i: usize = 0;
                while i < fields.len()
                    invariant
                        i <= fields.len(),
                        out.len() == i,
                        forall|j: int|
                            0 <= j < i ==> out[j].0@ == fields[j].0@ && out[j].1@ == fields[j].1@,
                    decreases fields.len() - i,
                {
                    let name = fields[i].0.clone();
                    let value = fields[i].1.deep_clone();
                    out.push((name, value));
                    i += 1;
                }
                let r = HostValue::Struct { type_id: *type_id, fields: out };
                assert(r@->fields =~= self@->fields);
                r
            },
            HostValue::Opaque(t) => HostValue::Opaque(*t),
        }
    }

    /// The field called `name`, if the value is struct-like and has one.
    pub fn field(&self, name: &String) -> (r: Option<&HostValue>)
        ensures
            match r {
                Some(c) => child(self@, name@) == Some(c@),
                None => child(self@, name@) is None,
            },
    {
        match self {
            HostValue::Struct { type_id, fields } => {
                let mut i: usize = 0;
                while i < fields.len()
                    invariant
                        i <= fields.len(),
                        self@ matches Reflection::Struct { fields: fs, .. } && fs.len() == fields.len()
                            && find_field(fs, name@, 0) == find_field(fs, name@, i as int)
                            && forall|j: int| 0 <= j < fs.len() ==> fs[j] == (fields[j].0@, fields[j].1@),
                    decreases fields.len() - i,
                {
                    if fields[i].0 == *name {
                        return Some(&fields[i].1);
                    }
                    i += 1;
                }
                None
            },
            _ => None,
        }
    }

    /// The value reached by following `path` from this one.
    pub fn navigate(&self, path: &Vec<String>) -> (r: Option<&HostValue>)
        ensures
            match r {
                Some(v) => navigate(self@, names(path@)) == Some(v@),
                None => navigate(self@, names(path@)) is None,
            },
    {
        let mut cur: &HostValue = self;
        let mut i: usize = 0;
        assert(names(path@).skip(0) =~= names(path@));
        while i < path.len()
            invariant
                i <= path.len(),
                navigate(self@, names(path@)) == navigate(cur@, names(path@).skip(i as int)),
            decreases path.len() - i,
        {
            let ghost rest = names(path@).skip(i as int);
            assert(rest[0] == path[i as int]@);
            assert(rest.drop_first() =~= names(path@).skip(i + 1));
            match cur.field(&path[i]) {
                Some(c) => {
                    cur = c;
                },
                None => {
                    return None;
                },
            }
            i += 1;
        }
        Some(cur)
    }

    /// The index of the first field called `name`.
    fn position(fields: &Vec<(String, HostValue)>, name: &String) -> (r: Option<usize>)
        ensures
            match r {
                Some(i) => i < fields.len() && find_field(fields_of(fields@), name@, 0) == Some(i as int),
                None => find_field(fields_of(fields@), name@, 0) is None,
            },
    {
        let mut i: usize = 0;
        while i < fields.len()
            invariant
                i <= fields.len(),
                find_field(fields_of(fields@), name@, 0) == find_field(fields_of(fields@), name@, i as int),
            decreases fields.len() - i,
        {
            if fields[i].0 == *name {
                return Some(i);
            }
            i += 1;
        }
        None
    }

    /// Puts `new` in place of the value that `path` leads to from depth `depth` on.
    fn replace_from(&mut self, path: &Vec<String>, depth: usize, new: HostValue) -> (done: bool)
        requires
            depth <= path.len(),
        ensures
            done == (replace_at(old(self)@, names(path@).skip(depth as int), new@) is Some),
            done ==> Some(final(self)@) == replace_at(old(self)@, names(path@).skip(depth as int), new@),
            !done ==> final(self)@ == old(self)@,
        decreases path.len() - depth,
    {
        if depth == path.len() {
            *self = new;
            return true;
        }
        let ghost rest = names(path@).skip(depth as int);
        assert(rest[0] == path[depth as int]@);
        assert(rest.drop_first() =~= names(path@).skip(depth + 1));
        match self {
            HostValue::Struct { type_id, fields } => {
                match Self::position(fields, &path[depth]) {
                    Some(i) => {
                        let ghost before = fields_of(fields@);
                        let done = fields[i].1.replace_from(path, depth + 1, new);
                        proof {
                            if done {
                                assert(fields_of(fields@) =~= before.update(i as int, (before[i as int].0, fields[i as int].1@)));
                            } else {
                                assert(fields_of(fields@) =~= before);
                            }
                        }
                        done
                    },
                    None => false,
                }
            },
            _ => false,
        }
    }

    /// Puts `new` in place of the value that `path` leads to. Where the path leads
    /// nowhere, nothing changes.
    pub fn replace(&mut self, path: &Vec<String>, new: HostValue) -> (done: bool)
        ensures
            done == (replace_at(old(self)@, names(path@), new@) is Some),
            done ==> Some(final(self)@) == replace_at(old(self)@, names(path@), new@),
            !done ==> final(self)@ == old(self)@,
    {
        assert(names(path@).skip(0) =~= names(path@));
        self.replace_from(path, 0, new)
    }
}

} // verus!
