//! The QEMU machine protocol's schema: the documentation of its
//! definitions, the conversion of its definitions into named types, and
//! the Rust documentation comments generated from them.
use vstd::prelude::*;
use crate::text::{spec_trim, trim, push_str, string_push, replace_all, replace};

verus! {

// ---------------------------------------------------------------------------
// Documentation

/// The documentation block in front of a schema definition.
#[derive(Debug)]
pub enum Doc {
    Parsed(Description),
    Unparsed(String),
}

/// A parsed documentation block.
#[derive(Debug)]
pub struct Description {
    pub name: String,
    pub documentation: String,
    pub example: String,
    pub rest: Vec<Rest>,
}

/// The tagged sections of a documentation block.
#[derive(Debug)]
pub enum Rest {
    Parameter((String, String)),
    Since(String),
    Note(String),
    Returns(String),
}

/// The documentation of a definition, sorted by kind.
#[derive(Debug)]
pub struct Documentation {
    pub name: String,
    pub documentation: String,
    pub example: String,
    pub parameters: Vec<(String, String)>,
    pub since: String,
    pub notes: Vec<String>,
    pub returns_doc: Option<String>,
}

pub open spec fn pair_view(p: (String, String)) -> (Seq<char>, Seq<char>) {
    (p.0@, p.1@)
}

pub open spec fn pairs_view(v: Seq<(String, String)>) -> Seq<(Seq<char>, Seq<char>)> {
    v.map_values(|p: (String, String)| pair_view(p))
}

pub open spec fn strs(v: Seq<String>) -> Seq<Seq<char>> {
    v.map_values(|s: String| s@)
}

/// The parameters among the first `n` sections, in order.
pub open spec fn doc_parameters(rest: Seq<Rest>, n: int) -> Seq<(Seq<char>, Seq<char>)>
    decreases n,
{
    if n <= 0 {
        seq![]
    } else {
        match rest[n - 1] {
            Rest::Parameter(p) => doc_parameters(rest, n - 1).push(pair_view(p)),
            _ => doc_parameters(rest, n - 1),
        }
    }
}

/// The notes among the first `n` sections, in order.
pub open spec fn doc_notes(rest: Seq<Rest>, n: int) -> Seq<Seq<char>>
    decreases n,
{
    if n <= 0 {
        seq![]
    } else {
        match rest[n - 1] {
            Rest::Note(s) => doc_notes(rest, n - 1).push(s@),
            _ => doc_notes(rest, n - 1),
        }
    }
}

/// The last `Since` section among the first `n`.
pub open spec fn doc_since(rest: Seq<Rest>, n: int) -> Option<Seq<char>>
    decreases n,
{
    if n <= 0 {
        None
    } else {
        match rest[n - 1] {
            Rest::Since(s) => Some(s@),
            _ => doc_since(rest, n - 1),
        }
    }
}

/// The last `Returns` section among the first `n`.
pub open spec fn doc_returns(rest: Seq<Rest>, n: int) -> Option<Seq<char>>
    decreases n,
{
    if n <= 0 {
        None
    } else {
        match rest[n - 1] {
            Rest::Returns(s) => Some(s@),
            _ => doc_returns(rest, n - 1),
        }
    }
}

proof fn lemma_last_since(rest: Seq<Rest>, n: int)
    requires
        0 < n <= rest.len(),
    ensures
        !(rest[n - 1] is Since) ==> doc_since(rest, n) == doc_since(rest, n - 1),
        !(rest[n - 1] is Returns) ==> doc_returns(rest, n) == doc_returns(rest, n - 1),
{
}

/// Sorts the sections of a documentation block: parameters and notes in
/// order, the last `Since` and `Returns` section.
pub fn parse_desc(desc: &Description) -> (r: Documentation)
    requires
        doc_since(desc.rest@, desc.rest@.len() as int) is Some,
    ensures
        r.name@ == desc.name@,
        r.documentation@ == desc.documentation@,
        r.example@ == desc.example@,
        pairs_view(r.parameters@) == doc_parameters(desc.rest@, desc.rest@.len() as int),
        r.since@ == doc_since(desc.rest@, desc.rest@.len() as int)->0,
        strs(r.notes@) == doc_notes(desc.rest@, desc.rest@.len() as int),
        crate::pci::opt_view(r.returns_doc) == doc_returns(desc.rest@, desc.rest@.len() as int),
{
    let mut params: Vec<(String, String)> = Vec::new();
    let mut since: Option<String> = None;
    let mut notes: Vec<String> = Vec::new();
    let mut returns_doc: Option<String> = None;
    let mut i: usize = 0;
    while i < desc.rest.len()
        invariant
            i <= desc.rest@.len(),
            pairs_view(params@) == doc_parameters(desc.rest@, i as int),
            strs(notes@) == doc_notes(desc.rest@, i as int),
            crate::pci::opt_view(since) == doc_since(desc.rest@, i as int),
            crate::pci::opt_view(returns_doc) == doc_returns(desc.rest@, i as int),
        decreases desc.rest@.len() - i,
    {
        let ghost p0 = pairs_view(params@);
        let ghost n0 = strs(notes@);
        match &desc.rest[i] {
            Rest::Parameter((name, doc)) => {
                params.push((name.clone(), doc.clone()));
                assert(pairs_view(params@) =~= p0.push((name@, doc@)));
            },
            Rest::Since(s) => {
                since = Some(s.clone());
            },
            Rest::Note(note) => {
                notes.push(note.clone());
                assert(strs(notes@) =~= n0.push(note@));
            },
            Rest::Returns(ret) => {
                returns_doc = Some(ret.clone());
            },
        }
        proof {
            lemma_last_since(desc.rest@, i as int + 1);
        }
        assert(pairs_view(params@) =~= doc_parameters(desc.rest@, i as int + 1));
        assert(strs(notes@) =~= doc_notes(desc.rest@, i as int + 1));
        i = i + 1;
    }
    let since = match since {
        Some(s) => s,
        None => String::new(),
    };
    Documentation {
        name: desc.name.clone(),
        documentation: desc.documentation.clone(),
        example: desc.example.clone(),
        parameters: params,
        since,
        notes,
        returns_doc,
    }
}

// ---------------------------------------------------------------------------
// Schema definitions

/// A value of the schema's JSON where a type is expected: a type name, a
/// list of one type name, or an object of members. Anything else is kept
/// as `Other`.
#[derive(Debug)]
pub enum JsonValue {
    Str(String),
    Array(Vec<JsonValue>),
    Object(Vec<(String, JsonValue)>),
    Other,
}

#[derive(Debug)]
pub struct Pragma {
    pub pragma: JsonValue,
}

#[derive(Debug)]
pub struct Include {
    pub file: String,
}

#[derive(Debug)]
pub struct Command {
    pub command: String,
    pub data: Option<JsonValue>,
    pub return_type: Option<JsonValue>,
    pub gen: Option<bool>,
}

#[derive(Debug)]
pub struct Event {
    pub event: String,
    pub data: Option<JsonValue>,
}

#[derive(Debug)]
pub struct Enum {
    pub name: String,
    pub data: Vec<String>,
    pub gen: Option<bool>,
}

#[derive(Debug)]
pub struct Struct {
    pub name: String,
    pub data: Option<JsonValue>,
    pub base: Option<String>,
    pub gen: Option<bool>,
}

#[derive(Debug)]
pub struct Union {
    pub union: String,
    pub base: Option<JsonValue>,
    pub discriminator: Option<String>,
    /// Branch name and type name, in the order the schema was read.
    pub data: Option<Vec<(String, String)>>,
    pub gen: Option<bool>,
}

/// One definition of the schema.
#[derive(Debug)]
pub enum Object {
    Pragma(Pragma),
    Include(Include),
    Command(Command),
    Event(Event),
    Enum(Enum),
    Struct(Struct),
    Union(Union),
}

/// A definition with its documentation.
#[derive(Debug)]
pub struct Part {
    pub description: Doc,
    pub object: Object,
}

// ---------------------------------------------------------------------------
// Types

/// A type of the protocol.
#[derive(Debug)]
pub enum Type {
    Empty,
    String,
    F64,
    I8,
    I16,
    I32,
    I64,
    U8,
    U16,
    U32,
    U64,
    Bool,
    /// A reference to a named compound type.
    Existing(String),
    Enum(Vec<String>),
    Union((Option<String>, Vec<(String, Type)>)),
    List(Box<Type>),
    /// Named members (a struct).
    Record(Vec<(String, Type)>),
}

/// A type with its names as character sequences.
pub enum TypeV {
    Empty,
    Str,
    F64,
    I8,
    I16,
    I32,
    I64,
    U8,
    U16,
    U32,
    U64,
    Bool,
    Existing(Seq<char>),
    Enum(Seq<Seq<char>>),
    Union(Option<Seq<char>>, Seq<(Seq<char>, TypeV)>),
    List(Box<TypeV>),
    Record(Seq<(Seq<char>, TypeV)>),
}

pub open spec fn type_view(t: Type) -> TypeV
    decreases t, 0int,
{
    match t {
        Type::Empty => TypeV::Empty,
        Type::String => TypeV::Str,
        Type::F64 => TypeV::F64,
        Type::I8 => TypeV::I8,
        Type::I16 => TypeV::I16,
        Type::I32 => TypeV::I32,
        Type::I64 => TypeV::I64,
        Type::U8 => TypeV::U8,
        Type::U16 => TypeV::U16,
        Type::U32 => TypeV::U32,
        Type::U64 => TypeV::U64,
        Type::Bool => TypeV::Bool,
        Type::Existing(s) => TypeV::Existing(s@),
        Type::Enum(v) => TypeV::Enum(strs(v@)),
        Type::Union((d, v)) => TypeV::Union(crate::pci::opt_view(d), members_view(v@, v@.len() as int)),
        Type::List(b) => TypeV::List(Box::new(type_view(*b))),
        Type::Record(v) => TypeV::Record(members_view(v@, v@.len() as int)),
    }
}

/// The first `n` named members.
pub open spec fn members_view(m: Seq<(String, Type)>, n: int) -> Seq<(Seq<char>, TypeV)>
    decreases m, n,
{
    if n <= 0 || n > m.len() {
        seq![]
    } else {
        members_view(m, n - 1).push((m[n - 1].0@, type_view(m[n - 1].1)))
    }
}

/// Whether a type is only referred to by its name inside other types.
pub open spec fn is_compound(t: TypeV) -> bool {
    t is Union || t is Enum || t is List || t is Record
}

fn clone_strings(v: &Vec<String>) -> (r: Vec<String>)
    ensures
        strs(r@) == strs(v@),
{
    let mut r: Vec<String> = Vec::new();
    let mut i: usize = 0;
    while i < v.len()
        invariant
            i <= v@.len(),
            strs(r@) == strs(v@.subrange(0, i as int)),
        decreases v@.len() - i,
    {
        let ghost before = strs(r@);
        r.push(v[i].clone());
        assert(strs(r@) =~= before.push(v@[i as int]@));
        assert(strs(v@.subrange(0, i + 1)) =~= strs(v@.subrange(0, i as int)).push(v@[i as int]@));
        i = i + 1;
    }
    assert(v@.subrange(0, v@.len() as int) =~= v@);
    r
}

fn clone_members(m: &Vec<(String, Type)>) -> (r: Vec<(String, Type)>)
    ensures
        members_view(r@, r@.len() as int) == members_view(m@, m@.len() as int),
    decreases m, 1int,
{
    let mut r: Vec<(String, Type)> = Vec::new();
    let mut i: usize = 0;
    while i < m.len()
        invariant
            i <= m@.len(),
            r@.len() == i,
            members_view(r@, i as int) == members_view(m@, i as int),
        decreases m@.len() - i,
    {
        proof {
            assert(decreases_to!(*m => m@));
            assert(decreases_to!(m@ => m@[i as int]));
            assert(decreases_to!(m@[i as int] => m@[i as int].1));
        }
        let t = clone_type(&m[i].1);
        let ghost before = r@;
        r.push((m[i].0.clone(), t));
        proof {
            lemma_members_view_prefix(r@, before, i as int);
        }
        i = i + 1;
    }
    r
}

proof fn lemma_members_view_prefix(a: Seq<(String, Type)>, b: Seq<(String, Type)>, n: int)
    requires
        0 <= n <= b.len(),
        n <= a.len(),
        forall|k: int| 0 <= k < n ==> a[k] == b[k],
    ensures
        members_view(a, n) == members_view(b, n),
    decreases n,
{
    if n > 0 {
        lemma_members_view_prefix(a, b, n - 1);
    }
}

/// A copy of a type.
pub fn clone_type(t: &Type) -> (r: Type)
    ensures
        type_view(r) == type_view(*t),
    decreases t, 0int,
{
    match t {
        Type::Empty => Type::Empty,
        Type::String => Type::String,
        Type::F64 => Type::F64,
        Type::I8 => Type::I8,
        Type::I16 => Type::I16,
        Type::I32 => Type::I32,
        Type::I64 => Type::I64,
        Type::U8 => Type::U8,
        Type::U16 => Type::U16,
        Type::U32 => Type::U32,
        Type::U64 => Type::U64,
        Type::Bool => Type::Bool,
        Type::Existing(s) => Type::Existing(s.clone()),
        Type::Enum(v) => Type::Enum(clone_strings(v)),
        Type::Union((d, v)) => {
            proof {
                assert(decreases_to!(*t => t->Union_0));
                assert(decreases_to!(t->Union_0 => t->Union_0.1));
            }
            let d2 = match d { Some(s) => Some(s.clone()), None => None };
            Type::Union((d2, clone_members(v)))
        },
        Type::List(b) => {
            proof {
                assert(decreases_to!(*t => t->List_0));
            }
            Type::List(Box::new(clone_type(&**b)))
        },
        Type::Record(v) => {
            proof {
                assert(decreases_to!(*t => t->Record_0));
            }
            Type::Record(clone_members(v))
        },
    }
}

// ---------------------------------------------------------------------------
// The table of named types

/// Named types; a later entry for a name replaces earlier ones.
pub struct TypeTable {
    pub entries: Vec<(String, Type)>,
}

/// The type of `name` among the first `n` entries: the latest one.
pub open spec fn tv_get(tab: Seq<(Seq<char>, TypeV)>, name: Seq<char>, n: int) -> Option<TypeV>
    decreases n,
{
    if n <= 0 || n > tab.len() {
        None
    } else if tab[n - 1].0 == name {
        Some(tab[n - 1].1)
    } else {
        tv_get(tab, name, n - 1)
    }
}

pub open spec fn lookup(tab: Seq<(Seq<char>, TypeV)>, name: Seq<char>) -> Option<TypeV> {
    tv_get(tab, name, tab.len() as int)
}

proof fn lemma_members_view_index(m: Seq<(String, Type)>, n: int)
    requires
        0 <= n <= m.len(),
    ensures
        members_view(m, n).len() == n,
        forall|k: int| 0 <= k < n ==> #[trigger] members_view(m, n)[k] == (m[k].0@, type_view(m[k].1)),
    decreases n,
{
    if n > 0 {
        lemma_members_view_index(m, n - 1);
    }
}

proof fn lemma_members_view_push(m: Seq<(String, Type)>, x: (String, Type))
    ensures
        members_view(m.push(x), (m.len() + 1) as int) == members_view(m, m.len() as int).push((x.0@, type_view(x.1))),
{
    lemma_members_view_prefix(m.push(x), m, m.len() as int);
}

proof fn lemma_members_view_append(a: Seq<(String, Type)>, b: Seq<(String, Type)>)
    ensures
        members_view(a + b, (a.len() + b.len()) as int) == members_view(a, a.len() as int) + members_view(b, b.len() as int),
{
    lemma_members_view_index(a + b, (a.len() + b.len()) as int);
    lemma_members_view_index(a, a.len() as int);
    lemma_members_view_index(b, b.len() as int);
    assert(members_view(a + b, (a.len() + b.len()) as int) =~= members_view(a, a.len() as int) + members_view(b, b.len() as int));
}

impl View for TypeTable {
    type V = Seq<(Seq<char>, TypeV)>;

    open spec fn view(&self) -> Seq<(Seq<char>, TypeV)> {
        members_view(self.entries@, self.entries@.len() as int)
    }
}

impl TypeTable {
    pub fn new() -> (r: TypeTable)
        ensures
            r@ == Seq::<(Seq<char>, TypeV)>::empty(),
    {
        TypeTable { entries: Vec::new() }
    }

    /// Names `name` to be `t`.
    pub fn insert(&mut self, name: String, t: Type)
        ensures
            final(self)@ == old(self)@.push((name@, type_view(t))),
    {
        let ghost before = self.entries@;
        let ghost x = (name, t);
        self.entries.push((name, t));
        proof {
            lemma_members_view_push(before, x);
        }
    }

    /// The type named `name`.
    pub fn get(&self, name: &str) -> (r: Option<&Type>)
        ensures
            (match r { Some(t) => Some(type_view(*t)), None => None::<TypeV> }) == lookup(self@, name@),
    {
        proof {
            lemma_members_view_index(self.entries@, self.entries@.len() as int);
        }
        let mut i: usize = self.entries.len();
        while i > 0
            invariant
                i <= self.entries@.len(),
                self@.len() == self.entries@.len(),
                forall|k: int| 0 <= k < self@.len() ==> #[trigger] self@[k] == (self.entries@[k].0@, type_view(self.entries@[k].1)),
                tv_get(self@, name@, i as int) == lookup(self@, name@),
            decreases i,
        {
            if crate::text::str_eq(self.entries[i - 1].0.as_str(), name) {
                return Some(&self.entries[i - 1].1);
            }
            i = i - 1;
        }
        None
    }
}

// ---------------------------------------------------------------------------
// Converting definitions into types

/// How converting a definition went: done, retry once more types are
/// known, or the schema is not what this converter understands.
#[derive(Debug)]
pub enum Outcome<T> {
    Done(T),
    Retry,
    Malformed,
}

/// The type a type name stands for inside another type: compound types
/// by reference, the others as they are.
pub open spec fn spec_string_to_type(s: Seq<char>, tab: Seq<(Seq<char>, TypeV)>) -> Option<TypeV> {
    match lookup(tab, s) {
        Some(t) => Some(if is_compound(t) { TypeV::Existing(s) } else { t }),
        None => None,
    }
}

pub open spec fn spec_value_to_type(v: JsonValue, tab: Seq<(Seq<char>, TypeV)>) -> Outcome<TypeV>
    decreases v, 0int,
{
    match v {
        JsonValue::Str(s) => match spec_string_to_type(s@, tab) {
            Some(t) => Outcome::Done(t),
            None => Outcome::Retry,
        },
        JsonValue::Array(a) => if a@.len() != 1 {
            Outcome::Malformed
        } else {
            match a@[0] {
                JsonValue::Str(s) => match spec_string_to_type(s@, tab) {
                    Some(t) => Outcome::Done(TypeV::List(Box::new(t))),
                    None => Outcome::Retry,
                },
                _ => Outcome::Malformed,
            }
        },
        JsonValue::Object(m) => match spec_members_to_type(m@, m@.len() as int, tab) {
            Outcome::Done(ms) => Outcome::Done(TypeV::Record(ms)),
            Outcome::Retry => Outcome::Retry,
            Outcome::Malformed => Outcome::Malformed,
        },
        JsonValue::Other => Outcome::Malformed,
    }
}

/// The first `n` members of an object, converted in order; the first
/// member that cannot be converted decides.
pub open spec fn spec_members_to_type(m: Seq<(String, JsonValue)>, n: int, tab: Seq<(Seq<char>, TypeV)>)
    -> Outcome<Seq<(Seq<char>, TypeV)>>
    decreases m, n,
{
    if n <= 0 || n > m.len() {
        Outcome::Done(seq![])
    } else {
        match spec_members_to_type(m, n - 1, tab) {
            Outcome::Done(ms) => match spec_value_to_type(m[n - 1].1, tab) {
                Outcome::Done(t) => Outcome::Done(ms.push((m[n - 1].0@, t))),
                Outcome::Retry => Outcome::Retry,
                Outcome::Malformed => Outcome::Malformed,
            },
            other => other,
        }
    }
}

pub open spec fn outcome_view(o: Outcome<Type>) -> Outcome<TypeV> {
    match o {
        Outcome::Done(t) => Outcome::Done(type_view(t)),
        Outcome::Retry => Outcome::Retry,
        Outcome::Malformed => Outcome::Malformed,
    }
}

/// The type a type name stands for inside another type, if it is known.
pub fn string_to_type(s: &str, table: &TypeTable) -> (r: Option<Type>)
    ensures
        (match r { Some(t) => Some(type_view(t)), None => None::<TypeV> }) == spec_string_to_type(s@, table@),
{
    match table.get(s) {
        Some(t) => {
            let compound = match t {
                Type::Union(_) | Type::Enum(_) | Type::List(_) | Type::Record(_) => true,
                _ => false,
            };
            if compound {
                Some(Type::Existing(String::from_str(s)))
            } else {
                Some(clone_type(t))
            }
        },
        None => None,
    }
}

/// Converts a schema value into a type.
pub fn value_to_type(v: &JsonValue, table: &TypeTable) -> (r: Outcome<Type>)
    ensures
        outcome_view(r) == spec_value_to_type(*v, table@),
    decreases v,
{
    match v {
        JsonValue::Str(s) => match string_to_type(s.as_str(), table) {
            Some(t) => Outcome::Done(t),
            None => Outcome::Retry,
        },
        JsonValue::Array(a) => {
            if a.len() != 1 {
                return Outcome::Malformed;
            }
            match &a[0] {
                JsonValue::Str(s) => match string_to_type(s.as_str(), table) {
                    Some(t) => Outcome::Done(Type::List(Box::new(t))),
                    None => Outcome::Retry,
                },
                _ => Outcome::Malformed,
            }
        },
        JsonValue::Object(m) => {
            let mut res: Vec<(String, Type)> = Vec::new();
            let mut i: usize = 0;
            while i < m.len()
                invariant
                    i <= m@.len(),
                    *v == JsonValue::Object(*m),
                    res@.len() == i,
                    spec_members_to_type(m@, i as int, table@) == Outcome::Done(members_view(res@, i as int)),
                decreases m@.len() - i,
            {
                proof {
                    assert(decreases_to!(*v => v->Object_0));
                    assert(v->Object_0 == *m);
                    assert(decreases_to!(*m => m@));
                    assert(decreases_to!(m@ => m@[i as int]));
                    assert(decreases_to!(m@[i as int] => m@[i as int].1));
                }
                match value_to_type(&m[i].1, table) {
                    Outcome::Done(t) => {
                        let ghost before = res@;
                        res.push((m[i].0.clone(), t));
                        proof {
                            lemma_members_view_prefix(res@, before, i as int);
                        }
                    },
                    Outcome::Retry => {
                        proof { lemma_members_stuck(m@, i as int + 1, m@.len() as int, table@); }
                        return Outcome::Retry;
                    },
                    Outcome::Malformed => {
                        proof { lemma_members_stuck(m@, i as int + 1, m@.len() as int, table@); }
                        return Outcome::Malformed;
                    },
                }
                i = i + 1;
            }
            Outcome::Done(Type::Record(res))
        },
        JsonValue::Other => Outcome::Malformed,
    }
}

proof fn lemma_members_stuck(m: Seq<(String, JsonValue)>, i: int, n: int, tab: Seq<(Seq<char>, TypeV)>)
    requires
        0 < i <= n <= m.len(),
        !(spec_members_to_type(m, i, tab) is Done),
    ensures
        spec_members_to_type(m, n, tab) == spec_members_to_type(m, i, tab),
    decreases n - i,
{
    if i < n {
        lemma_members_stuck(m, i, n - 1, tab);
    }
}

/// The members of a union whose branch types are all known, in order.
pub open spec fn spec_union_members(data: Seq<(String, String)>, n: int, tab: Seq<(Seq<char>, TypeV)>)
    -> Option<Seq<(Seq<char>, TypeV)>>
    decreases n,
{
    if n <= 0 || n > data.len() {
        Some(seq![])
    } else {
        match (spec_union_members(data, n - 1, tab), lookup(tab, data[n - 1].1@)) {
            (Some(ms), Some(t)) => Some(ms.push((data[n - 1].0@, t))),
            _ => None,
        }
    }
}

pub open spec fn union_data(d: Option<Vec<(String, String)>>) -> Seq<(String, String)> {
    match d {
        Some(v) => v@,
        None => seq![],
    }
}

/// The members a struct inherits: those of its base, which must be a
/// known struct.
pub open spec fn spec_struct_base(base: Option<String>, tab: Seq<(Seq<char>, TypeV)>) -> Option<Seq<(Seq<char>, TypeV)>> {
    match base {
        None => Some(seq![]),
        Some(b) => match lookup(tab, b@) {
            Some(TypeV::Record(m)) => Some(m),
            _ => None,
        },
    }
}

/// What a definition names: enums, structs (with the members of their
/// base first), plain unions and events. Other definitions name nothing.
pub open spec fn spec_object_to_type(o: Object, tab: Seq<(Seq<char>, TypeV)>)
    -> Outcome<Option<(Seq<char>, TypeV)>>
{
    match o {
        Object::Enum(e) => Outcome::Done(Some((e.name@, TypeV::Enum(strs(e.data@))))),
        Object::Struct(st) => {
            match spec_struct_base(st.base, tab) {
                None => Outcome::Malformed,
                Some(m) => match st.data {
                    None => Outcome::Done(Some((st.name@, TypeV::Record(m)))),
                    Some(val) => match spec_value_to_type(val, tab) {
                        Outcome::Done(TypeV::Record(m2)) => Outcome::Done(Some((st.name@, TypeV::Record(m + m2)))),
                        Outcome::Done(_) => Outcome::Malformed,
                        Outcome::Retry => Outcome::Retry,
                        Outcome::Malformed => Outcome::Malformed,
                    },
                },
            }
        },
        Object::Union(u) => {
            if u.base is Some || u.discriminator is Some {
                Outcome::Done(None)
            } else {
                match spec_union_members(union_data(u.data), union_data(u.data).len() as int, tab) {
                    Some(ms) => Outcome::Done(Some((u.union@, TypeV::Union(crate::pci::opt_view(u.discriminator), ms)))),
                    None => Outcome::Retry,
                }
            }
        },
        Object::Event(e) => match e.data {
            None => Outcome::Done(Some((e.event@, TypeV::Empty))),
            Some(val) => match spec_value_to_type(val, tab) {
                Outcome::Done(t) => Outcome::Done(Some((e.event@, t))),
                Outcome::Retry => Outcome::Retry,
                Outcome::Malformed => Outcome::Malformed,
            },
        },
        _ => Outcome::Done(None),
    }
}

pub open spec fn named_view(o: Outcome<Option<(String, Type)>>) -> Outcome<Option<(Seq<char>, TypeV)>> {
    match o {
        Outcome::Done(Some((n, t))) => Outcome::Done(Some((n@, type_view(t)))),
        Outcome::Done(None) => Outcome::Done(None),
        Outcome::Retry => Outcome::Retry,
        Outcome::Malformed => Outcome::Malformed,
    }
}

fn union_members(data: &Vec<(String, String)>, table: &TypeTable) -> (r: Option<Vec<(String, Type)>>)
    ensures
        (match r { Some(v) => Some(members_view(v@, v@.len() as int)), None => None::<Seq<(Seq<char>, TypeV)>> })
            == spec_union_members(data@, data@.len() as int, table@),
{
    let mut res: Vec<(String, Type)> = Vec::new();
    let mut i: usize = 0;
    while i < data.len()
        invariant
            i <= data@.len(),
            res@.len() == i,
            spec_union_members(data@, i as int, table@) == Some(members_view(res@, i as int)),
        decreases data@.len() - i,
    {
        match table.get(data[i].1.as_str()) {
            Some(t) => {
                let ghost before = res@;
                res.push((data[i].0.clone(), clone_type(t)));
                proof {
                    lemma_members_view_prefix(res@, before, i as int);
                }
            },
            None => {
                proof { lemma_union_stuck(data@, i as int + 1, data@.len() as int, table@); }
                return None;
            },
        }
        i = i + 1;
    }
    Some(res)
}

proof fn lemma_union_stuck(data: Seq<(String, String)>, i: int, n: int, tab: Seq<(Seq<char>, TypeV)>)
    requires
        0 < i <= n <= data.len(),
        spec_union_members(data, i, tab) is None,
    ensures
        spec_union_members(data, n, tab) is None,
    decreases n - i,
{
    if i < n {
        lemma_union_stuck(data, i, n - 1, tab);
    }
}

/// Converts one definition into the type it names.
pub fn object_to_type(o: &Object, table: &TypeTable) -> (r: Outcome<Option<(String, Type)>>)
    ensures
        named_view(r) == spec_object_to_type(*o, table@),
{
    match o {
        Object::Enum(e) => Outcome::Done(Some((e.name.clone(), Type::Enum(clone_strings(&e.data))))),
        Object::Struct(st) => {
            let mut members: Vec<(String, Type)> = match &st.base {
                None => Vec::new(),
                Some(b) => match table.get(b.as_str()) {
                    Some(Type::Record(m)) => clone_members(m),
                    _ => return Outcome::Malformed,
                },
            };
            assert(spec_struct_base(st.base, table@) == Some(members_view(members@, members@.len() as int)));
            match &st.data {
                None => Outcome::Done(Some((st.name.clone(), Type::Record(members)))),
                Some(val) => match value_to_type(val, table) {
                    Outcome::Done(Type::Record(mut m2)) => {
                        let ghost a = members@;
                        let ghost b = m2@;
                        members.append(&mut m2);
                        proof {
                            assert(members@ == a + b);
                            lemma_members_view_append(a, b);
                        }
                        Outcome::Done(Some((st.name.clone(), Type::Record(members))))
                    },
                    Outcome::Done(_) => Outcome::Malformed,
                    Outcome::Retry => Outcome::Retry,
                    Outcome::Malformed => Outcome::Malformed,
                },
            }
        },
        Object::Union(u) => {
            if u.base.is_some() || u.discriminator.is_some() {
                return Outcome::Done(None);
            }
            let empty: Vec<(String, String)> = Vec::new();
            let data = match &u.data {
                Some(d) => d,
                None => &empty,
            };
            match union_members(data, table) {
                Some(ms) => Outcome::Done(Some((u.union.clone(), Type::Union((None, ms))))),
                None => Outcome::Retry,
            }
        },
        Object::Event(e) => match &e.data {
            None => Outcome::Done(Some((e.event.clone(), Type::Empty))),
            Some(val) => match value_to_type(val, table) {
                Outcome::Done(t) => Outcome::Done(Some((e.event.clone(), t))),
                Outcome::Retry => Outcome::Retry,
                Outcome::Malformed => Outcome::Malformed,
            },
        },
        _ => Outcome::Done(None),
    }
}

/// The built-in types of the schema.
pub open spec fn builtin_types() -> Seq<(Seq<char>, TypeV)> {
    seq![
        ("str"@, TypeV::Str), ("number"@, TypeV::F64), ("int"@, TypeV::I64), ("int8"@, TypeV::I8),
        ("int16"@, TypeV::I16), ("int32"@, TypeV::I32), ("int64"@, TypeV::I64), ("uint8"@, TypeV::U8),
        ("uint16"@, TypeV::U16), ("uint32"@, TypeV::U32), ("uint64"@, TypeV::U64), ("size"@, TypeV::U64),
        ("bool"@, TypeV::Bool), ("any"@, TypeV::Str), ("QType"@, TypeV::Str)
    ]
}

pub open spec fn objects(parts: Seq<Part>) -> Seq<Object> {
    parts.map_values(|p: Part| p.object)
}

/// One pass over the first `n` of the definitions at positions `todo`:
/// each converted definition is named in the table, those waiting for
/// other types are kept in order. `None` if one is malformed.
pub open spec fn conversion_pass(objs: Seq<Object>, todo: Seq<usize>, n: int, tab: Seq<(Seq<char>, TypeV)>)
    -> Option<(Seq<(Seq<char>, TypeV)>, Seq<usize>)>
    decreases n,
{
    if n <= 0 || n > todo.len() {
        Some((tab, seq![]))
    } else {
        match conversion_pass(objs, todo, n - 1, tab) {
            None => None,
            Some((t, left)) => match spec_object_to_type(objs[todo[n - 1] as int], t) {
                Outcome::Done(Some((name, ty))) => Some((t.push((name, ty)), left)),
                Outcome::Done(None) => Some((t, left)),
                Outcome::Retry => Some((t, left.push(todo[n - 1]))),
                Outcome::Malformed => None,
            },
        }
    }
}

/// Passes over the waiting definitions as long as each pass converts some.
pub open spec fn settle(objs: Seq<Object>, tab: Seq<(Seq<char>, TypeV)>, todo: Seq<usize>)
    -> Option<(Seq<(Seq<char>, TypeV)>, Seq<usize>)>
    decreases todo.len(),
{
    match conversion_pass(objs, todo, todo.len() as int, tab) {
        None => None,
        Some((t2, left)) => if left.len() >= todo.len() { Some((t2, left)) } else { settle(objs, t2, left) },
    }
}

/// The table after naming the built-in types and all definitions that can
/// be converted, with the positions of those that could not. `None` if a
/// definition is malformed.
pub open spec fn spec_to_types(parts: Seq<Part>, tab: Seq<(Seq<char>, TypeV)>)
    -> Option<(Seq<(Seq<char>, TypeV)>, Seq<usize>)>
{
    let objs = objects(parts);
    let all = Seq::new(parts.len(), |i: int| i as usize);
    match conversion_pass(objs, all, parts.len() as int, tab + builtin_types()) {
        None => None,
        Some((t1, left)) => if left.len() == 0 { Some((t1, left)) } else { settle(objs, t1, left) },
    }
}

proof fn lemma_pass_left(objs: Seq<Object>, todo: Seq<usize>, n: int, tab: Seq<(Seq<char>, TypeV)>)
    requires
        0 <= n <= todo.len(),
    ensures
        conversion_pass(objs, todo, n, tab) matches Some((t, left)) ==> left.len() <= n,
    decreases n,
{
    if n > 0 {
        lemma_pass_left(objs, todo, n - 1, tab);
    }
}

proof fn lemma_pass_stuck(objs: Seq<Object>, todo: Seq<usize>, i: int, n: int, tab: Seq<(Seq<char>, TypeV)>)
    requires
        0 < i <= n <= todo.len(),
        conversion_pass(objs, todo, i, tab) is None,
    ensures
        conversion_pass(objs, todo, n, tab) is None,
    decreases n - i,
{
    if i < n {
        lemma_pass_stuck(objs, todo, i, n - 1, tab);
    }
}

fn insert_builtins(table: &mut TypeTable)
    ensures
        final(table)@ == old(table)@ + builtin_types(),
{
    let ghost start = table@;
    table.insert(String::from_str("str"), Type::String);
    table.insert(String::from_str("number"), Type::F64);
    table.insert(String::from_str("int"), Type::I64);
    table.insert(String::from_str("int8"), Type::I8);
    table.insert(String::from_str("int16"), Type::I16);
    table.insert(String::from_str("int32"), Type::I32);
    table.insert(String::from_str("int64"), Type::I64);
    table.insert(String::from_str("uint8"), Type::U8);
    table.insert(String::from_str("uint16"), Type::U16);
    table.insert(String::from_str("uint32"), Type::U32);
    table.insert(String::from_str("uint64"), Type::U64);
    table.insert(String::from_str("size"), Type::U64);
    table.insert(String::from_str("bool"), Type::Bool);
    table.insert(String::from_str("any"), Type::String);
    table.insert(String::from_str("QType"), Type::String);
    assert(table@ =~= start + builtin_types());
}

/// Converts the definitions at positions `todo` once, naming what converts.
fn convert_pass(parts: &Vec<Part>, todo: &Vec<usize>, table: &mut TypeTable) -> (r: Option<Vec<usize>>)
    requires
        forall|k: int| 0 <= k < todo@.len() ==> #[trigger] todo@[k] < parts@.len(),
    ensures
        r is None <==> conversion_pass(objects(parts@), todo@, todo@.len() as int, old(table)@) is None,
        r matches Some(left) ==> conversion_pass(objects(parts@), todo@, todo@.len() as int, old(table)@)
            == Some((final(table)@, left@)),
        r matches Some(left) ==> forall|k: int| 0 <= k < left@.len() ==> #[trigger] left@[k] < parts@.len(),
{
    let ghost objs = objects(parts@);
    let ghost start = table@;
    let mut left: Vec<usize> = Vec::new();
    let mut j: usize = 0;
    while j < todo.len()
        invariant
            j <= todo@.len(),
            objs == objects(parts@),
            start == old(table)@,
            forall|k: int| 0 <= k < todo@.len() ==> #[trigger] todo@[k] < parts@.len(),
            forall|k: int| 0 <= k < left@.len() ==> #[trigger] left@[k] < parts@.len(),
            conversion_pass(objs, todo@, j as int, start) == Some((table@, left@)),
        decreases todo@.len() - j,
    {
        let idx = todo[j];
        assert(objs[idx as int] == parts@[idx as int].object);
        match object_to_type(&parts[idx].object, table) {
            Outcome::Done(Some((name, ty))) => {
                table.insert(name, ty);
            },
            Outcome::Done(None) => {},
            Outcome::Retry => {
                left.push(idx);
            },
            Outcome::Malformed => {
                proof { lemma_pass_stuck(objs, todo@, j as int + 1, todo@.len() as int, start); }
                return None;
            },
        }
        j = j + 1;
    }
    Some(left)
}

/// Names the built-in types and every definition that can be converted,
/// passing again over those that wait for other types as long as a pass
/// makes progress. Returns the positions of the definitions that could not
/// be converted, or `Err` if one is malformed.
pub fn to_types(parts: &Vec<Part>, table: &mut TypeTable) -> (r: Result<Vec<usize>, ()>)
    ensures
        r is Err <==> spec_to_types(parts@, old(table)@) is None,
        r matches Ok(left) ==> spec_to_types(parts@, old(table)@) == Some((final(table)@, left@)),
{
    let ghost objs = objects(parts@);
    let ghost start = table@;
    insert_builtins(table);
    let mut all: Vec<usize> = Vec::new();
    let mut i: usize = 0;
    while i < parts.len()
        invariant
            i <= parts@.len(),
            all@ == Seq::new(i as nat, |k: int| k as usize),
        decreases parts@.len() - i,
    {
        all.push(i);
        assert(all@ =~= Seq::new((i + 1) as nat, |k: int| k as usize));
        i = i + 1;
    }
    assert(all@ == Seq::new(parts@.len(), |k: int| k as usize));
    let mut todo = match convert_pass(parts, &all, table) {
        Some(left) => left,
        None => return Err(()),
    };
    let ghost result = spec_to_types(parts@, start);
    let mut len: usize = 0;
    proof {
        lemma_pass_left(objs, all@, all@.len() as int, start + builtin_types());
    }
    while len != todo.len()
        invariant
            objs == objects(parts@),
            start == old(table)@,
            result == spec_to_types(parts@, start),
            forall|k: int| 0 <= k < todo@.len() ==> #[trigger] todo@[k] < parts@.len(),
            len == 0 || todo@.len() <= len,
            result == (if todo@.len() == len { Some((table@, todo@)) } else { settle(objs, table@, todo@) }),
        decreases todo@.len() + (if len == todo@.len() { 0int } else { 1int }),
    {
        len = todo.len();
        let ghost before = table@;
        proof {
            lemma_pass_left(objs, todo@, todo@.len() as int, before);
        }
        match convert_pass(parts, &todo, table) {
            Some(left) => {
                todo = left;
            },
            None => return Err(()),
        }
    }
    Ok(todo)
}

// ---------------------------------------------------------------------------
// Sections

/// A definition to generate code for: its name, documentation and type.
#[derive(Debug)]
pub struct Section {
    pub name: String,
    pub doc: Documentation,
    pub typ: Type,
}

/// Why the schema cannot be turned into sections.
#[derive(Debug, Clone, Copy, PartialEq, Eq, Structural)]
pub enum SchemaError {
    /// A definition is not what the converter understands.
    Malformed,
    /// A documentation block could not be parsed.
    Unparsed,
    /// A documentation block has no `Since` section.
    NoSince,
}

/// A documentation with its texts as character sequences.
pub struct DocView {
    pub name: Seq<char>,
    pub documentation: Seq<char>,
    pub example: Seq<char>,
    pub parameters: Seq<(Seq<char>, Seq<char>)>,
    pub since: Seq<char>,
    pub notes: Seq<Seq<char>>,
    pub returns_doc: Option<Seq<char>>,
}

pub open spec fn doc_view(d: Documentation) -> DocView {
    DocView {
        name: d.name@,
        documentation: d.documentation@,
        example: d.example@,
        parameters: pairs_view(d.parameters@),
        since: d.since@,
        notes: strs(d.notes@),
        returns_doc: crate::pci::opt_view(d.returns_doc),
    }
}

/// What `parse_desc` makes of a description.
pub open spec fn spec_parse_desc(d: Description) -> DocView {
    let n = d.rest@.len() as int;
    DocView {
        name: d.name@,
        documentation: d.documentation@,
        example: d.example@,
        parameters: doc_parameters(d.rest@, n),
        since: doc_since(d.rest@, n)->0,
        notes: doc_notes(d.rest@, n),
        returns_doc: doc_returns(d.rest@, n),
    }
}

pub open spec fn section_view(s: Section) -> (Seq<char>, DocView, TypeV) {
    (s.name@, doc_view(s.doc), type_view(s.typ))
}

pub open spec fn sections_view(v: Seq<Section>) -> Seq<(Seq<char>, DocView, TypeV)> {
    v.map_values(|s: Section| section_view(s))
}

/// The section of one part, if its definition names a type now.
pub open spec fn section_of(p: Part, tab: Seq<(Seq<char>, TypeV)>)
    -> Result<Option<(Seq<char>, DocView, TypeV)>, SchemaError>
{
    match p.description {
        Doc::Unparsed(_) => Err(SchemaError::Unparsed),
        Doc::Parsed(d) => if doc_since(d.rest@, d.rest@.len() as int) is None {
            Err(SchemaError::NoSince)
        } else {
            match spec_object_to_type(p.object, tab) {
                Outcome::Done(Some((n, t))) => Ok(Some((n, spec_parse_desc(d), t))),
                Outcome::Done(None) => Ok(None),
                Outcome::Retry => Ok(None),
                Outcome::Malformed => Err(SchemaError::Malformed),
            }
        },
    }
}

pub open spec fn sections_scan(parts: Seq<Part>, n: int, tab: Seq<(Seq<char>, TypeV)>)
    -> Result<Seq<(Seq<char>, DocView, TypeV)>, SchemaError>
    decreases n,
{
    if n <= 0 || n > parts.len() {
        Ok(seq![])
    } else {
        match sections_scan(parts, n - 1, tab) {
            Err(e) => Err(e),
            Ok(v) => match section_of(parts[n - 1], tab) {
                Err(e) => Err(e),
                Ok(Some(x)) => Ok(v.push(x)),
                Ok(None) => Ok(v),
            },
        }
    }
}

/// The table after `to_types`, and the sections of the parts in order.
pub open spec fn spec_to_sections(parts: Seq<Part>, tab: Seq<(Seq<char>, TypeV)>)
    -> Result<Seq<(Seq<char>, DocView, TypeV)>, SchemaError>
{
    match spec_to_types(parts, tab) {
        None => Err(SchemaError::Malformed),
        Some((t, _)) => sections_scan(parts, parts.len() as int, t),
    }
}

proof fn lemma_sections_stuck(parts: Seq<Part>, i: int, n: int, tab: Seq<(Seq<char>, TypeV)>)
    requires
        0 < i <= n <= parts.len(),
        sections_scan(parts, i, tab) is Err,
    ensures
        sections_scan(parts, n, tab) == sections_scan(parts, i, tab),
    decreases n - i,
{
    if i < n {
        lemma_sections_stuck(parts, i, n - 1, tab);
    }
}

/// Names all types the parts define (see `to_types`), then collects the
/// section of each part whose definition names a type.
pub fn to_sections(parts: &Vec<Part>, table: &mut TypeTable) -> (r: Result<Vec<Section>, SchemaError>)
    ensures
        match r {
            Ok(v) => spec_to_sections(parts@, old(table)@) == Ok::<Seq<(Seq<char>, DocView, TypeV)>, SchemaError>(sections_view(v@)),
            Err(e) => spec_to_sections(parts@, old(table)@) == Err::<Seq<(Seq<char>, DocView, TypeV)>, SchemaError>(e),
        },
{
    let ghost start = table@;
    match to_types(parts, table) {
        Ok(_) => {},
        Err(()) => return Err(SchemaError::Malformed),
    }
    let ghost tab = table@;
    let mut res: Vec<Section> = Vec::new();
    assert(sections_view(res@) =~= Seq::<(Seq<char>, DocView, TypeV)>::empty());
    let mut i: usize = 0;
    while i < parts.len()
        invariant
            i <= parts@.len(),
            tab == table@,
            spec_to_types(parts@, start) matches Some((t, _)) && t == tab,
            sections_scan(parts@, i as int, tab) == Ok::<Seq<(Seq<char>, DocView, TypeV)>, SchemaError>(sections_view(res@)),
            start == old(table)@,
        decreases parts@.len() - i,
    {
        let part = &parts[i];
        let doc = match &part.description {
            Doc::Unparsed(_) => {
                proof { lemma_sections_stuck(parts@, i as int + 1, parts@.len() as int, tab); }
                return Err(SchemaError::Unparsed);
            },
            Doc::Parsed(d) => {
                if !has_since(&d.rest) {
                    proof { lemma_sections_stuck(parts@, i as int + 1, parts@.len() as int, tab); }
                    return Err(SchemaError::NoSince);
                }
                parse_desc(d)
            },
        };
        match object_to_type(&part.object, table) {
            Outcome::Done(Some((name, typ))) => {
                let ghost before = sections_view(res@);
                let sec = Section { name, doc, typ };
                res.push(sec);
                assert(sections_view(res@) =~= before.push(section_view(sec)));
            },
            Outcome::Done(None) => {},
            Outcome::Retry => {},
            Outcome::Malformed => {
                proof { lemma_sections_stuck(parts@, i as int + 1, parts@.len() as int, tab); }
                return Err(SchemaError::Malformed);
            },
        }
        i = i + 1;
    }
    Ok(res)
}

fn has_since(rest: &Vec<Rest>) -> (r: bool)
    ensures
        r == doc_since(rest@, rest@.len() as int) is Some,
{
    let mut i: usize = rest.len();
    while i > 0
        invariant
            i <= rest@.len(),
            forall|k: int| i <= k < rest@.len() ==> !(#[trigger] rest@[k] is Since),
        decreases i,
    {
        if let Rest::Since(_) = &rest[i - 1] {
            proof { lemma_since_found(rest@, i as int, rest@.len() as int); }
            return true;
        }
        i = i - 1;
    }
    proof { lemma_since_absent(rest@, rest@.len() as int); }
    false
}

proof fn lemma_since_found(rest: Seq<Rest>, i: int, n: int)
    requires
        0 < i <= n <= rest.len(),
        rest[i - 1] is Since,
        forall|k: int| i <= k < rest.len() ==> !(#[trigger] rest[k] is Since),
    ensures
        doc_since(rest, n) is Some,
    decreases n - i,
{
    if i < n {
        lemma_since_found(rest, i, n - 1);
    }
}

proof fn lemma_since_absent(rest: Seq<Rest>, n: int)
    requires
        0 <= n <= rest.len(),
        forall|k: int| 0 <= k < rest.len() ==> !(#[trigger] rest[k] is Since),
    ensures
        doc_since(rest, n) is None,
    decreases n,
{
    if n > 0 {
        lemma_since_absent(rest, n - 1);
    }
}

// ---------------------------------------------------------------------------
// Generated documentation

pub open spec fn spaces(n: nat) -> Seq<char> {
    Seq::new(n, |_i: int| ' ')
}

/// `n` spaces.
pub fn indent(n: usize) -> (r: String)
    ensures
        r@ == spaces(n as nat),
{
    let mut s = String::new();
    let mut i: usize = 0;
    while i < n
        invariant
            i <= n,
            s@ == spaces(i as nat),
        decreases n - i,
    {
        string_push(&mut s, ' ');
        i = i + 1;
        assert(s@ =~= spaces(i as nat));
    }
    s
}

/// One line of output at the given indentation.
pub open spec fn doc_line(i: nat, s: Seq<char>) -> Seq<char> {
    spaces(i) + s + "\n"@
}

/// The example without its comment markers: `\n##` dropped, `\n#` made a
/// line break, the first character dropped, and trimmed.
pub open spec fn clean_example(ex: Seq<char>) -> Seq<char> {
    spec_trim(replace_all(replace_all(ex, "\n##"@, seq![]), "\n#"@, "\n"@).drop_first())
}

/// The example starts with a single-byte character once its markers are
/// dropped (the first byte is cut off).
pub open spec fn example_ok(ex: Seq<char>) -> bool {
    let e = replace_all(replace_all(ex, "\n##"@, seq![]), "\n#"@, "\n"@);
    e.len() > 0 && (e[0] as u32) < 128
}

/// The example with each of its lines continued as a doc comment.
pub open spec fn example_text(ex: Seq<char>, i: nat) -> Seq<char> {
    replace_all(clean_example(ex), "\n"@, "\n"@ + spaces(i) + "///"@)
}

pub open spec fn notes_text(notes: Seq<Seq<char>>, i: nat, n: int) -> Seq<char>
    decreases n,
{
    if n <= 0 {
        seq![]
    } else {
        notes_text(notes, i, n - 1) + doc_line(i, "/// Note: "@ + notes[n - 1]) + doc_line(i, "///"@)
    }
}

pub open spec fn params_text(params: Seq<(Seq<char>, Seq<char>)>, i: nat, n: int) -> Seq<char>
    decreases n,
{
    if n <= 0 {
        seq![]
    } else {
        params_text(params, i, n - 1) + doc_line(i, "/// * "@ + params[n - 1].0 + ": "@ + params[n - 1].1)
    }
}

pub open spec fn head_text(d: DocView, i: nat) -> Seq<char> {
    doc_line(i, "/// "@ + d.documentation) + doc_line(i, "///"@)
    + doc_line(i, "/// Since qemu version "@ + d.since) + doc_line(i, "///"@)
}

pub open spec fn params_block(d: DocView, i: nat) -> Seq<char> {
    if d.parameters.len() > 0 {
        doc_line(i, "/// # Parameters"@) + doc_line(i, "///"@)
        + params_text(d.parameters, i, d.parameters.len() as int) + doc_line(i, "///"@)
    } else {
        seq![]
    }
}

pub open spec fn returns_block(d: DocView, i: nat) -> Seq<char> {
    match d.returns_doc {
        Some(r) => doc_line(i, "/// # Returns "@ + r) + doc_line(i, "///"@),
        None => seq![],
    }
}

pub open spec fn example_block(d: DocView, i: nat) -> Seq<char> {
    doc_line(i, "/// # Example"@) + doc_line(i, "///"@) + doc_line(i, "/// ```"@)
    + doc_line(i, "/// "@ + example_text(d.example, i)) + doc_line(i, "/// ```"@)
}

/// The documentation comment of one section, followed by an empty line.
pub open spec fn section_text(d: DocView, i: nat) -> Seq<char> {
    head_text(d, i) + notes_text(d.notes, i, d.notes.len() as int) + params_block(d, i)
    + returns_block(d, i) + example_block(d, i) + "\n"@
}

pub open spec fn sections_text(v: Seq<Section>, i: nat, n: int) -> Seq<char>
    decreases n,
{
    if n <= 0 {
        seq![]
    } else {
        sections_text(v, i, n - 1) + section_text(doc_view(v[n - 1].doc), i)
    }
}

/// Sections that can be written: each is named like its documentation and
/// has a usable example.
pub open spec fn sections_writable(v: Seq<Section>) -> bool {
    forall|k: int| 0 <= k < v.len() ==> (#[trigger] v[k]).name@ == v[k].doc.name@ && example_ok(v[k].doc.example@)
}

fn push_line(out: &mut String, ind: &str, a: &str, b: &str)
    ensures
        final(out)@ == old(out)@ + ind@ + a@ + b@ + "\n"@,
{
    push_str(out, ind);
    push_str(out, a);
    push_str(out, b);
    push_str(out, "\n");
}

/// The example as it is written into the comment.
fn render_example(ex: &str, ind: &str, i: usize) -> (r: String)
    requires
        example_ok(ex@),
        ind@ == spaces(i as nat),
    ensures
        r@ == example_text(ex@, i as nat),
{
    proof { reveal_strlit("\n##"); reveal_strlit("\n#"); reveal_strlit("\n"); reveal_strlit(""); }
    let a = replace(ex, "\n##", "");
    assert(""@ =~= Seq::<char>::empty());
    let b = replace(a.as_str(), "\n#", "\n");
    let n = b.unicode_len();
    let tail = b.as_str().substring_char(1, n);
    assert(tail@ =~= b@.drop_first());
    let c = trim(tail);
    let mut sep = String::new();
    push_str(&mut sep, "\n");
    push_str(&mut sep, ind);
    push_str(&mut sep, "///");
    assert(sep@ =~= "\n"@ + spaces(i as nat) + "///"@);
    replace(c.as_str(), "\n", sep.as_str())
}

fn render_head(out: &mut String, d: &Documentation, ind: &str, i: usize)
    requires
        ind@ == spaces(i as nat),
    ensures
        final(out)@ == old(out)@ + head_text(doc_view(*d), i as nat),
{
    let ghost start = out@;
    push_line(out, ind, "/// ", d.documentation.as_str());
    push_line(out, ind, "///", "");
    push_line(out, ind, "/// Since qemu version ", d.since.as_str());
    push_line(out, ind, "///", "");
    proof { reveal_strlit(""); }
    assert(out@ =~= start + head_text(doc_view(*d), i as nat));
}

fn render_notes(out: &mut String, d: &Documentation, ind: &str, i: usize)
    requires
        ind@ == spaces(i as nat),
    ensures
        final(out)@ == old(out)@ + notes_text(doc_view(*d).notes, i as nat, d.notes@.len() as int),
{
    let ghost head = out@;
    let ghost iv = i as nat;
    let ghost dv = doc_view(*d);
    let mut k: usize = 0;
    assert(out@ =~= head + notes_text(dv.notes, iv, 0));
    while k < d.notes.len()
        invariant
            k <= d.notes@.len(),
            ind@ == spaces(iv),
            iv == i as nat,
            dv == doc_view(*d),
            out@ == head + notes_text(dv.notes, iv, k as int),
        decreases d.notes@.len() - k,
    {
        push_line(out, ind, "/// Note: ", d.notes[k].as_str());
        push_line(out, ind, "///", "");
        proof { reveal_strlit(""); }
        assert(dv.notes[k as int] == d.notes@[k as int]@);
        assert(out@ =~= head + notes_text(dv.notes, iv, k as int + 1));
        k = k + 1;
    }
}

fn render_params(out: &mut String, d: &Documentation, ind: &str, i: usize)
    requires
        ind@ == spaces(i as nat),
    ensures
        final(out)@ == old(out)@ + params_block(doc_view(*d), i as nat),
{
    let ghost start = out@;
    let ghost iv = i as nat;
    let ghost dv = doc_view(*d);
    if d.parameters.len() == 0 {
        assert(out@ =~= start + params_block(dv, iv));
        return;
    }
    push_line(out, ind, "/// # Parameters", "");
    push_line(out, ind, "///", "");
    proof { reveal_strlit(""); }
    let ghost before = out@;
    let mut k: usize = 0;
    assert(out@ =~= before + params_text(dv.parameters, iv, 0));
    while k < d.parameters.len()
        invariant
            k <= d.parameters@.len(),
            ind@ == spaces(iv),
            iv == i as nat,
            dv == doc_view(*d),
            out@ == before + params_text(dv.parameters, iv, k as int),
        decreases d.parameters@.len() - k,
    {
        let mut line = String::new();
        push_str(&mut line, "/// * ");
        push_str(&mut line, d.parameters[k].0.as_str());
        push_str(&mut line, ": ");
        push_str(&mut line, d.parameters[k].1.as_str());
        push_line(out, ind, line.as_str(), "");
        proof { reveal_strlit(""); }
        assert(dv.parameters[k as int] == pair_view(d.parameters@[k as int]));
        assert(out@ =~= before + params_text(dv.parameters, iv, k as int + 1));
        k = k + 1;
    }
    push_line(out, ind, "///", "");
    proof { reveal_strlit(""); }
    assert(out@ =~= start + params_block(dv, iv));
}

fn render_returns(out: &mut String, d: &Documentation, ind: &str, i: usize)
    requires
        ind@ == spaces(i as nat),
    ensures
        final(out)@ == old(out)@ + returns_block(doc_view(*d), i as nat),
{
    let ghost start = out@;
    match &d.returns_doc {
        Some(r) => {
            push_line(out, ind, "/// # Returns ", r.as_str());
            push_line(out, ind, "///", "");
        },
        None => {},
    }
    proof { reveal_strlit(""); }
    assert(out@ =~= start + returns_block(doc_view(*d), i as nat));
}

fn render_example_block(out: &mut String, d: &Documentation, ind: &str, i: usize)
    requires
        example_ok(d.example@),
        ind@ == spaces(i as nat),
    ensures
        final(out)@ == old(out)@ + example_block(doc_view(*d), i as nat),
{
    let ghost start = out@;
    push_line(out, ind, "/// # Example", "");
    push_line(out, ind, "///", "");
    push_line(out, ind, "/// ```", "");
    let ex = render_example(d.example.as_str(), ind, i);
    push_line(out, ind, "/// ", ex.as_str());
    push_line(out, ind, "/// ```", "");
    proof { reveal_strlit(""); }
    assert(out@ =~= start + example_block(doc_view(*d), i as nat));
}

fn render_section(out: &mut String, d: &Documentation, ind: &str, i: usize)
    requires
        example_ok(d.example@),
        ind@ == spaces(i as nat),
    ensures
        final(out)@ == old(out)@ + section_text(doc_view(*d), i as nat),
{
    let ghost start = out@;
    render_head(out, d, ind, i);
    render_notes(out, d, ind, i);
    render_params(out, d, ind, i);
    render_returns(out, d, ind, i);
    render_example_block(out, d, ind, i);
    push_str(out, "\n");
    assert(out@ =~= start + section_text(doc_view(*d), i as nat));
}

/// The documentation comments generated for the sections, at the given
/// indentation. The types themselves are not written out.
pub fn render_sections(sections: &Vec<Section>, i: usize) -> (r: String)
    requires
        sections_writable(sections@),
    ensures
        r@ == sections_text(sections@, i as nat, sections@.len() as int),
{
    let ind = indent(i);
    let mut out = String::new();
    let mut k: usize = 0;
    while k < sections.len()
        invariant
            k <= sections@.len(),
            ind@ == spaces(i as nat),
            sections_writable(sections@),
            out@ == sections_text(sections@, i as nat, k as int),
        decreases sections@.len() - k,
    {
        assert(example_ok(sections@[k as int].doc.example@));
        render_section(&mut out, &sections[k].doc, ind.as_str(), i);
        k = k + 1;
    }
    out
}

proof fn lemma_tv_get_push(tab: Seq<(Seq<char>, TypeV)>, x: (Seq<char>, TypeV), k: Seq<char>, n: int)
    requires
        0 <= n <= tab.len(),
    ensures
        tv_get(tab.push(x), k, n) == tv_get(tab, k, n),
    decreases n,
{
    if n > 0 {
        lemma_tv_get_push(tab, x, k, n - 1);
    }
}

/// Reading a name from the table gives the type last written for it;
/// writing leaves the other names as they were.
pub proof fn law_table_read_after_write(tab: Seq<(Seq<char>, TypeV)>, name: Seq<char>, t: TypeV, other: Seq<char>)
    ensures
        lookup(tab.push((name, t)), name) == Some(t),
        other != name ==> lookup(tab.push((name, t)), other) == lookup(tab, other),
{
    lemma_tv_get_push(tab, (name, t), other, tab.len() as int);
}

} // verus!

