use vstd::prelude::*;

use std::hash::{Hash, Hasher};

use crate::ast::{copy_idents, idents_v, stmts_v, BlockStatement, Expression, Identifier, SBlock, SExpr, SIdent};
use crate::display::{block_str, expr_str, join_idents, stmts_str, write_expr, write_idents, write_stmts};
use crate::environment::EnvironmentRef;
use crate::text::{i64_text, int_text, owned, push_str};

verus! {

/// The type of a runtime value.
#[derive(Clone, Copy, Debug, PartialEq, Eq, Hash, Structural)]
pub enum ObjectType {
    Integer,
    Boolean,
    Null,
    ReturnValue,
    Error,
    Function,
    String,
    Builtin,
    Array,
    Hash,
    Quote,
    Macro,
}

/// The name of a value type, as messages print it.
pub open spec fn type_text(t: ObjectType) -> Seq<char> {
    match t {
        ObjectType::Integer => "INTEGER"@,
        ObjectType::Boolean => "BOOLEAN"@,
        ObjectType::Null => "NULL"@,
        ObjectType::ReturnValue => "RETURN_VALUE"@,
        ObjectType::Error => "ERROR"@,
        ObjectType::Function => "FUNCTION"@,
        ObjectType::String => "STRING"@,
        ObjectType::Builtin => "BUILTIN"@,
        ObjectType::Array => "ARRAY"@,
        ObjectType::Hash => "HASH"@,
        ObjectType::Quote => "QUOTE"@,
        ObjectType::Macro => "MACRO"@,
    }
}

impl ObjectType {
    /// The name of this type, as messages print it.
    pub fn name(&self) -> (s: String)
        ensures
            s@ == type_text(*self),
    {
        let t: &str = match self {
            ObjectType::Integer => "INTEGER",
            ObjectType::Boolean => "BOOLEAN",
            ObjectType::Null => "NULL",
            ObjectType::ReturnValue => "RETURN_VALUE",
            ObjectType::Error => "ERROR",
            ObjectType::Function => "FUNCTION",
            ObjectType::String => "STRING",
            ObjectType::Builtin => "BUILTIN",
            ObjectType::Array => "ARRAY",
            ObjectType::Hash => "HASH",
            ObjectType::Quote => "QUOTE",
            ObjectType::Macro => "MACRO",
        };
        owned(t)
    }
}

/// The functions that the language provides.
#[derive(Clone, Copy, Debug, PartialEq, Eq, Hash, Structural)]
pub enum Builtin {
    Len,
    First,
    Last,
    Rest,
    Push,
    Puts,
}

/// The key under which a hash stores a value: the key's type and a number.
#[derive(Clone, Copy, Debug, PartialEq, Eq, Hash, Structural)]
pub struct HashKey {
    pub object_type: ObjectType,
    pub value: u64,
}

impl HashKey {
    /// A key of the given type and number.
    pub fn new(object_type: ObjectType, value: u64) -> (k: HashKey)
        ensures
            k == (HashKey { object_type, value }),
    {
        HashKey { object_type, value }
    }

    /// The type of the key.
    pub fn object_type(&self) -> (t: &ObjectType)
        ensures
            *t == self.object_type,
    {
        &self.object_type
    }

    /// The number of the key.
    pub fn value(&self) -> (v: u64)
        ensures
            v == self.value,
    {
        self.value
    }
}

/// A key and its value in a hash.
#[derive(Debug, PartialEq, Eq)]
pub struct HashPair {
    pub key: Object,
    pub value: Object,
}

/// One entry of a hash: where it is stored, and the key and value.
#[derive(Debug, PartialEq, Eq)]
pub struct HashEntry {
    pub hash_key: HashKey,
    pub pair: HashPair,
}

/// The entries of a hash, in the order their keys were first inserted; no key occurs twice.
#[derive(Debug, PartialEq, Eq)]
pub struct HashPairs {
    entries: Vec<HashEntry>,
}

/// A runtime value.
#[derive(Debug, PartialEq, Eq)]
pub enum Object {
    Integer(i64),
    Boolean(bool),
    Null,
    ReturnValue(Box<Object>),
    Error(String),
    Function { parameters: Vec<Identifier>, body: BlockStatement, env: EnvironmentRef },
    String(String),
    Builtin(Builtin),
    Array(Vec<Object>),
    Hash(HashPairs),
    Quote(Expression),
    Macro { parameters: Vec<Identifier>, body: BlockStatement, env: EnvironmentRef },
}

/// The abstract value of a hash entry.
pub struct SEntry {
    pub hash_key: HashKey,
    pub key: SObject,
    pub value: SObject,
}

/// The abstract value of a runtime value.
pub enum SObject {
    Integer(i64),
    Boolean(bool),
    Null,
    ReturnValue(Box<SObject>),
    Error(Seq<char>),
    Function { parameters: Seq<SIdent>, body: SBlock, env: nat },
    String(Seq<char>),
    Builtin(Builtin),
    Array(Seq<SObject>),
    Hash(Seq<SEntry>),
    Quote(SExpr),
    Macro { parameters: Seq<SIdent>, body: SBlock, env: nat },
}

/// The abstract value of a runtime value.
pub open spec fn obj_v(o: Object) -> SObject
    decreases o,
{
    match o {
        Object::Integer(i) => SObject::Integer(i),
        Object::Boolean(b) => SObject::Boolean(b),
        Object::Null => SObject::Null,
        Object::ReturnValue(v) => SObject::ReturnValue(Box::new(obj_v(*v))),
        Object::Error(m) => SObject::Error(m@),
        Object::Function { parameters, body, env } => SObject::Function {
            parameters: idents_v(parameters@),
            body: body@,
            env: env.index as nat,
        },
        Object::String(s) => SObject::String(s@),
        Object::Builtin(b) => SObject::Builtin(b),
        Object::Array(v) => SObject::Array(objs_v(v@)),
        Object::Hash(h) => SObject::Hash(hash_entries(h)),
        Object::Quote(e) => SObject::Quote(e@),
        Object::Macro { parameters, body, env } => SObject::Macro {
            parameters: idents_v(parameters@),
            body: body@,
            env: env.index as nat,
        },
    }
}

/// The abstract values of a list of runtime values.
pub open spec fn objs_v(s: Seq<Object>) -> Seq<SObject>
    decreases s,
{
    if s.len() == 0 {
        Seq::empty()
    } else {
        objs_v(s.drop_last()).push(obj_v(s.last()))
    }
}

/// The abstract values of the entries that a hash stores.
pub closed spec fn hash_entries(h: HashPairs) -> Seq<SEntry>
    decreases h,
{
    entries_v(h.entries@)
}

/// The abstract values of the entries of a hash.
pub open spec fn entries_v(s: Seq<HashEntry>) -> Seq<SEntry>
    decreases s,
{
    if s.len() == 0 {
        Seq::empty()
    } else {
        entries_v(s.drop_last()).push(
            SEntry {
                hash_key: s.last().hash_key,
                key: obj_v(s.last().pair.key),
                value: obj_v(s.last().pair.value),
            },
        )
    }
}

impl View for Object {
    type V = SObject;

    open spec fn view(&self) -> SObject {
        obj_v(*self)
    }
}

impl View for HashPair {
    type V = (SObject, SObject);

    open spec fn view(&self) -> (SObject, SObject) {
        (obj_v(self.key), obj_v(self.value))
    }
}

impl View for HashPairs {
    type V = Seq<SEntry>;

    open spec fn view(&self) -> Seq<SEntry> {
        hash_entries(*self)
    }
}

/// Whether no key is stored twice among the entries.
pub open spec fn keys_distinct(s: Seq<SEntry>) -> bool {
    forall|i: int, j: int| 0 <= i < j < s.len() ==> #[trigger] s[i].hash_key != #[trigger] s[j].hash_key
}

impl HashPairs {
    /// No key is stored twice.
    #[verifier::type_invariant]
    spec fn keys_stored_once(self) -> bool {
        keys_distinct(self@)
    }
}

pub proof fn lemma_objs_v(s: Seq<Object>)
    ensures
        objs_v(s).len() == s.len(),
        forall|i: int| 0 <= i < s.len() ==> #[trigger] objs_v(s)[i] == obj_v(s[i]),
    decreases s.len(),
{
    if s.len() > 0 {
        lemma_objs_v(s.drop_last());
    }
}

pub proof fn lemma_entries_v(s: Seq<HashEntry>)
    ensures
        entries_v(s).len() == s.len(),
        forall|i: int| 0 <= i < s.len() ==> #[trigger] entries_v(s)[i] == (SEntry {
            hash_key: s[i].hash_key,
            key: obj_v(s[i].pair.key),
            value: obj_v(s[i].pair.value),
        }),
    decreases s.len(),
{
    if s.len() > 0 {
        lemma_entries_v(s.drop_last());
    }
}

/// The type of a runtime value.
pub open spec fn obj_type(o: SObject) -> ObjectType {
    match o {
        SObject::Integer(_) => ObjectType::Integer,
        SObject::Boolean(_) => ObjectType::Boolean,
        SObject::Null => ObjectType::Null,
        SObject::ReturnValue(_) => ObjectType::ReturnValue,
        SObject::Error(_) => ObjectType::Error,
        SObject::Function { .. } => ObjectType::Function,
        SObject::String(_) => ObjectType::String,
        SObject::Builtin(_) => ObjectType::Builtin,
        SObject::Array(_) => ObjectType::Array,
        SObject::Hash(_) => ObjectType::Hash,
        SObject::Quote(_) => ObjectType::Quote,
        SObject::Macro { .. } => ObjectType::Macro,
    }
}

/// The number that `DefaultHasher` gives a string (a function of the string alone).
pub uninterp spec fn text_hash(s: Seq<char>) -> u64;

/// Hashes a string with a freshly made `std::collections::hash_map::DefaultHasher`, whose
/// keys are fixed; the result is named, and nothing more is stated of it.
#[verifier::external_body]
fn hash_text(s: &String) -> (h: u64)
    ensures
        h == text_hash(s@),
{
    let mut hasher = std::collections::hash_map::DefaultHasher::new();
    Hash::hash(s, &mut hasher);
    hasher.finish()
}

/// The message for a value that cannot be a hash key.
pub open spec fn unusable_key_msg(t: ObjectType) -> Seq<char> {
    "unusable as hash key: "@ + type_text(t)
}

/// The hash key of a value: booleans, integers and strings have one; other values do not.
pub open spec fn hash_key_of(o: SObject) -> Result<HashKey, Seq<char>> {
    match o {
        SObject::Boolean(b) => Ok(HashKey { object_type: ObjectType::Boolean, value: if b { 1 } else { 0 } }),
        SObject::Integer(i) => Ok(HashKey { object_type: ObjectType::Integer, value: i as u64 }),
        SObject::String(s) => Ok(HashKey { object_type: ObjectType::String, value: text_hash(s) }),
        _ => Err(unusable_key_msg(obj_type(o))),
    }
}

/// `"TRUE"` or `"FALSE"`.
pub open spec fn upper_bool_text(b: bool) -> Seq<char> {
    if b { "TRUE"@ } else { "FALSE"@ }
}

/// How the interpreter shows a value.
pub open spec fn inspect(o: SObject) -> Seq<char>
    decreases o,
{
    match o {
        SObject::Integer(i) => int_text(i as int),
        SObject::Boolean(b) => upper_bool_text(b),
        SObject::Null => "NULL"@,
        SObject::ReturnValue(v) => inspect(*v),
        SObject::Error(m) => "ERROR: "@ + m,
        SObject::Function { parameters, body, .. } => "fn("@ + join_idents(parameters) + ") {\n"@
            + block_str(body) + "\n}"@,
        SObject::String(s) => s,
        SObject::Builtin(_) => "builtin function"@,
        SObject::Array(v) => "["@ + join_inspect(v) + "]"@,
        SObject::Hash(es) => "{"@ + join_entries(es) + "}"@,
        SObject::Quote(e) => "QUOTE("@ + expr_str(e) + ")"@,
        SObject::Macro { parameters, body, .. } => "macro("@ + join_idents(parameters) + ") {\n"@
            + block_str(body) + "\n}"@,
    }
}

/// How the interpreter shows values, separated by `", "`.
pub open spec fn join_inspect(s: Seq<SObject>) -> Seq<char>
    decreases s,
{
    if s.len() == 0 {
        Seq::empty()
    } else if s.len() == 1 {
        inspect(s[0])
    } else {
        join_inspect(s.drop_last()) + ", "@ + inspect(s.last())
    }
}

/// How the interpreter shows one entry of a hash: `key: value`.
pub open spec fn entry_text(e: SEntry) -> Seq<char>
    decreases e,
{
    inspect(e.key) + ": "@ + inspect(e.value)
}

/// How the interpreter shows the entries of a hash, separated by `", "`.
pub open spec fn join_entries(s: Seq<SEntry>) -> Seq<char>
    decreases s,
{
    if s.len() == 0 {
        Seq::empty()
    } else if s.len() == 1 {
        entry_text(s[0])
    } else {
        join_entries(s.drop_last()) + ", "@ + entry_text(s.last())
    }
}

// ---------------------------------------------------------------------------
// Operations on values
// ---------------------------------------------------------------------------

fn copy_objects(v: &Vec<Object>) -> (r: Vec<Object>)
    ensures
        objs_v(r@) == objs_v(v@),
    decreases v, 1int,
{
    let mut r: Vec<Object> = Vec::new();
    let mut i: usize = 0;
    while i < v.len()
        invariant
            i <= v.len(),
            r@.len() == i,
            forall|j: int| 0 <= j < i ==> #[trigger] obj_v(r@[j]) == obj_v(v@[j]),
        decreases v.len() - i,
    {
        let o = v[i].duplicate();
        r.push(o);
        i = i + 1;
    }
    proof {
        lemma_objs_v(r@);
        lemma_objs_v(v@);
        assert(objs_v(r@) =~= objs_v(v@));
    }
    r
}

fn copy_entries(v: &Vec<HashEntry>) -> (r: Vec<HashEntry>)
    ensures
        entries_v(r@) == entries_v(v@),
    decreases v, 1int,
{
    let mut r: Vec<HashEntry> = Vec::new();
    let mut i: usize = 0;
    while i < v.len()
        invariant
            i <= v.len(),
            r@.len() == i,
            forall|j: int|
                0 <= j < i ==> #[trigger] r@[j].hash_key == v@[j].hash_key && obj_v(r@[j].pair.key)
                    == obj_v(v@[j].pair.key) && obj_v(r@[j].pair.value) == obj_v(v@[j].pair.value),
        decreases v.len() - i,
    {
        let key = v[i].pair.key.duplicate();
        let value = v[i].pair.value.duplicate();
        r.push(HashEntry { hash_key: v[i].hash_key, pair: HashPair { key, value } });
        i = i + 1;
    }
    proof {
        lemma_entries_v(r@);
        lemma_entries_v(v@);
        assert(entries_v(r@) =~= entries_v(v@));
    }
    r
}

/// The text of a list of values, as the interpreter shows them.
fn write_objects(v: &Vec<Object>, out: &mut String)
    ensures
        final(out)@ == old(out)@ + join_inspect(objs_v(v@)),
    decreases v, 1int,
{
    let ghost sv = objs_v(v@);
    let ghost base = out@;
    proof {
        lemma_objs_v(v@);
    }
    let mut i: usize = 0;
    while i < v.len()
        invariant
            i <= v.len(),
            sv == objs_v(v@),
            sv.len() == v@.len(),
            forall|j: int| 0 <= j < v@.len() ==> #[trigger] sv[j] == obj_v(v@[j]),
            out@ == base + join_inspect(sv.take(i as int)),
        decreases v.len() - i,
    {
        proof {
            assert(sv.take(i + 1).drop_last() =~= sv.take(i as int));
            assert(sv.take(i + 1).last() == sv[i as int]);
            if i == 0 {
                assert(sv.take(1)[0] == sv[0]);
            }
        }
        if i > 0 {
            push_str(out, ", ");
        }
        write_object(&v[i], out);
        i = i + 1;
    }
    proof {
        assert(sv.take(v.len() as int) =~= sv);
    }
}

/// The text of the entries of a hash, as the interpreter shows them.
fn write_entries(v: &Vec<HashEntry>, out: &mut String)
    ensures
        final(out)@ == old(out)@ + join_entries(entries_v(v@)),
    decreases v, 1int,
{
    let ghost sv = entries_v(v@);
    let ghost base = out@;
    proof {
        lemma_entries_v(v@);
    }
    let mut i: usize = 0;
    while i < v.len()
        invariant
            i <= v.len(),
            sv == entries_v(v@),
            sv.len() == v@.len(),
            forall|j: int|
                0 <= j < v@.len() ==> #[trigger] sv[j] == (SEntry {
                    hash_key: v@[j].hash_key,
                    key: obj_v(v@[j].pair.key),
                    value: obj_v(v@[j].pair.value),
                }),
            out@ == base + join_entries(sv.take(i as int)),
        decreases v.len() - i,
    {
        proof {
            assert(sv.take(i + 1).drop_last() =~= sv.take(i as int));
            assert(sv.take(i + 1).last() == sv[i as int]);
            if i == 0 {
                assert(sv.take(1)[0] == sv[0]);
            }
        }
        let ghost o = out@;
        if i > 0 {
            push_str(out, ", ");
        }
        let ghost o2 = out@;
        write_object(&v[i].pair.key, out);
        push_str(out, ": ");
        write_object(&v[i].pair.value, out);
        proof {
            let e = sv[i as int];
            assert(out@ =~= o2 + entry_text(e));
        }
        i = i + 1;
    }
    proof {
        assert(sv.take(v.len() as int) =~= sv);
    }
}

fn write_object(o: &Object, out: &mut String)
    ensures
        final(out)@ == old(out)@ + inspect(o@),
    decreases o, 2int,
{
    let ghost base = out@;
    match o {
        Object::Integer(i) => {
            let t = i64_text(*i);
            push_str(out, t.as_str());
        },
        Object::Boolean(b) => {
            if *b {
                push_str(out, "TRUE");
            } else {
                push_str(out, "FALSE");
            }
        },
        Object::Null => push_str(out, "NULL"),
        Object::ReturnValue(v) => write_object(v, out),
        Object::Error(m) => {
            push_str(out, "ERROR: ");
            push_str(out, m.as_str());
            assert(out@ =~= base + inspect(o@));
        },
        Object::Function { parameters, body, .. } => {
            push_str(out, "fn(");
            write_idents(parameters, out);
            push_str(out, ") {\n");
            write_stmts(&body.statements, out);
            push_str(out, "\n}");
            assert(block_str(body@) == stmts_str(stmts_v(body.statements@)));
            assert(out@ =~= base + inspect(o@));
        },
        Object::String(s) => push_str(out, s.as_str()),
        Object::Builtin(_) => push_str(out, "builtin function"),
        Object::Array(v) => {
            push_str(out, "[");
            write_objects(v, out);
            push_str(out, "]");
            assert(out@ =~= base + inspect(o@));
        },
        Object::Hash(h) => {
            push_str(out, "{");
            write_entries(&h.entries, out);
            push_str(out, "}");
            assert(o@ == SObject::Hash(hash_entries(*h)));
            assert(hash_entries(*h) == entries_v(h.entries@));
            assert(out@ =~= base + inspect(o@));
        },
        Object::Quote(e) => {
            push_str(out, "QUOTE(");
            write_expr(e, out);
            push_str(out, ")");
            assert(out@ =~= base + inspect(o@));
        },
        Object::Macro { parameters, body, .. } => {
            push_str(out, "macro(");
            write_idents(parameters, out);
            push_str(out, ") {\n");
            write_stmts(&body.statements, out);
            push_str(out, "\n}");
            assert(block_str(body@) == stmts_str(stmts_v(body.statements@)));
            assert(out@ =~= base + inspect(o@));
        },
    }
}

impl Object {
    /// The type of this value.
    pub fn object_type(&self) -> (t: ObjectType)
        ensures
            t == obj_type(self@),
    {
        match self {
            Object::Integer(_) => ObjectType::Integer,
            Object::Boolean(_) => ObjectType::Boolean,
            Object::Null => ObjectType::Null,
            Object::ReturnValue(_) => ObjectType::ReturnValue,
            Object::Error(_) => ObjectType::Error,
            Object::Function { .. } => ObjectType::Function,
            Object::String(_) => ObjectType::String,
            Object::Builtin(_) => ObjectType::Builtin,
            Object::Array(_) => ObjectType::Array,
            Object::Hash(_) => ObjectType::Hash,
            Object::Quote(_) => ObjectType::Quote,
            Object::Macro { .. } => ObjectType::Macro,
        }
    }

    /// A copy of this value; a function or macro in it keeps the environment it refers to.
    pub fn duplicate(&self) -> (r: Object)
        ensures
            r@ == self@,
        decreases self, 2int,
    {
        match self {
            Object::Integer(i) => Object::Integer(*i),
            Object::Boolean(b) => Object::Boolean(*b),
            Object::Null => Object::Null,
            Object::ReturnValue(v) => Object::ReturnValue(Box::new(v.duplicate())),
            Object::Error(m) => Object::Error(m.clone()),
            Object::Function { parameters, body, env } => Object::Function {
                parameters: copy_idents(parameters),
                body: body.duplicate(),
                env: *env,
            },
            Object::String(s) => Object::String(s.clone()),
            Object::Builtin(b) => Object::Builtin(*b),
            Object::Array(v) => Object::Array(copy_objects(v)),
            Object::Hash(h) => {
                proof {
                    use_type_invariant(h);
                }
                Object::Hash(HashPairs { entries: copy_entries(&h.entries) })
            },
            Object::Quote(e) => Object::Quote(e.duplicate()),
            Object::Macro { parameters, body, env } => Object::Macro {
                parameters: copy_idents(parameters),
                body: body.duplicate(),
                env: *env,
            },
        }
    }

    /// How the interpreter shows this value.
    pub fn inspect(&self) -> (s: String)
        ensures
            s@ == inspect(self@),
    {
        let mut s = String::new();
        write_object(self, &mut s);
        s
    }

    /// The key under which this value is stored in a hash, or the message saying that it
    /// cannot be one.
    pub fn hash_key(&self) -> (r: Result<HashKey, String>)
        ensures
            match (r, hash_key_of(self@)) {
                (Ok(k), Ok(k2)) => k == k2,
                (Err(m), Err(m2)) => m@ == m2,
                _ => false,
            },
    {
        match self {
            Object::Boolean(b) => Ok(HashKey::new(ObjectType::Boolean, if *b { 1 } else { 0 })),
            Object::Integer(i) => Ok(HashKey::new(ObjectType::Integer, *i as u64)),
            Object::String(s) => Ok(HashKey::new(ObjectType::String, hash_text(s))),
            _ => {
                let mut m = owned("unusable as hash key: ");
                let t = self.object_type().name();
                push_str(&mut m, t.as_str());
                Err(m)
            },
        }
    }
}

impl HashPair {
    /// A key and its value.
    pub fn new(key: Object, value: Object) -> (p: HashPair)
        ensures
            p@ == (key@, value@),
    {
        HashPair { key, value }
    }

    /// The key.
    pub fn key(&self) -> (k: &Object)
        ensures
            k@ == self@.0,
    {
        &self.key
    }

    /// The value.
    pub fn value(&self) -> (v: &Object)
        ensures
            v@ == self@.1,
    {
        &self.value
    }
}

/// The index of the entry stored under `k`, or -1.
pub open spec fn key_index(s: Seq<SEntry>, k: HashKey) -> int
    decreases s.len(),
{
    if s.len() == 0 {
        -1
    } else if s.last().hash_key == k {
        s.len() - 1
    } else {
        key_index(s.drop_last(), k)
    }
}

/// The key and value stored under `k`, if any.
pub open spec fn hash_get(s: Seq<SEntry>, k: HashKey) -> Option<(SObject, SObject)> {
    let i = key_index(s, k);
    if i >= 0 {
        Some((s[i].key, s[i].value))
    } else {
        None
    }
}

/// The entries with `(key, value)` stored under `k`: in place of the entry that was stored
/// there, or after the others.
pub open spec fn hash_put(s: Seq<SEntry>, k: HashKey, kv: (SObject, SObject)) -> Seq<SEntry> {
    let e = SEntry { hash_key: k, key: kv.0, value: kv.1 };
    let i = key_index(s, k);
    if i >= 0 {
        s.update(i, e)
    } else {
        s.push(e)
    }
}

pub proof fn lemma_key_index(s: Seq<SEntry>, k: HashKey)
    ensures
        -1 <= key_index(s, k) < s.len(),
        key_index(s, k) >= 0 ==> s[key_index(s, k)].hash_key == k,
        key_index(s, k) < 0 ==> forall|j: int| 0 <= j < s.len() ==> #[trigger] s[j].hash_key != k,
    decreases s.len(),
{
    if s.len() > 0 {
        lemma_key_index(s.drop_last(), k);
        if key_index(s, k) < 0 {
            assert forall|j: int| 0 <= j < s.len() implies #[trigger] s[j].hash_key != k by {
                if j < s.len() - 1 {
                    assert(s[j] == s.drop_last()[j]);
                }
            }
        }
    }
}

/// The position of a key depends on the keys alone.
proof fn lemma_key_index_keys(s1: Seq<SEntry>, s2: Seq<SEntry>, k: HashKey)
    requires
        s1.len() == s2.len(),
        forall|j: int| 0 <= j < s1.len() ==> #[trigger] s1[j].hash_key == s2[j].hash_key,
    ensures
        key_index(s1, k) == key_index(s2, k),
    decreases s1.len(),
{
    if s1.len() > 0 {
        lemma_key_index_keys(s1.drop_last(), s2.drop_last(), k);
    }
}

/// A hash read at the key just stored gives back the key and value stored; a read at another
/// key gives what it gave before; the number of entries grows by one for a new key only; and
/// entries that store each key once go on doing so.
pub proof fn law_hash_read_after_write(s: Seq<SEntry>, k: HashKey, kv: (SObject, SObject), other: HashKey)
    ensures
        hash_get(hash_put(s, k, kv), k) == Some(kv),
        other != k ==> hash_get(hash_put(s, k, kv), other) == hash_get(s, other),
        hash_put(s, k, kv).len() == s.len() + if hash_get(s, k) is Some { 0int } else { 1int },
        keys_distinct(s) ==> keys_distinct(hash_put(s, k, kv)),
{
    lemma_key_index(s, k);
    lemma_key_index(s, other);
    let t = hash_put(s, k, kv);
    let e = SEntry { hash_key: k, key: kv.0, value: kv.1 };
    let i = key_index(s, k);
    if i >= 0 {
        assert forall|j: int| 0 <= j < t.len() implies #[trigger] t[j].hash_key == s[j].hash_key by {}
        lemma_key_index_keys(t, s, k);
        lemma_key_index_keys(t, s, other);
    } else {
        assert(t.drop_last() =~= s);
        assert(t.last() == e);
        if other != k {
            assert(key_index(t, other) == key_index(s, other));
            lemma_key_index(s, other);
        }
        if keys_distinct(s) {
            assert forall|a: int, b: int| 0 <= a < b < t.len() implies #[trigger] t[a].hash_key
                != #[trigger] t[b].hash_key by {
                assert(t[a] == s[a]);
                if b < s.len() {
                    assert(t[b] == s[b]);
                }
            }
        }
    }
}

impl HashPairs {
    /// A hash with no entries.
    pub fn new() -> (h: HashPairs)
        ensures
            h@ == Seq::<SEntry>::empty(),
            keys_distinct(h@),
    {
        HashPairs { entries: Vec::new() }
    }

    /// The number of entries.
    pub fn len(&self) -> (n: usize)
        ensures
            n == self@.len(),
            keys_distinct(self@),
    {
        proof {
            use_type_invariant(self);
            lemma_entries_v(self.entries@);
        }
        self.entries.len()
    }

    fn find(&self, key: &HashKey) -> (r: Option<usize>)
        ensures
            match r {
                Some(i) => i == key_index(self@, *key) && i < self.entries@.len(),
                None => key_index(self@, *key) == -1,
            },
    {
        proof {
            lemma_entries_v(self.entries@);
        }
        let ghost s = self@;
        let mut j: usize = self.entries.len();
        assert(s.take(j as int) =~= s);
        while j > 0
            invariant
                j <= self.entries@.len(),
                s == self@,
                s.len() == self.entries@.len(),
                forall|m: int|
                    0 <= m < self.entries@.len() ==> #[trigger] s[m].hash_key
                        == self.entries@[m].hash_key,
                key_index(s.take(j as int), *key) == key_index(s, *key),
            decreases j,
        {
            proof {
                assert(s.take(j as int).drop_last() =~= s.take(j - 1));
                assert(s.take(j as int).last() == s[j - 1]);
            }
            if self.entries[j - 1].hash_key == *key {
                return Some(j - 1);
            }
            j = j - 1;
        }
        None
    }

    /// The key and value stored under `key`, if any.
    pub fn get(&self, key: &HashKey) -> (r: Option<&HashPair>)
        ensures
            match r {
                Some(p) => hash_get(self@, *key) == Some(p@),
                None => hash_get(self@, *key) is None,
            },
    {
        proof {
            lemma_entries_v(self.entries@);
        }
        match self.find(key) {
            Some(i) => Some(&self.entries[i].pair),
            None => None,
        }
    }

    /// Stores `pair` under `key`, in place of what was stored there.
    pub fn insert(&mut self, key: HashKey, pair: HashPair)
        ensures
            final(self)@ == hash_put(old(self)@, key, pair@),
            keys_distinct(final(self)@),
    {
        proof {
            use_type_invariant(&*self);
            lemma_entries_v(self.entries@);
        }
        let ghost s = self@;
        let ghost kv = pair@;
        let found = self.find(&key);
        let mut entries: Vec<HashEntry> = Vec::new();
        std::mem::swap(&mut entries, &mut self.entries);
        match found {
            Some(i) => {
                entries.set(i, HashEntry { hash_key: key, pair });
            },
            None => {
                entries.push(HashEntry { hash_key: key, pair });
            },
        }
        proof {
            lemma_entries_v(entries@);
            assert(entries_v(entries@) =~= hash_put(s, key, kv));
            law_hash_read_after_write(s, key, kv, key);
        }
        self.entries = entries;
    }
}

} // verus!
