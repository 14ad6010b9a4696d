//! Runtime values: a closed sum of kinds, the view of each value, its kind
//! name, its canonical text, and the equality that `==` and hash keys use.

use vstd::prelude::*;
use vstd::string::*;
use crate::ast::{
    append_names, append_statements, block_text, bool_str, bool_text, stmts_view, BlockStatement,
    StmtView,
};
use crate::text::{append_i64, clone_strings, decimal, join, lemma_join_step, strings_view};

verus! {

/// The native functions that every global environment starts with.
#[derive(Clone, Copy, Debug, PartialEq, Eq, Structural)]
pub enum BuiltinFunction {
    Len,
    First,
    Last,
    Rest,
    Push,
    Puts,
}

/// A value that may serve as a key of a hash: an integer, a boolean or a
/// string, compared by value.
#[derive(Debug)]
pub enum HashKey {
    Integer(i64),
    Boolean(bool),
    Str(String),
}

pub enum HashKeyView {
    Integer(i64),
    Boolean(bool),
    Str(Seq<char>),
}

/// A runtime value.
///
/// `ReturnValue` and `Error` are signals: evaluation forwards them and never
/// looks inside. A `Function` names the frame it was defined in by that
/// frame's index in the environment store, so every holder of the function
/// sees the same frame.
#[derive(Debug)]
pub enum Object {
    Integer(i64),
    Boolean(bool),
    StringObj(String),
    Null,
    ReturnValue(Box<Object>),
    Error(String),
    Function { parameters: Vec<String>, body: BlockStatement, env: usize },
    Builtin(BuiltinFunction),
    Array(Vec<Object>),
    Hash(Vec<(HashKey, Object)>),
}

pub enum ObjectView {
    Integer(i64),
    Boolean(bool),
    Str(Seq<char>),
    Null,
    ReturnValue(Box<ObjectView>),
    Error(Seq<char>),
    Function { parameters: Seq<Seq<char>>, body: Seq<StmtView>, env: nat },
    Builtin(BuiltinFunction),
    Array(Seq<ObjectView>),
    Hash(Seq<(HashKeyView, ObjectView)>),
}

pub open spec fn key_view(k: HashKey) -> HashKeyView {
    match k {
        HashKey::Integer(v) => HashKeyView::Integer(v),
        HashKey::Boolean(b) => HashKeyView::Boolean(b),
        HashKey::Str(s) => HashKeyView::Str(s@),
    }
}

pub open spec fn object_view(o: Object) -> ObjectView
    decreases o,
{
    match o {
        Object::Integer(v) => ObjectView::Integer(v),
        Object::Boolean(b) => ObjectView::Boolean(b),
        Object::StringObj(s) => ObjectView::Str(s@),
        Object::Null => ObjectView::Null,
        Object::ReturnValue(inner) => ObjectView::ReturnValue(Box::new(object_view(*inner))),
        Object::Error(message) => ObjectView::Error(message@),
        Object::Function { parameters, body, env } => ObjectView::Function {
            parameters: strings_view(parameters@),
            body: stmts_view(body.statements@),
            env: env as nat,
        },
        Object::Builtin(f) => ObjectView::Builtin(f),
        Object::Array(elements) => ObjectView::Array(objects_view(elements@)),
        Object::Hash(pairs) => ObjectView::Hash(hash_pairs_view(pairs@)),
    }
}

pub open spec fn objects_view(os: Seq<Object>) -> Seq<ObjectView>
    decreases os,
{
    Seq::new(
        os.len(),
        |i: int|
            if 0 <= i < os.len() {
                object_view(os[i])
            } else {
                arbitrary()
            },
    )
}

pub open spec fn hash_pairs_view(ps: Seq<(HashKey, Object)>) -> Seq<(HashKeyView, ObjectView)>
    decreases ps,
{
    Seq::new(
        ps.len(),
        |i: int|
            if 0 <= i < ps.len() {
                (key_view(ps[i].0), object_view(ps[i].1))
            } else {
                arbitrary()
            },
    )
}

impl View for HashKey {
    type V = HashKeyView;

    open spec fn view(&self) -> HashKeyView {
        key_view(*self)
    }
}

impl View for Object {
    type V = ObjectView;

    open spec fn view(&self) -> ObjectView {
        object_view(*self)
    }
}

/// The name of a value's kind, as error messages show it.
pub open spec fn kind_name(o: ObjectView) -> Seq<char> {
    match o {
        ObjectView::Integer(_) => "INTEGER"@,
        ObjectView::Boolean(_) => "BOOLEAN"@,
        ObjectView::Str(_) => "STRING"@,
        ObjectView::Null => "NULL"@,
        ObjectView::ReturnValue(_) => "RETURN_VALUE"@,
        ObjectView::Error(_) => "ERROR"@,
        ObjectView::Function { .. } => "FUNCTION"@,
        ObjectView::Builtin(_) => "BUILTIN"@,
        ObjectView::Array(_) => "ARRAY"@,
        ObjectView::Hash(_) => "HASH"@,
    }
}

/// Whether two values are of the same kind.
pub open spec fn same_kind(a: ObjectView, b: ObjectView) -> bool {
    match a {
        ObjectView::Integer(_) => b is Integer,
        ObjectView::Boolean(_) => b is Boolean,
        ObjectView::Str(_) => b is Str,
        ObjectView::Null => b is Null,
        ObjectView::ReturnValue(_) => b is ReturnValue,
        ObjectView::Error(_) => b is Error,
        ObjectView::Function { .. } => b is Function,
        ObjectView::Builtin(_) => b is Builtin,
        ObjectView::Array(_) => b is Array,
        ObjectView::Hash(_) => b is Hash,
    }
}

/// Only `false` and `null` count as false; every other value, zero
/// included, counts as true.
pub open spec fn truthy(o: ObjectView) -> bool {
    match o {
        ObjectView::Null => false,
        ObjectView::Boolean(b) => b,
        _ => true,
    }
}

/// The key that a value makes, where its kind can be a key at all.
pub open spec fn hashable(o: ObjectView) -> Option<HashKeyView> {
    match o {
        ObjectView::Integer(v) => Some(HashKeyView::Integer(v)),
        ObjectView::Boolean(b) => Some(HashKeyView::Boolean(b)),
        ObjectView::Str(s) => Some(HashKeyView::Str(s)),
        _ => None,
    }
}

/// The first position at or after `from` whose key is `k`; the length where
/// there is none.
pub open spec fn first_match(ps: Seq<(HashKeyView, ObjectView)>, k: HashKeyView, from: int) -> int
    decreases ps.len() - from,
{
    if from < 0 || from >= ps.len() {
        ps.len() as int
    } else if ps[from].0 == k {
        from
    } else {
        first_match(ps, k, from + 1)
    }
}

/// The value stored under `k`, if any.
pub open spec fn hash_get(ps: Seq<(HashKeyView, ObjectView)>, k: HashKeyView) -> Option<
    ObjectView,
> {
    let i = first_match(ps, k, 0);
    if i < ps.len() {
        Some(ps[i].1)
    } else {
        None
    }
}

/// The pairs after `v` is stored under `k`: the stored value is replaced
/// where the key is present, and the pair is added at the end where not.
pub open spec fn hash_set(
    ps: Seq<(HashKeyView, ObjectView)>,
    k: HashKeyView,
    v: ObjectView,
) -> Seq<(HashKeyView, ObjectView)> {
    let i = first_match(ps, k, 0);
    if i < ps.len() {
        ps.update(i, (k, v))
    } else {
        ps.push((k, v))
    }
}

/// Equality of values. Integers, booleans, strings and error messages are
/// equal when they hold the same; `null` equals itself; arrays are equal
/// when their elements are, position by position; hashes when they have as
/// many pairs and each key of the first leads to an equal value in the
/// second; a built-in equals itself. A function equals nothing, and values
/// of different kinds are never equal.
pub open spec fn objects_equal(a: ObjectView, b: ObjectView) -> bool
    decreases a,
{
    match a {
        ObjectView::Integer(x) => b == a,
        ObjectView::Boolean(x) => b == a,
        ObjectView::Str(x) => b == a,
        ObjectView::Null => b == a,
        ObjectView::Error(x) => b == a,
        ObjectView::Builtin(x) => b == a,
        ObjectView::Function { .. } => false,
        ObjectView::ReturnValue(x) => match b {
            ObjectView::ReturnValue(y) => objects_equal(*x, *y),
            _ => false,
        },
        ObjectView::Array(xs) => match b {
            ObjectView::Array(ys) => xs.len() == ys.len() && forall|i: int|
                0 <= i < xs.len() ==> objects_equal(#[trigger] xs[i], ys[i]),
            _ => false,
        },
        ObjectView::Hash(ps) => match b {
            ObjectView::Hash(qs) => ps.len() == qs.len() && forall|i: int|
                0 <= i < ps.len() ==> {
                    let j = first_match(qs, (#[trigger] ps[i]).0, 0);
                    j < qs.len() && objects_equal(ps[i].1, qs[j].1)
                },
            _ => false,
        },
    }
}

pub open spec fn key_text(k: HashKeyView) -> Seq<char> {
    match k {
        HashKeyView::Integer(v) => decimal(v as int),
        HashKeyView::Boolean(b) => bool_text(b),
        HashKeyView::Str(s) => s,
    }
}

/// The canonical text of a value, as the interactive loop echoes it.
pub open spec fn inspect_text(o: ObjectView) -> Seq<char>
    decreases o,
{
    match o {
        ObjectView::Integer(v) => decimal(v as int),
        ObjectView::Boolean(b) => bool_text(b),
        ObjectView::Str(s) => s,
        ObjectView::Null => "null"@,
        ObjectView::ReturnValue(inner) => inspect_text(*inner),
        ObjectView::Error(message) => "ERROR: "@ + message,
        ObjectView::Function { parameters, body, env } => "fn("@ + join(parameters, ", "@)
            + ") {\n"@ + block_text(body) + "\n}"@,
        ObjectView::Builtin(_) => "builtin function"@,
        ObjectView::Array(elements) => "["@ + join(inspect_texts(elements), ", "@) + "]"@,
        ObjectView::Hash(pairs) => "{"@ + join(hash_pair_texts(pairs), ", "@) + "}"@,
    }
}

pub open spec fn inspect_texts(os: Seq<ObjectView>) -> Seq<Seq<char>>
    decreases os,
{
    Seq::new(
        os.len(),
        |i: int|
            if 0 <= i < os.len() {
                inspect_text(os[i])
            } else {
                arbitrary()
            },
    )
}

pub open spec fn hash_pair_texts(ps: Seq<(HashKeyView, ObjectView)>) -> Seq<Seq<char>>
    decreases ps,
{
    Seq::new(
        ps.len(),
        |i: int|
            if 0 <= i < ps.len() {
                key_text(ps[i].0) + ": "@ + inspect_text(ps[i].1)
            } else {
                arbitrary()
            },
    )
}

impl Clone for HashKey {
    fn clone(&self) -> (r: Self)
        ensures
            r@ == self@,
    {
        match self {
            HashKey::Integer(v) => HashKey::Integer(*v),
            HashKey::Boolean(b) => HashKey::Boolean(*b),
            HashKey::Str(s) => HashKey::Str(s.clone()),
        }
    }
}

impl HashKey {
    /// Whether two keys are the same key.
    pub fn same(&self, other: &HashKey) -> (r: bool)
        ensures
            r == (self@ == other@),
    {
        match self {
            HashKey::Integer(x) => match other {
                HashKey::Integer(y) => *x == *y,
                _ => false,
            },
            HashKey::Boolean(x) => match other {
                HashKey::Boolean(y) => *x == *y,
                _ => false,
            },
            HashKey::Str(x) => match other {
                HashKey::Str(y) => *x == *y,
                _ => false,
            },
        }
    }

    /// The value that the key was made from.
    pub fn to_object(&self) -> (r: Object)
        ensures
            hashable(r@) == Some(self@),
    {
        match self {
            HashKey::Integer(v) => Object::Integer(*v),
            HashKey::Boolean(b) => Object::Boolean(*b),
            HashKey::Str(s) => Object::StringObj(s.clone()),
        }
    }
}

/// The position of the first pair with the given key; the length where no
/// pair has it.
pub fn find_key(pairs: &Vec<(HashKey, Object)>, key: &HashKey) -> (r: usize)
    ensures
        r as int == first_match(hash_pairs_view(pairs@), key@, 0),
{
    let ghost ps = hash_pairs_view(pairs@);
    let mut i: usize = 0;
    while i < pairs.len()
        invariant
            i <= pairs.len(),
            ps == hash_pairs_view(pairs@),
            first_match(ps, key@, 0) == first_match(ps, key@, i as int),
        decreases pairs.len() - i,
    {
        if pairs[i].0.same(key) {
            return i;
        }
        i += 1;
    }
    i
}

fn clone_objects(os: &Vec<Object>) -> (r: Vec<Object>)
    ensures
        objects_view(r@) == objects_view(os@),
    decreases *os,
{
    let mut out: Vec<Object> = Vec::new();
    let mut i: usize = 0;
    while i < os.len()
        invariant
            i <= os.len(),
            out.len() == i,
            forall|j: int| 0 <= j < i ==> object_view(out@[j]) == object_view(os@[j]),
        decreases os.len() - i,
    {
        out.push(os[i].clone());
        i += 1;
    }
    assert(objects_view(out@) =~= objects_view(os@));
    out
}

fn clone_hash_pairs(ps: &Vec<(HashKey, Object)>) -> (r: Vec<(HashKey, Object)>)
    ensures
        hash_pairs_view(r@) == hash_pairs_view(ps@),
    decreases *ps,
{
    let mut out: Vec<(HashKey, Object)> = Vec::new();
    let mut i: usize = 0;
    while i < ps.len()
        invariant
            i <= ps.len(),
            out.len() == i,
            forall|j: int|
                0 <= j < i ==> key_view(out@[j].0) == key_view(ps@[j].0) && object_view(
                    out@[j].1,
                ) == object_view(ps@[j].1),
        decreases ps.len() - i,
    {
        proof {
            assert(decreases_to!(*ps => ps[i as int]));
            assert(decreases_to!(ps[i as int] => ps[i as int].1));
        }
        let key = ps[i].0.clone();
        let value = ps[i].1.clone();
        out.push((key, value));
        i += 1;
    }
    assert(hash_pairs_view(out@) =~= hash_pairs_view(ps@));
    out
}

impl Clone for Object {
    fn clone(&self) -> (r: Self)
        ensures
            r@ == self@,
        decreases *self,
    {
        match self {
            Object::Integer(v) => Object::Integer(*v),
            Object::Boolean(b) => Object::Boolean(*b),
            Object::StringObj(s) => Object::StringObj(s.clone()),
            Object::Null => Object::Null,
            Object::ReturnValue(inner) => Object::ReturnValue(Box::new((**inner).clone())),
            Object::Error(message) => Object::Error(message.clone()),
            Object::Function { parameters, body, env } => Object::Function {
                parameters: clone_strings(parameters),
                body: body.clone(),
                env: *env,
            },
            Object::Builtin(f) => Object::Builtin(*f),
            Object::Array(elements) => Object::Array(clone_objects(elements)),
            Object::Hash(pairs) => Object::Hash(clone_hash_pairs(pairs)),
        }
    }
}

fn arrays_equal(xs: &Vec<Object>, ys: &Vec<Object>) -> (r: bool)
    ensures
        r == objects_equal(
            ObjectView::Array(objects_view(xs@)),
            ObjectView::Array(objects_view(ys@)),
        ),
    decreases *xs,
{
    let ghost vx = objects_view(xs@);
    let ghost vy = objects_view(ys@);
    if xs.len() != ys.len() {
        return false;
    }
    let mut i: usize = 0;
    while i < xs.len()
        invariant
            i <= xs.len(),
            xs.len() == ys.len(),
            vx == objects_view(xs@),
            vy == objects_view(ys@),
            forall|j: int| 0 <= j < i ==> objects_equal(#[trigger] vx[j], vy[j]),
        decreases xs.len() - i,
    {
        if !xs[i].equals(&ys[i]) {
            assert(!objects_equal(vx[i as int], vy[i as int]));
            return false;
        }
        i += 1;
    }
    true
}

fn hashes_equal(ps: &Vec<(HashKey, Object)>, qs: &Vec<(HashKey, Object)>) -> (r: bool)
    ensures
        r == objects_equal(
            ObjectView::Hash(hash_pairs_view(ps@)),
            ObjectView::Hash(hash_pairs_view(qs@)),
        ),
    decreases *ps,
{
    let ghost vp = hash_pairs_view(ps@);
    let ghost vq = hash_pairs_view(qs@);
    if ps.len() != qs.len() {
        return false;
    }
    let mut i: usize = 0;
    while i < ps.len()
        invariant
            i <= ps.len(),
            ps.len() == qs.len(),
            vp == hash_pairs_view(ps@),
            vq == hash_pairs_view(qs@),
            forall|j: int|
                0 <= j < i ==> {
                    let k = first_match(vq, (#[trigger] vp[j]).0, 0);
                    k < vq.len() && objects_equal(vp[j].1, vq[k].1)
                },
        decreases ps.len() - i,
    {
        proof {
            assert(decreases_to!(*ps => ps[i as int]));
            assert(decreases_to!(ps[i as int] => ps[i as int].1));
        }
        let j = find_key(qs, &ps[i].0);
        if j >= qs.len() {
            assert(vp[i as int].0 == ps[i as int].0@);
            return false;
        }
        if !ps[i].1.equals(&qs[j].1) {
            assert(vp[i as int].0 == ps[i as int].0@);
            return false;
        }
        assert(vp[i as int].1 == ps[i as int].1@);
        i += 1;
    }
    true
}

fn append_objects(out: &mut String, os: &Vec<Object>)
    ensures
        final(out)@ == old(out)@ + join(inspect_texts(objects_view(os@)), ", "@),
    decreases *os,
{
    let ghost parts = inspect_texts(objects_view(os@));
    let mut i: usize = 0;
    while i < os.len()
        invariant
            i <= os.len(),
            parts == inspect_texts(objects_view(os@)),
            out@ == old(out)@ + join(parts.take(i as int), ", "@),
        decreases os.len() - i,
    {
        proof {
            lemma_join_step(parts, ", "@, i as int);
        }
        if i > 0 {
            out.append(", ");
        }
        append_object(out, &os[i]);
        i += 1;
        assert(out@ =~= old(out)@ + join(parts.take(i as int), ", "@));
    }
    assert(parts.take(i as int) =~= parts);
}

fn append_key(out: &mut String, key: &HashKey)
    ensures
        final(out)@ == old(out)@ + key_text(key@),
{
    match key {
        HashKey::Integer(v) => append_i64(out, *v),
        HashKey::Boolean(b) => out.append(bool_str(*b)),
        HashKey::Str(s) => out.append(s.as_str()),
    }
}

fn append_hash_pairs(out: &mut String, ps: &Vec<(HashKey, Object)>)
    ensures
        final(out)@ == old(out)@ + join(hash_pair_texts(hash_pairs_view(ps@)), ", "@),
    decreases *ps,
{
    let ghost parts = hash_pair_texts(hash_pairs_view(ps@));
    let mut i: usize = 0;
    while i < ps.len()
        invariant
            i <= ps.len(),
            parts == hash_pair_texts(hash_pairs_view(ps@)),
            out@ == old(out)@ + join(parts.take(i as int), ", "@),
        decreases ps.len() - i,
    {
        proof {
            lemma_join_step(parts, ", "@, i as int);
            assert(decreases_to!(*ps => ps[i as int]));
            assert(decreases_to!(ps[i as int] => ps[i as int].1));
        }
        if i > 0 {
            out.append(", ");
        }
        append_key(out, &ps[i].0);
        out.append(": ");
        append_object(out, &ps[i].1);
        i += 1;
        assert(out@ =~= old(out)@ + join(parts.take(i as int), ", "@));
    }
    assert(parts.take(i as int) =~= parts);
}

/// Appends the canonical text of a value.
pub fn append_object(out: &mut String, o: &Object)
    ensures
        final(out)@ == old(out)@ + inspect_text(o@),
    decreases *o,
{
    match o {
        Object::Integer(v) => append_i64(out, *v),
        Object::Boolean(b) => out.append(bool_str(*b)),
        Object::StringObj(s) => out.append(s.as_str()),
        Object::Null => out.append("null"),
        Object::ReturnValue(inner) => append_object(out, inner),
        Object::Error(message) => {
            out.append("ERROR: ");
            out.append(message.as_str());
            assert(out@ =~= old(out)@ + inspect_text(o@));
        },
        Object::Function { parameters, body, env } => {
            out.append("fn(");
            append_names(out, parameters);
            out.append(") {\n");
            append_statements(out, &body.statements);
            out.append("\n}");
            assert(out@ =~= old(out)@ + inspect_text(o@));
        },
        Object::Builtin(_) => out.append("builtin function"),
        Object::Array(elements) => {
            out.append("[");
            append_objects(out, elements);
            out.append("]");
            assert(out@ =~= old(out)@ + inspect_text(o@));
        },
        Object::Hash(pairs) => {
            out.append("{");
            append_hash_pairs(out, pairs);
            out.append("}");
            assert(out@ =~= old(out)@ + inspect_text(o@));
        },
    }
}

impl Object {
    /// The name of the value's kind.
    pub fn object_type(&self) -> (r: &'static str)
        ensures
            r@ == kind_name(self@),
    {
        match self {
            Object::Integer(_) => "INTEGER",
            Object::Boolean(_) => "BOOLEAN",
            Object::StringObj(_) => "STRING",
            Object::Null => "NULL",
            Object::ReturnValue(_) => "RETURN_VALUE",
            Object::Error(_) => "ERROR",
            Object::Function { .. } => "FUNCTION",
            Object::Builtin(_) => "BUILTIN",
            Object::Array(_) => "ARRAY",
            Object::Hash(_) => "HASH",
        }
    }

    /// Whether the other value is of the same kind.
    pub fn same_kind_as(&self, other: &Object) -> (r: bool)
        ensures
            r == same_kind(self@, other@),
    {
        match self {
            Object::Integer(_) => matches!(other, Object::Integer(_)),
            Object::Boolean(_) => matches!(other, Object::Boolean(_)),
            Object::StringObj(_) => matches!(other, Object::StringObj(_)),
            Object::Null => matches!(other, Object::Null),
            Object::ReturnValue(_) => matches!(other, Object::ReturnValue(_)),
            Object::Error(_) => matches!(other, Object::Error(_)),
            Object::Function { .. } => matches!(other, Object::Function { .. }),
            Object::Builtin(_) => matches!(other, Object::Builtin(_)),
            Object::Array(_) => matches!(other, Object::Array(_)),
            Object::Hash(_) => matches!(other, Object::Hash(_)),
        }
    }

    /// The canonical text of the value.
    pub fn inspect(&self) -> (r: String)
        ensures
            r@ == inspect_text(self@),
    {
        let mut out = String::new();
        append_object(&mut out, self);
        assert(out@ =~= inspect_text(self@));
        out
    }

    /// Whether the value counts as true in a condition.
    pub fn is_truthy(&self) -> (r: bool)
        ensures
            r == truthy(self@),
    {
        match self {
            Object::Null => false,
            Object::Boolean(b) => *b,
            _ => true,
        }
    }

    /// Whether the value is an error signal.
    pub fn is_error(&self) -> (r: bool)
        ensures
            r == (self@ is Error),
    {
        match self {
            Object::Error(_) => true,
            _ => false,
        }
    }

    /// The key that the value makes; `None` for a kind that cannot be a key.
    pub fn hash_key(&self) -> (r: Option<HashKey>)
        ensures
            match r {
                Some(k) => hashable(self@) == Some(k@),
                None => hashable(self@) is None,
            },
    {
        match self {
            Object::Integer(v) => Some(HashKey::Integer(*v)),
            Object::Boolean(b) => Some(HashKey::Boolean(*b)),
            Object::StringObj(s) => Some(HashKey::Str(s.clone())),
            _ => None,
        }
    }

    /// Whether two values are equal.
    pub fn equals(&self, other: &Object) -> (r: bool)
        ensures
            r == objects_equal(self@, other@),
        decreases *self,
    {
        match self {
            Object::Integer(x) => match other {
                Object::Integer(y) => *x == *y,
                _ => false,
            },
            Object::Boolean(x) => match other {
                Object::Boolean(y) => *x == *y,
                _ => false,
            },
            Object::StringObj(x) => match other {
                Object::StringObj(y) => *x == *y,
                _ => false,
            },
            Object::Null => match other {
                Object::Null => true,
                _ => false,
            },
            Object::Error(x) => match other {
                Object::Error(y) => *x == *y,
                _ => false,
            },
            Object::Builtin(x) => match other {
                Object::Builtin(y) => *x == *y,
                _ => false,
            },
            Object::Function { .. } => false,
            Object::ReturnValue(x) => match other {
                Object::ReturnValue(y) => x.equals(y),
                _ => false,
            },
            Object::Array(xs) => match other {
                Object::Array(ys) => arrays_equal(xs, ys),
                _ => false,
            },
            Object::Hash(ps) => match other {
                Object::Hash(qs) => hashes_equal(ps, qs),
                _ => false,
            },
        }
    }
}

/// The values that count as false are `false` and `null`, and no others:
/// zero, the empty string and the empty array all count as true.
pub proof fn law_falsy_values(o: ObjectView)
    ensures
        !truthy(o) <==> (o == ObjectView::Null || o == ObjectView::Boolean(false)),
{
}

/// A value can be a key exactly when it is an integer, a boolean or a
/// string, and different such values make different keys.
pub proof fn law_hashable_kinds(a: ObjectView, b: ObjectView)
    ensures
        hashable(a) is Some <==> (a is Integer || a is Boolean || a is Str),
        hashable(a) is Some && hashable(a) == hashable(b) ==> a == b,
{
}

/// Where the search for a key ends: at a pair with that key, with no such
/// pair before it, or at the length.
pub proof fn lemma_first_match(ps: Seq<(HashKeyView, ObjectView)>, k: HashKeyView, from: int)
    requires
        0 <= from <= ps.len(),
    ensures
        from <= first_match(ps, k, from) <= ps.len(),
        first_match(ps, k, from) < ps.len() ==> ps[first_match(ps, k, from)].0 == k,
        forall|j: int| from <= j < first_match(ps, k, from) ==> (#[trigger] ps[j]).0 != k,
    decreases ps.len() - from,
{
    if from < ps.len() && ps[from].0 != k {
        lemma_first_match(ps, k, from + 1);
    }
}

/// The search depends on the keys alone, and on those before the match
/// alone.
proof fn lemma_first_match_same_keys(
    ps: Seq<(HashKeyView, ObjectView)>,
    qs: Seq<(HashKeyView, ObjectView)>,
    k: HashKeyView,
    from: int,
)
    requires
        0 <= from <= ps.len() <= qs.len(),
        forall|j: int| 0 <= j < ps.len() ==> (#[trigger] ps[j]).0 == qs[j].0,
    ensures
        first_match(ps, k, from) < ps.len() ==> first_match(qs, k, from) == first_match(
            ps,
            k,
            from,
        ),
        first_match(ps, k, from) == ps.len() ==> first_match(qs, k, from) == first_match(
            qs,
            k,
            ps.len() as int,
        ),
    decreases ps.len() - from,
{
    if from < ps.len() {
        assert(ps[from].0 == qs[from].0);
        if ps[from].0 != k {
            lemma_first_match_same_keys(ps, qs, k, from + 1);
        }
    }
}

/// A hash gives back what was stored under a key.
pub proof fn law_hash_get_after_set(
    ps: Seq<(HashKeyView, ObjectView)>,
    k: HashKeyView,
    v: ObjectView,
)
    ensures
        hash_get(hash_set(ps, k, v), k) == Some(v),
{
    let i = first_match(ps, k, 0);
    let qs = hash_set(ps, k, v);
    lemma_first_match(ps, k, 0);
    if i < ps.len() {
        lemma_first_match_same_keys(ps, qs, k, 0);
    } else {
        lemma_first_match_same_keys(ps, qs, k, 0);
        assert(qs[ps.len() as int].0 == k);
    }
}

/// Storing under one key leaves what every other key leads to.
pub proof fn law_hash_set_keeps_other_keys(
    ps: Seq<(HashKeyView, ObjectView)>,
    k: HashKeyView,
    v: ObjectView,
    other: HashKeyView,
)
    requires
        other != k,
    ensures
        hash_get(hash_set(ps, k, v), other) == hash_get(ps, other),
{
    let i = first_match(ps, k, 0);
    let qs = hash_set(ps, k, v);
    lemma_first_match(ps, k, 0);
    lemma_first_match(ps, other, 0);
    if i < ps.len() {
        lemma_first_match_same_keys(ps, qs, other, 0);
        lemma_first_match_same_keys(qs, ps, other, 0);
    } else {
        lemma_first_match_same_keys(ps, qs, other, 0);
        assert(qs[ps.len() as int].0 == k);
        assert(first_match(qs, other, ps.len() as int + 1) == qs.len());
    }
}

/// Whether no key occurs twice.
pub open spec fn distinct_keys(ps: Seq<(HashKeyView, ObjectView)>) -> bool {
    forall|i: int, j: int| 0 <= i < j < ps.len() ==> (#[trigger] ps[i]).0 != (#[trigger] ps[j]).0
}

/// Storing never makes a key occur twice.
pub proof fn law_hash_set_keeps_keys_distinct(
    ps: Seq<(HashKeyView, ObjectView)>,
    k: HashKeyView,
    v: ObjectView,
)
    requires
        distinct_keys(ps),
    ensures
        distinct_keys(hash_set(ps, k, v)),
{
    lemma_first_match(ps, k, 0);
    let qs = hash_set(ps, k, v);
    assert forall|i: int, j: int| 0 <= i < j < qs.len() implies (#[trigger] qs[i]).0 != (
    #[trigger] qs[j]).0 by {
        if first_match(ps, k, 0) < ps.len() {
            assert(qs[i].0 == ps[i].0);
            assert(qs[j].0 == ps[j].0);
        } else {
            if j < ps.len() {
                assert(qs[i] == ps[i] && qs[j] == ps[j]);
            } else {
                assert(qs[i] == ps[i]);
            }
        }
    }
}

} // verus!
