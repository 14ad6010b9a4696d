//! What the operators compute once their operands are values: the prefix
//! operators, the infix operators and indexing.

use vstd::prelude::*;
use vstd::string::*;
use crate::ast::{infix_op_text, prefix_op_text, InfixOp, PrefixOp};
use crate::object::{
    find_key, hash_get, hash_pairs_view, hash_set, hashable, kind_name, law_hash_get_after_set,
    objects_equal, objects_view, same_kind, truthy, HashKeyView, Object, ObjectView,
};

verus! {

pub open spec fn unknown_prefix(op: PrefixOp, right: ObjectView) -> Seq<char> {
    "unknown operator: "@ + prefix_op_text(op) + kind_name(right)
}

pub open spec fn unknown_infix(op: InfixOp, left: ObjectView, right: ObjectView) -> Seq<char> {
    "unknown operator: "@ + kind_name(left) + " "@ + infix_op_text(op) + " "@ + kind_name(right)
}

pub open spec fn type_mismatch(op: InfixOp, left: ObjectView, right: ObjectView) -> Seq<char> {
    "type mismatch: "@ + kind_name(left) + " "@ + infix_op_text(op) + " "@ + kind_name(right)
}

pub open spec fn unusable_key(key: ObjectView) -> Seq<char> {
    "unusable as hash key: "@ + kind_name(key)
}

pub open spec fn index_unsupported(left: ObjectView) -> Seq<char> {
    "index operator not supported: "@ + kind_name(left)
}

/// `!x` negates the truth of `x`; `-x` negates an integer, wrapping at the
/// ends of the 64-bit range, and is an error on any other kind.
pub open spec fn prefix_result(op: PrefixOp, right: ObjectView) -> ObjectView {
    match op {
        PrefixOp::Bang => ObjectView::Boolean(!truthy(right)),
        PrefixOp::Minus => match right {
            ObjectView::Integer(v) => ObjectView::Integer(0i64.wrapping_sub(v)),
            _ => ObjectView::Error(unknown_prefix(op, right)),
        },
    }
}

/// The quotient of two integers, rounded toward zero.
pub open spec fn quotient(a: int, b: int) -> int
    recommends
        b != 0,
{
    if a >= 0 && b > 0 {
        a / b
    } else if a < 0 && b < 0 {
        (-a) / (-b)
    } else if a < 0 {
        -((-a) / b)
    } else {
        -(a / (-b))
    }
}

/// An operator between two integers. Sums, differences and products wrap
/// at the ends of the 64-bit range; division rounds toward zero, is an
/// error for a zero divisor, and gives the least integer where that is
/// divided by -1.
pub open spec fn integer_infix(op: InfixOp, a: i64, b: i64) -> ObjectView {
    match op {
        InfixOp::Plus => ObjectView::Integer(a.wrapping_add(b)),
        InfixOp::Minus => ObjectView::Integer(a.wrapping_sub(b)),
        InfixOp::Asterisk => ObjectView::Integer(a.wrapping_mul(b)),
        InfixOp::Slash => if b == 0 {
            ObjectView::Error("division by zero"@)
        } else if a == i64::MIN && b == -1 {
            ObjectView::Integer(i64::MIN)
        } else {
            ObjectView::Integer(quotient(a as int, b as int) as i64)
        },
        InfixOp::Lt => ObjectView::Boolean(a < b),
        InfixOp::Gt => ObjectView::Boolean(a > b),
        InfixOp::Eq => ObjectView::Boolean(a == b),
        InfixOp::NotEq => ObjectView::Boolean(a != b),
    }
}

/// An operator between two strings: `+` joins them, `==` and `!=` compare
/// them letter by letter, and every other operator is unknown.
pub open spec fn string_infix(op: InfixOp, a: Seq<char>, b: Seq<char>) -> ObjectView {
    match op {
        InfixOp::Plus => ObjectView::Str(a + b),
        InfixOp::Eq => ObjectView::Boolean(a == b),
        InfixOp::NotEq => ObjectView::Boolean(a != b),
        _ => ObjectView::Error(
            unknown_infix(op, ObjectView::Str(a), ObjectView::Str(b)),
        ),
    }
}

/// An infix operator applied to two values. Two integers and two strings
/// have operators of their own. For any other operands `==` and `!=`
/// compare by value; another operator is a type mismatch between
/// different kinds and unknown between equal kinds.
pub open spec fn infix_result(op: InfixOp, left: ObjectView, right: ObjectView) -> ObjectView {
    match (left, right) {
        (ObjectView::Integer(a), ObjectView::Integer(b)) => integer_infix(op, a, b),
        (ObjectView::Str(a), ObjectView::Str(b)) => string_infix(op, a, b),
        _ => if op == InfixOp::Eq {
            ObjectView::Boolean(objects_equal(left, right))
        } else if op == InfixOp::NotEq {
            ObjectView::Boolean(!objects_equal(left, right))
        } else if !same_kind(left, right) {
            ObjectView::Error(type_mismatch(op, left, right))
        } else {
            ObjectView::Error(unknown_infix(op, left, right))
        },
    }
}

/// `left[index]`. An array takes an integer index and gives `null`
/// outside its range; a hash takes a key and gives `null` where the key is
/// absent; anything else cannot be indexed.
pub open spec fn index_result(left: ObjectView, index: ObjectView) -> ObjectView {
    match left {
        ObjectView::Array(elements) => match index {
            ObjectView::Integer(i) => if 0 <= i < elements.len() {
                elements[i as int]
            } else {
                ObjectView::Null
            },
            _ => ObjectView::Error(index_unsupported(left)),
        },
        ObjectView::Hash(pairs) => match hashable(index) {
            Some(key) => match hash_get(pairs, key) {
                Some(value) => value,
                None => ObjectView::Null,
            },
            None => ObjectView::Error(unusable_key(index)),
        },
        _ => ObjectView::Error(index_unsupported(left)),
    }
}

/// An error value with the given message and the kind of `o` after it.
fn kind_error(message: &str, o: &Object) -> (r: Object)
    ensures
        r@ == ObjectView::Error(message@ + kind_name(o@)),
{
    let mut text = String::from_str(message);
    text.append(o.object_type());
    Object::Error(text)
}

fn infix_error(message: &str, op: InfixOp, left: &Object, right: &Object) -> (r: Object)
    ensures
        r@ == ObjectView::Error(
            message@ + kind_name(left@) + " "@ + infix_op_text(op) + " "@ + kind_name(right@),
        ),
{
    let mut text = String::from_str(message);
    text.append(left.object_type());
    text.append(" ");
    text.append(op.as_str());
    text.append(" ");
    text.append(right.object_type());
    Object::Error(text)
}

/// Applies a prefix operator.
pub fn eval_prefix(op: PrefixOp, right: &Object) -> (r: Object)
    ensures
        r@ == prefix_result(op, right@),
{
    match op {
        PrefixOp::Bang => Object::Boolean(!right.is_truthy()),
        PrefixOp::Minus => match right {
            Object::Integer(v) => Object::Integer(0i64.wrapping_sub(*v)),
            _ => {
                let mut text = String::from_str("unknown operator: ");
                text.append(op.as_str());
                text.append(right.object_type());
                Object::Error(text)
            },
        },
    }
}

fn divide(a: i64, b: i64) -> (r: Object)
    ensures
        r@ == integer_infix(InfixOp::Slash, a, b),
{
    proof {
        let x = a as int;
        let d = b as int;
        assert(x * -1 == -x);
        assert(d * -1 == -d);
        if d > 0 {
            vstd::arithmetic::div_mod::lemma_div_basics_4(x, d);
            vstd::arithmetic::div_mod::lemma_div_basics_5(x, d);
            vstd::arithmetic::div_mod::lemma_div_basics_4(-x, d);
            vstd::arithmetic::div_mod::lemma_div_basics_5(-x, d);
        }
        if d < 0 {
            vstd::arithmetic::div_mod::lemma_div_basics_4(x, -d);
            vstd::arithmetic::div_mod::lemma_div_basics_5(x, -d);
            vstd::arithmetic::div_mod::lemma_div_basics_4(-x, -d);
            vstd::arithmetic::div_mod::lemma_div_basics_5(-x, -d);
            if d == -1 {
                vstd::arithmetic::div_mod::lemma_div_basics_2(-x);
                vstd::arithmetic::div_mod::lemma_div_basics_2(x);
            } else if x < 0 {
                vstd::arithmetic::div_mod::lemma_div_is_ordered_by_denominator(-x, 2, -d);
            }
        }
        if x == 0 && d != 0 {
            vstd::arithmetic::div_mod::lemma_div_basics_1(d);
            vstd::arithmetic::div_mod::lemma_div_basics_1(-d);
        }
    }
    match a.checked_div(b) {
        Some(q) => Object::Integer(q),
        None => {
            if b == 0 {
                Object::Error(String::from_str("division by zero"))
            } else {
                Object::Integer(i64::MIN)
            }
        },
    }
}

fn eval_integer_infix(op: InfixOp, a: i64, b: i64) -> (r: Object)
    ensures
        r@ == integer_infix(op, a, b),
{
    match op {
        InfixOp::Plus => Object::Integer(a.wrapping_add(b)),
        InfixOp::Minus => Object::Integer(a.wrapping_sub(b)),
        InfixOp::Asterisk => Object::Integer(a.wrapping_mul(b)),
        InfixOp::Slash => divide(a, b),
        InfixOp::Lt => Object::Boolean(a < b),
        InfixOp::Gt => Object::Boolean(a > b),
        InfixOp::Eq => Object::Boolean(a == b),
        InfixOp::NotEq => Object::Boolean(a != b),
    }
}

/// Applies an infix operator.
pub fn eval_infix(op: InfixOp, left: &Object, right: &Object) -> (r: Object)
    ensures
        r@ == infix_result(op, left@, right@),
{
    match (left, right) {
        (Object::Integer(a), Object::Integer(b)) => eval_integer_infix(op, *a, *b),
        (Object::StringObj(a), Object::StringObj(b)) => match op {
            InfixOp::Plus => {
                let mut text = a.clone();
                text.append(b.as_str());
                Object::StringObj(text)
            },
            InfixOp::Eq => Object::Boolean(*a == *b),
            InfixOp::NotEq => Object::Boolean(!(*a == *b)),
            _ => infix_error("unknown operator: ", op, left, right),
        },
        _ => {
            if op == InfixOp::Eq {
                Object::Boolean(left.equals(right))
            } else if op == InfixOp::NotEq {
                Object::Boolean(!left.equals(right))
            } else if !left.same_kind_as(right) {
                infix_error("type mismatch: ", op, left, right)
            } else {
                infix_error("unknown operator: ", op, left, right)
            }
        },
    }
}

/// Applies the index operator.
pub fn eval_index(left: &Object, index: &Object) -> (r: Object)
    ensures
        r@ == index_result(left@, index@),
{
    match left {
        Object::Array(elements) => {
            assert(left@ == ObjectView::Array(objects_view(elements@)));
            match index {
                Object::Integer(i) => {
                    if 0 <= *i && (*i as u64) < elements.len() as u64 {
                        elements[*i as usize].clone()
                    } else {
                        Object::Null
                    }
                },
                _ => kind_error("index operator not supported: ", left),
            }
        },
        Object::Hash(pairs) => {
            assert(left@ == ObjectView::Hash(hash_pairs_view(pairs@)));
            match index.hash_key() {
                Some(key) => {
                    let i = find_key(pairs, &key);
                    if i < pairs.len() {
                        pairs[i].1.clone()
                    } else {
                        Object::Null
                    }
                },
                None => kind_error("unusable as hash key: ", index),
            }
        },
        _ => kind_error("index operator not supported: ", left),
    }
}

/// Indexing a hash with a key gives what was stored under the key last.
pub proof fn law_hash_index_after_set(
    pairs: Seq<(HashKeyView, ObjectView)>,
    key: ObjectView,
    value: ObjectView,
)
    requires
        hashable(key) is Some,
    ensures
        index_result(ObjectView::Hash(hash_set(pairs, hashable(key)->0, value)), key) == value,
{
    law_hash_get_after_set(pairs, hashable(key)->0, value);
}

/// Indexing a hash with a key that it does not hold gives `null`, and
/// indexing an array outside its range gives `null`: neither is an error.
pub proof fn law_absent_index_is_null(left: ObjectView, index: ObjectView)
    ensures
        left matches ObjectView::Hash(pairs) && hashable(index) is Some && hash_get(
            pairs,
            hashable(index)->0,
        ) is None ==> index_result(left, index) == ObjectView::Null,
        left matches ObjectView::Array(elements) && index matches ObjectView::Integer(i) && !(0
            <= i < elements.len()) ==> index_result(left, index) == ObjectView::Null,
{
}

/// Two values of different kinds are never equal, and apart from `==` and
/// `!=` no operator takes them.
pub proof fn law_kinds_must_match(op: InfixOp, left: ObjectView, right: ObjectView)
    requires
        !same_kind(left, right),
    ensures
        !objects_equal(left, right),
        op == InfixOp::Eq ==> infix_result(op, left, right) == ObjectView::Boolean(false),
        op == InfixOp::NotEq ==> infix_result(op, left, right) == ObjectView::Boolean(true),
        op != InfixOp::Eq && op != InfixOp::NotEq ==> infix_result(op, left, right)
            == ObjectView::Error(type_mismatch(op, left, right)),
{
}

} // verus!
