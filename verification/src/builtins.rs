//! The native functions that are bound in the global scope before any
//! program runs. Each maps a sequence of values to a value; `puts` also
//! adds lines to the output.

use vstd::prelude::*;
use vstd::string::*;
use crate::object::{
    inspect_text, kind_name, objects_view, BuiltinFunction, Object, ObjectView,
};
use crate::text::{append_u64, nat_digits, strings_view};

verus! {

/// Provides the built-in functions.
pub struct Builtins;

/// The message for a call with the wrong number of arguments.
pub open spec fn wrong_arity(got: nat, want: nat) -> Seq<char> {
    "wrong number of arguments. got="@ + nat_digits(got) + ", want="@ + nat_digits(want)
}

/// The message for a first argument that is no array.
pub open spec fn not_an_array(o: ObjectView) -> Seq<char> {
    "argument to `first` must be ARRAY, got="@ + kind_name(o)
}

/// A length as an integer value; one too large for an integer counts as
/// the largest integer.
pub open spec fn length_value(n: usize) -> i64 {
    if n <= i64::MAX {
        n as i64
    } else {
        i64::MAX
    }
}

/// `len(x)`: the number of bytes of a string in UTF-8, or the number of
/// elements of an array.
pub open spec fn len_result(args: Seq<ObjectView>) -> ObjectView {
    if args.len() != 1 {
        ObjectView::Error(wrong_arity(args.len(), 1))
    } else {
        match args[0] {
            ObjectView::Str(s) => ObjectView::Integer(
                length_value(vstd::utf8::encode_utf8(s).len() as usize),
            ),
            ObjectView::Array(elements) => ObjectView::Integer(
                length_value(elements.len() as usize),
            ),
            other => ObjectView::Error("argument to 'len' not supported, got "@ + kind_name(other)),
        }
    }
}

/// `first(arr)`: the first element, or `null` for an empty array.
pub open spec fn first_result(args: Seq<ObjectView>) -> ObjectView {
    if args.len() != 1 {
        ObjectView::Error(wrong_arity(args.len(), 1))
    } else {
        match args[0] {
            ObjectView::Array(elements) => if elements.len() > 0 {
                elements[0]
            } else {
                ObjectView::Null
            },
            other => ObjectView::Error(not_an_array(other)),
        }
    }
}

/// `last(arr)`: the last element, or `null` for an empty array.
pub open spec fn last_result(args: Seq<ObjectView>) -> ObjectView {
    if args.len() != 1 {
        ObjectView::Error(wrong_arity(args.len(), 1))
    } else {
        match args[0] {
            ObjectView::Array(elements) => if elements.len() > 0 {
                elements[elements.len() - 1]
            } else {
                ObjectView::Null
            },
            other => ObjectView::Error(not_an_array(other)),
        }
    }
}

/// `rest(arr)`: a new array of all elements but the first, or `null` for
/// an empty array.
pub open spec fn rest_result(args: Seq<ObjectView>) -> ObjectView {
    if args.len() != 1 {
        ObjectView::Error(wrong_arity(args.len(), 1))
    } else {
        match args[0] {
            ObjectView::Array(elements) => if elements.len() > 0 {
                ObjectView::Array(elements.subrange(1, elements.len() as int))
            } else {
                ObjectView::Null
            },
            other => ObjectView::Error(not_an_array(other)),
        }
    }
}

/// `push(arr, v)`: a new array with `v` added at the end; for an empty
/// array the result is `null`.
pub open spec fn push_result(args: Seq<ObjectView>) -> ObjectView {
    if args.len() != 2 {
        ObjectView::Error(wrong_arity(args.len(), 2))
    } else {
        match args[0] {
            ObjectView::Array(elements) => if elements.len() > 0 {
                ObjectView::Array(elements.push(args[1]))
            } else {
                ObjectView::Null
            },
            other => ObjectView::Error(not_an_array(other)),
        }
    }
}

/// The lines that `puts` writes: the canonical text of each argument.
pub open spec fn puts_lines(args: Seq<ObjectView>) -> Seq<Seq<char>> {
    Seq::new(args.len(), |i: int| inspect_text(args[i]))
}

/// What a built-in returns for the given arguments.
pub open spec fn builtin_result(f: BuiltinFunction, args: Seq<ObjectView>) -> ObjectView {
    match f {
        BuiltinFunction::Len => len_result(args),
        BuiltinFunction::First => first_result(args),
        BuiltinFunction::Last => last_result(args),
        BuiltinFunction::Rest => rest_result(args),
        BuiltinFunction::Push => push_result(args),
        BuiltinFunction::Puts => ObjectView::Null,
    }
}

/// What a built-in adds to the output for the given arguments.
pub open spec fn builtin_output(f: BuiltinFunction, args: Seq<ObjectView>) -> Seq<Seq<char>> {
    match f {
        BuiltinFunction::Puts => puts_lines(args),
        _ => Seq::empty(),
    }
}

/// The names of the built-ins, each with its function, in the order in
/// which they are bound.
pub open spec fn builtin_table() -> Seq<(Seq<char>, BuiltinFunction)> {
    seq![
        ("len"@, BuiltinFunction::Len),
        ("first"@, BuiltinFunction::First),
        ("last"@, BuiltinFunction::Last),
        ("rest"@, BuiltinFunction::Rest),
        ("push"@, BuiltinFunction::Push),
        ("puts"@, BuiltinFunction::Puts),
    ]
}

/// The view of a list of named values.
pub open spec fn named_view(items: Seq<(String, Object)>) -> Seq<(Seq<char>, ObjectView)> {
    Seq::new(items.len(), |i: int| (items[i].0@, items[i].1@))
}

impl Builtins {
    /// All built-in functions, each under its name.
    pub fn all_builtins(&self) -> (r: Vec<(String, Object)>)
        ensures
            named_view(r@) == Seq::new(
                builtin_table().len(),
                |i: int| (builtin_table()[i].0, ObjectView::Builtin(builtin_table()[i].1)),
            ),
    {
        let mut r: Vec<(String, Object)> = Vec::new();
        r.push((String::from_str("len"), Object::Builtin(BuiltinFunction::Len)));
        r.push((String::from_str("first"), Object::Builtin(BuiltinFunction::First)));
        r.push((String::from_str("last"), Object::Builtin(BuiltinFunction::Last)));
        r.push((String::from_str("rest"), Object::Builtin(BuiltinFunction::Rest)));
        r.push((String::from_str("push"), Object::Builtin(BuiltinFunction::Push)));
        r.push((String::from_str("puts"), Object::Builtin(BuiltinFunction::Puts)));
        assert(named_view(r@) =~= Seq::new(
            builtin_table().len(),
            |i: int| (builtin_table()[i].0, ObjectView::Builtin(builtin_table()[i].1)),
        ));
        r
    }
}

/// The error for a call with `got` arguments where `want` are due.
pub fn arity_error(got: usize, want: usize) -> (r: Object)
    ensures
        r@ == ObjectView::Error(wrong_arity(got as nat, want as nat)),
{
    let mut message = String::from_str("wrong number of arguments. got=");
    append_u64(&mut message, got as u64);
    message.append(", want=");
    append_u64(&mut message, want as u64);
    Object::Error(message)
}

fn array_expected(o: &Object) -> (r: Object)
    ensures
        r@ == ObjectView::Error(not_an_array(o@)),
{
    let mut message = String::from_str("argument to `first` must be ARRAY, got=");
    message.append(o.object_type());
    Object::Error(message)
}

fn length_to_integer(n: usize) -> (r: i64)
    ensures
        r == length_value(n),
{
    if n as u64 <= 0x7fff_ffff_ffff_ffffu64 {
        n as i64
    } else {
        i64::MAX
    }
}

/// `len(x)`.
pub fn b_len(args: Vec<Object>) -> (r: Object)
    ensures
        r@ == len_result(objects_view(args@)),
{
    if args.len() != 1 {
        return arity_error(args.len(), 1);
    }
    match &args[0] {
        Object::StringObj(s) => Object::Integer(length_to_integer(s.as_str().len())),
        Object::Array(elements) => {
            assert(args@[0]@ == ObjectView::Array(objects_view(elements@)));
            Object::Integer(length_to_integer(elements.len()))
        },
        other => {
            let mut message = String::from_str("argument to 'len' not supported, got ");
            message.append(other.object_type());
            Object::Error(message)
        },
    }
}

/// `first(arr)`.
pub fn b_first(args: Vec<Object>) -> (r: Object)
    ensures
        r@ == first_result(objects_view(args@)),
{
    if args.len() != 1 {
        return arity_error(args.len(), 1);
    }
    match &args[0] {
        Object::Array(elements) => {
            assert(args@[0]@ == ObjectView::Array(objects_view(elements@)));
            if elements.len() > 0 {
                elements[0].clone()
            } else {
                Object::Null
            }
        },
        other => array_expected(other),
    }
}

/// `last(arr)`.
pub fn b_last(args: Vec<Object>) -> (r: Object)
    ensures
        r@ == last_result(objects_view(args@)),
{
    if args.len() != 1 {
        return arity_error(args.len(), 1);
    }
    match &args[0] {
        Object::Array(elements) => {
            assert(args@[0]@ == ObjectView::Array(objects_view(elements@)));
            if elements.len() > 0 {
                elements[elements.len() - 1].clone()
            } else {
                Object::Null
            }
        },
        other => array_expected(other),
    }
}

/// `rest(arr)`.
pub fn b_rest(args: Vec<Object>) -> (r: Object)
    ensures
        r@ == rest_result(objects_view(args@)),
{
    if args.len() != 1 {
        return arity_error(args.len(), 1);
    }
    match &args[0] {
        Object::Array(elements) => {
            if elements.len() > 0 {
                let mut new_elements: Vec<Object> = Vec::new();
                let mut i: usize = 1;
                while i < elements.len()
                    invariant
                        1 <= i <= elements.len(),
                        new_elements.len() == i - 1,
                        forall|j: int|
                            0 <= j < i - 1 ==> new_elements@[j]@ == elements@[j + 1]@,
                    decreases elements.len() - i,
                {
                    new_elements.push(elements[i].clone());
                    i += 1;
                }
                assert(objects_view(new_elements@) =~= objects_view(elements@).subrange(
                    1,
                    elements@.len() as int,
                ));
                Object::Array(new_elements)
            } else {
                Object::Null
            }
        },
        other => array_expected(other),
    }
}

/// `push(arr, v)`.
pub fn b_push(args: Vec<Object>) -> (r: Object)
    ensures
        r@ == push_result(objects_view(args@)),
{
    if args.len() != 2 {
        return arity_error(args.len(), 2);
    }
    match &args[0] {
        Object::Array(elements) => {
            if elements.len() > 0 {
                let mut new_elements: Vec<Object> = Vec::new();
                let mut i: usize = 0;
                while i < elements.len()
                    invariant
                        i <= elements.len(),
                        new_elements.len() == i,
                        forall|j: int| 0 <= j < i ==> new_elements@[j]@ == elements@[j]@,
                    decreases elements.len() - i,
                {
                    new_elements.push(elements[i].clone());
                    i += 1;
                }
                new_elements.push(args[1].clone());
                assert(objects_view(new_elements@) =~= objects_view(elements@).push(args@[1]@));
                Object::Array(new_elements)
            } else {
                Object::Null
            }
        },
        other => array_expected(other),
    }
}

/// `puts(...)`: adds the canonical text of each argument to the output as
/// a line of its own, and returns `null`.
pub fn b_puts(args: Vec<Object>, output: &mut Vec<String>) -> (r: Object)
    ensures
        r@ == ObjectView::Null,
        strings_view(final(output)@) == strings_view(old(output)@) + puts_lines(
            objects_view(args@),
        ),
{
    let mut i: usize = 0;
    while i < args.len()
        invariant
            i <= args.len(),
            strings_view(output@) == strings_view(old(output)@) + puts_lines(
                objects_view(args@),
            ).take(i as int),
        decreases args.len() - i,
    {
        let line = args[i].inspect();
        let ghost before = strings_view(output@);
        output.push(line);
        i += 1;
        assert(strings_view(output@) =~= strings_view(old(output)@) + puts_lines(
            objects_view(args@),
        ).take(i as int)) by {
            assert(strings_view(output@) =~= before.push(line@));
        }
    }
    assert(puts_lines(objects_view(args@)).take(i as int) =~= puts_lines(objects_view(args@)));
    Object::Null
}

/// Calls a built-in with the given arguments.
pub fn call_builtin(f: BuiltinFunction, args: Vec<Object>, output: &mut Vec<String>) -> (r: Object)
    ensures
        r@ == builtin_result(f, objects_view(args@)),
        strings_view(final(output)@) == strings_view(old(output)@) + builtin_output(
            f,
            objects_view(args@),
        ),
{
    match f {
        BuiltinFunction::Len => b_len(args),
        BuiltinFunction::First => b_first(args),
        BuiltinFunction::Last => b_last(args),
        BuiltinFunction::Rest => b_rest(args),
        BuiltinFunction::Push => b_push(args),
        BuiltinFunction::Puts => b_puts(args, output),
    }
}

} // verus!
