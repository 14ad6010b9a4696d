use monkey::builtins::{
    arity_error, b_first, b_last, b_len, b_push, b_puts, b_rest, call_builtin, Builtins,
};
use monkey::environment::Environment;
use monkey::evaluator::{unwrap_return_value, Evaluator, DEFAULT_MAX_DEPTH};
use monkey::object::{find_key, BuiltinFunction, HashKey, Object};
use monkey::operators::{eval_index, eval_infix, eval_prefix};
use monkey::ast::{InfixOp, PrefixOp};
use monkey::repl::{format_answer, format_parse_errors, Repl, PROMPT};
use monkey::text::{append_i64, append_u64, clone_strings, i64_to_string, parse_i64, to_chars};

fn integer(v: i64) -> Object {
    Object::Integer(v)
}

fn string(s: &str) -> Object {
    Object::StringObj(s.to_string())
}

fn name(s: &str) -> String {
    s.to_string()
}

#[test]
fn all_builtins_lists_six_in_order() {
    let all = Builtins.all_builtins();
    let names: Vec<&str> = all.iter().map(|(n, _)| n.as_str()).collect();
    assert_eq!(names, vec!["len", "first", "last", "rest", "push", "puts"]);
    assert!(matches!(all[0].1, Object::Builtin(BuiltinFunction::Len)));
    assert!(matches!(all[1].1, Object::Builtin(BuiltinFunction::First)));
    assert!(matches!(all[2].1, Object::Builtin(BuiltinFunction::Last)));
    assert!(matches!(all[3].1, Object::Builtin(BuiltinFunction::Rest)));
    assert!(matches!(all[4].1, Object::Builtin(BuiltinFunction::Push)));
    assert!(matches!(all[5].1, Object::Builtin(BuiltinFunction::Puts)));
}

#[test]
fn builtins_called_directly() {
    assert!(matches!(b_len(vec![string("")]), Object::Integer(0)));
    assert!(matches!(b_len(vec![string("abc")]), Object::Integer(3)));
    assert!(matches!(b_len(vec![Object::Array(vec![integer(1), integer(2)])]), Object::Integer(2)));
    assert_eq!(b_len(vec![integer(1)]).inspect(), "ERROR: argument to 'len' not supported, got INTEGER");
    assert_eq!(b_len(vec![]).inspect(), "ERROR: wrong number of arguments. got=0, want=1");
    assert!(matches!(b_first(vec![Object::Array(vec![])]), Object::Null));
    assert!(matches!(b_last(vec![Object::Array(vec![])]), Object::Null));
    assert!(matches!(b_first(vec![Object::Array(vec![integer(4), integer(5)])]), Object::Integer(4)));
    assert!(matches!(b_last(vec![Object::Array(vec![integer(4), integer(5)])]), Object::Integer(5)));
    assert_eq!(b_rest(vec![Object::Array(vec![integer(1)])]).inspect(), "[]");
    assert_eq!(b_rest(vec![Object::Array(vec![integer(1), integer(2), integer(3)])]).inspect(), "[2, 3]");
    assert!(matches!(b_rest(vec![Object::Array(vec![])]), Object::Null));
    assert_eq!(b_push(vec![Object::Array(vec![integer(1)]), string("x")]).inspect(), "[1, x]");
    assert!(matches!(b_push(vec![Object::Array(vec![]), integer(1)]), Object::Null));
    assert_eq!(
        b_push(vec![integer(1), integer(2)]).inspect(),
        "ERROR: argument to `first` must be ARRAY, got=INTEGER"
    );
    assert_eq!(
        b_push(vec![integer(1)]).inspect(),
        "ERROR: wrong number of arguments. got=1, want=2"
    );
    assert_eq!(
        b_rest(vec![Object::Null]).inspect(),
        "ERROR: argument to `first` must be ARRAY, got=NULL"
    );
    assert_eq!(
        b_last(vec![Object::Boolean(true)]).inspect(),
        "ERROR: argument to `first` must be ARRAY, got=BOOLEAN"
    );
    assert_eq!(arity_error(12, 340).inspect(), "ERROR: wrong number of arguments. got=12, want=340");
}

#[test]
fn puts_adds_lines_in_order() {
    let mut out = vec![name("before")];
    let r = b_puts(vec![integer(1), string("two"), Object::Null], &mut out);
    assert!(matches!(r, Object::Null));
    assert_eq!(out, vec!["before", "1", "two", "null"]);
    let r = call_builtin(BuiltinFunction::Puts, vec![Object::Boolean(false)], &mut out);
    assert!(matches!(r, Object::Null));
    assert_eq!(out.len(), 5);
    assert_eq!(out[4], "false");
    let r = call_builtin(BuiltinFunction::Len, vec![string("ab")], &mut out);
    assert!(matches!(r, Object::Integer(2)));
    assert_eq!(out.len(), 5);
}

#[test]
fn environment_get_and_set() {
    let mut env = Environment::new();
    assert_eq!(env.len(), 1);
    assert!(env.get(0, &name("x")).is_none());
    env.set(0, name("x"), integer(5));
    assert!(matches!(env.get(0, &name("x")), Some(Object::Integer(5))));
    env.set(0, name("y"), integer(7));
    env.set(0, name("x"), integer(6));
    assert!(matches!(env.get(0, &name("x")), Some(Object::Integer(6))));
    assert!(matches!(env.get(0, &name("y")), Some(Object::Integer(7))));
    assert_eq!(env.frames[0].bindings.len(), 2);
}

#[test]
fn enclosed_frame_looks_outwards_and_binds_inwards() {
    let mut env = Environment::new();
    env.set(0, name("x"), integer(1));
    let inner = env.new_enclosed(0);
    assert_eq!(inner, 1);
    let innermost = env.new_enclosed(inner);
    assert_eq!(innermost, 2);
    assert!(matches!(env.get(innermost, &name("x")), Some(Object::Integer(1))));
    env.set(inner, name("x"), integer(2));
    assert!(matches!(env.get(innermost, &name("x")), Some(Object::Integer(2))));
    assert!(matches!(env.get(inner, &name("x")), Some(Object::Integer(2))));
    assert!(matches!(env.get(0, &name("x")), Some(Object::Integer(1))));
    env.set(innermost, name("z"), integer(3));
    assert!(env.get(inner, &name("z")).is_none());
    assert!(env.get(0, &name("z")).is_none());
}

#[test]
fn rebinding_is_seen_through_every_holder_of_the_frame() {
    let mut env = Environment::new();
    env.set(0, name("x"), integer(5));
    let closure_frame = env.new_enclosed(0);
    assert!(matches!(env.get(closure_frame, &name("x")), Some(Object::Integer(5))));
    env.set(0, name("x"), integer(6));
    assert!(matches!(env.get(closure_frame, &name("x")), Some(Object::Integer(6))));
    assert!(matches!(env.get(0, &name("x")), Some(Object::Integer(6))));
}

#[test]
fn frames_that_do_not_exist() {
    let mut env = Environment::new();
    assert!(env.get(7, &name("x")).is_none());
    env.set(7, name("x"), integer(1));
    assert_eq!(env.len(), 1);
    assert!(env.get(0, &name("x")).is_none());
    let orphan = env.new_enclosed(9);
    env.set(0, name("x"), integer(1));
    assert!(env.get(orphan, &name("x")).is_none());
}

#[test]
fn decimal_numerals() {
    assert_eq!(i64_to_string(0), "0");
    assert_eq!(i64_to_string(7), "7");
    assert_eq!(i64_to_string(10), "10");
    assert_eq!(i64_to_string(-1), "-1");
    assert_eq!(i64_to_string(1234567890), "1234567890");
    assert_eq!(i64_to_string(i64::MAX), "9223372036854775807");
    assert_eq!(i64_to_string(i64::MIN), "-9223372036854775808");
    let mut s = name("n=");
    append_i64(&mut s, -42);
    append_u64(&mut s, u64::MAX);
    assert_eq!(s, "n=-4218446744073709551615");
}

#[test]
fn reading_numerals() {
    assert_eq!(parse_i64("0"), Some(0));
    assert_eq!(parse_i64("007"), Some(7));
    assert_eq!(parse_i64("9223372036854775807"), Some(i64::MAX));
    assert_eq!(parse_i64("9223372036854775808"), None);
    assert_eq!(parse_i64("99999999999999999999999"), None);
    assert_eq!(parse_i64(""), None);
    assert_eq!(parse_i64("-1"), None);
    assert_eq!(parse_i64("+1"), None);
    assert_eq!(parse_i64("12a"), None);
    assert_eq!(parse_i64("1 2"), None);
    assert_eq!(parse_i64("\u{661}"), None);
}

#[test]
fn characters_and_copies() {
    assert_eq!(to_chars("a\u{e9}\u{65e5}"), vec!['a', '\u{e9}', '\u{65e5}']);
    assert!(to_chars("").is_empty());
    let names = vec![name("a"), name("bc")];
    assert_eq!(clone_strings(&names), names);
}

#[test]
fn operators_on_values() {
    assert!(matches!(eval_prefix(PrefixOp::Minus, &integer(5)), Object::Integer(-5)));
    assert!(matches!(eval_prefix(PrefixOp::Bang, &Object::Null), Object::Boolean(true)));
    assert!(matches!(eval_prefix(PrefixOp::Bang, &integer(0)), Object::Boolean(false)));
    assert!(matches!(eval_infix(InfixOp::Plus, &integer(2), &integer(3)), Object::Integer(5)));
    assert!(matches!(eval_infix(InfixOp::Minus, &integer(2), &integer(3)), Object::Integer(-1)));
    assert!(matches!(eval_infix(InfixOp::Asterisk, &integer(2), &integer(3)), Object::Integer(6)));
    assert!(matches!(eval_infix(InfixOp::Slash, &integer(7), &integer(2)), Object::Integer(3)));
    assert!(matches!(eval_infix(InfixOp::Lt, &integer(2), &integer(3)), Object::Boolean(true)));
    assert!(matches!(eval_infix(InfixOp::Gt, &integer(2), &integer(3)), Object::Boolean(false)));
    assert!(matches!(eval_infix(InfixOp::Eq, &Object::Null, &Object::Null), Object::Boolean(true)));
    assert!(matches!(eval_infix(InfixOp::NotEq, &Object::Null, &integer(0)), Object::Boolean(true)));
    assert_eq!(
        eval_infix(InfixOp::Lt, &Object::Null, &Object::Null).inspect(),
        "ERROR: unknown operator: NULL < NULL"
    );
    assert_eq!(
        eval_infix(InfixOp::Slash, &string("a"), &string("b")).inspect(),
        "ERROR: unknown operator: STRING / STRING"
    );
    assert_eq!(
        eval_infix(InfixOp::Asterisk, &Object::Null, &integer(1)).inspect(),
        "ERROR: type mismatch: NULL * INTEGER"
    );
    let array = Object::Array(vec![integer(10), integer(20)]);
    assert!(matches!(eval_index(&array, &integer(1)), Object::Integer(20)));
    assert!(matches!(eval_index(&array, &integer(2)), Object::Null));
    assert!(matches!(eval_index(&array, &integer(i64::MIN)), Object::Null));
    assert!(matches!(eval_index(&array, &integer(i64::MAX)), Object::Null));
}

#[test]
fn hash_keys() {
    assert!(matches!(integer(1).hash_key(), Some(HashKey::Integer(1))));
    assert!(matches!(Object::Boolean(true).hash_key(), Some(HashKey::Boolean(true))));
    assert!(matches!(string("a").hash_key(), Some(HashKey::Str(_))));
    assert!(Object::Null.hash_key().is_none());
    assert!(Object::Array(vec![]).hash_key().is_none());
    assert!(HashKey::Str(name("a")).same(&HashKey::Str(name("a"))));
    assert!(!HashKey::Str(name("1")).same(&HashKey::Integer(1)));
    assert!(!HashKey::Integer(1).same(&HashKey::Boolean(true)));
    assert!(matches!(HashKey::Integer(3).to_object(), Object::Integer(3)));
    let pairs = vec![(HashKey::Integer(1), integer(10)), (HashKey::Str(name("k")), integer(20))];
    assert_eq!(find_key(&pairs, &HashKey::Str(name("k"))), 1);
    assert_eq!(find_key(&pairs, &HashKey::Integer(1)), 0);
    assert_eq!(find_key(&pairs, &HashKey::Integer(2)), 2);
}

#[test]
fn value_equality_and_copies() {
    let a = Object::Array(vec![integer(1), string("x"), Object::Hash(vec![(HashKey::Integer(1), integer(2))])]);
    let b = a.clone();
    assert!(a.equals(&b));
    assert_eq!(a.inspect(), b.inspect());
    assert!(!a.equals(&Object::Array(vec![integer(1)])));
    assert!(integer(1).same_kind_as(&integer(2)));
    assert!(!integer(1).same_kind_as(&string("1")));
    assert!(Object::Error(name("e")).is_error());
    assert!(!Object::Null.is_error());
    assert!(matches!(
        unwrap_return_value(Object::ReturnValue(Box::new(integer(3)))),
        Object::Integer(3)
    ));
    assert!(matches!(unwrap_return_value(integer(4)), Object::Integer(4)));
}

#[test]
fn new_evaluator_binds_the_builtins() {
    let mut evaluator = Evaluator::new();
    assert_eq!(evaluator.max_depth, DEFAULT_MAX_DEPTH);
    assert_eq!(evaluator.env.len(), 1);
    for builtin in ["len", "first", "last", "rest", "push", "puts"] {
        assert!(matches!(evaluator.env.get(0, &name(builtin)), Some(Object::Builtin(_))));
    }
    assert!(evaluator.env.get(0, &name("nothing")).is_none());
    assert!(evaluator.take_output().is_empty());
}

#[test]
fn apply_function_directly() {
    let mut evaluator = Evaluator::new();
    let r = evaluator.apply_function(Object::Builtin(BuiltinFunction::Len), vec![string("abcd")], 0);
    assert!(matches!(r, Object::Integer(4)));
    let r = evaluator.apply_function(integer(1), vec![], 5);
    assert_eq!(r.inspect(), "ERROR: not a function: INTEGER");
}

#[test]
fn report_of_syntax_errors() {
    let report = format_parse_errors(&vec![name("first"), name("second")]);
    assert_eq!(
        report,
        "\n     /\\_/\\\n    ( o.o )\n    > ^ <\n\nOops! We ran into parser errors\n\t-> first\n\t-> second\n"
    );
    assert_eq!(
        format_parse_errors(&vec![]),
        "\n     /\\_/\\\n    ( o.o )\n    > ^ <\n\nOops! We ran into parser errors\n"
    );
}

#[test]
fn answer_of_a_turn() {
    assert_eq!(format_answer(&vec![], "5"), "5\n");
    assert_eq!(format_answer(&vec![name("a"), name("b")], "null"), "a\nb\nnull\n");
    assert_eq!(PROMPT, ">> ");
}

#[test]
fn turns_share_one_evaluator() {
    let mut repl = Repl::new();
    assert_eq!(repl.feed("let x = 5;"), "null\n");
    assert_eq!(repl.feed("x * 2"), "10\n");
    assert_eq!(repl.feed("let double = fn(n) { n * 2 };"), "null\n");
    assert_eq!(repl.feed("double(x)\n"), "10\n");
    assert_eq!(repl.feed("puts(\"hi\", x); x"), "hi\n5\n5\n");
    assert_eq!(repl.feed("y"), "ERROR: identifier not found: y\n");
    assert_eq!(repl.feed(""), "null\n");
}

#[test]
fn malformed_unit_is_reported_and_not_run() {
    let mut repl = Repl::new();
    assert_eq!(repl.feed("let x = 1;"), "null\n");
    let frames_before = repl.evaluator.env.len();
    let report = repl.feed("let x = 2; puts(x); fn() { 1 }(); let y 3;");
    assert_eq!(
        report,
        "\n     /\\_/\\\n    ( o.o )\n    > ^ <\n\nOops! We ran into parser errors\n\t-> expected next token to be =, got INT instead\n"
    );
    assert_eq!(repl.evaluator.env.len(), frames_before);
    assert!(repl.evaluator.output.is_empty());
    assert_eq!(repl.feed("x"), "1\n");
    let report = repl.feed("let 1; )");
    assert!(report.ends_with(
        "\t-> expected next token to be IDENT, got INT instead\n\t-> no prefix parse function for ) found\n"
    ));
}
