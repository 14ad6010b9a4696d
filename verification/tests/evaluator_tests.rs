use monkey::evaluator::Evaluator;
use monkey::lexer::tokenize;
use monkey::object::Object;
use monkey::parser::parse;

fn run_in(evaluator: &mut Evaluator, source: &str) -> Object {
    let (program, errors) = parse(tokenize(source));
    assert!(errors.is_empty(), "syntax errors in {:?}: {:?}", source, errors);
    evaluator.eval_program(program)
}

fn run(source: &str) -> Object {
    let mut evaluator = Evaluator::new();
    run_in(&mut evaluator, source)
}

fn expect_integer(source: &str, expected: i64) {
    match run(source) {
        Object::Integer(v) => assert_eq!(v, expected, "{}", source),
        other => panic!("{}: expected integer {}, got {:?}", source, expected, other),
    }
}

fn expect_boolean(source: &str, expected: bool) {
    match run(source) {
        Object::Boolean(v) => assert_eq!(v, expected, "{}", source),
        other => panic!("{}: expected boolean {}, got {:?}", source, expected, other),
    }
}

fn expect_null(source: &str) {
    match run(source) {
        Object::Null => {}
        other => panic!("{}: expected null, got {:?}", source, other),
    }
}

fn expect_error(source: &str, expected: &str) {
    match run(source) {
        Object::Error(message) => assert_eq!(message, expected, "{}", source),
        other => panic!("{}: expected error {:?}, got {:?}", source, expected, other),
    }
}

#[test]
fn precedence_of_sum_and_product() {
    expect_integer("1 + 2 * 3", 7);
    expect_integer("(1 + 2) * 3", 9);
}

#[test]
fn integer_arithmetic() {
    expect_integer("5", 5);
    expect_integer("-5", -5);
    expect_integer("--5", 5);
    expect_integer("5 + 5 + 5 + 5 - 10", 10);
    expect_integer("2 * 2 * 2 * 2 * 2", 32);
    expect_integer("-50 + 100 + -50", 0);
    expect_integer("5 * 2 + 10", 20);
    expect_integer("5 + 2 * 10", 25);
    expect_integer("20 + 2 * -10", 0);
    expect_integer("50 / 2 * 2 + 10", 60);
    expect_integer("2 * (5 + 10)", 30);
    expect_integer("3 * 3 * 3 + 10", 37);
    expect_integer("(5 + 10 * 2 + 15 / 3) * 2 + -10", 50);
}

#[test]
fn division_rounds_toward_zero() {
    expect_integer("7 / 2", 3);
    expect_integer("-7 / 2", -3);
    expect_integer("7 / -2", -3);
    expect_integer("-7 / -2", 3);
    expect_integer("0 / 5", 0);
}

#[test]
fn division_by_zero_is_an_error() {
    expect_error("1 / 0", "division by zero");
    expect_error("0 / 0", "division by zero");
}

#[test]
fn arithmetic_wraps_at_the_ends_of_the_range() {
    expect_integer("9223372036854775807 + 1", i64::MIN);
    expect_integer("-9223372036854775807 - 2", i64::MAX);
    expect_integer("9223372036854775807 * 2", -2);
    expect_integer("(-9223372036854775807 - 1) / -1", i64::MIN);
    expect_integer("-(-9223372036854775807 - 1)", i64::MIN);
}

#[test]
fn boolean_expressions() {
    expect_boolean("true", true);
    expect_boolean("false", false);
    expect_boolean("1 < 2", true);
    expect_boolean("1 > 2", false);
    expect_boolean("1 < 1", false);
    expect_boolean("1 == 1", true);
    expect_boolean("1 != 1", false);
    expect_boolean("1 == 2", false);
    expect_boolean("1 != 2", true);
    expect_boolean("true == true", true);
    expect_boolean("false == false", true);
    expect_boolean("true == false", false);
    expect_boolean("true != false", true);
    expect_boolean("(1 < 2) == true", true);
    expect_boolean("(1 > 2) == true", false);
}

#[test]
fn bang_negates_truthiness() {
    expect_boolean("!true", false);
    expect_boolean("!false", true);
    expect_boolean("!5", false);
    expect_boolean("!0", false);
    expect_boolean("!!true", true);
    expect_boolean("!!5", true);
    expect_boolean("!\"\"", false);
    expect_boolean("![]", false);
    expect_boolean("!if (false) { 1 }", true);
}

#[test]
fn zero_is_truthy() {
    expect_integer("if (0) { 1 } else { 2 }", 1);
}

#[test]
fn only_false_and_null_are_falsy() {
    expect_integer("if (false) { 1 } else { 2 }", 2);
    expect_integer("if (if (false) { 1 }) { 1 } else { 2 }", 2);
    expect_integer("if (true) { 1 } else { 2 }", 1);
    expect_integer("if (\"\") { 1 } else { 2 }", 1);
    expect_integer("if ([]) { 1 } else { 2 }", 1);
    expect_integer("if ({}) { 1 } else { 2 }", 1);
    expect_integer("if (fn() { 1 }) { 1 } else { 2 }", 1);
}

#[test]
fn if_without_alternative_gives_null() {
    expect_null("if (false) { 10 }");
    expect_null("if (1 > 2) { 10 }");
    expect_integer("if (1 < 2) { 10 }", 10);
    expect_integer("if (1 > 2) { 10 } else { 20 }", 20);
}

#[test]
fn condition_error_propagates() {
    expect_error("if (foo) { 1 } else { 2 }", "identifier not found: foo");
}

#[test]
fn return_statements() {
    expect_integer("return 10;", 10);
    expect_integer("return 10; 9;", 10);
    expect_integer("return 2 * 5; 9;", 10);
    expect_integer("9; return 2 * 5; 9;", 10);
}

#[test]
fn return_short_circuits_nested_blocks() {
    expect_integer("if (true) { if (true) { return 10; } return 1; } return 2;", 10);
    expect_integer(
        "let f = fn() { if (true) { if (true) { return 10; } return 1; } return 2; }; f();",
        10,
    );
}

#[test]
fn return_is_unwrapped_once_at_the_call() {
    expect_integer("let f = fn() { return 1; 2 }; let g = fn() { f(); 3 }; g();", 3);
    expect_integer("let f = fn() { return 1; }; f() + 1", 2);
}

#[test]
fn type_mismatch_is_an_error_value() {
    expect_error("5 + true", "type mismatch: INTEGER + BOOLEAN");
    expect_error("5 + true; 5;", "type mismatch: INTEGER + BOOLEAN");
    expect_error("\"a\" - 1", "type mismatch: STRING - INTEGER");
    expect_error("1 < \"a\"", "type mismatch: INTEGER < STRING");
}

#[test]
fn unknown_operators() {
    expect_error("-true", "unknown operator: -BOOLEAN");
    expect_error("-\"a\"", "unknown operator: -STRING");
    expect_error("true + false", "unknown operator: BOOLEAN + BOOLEAN");
    expect_error("5; true + false; 5", "unknown operator: BOOLEAN + BOOLEAN");
    expect_error("if (10 > 1) { true + false; }", "unknown operator: BOOLEAN + BOOLEAN");
    expect_error("\"Hello\" - \"World\"", "unknown operator: STRING - STRING");
    expect_error("[1] + [2]", "unknown operator: ARRAY + ARRAY");
}

#[test]
fn error_stops_the_enclosing_evaluation() {
    expect_error(
        "if (10 > 1) { if (10 > 1) { return true + false; } return 1; }",
        "unknown operator: BOOLEAN + BOOLEAN",
    );
    expect_error("[1, foo, bar]", "identifier not found: foo");
    expect_error("len(foo, bar)", "identifier not found: foo");
    expect_error("foo(bar)", "identifier not found: foo");
    expect_error("-foo", "identifier not found: foo");
    expect_error("foo + bar", "identifier not found: foo");
    expect_error("1 + bar", "identifier not found: bar");
    expect_error("foo[bar]", "identifier not found: foo");
    expect_error("[1][bar]", "identifier not found: bar");
    expect_error("{foo: bar}", "identifier not found: foo");
    expect_error("{1: bar}", "identifier not found: bar");
    expect_error("let x = foo; 5", "identifier not found: foo");
    expect_error("return foo; 5", "identifier not found: foo");
}

#[test]
fn an_error_in_a_let_binds_nothing() {
    let mut evaluator = Evaluator::new();
    assert!(matches!(run_in(&mut evaluator, "let x = 1 + true;"), Object::Error(_)));
    match run_in(&mut evaluator, "x") {
        Object::Error(message) => assert_eq!(message, "identifier not found: x"),
        other => panic!("expected an error, got {:?}", other),
    }
}

#[test]
fn unbound_identifier() {
    expect_error("foobar", "identifier not found: foobar");
}

#[test]
fn let_statements() {
    expect_integer("let a = 5; a;", 5);
    expect_integer("let a = 5 * 5; a;", 25);
    expect_integer("let a = 5; let b = a; b;", 5);
    expect_integer("let a = 5; let b = a; let c = a + b + 5; c;", 15);
    expect_null("let a = 5;");
    expect_null("");
}

#[test]
fn function_value() {
    match run("fn(x) { x + 2; };") {
        Object::Function { parameters, body, env } => {
            assert_eq!(parameters, vec!["x".to_string()]);
            assert_eq!(body.statements.len(), 1);
            assert_eq!(body.statements[0].to_text(), "(x + 2)");
            assert_eq!(env, 0);
        }
        other => panic!("expected a function, got {:?}", other),
    }
}

#[test]
fn function_application() {
    expect_integer("let identity = fn(x) { x; }; identity(5);", 5);
    expect_integer("let identity = fn(x) { return x; }; identity(5);", 5);
    expect_integer("let double = fn(x) { x * 2; }; double(5);", 10);
    expect_integer("let add = fn(x, y) { x + y; }; add(5, 5);", 10);
    expect_integer("let add = fn(x, y) { x + y; }; add(5 + 5, add(5, 5));", 20);
    expect_integer("fn(x) { x; }(5)", 5);
    expect_null("fn() { }()");
}

#[test]
fn arguments_are_evaluated_left_to_right() {
    let mut evaluator = Evaluator::new();
    run_in(&mut evaluator, "let f = fn(a, b) { 0 }; f(puts(1), puts(2));");
    assert_eq!(evaluator.take_output(), vec!["1".to_string(), "2".to_string()]);
}

#[test]
fn wrong_number_of_arguments_to_a_function() {
    expect_error("fn(x) { x }()", "wrong number of arguments. got=0, want=1");
    expect_error("fn(x) { x }(1, 2)", "wrong number of arguments. got=2, want=1");
    expect_error("fn() { 1 }(1)", "wrong number of arguments. got=1, want=0");
}

#[test]
fn calling_what_is_no_function() {
    expect_error("5()", "not a function: INTEGER");
    expect_error("\"f\"(1)", "not a function: STRING");
    expect_error("let x = true; x(1, 2)", "not a function: BOOLEAN");
}

#[test]
fn closures_see_their_defining_scope() {
    expect_integer(
        "let newAdder = fn(x) { fn(y) { x + y }; }; let addTwo = newAdder(2); addTwo(3);",
        5,
    );
}

#[test]
fn closures_capture_by_reference() {
    expect_integer("let x = 5; let f = fn() { x }; let x = 6; f();", 6);
    expect_integer("let f = fn() { y }; let y = 7; f();", 7);
    expect_integer(
        "let make = fn() { let a = 1; let get = fn() { a }; let a = 2; get }; make()();",
        2,
    );
}

#[test]
fn inner_let_shadows_and_leaves_the_outer_binding() {
    expect_integer("let x = 5; let f = fn() { let x = 10; x }; f() + x;", 15);
    expect_integer("let x = 5; let f = fn(x) { x }; f(1) + x;", 6);
}

#[test]
fn blocks_share_the_frame_of_their_function() {
    expect_integer("let x = 1; if (true) { let x = 2; } x;", 2);
    expect_integer("let f = fn() { if (true) { let y = 3; } y }; f();", 3);
}

#[test]
fn recursion() {
    expect_integer(
        "let fib = fn(n) { if (n < 2) { n } else { fib(n - 1) + fib(n - 2) } }; fib(15);",
        610,
    );
    expect_integer(
        "let count = fn(n) { if (n == 0) { 0 } else { 1 + count(n - 1) } }; count(100);",
        100,
    );
}

#[test]
fn higher_order_functions() {
    expect_integer(
        "let twice = fn(f, x) { f(f(x)) }; let inc = fn(x) { x + 1 }; twice(inc, 5);",
        7,
    );
}

#[test]
fn call_depth_is_limited() {
    expect_error("let f = fn() { f() }; f();", "maximum call depth exceeded");
    let mut shallow = Evaluator::with_max_depth(3);
    let deep = "let count = fn(n) { if (n == 0) { 0 } else { 1 + count(n - 1) } };";
    run_in(&mut shallow, deep);
    assert!(matches!(run_in(&mut shallow, "count(2)"), Object::Integer(2)));
    match run_in(&mut shallow, "count(3)") {
        Object::Error(message) => assert_eq!(message, "maximum call depth exceeded"),
        other => panic!("expected an error, got {:?}", other),
    }
    let mut none = Evaluator::with_max_depth(0);
    assert!(matches!(run_in(&mut none, "len(\"abc\")"), Object::Integer(3)));
    assert!(matches!(run_in(&mut none, "fn() { 1 }()"), Object::Error(_)));
}

#[test]
fn string_values() {
    match run("\"Hello World!\"") {
        Object::StringObj(s) => assert_eq!(s, "Hello World!"),
        other => panic!("expected a string, got {:?}", other),
    }
    match run("\"Hello\" + \" \" + \"World!\"") {
        Object::StringObj(s) => assert_eq!(s, "Hello World!"),
        other => panic!("expected a string, got {:?}", other),
    }
    expect_boolean("\"a\" == \"a\"", true);
    expect_boolean("\"a\" == \"b\"", false);
    expect_boolean("\"a\" != \"b\"", true);
    expect_boolean("\"a\" != \"a\"", false);
}

#[test]
fn equality_across_kinds() {
    expect_boolean("1 == true", false);
    expect_boolean("1 != true", true);
    expect_boolean("\"1\" == 1", false);
    expect_boolean("if (false) { 1 } == if (false) { 2 }", true);
    expect_boolean("[1, 2] == [1, 2]", true);
    expect_boolean("[1, 2] == [2, 1]", false);
    expect_boolean("[1, 2] != [1]", true);
    expect_boolean("[[1], {1: 2}] == [[1], {1: 2}]", true);
    expect_boolean("{1: 2, 3: 4} == {3: 4, 1: 2}", true);
    expect_boolean("{1: 2, 3: 4} == {1: 2, 3: 5}", false);
    expect_boolean("{1: 2} == {1: 2, 3: 4}", false);
    expect_boolean("len == len", true);
    expect_boolean("len == first", false);
    expect_boolean("let f = fn() { 1 }; f == f", false);
    expect_boolean("let f = fn() { 1 }; f != f", true);
}

#[test]
fn len_builtin() {
    expect_integer("len(\"\")", 0);
    expect_integer("len(\"four\")", 4);
    expect_integer("len(\"hello world\")", 11);
    expect_integer("len([1, 2, 3])", 3);
    expect_integer("len([])", 0);
    expect_error("len(1)", "argument to 'len' not supported, got INTEGER");
    expect_error("len(true)", "argument to 'len' not supported, got BOOLEAN");
    expect_error("len(\"one\", \"two\")", "wrong number of arguments. got=2, want=1");
    expect_error("len()", "wrong number of arguments. got=0, want=1");
}

#[test]
fn len_counts_bytes() {
    expect_integer("len(\"h\u{e9}llo\")", 6);
    expect_integer("len(\"\u{65e5}\u{672c}\")", 6);
}

#[test]
fn first_and_last_builtins() {
    expect_null("first([])");
    expect_null("last([])");
    expect_integer("first([1, 2, 3])", 1);
    expect_integer("last([1, 2, 3])", 3);
    expect_integer("first([7])", 7);
    expect_integer("last([7])", 7);
    expect_error("first(1)", "argument to `first` must be ARRAY, got=INTEGER");
    expect_error("last(\"abc\")", "argument to `first` must be ARRAY, got=STRING");
    expect_error("first([1], [2])", "wrong number of arguments. got=2, want=1");
    expect_error("last()", "wrong number of arguments. got=0, want=1");
}

#[test]
fn rest_builtin() {
    match run("rest([1])") {
        Object::Array(elements) => assert!(elements.is_empty()),
        other => panic!("expected an empty array, got {:?}", other),
    }
    assert_eq!(run("rest([1, 2, 3])").inspect(), "[2, 3]");
    assert_eq!(run("rest(rest([1, 2, 3]))").inspect(), "[3]");
    expect_null("rest([])");
    expect_error("rest(1)", "argument to `first` must be ARRAY, got=INTEGER");
    expect_error("rest([1], 2)", "wrong number of arguments. got=2, want=1");
    assert_eq!(run("let a = [1, 2]; rest(a); a").inspect(), "[1, 2]");
}

#[test]
fn push_builtin() {
    assert_eq!(run("push([1], 2)").inspect(), "[1, 2]");
    assert_eq!(run("push([1, 2], [3])").inspect(), "[1, 2, [3]]");
    assert_eq!(run("let a = [1]; push(a, 2); a").inspect(), "[1]");
    expect_null("push([], 1)");
    expect_error("push(1, 1)", "argument to `first` must be ARRAY, got=INTEGER");
    expect_error("push([1])", "wrong number of arguments. got=1, want=2");
}

#[test]
fn puts_builtin() {
    let mut evaluator = Evaluator::new();
    assert!(matches!(
        run_in(&mut evaluator, "puts(\"hello\", 1 + 1, [true], {\"a\": 1}, len)"),
        Object::Null
    ));
    assert_eq!(
        evaluator.take_output(),
        vec![
            "hello".to_string(),
            "2".to_string(),
            "[true]".to_string(),
            "{a: 1}".to_string(),
            "builtin function".to_string(),
        ]
    );
    assert!(evaluator.take_output().is_empty());
    assert!(matches!(run_in(&mut evaluator, "puts()"), Object::Null));
    assert!(evaluator.take_output().is_empty());
}

#[test]
fn builtins_can_be_shadowed() {
    expect_integer("let len = fn(x) { 42 }; len(\"abc\")", 42);
    expect_integer("let f = fn(len) { len }; f(1) + len(\"ab\")", 3);
}

#[test]
fn array_literals() {
    assert_eq!(run("[1, 2 * 2, 3 + 3]").inspect(), "[1, 4, 6]");
    assert_eq!(run("[]").inspect(), "[]");
    match run("[1, 2 * 2, 3 + 3]") {
        Object::Array(elements) => {
            assert_eq!(elements.len(), 3);
            assert!(matches!(elements[0], Object::Integer(1)));
            assert!(matches!(elements[1], Object::Integer(4)));
            assert!(matches!(elements[2], Object::Integer(6)));
        }
        other => panic!("expected an array, got {:?}", other),
    }
}

#[test]
fn array_index() {
    expect_integer("[1, 2, 3][0]", 1);
    expect_integer("[1, 2, 3][1]", 2);
    expect_integer("[1, 2, 3][2]", 3);
    expect_integer("let i = 0; [1][i];", 1);
    expect_integer("[1, 2, 3][1 + 1];", 3);
    expect_integer("let myArray = [1, 2, 3]; myArray[2];", 3);
    expect_integer("let myArray = [1, 2, 3]; myArray[0] + myArray[1] + myArray[2];", 6);
    expect_integer("let myArray = [1, 2, 3]; let i = myArray[0]; myArray[i]", 2);
    expect_null("[1, 2, 3][3]");
    expect_null("[1, 2, 3][-1]");
    expect_null("[][0]");
    expect_error("[1, 2, 3][true]", "index operator not supported: ARRAY");
    expect_error("1[0]", "index operator not supported: INTEGER");
    expect_error("\"abc\"[0]", "index operator not supported: STRING");
}

#[test]
fn call_on_an_indexed_value() {
    expect_integer("let fs = [fn(x) { x + 1 }, fn(x) { x * 2 }]; fs[1](21)", 42);
    expect_integer("[fn() { 9 }][0]()", 9);
    expect_integer("let h = {\"f\": fn() { [1, 2, 3] }}; h[\"f\"]()[2]", 3);
}

#[test]
fn hash_round_trip() {
    expect_integer("{\"a\": 1}[\"a\"]", 1);
    expect_null("{\"a\": 1}[\"b\"]");
    expect_integer("let h = {\"a\": 1}; h[\"a\"]", 1);
    expect_null("let h = {\"a\": 1}; h[\"b\"]");
}

#[test]
fn hash_literals() {
    let source = "let two = \"two\";
        {
            \"one\": 10 - 9,
            two: 1 + 1,
            \"thr\" + \"ee\": 6 / 2,
            4: 4,
            true: 5,
            false: 6
        }";
    assert_eq!(run(source).inspect(), "{one: 1, two: 2, three: 3, 4: 4, true: 5, false: 6}");
    assert_eq!(run("{}").inspect(), "{}");
}

#[test]
fn hash_keys_compare_by_value() {
    expect_integer("{\"foo\": 5}[\"foo\"]", 5);
    expect_integer("let key = \"foo\"; {\"foo\": 5}[key]", 5);
    expect_integer("{\"fo\" + \"o\": 5}[\"f\" + \"oo\"]", 5);
    expect_integer("{5: 5}[5]", 5);
    expect_integer("{5: 5}[2 + 3]", 5);
    expect_integer("{true: 5}[true]", 5);
    expect_integer("{false: 5}[false]", 5);
    expect_integer("{true: 5}[1 < 2]", 5);
    expect_null("{}[\"foo\"]");
    expect_null("{1: 5}[true]");
    expect_null("{\"1\": 5}[1]");
}

#[test]
fn later_pair_replaces_earlier_with_same_key() {
    assert_eq!(run("{\"a\": 1, \"b\": 2, \"a\": 3}").inspect(), "{a: 3, b: 2}");
    expect_integer("len([{1: 1, 1: 2}[1]]) + {1: 1, 1: 2}[1]", 3);
}

#[test]
fn unusable_hash_keys() {
    expect_error("{\"name\": \"Monkey\"}[fn(x) { x }];", "unusable as hash key: FUNCTION");
    expect_error("{[1]: 2}", "unusable as hash key: ARRAY");
    expect_error("{{}: 2}", "unusable as hash key: HASH");
    expect_error("{1: 2}[[1]]", "unusable as hash key: ARRAY");
    expect_error("{if (false) { 1 }: 2}", "unusable as hash key: NULL");
}

#[test]
fn bindings_persist_between_programs() {
    let mut evaluator = Evaluator::new();
    assert!(matches!(run_in(&mut evaluator, "let x = 5;"), Object::Null));
    assert!(matches!(run_in(&mut evaluator, "let add = fn(a) { a + x };"), Object::Null));
    assert!(matches!(run_in(&mut evaluator, "add(1)"), Object::Integer(6)));
    assert!(matches!(run_in(&mut evaluator, "let x = 6;"), Object::Null));
    assert!(matches!(run_in(&mut evaluator, "add(1)"), Object::Integer(7)));
}

#[test]
fn canonical_text_of_values() {
    assert_eq!(run("5").inspect(), "5");
    assert_eq!(run("-5").inspect(), "-5");
    assert_eq!(run("0").inspect(), "0");
    assert_eq!(run("-9223372036854775807 - 1").inspect(), "-9223372036854775808");
    assert_eq!(run("9223372036854775807").inspect(), "9223372036854775807");
    assert_eq!(run("1234567890").inspect(), "1234567890");
    assert_eq!(run("true").inspect(), "true");
    assert_eq!(run("false").inspect(), "false");
    assert_eq!(run("\"hi\"").inspect(), "hi");
    assert_eq!(run("if (false) { 1 }").inspect(), "null");
    assert_eq!(run("1 + true").inspect(), "ERROR: type mismatch: INTEGER + BOOLEAN");
    assert_eq!(run("len").inspect(), "builtin function");
    assert_eq!(run("[1, \"a\", [true]]").inspect(), "[1, a, [true]]");
    assert_eq!(run("{1: \"a\", true: [2]}").inspect(), "{1: a, true: [2]}");
    assert_eq!(
        run("fn(x, y) { let z = x + y; return z; }").inspect(),
        "fn(x, y) {\nlet z = (x + y);return z;\n}"
    );
    assert_eq!(run("fn() { }").inspect(), "fn() {\n\n}");
}

#[test]
fn kind_names() {
    assert_eq!(run("1").object_type(), "INTEGER");
    assert_eq!(run("true").object_type(), "BOOLEAN");
    assert_eq!(run("\"\"").object_type(), "STRING");
    assert_eq!(run("if (false) { 1 }").object_type(), "NULL");
    assert_eq!(run("foo").object_type(), "ERROR");
    assert_eq!(run("fn() { 1 }").object_type(), "FUNCTION");
    assert_eq!(run("len").object_type(), "BUILTIN");
    assert_eq!(run("[]").object_type(), "ARRAY");
    assert_eq!(run("{}").object_type(), "HASH");
    assert_eq!(Object::ReturnValue(Box::new(Object::Null)).object_type(), "RETURN_VALUE");
}

#[test]
fn return_value_in_an_operand_is_a_mismatch() {
    expect_error(
        "let f = fn() { 1 + if (true) { return 2 } }; f()",
        "type mismatch: INTEGER + RETURN_VALUE",
    );
}
