//! The tree-walking evaluator: what every node evaluates to, as a function
//! of the frames and the output so far, and the code that computes it.
//!
//! Errors are values. Once a part of an expression has evaluated to an
//! error, the whole evaluates to that error and nothing further runs. A
//! `return` wraps its value; blocks hand the wrapped value upwards
//! untouched and the call of the enclosing function unwraps it.

use vstd::prelude::*;
use vstd::string::*;
use crate::ast::{
    exprs_view, pairs_view, stmts_view, Expression, ExprView, InfixOp, PrefixOp, Program,
    Statement, StmtView,
};
use crate::builtins::{
    arity_error, builtin_output, builtin_result, builtin_table, call_builtin, named_view,
    wrong_arity, Builtins,
};
use crate::environment::{lookup, store_enclose, store_set, Environment, FrameView};
use crate::object::{
    distinct_keys, find_key, hash_pairs_view, hash_set, hashable, kind_name,
    law_hash_set_keeps_keys_distinct, objects_view, truthy, HashKey, HashKeyView, Object,
    ObjectView,
};
use crate::operators::{
    eval_index, eval_infix, eval_prefix, index_result, infix_result, prefix_result, unusable_key,
};
use crate::text::{clone_strings, strings_view};

verus! {

/// How many calls may be nested unless the evaluator is told otherwise.
pub const DEFAULT_MAX_DEPTH: usize = 200;

/// What evaluation reads and changes: the frames and the lines written.
pub struct EvalState {
    pub frames: Seq<FrameView>,
    pub output: Seq<Seq<char>>,
}

/// The evaluator: the store of frames, the lines that `puts` has written
/// and not yet handed out, and the number of calls that may be nested.
pub struct Evaluator {
    pub env: Environment,
    pub output: Vec<String>,
    pub max_depth: usize,
}

impl View for Evaluator {
    type V = EvalState;

    open spec fn view(&self) -> EvalState {
        EvalState { frames: self.env@, output: strings_view(self.output@) }
    }
}

pub open spec fn identifier_not_found(name: Seq<char>) -> Seq<char> {
    "identifier not found: "@ + name
}

pub open spec fn not_a_function(f: ObjectView) -> Seq<char> {
    "not a function: "@ + kind_name(f)
}

pub open spec fn depth_exceeded() -> Seq<char> {
    "maximum call depth exceeded"@
}

/// The value that a `return` carried, or the value itself.
pub open spec fn unwrap_return(o: ObjectView) -> ObjectView {
    match o {
        ObjectView::ReturnValue(inner) => *inner,
        _ => o,
    }
}

/// A value that ends the block it arises in.
pub open spec fn is_signal(o: ObjectView) -> bool {
    o is Error || o is ReturnValue
}

/// The frames after the names from position `i` on are bound, in order,
/// to the values at the same positions.
pub open spec fn bind_all(
    frames: Seq<FrameView>,
    env: nat,
    names: Seq<Seq<char>>,
    values: Seq<ObjectView>,
    i: nat,
) -> Seq<FrameView>
    decreases names.len() - i,
{
    if i >= names.len() || i >= values.len() {
        frames
    } else {
        bind_all(store_set(frames, env, names[i as int], values[i as int]), env, names, values, i + 1)
    }
}

/// The value of an expression in frame `env`, and the state it leaves.
/// `depth` is the number of calls that may still be nested.
pub open spec fn eval_expr(e: ExprView, env: nat, st: EvalState, depth: nat) -> (
    ObjectView,
    EvalState,
)
    decreases depth, 1int, e,
{
    match e {
        ExprView::IntegerLiteral { value } => (ObjectView::Integer(value), st),
        ExprView::BooleanLiteral { value } => (ObjectView::Boolean(value), st),
        ExprView::StringLiteral { value } => (ObjectView::Str(value), st),
        ExprView::Identifier { name } => (
            match lookup(st.frames, env, name) {
                Some(v) => v,
                None => ObjectView::Error(identifier_not_found(name)),
            },
            st,
        ),
        ExprView::Prefix { operator, right } => {
            let (r, s1) = eval_expr(*right, env, st, depth);
            if r is Error {
                (r, s1)
            } else {
                (prefix_result(operator, r), s1)
            }
        },
        ExprView::Infix { operator, left, right } => {
            let (l, s1) = eval_expr(*left, env, st, depth);
            if l is Error {
                (l, s1)
            } else {
                let (r, s2) = eval_expr(*right, env, s1, depth);
                if r is Error {
                    (r, s2)
                } else {
                    (infix_result(operator, l, r), s2)
                }
            }
        },
        ExprView::If { condition, consequence, alternative } => {
            let (c, s1) = eval_expr(*condition, env, st, depth);
            if c is Error {
                (c, s1)
            } else if truthy(c) {
                eval_stmts(consequence, 0, env, s1, depth)
            } else {
                match alternative {
                    Some(block) => eval_stmts(block, 0, env, s1, depth),
                    None => (ObjectView::Null, s1),
                }
            }
        },
        ExprView::Function { parameters, body } => (
            ObjectView::Function { parameters, body, env },
            st,
        ),
        ExprView::Call { function, arguments } => {
            let (f, s1) = eval_expr(*function, env, st, depth);
            if f is Error {
                (f, s1)
            } else {
                let (args, s2) = eval_exprs(arguments, 0, Seq::empty(), env, s1, depth);
                match args {
                    Ok(values) => apply_function(f, values, s2, depth),
                    Err(error) => (error, s2),
                }
            }
        },
        ExprView::Array { elements } => {
            let (values, s1) = eval_exprs(elements, 0, Seq::empty(), env, st, depth);
            match values {
                Ok(values) => (ObjectView::Array(values), s1),
                Err(error) => (error, s1),
            }
        },
        ExprView::Index { left, index } => {
            let (l, s1) = eval_expr(*left, env, st, depth);
            if l is Error {
                (l, s1)
            } else {
                let (i, s2) = eval_expr(*index, env, s1, depth);
                if i is Error {
                    (i, s2)
                } else {
                    (index_result(l, i), s2)
                }
            }
        },
        ExprView::Hash { pairs } => eval_pairs(pairs, 0, Seq::empty(), env, st, depth),
    }
}

/// The values of the expressions from position `i` on, left to right,
/// added to `acc`; or the first error, at which evaluation stops.
pub open spec fn eval_exprs(
    es: Seq<ExprView>,
    i: nat,
    acc: Seq<ObjectView>,
    env: nat,
    st: EvalState,
    depth: nat,
) -> (Result<Seq<ObjectView>, ObjectView>, EvalState)
    decreases depth, 1int, es, es.len() - i,
{
    if i >= es.len() {
        (Ok(acc), st)
    } else {
        let (v, s1) = eval_expr(es[i as int], env, st, depth);
        if v is Error {
            (Err(v), s1)
        } else {
            eval_exprs(es, i + 1, acc.push(v), env, s1, depth)
        }
    }
}

/// The hash that the pairs from position `i` on build when added to
/// `acc`: each key is evaluated, then its value; a later pair replaces an
/// earlier one with the same key. The first error ends the evaluation, and
/// so does a key of a kind that cannot be a key.
pub open spec fn eval_pairs(
    ps: Seq<(ExprView, ExprView)>,
    i: nat,
    acc: Seq<(HashKeyView, ObjectView)>,
    env: nat,
    st: EvalState,
    depth: nat,
) -> (ObjectView, EvalState)
    decreases depth, 1int, ps, ps.len() - i,
{
    if i >= ps.len() {
        (ObjectView::Hash(acc), st)
    } else {
        let (k, s1) = eval_expr(ps[i as int].0, env, st, depth);
        if k is Error {
            (k, s1)
        } else {
            match hashable(k) {
                None => (ObjectView::Error(unusable_key(k)), s1),
                Some(key) => {
                    let (v, s2) = eval_expr(ps[i as int].1, env, s1, depth);
                    if v is Error {
                        (v, s2)
                    } else {
                        eval_pairs(ps, i + 1, hash_set(acc, key, v), env, s2, depth)
                    }
                },
            }
        }
    }
}

/// The value of a statement. A `let` binds in frame `env` itself and has
/// the value `null`; a `return` wraps the value of its operand.
pub open spec fn eval_stmt(s: StmtView, env: nat, st: EvalState, depth: nat) -> (
    ObjectView,
    EvalState,
)
    decreases depth, 1int, s,
{
    match s {
        StmtView::Expression { expression } => eval_expr(expression, env, st, depth),
        StmtView::Return { value } => {
            let (v, s1) = eval_expr(value, env, st, depth);
            if v is Error {
                (v, s1)
            } else {
                (ObjectView::ReturnValue(Box::new(v)), s1)
            }
        },
        StmtView::Let { name, value } => {
            let (v, s1) = eval_expr(value, env, st, depth);
            if v is Error {
                (v, s1)
            } else {
                (
                    ObjectView::Null,
                    EvalState { frames: store_set(s1.frames, env, name, v), output: s1.output },
                )
            }
        },
    }
}

/// The value of the statements from position `i` on, run in order in one
/// and the same frame: the value of the last statement, or the first
/// signal, at which the run stops. No statement gives `null`.
pub open spec fn eval_stmts(ss: Seq<StmtView>, i: nat, env: nat, st: EvalState, depth: nat) -> (
    ObjectView,
    EvalState,
)
    decreases depth, 1int, ss, ss.len() - i,
{
    if i >= ss.len() {
        (ObjectView::Null, st)
    } else {
        let (r, s1) = eval_stmt(ss[i as int], env, st, depth);
        if is_signal(r) || i + 1 >= ss.len() {
            (r, s1)
        } else {
            eval_stmts(ss, i + 1, env, s1, depth)
        }
    }
}

/// The result of calling `f` with the given arguments. A function runs
/// its body in a fresh frame inside the frame it was defined in, with its
/// parameters bound to the arguments, and a returned value is unwrapped
/// here. A built-in computes its result directly.
pub open spec fn apply_function(
    f: ObjectView,
    args: Seq<ObjectView>,
    st: EvalState,
    depth: nat,
) -> (ObjectView, EvalState)
    decreases depth, 0int,
{
    match f {
        ObjectView::Function { parameters, body, env } => {
            if args.len() != parameters.len() {
                (ObjectView::Error(wrong_arity(args.len(), parameters.len())), st)
            } else if depth == 0 {
                (ObjectView::Error(depth_exceeded()), st)
            } else {
                let inner = st.frames.len();
                let frames = bind_all(store_enclose(st.frames, env), inner, parameters, args, 0);
                let (r, s1) = eval_stmts(
                    body,
                    0,
                    inner,
                    EvalState { frames, output: st.output },
                    (depth - 1) as nat,
                );
                (unwrap_return(r), s1)
            }
        },
        ObjectView::Builtin(b) => (
            builtin_result(b, args),
            EvalState { frames: st.frames, output: st.output + builtin_output(b, args) },
        ),
        _ => (ObjectView::Error(not_a_function(f)), st),
    }
}

/// The value of a program run in the global frame: that of its
/// statements, with a returned value unwrapped.
pub open spec fn eval_program_spec(program: Seq<StmtView>, st: EvalState, depth: nat) -> (
    ObjectView,
    EvalState,
) {
    let (r, s1) = eval_stmts(program, 0, 0, st, depth);
    (unwrap_return(r), s1)
}

/// The frames after the named values from position `i` on are bound in
/// frame `env`.
pub open spec fn bind_named(
    frames: Seq<FrameView>,
    env: nat,
    items: Seq<(Seq<char>, ObjectView)>,
    i: nat,
) -> Seq<FrameView>
    decreases items.len() - i,
{
    if i >= items.len() {
        frames
    } else {
        bind_named(store_set(frames, env, items[i as int].0, items[i as int].1), env, items, i + 1)
    }
}

/// The state before anything has run: one global frame that binds the
/// built-ins, and no output.
pub open spec fn initial_state() -> EvalState {
    EvalState {
        frames: bind_named(
            seq![FrameView { vars: Map::empty(), parent: None }],
            0,
            Seq::new(
                builtin_table().len(),
                |i: int| (builtin_table()[i].0, ObjectView::Builtin(builtin_table()[i].1)),
            ),
            0,
        ),
        output: Seq::empty(),
    }
}

fn message_error(message: &str, detail: &str) -> (r: Object)
    ensures
        r@ == ObjectView::Error(message@ + detail@),
{
    let mut text = String::from_str(message);
    text.append(detail);
    Object::Error(text)
}

/// The value that a `return` carried, or the value itself.
pub fn unwrap_return_value(o: Object) -> (r: Object)
    ensures
        r@ == unwrap_return(o@),
{
    match o {
        Object::ReturnValue(inner) => *inner,
        other => other,
    }
}

fn is_signal_value(o: &Object) -> (r: bool)
    ensures
        r == is_signal(o@),
{
    match o {
        Object::Error(_) => true,
        Object::ReturnValue(_) => true,
        _ => false,
    }
}

fn store_in_hash(pairs: &mut Vec<(HashKey, Object)>, key: HashKey, value: Object)
    ensures
        hash_pairs_view(final(pairs)@) == hash_set(hash_pairs_view(old(pairs)@), key@, value@),
{
    let i = find_key(pairs, &key);
    if i < pairs.len() {
        pairs.set(i, (key, value));
    } else {
        pairs.push((key, value));
    }
    assert(hash_pairs_view(pairs@) =~= hash_set(hash_pairs_view(old(pairs)@), key@, value@));
}

impl Evaluator {
    /// An evaluator whose global frame binds the built-ins.
    pub fn new() -> (r: Evaluator)
        ensures
            r@ == initial_state(),
            r.max_depth == DEFAULT_MAX_DEPTH,
    {
        Evaluator::with_max_depth(DEFAULT_MAX_DEPTH)
    }

    /// An evaluator that lets at most `max_depth` calls be nested.
    pub fn with_max_depth(max_depth: usize) -> (r: Evaluator)
        ensures
            r@ == initial_state(),
            r.max_depth == max_depth,
    {
        let mut env = Environment::new();
        let builtins = Builtins;
        let items = builtins.all_builtins();
        let ghost named = named_view(items@);
        let ghost start = env@;
        let mut i: usize = 0;
        while i < items.len()
            invariant
                i <= items.len(),
                named == named_view(items@),
                bind_named(start, 0, named, 0) == bind_named(env@, 0, named, i as nat),
            decreases items.len() - i,
        {
            env.set(0, items[i].0.clone(), items[i].1.clone());
            i += 1;
        }
        let r = Evaluator { env, output: Vec::new(), max_depth };
        assert(r@.output =~= Seq::empty());
        r
    }

    /// Hands out the lines written since the last call, oldest first.
    pub fn take_output(&mut self) -> (r: Vec<String>)
        ensures
            strings_view(r@) == old(self)@.output,
            final(self)@ == (EvalState { frames: old(self)@.frames, output: Seq::empty() }),
            final(self).max_depth == old(self).max_depth,
    {
        let mut lines: Vec<String> = Vec::new();
        core::mem::swap(&mut lines, &mut self.output);
        assert(self@.output =~= Seq::empty());
        lines
    }

    /// Runs a program in the global frame.
    pub fn eval_program(&mut self, program: Program) -> (r: Object)
        ensures
            r@ == eval_program_spec(program@, old(self)@, old(self).max_depth as nat).0,
            final(self)@ == eval_program_spec(program@, old(self)@, old(self).max_depth as nat).1,
            final(self).max_depth == old(self).max_depth,
    {
        let depth = self.max_depth;
        let r = self.eval_block(&program.statements, 0, depth);
        unwrap_return_value(r)
    }

    /// Runs the statements in order in frame `env`.
    pub fn eval_block(&mut self, stmts: &Vec<Statement>, env: usize, depth: usize) -> (r: Object)
        ensures
            r@ == eval_stmts(stmts_view(stmts@), 0, env as nat, old(self)@, depth as nat).0,
            final(self)@ == eval_stmts(stmts_view(stmts@), 0, env as nat, old(self)@, depth as nat).1,
            final(self).max_depth == old(self).max_depth,
        decreases depth, 1int, *stmts,
    {
        let ghost ss = stmts_view(stmts@);
        let mut i: usize = 0;
        while i < stmts.len()
            invariant
                i <= stmts.len(),
                ss == stmts_view(stmts@),
                self.max_depth == old(self).max_depth,
                eval_stmts(ss, 0, env as nat, old(self)@, depth as nat) == eval_stmts(
                    ss,
                    i as nat,
                    env as nat,
                    self@,
                    depth as nat,
                ),
            decreases stmts.len() - i,
        {
            proof {
                assert(decreases_to!(*stmts => stmts[i as int]));
                assert(ss[i as int] == stmts_view(stmts@)[i as int]);
            }
            let r = self.eval_statement(&stmts[i], env, depth);
            if is_signal_value(&r) || i + 1 == stmts.len() {
                return r;
            }
            i += 1;
        }
        Object::Null
    }

    /// Runs one statement in frame `env`.
    pub fn eval_statement(&mut self, s: &Statement, env: usize, depth: usize) -> (r: Object)
        ensures
            r@ == eval_stmt(s@, env as nat, old(self)@, depth as nat).0,
            final(self)@ == eval_stmt(s@, env as nat, old(self)@, depth as nat).1,
            final(self).max_depth == old(self).max_depth,
        decreases depth, 1int, *s,
    {
        match s {
            Statement::Expression { expression } => self.eval_expression(expression, env, depth),
            Statement::Return { value } => {
                let v = self.eval_expression(value, env, depth);
                if v.is_error() {
                    v
                } else {
                    Object::ReturnValue(Box::new(v))
                }
            },
            Statement::Let { name, value } => {
                let v = self.eval_expression(value, env, depth);
                if v.is_error() {
                    v
                } else {
                    self.env.set(env, name.clone(), v);
                    Object::Null
                }
            },
        }
    }

    /// Evaluates the expressions left to right, up to the first error.
    fn eval_expressions(&mut self, es: &Vec<Expression>, env: usize, depth: usize) -> (r: Result<
        Vec<Object>,
        Object,
    >)
        ensures
            match r {
                Ok(values) => Ok::<Seq<ObjectView>, ObjectView>(objects_view(values@)),
                Err(error) => Err(error@),
            } == eval_exprs(
                exprs_view(es@),
                0,
                Seq::empty(),
                env as nat,
                old(self)@,
                depth as nat,
            ).0,
            final(self)@ == eval_exprs(
                exprs_view(es@),
                0,
                Seq::empty(),
                env as nat,
                old(self)@,
                depth as nat,
            ).1,
            final(self).max_depth == old(self).max_depth,
        decreases depth, 1int, *es,
    {
        let ghost vs = exprs_view(es@);
        let mut values: Vec<Object> = Vec::new();
        let mut i: usize = 0;
        assert(objects_view(values@) =~= Seq::empty());
        while i < es.len()
            invariant
                i <= es.len(),
                vs == exprs_view(es@),
                self.max_depth == old(self).max_depth,
                eval_exprs(vs, 0, Seq::empty(), env as nat, old(self)@, depth as nat)
                    == eval_exprs(
                    vs,
                    i as nat,
                    objects_view(values@),
                    env as nat,
                    self@,
                    depth as nat,
                ),
            decreases es.len() - i,
        {
            proof {
                assert(decreases_to!(*es => es[i as int]));
                assert(vs[i as int] == exprs_view(es@)[i as int]);
            }
            let ghost before = objects_view(values@);
            let v = self.eval_expression(&es[i], env, depth);
            if v.is_error() {
                return Err(v);
            }
            values.push(v);
            assert(objects_view(values@) =~= before.push(v@));
            i += 1;
        }
        Ok(values)
    }

    /// Builds a hash from the pairs of a hash literal.
    fn eval_hash_literal(
        &mut self,
        ps: &Vec<(Expression, Expression)>,
        env: usize,
        depth: usize,
    ) -> (r: Object)
        ensures
            r@ == eval_pairs(
                pairs_view(ps@),
                0,
                Seq::empty(),
                env as nat,
                old(self)@,
                depth as nat,
            ).0,
            final(self)@ == eval_pairs(
                pairs_view(ps@),
                0,
                Seq::empty(),
                env as nat,
                old(self)@,
                depth as nat,
            ).1,
            final(self).max_depth == old(self).max_depth,
        decreases depth, 1int, *ps,
    {
        let ghost vs = pairs_view(ps@);
        let mut pairs: Vec<(HashKey, Object)> = Vec::new();
        let mut i: usize = 0;
        assert(hash_pairs_view(pairs@) =~= Seq::empty());
        while i < ps.len()
            invariant
                i <= ps.len(),
                vs == pairs_view(ps@),
                self.max_depth == old(self).max_depth,
                eval_pairs(vs, 0, Seq::empty(), env as nat, old(self)@, depth as nat)
                    == eval_pairs(
                    vs,
                    i as nat,
                    hash_pairs_view(pairs@),
                    env as nat,
                    self@,
                    depth as nat,
                ),
            decreases ps.len() - i,
        {
            proof {
                assert(decreases_to!(*ps => ps[i as int]));
                assert(decreases_to!(ps[i as int] => ps[i as int].0));
                assert(decreases_to!(ps[i as int] => ps[i as int].1));
                assert(vs[i as int] == pairs_view(ps@)[i as int]);
            }
            let k = self.eval_expression(&ps[i].0, env, depth);
            if k.is_error() {
                return k;
            }
            let key = match k.hash_key() {
                Some(key) => key,
                None => {
                    return message_error("unusable as hash key: ", k.object_type());
                },
            };
            let v = self.eval_expression(&ps[i].1, env, depth);
            if v.is_error() {
                return v;
            }
            store_in_hash(&mut pairs, key, v);
            i += 1;
        }
        Object::Hash(pairs)
    }

    /// Evaluates an expression in frame `env`.
    pub fn eval_expression(&mut self, e: &Expression, env: usize, depth: usize) -> (r: Object)
        ensures
            r@ == eval_expr(e@, env as nat, old(self)@, depth as nat).0,
            final(self)@ == eval_expr(e@, env as nat, old(self)@, depth as nat).1,
            final(self).max_depth == old(self).max_depth,
        decreases depth, 1int, *e,
    {
        match e {
            Expression::IntegerLiteral { value } => Object::Integer(*value),
            Expression::BooleanLiteral { value } => Object::Boolean(*value),
            Expression::StringLiteral { value } => Object::StringObj(value.clone()),
            Expression::Identifier { name } => {
                match self.env.get(env, name) {
                    Some(v) => v,
                    None => message_error("identifier not found: ", name.as_str()),
                }
            },
            Expression::Prefix { operator, right } => {
                let r = self.eval_expression(right, env, depth);
                if r.is_error() {
                    r
                } else {
                    eval_prefix(*operator, &r)
                }
            },
            Expression::Infix { operator, left, right } => {
                let l = self.eval_expression(left, env, depth);
                if l.is_error() {
                    return l;
                }
                let r = self.eval_expression(right, env, depth);
                if r.is_error() {
                    return r;
                }
                eval_infix(*operator, &l, &r)
            },
            Expression::If { condition, consequence, alternative } => {
                let c = self.eval_expression(condition, env, depth);
                if c.is_error() {
                    return c;
                }
                if c.is_truthy() {
                    self.eval_block(&consequence.statements, env, depth)
                } else {
                    match alternative {
                        Some(block) => self.eval_block(&block.statements, env, depth),
                        None => Object::Null,
                    }
                }
            },
            Expression::Function { parameters, body } => Object::Function {
                parameters: clone_strings(parameters),
                body: body.clone(),
                env,
            },
            Expression::Call { function, arguments } => {
                let f = self.eval_expression(function, env, depth);
                if f.is_error() {
                    return f;
                }
                match self.eval_expressions(arguments, env, depth) {
                    Ok(values) => self.apply_function(f, values, depth),
                    Err(error) => error,
                }
            },
            Expression::Array { elements } => {
                match self.eval_expressions(elements, env, depth) {
                    Ok(values) => Object::Array(values),
                    Err(error) => error,
                }
            },
            Expression::Index { left, index } => {
                let l = self.eval_expression(left, env, depth);
                if l.is_error() {
                    return l;
                }
                let i = self.eval_expression(index, env, depth);
                if i.is_error() {
                    return i;
                }
                eval_index(&l, &i)
            },
            Expression::Hash { pairs } => self.eval_hash_literal(pairs, env, depth),
        }
    }

    /// Calls `f` with the given arguments.
    pub fn apply_function(&mut self, f: Object, args: Vec<Object>, depth: usize) -> (r: Object)
        ensures
            r@ == apply_function(f@, objects_view(args@), old(self)@, depth as nat).0,
            final(self)@ == apply_function(f@, objects_view(args@), old(self)@, depth as nat).1,
            final(self).max_depth == old(self).max_depth,
        decreases depth, 0int,
    {
        match f {
            Object::Function { parameters, body, env } => {
                if args.len() != parameters.len() {
                    return arity_error(args.len(), parameters.len());
                }
                if depth == 0 {
                    return Object::Error(String::from_str("maximum call depth exceeded"));
                }
                let ghost names = strings_view(parameters@);
                let ghost values = objects_view(args@);
                let inner = self.env.new_enclosed(env);
                let ghost start = self.env@;
                let mut i: usize = 0;
                while i < parameters.len()
                    invariant
                        i <= parameters.len(),
                        args.len() == parameters.len(),
                        names == strings_view(parameters@),
                        values == objects_view(args@),
                        self.max_depth == old(self).max_depth,
                        self.output == old(self).output,
                        bind_all(start, inner as nat, names, values, 0) == bind_all(
                            self.env@,
                            inner as nat,
                            names,
                            values,
                            i as nat,
                        ),
                    decreases parameters.len() - i,
                {
                    self.env.set(inner, parameters[i].clone(), args[i].clone());
                    i += 1;
                }
                let r = self.eval_block(&body.statements, inner, depth - 1);
                unwrap_return_value(r)
            },
            Object::Builtin(b) => call_builtin(b, args, &mut self.output),
            other => message_error("not a function: ", other.object_type()),
        }
    }
}

/// An error in the operand of a prefix operator is the value of the whole,
/// and nothing is applied to it.
pub proof fn law_prefix_forwards_error(
    operator: PrefixOp,
    right: ExprView,
    env: nat,
    st: EvalState,
    depth: nat,
)
    ensures
        ({
            let whole = eval_expr(
                ExprView::Prefix { operator, right: Box::new(right) },
                env,
                st,
                depth,
            );
            let (r, s1) = eval_expr(right, env, st, depth);
            if r is Error {
                whole == (r, s1)
            } else {
                whole == (prefix_result(operator, r), s1)
            }
        }),
{
}

/// An error in the left operand of an infix operator is the value of the
/// whole, and the right operand is not evaluated; an error in the right
/// operand is the value of the whole; only two values that are no errors
/// reach the operator.
pub proof fn law_infix_forwards_error(
    operator: InfixOp,
    left: ExprView,
    right: ExprView,
    env: nat,
    st: EvalState,
    depth: nat,
)
    ensures
        ({
            let whole = eval_expr(
                ExprView::Infix { operator, left: Box::new(left), right: Box::new(right) },
                env,
                st,
                depth,
            );
            let (l, s1) = eval_expr(left, env, st, depth);
            let (r, s2) = eval_expr(right, env, s1, depth);
            if l is Error {
                whole == (l, s1)
            } else if r is Error {
                whole == (r, s2)
            } else {
                whole == (infix_result(operator, l, r), s2)
            }
        }),
{
}

/// The same holds of the two sides of an index expression.
pub proof fn law_index_forwards_error(
    left: ExprView,
    index: ExprView,
    env: nat,
    st: EvalState,
    depth: nat,
)
    ensures
        ({
            let whole = eval_expr(
                ExprView::Index { left: Box::new(left), index: Box::new(index) },
                env,
                st,
                depth,
            );
            let (l, s1) = eval_expr(left, env, st, depth);
            let (i, s2) = eval_expr(index, env, s1, depth);
            if l is Error {
                whole == (l, s1)
            } else if i is Error {
                whole == (i, s2)
            } else {
                whole == (index_result(l, i), s2)
            }
        }),
{
}

/// An error in the condition of an `if` is the value of the whole and
/// neither branch runs. Otherwise a condition that counts as true runs the
/// consequence, and one that counts as false runs the alternative, or
/// gives `null` where there is none. Both branches run in the frame of the
/// `if` itself.
pub proof fn law_condition_chooses_branch(
    condition: ExprView,
    consequence: Seq<StmtView>,
    alternative: Option<Seq<StmtView>>,
    env: nat,
    st: EvalState,
    depth: nat,
)
    ensures
        ({
            let whole = eval_expr(
                ExprView::If { condition: Box::new(condition), consequence, alternative },
                env,
                st,
                depth,
            );
            let (c, s1) = eval_expr(condition, env, st, depth);
            if c is Error {
                whole == (c, s1)
            } else if c != ObjectView::Null && c != ObjectView::Boolean(false) {
                whole == eval_stmts(consequence, 0, env, s1, depth)
            } else {
                match alternative {
                    Some(block) => whole == eval_stmts(block, 0, env, s1, depth),
                    None => whole == (ObjectView::Null, s1),
                }
            }
        }),
{
}

/// A list of expressions is evaluated from the left and stops at the first
/// error: what stands after it is not evaluated.
pub proof fn law_list_stops_at_first_error(
    es: Seq<ExprView>,
    i: nat,
    acc: Seq<ObjectView>,
    env: nat,
    st: EvalState,
    depth: nat,
)
    requires
        i < es.len(),
    ensures
        ({
            let (v, s1) = eval_expr(es[i as int], env, st, depth);
            if v is Error {
                eval_exprs(es, i, acc, env, st, depth) == (
                    Err::<Seq<ObjectView>, ObjectView>(v),
                    s1,
                )
            } else {
                eval_exprs(es, i, acc, env, st, depth) == eval_exprs(
                    es,
                    i + 1,
                    acc.push(v),
                    env,
                    s1,
                    depth,
                )
            }
        }),
{
}

/// An error in the callee of a call is the value of the whole and no
/// argument is evaluated; an error in an argument is the value of the
/// whole and nothing is called.
pub proof fn law_call_forwards_error(
    function: ExprView,
    arguments: Seq<ExprView>,
    env: nat,
    st: EvalState,
    depth: nat,
)
    ensures
        ({
            let whole = eval_expr(
                ExprView::Call { function: Box::new(function), arguments },
                env,
                st,
                depth,
            );
            let (f, s1) = eval_expr(function, env, st, depth);
            let (args, s2) = eval_exprs(arguments, 0, Seq::empty(), env, s1, depth);
            if f is Error {
                whole == (f, s1)
            } else {
                match args {
                    Err(error) => whole == (error, s2),
                    Ok(values) => whole == apply_function(f, values, s2, depth),
                }
            }
        }),
{
}

/// A function literal does not run its body: its value holds the
/// parameters, the body and the frame in which the literal was evaluated,
/// and the state is left as it was.
pub proof fn law_function_captures_current_frame(
    parameters: Seq<Seq<char>>,
    body: Seq<StmtView>,
    env: nat,
    st: EvalState,
    depth: nat,
)
    ensures
        eval_expr(ExprView::Function { parameters, body }, env, st, depth) == (
            ObjectView::Function { parameters, body, env },
            st,
        ),
{
}

/// A `let` binds in the frame it runs in and in no other; where its value
/// is an error, the error is the result and nothing is bound.
pub proof fn law_let_binds_in_current_frame(
    name: Seq<char>,
    value: ExprView,
    env: nat,
    st: EvalState,
    depth: nat,
)
    ensures
        ({
            let whole = eval_stmt(StmtView::Let { name, value }, env, st, depth);
            let (v, s1) = eval_expr(value, env, st, depth);
            if v is Error {
                whole == (v, s1)
            } else {
                &&& whole.0 == ObjectView::Null
                &&& whole.1.output == s1.output
                &&& whole.1.frames == store_set(s1.frames, env, name, v)
                &&& lookup(whole.1.frames, env, name) == if env < s1.frames.len() {
                    Some(v)
                } else {
                    None
                }
                &&& forall|other: int|
                    0 <= other < s1.frames.len() && other != env ==> whole.1.frames[other]
                        == s1.frames[other]
            }
        }),
{
}

/// The first statement whose value is an error or a returned value ends
/// the run of statements: its value is the value of the run, and the
/// statements after it do not run.
pub proof fn law_signal_ends_block(ss: Seq<StmtView>, i: nat, env: nat, st: EvalState, depth: nat)
    requires
        i < ss.len(),
    ensures
        ({
            let (r, s1) = eval_stmt(ss[i as int], env, st, depth);
            if r is Error || r is ReturnValue || i + 1 == ss.len() {
                eval_stmts(ss, i, env, st, depth) == (r, s1)
            } else {
                eval_stmts(ss, i, env, st, depth) == eval_stmts(ss, i + 1, env, s1, depth)
            }
        }),
{
}

/// A returned value passes through an `if` unchanged: the block that
/// holds the `if` as a statement ends with it as well.
pub proof fn law_return_passes_through_if(
    condition: ExprView,
    consequence: Seq<StmtView>,
    alternative: Option<Seq<StmtView>>,
    rest: Seq<StmtView>,
    env: nat,
    st: EvalState,
    depth: nat,
)
    requires
        eval_expr(
            ExprView::If { condition: Box::new(condition), consequence, alternative },
            env,
            st,
            depth,
        ).0 is ReturnValue,
    ensures
        ({
            let inner = ExprView::If { condition: Box::new(condition), consequence, alternative };
            let block = seq![StmtView::Expression { expression: inner }] + rest;
            eval_stmts(block, 0, env, st, depth) == eval_expr(inner, env, st, depth)
        }),
{
    let inner = ExprView::If { condition: Box::new(condition), consequence, alternative };
    let block = seq![StmtView::Expression { expression: inner }] + rest;
    assert(block[0] == StmtView::Expression { expression: inner });
    assert(eval_stmt(block[0], env, st, depth) == eval_expr(inner, env, st, depth));
    assert(is_signal(eval_stmt(block[0], env, st, depth).0));
}

/// A call of a function with as many arguments as parameters, while calls
/// may still be nested, runs the body in a fresh frame inside the frame
/// that the function captured, and unwraps a returned value exactly here.
pub proof fn law_call_unwraps_return(
    parameters: Seq<Seq<char>>,
    body: Seq<StmtView>,
    env: nat,
    args: Seq<ObjectView>,
    st: EvalState,
    depth: nat,
)
    requires
        args.len() == parameters.len(),
        depth > 0,
    ensures
        ({
            let f = ObjectView::Function { parameters, body, env };
            let inner = st.frames.len();
            let frames = bind_all(store_enclose(st.frames, env), inner, parameters, args, 0);
            let (r, s1) = eval_stmts(
                body,
                0,
                inner,
                EvalState { frames, output: st.output },
                (depth - 1) as nat,
            );
            &&& apply_function(f, args, st, depth) == (unwrap_return(r), s1)
            &&& store_enclose(st.frames, env)[inner as int].parent == Some(env)
            &&& !(r is ReturnValue) ==> apply_function(f, args, st, depth).0 == r
        }),
{
}

/// A call with the wrong number of arguments and a call nested too deep
/// are errors, and leave the state as it was.
pub proof fn law_failed_calls(
    parameters: Seq<Seq<char>>,
    body: Seq<StmtView>,
    env: nat,
    args: Seq<ObjectView>,
    st: EvalState,
    depth: nat,
)
    ensures
        ({
            let f = ObjectView::Function { parameters, body, env };
            if args.len() != parameters.len() {
                apply_function(f, args, st, depth) == (
                    ObjectView::Error(wrong_arity(args.len(), parameters.len())),
                    st,
                )
            } else {
                depth == 0 ==> apply_function(f, args, st, depth) == (
                    ObjectView::Error(depth_exceeded()),
                    st,
                )
            }
        }),
{
}

/// A call of what is neither a function nor a built-in is an error, and
/// leaves the state as it was.
pub proof fn law_only_functions_are_called(
    f: ObjectView,
    args: Seq<ObjectView>,
    st: EvalState,
    depth: nat,
)
    requires
        !(f is Function),
        !(f is Builtin),
    ensures
        apply_function(f, args, st, depth) == (ObjectView::Error(not_a_function(f)), st),
{
}

/// A function sees the frame it captured as that frame is when the
/// function runs, not as it was when the function was made: a function
/// that only names `name` gives the value that was bound to `name` in the
/// captured frame last.
pub proof fn law_closure_sees_later_binding(
    frames: Seq<FrameView>,
    output: Seq<Seq<char>>,
    captured: nat,
    name: Seq<char>,
    earlier: ObjectView,
    later: ObjectView,
    depth: nat,
)
    requires
        captured < frames.len(),
        depth > 0,
    ensures
        ({
            let closure = ObjectView::Function {
                parameters: Seq::empty(),
                body: seq![
                    StmtView::Expression { expression: ExprView::Identifier { name } },
                ],
                env: captured,
            };
            let rebound = store_set(store_set(frames, captured, name, earlier), captured, name, later);
            apply_function(closure, Seq::empty(), EvalState { frames: rebound, output }, depth).0
                == unwrap_return(later)
        }),
{
    let body = seq![StmtView::Expression { expression: ExprView::Identifier { name } }];
    let rebound = store_set(store_set(frames, captured, name, earlier), captured, name, later);
    let inner = rebound.len();
    let enclosed = store_enclose(rebound, captured);
    let inside = EvalState { frames: enclosed, output };
    assert(bind_all(enclosed, inner, Seq::empty(), Seq::empty(), 0) == enclosed);
    assert(!enclosed[inner as int].vars.contains_key(name));
    assert(enclosed[captured as int].vars.contains_key(name));
    assert(enclosed[captured as int].vars[name] == later);
    assert(lookup(enclosed, captured, name) == Some(later));
    assert(lookup(enclosed, inner, name) == Some(later));
    assert(body[0] == StmtView::Expression { expression: ExprView::Identifier { name } });
    assert(eval_expr(ExprView::Identifier { name }, inner, inside, (depth - 1) as nat).0 == later);
    assert(eval_stmt(body[0], inner, inside, (depth - 1) as nat).0 == later);
    assert(eval_stmts(body, 0, inner, inside, (depth - 1) as nat).0 == later);
}

/// Whether `after` carries on from `before`: every frame that was there
/// is still there, at its index and inside the same frame, and every line
/// that was written is still there, with nothing before it.
pub open spec fn carries_on(before: EvalState, after: EvalState) -> bool {
    &&& before.frames.len() <= after.frames.len()
    &&& forall|i: int|
        0 <= i < before.frames.len() ==> (#[trigger] after.frames[i]).parent
            == before.frames[i].parent
    &&& before.output.len() <= after.output.len()
    &&& after.output.subrange(0, before.output.len() as int) =~= before.output
}

pub proof fn lemma_carries_on_transitive(a: EvalState, b: EvalState, c: EvalState)
    requires
        carries_on(a, b),
        carries_on(b, c),
    ensures
        carries_on(a, c),
{
    assert forall|i: int| 0 <= i < a.frames.len() implies (#[trigger] c.frames[i]).parent
        == a.frames[i].parent by {
        assert(b.frames[i].parent == a.frames[i].parent);
    }
    assert(c.output.subrange(0, a.output.len() as int) =~= b.output.subrange(
        0,
        b.output.len() as int,
    ).subrange(0, a.output.len() as int)) by {
        assert(c.output.subrange(0, b.output.len() as int) =~= b.output);
    }
}

proof fn lemma_bind_all_keeps_frames(
    frames: Seq<FrameView>,
    env: nat,
    names: Seq<Seq<char>>,
    values: Seq<ObjectView>,
    i: nat,
)
    ensures
        bind_all(frames, env, names, values, i).len() == frames.len(),
        forall|j: int|
            0 <= j < frames.len() ==> (#[trigger] bind_all(frames, env, names, values, i)[j]).parent
                == frames[j].parent,
    decreases names.len() - i,
{
    if i < names.len() && i < values.len() {
        let next = store_set(frames, env, names[i as int], values[i as int]);
        lemma_bind_all_keeps_frames(next, env, names, values, i + 1);
        assert forall|j: int| 0 <= j < frames.len() implies (#[trigger] bind_all(
            frames,
            env,
            names,
            values,
            i,
        )[j]).parent == frames[j].parent by {
            assert(next[j].parent == frames[j].parent);
        }
    }
}

/// Evaluation never drops a frame, never moves one to another index or
/// into another frame, and never takes back a line that was written: a
/// frame that a function captured stays where the function expects it for
/// as long as the function may be called.
pub proof fn law_expression_carries_on(e: ExprView, env: nat, st: EvalState, depth: nat)
    ensures
        carries_on(st, eval_expr(e, env, st, depth).1),
    decreases depth, 1int, e,
{
    match e {
        ExprView::Prefix { operator, right } => {
            law_expression_carries_on(*right, env, st, depth);
        },
        ExprView::Infix { operator, left, right } => {
            law_expression_carries_on(*left, env, st, depth);
            let s1 = eval_expr(*left, env, st, depth).1;
            law_expression_carries_on(*right, env, s1, depth);
            lemma_carries_on_transitive(st, s1, eval_expr(*right, env, s1, depth).1);
        },
        ExprView::Index { left, index } => {
            law_expression_carries_on(*left, env, st, depth);
            let s1 = eval_expr(*left, env, st, depth).1;
            law_expression_carries_on(*index, env, s1, depth);
            lemma_carries_on_transitive(st, s1, eval_expr(*index, env, s1, depth).1);
        },
        ExprView::If { condition, consequence, alternative } => {
            law_expression_carries_on(*condition, env, st, depth);
            let s1 = eval_expr(*condition, env, st, depth).1;
            law_statements_carry_on(consequence, 0, env, s1, depth);
            lemma_carries_on_transitive(st, s1, eval_stmts(consequence, 0, env, s1, depth).1);
            match alternative {
                Some(block) => {
                    law_statements_carry_on(block, 0, env, s1, depth);
                    lemma_carries_on_transitive(st, s1, eval_stmts(block, 0, env, s1, depth).1);
                },
                None => {},
            }
        },
        ExprView::Call { function, arguments } => {
            law_expression_carries_on(*function, env, st, depth);
            let (f, s1) = eval_expr(*function, env, st, depth);
            law_list_carries_on(arguments, 0, Seq::empty(), env, s1, depth);
            let (args, s2) = eval_exprs(arguments, 0, Seq::empty(), env, s1, depth);
            lemma_carries_on_transitive(st, s1, s2);
            match args {
                Ok(values) => {
                    law_call_carries_on(f, values, s2, depth);
                    lemma_carries_on_transitive(st, s2, apply_function(f, values, s2, depth).1);
                },
                Err(error) => {},
            }
        },
        ExprView::Array { elements } => {
            law_list_carries_on(elements, 0, Seq::empty(), env, st, depth);
        },
        ExprView::Hash { pairs } => {
            law_pairs_carry_on(pairs, 0, Seq::empty(), env, st, depth);
        },
        _ => {},
    }
}

/// The same holds of a list of expressions.
pub proof fn law_list_carries_on(
    es: Seq<ExprView>,
    i: nat,
    acc: Seq<ObjectView>,
    env: nat,
    st: EvalState,
    depth: nat,
)
    ensures
        carries_on(st, eval_exprs(es, i, acc, env, st, depth).1),
    decreases depth, 1int, es, es.len() - i,
{
    if i < es.len() {
        law_expression_carries_on(es[i as int], env, st, depth);
        let (v, s1) = eval_expr(es[i as int], env, st, depth);
        if !(v is Error) {
            law_list_carries_on(es, i + 1, acc.push(v), env, s1, depth);
            lemma_carries_on_transitive(
                st,
                s1,
                eval_exprs(es, i + 1, acc.push(v), env, s1, depth).1,
            );
        }
    }
}

/// The same holds of the pairs of a hash literal.
pub proof fn law_pairs_carry_on(
    ps: Seq<(ExprView, ExprView)>,
    i: nat,
    acc: Seq<(HashKeyView, ObjectView)>,
    env: nat,
    st: EvalState,
    depth: nat,
)
    ensures
        carries_on(st, eval_pairs(ps, i, acc, env, st, depth).1),
    decreases depth, 1int, ps, ps.len() - i,
{
    if i < ps.len() {
        law_expression_carries_on(ps[i as int].0, env, st, depth);
        let (k, s1) = eval_expr(ps[i as int].0, env, st, depth);
        if !(k is Error) {
            match hashable(k) {
                Some(key) => {
                    law_expression_carries_on(ps[i as int].1, env, s1, depth);
                    let (v, s2) = eval_expr(ps[i as int].1, env, s1, depth);
                    lemma_carries_on_transitive(st, s1, s2);
                    if !(v is Error) {
                        law_pairs_carry_on(ps, i + 1, hash_set(acc, key, v), env, s2, depth);
                        lemma_carries_on_transitive(
                            st,
                            s2,
                            eval_pairs(ps, i + 1, hash_set(acc, key, v), env, s2, depth).1,
                        );
                    }
                },
                None => {},
            }
        }
    }
}

/// The same holds of a statement.
pub proof fn law_statement_carries_on(s: StmtView, env: nat, st: EvalState, depth: nat)
    ensures
        carries_on(st, eval_stmt(s, env, st, depth).1),
    decreases depth, 1int, s,
{
    match s {
        StmtView::Expression { expression } => {
            law_expression_carries_on(expression, env, st, depth);
        },
        StmtView::Return { value } => {
            law_expression_carries_on(value, env, st, depth);
        },
        StmtView::Let { name, value } => {
            law_expression_carries_on(value, env, st, depth);
            let (v, s1) = eval_expr(value, env, st, depth);
            if !(v is Error) {
                let s2 = EvalState {
                    frames: store_set(s1.frames, env, name, v),
                    output: s1.output,
                };
                assert(carries_on(s1, s2));
                lemma_carries_on_transitive(st, s1, s2);
            }
        },
    }
}

/// The same holds of a run of statements.
pub proof fn law_statements_carry_on(
    ss: Seq<StmtView>,
    i: nat,
    env: nat,
    st: EvalState,
    depth: nat,
)
    ensures
        carries_on(st, eval_stmts(ss, i, env, st, depth).1),
    decreases depth, 1int, ss, ss.len() - i,
{
    if i < ss.len() {
        law_statement_carries_on(ss[i as int], env, st, depth);
        let (r, s1) = eval_stmt(ss[i as int], env, st, depth);
        if !(is_signal(r) || i + 1 >= ss.len()) {
            law_statements_carry_on(ss, i + 1, env, s1, depth);
            lemma_carries_on_transitive(st, s1, eval_stmts(ss, i + 1, env, s1, depth).1);
        }
    }
}

/// The same holds of a call.
pub proof fn law_call_carries_on(f: ObjectView, args: Seq<ObjectView>, st: EvalState, depth: nat)
    ensures
        carries_on(st, apply_function(f, args, st, depth).1),
    decreases depth, 0int,
{
    match f {
        ObjectView::Function { parameters, body, env } => {
            if args.len() == parameters.len() && depth > 0 {
                let inner = st.frames.len();
                let enclosed = store_enclose(st.frames, env);
                let frames = bind_all(enclosed, inner, parameters, args, 0);
                lemma_bind_all_keeps_frames(enclosed, inner, parameters, args, 0);
                let inside = EvalState { frames, output: st.output };
                assert(carries_on(st, inside)) by {
                    assert forall|i: int| 0 <= i < st.frames.len() implies (
                    #[trigger] inside.frames[i]).parent == st.frames[i].parent by {
                        assert(enclosed[i] == st.frames[i]);
                    }
                }
                law_statements_carry_on(body, 0, inner, inside, (depth - 1) as nat);
                lemma_carries_on_transitive(
                    st,
                    inside,
                    eval_stmts(body, 0, inner, inside, (depth - 1) as nat).1,
                );
            }
        },
        ObjectView::Builtin(b) => {
            let after = EvalState {
                frames: st.frames,
                output: st.output + builtin_output(b, args),
            };
            assert(after.output.subrange(0, st.output.len() as int) =~= st.output);
        },
        _ => {},
    }
}

/// The pairs of a hash literal make a hash in which no key occurs twice.
pub proof fn law_hash_literal_has_distinct_keys(
    ps: Seq<(ExprView, ExprView)>,
    i: nat,
    acc: Seq<(HashKeyView, ObjectView)>,
    env: nat,
    st: EvalState,
    depth: nat,
)
    requires
        distinct_keys(acc),
    ensures
        eval_pairs(ps, i, acc, env, st, depth).0 matches ObjectView::Hash(pairs) ==> distinct_keys(
            pairs,
        ),
    decreases ps.len() - i,
{
    if i < ps.len() {
        let (k, s1) = eval_expr(ps[i as int].0, env, st, depth);
        if !(k is Error) {
            match hashable(k) {
                Some(key) => {
                    let (v, s2) = eval_expr(ps[i as int].1, env, s1, depth);
                    if !(v is Error) {
                        law_hash_set_keeps_keys_distinct(acc, key, v);
                        law_hash_literal_has_distinct_keys(
                            ps,
                            i + 1,
                            hash_set(acc, key, v),
                            env,
                            s2,
                            depth,
                        );
                    }
                },
                None => {},
            }
        }
    }
}

/// A `return` wraps the value of its operand; where that is an error, the
/// error itself is the result.
pub proof fn law_return_wraps_value(value: ExprView, env: nat, st: EvalState, depth: nat)
    ensures
        ({
            let whole = eval_stmt(StmtView::Return { value }, env, st, depth);
            let (v, s1) = eval_expr(value, env, st, depth);
            if v is Error {
                whole == (v, s1)
            } else {
                whole == (ObjectView::ReturnValue(Box::new(v)), s1)
            }
        }),
{
}

/// A program runs in the global frame, and a returned value that reaches
/// its end is unwrapped.
pub proof fn law_program_unwraps_return(program: Seq<StmtView>, st: EvalState, depth: nat)
    ensures
        eval_program_spec(program, st, depth).0 == unwrap_return(
            eval_stmts(program, 0, 0, st, depth).0,
        ),
        eval_program_spec(program, st, depth).1 == eval_stmts(program, 0, 0, st, depth).1,
        carries_on(st, eval_program_spec(program, st, depth).1),
{
    law_statements_carry_on(program, 0, 0, st, depth);
}

} // verus!
