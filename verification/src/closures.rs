//! Every function value names a frame that exists.
//!
//! A function holds the index of the frame it was defined in. Frames are
//! never dropped, so the index stays good for as long as the function can
//! be reached: from a binding, from inside an array or a hash, or as the
//! value of an expression. This module states that as an invariant of
//! evaluation and proves that every step keeps it.

use vstd::prelude::*;
use crate::ast::{ExprView, StmtView};
use crate::builtins::builtin_result;
use crate::environment::{lookup, store_enclose, store_set, FrameView};
use crate::evaluator::{
    apply_function, bind_all, bind_named, eval_expr, eval_exprs, eval_pairs, eval_program_spec,
    eval_stmt, eval_stmts, initial_state, EvalState,
};
use crate::object::{
    first_match, hash_get, hash_set, hashable, lemma_first_match, BuiltinFunction, HashKeyView,
    ObjectView,
};
use crate::operators::index_result;

verus! {

/// Every function inside the value names a frame below `n`.
pub open spec fn closures_within(o: ObjectView, n: nat) -> bool
    decreases o,
{
    match o {
        ObjectView::Function { parameters, body, env } => env < n,
        ObjectView::ReturnValue(inner) => closures_within(*inner, n),
        ObjectView::Array(elements) => forall|i: int|
            0 <= i < elements.len() ==> closures_within(#[trigger] elements[i], n),
        ObjectView::Hash(pairs) => forall|i: int|
            0 <= i < pairs.len() ==> closures_within((#[trigger] pairs[i]).1, n),
        _ => true,
    }
}

/// The same of every value of a sequence.
pub open spec fn all_within(os: Seq<ObjectView>, n: nat) -> bool {
    forall|i: int| 0 <= i < os.len() ==> closures_within(#[trigger] os[i], n)
}

/// The same of the values of the pairs of a hash.
pub open spec fn pairs_within(ps: Seq<(HashKeyView, ObjectView)>, n: nat) -> bool {
    forall|i: int| 0 <= i < ps.len() ==> closures_within((#[trigger] ps[i]).1, n)
}

/// Frame `i` lies inside a frame that was made before it, and every
/// function that it binds names a frame of the store.
pub open spec fn frame_sound(frames: Seq<FrameView>, i: int) -> bool {
    &&& match frames[i].parent {
        Some(p) => p < i,
        None => true,
    }
    &&& forall|k: Seq<char>|
        frames[i].vars.contains_key(k) ==> closures_within(
            #[trigger] frames[i].vars[k],
            frames.len(),
        )
}

/// Every frame of the store is sound.
pub open spec fn frames_sound(frames: Seq<FrameView>) -> bool {
    forall|i: int| 0 <= i < frames.len() ==> #[trigger] frame_sound(frames, i)
}

/// A value whose functions name frames below `n` names frames below any
/// larger bound as well.
pub proof fn lemma_within_monotone(o: ObjectView, n: nat, m: nat)
    requires
        closures_within(o, n),
        n <= m,
    ensures
        closures_within(o, m),
    decreases o,
{
    match o {
        ObjectView::ReturnValue(inner) => {
            lemma_within_monotone(*inner, n, m);
        },
        ObjectView::Array(elements) => {
            assert forall|i: int| 0 <= i < elements.len() implies closures_within(
                #[trigger] elements[i],
                m,
            ) by {
                lemma_within_monotone(elements[i], n, m);
            }
        },
        ObjectView::Hash(pairs) => {
            assert forall|i: int| 0 <= i < pairs.len() implies closures_within(
                (#[trigger] pairs[i]).1,
                m,
            ) by {
                lemma_within_monotone(pairs[i].1, n, m);
            }
        },
        _ => {},
    }
}

proof fn lemma_all_within_monotone(os: Seq<ObjectView>, n: nat, m: nat)
    requires
        all_within(os, n),
        n <= m,
    ensures
        all_within(os, m),
{
    assert forall|i: int| 0 <= i < os.len() implies closures_within(#[trigger] os[i], m) by {
        lemma_within_monotone(os[i], n, m);
    }
}

proof fn lemma_pairs_within_monotone(ps: Seq<(HashKeyView, ObjectView)>, n: nat, m: nat)
    requires
        pairs_within(ps, n),
        n <= m,
    ensures
        pairs_within(ps, m),
{
    assert forall|i: int| 0 <= i < ps.len() implies closures_within((#[trigger] ps[i]).1, m) by {
        lemma_within_monotone(ps[i].1, n, m);
    }
}

/// What a name leads to in a sound store names frames of the store.
pub proof fn lemma_lookup_within(frames: Seq<FrameView>, env: nat, name: Seq<char>)
    requires
        frames_sound(frames),
    ensures
        lookup(frames, env, name) matches Some(v) ==> closures_within(v, frames.len()),
    decreases env,
{
    if env < frames.len() {
        assert(frame_sound(frames, env as int));
        if !frames[env as int].vars.contains_key(name) {
            match frames[env as int].parent {
                Some(p) => {
                    if p < env {
                        lemma_lookup_within(frames, p, name);
                    }
                },
                None => {},
            }
        }
    }
}

/// Binding a value that names frames of the store keeps the store sound.
pub proof fn lemma_set_keeps_sound(
    frames: Seq<FrameView>,
    env: nat,
    name: Seq<char>,
    value: ObjectView,
)
    requires
        frames_sound(frames),
        closures_within(value, frames.len()),
    ensures
        frames_sound(store_set(frames, env, name, value)),
{
    let after = store_set(frames, env, name, value);
    assert forall|i: int| 0 <= i < after.len() implies #[trigger] frame_sound(after, i) by {
        assert(frame_sound(frames, i));
        assert forall|k: Seq<char>| after[i].vars.contains_key(k) implies closures_within(
            #[trigger] after[i].vars[k],
            after.len(),
        ) by {
            if i == env && k == name {
            } else {
                assert(frames[i].vars.contains_key(k));
                assert(after[i].vars[k] == frames[i].vars[k]);
            }
        }
    }
}

/// Adding a frame inside a frame of the store keeps the store sound.
pub proof fn lemma_enclose_keeps_sound(frames: Seq<FrameView>, parent: nat)
    requires
        frames_sound(frames),
        parent < frames.len(),
    ensures
        frames_sound(store_enclose(frames, parent)),
{
    let after = store_enclose(frames, parent);
    assert forall|i: int| 0 <= i < after.len() implies #[trigger] frame_sound(after, i) by {
        if i < frames.len() {
            assert(frame_sound(frames, i));
            assert(after[i] == frames[i]);
            assert forall|k: Seq<char>| after[i].vars.contains_key(k) implies closures_within(
                #[trigger] after[i].vars[k],
                after.len(),
            ) by {
                lemma_within_monotone(frames[i].vars[k], frames.len(), after.len());
            }
        }
    }
}

proof fn lemma_bind_all_keeps_sound(
    frames: Seq<FrameView>,
    env: nat,
    names: Seq<Seq<char>>,
    values: Seq<ObjectView>,
    i: nat,
)
    requires
        frames_sound(frames),
        all_within(values, frames.len()),
    ensures
        frames_sound(bind_all(frames, env, names, values, i)),
        bind_all(frames, env, names, values, i).len() == frames.len(),
    decreases names.len() - i,
{
    if i < names.len() && i < values.len() {
        lemma_set_keeps_sound(frames, env, names[i as int], values[i as int]);
        lemma_bind_all_keeps_sound(
            store_set(frames, env, names[i as int], values[i as int]),
            env,
            names,
            values,
            i + 1,
        );
    }
}

proof fn lemma_bind_named_keeps_sound(
    frames: Seq<FrameView>,
    env: nat,
    items: Seq<(Seq<char>, ObjectView)>,
    i: nat,
)
    requires
        frames_sound(frames),
        forall|j: int| 0 <= j < items.len() ==> closures_within((#[trigger] items[j]).1, frames.len()),
    ensures
        frames_sound(bind_named(frames, env, items, i)),
    decreases items.len() - i,
{
    if i < items.len() {
        lemma_set_keeps_sound(frames, env, items[i as int].0, items[i as int].1);
        lemma_bind_named_keeps_sound(
            store_set(frames, env, items[i as int].0, items[i as int].1),
            env,
            items,
            i + 1,
        );
    }
}

/// What indexing gives was inside what was indexed.
proof fn lemma_index_within(left: ObjectView, index: ObjectView, n: nat)
    requires
        closures_within(left, n),
    ensures
        closures_within(index_result(left, index), n),
{
    match left {
        ObjectView::Hash(pairs) => {
            match hashable(index) {
                Some(key) => {
                    lemma_first_match(pairs, key, 0);
                    let i = first_match(pairs, key, 0);
                    if i < pairs.len() {
                        assert(closures_within(pairs[i].1, n));
                    }
                },
                None => {},
            }
        },
        ObjectView::Array(elements) => {
            match index {
                ObjectView::Integer(i) => {
                    if 0 <= i < elements.len() {
                        assert(closures_within(elements[i as int], n));
                    }
                },
                _ => {},
            }
        },
        _ => {},
    }
}

/// What a built-in gives was inside its arguments.
proof fn lemma_builtin_within(b: BuiltinFunction, args: Seq<ObjectView>, n: nat)
    requires
        all_within(args, n),
    ensures
        closures_within(builtin_result(b, args), n),
{
    if args.len() >= 1 {
        assert(closures_within(args[0], n));
        match args[0] {
            ObjectView::Array(elements) => {
                if elements.len() > 0 {
                    assert(closures_within(elements[0], n));
                    assert(closures_within(elements[elements.len() - 1], n));
                    let rest = elements.subrange(1, elements.len() as int);
                    assert forall|i: int| 0 <= i < rest.len() implies closures_within(
                        #[trigger] rest[i],
                        n,
                    ) by {
                        assert(rest[i] == elements[i + 1]);
                    }
                    assert(closures_within(ObjectView::Array(rest), n));
                    if args.len() == 2 {
                        assert(closures_within(args[1], n));
                        let more = elements.push(args[1]);
                        assert forall|i: int| 0 <= i < more.len() implies closures_within(
                            #[trigger] more[i],
                            n,
                        ) by {
                            if i < elements.len() {
                                assert(more[i] == elements[i]);
                            }
                        }
                        assert(closures_within(ObjectView::Array(more), n));
                    }
                }
            },
            _ => {},
        }
    }
}

proof fn lemma_hash_set_within(
    ps: Seq<(HashKeyView, ObjectView)>,
    k: HashKeyView,
    v: ObjectView,
    n: nat,
)
    requires
        pairs_within(ps, n),
        closures_within(v, n),
    ensures
        pairs_within(hash_set(ps, k, v), n),
{
    lemma_first_match(ps, k, 0);
    let qs = hash_set(ps, k, v);
    assert forall|i: int| 0 <= i < qs.len() implies closures_within((#[trigger] qs[i]).1, n) by {
        if i < ps.len() && i != first_match(ps, k, 0) {
            assert(qs[i] == ps[i]);
        }
    }
}

/// Evaluating an expression in a sound store, in a frame of that store,
/// leaves a sound store and gives a value whose functions name frames of
/// it.
pub proof fn law_expression_keeps_closures_sound(
    e: ExprView,
    env: nat,
    st: EvalState,
    depth: nat,
)
    requires
        frames_sound(st.frames),
        env < st.frames.len(),
    ensures
        frames_sound(eval_expr(e, env, st, depth).1.frames),
        st.frames.len() <= eval_expr(e, env, st, depth).1.frames.len(),
        closures_within(
            eval_expr(e, env, st, depth).0,
            eval_expr(e, env, st, depth).1.frames.len(),
        ),
    decreases depth, 1int, e,
{
    match e {
        ExprView::Identifier { name } => {
            lemma_lookup_within(st.frames, env, name);
        },
        ExprView::Prefix { operator, right } => {
            law_expression_keeps_closures_sound(*right, env, st, depth);
        },
        ExprView::Infix { operator, left, right } => {
            law_expression_keeps_closures_sound(*left, env, st, depth);
            let (l, s1) = eval_expr(*left, env, st, depth);
            law_expression_keeps_closures_sound(*right, env, s1, depth);
        },
        ExprView::Index { left, index } => {
            law_expression_keeps_closures_sound(*left, env, st, depth);
            let (l, s1) = eval_expr(*left, env, st, depth);
            law_expression_keeps_closures_sound(*index, env, s1, depth);
            let (i, s2) = eval_expr(*index, env, s1, depth);
            lemma_within_monotone(l, s1.frames.len(), s2.frames.len());
            lemma_index_within(l, i, s2.frames.len());
        },
        ExprView::If { condition, consequence, alternative } => {
            law_expression_keeps_closures_sound(*condition, env, st, depth);
            let (c, s1) = eval_expr(*condition, env, st, depth);
            law_statements_keep_closures_sound(consequence, 0, env, s1, depth);
            match alternative {
                Some(block) => {
                    law_statements_keep_closures_sound(block, 0, env, s1, depth);
                },
                None => {},
            }
        },
        ExprView::Call { function, arguments } => {
            law_expression_keeps_closures_sound(*function, env, st, depth);
            let (f, s1) = eval_expr(*function, env, st, depth);
            law_list_keeps_closures_sound(arguments, 0, Seq::empty(), env, s1, depth);
            let (args, s2) = eval_exprs(arguments, 0, Seq::empty(), env, s1, depth);
            lemma_within_monotone(f, s1.frames.len(), s2.frames.len());
            match args {
                Ok(values) => {
                    law_call_keeps_closures_sound(f, values, s2, depth);
                },
                Err(error) => {},
            }
        },
        ExprView::Array { elements } => {
            law_list_keeps_closures_sound(elements, 0, Seq::empty(), env, st, depth);
        },
        ExprView::Hash { pairs } => {
            law_pairs_keep_closures_sound(pairs, 0, Seq::empty(), env, st, depth);
        },
        _ => {},
    }
}

/// The same holds of a list of expressions.
pub proof fn law_list_keeps_closures_sound(
    es: Seq<ExprView>,
    i: nat,
    acc: Seq<ObjectView>,
    env: nat,
    st: EvalState,
    depth: nat,
)
    requires
        frames_sound(st.frames),
        env < st.frames.len(),
        all_within(acc, st.frames.len()),
    ensures
        frames_sound(eval_exprs(es, i, acc, env, st, depth).1.frames),
        st.frames.len() <= eval_exprs(es, i, acc, env, st, depth).1.frames.len(),
        match eval_exprs(es, i, acc, env, st, depth).0 {
            Ok(values) => all_within(
                values,
                eval_exprs(es, i, acc, env, st, depth).1.frames.len(),
            ),
            Err(error) => closures_within(
                error,
                eval_exprs(es, i, acc, env, st, depth).1.frames.len(),
            ),
        },
    decreases depth, 1int, es, es.len() - i,
{
    if i < es.len() {
        law_expression_keeps_closures_sound(es[i as int], env, st, depth);
        let (v, s1) = eval_expr(es[i as int], env, st, depth);
        if !(v is Error) {
            lemma_all_within_monotone(acc, st.frames.len(), s1.frames.len());
            let next = acc.push(v);
            assert forall|j: int| 0 <= j < next.len() implies closures_within(
                #[trigger] next[j],
                s1.frames.len(),
            ) by {
                if j < acc.len() {
                    assert(next[j] == acc[j]);
                }
            }
            law_list_keeps_closures_sound(es, i + 1, next, env, s1, depth);
        }
    }
}

/// The same holds of the pairs of a hash literal.
pub proof fn law_pairs_keep_closures_sound(
    ps: Seq<(ExprView, ExprView)>,
    i: nat,
    acc: Seq<(HashKeyView, ObjectView)>,
    env: nat,
    st: EvalState,
    depth: nat,
)
    requires
        frames_sound(st.frames),
        env < st.frames.len(),
        pairs_within(acc, st.frames.len()),
    ensures
        frames_sound(eval_pairs(ps, i, acc, env, st, depth).1.frames),
        st.frames.len() <= eval_pairs(ps, i, acc, env, st, depth).1.frames.len(),
        closures_within(
            eval_pairs(ps, i, acc, env, st, depth).0,
            eval_pairs(ps, i, acc, env, st, depth).1.frames.len(),
        ),
    decreases depth, 1int, ps, ps.len() - i,
{
    if i < ps.len() {
        law_expression_keeps_closures_sound(ps[i as int].0, env, st, depth);
        let (k, s1) = eval_expr(ps[i as int].0, env, st, depth);
        if !(k is Error) {
            match hashable(k) {
                Some(key) => {
                    law_expression_keeps_closures_sound(ps[i as int].1, env, s1, depth);
                    let (v, s2) = eval_expr(ps[i as int].1, env, s1, depth);
                    if !(v is Error) {
                        lemma_pairs_within_monotone(acc, st.frames.len(), s2.frames.len());
                        lemma_hash_set_within(acc, key, v, s2.frames.len());
                        law_pairs_keep_closures_sound(
                            ps,
                            i + 1,
                            hash_set(acc, key, v),
                            env,
                            s2,
                            depth,
                        );
                    }
                },
                None => {},
            }
        }
    } else {
        assert(closures_within(ObjectView::Hash(acc), st.frames.len()));
    }
}

/// The same holds of a statement.
pub proof fn law_statement_keeps_closures_sound(s: StmtView, env: nat, st: EvalState, depth: nat)
    requires
        frames_sound(st.frames),
        env < st.frames.len(),
    ensures
        frames_sound(eval_stmt(s, env, st, depth).1.frames),
        st.frames.len() <= eval_stmt(s, env, st, depth).1.frames.len(),
        closures_within(
            eval_stmt(s, env, st, depth).0,
            eval_stmt(s, env, st, depth).1.frames.len(),
        ),
    decreases depth, 1int, s,
{
    match s {
        StmtView::Expression { expression } => {
            law_expression_keeps_closures_sound(expression, env, st, depth);
        },
        StmtView::Return { value } => {
            law_expression_keeps_closures_sound(value, env, st, depth);
        },
        StmtView::Let { name, value } => {
            law_expression_keeps_closures_sound(value, env, st, depth);
            let (v, s1) = eval_expr(value, env, st, depth);
            if !(v is Error) {
                lemma_set_keeps_sound(s1.frames, env, name, v);
            }
        },
    }
}

/// The same holds of a run of statements.
pub proof fn law_statements_keep_closures_sound(
    ss: Seq<StmtView>,
    i: nat,
    env: nat,
    st: EvalState,
    depth: nat,
)
    requires
        frames_sound(st.frames),
        env < st.frames.len(),
    ensures
        frames_sound(eval_stmts(ss, i, env, st, depth).1.frames),
        st.frames.len() <= eval_stmts(ss, i, env, st, depth).1.frames.len(),
        closures_within(
            eval_stmts(ss, i, env, st, depth).0,
            eval_stmts(ss, i, env, st, depth).1.frames.len(),
        ),
    decreases depth, 1int, ss, ss.len() - i,
{
    if i < ss.len() {
        law_statement_keeps_closures_sound(ss[i as int], env, st, depth);
        let (r, s1) = eval_stmt(ss[i as int], env, st, depth);
        if !(r is Error || r is ReturnValue || i + 1 >= ss.len()) {
            law_statements_keep_closures_sound(ss, i + 1, env, s1, depth);
        }
    }
}

/// The same holds of a call, for a callee and arguments whose functions
/// name frames of the store.
pub proof fn law_call_keeps_closures_sound(
    f: ObjectView,
    args: Seq<ObjectView>,
    st: EvalState,
    depth: nat,
)
    requires
        frames_sound(st.frames),
        closures_within(f, st.frames.len()),
        all_within(args, st.frames.len()),
    ensures
        frames_sound(apply_function(f, args, st, depth).1.frames),
        st.frames.len() <= apply_function(f, args, st, depth).1.frames.len(),
        closures_within(
            apply_function(f, args, st, depth).0,
            apply_function(f, args, st, depth).1.frames.len(),
        ),
    decreases depth, 0int,
{
    match f {
        ObjectView::Function { parameters, body, env } => {
            if args.len() == parameters.len() && depth > 0 {
                let inner = st.frames.len();
                let enclosed = store_enclose(st.frames, env);
                lemma_enclose_keeps_sound(st.frames, env);
                lemma_all_within_monotone(args, st.frames.len(), enclosed.len());
                lemma_bind_all_keeps_sound(enclosed, inner, parameters, args, 0);
                let frames = bind_all(enclosed, inner, parameters, args, 0);
                let inside = EvalState { frames, output: st.output };
                law_statements_keep_closures_sound(body, 0, inner, inside, (depth - 1) as nat);
            }
        },
        ObjectView::Builtin(b) => {
            lemma_builtin_within(b, args, st.frames.len());
        },
        _ => {},
    }
}

/// The state before anything has run is sound, and running a program
/// keeps it so: at every turn, every function that can be reached names a
/// frame that exists.
pub proof fn law_programs_keep_closures_sound(program: Seq<StmtView>, st: EvalState, depth: nat)
    requires
        frames_sound(st.frames),
        st.frames.len() > 0,
    ensures
        frames_sound(initial_state().frames),
        initial_state().frames.len() > 0,
        frames_sound(eval_program_spec(program, st, depth).1.frames),
        eval_program_spec(program, st, depth).1.frames.len() > 0,
        closures_within(
            eval_program_spec(program, st, depth).0,
            eval_program_spec(program, st, depth).1.frames.len(),
        ),
{
    law_statements_keep_closures_sound(program, 0, 0, st, depth);
    lemma_initial_frames();
}

proof fn lemma_initial_frames()
    ensures
        frames_sound(initial_state().frames),
        initial_state().frames.len() == 1,
{
    let start = seq![FrameView { vars: Map::empty(), parent: None }];
    let items = Seq::new(
        crate::builtins::builtin_table().len(),
        |i: int|
            (
                crate::builtins::builtin_table()[i].0,
                ObjectView::Builtin(crate::builtins::builtin_table()[i].1),
            ),
    );
    assert(frame_sound(start, 0));
    lemma_bind_named_keeps_sound(start, 0, items, 0);
    lemma_bind_named_length(start, 0, items, 0);
}

proof fn lemma_bind_named_length(
    frames: Seq<FrameView>,
    env: nat,
    items: Seq<(Seq<char>, ObjectView)>,
    i: nat,
)
    ensures
        bind_named(frames, env, items, i).len() == frames.len(),
    decreases items.len() - i,
{
    if i < items.len() {
        lemma_bind_named_length(
            store_set(frames, env, items[i as int].0, items[i as int].1),
            env,
            items,
            i + 1,
        );
    }
}

} // verus!
