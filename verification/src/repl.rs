//! One turn of the interactive loop: from a unit of input to the text
//! that answers it. Reading the input and writing the answer are left to
//! the caller; bindings made in one turn are seen by the next.

use vstd::prelude::*;
use vstd::string::*;
use crate::evaluator::{eval_program_spec, initial_state, EvalState, Evaluator, DEFAULT_MAX_DEPTH};
use crate::lexer::{tokenize, tokenize_spec};
use crate::object::inspect_text;
use crate::parser::{parse, parse_program_spec};
use crate::text::{concat_all, lemma_concat_step, strings_view};

verus! {

/// The prompt that stands before every unit of input.
pub const PROMPT: &'static str = ">> ";

/// What is written in front of a list of syntax errors.
pub open spec fn errors_banner() -> Seq<char> {
    "\n     /\\_/\\\n    ( o.o )\n    > ^ <\n\nOops! We ran into parser errors\n"@
}

/// The lines of a report: each error after a tab and an arrow.
pub open spec fn error_lines(errors: Seq<Seq<char>>) -> Seq<Seq<char>> {
    Seq::new(errors.len(), |i: int| "\t-> "@ + errors[i] + "\n"@)
}

/// The report of a unit that did not parse.
pub open spec fn errors_report(errors: Seq<Seq<char>>) -> Seq<char> {
    errors_banner() + concat_all(error_lines(errors))
}

/// Each line with a line end after it.
pub open spec fn ended_lines(lines: Seq<Seq<char>>) -> Seq<Seq<char>> {
    Seq::new(lines.len(), |i: int| lines[i] + "\n"@)
}

/// The answer to a unit that ran: the lines it wrote, then the canonical
/// text of its value, each on a line of its own.
pub open spec fn answer(lines: Seq<Seq<char>>, value: Seq<char>) -> Seq<char> {
    concat_all(ended_lines(lines)) + value + "\n"@
}

/// What one turn writes and the state it leaves. A unit with a syntax
/// error is reported and not run: the state stays as it was. Any other
/// unit is run, and the lines it wrote are handed out with its value.
pub open spec fn turn(input: Seq<char>, st: EvalState, depth: nat) -> (Seq<char>, EvalState) {
    let (program, errors) = parse_program_spec(tokenize_spec(input));
    if errors.len() > 0 {
        (errors_report(errors), st)
    } else {
        let (value, after) = eval_program_spec(program, st, depth);
        (
            answer(after.output, inspect_text(value)),
            EvalState { frames: after.frames, output: Seq::empty() },
        )
    }
}

/// The report of a unit that did not parse.
pub fn format_parse_errors(errors: &Vec<String>) -> (r: String)
    ensures
        r@ == errors_report(strings_view(errors@)),
{
    let ghost lines = error_lines(strings_view(errors@));
    let mut out = String::from_str(
        "\n     /\\_/\\\n    ( o.o )\n    > ^ <\n\nOops! We ran into parser errors\n",
    );
    let mut i: usize = 0;
    assert(out@ =~= errors_banner() + concat_all(lines.take(0)));
    while i < errors.len()
        invariant
            i <= errors.len(),
            lines == error_lines(strings_view(errors@)),
            out@ == errors_banner() + concat_all(lines.take(i as int)),
        decreases errors.len() - i,
    {
        proof {
            lemma_concat_step(lines, i as int);
        }
        out.append("\t-> ");
        out.append(errors[i].as_str());
        out.append("\n");
        i += 1;
        assert(out@ =~= errors_banner() + concat_all(lines.take(i as int)));
    }
    assert(lines.take(i as int) =~= lines);
    out
}

/// The answer to a unit that ran.
pub fn format_answer(lines: &Vec<String>, value: &str) -> (r: String)
    ensures
        r@ == answer(strings_view(lines@), value@),
{
    let ghost ended = ended_lines(strings_view(lines@));
    let mut out = String::new();
    let mut i: usize = 0;
    assert(out@ =~= concat_all(ended.take(0)));
    while i < lines.len()
        invariant
            i <= lines.len(),
            ended == ended_lines(strings_view(lines@)),
            out@ == concat_all(ended.take(i as int)),
        decreases lines.len() - i,
    {
        proof {
            lemma_concat_step(ended, i as int);
        }
        out.append(lines[i].as_str());
        out.append("\n");
        i += 1;
        assert(out@ =~= concat_all(ended.take(i as int)));
    }
    assert(ended.take(i as int) =~= ended);
    out.append(value);
    out.append("\n");
    out
}

/// The interactive loop's state: one evaluator for all turns.
pub struct Repl {
    pub evaluator: Evaluator,
}

impl Repl {
    /// A loop in which nothing has run yet.
    pub fn new() -> (r: Repl)
        ensures
            r.evaluator@ == initial_state(),
            r.evaluator.max_depth == DEFAULT_MAX_DEPTH,
    {
        Repl { evaluator: Evaluator::new() }
    }

    /// Takes one unit of input and returns what is to be written.
    pub fn feed(&mut self, input: &str) -> (r: String)
        ensures
            r@ == turn(input@, old(self).evaluator@, old(self).evaluator.max_depth as nat).0,
            final(self).evaluator@ == turn(
                input@,
                old(self).evaluator@,
                old(self).evaluator.max_depth as nat,
            ).1,
            final(self).evaluator.max_depth == old(self).evaluator.max_depth,
    {
        let tokens = tokenize(input);
        let (program, errors) = parse(tokens);
        if errors.len() > 0 {
            return format_parse_errors(&errors);
        }
        let value = self.evaluator.eval_program(program);
        let lines = self.evaluator.take_output();
        let text = value.inspect();
        format_answer(&lines, text.as_str())
    }
}

/// A unit with one or more syntax errors is answered with the report of
/// all of them and is not run: the frames and the output stay as they
/// were.
pub proof fn law_malformed_unit_is_not_run(input: Seq<char>, st: EvalState, depth: nat)
    requires
        parse_program_spec(tokenize_spec(input)).1.len() > 0,
    ensures
        turn(input, st, depth).0 == errors_report(parse_program_spec(tokenize_spec(input)).1),
        turn(input, st, depth).1 == st,
{
}

/// A unit without syntax errors is run, and what it binds is there for
/// the next turn: the next turn starts from the frames that this one
/// left.
pub proof fn law_turns_accumulate(input: Seq<char>, st: EvalState, depth: nat)
    requires
        parse_program_spec(tokenize_spec(input)).1.len() == 0,
    ensures
        turn(input, st, depth).1.frames == eval_program_spec(
            parse_program_spec(tokenize_spec(input)).0,
            st,
            depth,
        ).1.frames,
        turn(input, st, depth).1.output == Seq::<Seq<char>>::empty(),
{
}

} // verus!
