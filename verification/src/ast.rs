//! The abstract syntax tree: statements and expressions, each owning its
//! children, together with the mathematical view of every node.

use vstd::prelude::*;
use vstd::string::*;
use crate::text::{
    append_i64, clone_strings, concat_all, decimal, join, lemma_concat_step, lemma_join_step,
    strings_view,
};

verus! {

/// A unary operator written in front of its operand.
#[derive(Clone, Copy, Debug, PartialEq, Eq, Structural)]
pub enum PrefixOp {
    Bang,
    Minus,
}

/// A binary operator written between its operands.
#[derive(Clone, Copy, Debug, PartialEq, Eq, Structural)]
pub enum InfixOp {
    Plus,
    Minus,
    Asterisk,
    Slash,
    Lt,
    Gt,
    Eq,
    NotEq,
}

#[derive(Debug)]
#[allow(inconsistent_fields)]
pub enum Expression {
    Identifier { name: String },
    IntegerLiteral { value: i64 },
    StringLiteral { value: String },
    BooleanLiteral { value: bool },
    Prefix { operator: PrefixOp, right: Box<Expression> },
    Infix { operator: InfixOp, left: Box<Expression>, right: Box<Expression> },
    If { condition: Box<Expression>, consequence: BlockStatement, alternative: Option<BlockStatement> },
    Function { parameters: Vec<String>, body: BlockStatement },
    Call { function: Box<Expression>, arguments: Vec<Expression> },
    Array { elements: Vec<Expression> },
    Index { left: Box<Expression>, index: Box<Expression> },
    Hash { pairs: Vec<(Expression, Expression)> },
}

#[derive(Debug)]
#[allow(inconsistent_fields)]
pub enum Statement {
    Let { name: String, value: Expression },
    Return { value: Expression },
    Expression { expression: Expression },
}

/// The statements between a pair of braces.
#[derive(Debug)]
pub struct BlockStatement {
    pub statements: Vec<Statement>,
}

/// One unit of input: the statements of a whole source text.
#[derive(Debug)]
pub struct Program {
    pub statements: Vec<Statement>,
}

#[allow(inconsistent_fields)]
pub enum ExprView {
    Identifier { name: Seq<char> },
    IntegerLiteral { value: i64 },
    StringLiteral { value: Seq<char> },
    BooleanLiteral { value: bool },
    Prefix { operator: PrefixOp, right: Box<ExprView> },
    Infix { operator: InfixOp, left: Box<ExprView>, right: Box<ExprView> },
    If { condition: Box<ExprView>, consequence: Seq<StmtView>, alternative: Option<Seq<StmtView>> },
    Function { parameters: Seq<Seq<char>>, body: Seq<StmtView> },
    Call { function: Box<ExprView>, arguments: Seq<ExprView> },
    Array { elements: Seq<ExprView> },
    Index { left: Box<ExprView>, index: Box<ExprView> },
    Hash { pairs: Seq<(ExprView, ExprView)> },
}

#[allow(inconsistent_fields)]
pub enum StmtView {
    Let { name: Seq<char>, value: ExprView },
    Return { value: ExprView },
    Expression { expression: ExprView },
}

pub open spec fn expr_view(e: Expression) -> ExprView
    decreases e,
{
    match e {
        Expression::Identifier { name } => ExprView::Identifier { name: name@ },
        Expression::IntegerLiteral { value } => ExprView::IntegerLiteral { value },
        Expression::StringLiteral { value } => ExprView::StringLiteral { value: value@ },
        Expression::BooleanLiteral { value } => ExprView::BooleanLiteral { value },
        Expression::Prefix { operator, right } => ExprView::Prefix {
            operator,
            right: Box::new(expr_view(*right)),
        },
        Expression::Infix { operator, left, right } => ExprView::Infix {
            operator,
            left: Box::new(expr_view(*left)),
            right: Box::new(expr_view(*right)),
        },
        Expression::If { condition, consequence, alternative } => ExprView::If {
            condition: Box::new(expr_view(*condition)),
            consequence: stmts_view(consequence.statements@),
            alternative: match alternative {
                Some(block) => Some(stmts_view(block.statements@)),
                None => None,
            },
        },
        Expression::Function { parameters, body } => ExprView::Function {
            parameters: strings_view(parameters@),
            body: stmts_view(body.statements@),
        },
        Expression::Call { function, arguments } => ExprView::Call {
            function: Box::new(expr_view(*function)),
            arguments: exprs_view(arguments@),
        },
        Expression::Array { elements } => ExprView::Array { elements: exprs_view(elements@) },
        Expression::Index { left, index } => ExprView::Index {
            left: Box::new(expr_view(*left)),
            index: Box::new(expr_view(*index)),
        },
        Expression::Hash { pairs } => ExprView::Hash { pairs: pairs_view(pairs@) },
    }
}

pub open spec fn exprs_view(es: Seq<Expression>) -> Seq<ExprView>
    decreases es,
{
    Seq::new(
        es.len(),
        |i: int|
            if 0 <= i < es.len() {
                expr_view(es[i])
            } else {
                arbitrary()
            },
    )
}

pub open spec fn pairs_view(ps: Seq<(Expression, Expression)>) -> Seq<(ExprView, ExprView)>
    decreases ps,
{
    Seq::new(
        ps.len(),
        |i: int|
            if 0 <= i < ps.len() {
                (expr_view(ps[i].0), expr_view(ps[i].1))
            } else {
                arbitrary()
            },
    )
}

pub open spec fn stmt_view(s: Statement) -> StmtView
    decreases s,
{
    match s {
        Statement::Let { name, value } => StmtView::Let { name: name@, value: expr_view(value) },
        Statement::Return { value } => StmtView::Return { value: expr_view(value) },
        Statement::Expression { expression } => StmtView::Expression {
            expression: expr_view(expression),
        },
    }
}

pub open spec fn stmts_view(ss: Seq<Statement>) -> Seq<StmtView>
    decreases ss,
{
    Seq::new(
        ss.len(),
        |i: int|
            if 0 <= i < ss.len() {
                stmt_view(ss[i])
            } else {
                arbitrary()
            },
    )
}

impl View for Expression {
    type V = ExprView;

    open spec fn view(&self) -> ExprView {
        expr_view(*self)
    }
}

impl View for Statement {
    type V = StmtView;

    open spec fn view(&self) -> StmtView {
        stmt_view(*self)
    }
}

impl View for BlockStatement {
    type V = Seq<StmtView>;

    open spec fn view(&self) -> Seq<StmtView> {
        stmts_view(self.statements@)
    }
}

impl View for Program {
    type V = Seq<StmtView>;

    open spec fn view(&self) -> Seq<StmtView> {
        stmts_view(self.statements@)
    }
}

fn clone_expressions(es: &Vec<Expression>) -> (r: Vec<Expression>)
    ensures
        exprs_view(r@) == exprs_view(es@),
    decreases *es,
{
    let mut out: Vec<Expression> = Vec::new();
    let mut i: usize = 0;
    while i < es.len()
        invariant
            i <= es.len(),
            out.len() == i,
            forall|j: int| 0 <= j < i ==> expr_view(out@[j]) == expr_view(es@[j]),
        decreases es.len() - i,
    {
        out.push(es[i].clone());
        i += 1;
    }
    assert(exprs_view(out@) =~= exprs_view(es@));
    out
}

fn clone_pairs(ps: &Vec<(Expression, Expression)>) -> (r: Vec<(Expression, Expression)>)
    ensures
        pairs_view(r@) == pairs_view(ps@),
    decreases *ps,
{
    let mut out: Vec<(Expression, Expression)> = Vec::new();
    let mut i: usize = 0;
    while i < ps.len()
        invariant
            i <= ps.len(),
            out.len() == i,
            forall|j: int|
                0 <= j < i ==> expr_view(out@[j].0) == expr_view(ps@[j].0) && expr_view(
                    out@[j].1,
                ) == expr_view(ps@[j].1),
        decreases ps.len() - i,
    {
        proof {
            assert(decreases_to!(*ps => ps[i as int]));
            assert(decreases_to!(ps[i as int] => ps[i as int].0));
            assert(decreases_to!(ps[i as int] => ps[i as int].1));
        }
        let key = ps[i].0.clone();
        let value = ps[i].1.clone();
        out.push((key, value));
        i += 1;
    }
    assert(pairs_view(out@) =~= pairs_view(ps@));
    out
}

fn clone_statements(ss: &Vec<Statement>) -> (r: Vec<Statement>)
    ensures
        stmts_view(r@) == stmts_view(ss@),
    decreases *ss,
{
    let mut out: Vec<Statement> = Vec::new();
    let mut i: usize = 0;
    while i < ss.len()
        invariant
            i <= ss.len(),
            out.len() == i,
            forall|j: int| 0 <= j < i ==> stmt_view(out@[j]) == stmt_view(ss@[j]),
        decreases ss.len() - i,
    {
        out.push(ss[i].clone());
        i += 1;
    }
    assert(stmts_view(out@) =~= stmts_view(ss@));
    out
}

impl Clone for Expression {
    fn clone(&self) -> (r: Self)
        ensures
            r@ == self@,
        decreases *self,
    {
        match self {
            Expression::Identifier { name } => Expression::Identifier { name: name.clone() },
            Expression::IntegerLiteral { value } => Expression::IntegerLiteral { value: *value },
            Expression::StringLiteral { value } => Expression::StringLiteral {
                value: value.clone(),
            },
            Expression::BooleanLiteral { value } => Expression::BooleanLiteral { value: *value },
            Expression::Prefix { operator, right } => Expression::Prefix {
                operator: *operator,
                right: Box::new((**right).clone()),
            },
            Expression::Infix { operator, left, right } => Expression::Infix {
                operator: *operator,
                left: Box::new((**left).clone()),
                right: Box::new((**right).clone()),
            },
            Expression::If { condition, consequence, alternative } => {
                let alt = match alternative {
                    Some(block) => Some(block.clone()),
                    None => None,
                };
                Expression::If {
                    condition: Box::new((**condition).clone()),
                    consequence: consequence.clone(),
                    alternative: alt,
                }
            },
            Expression::Function { parameters, body } => Expression::Function {
                parameters: clone_strings(parameters),
                body: body.clone(),
            },
            Expression::Call { function, arguments } => Expression::Call {
                function: Box::new((**function).clone()),
                arguments: clone_expressions(arguments),
            },
            Expression::Array { elements } => Expression::Array {
                elements: clone_expressions(elements),
            },
            Expression::Index { left, index } => Expression::Index {
                left: Box::new((**left).clone()),
                index: Box::new((**index).clone()),
            },
            Expression::Hash { pairs } => Expression::Hash { pairs: clone_pairs(pairs) },
        }
    }
}

impl Clone for Statement {
    fn clone(&self) -> (r: Self)
        ensures
            r@ == self@,
        decreases *self,
    {
        match self {
            Statement::Let { name, value } => Statement::Let {
                name: name.clone(),
                value: value.clone(),
            },
            Statement::Return { value } => Statement::Return { value: value.clone() },
            Statement::Expression { expression } => Statement::Expression {
                expression: expression.clone(),
            },
        }
    }
}

impl Clone for BlockStatement {
    fn clone(&self) -> (r: Self)
        ensures
            r@ == self@,
        decreases *self,
    {
        BlockStatement { statements: clone_statements(&self.statements) }
    }
}

impl Clone for Program {
    fn clone(&self) -> (r: Self)
        ensures
            r@ == self@,
    {
        Program { statements: clone_statements(&self.statements) }
    }
}

pub open spec fn prefix_op_text(op: PrefixOp) -> Seq<char> {
    match op {
        PrefixOp::Bang => "!"@,
        PrefixOp::Minus => "-"@,
    }
}

pub open spec fn infix_op_text(op: InfixOp) -> Seq<char> {
    match op {
        InfixOp::Plus => "+"@,
        InfixOp::Minus => "-"@,
        InfixOp::Asterisk => "*"@,
        InfixOp::Slash => "/"@,
        InfixOp::Lt => "<"@,
        InfixOp::Gt => ">"@,
        InfixOp::Eq => "=="@,
        InfixOp::NotEq => "!="@,
    }
}

pub open spec fn bool_text(b: bool) -> Seq<char> {
    if b {
        "true"@
    } else {
        "false"@
    }
}

/// The source form of an expression, with every operator application in
/// parentheses so that the grouping shows.
pub open spec fn expr_text(e: ExprView) -> Seq<char>
    decreases e,
{
    match e {
        ExprView::Identifier { name } => name,
        ExprView::IntegerLiteral { value } => decimal(value as int),
        ExprView::StringLiteral { value } => value,
        ExprView::BooleanLiteral { value } => bool_text(value),
        ExprView::Prefix { operator, right } => "("@ + prefix_op_text(operator) + expr_text(*right)
            + ")"@,
        ExprView::Infix { operator, left, right } => "("@ + expr_text(*left) + " "@
            + infix_op_text(operator) + " "@ + expr_text(*right) + ")"@,
        ExprView::If { condition, consequence, alternative } => "if"@ + expr_text(*condition)
            + " "@ + concat_all(stmt_texts(consequence)) + match alternative {
            Some(block) => "else "@ + concat_all(stmt_texts(block)),
            None => Seq::empty(),
        },
        ExprView::Function { parameters, body } => "fn("@ + join(parameters, ", "@) + ") "@
            + concat_all(stmt_texts(body)),
        ExprView::Call { function, arguments } => expr_text(*function) + "("@ + join(
            expr_texts(arguments),
            ", "@,
        ) + ")"@,
        ExprView::Array { elements } => "["@ + join(expr_texts(elements), ", "@) + "]"@,
        ExprView::Index { left, index } => "("@ + expr_text(*left) + "["@ + expr_text(*index)
            + "])"@,
        ExprView::Hash { pairs } => "{"@ + join(pair_texts(pairs), ", "@) + "}"@,
    }
}

pub open spec fn expr_texts(es: Seq<ExprView>) -> Seq<Seq<char>>
    decreases es,
{
    Seq::new(
        es.len(),
        |i: int|
            if 0 <= i < es.len() {
                expr_text(es[i])
            } else {
                arbitrary()
            },
    )
}

pub open spec fn pair_texts(ps: Seq<(ExprView, ExprView)>) -> Seq<Seq<char>>
    decreases ps,
{
    Seq::new(
        ps.len(),
        |i: int|
            if 0 <= i < ps.len() {
                expr_text(ps[i].0) + ":"@ + expr_text(ps[i].1)
            } else {
                arbitrary()
            },
    )
}

pub open spec fn stmt_text(s: StmtView) -> Seq<char>
    decreases s,
{
    match s {
        StmtView::Let { name, value } => "let "@ + name + " = "@ + expr_text(value) + ";"@,
        StmtView::Return { value } => "return "@ + expr_text(value) + ";"@,
        StmtView::Expression { expression } => expr_text(expression),
    }
}

pub open spec fn stmt_texts(ss: Seq<StmtView>) -> Seq<Seq<char>>
    decreases ss,
{
    Seq::new(
        ss.len(),
        |i: int|
            if 0 <= i < ss.len() {
                stmt_text(ss[i])
            } else {
                arbitrary()
            },
    )
}

/// The source form of a run of statements: one after another.
pub open spec fn block_text(ss: Seq<StmtView>) -> Seq<char> {
    concat_all(stmt_texts(ss))
}

impl PrefixOp {
    pub fn as_str(&self) -> (r: &'static str)
        ensures
            r@ == prefix_op_text(*self),
    {
        match self {
            PrefixOp::Bang => "!",
            PrefixOp::Minus => "-",
        }
    }
}

impl InfixOp {
    pub fn as_str(&self) -> (r: &'static str)
        ensures
            r@ == infix_op_text(*self),
    {
        match self {
            InfixOp::Plus => "+",
            InfixOp::Minus => "-",
            InfixOp::Asterisk => "*",
            InfixOp::Slash => "/",
            InfixOp::Lt => "<",
            InfixOp::Gt => ">",
            InfixOp::Eq => "==",
            InfixOp::NotEq => "!=",
        }
    }
}

pub fn bool_str(b: bool) -> (r: &'static str)
    ensures
        r@ == bool_text(b),
{
    if b {
        "true"
    } else {
        "false"
    }
}

/// Appends the names, separated by a comma and a space.
pub fn append_names(out: &mut String, names: &Vec<String>)
    ensures
        final(out)@ == old(out)@ + join(strings_view(names@), ", "@),
{
    let ghost parts = strings_view(names@);
    let mut i: usize = 0;
    while i < names.len()
        invariant
            i <= names.len(),
            parts == strings_view(names@),
            out@ == old(out)@ + join(parts.take(i as int), ", "@),
        decreases names.len() - i,
    {
        proof {
            lemma_join_step(parts, ", "@, i as int);
        }
        if i > 0 {
            out.append(", ");
        }
        out.append(names[i].as_str());
        i += 1;
        assert(out@ =~= old(out)@ + join(parts.take(i as int), ", "@));
    }
    assert(parts.take(i as int) =~= parts);
}

fn append_expressions(out: &mut String, es: &Vec<Expression>)
    ensures
        final(out)@ == old(out)@ + join(expr_texts(exprs_view(es@)), ", "@),
    decreases *es,
{
    let ghost parts = expr_texts(exprs_view(es@));
    let mut i: usize = 0;
    while i < es.len()
        invariant
            i <= es.len(),
            parts == expr_texts(exprs_view(es@)),
            out@ == old(out)@ + join(parts.take(i as int), ", "@),
        decreases es.len() - i,
    {
        proof {
            lemma_join_step(parts, ", "@, i as int);
        }
        if i > 0 {
            out.append(", ");
        }
        append_expression(out, &es[i]);
        i += 1;
        assert(out@ =~= old(out)@ + join(parts.take(i as int), ", "@));
    }
    assert(parts.take(i as int) =~= parts);
}

fn append_pairs(out: &mut String, ps: &Vec<(Expression, Expression)>)
    ensures
        final(out)@ == old(out)@ + join(pair_texts(pairs_view(ps@)), ", "@),
    decreases *ps,
{
    let ghost parts = pair_texts(pairs_view(ps@));
    let mut i: usize = 0;
    while i < ps.len()
        invariant
            i <= ps.len(),
            parts == pair_texts(pairs_view(ps@)),
            out@ == old(out)@ + join(parts.take(i as int), ", "@),
        decreases ps.len() - i,
    {
        proof {
            lemma_join_step(parts, ", "@, i as int);
            assert(decreases_to!(*ps => ps[i as int]));
            assert(decreases_to!(ps[i as int] => ps[i as int].0));
            assert(decreases_to!(ps[i as int] => ps[i as int].1));
        }
        if i > 0 {
            out.append(", ");
        }
        append_expression(out, &ps[i].0);
        out.append(":");
        append_expression(out, &ps[i].1);
        i += 1;
        assert(out@ =~= old(out)@ + join(parts.take(i as int), ", "@));
    }
    assert(parts.take(i as int) =~= parts);
}

/// Appends the source form of a run of statements.
pub fn append_statements(out: &mut String, ss: &Vec<Statement>)
    ensures
        final(out)@ == old(out)@ + block_text(stmts_view(ss@)),
    decreases *ss,
{
    let ghost parts = stmt_texts(stmts_view(ss@));
    let mut i: usize = 0;
    assert(out@ =~= old(out)@ + concat_all(parts.take(0)));
    while i < ss.len()
        invariant
            i <= ss.len(),
            parts == stmt_texts(stmts_view(ss@)),
            out@ == old(out)@ + concat_all(parts.take(i as int)),
        decreases ss.len() - i,
    {
        proof {
            lemma_concat_step(parts, i as int);
        }
        append_statement(out, &ss[i]);
        i += 1;
        assert(out@ =~= old(out)@ + concat_all(parts.take(i as int)));
    }
    assert(parts.take(i as int) =~= parts);
}

/// Appends the source form of a statement.
pub fn append_statement(out: &mut String, s: &Statement)
    ensures
        final(out)@ == old(out)@ + stmt_text(s@),
    decreases *s,
{
    match s {
        Statement::Let { name, value } => {
            out.append("let ");
            out.append(name.as_str());
            out.append(" = ");
            append_expression(out, value);
            out.append(";");
            assert(out@ =~= old(out)@ + stmt_text(s@));
        },
        Statement::Return { value } => {
            out.append("return ");
            append_expression(out, value);
            out.append(";");
            assert(out@ =~= old(out)@ + stmt_text(s@));
        },
        Statement::Expression { expression } => {
            append_expression(out, expression);
        },
    }
}

/// Appends the source form of an expression.
#[verifier::rlimit(100)]
#[verifier::spinoff_prover]
pub fn append_expression(out: &mut String, e: &Expression)
    ensures
        final(out)@ == old(out)@ + expr_text(e@),
    decreases *e,
{
    match e {
        Expression::Identifier { name } => {
            out.append(name.as_str());
        },
        Expression::IntegerLiteral { value } => {
            append_i64(out, *value);
        },
        Expression::StringLiteral { value } => {
            out.append(value.as_str());
        },
        Expression::BooleanLiteral { value } => {
            out.append(bool_str(*value));
        },
        Expression::Prefix { operator, right } => {
            out.append("(");
            out.append(operator.as_str());
            append_expression(out, right);
            out.append(")");
            assert(out@ =~= old(out)@ + expr_text(e@));
        },
        Expression::Infix { operator, left, right } => {
            out.append("(");
            append_expression(out, left);
            out.append(" ");
            out.append(operator.as_str());
            out.append(" ");
            append_expression(out, right);
            out.append(")");
            assert(out@ =~= old(out)@ + expr_text(e@));
        },
        Expression::If { condition, consequence, alternative } => {
            out.append("if");
            append_expression(out, condition);
            out.append(" ");
            append_statements(out, &consequence.statements);
            match alternative {
                Some(block) => {
                    out.append("else ");
                    append_statements(out, &block.statements);
                },
                None => {},
            }
            assert(out@ =~= old(out)@ + expr_text(e@));
        },
        Expression::Function { parameters, body } => {
            out.append("fn(");
            append_names(out, parameters);
            out.append(") ");
            append_statements(out, &body.statements);
            assert(out@ =~= old(out)@ + expr_text(e@));
        },
        Expression::Call { function, arguments } => {
            append_expression(out, function);
            out.append("(");
            append_expressions(out, arguments);
            out.append(")");
            assert(out@ =~= old(out)@ + expr_text(e@));
        },
        Expression::Array { elements } => {
            out.append("[");
            append_expressions(out, elements);
            out.append("]");
            assert(out@ =~= old(out)@ + expr_text(e@));
        },
        Expression::Index { left, index } => {
            out.append("(");
            append_expression(out, left);
            out.append("[");
            append_expression(out, index);
            out.append("])");
            assert(out@ =~= old(out)@ + expr_text(e@));
        },
        Expression::Hash { pairs } => {
            out.append("{");
            append_pairs(out, pairs);
            out.append("}");
            assert(out@ =~= old(out)@ + expr_text(e@));
        },
    }
}

impl Expression {
    /// The source form of the expression.
    pub fn to_text(&self) -> (r: String)
        ensures
            r@ == expr_text(self@),
    {
        let mut out = String::new();
        append_expression(&mut out, self);
        assert(out@ =~= expr_text(self@));
        out
    }
}

impl Statement {
    /// The source form of the statement.
    pub fn to_text(&self) -> (r: String)
        ensures
            r@ == stmt_text(self@),
    {
        let mut out = String::new();
        append_statement(&mut out, self);
        assert(out@ =~= stmt_text(self@));
        out
    }
}

impl Program {
    /// The source form of the program: its statements one after another.
    pub fn to_text(&self) -> (r: String)
        ensures
            r@ == block_text(self@),
    {
        let mut out = String::new();
        append_statements(&mut out, &self.statements);
        assert(out@ =~= block_text(self@));
        out
    }
}

} // verus!
