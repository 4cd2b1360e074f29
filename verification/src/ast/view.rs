//! The mathematical value of syntax trees, and the text they print as.
use vstd::prelude::*;
use crate::text::int_text;
use crate::token::{token_text, TokenView};
use super::{BooleanLiteral, FunctionLiteral, Identifier, IntegerLiteral};
use super::{
    BlockStatement, CallExpression, Expression, IfExpression, InfixExpression, PrefixExpression,
    ExpressionStatement, LetStatement, Program, ReturnStatement, Statement,
};

verus! {

/// Value of an `Identifier`.
pub struct IdentifierView {
    pub token: TokenView,
    pub name: Seq<char>,
}

/// Value of an `IntegerLiteral`.
pub struct IntegerLiteralView {
    pub token: TokenView,
    pub value: i64,
}

/// Value of a `BooleanLiteral`.
pub struct BooleanLiteralView {
    pub token: TokenView,
    pub value: bool,
}

/// Value of an `Expression`.
pub enum ExpressionView {
    Identifier(IdentifierView),
    Integer(IntegerLiteralView),
    Boolean(BooleanLiteralView),
    Prefix { operator: TokenView, expression: Box<ExpressionView> },
    Infix { left: Box<ExpressionView>, operator: TokenView, right: Box<ExpressionView> },
    If { condition: Box<ExpressionView>, consequence: BlockView, alternative: Option<BlockView> },
    Call { function: Box<ExpressionView>, arguments: Seq<ExpressionView> },
    Function {
        token: TokenView,
        name: IdentifierView,
        parameters: Seq<IdentifierView>,
        body: BlockView,
    },
}

/// Value of a `BlockStatement`.
pub struct BlockView {
    pub token: TokenView,
    pub statements: Seq<StatementView>,
}

/// Value of a `Statement`.
pub enum StatementView {
    Let { token: TokenView, identifier: IdentifierView, value: ExpressionView },
    Return { token: TokenView, value: ExpressionView },
    Expression { token: TokenView, expression: ExpressionView },
}

impl View for Identifier {
    type V = IdentifierView;

    open spec fn view(&self) -> IdentifierView {
        IdentifierView { token: self.token@, name: self.name@ }
    }
}

impl View for IntegerLiteral {
    type V = IntegerLiteralView;

    open spec fn view(&self) -> IntegerLiteralView {
        IntegerLiteralView { token: self.token@, value: self.value }
    }
}

impl View for BooleanLiteral {
    type V = BooleanLiteralView;

    open spec fn view(&self) -> BooleanLiteralView {
        BooleanLiteralView { token: self.token@, value: self.value }
    }
}

/// The values of a sequence of identifiers.
pub open spec fn identifiers_view(s: Seq<Identifier>) -> Seq<IdentifierView> {
    s.map_values(|i: Identifier| i@)
}

/// The value of an expression.
pub open spec fn expression_view(e: &Expression) -> ExpressionView
    decreases e,
{
    match e {
        Expression::Identifier(i) => ExpressionView::Identifier(i@),
        Expression::Integer(i) => ExpressionView::Integer(i@),
        Expression::Boolean(b) => ExpressionView::Boolean(b@),
        Expression::Prefix(p) => ExpressionView::Prefix {
            operator: p.operator@,
            expression: Box::new(expression_view(&*p.expression)),
        },
        Expression::Infix(i) => ExpressionView::Infix {
            left: Box::new(expression_view(&*i.left)),
            operator: i.operator@,
            right: Box::new(expression_view(&*i.right)),
        },
        Expression::If(i) => ExpressionView::If {
            condition: Box::new(expression_view(&*i.condition)),
            consequence: block_view(&i.consequence),
            alternative: match &i.alternative {
                Some(b) => Some(block_view(b)),
                None => None,
            },
        },
        Expression::Call(c) => ExpressionView::Call {
            function: Box::new(expression_view(&*c.function)),
            arguments: expressions_view(c.arguments@),
        },
        Expression::Function(f) => ExpressionView::Function {
            token: f.token@,
            name: f.name@,
            parameters: identifiers_view(f.parameters@),
            body: block_view(&f.body),
        },
    }
}

/// The values of a sequence of expressions.
pub open spec fn expressions_view(s: Seq<Expression>) -> Seq<ExpressionView>
    decreases s,
{
    if s.len() == 0 {
        seq![]
    } else {
        expressions_view(s.drop_last()).push(expression_view(&s.last()))
    }
}

/// The value of a block.
pub open spec fn block_view(b: &BlockStatement) -> BlockView
    decreases b,
{
    BlockView { token: b.token@, statements: statements_view(b.statements@) }
}

/// The values of a sequence of statements.
pub open spec fn statements_view(s: Seq<Statement>) -> Seq<StatementView>
    decreases s,
{
    if s.len() == 0 {
        seq![]
    } else {
        statements_view(s.drop_last()).push(statement_view(&s.last()))
    }
}

/// The value of a statement.
pub open spec fn statement_view(s: &Statement) -> StatementView
    decreases s,
{
    match s {
        Statement::Let(l) => StatementView::Let {
            token: l.token@,
            identifier: l.identifier@,
            value: expression_view(&l.value),
        },
        Statement::Return(r) => StatementView::Return {
            token: r.token@,
            value: expression_view(&r.value),
        },
        Statement::Expression(x) => StatementView::Expression {
            token: x.token@,
            expression: expression_view(&x.expression),
        },
    }
}

impl View for LetStatement {
    type V = StatementView;

    open spec fn view(&self) -> StatementView {
        StatementView::Let {
            token: self.token@,
            identifier: self.identifier@,
            value: expression_view(&self.value),
        }
    }
}

impl View for ReturnStatement {
    type V = StatementView;

    open spec fn view(&self) -> StatementView {
        StatementView::Return { token: self.token@, value: expression_view(&self.value) }
    }
}

impl View for ExpressionStatement {
    type V = StatementView;

    open spec fn view(&self) -> StatementView {
        StatementView::Expression { token: self.token@, expression: expression_view(&self.expression) }
    }
}

impl View for Expression {
    type V = ExpressionView;

    open spec fn view(&self) -> ExpressionView {
        expression_view(self)
    }
}

impl View for BlockStatement {
    type V = BlockView;

    open spec fn view(&self) -> BlockView {
        block_view(self)
    }
}

impl View for Statement {
    type V = StatementView;

    open spec fn view(&self) -> StatementView {
        statement_view(self)
    }
}

/// The printed form of an expression: every prefix and infix expression in
/// parentheses, call arguments separated by `, `.
pub open spec fn expression_text(e: ExpressionView) -> Seq<char>
    decreases e,
{
    match e {
        ExpressionView::Identifier(i) => i.name,
        ExpressionView::Integer(i) => int_text(i.value as int),
        ExpressionView::Boolean(b) => bool_text(b.value),
        ExpressionView::Prefix { operator, expression } => seq!['('] + token_text(operator)
            + expression_text(*expression) + seq![')'],
        ExpressionView::Infix { left, operator, right } => seq!['('] + expression_text(*left)
            + seq![' '] + token_text(operator) + seq![' '] + expression_text(*right) + seq![')'],
        ExpressionView::If { condition, consequence, alternative } => seq!['i', 'f', ' ']
            + expression_text(*condition) + seq![' '] + block_text(consequence) + match alternative {
            Some(b) => seq!['\n', 'e', 'l', 's', 'e', ' '] + block_text(b),
            None => seq![],
        },
        ExpressionView::Call { function, arguments } => expression_text(*function) + seq!['(']
            + arguments_text(arguments) + seq![')'],
        ExpressionView::Function { token, name, parameters, body } => seq!['f', 'n', ' ']
            + name.name + seq!['('] + names_text(parameters) + seq![')', ' '] + block_text(body),
    }
}

/// `true` or `false`.
pub open spec fn bool_text(b: bool) -> Seq<char> {
    if b {
        seq!['t', 'r', 'u', 'e']
    } else {
        seq!['f', 'a', 'l', 's', 'e']
    }
}

/// The printed expressions, separated by `, `.
pub open spec fn arguments_text(s: Seq<ExpressionView>) -> Seq<char>
    decreases s,
{
    if s.len() == 0 {
        seq![]
    } else if s.len() == 1 {
        expression_text(s[0])
    } else {
        arguments_text(s.drop_last()) + seq![',', ' '] + expression_text(s.last())
    }
}

/// The names, separated by `, `.
pub open spec fn names_text(s: Seq<IdentifierView>) -> Seq<char>
    decreases s.len(),
{
    if s.len() == 0 {
        seq![]
    } else if s.len() == 1 {
        s[0].name
    } else {
        names_text(s.drop_last()) + seq![',', ' '] + s.last().name
    }
}

/// The printed form of a block: `{`, then each statement followed by `;` on a
/// line of its own, then `}`.
pub open spec fn block_text(b: BlockView) -> Seq<char>
    decreases b,
{
    seq!['{', '\n'] + block_lines(b.statements) + seq!['}']
}

/// Each statement followed by `;` and a line break.
pub open spec fn block_lines(s: Seq<StatementView>) -> Seq<char>
    decreases s,
{
    if s.len() == 0 {
        seq![]
    } else {
        block_lines(s.drop_last()) + statement_text(s.last()) + seq![';', '\n']
    }
}

/// The printed form of a statement: `let x = value;`, `return value`, or the expression.
pub open spec fn statement_text(s: StatementView) -> Seq<char>
    decreases s,
{
    match s {
        StatementView::Let { token, identifier, value } => token_text(token) + seq![' ']
            + identifier.name + seq![' ', '=', ' '] + expression_text(value) + seq![';'],
        StatementView::Return { token, value } => token_text(token) + seq![' '] + expression_text(
            value,
        ),
        StatementView::Expression { token, expression } => expression_text(expression),
    }
}

/// The printed form of a program: each statement on a line of its own.
pub open spec fn program_text(s: Seq<StatementView>) -> Seq<char>
    decreases s.len(),
{
    if s.len() == 0 {
        seq![]
    } else {
        program_text(s.drop_last()) + statement_text(s.last()) + seq!['\n']
    }
}

/// A `let` statement prints as `let <name> = <value>;`, with its value
/// printed whole; a `return` statement prints as `return <value>`; an
/// expression statement prints as its expression.
pub proof fn lemma_statement_prints_value(
    identifier: IdentifierView,
    value: ExpressionView,
    token: TokenView,
)
    ensures
        statement_text(StatementView::Let { token: TokenView::Let, identifier, value }) == seq![
            'l',
            'e',
            't',
            ' ',
        ] + identifier.name + seq![' ', '=', ' '] + expression_text(value) + seq![';'],
        statement_text(StatementView::Return { token: TokenView::Return, value }) == seq![
            'r',
            'e',
            't',
            'u',
            'r',
            'n',
            ' ',
        ] + expression_text(value),
        statement_text(StatementView::Expression { token, expression: value }) == expression_text(
            value,
        ),
{
    assert(token_text(TokenView::Let) + seq![' '] =~= seq!['l', 'e', 't', ' ']);
    assert(token_text(TokenView::Return) + seq![' '] =~= seq!['r', 'e', 't', 'u', 'r', 'n', ' ']);
}

/// A program prints as its statements, each followed by a line break: the
/// text of the program after one more statement is the text before it,
/// then that statement's text and `\n`.
pub proof fn lemma_program_prints_statements(s: Seq<StatementView>, last: StatementView)
    ensures
        program_text(s.push(last)) == program_text(s) + statement_text(last) + seq!['\n'],
        program_text(Seq::empty()) == Seq::<char>::empty(),
{
    assert(s.push(last).drop_last() =~= s);
}

} // verus!
