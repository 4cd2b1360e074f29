//! A syntax tree whose nodes live in an arena and refer to each other by index.
use vstd::prelude::*;
use std::collections::HashMap;
use crate::token::{token_text, Token};

verus! {

/// The index of a node in its arena.
pub type NodeId = usize;

/// Holds all statements and all expressions of a tree; a node is found again
/// by the index it was added under.
#[derive(Debug)]
pub struct Arena {
    statements: Vec<Statement>,
    expressions: Vec<Expression>,
    next_statement_id: NodeId,
    next_expression_id: NodeId,
}

impl Arena {
    /// The statements, by index.
    pub closed spec fn statement_list(&self) -> Seq<Statement> {
        self.statements@
    }

    /// The expressions, by index.
    pub closed spec fn expression_list(&self) -> Seq<Expression> {
        self.expressions@
    }

    /// The next index of each kind is the number of nodes of that kind.
    pub closed spec fn wf(&self) -> bool {
        &&& self.next_statement_id == self.statements@.len()
        &&& self.next_expression_id == self.expressions@.len()
    }

    /// An empty arena.
    pub fn new() -> (arena: Self)
        ensures
            arena.wf(),
            arena.statement_list().len() == 0,
            arena.expression_list().len() == 0,
    {
        Arena {
            statements: Vec::new(),
            expressions: Vec::new(),
            next_statement_id: 0,
            next_expression_id: 0,
        }
    }

    /// Adds a statement; its index is the number of statements before it.
    pub fn add_statement(&mut self, statement: Statement) -> (id: NodeId)
        requires
            old(self).wf(),
            old(self).statement_list().len() < usize::MAX,
        ensures
            final(self).wf(),
            id == old(self).statement_list().len(),
            final(self).statement_list() == old(self).statement_list().push(statement),
            final(self).expression_list() == old(self).expression_list(),
    {
        let id = self.next_statement_id;
        self.statements.push(statement);
        self.next_statement_id = self.next_statement_id + 1;
        id
    }

    /// Adds an expression; its index is the number of expressions before it.
    pub fn add_expression(&mut self, expression: Expression) -> (id: NodeId)
        requires
            old(self).wf(),
            old(self).expression_list().len() < usize::MAX,
        ensures
            final(self).wf(),
            id == old(self).expression_list().len(),
            final(self).expression_list() == old(self).expression_list().push(expression),
            final(self).statement_list() == old(self).statement_list(),
    {
        let id = self.next_expression_id;
        self.expressions.push(expression);
        self.next_expression_id = self.next_expression_id + 1;
        id
    }

    /// The statement at `id`, if there is one.
    pub fn get_statement(&self, id: NodeId) -> (r: Option<&Statement>)
        ensures
            r == if id < self.statement_list().len() {
                Some(&self.statement_list()[id as int])
            } else {
                None::<&Statement>
            },
    {
        if id < self.statements.len() {
            Some(&self.statements[id])
        } else {
            None
        }
    }

    /// The expression at `id`, if there is one.
    pub fn get_expression(&self, id: NodeId) -> (r: Option<&Expression>)
        ensures
            r == if id < self.expression_list().len() {
                Some(&self.expression_list()[id as int])
            } else {
                None::<&Expression>
            },
    {
        if id < self.expressions.len() {
            Some(&self.expressions[id])
        } else {
            None
        }
    }

    /// The statement at `id` to change in place, if there is one.
    pub fn get_statement_mut(&mut self, id: NodeId) -> (r: Option<&mut Statement>)
        ensures
            id < old(self).statement_list().len() ==> r is Some && *r->0
                == old(self).statement_list()[id as int],
            id < old(self).statement_list().len() ==> final(self).statement_list()
                == old(self).statement_list().update(id as int, *final(r->0)),
            id >= old(self).statement_list().len() ==> r is None && *final(self) == *old(self),
            final(self).expression_list() == old(self).expression_list(),
            old(self).wf() ==> final(self).wf(),
    {
        if id < self.statements.len() {
            Some(&mut self.statements[id])
        } else {
            None
        }
    }

    /// The expression at `id` to change in place, if there is one.
    pub fn get_expression_mut(&mut self, id: NodeId) -> (r: Option<&mut Expression>)
        ensures
            id < old(self).expression_list().len() ==> r is Some && *r->0
                == old(self).expression_list()[id as int],
            id < old(self).expression_list().len() ==> final(self).expression_list()
                == old(self).expression_list().update(id as int, *final(r->0)),
            id >= old(self).expression_list().len() ==> r is None && *final(self) == *old(self),
            final(self).statement_list() == old(self).statement_list(),
            old(self).wf() ==> final(self).wf(),
    {
        if id < self.expressions.len() {
            Some(&mut self.expressions[id])
        } else {
            None
        }
    }
}

/// Adding a node to an arena and then looking up the index it was given finds
/// that node; every node added before it keeps its index, and the nodes of the
/// other kind stay as they were.  `after` is the arena as `add_statement` and
/// `add_expression` leave it.
pub proof fn lemma_add_then_get(
    before: Arena,
    after_statement: Arena,
    statement: Statement,
    after_expression: Arena,
    expression: Expression,
    other: int,
)
    requires
        after_statement.statement_list() == before.statement_list().push(statement),
        after_statement.expression_list() == before.expression_list(),
        after_expression.expression_list() == before.expression_list().push(expression),
        after_expression.statement_list() == before.statement_list(),
    ensures
        after_statement.statement_list().len() == before.statement_list().len() + 1,
        after_statement.statement_list()[before.statement_list().len() as int] == statement,
        0 <= other < before.statement_list().len() ==> after_statement.statement_list()[other]
            == before.statement_list()[other],
        after_expression.expression_list().len() == before.expression_list().len() + 1,
        after_expression.expression_list()[before.expression_list().len() as int] == expression,
        0 <= other < before.expression_list().len() ==> after_expression.expression_list()[other]
            == before.expression_list()[other],
{
}

/// Adds nodes to an arena and hands back their indices.
pub struct AstBuilder<'a> {
    arena: &'a mut Arena,
}

impl<'a> AstBuilder<'a> {
    /// The arena the builder adds to.
    pub closed spec fn arena(&self) -> Arena {
        *self.arena
    }

    /// The reference to the arena the builder adds to.
    pub closed spec fn target(&self) -> &'a mut Arena {
        self.arena
    }

    /// Once the builder is done with, the arena it was made with holds what
    /// the builder added.
    pub proof fn lemma_done(&self)
        requires
            has_resolved(*self),
        ensures
            *final(self.target()) == self.arena(),
    {
    }

    pub fn new(arena: &'a mut Arena) -> (b: Self)
        ensures
            b.arena() == *old(arena),
            *final(b.target()) == *final(arena),
    {
        AstBuilder { arena }
    }

    pub fn identifier(&mut self, token: Token, name: String) -> (id: NodeId)
        requires
            old(self).arena().wf(),
            old(self).arena().expression_list().len() < usize::MAX,
        ensures
            final(self).arena().wf(),
            id == old(self).arena().expression_list().len(),
            final(self).arena().expression_list() == old(self).arena().expression_list().push(
                Expression::Identifier(Identifier { token, name }),
            ),
            final(self).arena().statement_list() == old(self).arena().statement_list(),
            *final(final(self).target()) == *final(old(self).target()),
    {
        let expr = Expression::Identifier(Identifier { token, name });
        self.arena.add_expression(expr)
    }

    pub fn integer_literal(&mut self, token: Token, value: i64) -> (id: NodeId)
        requires
            old(self).arena().wf(),
            old(self).arena().expression_list().len() < usize::MAX,
        ensures
            final(self).arena().wf(),
            id == old(self).arena().expression_list().len(),
            final(self).arena().expression_list() == old(self).arena().expression_list().push(
                Expression::IntegerLiteral(IntegerLiteral { token, value }),
            ),
            final(self).arena().statement_list() == old(self).arena().statement_list(),
            *final(final(self).target()) == *final(old(self).target()),
    {
        let expr = Expression::IntegerLiteral(IntegerLiteral { token, value });
        self.arena.add_expression(expr)
    }

    pub fn boolean_literal(&mut self, token: Token, value: bool) -> (id: NodeId)
        requires
            old(self).arena().wf(),
            old(self).arena().expression_list().len() < usize::MAX,
        ensures
            final(self).arena().wf(),
            id == old(self).arena().expression_list().len(),
            final(self).arena().expression_list() == old(self).arena().expression_list().push(
                Expression::BooleanLiteral(BooleanLiteral { token, value }),
            ),
            final(self).arena().statement_list() == old(self).arena().statement_list(),
            *final(final(self).target()) == *final(old(self).target()),
    {
        let expr = Expression::BooleanLiteral(BooleanLiteral { token, value });
        self.arena.add_expression(expr)
    }

    pub fn string_literal(&mut self, token: Token, value: String) -> (id: NodeId)
        requires
            old(self).arena().wf(),
            old(self).arena().expression_list().len() < usize::MAX,
        ensures
            final(self).arena().wf(),
            id == old(self).arena().expression_list().len(),
            final(self).arena().expression_list() == old(self).arena().expression_list().push(
                Expression::StringLiteral(StringLiteral { token, value }),
            ),
            final(self).arena().statement_list() == old(self).arena().statement_list(),
            *final(final(self).target()) == *final(old(self).target()),
    {
        let expr = Expression::StringLiteral(StringLiteral { token, value });
        self.arena.add_expression(expr)
    }

    pub fn infix_expression(&mut self, token: Token, left: NodeId, operator: String, right: NodeId) -> (id: NodeId)
        requires
            old(self).arena().wf(),
            old(self).arena().expression_list().len() < usize::MAX,
        ensures
            final(self).arena().wf(),
            id == old(self).arena().expression_list().len(),
            final(self).arena().expression_list() == old(self).arena().expression_list().push(
                Expression::InfixExpression(InfixExpression { token, left, operator, right }),
            ),
            final(self).arena().statement_list() == old(self).arena().statement_list(),
            *final(final(self).target()) == *final(old(self).target()),
    {
        let expr = Expression::InfixExpression(InfixExpression { token, left, operator, right });
        self.arena.add_expression(expr)
    }

    pub fn prefix_expression(&mut self, token: Token, operator: String, right: NodeId) -> (id: NodeId)
        requires
            old(self).arena().wf(),
            old(self).arena().expression_list().len() < usize::MAX,
        ensures
            final(self).arena().wf(),
            id == old(self).arena().expression_list().len(),
            final(self).arena().expression_list() == old(self).arena().expression_list().push(
                Expression::PrefixExpression(PrefixExpression { token, operator, right }),
            ),
            final(self).arena().statement_list() == old(self).arena().statement_list(),
            *final(final(self).target()) == *final(old(self).target()),
    {
        let expr = Expression::PrefixExpression(PrefixExpression { token, operator, right });
        self.arena.add_expression(expr)
    }

    pub fn let_statement(&mut self, token: Token, name: Identifier, value: NodeId) -> (id: NodeId)
        requires
            old(self).arena().wf(),
            old(self).arena().statement_list().len() < usize::MAX,
        ensures
            final(self).arena().wf(),
            id == old(self).arena().statement_list().len(),
            final(self).arena().statement_list() == old(self).arena().statement_list().push(
                Statement::Let(LetStatement { token, name, value }),
            ),
            final(self).arena().expression_list() == old(self).arena().expression_list(),
            *final(final(self).target()) == *final(old(self).target()),
    {
        let stmt = Statement::Let(LetStatement { token, name, value });
        self.arena.add_statement(stmt)
    }

    pub fn return_statement(&mut self, token: Token, value: NodeId) -> (id: NodeId)
        requires
            old(self).arena().wf(),
            old(self).arena().statement_list().len() < usize::MAX,
        ensures
            final(self).arena().wf(),
            id == old(self).arena().statement_list().len(),
            final(self).arena().statement_list() == old(self).arena().statement_list().push(
                Statement::Return(ReturnStatement { token, value }),
            ),
            final(self).arena().expression_list() == old(self).arena().expression_list(),
            *final(final(self).target()) == *final(old(self).target()),
    {
        let stmt = Statement::Return(ReturnStatement { token, value });
        self.arena.add_statement(stmt)
    }

    pub fn expression_statement(&mut self, token: Token, expression: NodeId) -> (id: NodeId)
        requires
            old(self).arena().wf(),
            old(self).arena().statement_list().len() < usize::MAX,
        ensures
            final(self).arena().wf(),
            id == old(self).arena().statement_list().len(),
            final(self).arena().statement_list() == old(self).arena().statement_list().push(
                Statement::Expression(ExpressionStatement { token, expression }),
            ),
            final(self).arena().expression_list() == old(self).arena().expression_list(),
            *final(final(self).target()) == *final(old(self).target()),
    {
        let stmt = Statement::Expression(ExpressionStatement { token, expression });
        self.arena.add_statement(stmt)
    }

    pub fn block_statement(&mut self, token: Token, statements: Vec<NodeId>) -> (id: NodeId)
        requires
            old(self).arena().wf(),
            old(self).arena().statement_list().len() < usize::MAX,
        ensures
            final(self).arena().wf(),
            id == old(self).arena().statement_list().len(),
            final(self).arena().statement_list() == old(self).arena().statement_list().push(
                Statement::Block(BlockStatement { token, statements }),
            ),
            final(self).arena().expression_list() == old(self).arena().expression_list(),
            *final(final(self).target()) == *final(old(self).target()),
    {
        let stmt = Statement::Block(BlockStatement { token, statements });
        self.arena.add_statement(stmt)
    }
}

/// Visits the nodes of a tree, computing a `T` from each.  Each visit is
/// described by a relation between the visitor before it, the node, the
/// result, and the visitor after it; a visitor that does not describe its
/// visits allows every result.
pub trait Visitor<T>: Sized {
    /// Whether visiting `program` from this state may give `result` and leave
    /// the visitor as `after`.
    closed spec fn program_visit(&self, program: Program, arena: Arena, result: T, after: Self) -> bool {
        true
    }

    /// Whether visiting `statement` from this state may give `result` and
    /// leave the visitor as `after`.
    closed spec fn statement_visit(&self, statement: Statement, arena: Arena, result: T, after: Self) -> bool {
        true
    }

    /// Whether visiting `expression` from this state may give `result` and
    /// leave the visitor as `after`.
    closed spec fn expression_visit(
        &self,
        expression: Expression,
        arena: Arena,
        result: T,
        after: Self,
    ) -> bool {
        true
    }

    fn visit_program(&mut self, program: &Program, arena: &Arena) -> (r: T)
        ensures
            old(self).program_visit(*program, *arena, r, *final(self)),
    ;

    fn visit_statement(&mut self, statement: &Statement, arena: &Arena) -> (r: T)
        ensures
            old(self).statement_visit(*statement, *arena, r, *final(self)),
    ;

    fn visit_expression(&mut self, expression: &Expression, arena: &Arena) -> (r: T)
        ensures
            old(self).expression_visit(*expression, *arena, r, *final(self)),
    ;
}

/// Hands the nodes of a tree to a visitor.
pub struct AstWalker;

impl AstWalker {
    /// What the visitor makes of the program.
    pub fn walk_program<T, V: Visitor<T>>(program: &Program, arena: &Arena, visitor: &mut V) -> (r: T)
        ensures
            old(visitor).program_visit(*program, *arena, r, *final(visitor)),
    {
        visitor.visit_program(program, arena)
    }

    /// What the visitor makes of the statement at `statement_id`; `None`
    /// when there is no statement there (and the visitor is not called).
    pub fn walk_statement<T, V: Visitor<T>>(
        statement_id: NodeId,
        arena: &Arena,
        visitor: &mut V,
    ) -> (r: Option<T>)
        ensures
            r is Some <==> statement_id < arena.statement_list().len(),
            r is None ==> *final(visitor) == *old(visitor),
            r matches Some(x) ==> old(visitor).statement_visit(
                arena.statement_list()[statement_id as int],
                *arena,
                x,
                *final(visitor),
            ),
    {
        match arena.get_statement(statement_id) {
            Some(stmt) => Some(visitor.visit_statement(stmt, arena)),
            None => None,
        }
    }

    /// What the visitor makes of the expression at `expression_id`; `None`
    /// when there is no expression there (and the visitor is not called).
    pub fn walk_expression<T, V: Visitor<T>>(
        expression_id: NodeId,
        arena: &Arena,
        visitor: &mut V,
    ) -> (r: Option<T>)
        ensures
            r is Some <==> expression_id < arena.expression_list().len(),
            r is None ==> *final(visitor) == *old(visitor),
            r matches Some(x) ==> old(visitor).expression_visit(
                arena.expression_list()[expression_id as int],
                *arena,
                x,
                *final(visitor),
            ),
    {
        match arena.get_expression(expression_id) {
            Some(expr) => Some(visitor.visit_expression(expr, arena)),
            None => None,
        }
    }
}

/// A node that knows the literal of the token it was read from.
pub trait Node {
    fn token_literal(&self, arena: &Arena) -> String;
}

#[derive(Debug, Clone)]
pub enum Statement {
    Let(LetStatement),
    Return(ReturnStatement),
    Expression(ExpressionStatement),
    Block(BlockStatement),
}

/// The token whose literal the node reports.
pub open spec fn statement_token(n: Statement) -> Token {
    match n {
        Statement::Let(x) => x.token,
        Statement::Return(x) => x.token,
        Statement::Expression(x) => x.token,
        Statement::Block(x) => x.token,
    }
}

impl Node for Statement {
    fn token_literal(&self, arena: &Arena) -> (r: String)
        ensures
            r@ == token_text(statement_token(*self)@),
    {
        match self {
            Statement::Let(x) => x.token_literal(arena),
            Statement::Return(x) => x.token_literal(arena),
            Statement::Expression(x) => x.token_literal(arena),
            Statement::Block(x) => x.token_literal(arena),
        }
    }
}

#[derive(Debug)]
pub enum Expression {
    Identifier(Identifier),
    IntegerLiteral(IntegerLiteral),
    BooleanLiteral(BooleanLiteral),
    StringLiteral(StringLiteral),
    InfixExpression(InfixExpression),
    PrefixExpression(PrefixExpression),
    IfExpression(IfExpression),
    FunctionLiteral(FunctionLiteral),
    CallExpression(CallExpression),
    ArrayLiteral(ArrayLiteral),
    IndexExpression(IndexExpression),
    HashLiteral(HashLiteral),
}

/// The token whose literal the node reports.
pub open spec fn expression_token(n: Expression) -> Token {
    match n {
        Expression::Identifier(x) => x.token,
        Expression::IntegerLiteral(x) => x.token,
        Expression::BooleanLiteral(x) => x.token,
        Expression::StringLiteral(x) => x.token,
        Expression::InfixExpression(x) => x.token,
        Expression::PrefixExpression(x) => x.token,
        Expression::IfExpression(x) => x.token,
        Expression::FunctionLiteral(x) => x.token,
        Expression::CallExpression(x) => x.token,
        Expression::ArrayLiteral(x) => x.token,
        Expression::IndexExpression(x) => x.token,
        Expression::HashLiteral(x) => x.token,
    }
}

impl Node for Expression {
    fn token_literal(&self, arena: &Arena) -> (r: String)
        ensures
            r@ == token_text(expression_token(*self)@),
    {
        match self {
            Expression::Identifier(x) => x.token_literal(arena),
            Expression::IntegerLiteral(x) => x.token_literal(arena),
            Expression::BooleanLiteral(x) => x.token_literal(arena),
            Expression::StringLiteral(x) => x.token_literal(arena),
            Expression::InfixExpression(x) => x.token_literal(arena),
            Expression::PrefixExpression(x) => x.token_literal(arena),
            Expression::IfExpression(x) => x.token_literal(arena),
            Expression::FunctionLiteral(x) => x.token_literal(arena),
            Expression::CallExpression(x) => x.token_literal(arena),
            Expression::ArrayLiteral(x) => x.token_literal(arena),
            Expression::IndexExpression(x) => x.token_literal(arena),
            Expression::HashLiteral(x) => x.token_literal(arena),
        }
    }
}

/// A program: the indices of its statements in the arena.
#[derive(Debug, Clone)]
pub struct Program {
    pub statements: Vec<NodeId>,
}

impl Program {
    pub fn new() -> (p: Self)
        ensures
            p.statements@.len() == 0,
    {
        Program { statements: Vec::new() }
    }

    pub fn add_statement(&mut self, statement_id: NodeId)
        ensures
            final(self).statements@ == old(self).statements@.push(statement_id),
    {
        self.statements.push(statement_id);
    }
}

impl Node for Program {
    fn token_literal(&self, arena: &Arena) -> (r: String)
        ensures
            r@ == if self.statements@.len() > 0 && self.statements@[0] < arena.statement_list().len() {
                token_text(statement_token(arena.statement_list()[self.statements@[0] as int])@)
            } else {
                Seq::empty()
            },
    {
        if !self.statements.is_empty() {
            if let Some(stmt) = arena.get_statement(self.statements[0]) {
                return stmt.token_literal(arena);
            }
        }
        String::new()
    }
}

#[derive(Debug, Clone)]
pub struct LetStatement {
    pub token: Token,
    pub name: Identifier,
    pub value: NodeId,
}

impl Node for LetStatement {
    fn token_literal(&self, _arena: &Arena) -> (r: String)
        ensures
            r@ == token_text(self.token@),
    {
        self.token.to_string()
    }
}

#[derive(Debug, Clone)]
pub struct ReturnStatement {
    pub token: Token,
    pub value: NodeId,
}

impl Node for ReturnStatement {
    fn token_literal(&self, _arena: &Arena) -> (r: String)
        ensures
            r@ == token_text(self.token@),
    {
        self.token.to_string()
    }
}

#[derive(Debug, Clone)]
pub struct ExpressionStatement {
    pub token: Token,
    pub expression: NodeId,
}

impl Node for ExpressionStatement {
    fn token_literal(&self, _arena: &Arena) -> (r: String)
        ensures
            r@ == token_text(self.token@),
    {
        self.token.to_string()
    }
}

#[derive(Debug, Clone)]
pub struct BlockStatement {
    pub token: Token,
    pub statements: Vec<NodeId>,
}

impl Node for BlockStatement {
    fn token_literal(&self, _arena: &Arena) -> (r: String)
        ensures
            r@ == token_text(self.token@),
    {
        self.token.to_string()
    }
}

#[derive(Debug, Clone)]
pub struct Identifier {
    pub token: Token,
    pub name: String,
}

impl Node for Identifier {
    fn token_literal(&self, _arena: &Arena) -> (r: String)
        ensures
            r@ == token_text(self.token@),
    {
        self.token.to_string()
    }
}

#[derive(Debug, Clone)]
pub struct IntegerLiteral {
    pub token: Token,
    pub value: i64,
}

impl Node for IntegerLiteral {
    fn token_literal(&self, _arena: &Arena) -> (r: String)
        ensures
            r@ == token_text(self.token@),
    {
        self.token.to_string()
    }
}

#[derive(Debug, Clone)]
pub struct BooleanLiteral {
    pub token: Token,
    pub value: bool,
}

impl Node for BooleanLiteral {
    fn token_literal(&self, _arena: &Arena) -> (r: String)
        ensures
            r@ == token_text(self.token@),
    {
        self.token.to_string()
    }
}

#[derive(Debug, Clone)]
pub struct StringLiteral {
    pub token: Token,
    pub value: String,
}

impl Node for StringLiteral {
    fn token_literal(&self, _arena: &Arena) -> (r: String)
        ensures
            r@ == token_text(self.token@),
    {
        self.token.to_string()
    }
}

#[derive(Debug, Clone)]
pub struct InfixExpression {
    pub token: Token,
    pub left: NodeId,
    pub operator: String,
    pub right: NodeId,
}

impl Node for InfixExpression {
    fn token_literal(&self, _arena: &Arena) -> (r: String)
        ensures
            r@ == token_text(self.token@),
    {
        self.token.to_string()
    }
}

#[derive(Debug, Clone)]
pub struct PrefixExpression {
    pub token: Token,
    pub operator: String,
    pub right: NodeId,
}

impl Node for PrefixExpression {
    fn token_literal(&self, _arena: &Arena) -> (r: String)
        ensures
            r@ == token_text(self.token@),
    {
        self.token.to_string()
    }
}

#[derive(Debug, Clone)]
pub struct IfExpression {
    pub token: Token,
    pub condition: NodeId,
    pub consequence: NodeId,
    pub alternative: Option<NodeId>,
}

impl Node for IfExpression {
    fn token_literal(&self, _arena: &Arena) -> (r: String)
        ensures
            r@ == token_text(self.token@),
    {
        self.token.to_string()
    }
}

#[derive(Debug, Clone)]
pub struct FunctionLiteral {
    pub token: Token,
    pub parameters: Vec<Identifier>,
    pub body: NodeId,
}

impl Node for FunctionLiteral {
    fn token_literal(&self, _arena: &Arena) -> (r: String)
        ensures
            r@ == token_text(self.token@),
    {
        self.token.to_string()
    }
}

#[derive(Debug, Clone)]
pub struct CallExpression {
    pub token: Token,
    pub function: NodeId,
    pub arguments: Vec<NodeId>,
}

impl Node for CallExpression {
    fn token_literal(&self, _arena: &Arena) -> (r: String)
        ensures
            r@ == token_text(self.token@),
    {
        self.token.to_string()
    }
}

#[derive(Debug, Clone)]
pub struct ArrayLiteral {
    pub token: Token,
    pub elements: Vec<NodeId>,
}

impl Node for ArrayLiteral {
    fn token_literal(&self, _arena: &Arena) -> (r: String)
        ensures
            r@ == token_text(self.token@),
    {
        self.token.to_string()
    }
}

#[derive(Debug, Clone)]
pub struct IndexExpression {
    pub token: Token,
    pub left: NodeId,
    pub index: NodeId,
}

impl Node for IndexExpression {
    fn token_literal(&self, _arena: &Arena) -> (r: String)
        ensures
            r@ == token_text(self.token@),
    {
        self.token.to_string()
    }
}

#[derive(Debug)]
pub struct HashLiteral {
    pub token: Token,
    pub pairs: HashMap<NodeId, NodeId>,
}

impl Node for HashLiteral {
    fn token_literal(&self, _arena: &Arena) -> (r: String)
        ensures
            r@ == token_text(self.token@),
    {
        self.token.to_string()
    }
}

} // verus!
