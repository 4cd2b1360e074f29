//! Printing syntax trees: the text `Display` gives for each node, and the
//! literal of the token each node was read from.
use vstd::prelude::*;
use vstd::string::*;
use crate::text::{int_to_string, push_string};
use crate::token::{token_text, Token};
use super::view::{
    arguments_text, block_lines, block_text, bool_text, expression_text, expressions_view,
    identifiers_view, names_text, program_text, statement_text, statements_view, ExpressionView,
    StatementView,
};
use super::{BooleanLiteral, FunctionLiteral, Identifier, IntegerLiteral, Node};
use super::{
    BlockStatement, CallExpression, Expression, ExpressionStatement, IfExpression,
    InfixExpression, LetStatement, PrefixExpression, Program, ReturnStatement, Statement,
};

verus! {

/// The values of a sequence of expressions, element by element.
pub proof fn lemma_expressions_view(s: Seq<Expression>)
    ensures
        expressions_view(s).len() == s.len(),
        forall|k: int| 0 <= k < s.len() ==> #[trigger] expressions_view(s)[k] == s[k]@,
    decreases s.len(),
{
    if s.len() > 0 {
        lemma_expressions_view(s.drop_last());
    }
}

/// The values of a sequence of statements, element by element.
pub proof fn lemma_statements_view(s: Seq<Statement>)
    ensures
        statements_view(s).len() == s.len(),
        forall|k: int| 0 <= k < s.len() ==> #[trigger] statements_view(s)[k] == s[k]@,
    decreases s.len(),
{
    if s.len() > 0 {
        lemma_statements_view(s.drop_last());
    }
}

/// Appending an expression appends its value.
pub proof fn lemma_expressions_view_push(s: Seq<Expression>, e: Expression)
    ensures
        expressions_view(s.push(e)) == expressions_view(s).push(e@),
{
    assert(s.push(e).drop_last() == s);
}

/// Appending a statement appends its value.
pub proof fn lemma_statements_view_push(s: Seq<Statement>, e: Statement)
    ensures
        statements_view(s.push(e)) == statements_view(s).push(e@),
{
    assert(s.push(e).drop_last() == s);
}

/// The literal of the token an expression was read from.
pub open spec fn expression_literal(e: ExpressionView) -> Seq<char> {
    match e {
        ExpressionView::Identifier(i) => token_text(i.token),
        ExpressionView::Integer(i) => token_text(i.token),
        ExpressionView::Boolean(b) => token_text(b.token),
        ExpressionView::Prefix { operator, .. } => token_text(operator),
        ExpressionView::Infix { operator, .. } => token_text(operator),
        ExpressionView::If { .. } => seq!['i', 'f'],
        ExpressionView::Call { .. } => seq!['('],
        ExpressionView::Function { token, .. } => token_text(token),
    }
}

/// The literal of the token a statement was read from.
pub open spec fn statement_literal(s: StatementView) -> Seq<char> {
    match s {
        StatementView::Let { token, .. } => token_text(token),
        StatementView::Return { token, .. } => token_text(token),
        StatementView::Expression { token, .. } => token_text(token),
    }
}

fn bool_to_string(b: bool) -> (r: String)
    ensures
        r@ == bool_text(b),
{
    if b {
        proof { reveal_strlit("true"); }
        String::from_str("true")
    } else {
        proof { reveal_strlit("false"); }
        String::from_str("false")
    }
}

impl Identifier {
    pub fn token_literal(&self) -> (r: String)
        ensures
            r@ == token_text(self.token@),
    {
        self.token.to_string()
    }

    /// The name (what `Display` writes).
    pub fn to_string(&self) -> (r: String)
        ensures
            r@ == self.name@,
    {
        self.name.clone()
    }
}

impl IntegerLiteral {
    pub fn token_literal(&self) -> (r: String)
        ensures
            r@ == token_text(self.token@),
    {
        self.token.to_string()
    }

    /// The decimal value (what `Display` writes).
    pub fn to_string(&self) -> (r: String)
        ensures
            r@ == crate::text::int_text(self.value as int),
    {
        int_to_string(self.value)
    }
}

impl BooleanLiteral {
    pub fn token_literal(&self) -> (r: String)
        ensures
            r@ == token_text(self.token@),
    {
        self.token.to_string()
    }

    /// `true` or `false` (what `Display` writes).
    pub fn to_string(&self) -> (r: String)
        ensures
            r@ == bool_text(self.value),
    {
        bool_to_string(self.value)
    }
}

impl FunctionLiteral {
    pub fn token_literal(&self) -> (r: String)
        ensures
            r@ == token_text(self.token@),
    {
        self.token.to_string()
    }
}

impl PrefixExpression {
    pub fn token_literal(&self) -> (r: String)
        ensures
            r@ == token_text(self.operator@),
    {
        self.operator.to_string()
    }
}

impl InfixExpression {
    pub fn token_literal(&self) -> (r: String)
        ensures
            r@ == token_text(self.operator@),
    {
        self.operator.to_string()
    }
}

impl IfExpression {
    pub fn token_literal(&self) -> (r: String)
        ensures
            r@ == seq!['i', 'f'],
    {
        Token::If.to_string()
    }
}

impl CallExpression {
    pub fn token_literal(&self) -> (r: String)
        ensures
            r@ == seq!['('],
    {
        Token::LeftParen.to_string()
    }
}

impl Expression {
    /// The literal of the token the expression was read from: the operator of
    /// a prefix or infix expression, `if` for a conditional, `(` for a call.
    pub fn token_literal(&self) -> (r: String)
        ensures
            r@ == expression_literal(self@),
    {
        match self {
            Expression::Identifier(expr) => expr.token_literal(),
            Expression::Integer(expr) => expr.token_literal(),
            Expression::Boolean(expr) => expr.token_literal(),
            Expression::Prefix(expr) => expr.token_literal(),
            Expression::Infix(expr) => expr.token_literal(),
            Expression::If(expr) => expr.token_literal(),
            Expression::Call(expr) => expr.token_literal(),
            Expression::Function(expr) => expr.token_literal(),
        }
    }

    /// The printed form of the expression (what `Display` writes).
    pub fn to_string(&self) -> (r: String)
        ensures
            r@ == expression_text(self@),
        decreases self,
    {
        match self {
            Expression::Identifier(expr) => expr.to_string(),
            Expression::Integer(expr) => expr.to_string(),
            Expression::Boolean(expr) => expr.to_string(),
            Expression::Prefix(expr) => expr.to_string(),
            Expression::Infix(expr) => expr.to_string(),
            Expression::If(expr) => expr.to_string(),
            Expression::Call(expr) => expr.to_string(),
            Expression::Function(expr) => expr.to_string(),
        }
    }
}

impl PrefixExpression {
    /// The printed form (what `Display` writes).
    pub fn to_string(&self) -> (r: String)
        ensures
            r@ == expression_text(ExpressionView::Prefix { operator: self.operator@, expression: Box::new(self.expression@) }),
        decreases self,
    {
        let mut s = String::from_str("(");
        push_string(&mut s, &self.operator.to_string());
        push_string(&mut s, &self.expression.to_string());
        s.append(")");
        proof {
            reveal_strlit("(");
            reveal_strlit(")");
        }
        s
        }
}

impl InfixExpression {
    /// The printed form (what `Display` writes).
    pub fn to_string(&self) -> (r: String)
        ensures
            r@ == expression_text(ExpressionView::Infix { left: Box::new(self.left@), operator: self.operator@, right: Box::new(self.right@) }),
        decreases self,
    {
        let mut s = String::from_str("(");
        push_string(&mut s, &self.left.to_string());
        s.append(" ");
        push_string(&mut s, &self.operator.to_string());
        s.append(" ");
        push_string(&mut s, &self.right.to_string());
        s.append(")");
        proof {
            reveal_strlit("(");
            reveal_strlit(" ");
            reveal_strlit(")");
        }
        s
        }
}

impl IfExpression {
    /// The printed form (what `Display` writes).
    pub fn to_string(&self) -> (r: String)
        ensures
            r@ == expression_text(Expression::If(*self)@),
        decreases self,
    {
        let mut s = String::from_str("if ");
        push_string(&mut s, &self.condition.to_string());
        s.append(" ");
        push_string(&mut s, &self.consequence.to_string());
        proof {
            reveal_strlit("if ");
            reveal_strlit(" ");
        }
        match &self.alternative {
            Some(alternative) => {
                s.append("\nelse ");
                proof { reveal_strlit("\nelse "); }
                push_string(&mut s, &alternative.to_string());
            },
            None => {},
        }
        s
        }
}

impl CallExpression {
    /// The printed form (what `Display` writes).
    pub fn to_string(&self) -> (r: String)
        ensures
            r@ == expression_text(Expression::Call(*self)@),
        decreases self,
    {
        let mut s = self.function.to_string();
        s.append("(");
        proof { reveal_strlit("("); }
        let ghost head = s@;
        let ghost vs = expressions_view(self.arguments@);
        proof { lemma_expressions_view(self.arguments@); }
        let n = self.arguments.len();
        for i in 0..n
            invariant
                n == self.arguments@.len(),
                vs == expressions_view(self.arguments@),
                vs.len() == n,
                forall|k: int| 0 <= k < n ==> #[trigger] vs[k] == self.arguments@[k]@,
                s@ == head + arguments_text(vs.subrange(0, i as int)),
        {
            proof {
                assert(vs.subrange(0, i + 1).drop_last() == vs.subrange(0, i as int));
                reveal_strlit(", ");
            }
            if i > 0 {
                s.append(", ");
            }
            proof {
                assert(decreases_to!(self => self.arguments));
                assert(decreases_to!(self.arguments => self.arguments@));
                assert(decreases_to!(self.arguments@ => self.arguments@[i as int]));
            }
            let arg = self.arguments[i].to_string();
            push_string(&mut s, &arg);
            proof {
                assert(s@ == head + arguments_text(vs.subrange(0, i + 1)));
            }
        }
        assert(vs.subrange(0, n as int) == vs);
        s.append(")");
        proof { reveal_strlit(")"); }
        s
        }
}

impl FunctionLiteral {
    /// The printed form (what `Display` writes).
    pub fn to_string(&self) -> (r: String)
        ensures
            r@ == expression_text(Expression::Function(*self)@),
        decreases self,
    {
        let mut s = String::from_str("fn ");
        push_string(&mut s, &self.name.name);
        s.append("(");
        proof {
            reveal_strlit("fn ");
            reveal_strlit("(");
        }
        let ghost head = s@;
        let ghost ps = identifiers_view(self.parameters@);
        let n = self.parameters.len();
        for i in 0..n
            invariant
                n == self.parameters@.len(),
                ps == identifiers_view(self.parameters@),
                s@ == head + names_text(ps.subrange(0, i as int)),
        {
            proof {
                assert(ps.subrange(0, i + 1).drop_last() == ps.subrange(0, i as int));
                reveal_strlit(", ");
            }
            if i > 0 {
                s.append(", ");
            }
            push_string(&mut s, &self.parameters[i].name);
            proof {
                assert(s@ == head + names_text(ps.subrange(0, i + 1)));
            }
        }
        assert(ps.subrange(0, n as int) == ps);
        s.append(") ");
        proof { reveal_strlit(") "); }
        push_string(&mut s, &self.body.to_string());
        s
        }
}

impl BlockStatement {
    /// The printed form of the block (what `Display` writes).
    pub fn to_string(&self) -> (r: String)
        ensures
            r@ == block_text(self@),
        decreases self,
    {
        let mut s = String::from_str("{\n");
        proof {
            reveal_strlit("{\n");
            lemma_statements_view(self.statements@);
        }
        let ghost vs = statements_view(self.statements@);
        let n = self.statements.len();
        for i in 0..n
            invariant
                n == self.statements@.len(),
                vs == statements_view(self.statements@),
                vs.len() == n,
                forall|k: int| 0 <= k < n ==> #[trigger] vs[k] == self.statements@[k]@,
                s@ == seq!['{', '\n'] + block_lines(vs.subrange(0, i as int)),
        {
            proof {
                assert(vs.subrange(0, i + 1).drop_last() == vs.subrange(0, i as int));
                reveal_strlit(";\n");
            }
            let line = self.statements[i].to_string();
            push_string(&mut s, &line);
            s.append(";\n");
            proof {
                assert(s@ == seq!['{', '\n'] + block_lines(vs.subrange(0, i + 1)));
            }
        }
        assert(vs.subrange(0, n as int) == vs);
        s.append("}");
        proof { reveal_strlit("}"); }
        s
    }
}

impl LetStatement {
    pub fn token_literal(&self) -> (r: String)
        ensures
            r@ == token_text(self.token@),
    {
        self.token.to_string()
    }
}

impl ReturnStatement {
    pub fn token_literal(&self) -> (r: String)
        ensures
            r@ == token_text(self.token@),
    {
        self.token.to_string()
    }
}

impl ExpressionStatement {
    pub fn token_literal(&self) -> (r: String)
        ensures
            r@ == token_text(self.token@),
    {
        self.token.to_string()
    }
}

impl Statement {
    /// The literal of the statement's token.
    pub fn token_literal(&self) -> (r: String)
        ensures
            r@ == statement_literal(self@),
    {
        match self {
            Statement::Let(stmt) => stmt.token_literal(),
            Statement::Return(stmt) => stmt.token_literal(),
            Statement::Expression(stmt) => stmt.token_literal(),
        }
    }

    /// The printed form of the statement (what `Display` writes).
    pub fn to_string(&self) -> (r: String)
        ensures
            r@ == statement_text(self@),
        decreases self,
    {
        match self {
            Statement::Let(stmt) => {
                let mut s = stmt.token.to_string();
                s.append(" ");
                push_string(&mut s, &stmt.identifier.name);
                s.append(" = ");
                push_string(&mut s, &stmt.value.to_string());
                s.append(";");
                proof {
                    reveal_strlit(" ");
                    reveal_strlit(" = ");
                    reveal_strlit(";");
                }
                s
            },
            Statement::Return(stmt) => {
                let mut s = stmt.token.to_string();
                s.append(" ");
                push_string(&mut s, &stmt.value.to_string());
                proof { reveal_strlit(" "); }
                s
            },
            Statement::Expression(stmt) => stmt.expression.to_string(),
        }
    }
}

impl Program {
    /// The printed form of the program: each statement on a line of its own
    /// (what `Display` writes).
    pub fn to_string(&self) -> (r: String)
        ensures
            r@ == program_text(statements_view(self.statements@)),
    {
        let mut s = String::new();
        proof { lemma_statements_view(self.statements@); }
        let ghost vs = statements_view(self.statements@);
        let n = self.statements.len();
        for i in 0..n
            invariant
                n == self.statements@.len(),
                vs == statements_view(self.statements@),
                vs.len() == n,
                forall|k: int| 0 <= k < n ==> #[trigger] vs[k] == self.statements@[k]@,
                s@ == program_text(vs.subrange(0, i as int)),
        {
            proof {
                assert(vs.subrange(0, i + 1).drop_last() == vs.subrange(0, i as int));
                reveal_strlit("\n");
            }
            push_string(&mut s, &self.statements[i].to_string());
            s.append("\n");
        }
        assert(vs.subrange(0, n as int) == vs);
        s
    }

    /// The literal of the first statement's token, or the empty text when
    /// there is no statement.
    pub fn token_literal(&self) -> (r: String)
        ensures
            r@ == if self.statements@.len() > 0 {
                statement_literal(self.statements@[0]@)
            } else {
                Seq::empty()
            },
    {
        if self.statements.len() > 0 {
            self.statements[0].token_literal()
        } else {
            String::new()
        }
    }
}

impl Node {
    /// The literal of the token the node was read from.
    pub fn token_literal(&self) -> (r: String)
        ensures
            r@ == match self {
                Node::Ident(i) => token_text(i.token@),
                Node::Func(f) => token_text(f.token@),
                Node::Int(i) => token_text(i.token@),
                Node::Bool(b) => token_text(b.token@),
                Node::Stmt(s) => statement_literal(s@),
                Node::Expr(e) => expression_literal(e@),
            },
    {
        match self {
            Node::Ident(i) => i.token_literal(),
            Node::Func(f) => f.token_literal(),
            Node::Int(i) => i.token_literal(),
            Node::Bool(b) => b.token_literal(),
            Node::Stmt(s) => s.token_literal(),
            Node::Expr(e) => e.token_literal(),
        }
    }
}

} // verus!
