//! Precedence-climbing parser from tokens to a syntax tree.
use vstd::prelude::*;
use vstd::string::*;
use crate::ast::{
    AstNode, Expr, Expression, ExpressionStatement, InfixExpression, LetStatement, Node,
    PrefixExpression, Program, Statement, Stmt, stmts_model,
};
use crate::lexer::{tokenize, Lexer};
use crate::token::{describe_tok, rank_spec, tok_precedence, Precedence, Tok, Token};

verus! {

/// The outcome of parsing a part of a token stream: what was built and the
/// tokens after it, or a diagnostic.
pub type Parsed<T> = Result<(T, Seq<Tok>), Seq<char>>;

/// The token at index `i` of a stream; the end of input past its end.
pub open spec fn tok_at(ts: Seq<Tok>, i: int) -> Tok {
    if 0 <= i < ts.len() {
        ts[i]
    } else {
        Tok::EOF
    }
}

/// The stream after its current token; an empty stream stays empty.
pub open spec fn advance(ts: Seq<Tok>) -> Seq<Tok> {
    if ts.len() > 0 {
        ts.drop_first()
    } else {
        ts
    }
}

pub open spec fn invalid_token_msg(t: Tok) -> Seq<char> {
    "invalid token "@ + describe_tok(t)
}

pub open spec fn expect_msg(want: Tok, got: Tok) -> Seq<char> {
    "expect token "@ + describe_tok(want) + " but "@ + describe_tok(got)
}

pub open spec fn invalid_ident_msg(t: Tok) -> Seq<char> {
    "invalid identifier "@ + describe_tok(t)
}

/// Consumes the token `want`, or fails naming it and the token found.
pub open spec fn expect_spec(ts: Seq<Tok>, want: Tok) -> Result<Seq<Tok>, Seq<char>> {
    if tok_at(ts, 0) == want {
        Ok(advance(ts))
    } else {
        Err(expect_msg(want, tok_at(ts, 0)))
    }
}

/// The tokens that continue an expression as a binary operator.
pub open spec fn is_infix_op(t: Tok) -> bool {
    t is Plus || t is Minus || t is Asterisk || t is Slash
}

/// An expression at binding strength `prec`: a prefix part, then as many
/// operators as bind more strongly than `prec`.
pub open spec fn parse_expr(ts: Seq<Tok>, prec: Precedence) -> Parsed<Expr>
    decreases ts.len(), 1nat,
{
    match parse_prefix(ts) {
        Err(m) => Err(m),
        Ok((left, rest)) => if rest.len() < ts.len() {
            parse_infix_loop(rest, prec, left)
        } else {
            Ok((left, rest))
        },
    }
}

/// What starts an expression: an integer, a unary minus, or a group.
pub open spec fn parse_prefix(ts: Seq<Tok>) -> Parsed<Expr>
    decreases ts.len(), 0nat,
{
    if ts.len() == 0 {
        Err(invalid_token_msg(Tok::EOF))
    } else {
        match ts[0] {
            Tok::Int(v) => Ok((Expr::Integer(v), ts.drop_first())),
            Tok::Minus => match parse_expr(ts.drop_first(), Precedence::Prefix) {
                Err(m) => Err(m),
                Ok((right, rest)) => Ok((Expr::Prefix(Tok::Minus, Box::new(right)), rest)),
            },
            Tok::Lparen => match parse_expr(ts.drop_first(), Precedence::Lowest) {
                Err(m) => Err(m),
                Ok((inner, rest)) => match expect_spec(rest, Tok::Rparen) {
                    Err(m) => Err(m),
                    Ok(after) => Ok((inner, after)),
                },
            },
            t => Err(invalid_token_msg(t)),
        }
    }
}

/// Folds operators onto `left` while the current token is not `;` and binds
/// strictly more strongly than `prec`; equal strength stops, which makes
/// chains of one strength associate to the left.
pub open spec fn parse_infix_loop(ts: Seq<Tok>, prec: Precedence, left: Expr) -> Parsed<Expr>
    decreases ts.len(), 2nat,
{
    let t = tok_at(ts, 0);
    if ts.len() > 0 && !(t is Semicolon) && rank_spec(prec) < rank_spec(tok_precedence(t)) {
        if is_infix_op(t) {
            match parse_infix_step(ts, left) {
                Err(m) => Err(m),
                Ok((e, rest)) => if rest.len() < ts.len() {
                    parse_infix_loop(rest, prec, e)
                } else {
                    Ok((e, rest))
                },
            }
        } else {
            Ok((left, ts))
        }
    } else {
        Ok((left, ts))
    }
}

/// One binary operator applied to `left`: the right operand is an
/// expression at the operator's own strength.
pub open spec fn parse_infix_step(ts: Seq<Tok>, left: Expr) -> Parsed<Expr>
    decreases ts.len(), 1nat,
{
    if ts.len() == 0 {
        Err(invalid_token_msg(Tok::EOF))
    } else {
        let t = ts[0];
        match parse_expr(ts.drop_first(), tok_precedence(t)) {
            Err(m) => Err(m),
            Ok((right, rest)) => Ok((Expr::Infix(t, Box::new(left), Box::new(right)), rest)),
        }
    }
}

/// Puts `pre` before the statements of a successful parse.
pub open spec fn prepend(pre: Seq<Stmt>, r: Result<Seq<Stmt>, Seq<char>>) -> Result<
    Seq<Stmt>,
    Seq<char>,
> {
    match r {
        Ok(sts) => Ok(pre + sts),
        Err(m) => Err(m),
    }
}

/// A statement: `let <ident> = <expr>;` or `<expr>;`.
pub open spec fn parse_statement_spec(ts: Seq<Tok>) -> Parsed<Stmt> {
    if tok_at(ts, 0) is Let {
        let ts1 = advance(ts);
        match tok_at(ts1, 0) {
            Tok::Ident(name) => match expect_spec(advance(ts1), Tok::Assign) {
                Err(m) => Err(m),
                Ok(ts2) => match parse_expr(ts2, Precedence::Lowest) {
                    Err(m) => Err(m),
                    Ok((value, ts3)) => match expect_spec(ts3, Tok::Semicolon) {
                        Err(m) => Err(m),
                        Ok(ts4) => Ok((Stmt::Let(name, value), ts4)),
                    },
                },
            },
            t => Err(invalid_ident_msg(t)),
        }
    } else {
        match parse_expr(ts, Precedence::Lowest) {
            Err(m) => Err(m),
            Ok((e, ts1)) => match expect_spec(ts1, Tok::Semicolon) {
                Err(m) => Err(m),
                Ok(ts2) => Ok((Stmt::Expression(e), ts2)),
            },
        }
    }
}

/// Statements until the end of input; after each statement one more token is
/// passed over. The first error ends the parse.
pub open spec fn parse_statements(ts: Seq<Tok>) -> Result<Seq<Stmt>, Seq<char>>
    decreases ts.len(),
{
    if ts.len() == 0 {
        Ok(Seq::empty())
    } else {
        match parse_statement_spec(ts) {
            Err(m) => Err(m),
            Ok((st, rest)) => {
                let next = advance(rest);
                if next.len() < ts.len() {
                    match parse_statements(next) {
                        Err(m) => Err(m),
                        Ok(sts) => Ok(seq![st] + sts),
                    }
                } else {
                    Err(Seq::empty())
                }
            },
        }
    }
}

/// The statements of a source text, or the diagnostic of its first error.
pub open spec fn parse_source(s: Seq<char>) -> Result<Seq<Stmt>, Seq<char>> {
    parse_statements(tokenize(s))
}

/// Relates an executable result to a parse outcome, given the stream left.
pub open spec fn matches_parsed<T: View>(
    spec_result: Parsed<T::V>,
    r: Result<T, String>,
    rest: Seq<Tok>,
) -> bool {
    match r {
        Ok(v) => spec_result == Ok::<(T::V, Seq<Tok>), Seq<char>>((v@, rest)),
        Err(m) => spec_result == Err::<(T::V, Seq<Tok>), Seq<char>>(m@),
    }
}

/// Which prefix rule starts an expression at a token.
#[derive(Debug, Clone, Copy, PartialEq, Eq)]
enum PrefixRule {
    IntegerLiteral,
    PrefixOperator,
    Group,
}

/// Which infix rule continues an expression at a token.
#[derive(Debug, Clone, Copy, PartialEq, Eq)]
enum InfixRule {
    InfixOperator,
}

pub struct Parser<'a> {
    l: Lexer<'a>,
    cur_token: Token,
    peek_token: Token,
}

/// Parses a whole source text into a program node.
pub fn parse(input: &str) -> (r: Result<Node, String>)
    ensures
        r is Ok <==> parse_source(input@) is Ok,
        r matches Ok(n) ==> n@ == AstNode::Program(parse_source(input@)->Ok_0),
        r matches Err(m) ==> parse_source(input@) == Err::<Seq<Stmt>, Seq<char>>(m@),
{
    let lexer = Lexer::new(input);
    let mut parser = Parser::new(lexer);
    match parser.parse_program() {
        Ok(prog) => Ok(Node::Program(Box::new(prog))),
        Err(m) => Err(m),
    }
}

impl<'a> Parser<'a> {
    /// The tokens from the current one on, without the end of input.
    pub closed spec fn stream(&self) -> Seq<Tok> {
        if self.cur_token@ is EOF {
            Seq::empty()
        } else if self.peek_token@ is EOF {
            seq![self.cur_token@]
        } else {
            seq![self.cur_token@, self.peek_token@] + self.l.remaining()
        }
    }

    pub closed spec fn wf(&self) -> bool {
        &&& self.l.wf()
        &&& self.cur_token@ is EOF ==> self.peek_token@ is EOF
        &&& self.peek_token@ is EOF ==> self.l.remaining() == Seq::<Tok>::empty()
    }

    proof fn lemma_cur(&self)
        requires
            self.wf(),
        ensures
            tok_at(self.stream(), 0) == self.cur_token@,
            self.cur_token@ is EOF <==> self.stream().len() == 0,
    {
    }

    pub fn new(l: Lexer<'a>) -> (r: Parser<'a>)
        requires
            l.wf(),
        ensures
            r.wf(),
            r.stream() == l.remaining(),
    {
        let mut l = l;
        let cur_token = l.next_token();
        let peek_token = l.next_token();
        Parser { l, cur_token, peek_token }
    }

    fn next_token(&mut self)
        requires
            old(self).wf(),
        ensures
            final(self).wf(),
            final(self).stream() == advance(old(self).stream()),
    {
        core::mem::swap(&mut self.cur_token, &mut self.peek_token);
        self.peek_token = self.l.next_token();
        proof {
            if self.cur_token@ is EOF {
                assert(final(self).stream() =~= advance(old(self).stream()));
            } else if self.peek_token@ is EOF {
                assert(final(self).stream() =~= advance(old(self).stream()));
            } else {
                assert(final(self).stream() =~= advance(old(self).stream()));
            }
        }
    }

    fn prefix_fn(&self) -> (r: Option<PrefixRule>)
        ensures
            r == Some(PrefixRule::IntegerLiteral) <==> self.cur_token@ is Int,
            r == Some(PrefixRule::PrefixOperator) <==> self.cur_token@ is Minus,
            r == Some(PrefixRule::Group) <==> self.cur_token@ is Lparen,
    {
        match self.cur_token {
            Token::Int(_) => Some(PrefixRule::IntegerLiteral),
            Token::Minus => Some(PrefixRule::PrefixOperator),
            Token::Lparen => Some(PrefixRule::Group),
            _ => None,
        }
    }

    fn infix_fn(&self) -> (r: Option<InfixRule>)
        ensures
            r is Some <==> is_infix_op(self.cur_token@),
    {
        match self.cur_token {
            Token::Minus | Token::Plus | Token::Asterisk | Token::Slash => Some(
                InfixRule::InfixOperator,
            ),
            _ => None,
        }
    }
    pub fn parse_program(&mut self) -> (r: Result<Program, String>)
        requires
            old(self).wf(),
        ensures
            final(self).wf(),
            r matches Ok(p) ==> parse_statements(old(self).stream()) == Ok::<
                Seq<Stmt>,
                Seq<char>,
            >(p@),
            r matches Err(m) ==> parse_statements(old(self).stream()) == Err::<
                Seq<Stmt>,
                Seq<char>,
            >(m@),
    {
        let mut p = Program::new();
        let ghost ts0 = self.stream();
        proof {
            assert(p@ + Seq::<Stmt>::empty() =~= Seq::<Stmt>::empty());
            match parse_statements(ts0) {
                Ok(sts) => assert(p@ + sts =~= sts),
                Err(_) => {},
            }
        }
        while !matches!(self.cur_token, Token::EOF)
            invariant
                self.wf(),
                ts0 == old(self).stream(),
                parse_statements(ts0) == prepend(p@, parse_statements(self.stream())),
            decreases self.stream().len(),
        {
            proof {
                self.lemma_cur();
            }
            let ghost ts = self.stream();
            let stmt = match self.parse_statement() {
                Ok(st) => st,
                Err(m) => {
                    return Err(m);
                },
            };
            let ghost old_p = p@;
            p.statements.push(stmt);
            proof {
                assert(p@ =~= old_p.push(stmt@));
            }
            self.next_token();
            proof {
                match parse_statements(self.stream()) {
                    Ok(sts) => {
                        assert(old_p + (seq![stmt@] + sts) =~= p@ + sts);
                    },
                    Err(_) => {},
                }
            }
        }
        proof {
            self.lemma_cur();
            assert(p@ + Seq::<Stmt>::empty() =~= p@);
        }
        Ok(p)
    }

    fn parse_statement(&mut self) -> (r: Result<Statement, String>)
        requires
            old(self).wf(),
        ensures
            final(self).wf(),
            matches_parsed(parse_statement_spec(old(self).stream()), r, final(self).stream()),
            r is Ok ==> final(self).stream().len() < old(self).stream().len(),
    {
        proof {
            self.lemma_cur();
        }
        match self.cur_token {
            Token::Let => self.parse_let_statement(),
            _ => self.parse_expression_statement(),
        }
    }

    fn parse_let_statement(&mut self) -> (r: Result<Statement, String>)
        requires
            old(self).wf(),
            old(self).cur_token@ is Let,
        ensures
            final(self).wf(),
            matches_parsed(parse_statement_spec(old(self).stream()), r, final(self).stream()),
            r is Ok ==> final(self).stream().len() < old(self).stream().len(),
    {
        proof {
            self.lemma_cur();
        }
        self.next_token();
        proof {
            self.lemma_cur();
        }
        let name = match self.expect_ident() {
            Ok(n) => n,
            Err(m) => {
                return Err(m);
            },
        };
        match self.expect_token(Token::Assign) {
            Ok(()) => {},
            Err(m) => {
                return Err(m);
            },
        }
        let value = match self.parse_expression(Precedence::Lowest) {
            Ok(v) => v,
            Err(m) => {
                return Err(m);
            },
        };
        match self.expect_token(Token::Semicolon) {
            Ok(()) => {},
            Err(m) => {
                return Err(m);
            },
        }
        Ok(Statement::Let(Box::new(LetStatement { name, value })))
    }

    fn parse_expression_statement(&mut self) -> (r: Result<Statement, String>)
        requires
            old(self).wf(),
            !(old(self).cur_token@ is Let),
        ensures
            final(self).wf(),
            matches_parsed(parse_statement_spec(old(self).stream()), r, final(self).stream()),
            r is Ok ==> final(self).stream().len() < old(self).stream().len(),
    {
        proof {
            self.lemma_cur();
        }
        let expr = match self.parse_expression(Precedence::Lowest) {
            Ok(e) => e,
            Err(m) => {
                return Err(m);
            },
        };
        match self.expect_token(Token::Semicolon) {
            Ok(()) => {},
            Err(m) => {
                return Err(m);
            },
        }
        Ok(Statement::Expression(Box::new(ExpressionStatement { expression: expr })))
    }

    fn parse_expression(&mut self, precedence: Precedence) -> (r: Result<Expression, String>)
        requires
            old(self).wf(),
        ensures
            final(self).wf(),
            matches_parsed(parse_expr(old(self).stream(), precedence), r, final(self).stream()),
            r is Ok ==> final(self).stream().len() < old(self).stream().len(),
        decreases old(self).stream().len(), 1nat,
    {
        proof {
            self.lemma_cur();
        }
        let ghost ts0 = self.stream();
        let mut left = match self.prefix_fn() {
            Some(PrefixRule::IntegerLiteral) => match self.parse_integer_literal() {
                Ok(e) => e,
                Err(m) => {
                    return Err(m);
                },
            },
            Some(PrefixRule::PrefixOperator) => match self.parse_prefix_expression() {
                Ok(e) => e,
                Err(m) => {
                    return Err(m);
                },
            },
            Some(PrefixRule::Group) => match self.parse_group_expression() {
                Ok(e) => e,
                Err(m) => {
                    return Err(m);
                },
            },
            None => {
                let mut m = String::from_str("invalid token ");
                let d = self.cur_token.describe();
                m.append(d.as_str());
                return Err(m);
            },
        };
        while !matches!(self.cur_token, Token::Semicolon) && precedence.rank()
            < Precedence::token_precedence(&self.cur_token).rank()
            invariant
                self.wf(),
                ts0 == old(self).stream(),
                self.stream().len() < ts0.len(),
                parse_expr(ts0, precedence) == parse_infix_loop(
                    self.stream(),
                    precedence,
                    left@,
                ),
            decreases self.stream().len(),
        {
            proof {
                self.lemma_cur();
            }
            match self.infix_fn() {
                Some(InfixRule::InfixOperator) => {
                    match self.parse_infix_expression(left) {
                        Ok(e) => {
                            left = e;
                        },
                        Err(m) => {
                            return Err(m);
                        },
                    }
                },
                None => {
                    return Ok(left);
                },
            }
        }
        proof {
            self.lemma_cur();
        }
        Ok(left)
    }

    fn parse_prefix_expression(&mut self) -> (r: Result<Expression, String>)
        requires
            old(self).wf(),
            old(self).cur_token@ is Minus,
        ensures
            final(self).wf(),
            matches_parsed(parse_prefix(old(self).stream()), r, final(self).stream()),
            r is Ok ==> final(self).stream().len() < old(self).stream().len(),
        decreases old(self).stream().len(), 0nat,
    {
        proof {
            self.lemma_cur();
        }
        let operator = self.cur_token.duplicate();
        self.next_token();
        let right = match self.parse_expression(Precedence::Prefix) {
            Ok(e) => e,
            Err(m) => {
                return Err(m);
            },
        };
        Ok(Expression::Prefix(Box::new(PrefixExpression { operator, right })))
    }

    fn parse_group_expression(&mut self) -> (r: Result<Expression, String>)
        requires
            old(self).wf(),
            old(self).cur_token@ is Lparen,
        ensures
            final(self).wf(),
            matches_parsed(parse_prefix(old(self).stream()), r, final(self).stream()),
            r is Ok ==> final(self).stream().len() < old(self).stream().len(),
        decreases old(self).stream().len(), 0nat,
    {
        proof {
            self.lemma_cur();
        }
        self.next_token();
        let inner = match self.parse_expression(Precedence::Lowest) {
            Ok(e) => e,
            Err(m) => {
                return Err(m);
            },
        };
        match self.expect_token(Token::Rparen) {
            Ok(()) => {},
            Err(m) => {
                return Err(m);
            },
        }
        Ok(inner)
    }

    fn parse_infix_expression(&mut self, left: Expression) -> (r: Result<Expression, String>)
        requires
            old(self).wf(),
            is_infix_op(old(self).cur_token@),
        ensures
            final(self).wf(),
            matches_parsed(parse_infix_step(old(self).stream(), left@), r, final(self).stream()),
            r is Ok ==> final(self).stream().len() < old(self).stream().len(),
        decreases old(self).stream().len(), 0nat,
    {
        proof {
            self.lemma_cur();
        }
        let operator = self.cur_token.duplicate();
        let precedence = Precedence::token_precedence(&operator);
        self.next_token();
        let right = match self.parse_expression(precedence) {
            Ok(e) => e,
            Err(m) => {
                return Err(m);
            },
        };
        Ok(Expression::Infix(Box::new(InfixExpression { operator, left, right })))
    }

    fn parse_integer_literal(&mut self) -> (r: Result<Expression, String>)
        requires
            old(self).wf(),
            old(self).cur_token@ is Int,
        ensures
            final(self).wf(),
            matches_parsed(parse_prefix(old(self).stream()), r, final(self).stream()),
            r is Ok ==> final(self).stream().len() < old(self).stream().len(),
    {
        proof {
            self.lemma_cur();
        }
        if let Token::Int(value) = self.cur_token {
            self.next_token();
            return Ok(Expression::Integer(value));
        }
        let mut m = String::from_str("invalid token ");
        let d = self.cur_token.describe();
        m.append(d.as_str());
        Err(m)
    }

    fn expect_token(&mut self, tok: Token) -> (r: Result<(), String>)
        requires
            old(self).wf(),
        ensures
            final(self).wf(),
            r is Ok ==> expect_spec(old(self).stream(), tok@) == Ok::<Seq<Tok>, Seq<char>>(
                final(self).stream(),
            ),
            r matches Err(m) ==> expect_spec(old(self).stream(), tok@) == Err::<
                Seq<Tok>,
                Seq<char>,
            >(m@),
            r is Ok ==> final(self).stream().len() <= old(self).stream().len(),
    {
        proof {
            self.lemma_cur();
        }
        if tok.same(&self.cur_token) {
            self.next_token();
            return Ok(());
        }
        let mut m = String::from_str("expect token ");
        let want = tok.describe();
        m.append(want.as_str());
        m.append(" but ");
        let got = self.cur_token.describe();
        m.append(got.as_str());
        proof {
            assert(m@ =~= expect_msg(tok@, self.cur_token@));
        }
        Err(m)
    }

    fn expect_ident(&mut self) -> (r: Result<String, String>)
        requires
            old(self).wf(),
        ensures
            final(self).wf(),
            r matches Ok(name) ==> old(self).cur_token@ == Tok::Ident(name@)
                && final(self).stream() == advance(old(self).stream()),
            r matches Err(m) ==> !(old(self).cur_token@ is Ident) && m@ == invalid_ident_msg(
                old(self).cur_token@,
            ),
    {
        proof {
            self.lemma_cur();
        }
        if let Token::Ident(name) = &self.cur_token {
            let n = name.clone();
            self.next_token();
            return Ok(n);
        }
        let mut m = String::from_str("invalid identifier ");
        let d = self.cur_token.describe();
        m.append(d.as_str());
        Err(m)
    }
}

} // verus!
