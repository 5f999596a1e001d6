//! The parser: from tokens to the syntax tree.
//!
//! Each production of the grammar has a function here that reads the tokens
//! the production reads and builds the node that stands for its tree. The
//! parser stops at the first place where the tokens do not fit.

use crate::error::{Error, ErrorKind, Location};
use crate::grammar::{
    access, arguments, arguments_rest, assignable, assignment, atom, attempt, below, block,
    braces, braces_rest, break_statement, call, call_rest, chain, chain_rest, class_declaration,
    class_literal, continue_statement, endless_loop, form, return_statement, conditional, ending, expression, fields_rest, for_loop, function,
    has_operator, height, is_assignment, is_literal, is_prefix, literal, kind_at, lambda, left, member, members,
    members_rest, names, names_rest, pair, parse_level, power, prefix, program_rest, starts_statement, statement,
    text_at, unexpected, variable, while_loop, Expected, Failure, Level, Parsed, Tree,
};
use crate::nodes::{
    model_all, spell, AddExpr, AndExpr, ArgNames, Args, AssignExpr, Atom, BitAndExpr, BitOrExpr,
    BitXorExpr, Block, BlockExpr, BreakStmt, CallExpr, CallPart, ClassDecl, ClassExpr,
    ContinueStmt, EqExpr, ExpExpr, Expression, ForExpr, FunExpr, FunctionDecl, Identifier, IfExpr,
    LoopExpr, Member, MemberBlock, MemberExpr, MemberPart, MemberType, MulExpr, Node, OrExpr,
    RangeExpr, RelExpr, Rep, ReturnStmt, ShiftExpr, Statement, Statements, TryExpr, UnaryExpr,
    VarStmt, WhileExpr,
};
use crate::number::Number;
use crate::tokens::{lexemes, token_name, Lexeme, Token, TokenType};
use vstd::prelude::*;
use vstd::string::*;

verus! {

/// Where the token at `i` starts. Behind the last token that is where the
/// last token ends, and in an empty input it is the first position of a text
/// without a name.
pub open spec fn start_of<'f>(tokens: Seq<Token<'f>>, i: int) -> Location<'f> {
    if 0 <= i < tokens.len() {
        tokens[i].start
    } else if tokens.len() > 0 {
        tokens[tokens.len() - 1].end
    } else {
        Location { source: "", line: 1, column: 1, offset: 0 }
    }
}

/// Where the token at `i` ends; behind the last token as `start_of`.
pub open spec fn end_of<'f>(tokens: Seq<Token<'f>>, i: int) -> Location<'f> {
    if 0 <= i < tokens.len() {
        tokens[i].end
    } else {
        start_of(tokens, i)
    }
}

/// How what was expected is called in messages.
pub open spec fn expectation(expected: Expected) -> Seq<char> {
    match expected {
        Expected::Token(kind) => token_name(kind),
        Expected::Expression => "an expression"@,
        Expected::Member => "a member or '}'"@,
        Expected::Separator => "';' or '}'"@,
        Expected::Delimiter => "',' or ')'"@,
        Expected::Target => "something to assign to"@,
        Expected::Literal => "a number that can be held exactly"@,
    }
}

/// The message of a syntax error: what was expected and what was found.
pub open spec fn message(expected: Expected, found: TokenType) -> Seq<char> {
    "Expected "@ + expectation(expected) + ", found "@ + token_name(found)
}

/// The nodes stand for the trees, one for one.
pub open spec fn model_each<'f>(
    nodes: Seq<Expression<'f>>,
    trees: Seq<Tree>,
    tokens: Seq<Token<'_>>,
) -> bool {
    &&& nodes.len() == trees.len()
    &&& forall|i: int| 0 <= i < trees.len() ==> (#[trigger] nodes[i]).models(trees[i], tokens)
}

/// The node, where there is one, stands for the tree, where there is one.
pub open spec fn model_option<'f>(
    node: Option<Expression<'f>>,
    tree: Option<Box<Tree>>,
    tokens: Seq<Token<'_>>,
) -> bool {
    match (node, tree) {
        (Some(e), Some(t)) => e.models(*t, tokens),
        (None, None) => true,
        _ => false,
    }
}

/// `e` is the syntax error for `f`: over the tokens that `f` names, with the
/// message for what was expected and for the first of them.
#[verifier::opaque]
pub open spec fn reports<'f>(tokens: Seq<Token<'f>>, e: Error<'f>, f: Failure) -> bool {
    e.is(
        ErrorKind::SyntaxError,
        start_of(tokens, f.first),
        end_of(tokens, f.last),
        message(f.expected, kind_at(lexemes(tokens), f.first)),
    )
}

fn describe(expected: Expected) -> (r: &'static str)
    ensures
        r@ == expectation(expected),
{
    match expected {
        Expected::Token(kind) => kind.name(),
        Expected::Expression => "an expression",
        Expected::Member => "a member or '}'",
        Expected::Separator => "';' or '}'",
        Expected::Delimiter => "',' or ')'",
        Expected::Target => "something to assign to",
        Expected::Literal => "a number that can be held exactly",
    }
}

fn range_operator(kind: TokenType) -> (r: bool)
    ensures
        r == has_operator(Level::Range, kind),
{
    kind == TokenType::DotDot || kind == TokenType::DotDotEq
}

fn equality_operator(kind: TokenType) -> (r: bool)
    ensures
        r == has_operator(Level::Equality, kind),
{
    kind == TokenType::EqEq || kind == TokenType::NotEq
}

fn relational_operator(kind: TokenType) -> (r: bool)
    ensures
        r == has_operator(Level::Relational, kind),
{
    kind == TokenType::Less || kind == TokenType::LessEq || kind == TokenType::Greater || kind == TokenType::GreaterEq
}

fn shift_operator(kind: TokenType) -> (r: bool)
    ensures
        r == has_operator(Level::Shift, kind),
{
    kind == TokenType::Shl || kind == TokenType::Shr
}

fn additive_operator(kind: TokenType) -> (r: bool)
    ensures
        r == has_operator(Level::Additive, kind),
{
    kind == TokenType::Plus || kind == TokenType::Minus
}

fn multiplicative_operator(kind: TokenType) -> (r: bool)
    ensures
        r == has_operator(Level::Multiplicative, kind),
{
    kind == TokenType::Star || kind == TokenType::Slash || kind == TokenType::Percent
}

fn prefix_operator(kind: TokenType) -> (r: bool)
    ensures
        r == is_prefix(kind),
{
    kind == TokenType::Plus || kind == TokenType::Minus || kind == TokenType::Bang
}

fn literal_kind(kind: TokenType) -> (r: bool)
    ensures
        r == is_literal(kind),
{
    kind == TokenType::Number || kind == TokenType::String || kind == TokenType::True || kind == TokenType::False || kind == TokenType::Null || kind == TokenType::Identifier
}

fn assignment_operator(kind: TokenType) -> (r: bool)
    ensures
        r == is_assignment(kind),
{
    kind == TokenType::Assign || kind == TokenType::PlusAssign || kind == TokenType::MinusAssign || kind == TokenType::StarAssign || kind == TokenType::SlashAssign || kind == TokenType::PercentAssign
}

fn is_name(atom: &Atom<'_>) -> (r: bool)
    ensures
        r == (atom is Identifier),
{
    match atom {
        Atom::Identifier { .. } => true,
        _ => false,
    }
}

fn is_field(part: &CallPart<'_>) -> (r: bool)
    ensures
        r == (part is Member),
{
    match part {
        CallPart::Member(_) => true,
        _ => false,
    }
}

/// Whether `target` can be assigned to.
fn can_assign<'f>(
    target: &CallExpr<'f>,
    Ghost(tree): Ghost<Tree>,
    Ghost(tokens): Ghost<Seq<Token<'f>>>,
) -> (r: bool)
    requires
        target.models(tree, tokens),
    ensures
        r == assignable(tree),
{
    proof {
        reveal(CallExpr::models);
        reveal(MemberExpr::models);
        reveal(Atom::models);
        reveal(CallPart::models);
    }
    match &target.following {
        None => target.base.following.len() > 0 || is_name(&target.base.base),
        Some((_, parts)) => {
            let n: usize = parts.len();
            n > 0 && is_field(parts.get(n - 1))
        },
    }
}

/// A cursor over a sequence of tokens.
pub struct Parser<'f> {
    tokens: Vec<Token<'f>>,
    pos: usize,
}

impl<'f> Parser<'f> {
    /// The cursor stands within the tokens or right behind them.
    pub closed spec fn wf(&self) -> bool {
        self.pos <= self.tokens.len()
    }

    /// The tokens under the cursor.
    pub closed spec fn tokens(&self) -> Seq<Token<'f>> {
        self.tokens@
    }

    /// The index of the token at which the cursor stands.
    pub closed spec fn position(&self) -> int {
        self.pos as int
    }

    /// The tokens as the grammar reads them.
    pub open spec fn lexemes(&self) -> Seq<Lexeme> {
        lexemes(self.tokens())
    }

    /// The cursor has gone from where `before` stood over one phrase, and `r`
    /// is what `outcome` says of that phrase: a node for its tree, with the
    /// cursor behind its last token, or the error for its failure.
    pub open spec fn yields<T: Node>(
        &self,
        before: Parser<'f>,
        r: Result<T, Error<'f>>,
        outcome: Parsed<Tree>,
    ) -> bool {
        &&& self.wf()
        &&& self.tokens() == before.tokens()
        &&& match outcome {
            Ok((tree, more)) => r matches Ok(node) && node.stands_for(tree, before.tokens())
                && self.position() == before.position() + more + 1,
            Err(f) => r matches Err(e) && reports(before.tokens(), e, f),
        }
    }

    /// A cursor at the first of `tokens`.
    pub fn new(tokens: Vec<Token<'f>>) -> (r: Parser<'f>)
        ensures
            r.wf(),
            r.tokens() == tokens@,
            r.position() == 0,
    {
        Parser { tokens, pos: 0 }
    }

    fn kind(&self, i: usize) -> (r: TokenType)
        ensures
            r == kind_at(self.lexemes(), i as int),
    {
        if i < self.tokens.len() {
            self.tokens[i].token_type
        } else {
            TokenType::Eof
        }
    }

    fn text(&self, i: usize) -> (r: Identifier)
        requires
            i < self.tokens.len(),
            self.tokens@[i as int].token_type == TokenType::Identifier
                || self.tokens@[i as int].token_type == TokenType::String,
        ensures
            r@ == text_at(self.lexemes(), i as int),
    {
        self.tokens[i].lexeme.clone()
    }

    fn fail(&self, first: usize, last: usize, expected: Expected) -> (e: Error<'f>)
        ensures
            reports(self.tokens@, e, Failure { first: first as int, last: last as int, expected }),
    {
        proof {
            reveal(reports);
        }
        let n: usize = self.tokens.len();
        let behind = if n > 0 {
            self.tokens[n - 1].end
        } else {
            Location { source: "", line: 1, column: 1, offset: 0 }
        };
        let start = if first < n {
            self.tokens[first].start
        } else {
            behind
        };
        let end = if last < n {
            self.tokens[last].end
        } else {
            behind
        };
        let mut text = String::from_str("Expected ");
        text.append(describe(expected));
        text.append(", found ");
        text.append(self.kind(first).name());
        Error::new(ErrorKind::SyntaxError, start, end, text)
    }

    /// Steps over the token at the cursor where it is of the given kind.
    fn expect(&mut self, kind: TokenType) -> (r: Result<(), Error<'f>>)
        requires
            old(self).wf(),
            kind != TokenType::Eof,
        ensures
            final(self).wf(),
            final(self).tokens@ == old(self).tokens@,
            kind_at(old(self).lexemes(), old(self).position()) == kind ==> r is Ok
                && final(self).pos == old(self).pos + 1,
            kind_at(old(self).lexemes(), old(self).position()) != kind ==> (r matches Err(e)
                && reports(
                old(self).tokens@,
                e,
                unexpected(old(self).position(), Expected::Token(kind)),
            )),
    {
        if self.kind(self.pos) == kind {
            self.pos += 1;
            Ok(())
        } else {
            Err(self.fail(self.pos, self.pos, Expected::Token(kind)))
        }
    }

    fn at_statement(&self) -> (r: bool)
        requires
            self.wf(),
        ensures
            r == starts_statement(self.lexemes(), self.position()),
    {
        let kind = self.kind(self.pos);
        kind == TokenType::Var || kind == TokenType::Break || kind == TokenType::Continue || kind
            == TokenType::Return || ((kind == TokenType::Fun || kind == TokenType::Class)
            && self.kind(self.pos + 1) == TokenType::Identifier)
    }

    /// Parses the tokens from the cursor on as a program: statements up to
    /// the end of the input.
    #[verifier::spinoff_prover]
    pub fn parse(&mut self) -> (r: Result<Statements<'f>, Error<'f>>)
        requires
            old(self).wf(),
        ensures
            final(self).wf(),
            final(self).tokens() == old(self).tokens(),
            match program_rest(old(self).lexemes(), old(self).position(), Seq::empty()) {
                Ok(trees) => r matches Ok(statements) && model_all(
                    statements@,
                    trees,
                    old(self).tokens(),
                ),
                Err(f) => r matches Err(e) && reports(old(self).tokens(), e, f),
            },
    {
        proof {
            reveal(crate::grammar::program_rest);
        }
        let ghost ts = self.lexemes();
        let mut statements: Vec<Statement<'f>> = Vec::new();
        let ghost mut done: Seq<Tree> = Seq::empty();
        while self.kind(self.pos) != TokenType::Eof
            invariant
                self.wf(),
                self.tokens@ == old(self).tokens@,
                ts == self.lexemes(),
                model_all(statements@, done, self.tokens@),
                program_rest(ts, self.pos as int, done) == program_rest(
                    ts,
                    old(self).pos as int,
                    Seq::empty(),
                ),
            decreases self.tokens.len() - self.pos,
        {
            proof {
                reveal(crate::grammar::program_rest);
            }
            let ghost at = self.pos as int;
            let s = self.statement()?;
            proof {
                done = done.push(statement(ts, at)->Ok_0.0);
            }
            statements.push(s);
        }
        Ok(Rep::collect(statements))
    }

    /// Parses one expression from the cursor on. The node spans the tokens
    /// that were read, from the first to the last, and no others.
    #[verifier::spinoff_prover]
    pub fn parse_expression(&mut self) -> (r: Result<Expression<'f>, Error<'f>>)
        requires
            old(self).wf(),
        ensures
            final(self).yields(*old(self), r, expression(old(self).lexemes(), old(self).position())),
            r matches Ok(e) ==> {
                &&& old(self).position() < final(self).position() <= old(self).tokens().len()
                &&& e.start == old(self).tokens()[old(self).position()].start
                &&& e.end == old(self).tokens()[final(self).position() - 1].end
            },
    {
        proof {
            reveal(crate::grammar::pair);
            reveal(RangeExpr::models);
        }
        self.expression()
    }

    /// A statement.
    #[verifier::spinoff_prover]
    fn statement(&mut self) -> (r: Result<Statement<'f>, Error<'f>>)
        requires
            old(self).wf(),
        ensures
            final(self).yields(*old(self), r, statement(old(self).lexemes(), old(self).position())),
            statement(old(self).lexemes(), old(self).position()) matches Ok((tree, _)) ==> !(tree is Braces),
        decreases left(old(self).lexemes(), old(self).position()), 80nat,
    {
        proof {
            reveal(crate::grammar::statement);
            reveal(Statement::models);
        }
        let first: usize = self.pos;
        let kind = self.kind(first);
        if kind == TokenType::Var {
            Ok(Statement::Var(self.variable()?))
        } else if kind == TokenType::Fun && self.kind(first + 1) == TokenType::Identifier {
            Ok(Statement::Function(self.function()?))
        } else if kind == TokenType::Class && self.kind(first + 1) == TokenType::Identifier {
            Ok(Statement::Class(self.class_decl()?))
        } else if kind == TokenType::Break {
            Ok(Statement::Break(self.break_stmt()?))
        } else if kind == TokenType::Return {
            Ok(Statement::Return(self.return_stmt()?))
        } else if kind == TokenType::Continue {
            Ok(Statement::Continue(self.continue_stmt()?))
        } else {
            let e = self.expression()?;
            self.expect(TokenType::Semicolon)?;
            Ok(Statement::Expr(e))
        }
    }

    /// `class name body`
    #[verifier::spinoff_prover]
    fn class_decl(&mut self) -> (r: Result<ClassDecl<'f>, Error<'f>>)
        requires
            old(self).wf(),
        ensures
            final(self).yields(*old(self), r, class_declaration(old(self).lexemes(), old(self).position())),
            class_declaration(old(self).lexemes(), old(self).position()) matches Ok((tree, _)) ==> tree is Class,
        decreases left(old(self).lexemes(), old(self).position()), 75nat,
    {
        proof {
            reveal(crate::grammar::class_declaration);
            reveal(ClassDecl::models);
        }
        let first: usize = self.pos;
        self.expect(TokenType::Class)?;
        if self.kind(self.pos) != TokenType::Identifier {
            return Err(self.fail(self.pos, self.pos, Expected::Token(TokenType::Identifier)));
        }
        let ident = self.text(self.pos);
        self.pos += 1;
        let block = self.members()?;
        Ok(
            ClassDecl {
                start: self.tokens[first].start,
                end: self.tokens[self.pos - 1].end,
                ident,
                block,
            },
        )
    }

    /// `break;` or `break value;`
    #[verifier::spinoff_prover]
    fn break_stmt(&mut self) -> (r: Result<BreakStmt<'f>, Error<'f>>)
        requires
            old(self).wf(),
        ensures
            final(self).yields(*old(self), r, break_statement(old(self).lexemes(), old(self).position())),
            break_statement(old(self).lexemes(), old(self).position()) matches Ok((tree, _)) ==> tree is Break,
        decreases left(old(self).lexemes(), old(self).position()), 75nat,
    {
        proof {
            reveal(crate::grammar::break_statement);
            reveal(BreakStmt::models);
        }
        let first: usize = self.pos;
        self.expect(TokenType::Break)?;
        let expr = self.ending()?;
        Ok(BreakStmt { start: self.tokens[first].start, end: self.tokens[self.pos - 1].end, expr })
    }

    /// `return;` or `return value;`
    #[verifier::spinoff_prover]
    fn return_stmt(&mut self) -> (r: Result<ReturnStmt<'f>, Error<'f>>)
        requires
            old(self).wf(),
        ensures
            final(self).yields(*old(self), r, return_statement(old(self).lexemes(), old(self).position())),
            return_statement(old(self).lexemes(), old(self).position()) matches Ok((tree, _)) ==> tree is Return,
        decreases left(old(self).lexemes(), old(self).position()), 75nat,
    {
        proof {
            reveal(crate::grammar::return_statement);
            reveal(ReturnStmt::models);
        }
        let first: usize = self.pos;
        self.expect(TokenType::Return)?;
        let expr = self.ending()?;
        Ok(ReturnStmt { start: self.tokens[first].start, end: self.tokens[self.pos - 1].end, expr })
    }

    /// `continue;`
    #[verifier::spinoff_prover]
    fn continue_stmt(&mut self) -> (r: Result<ContinueStmt<'f>, Error<'f>>)
        requires
            old(self).wf(),
        ensures
            final(self).yields(*old(self), r, continue_statement(old(self).lexemes(), old(self).position())),
            continue_statement(old(self).lexemes(), old(self).position()) matches Ok((tree, _)) ==> tree is Continue,
        decreases left(old(self).lexemes(), old(self).position()), 75nat,
    {
        proof {
            reveal(crate::grammar::continue_statement);
            reveal(ContinueStmt::models);
        }
        let first: usize = self.pos;
        self.expect(TokenType::Continue)?;
        self.expect(TokenType::Semicolon)?;
        Ok(ContinueStmt { start: self.tokens[first].start, end: self.tokens[self.pos - 1].end })
    }

    /// What ends a `break` or a `return`.
    #[verifier::spinoff_prover]
    fn ending(&mut self) -> (r: Result<Option<Expression<'f>>, Error<'f>>)
        requires
            old(self).wf(),
        ensures
            final(self).wf(),
            final(self).tokens@ == old(self).tokens@,
            match ending(old(self).lexemes(), old(self).position()) {
                Ok((tree, more)) => r matches Ok(node) && model_option(node, tree, old(self).tokens@)
                    && final(self).pos == old(self).pos + more + 1,
                Err(f) => r matches Err(e) && reports(old(self).tokens@, e, f),
            },
        decreases left(old(self).lexemes(), old(self).position()), 72nat,
    {
        proof {
            reveal(crate::grammar::ending);
        }
        if self.kind(self.pos) == TokenType::Semicolon {
            self.pos += 1;
            Ok(None)
        } else {
            let e = self.expression()?;
            self.expect(TokenType::Semicolon)?;
            Ok(Some(e))
        }
    }

    /// `var name = value;`
    #[verifier::spinoff_prover]
    fn variable(&mut self) -> (r: Result<VarStmt<'f>, Error<'f>>)
        requires
            old(self).wf(),
            kind_at(old(self).lexemes(), old(self).position()) == TokenType::Var,
        ensures
            final(self).yields(*old(self), r, variable(old(self).lexemes(), old(self).position())),
            variable(old(self).lexemes(), old(self).position()) matches Ok((tree, _)) ==> tree is Var,
        decreases left(old(self).lexemes(), old(self).position()), 75nat,
    {
        proof {
            reveal(crate::grammar::variable);
            reveal(VarStmt::models);
        }
        let first: usize = self.pos;
        self.pos += 1;
        if self.kind(self.pos) != TokenType::Identifier {
            return Err(self.fail(self.pos, self.pos, Expected::Token(TokenType::Identifier)));
        }
        let ident = self.text(self.pos);
        self.pos += 1;
        self.expect(TokenType::Assign)?;
        let expr = self.expression()?;
        self.expect(TokenType::Semicolon)?;
        Ok(
            VarStmt {
                start: self.tokens[first].start,
                end: self.tokens[self.pos - 1].end,
                ident,
                expr,
            },
        )
    }

    /// `fun name(params) body`
    #[verifier::spinoff_prover]
    fn function(&mut self) -> (r: Result<FunctionDecl<'f>, Error<'f>>)
        requires
            old(self).wf(),
            kind_at(old(self).lexemes(), old(self).position()) == TokenType::Fun,
        ensures
            final(self).yields(*old(self), r, function(old(self).lexemes(), old(self).position())),
            function(old(self).lexemes(), old(self).position()) matches Ok((tree, _)) ==> tree is Function,
        decreases left(old(self).lexemes(), old(self).position()), 75nat,
    {
        proof {
            reveal(crate::grammar::function);
            reveal(FunctionDecl::models);
        }
        let first: usize = self.pos;
        self.pos += 1;
        if self.kind(self.pos) != TokenType::Identifier {
            return Err(self.fail(self.pos, self.pos, Expected::Token(TokenType::Identifier)));
        }
        let ident = self.text(self.pos);
        self.pos += 1;
        let args = self.names()?;
        let block = self.block()?;
        Ok(
            FunctionDecl {
                start: self.tokens[first].start,
                end: self.tokens[self.pos - 1].end,
                ident,
                args,
                block,
            },
        )
    }

    /// `(name, name)`
    #[verifier::spinoff_prover]
    fn names(&mut self) -> (r: Result<ArgNames, Error<'f>>)
        requires
            old(self).wf(),
        ensures
            final(self).wf(),
            final(self).tokens@ == old(self).tokens@,
            match names(old(self).lexemes(), old(self).position()) {
                Ok((texts, more)) => r matches Ok(found) && spell(found@, texts) && final(self).pos
                    == old(self).pos + more + 1,
                Err(f) => r matches Err(e) && reports(old(self).tokens@, e, f),
            },
    {
        proof {
            reveal(crate::grammar::names);
            reveal(crate::grammar::names_rest);
        }
        let first: usize = self.pos;
        let ghost ts = self.lexemes();
        self.expect(TokenType::LParen)?;
        let mut found: Vec<Identifier> = Vec::new();
        let ghost mut done: Seq<Seq<char>> = Seq::empty();
        if self.kind(self.pos) == TokenType::RParen {
            self.pos += 1;
            return Ok(Rep::collect(found));
        }
        loop
            invariant
                self.wf(),
                self.tokens@ == old(self).tokens@,
                ts == self.lexemes(),
                first == old(self).pos,
                first < self.pos,
                spell(found@, done),
                names_rest(ts, first as int, (self.pos - first) as nat, done) == names(
                    ts,
                    first as int,
                ),
            decreases self.tokens.len() - self.pos,
        {
            proof {
                reveal(crate::grammar::names);
                reveal(crate::grammar::names_rest);
            }
            if self.kind(self.pos) != TokenType::Identifier {
                return Err(self.fail(self.pos, self.pos, Expected::Token(TokenType::Identifier)));
            }
            found.push(self.text(self.pos));
            proof {
                done = done.push(text_at(ts, self.pos as int));
            }
            self.pos += 1;
            let behind = self.kind(self.pos);
            if behind == TokenType::Comma {
                self.pos += 1;
            } else if behind == TokenType::RParen {
                self.pos += 1;
                return Ok(Rep::collect(found));
            } else {
                return Err(self.fail(self.pos, self.pos, Expected::Delimiter));
            }
        }
    }

    /// `{ members }`
    #[verifier::spinoff_prover]
    fn members(&mut self) -> (r: Result<MemberBlock<'f>, Error<'f>>)
        requires
            old(self).wf(),
        ensures
            final(self).yields(*old(self), r, members(old(self).lexemes(), old(self).position())),
        decreases left(old(self).lexemes(), old(self).position()), 5nat,
    {
        proof {
            reveal(crate::grammar::members);
            reveal(crate::grammar::members_rest);
            reveal(MemberBlock::models);
        }
        let first: usize = self.pos;
        let ghost ts = self.lexemes();
        self.expect(TokenType::LBrace)?;
        let mut found: Vec<Member<'f>> = Vec::new();
        let ghost mut done: Seq<Tree> = Seq::empty();
        loop
            invariant
                self.wf(),
                self.tokens@ == old(self).tokens@,
                ts == self.lexemes(),
                first == old(self).pos,
                first < self.pos,
                found@.len() == done.len(),
                forall|i: int| 0 <= i < done.len() ==> (#[trigger] found@[i]).models(done[i], self.tokens@),
                members_rest(ts, first as int, (self.pos - first) as nat, done) == members(
                    ts,
                    first as int,
                ),
            decreases self.tokens.len() - self.pos,
        {
            proof {
                reveal(crate::grammar::members);
                reveal(crate::grammar::members_rest);
                reveal(MemberBlock::models);
            }
            let kind = self.kind(self.pos);
            if kind == TokenType::RBrace {
                self.pos += 1;
                return Ok(
                    MemberBlock {
                        start: self.tokens[first].start,
                        end: self.tokens[self.pos - 1].end,
                        members: Rep::collect(found),
                    },
                );
            } else if kind == TokenType::Static || kind == TokenType::Var || kind
                == TokenType::Fun {
                let ghost at = self.pos as int;
                let item = self.member()?;
                proof {
                    done = done.push(member(ts, at)->Ok_0.0);
                }
                found.push(item);
            } else {
                return Err(self.fail(self.pos, self.pos, Expected::Member));
            }
        }
    }

    /// A member of a class.
    #[verifier::spinoff_prover]
    fn member(&mut self) -> (r: Result<Member<'f>, Error<'f>>)
        requires
            old(self).wf(),
        ensures
            final(self).yields(*old(self), r, member(old(self).lexemes(), old(self).position())),
        decreases left(old(self).lexemes(), old(self).position()), 78nat,
    {
        proof {
            reveal(crate::grammar::member);
            reveal(Member::models);
        }
        let first: usize = self.pos;
        let is_static = self.kind(first) == TokenType::Static;
        if is_static {
            self.pos += 1;
        }
        let kind = self.kind(self.pos);
        let member_type = if kind == TokenType::Var {
            MemberType::Attribute(self.variable()?)
        } else if kind == TokenType::Fun {
            MemberType::Method(self.function()?)
        } else {
            return Err(self.fail(self.pos, self.pos, Expected::Member));
        };
        Ok(
            Member {
                start: self.tokens[first].start,
                end: self.tokens[self.pos - 1].end,
                is_static,
                member_type,
            },
        )
    }

    /// A block in braces, or one statement.
    #[verifier::spinoff_prover]
    fn block(&mut self) -> (r: Result<Block<'f>, Error<'f>>)
        requires
            old(self).wf(),
        ensures
            final(self).yields(*old(self), r, block(old(self).lexemes(), old(self).position())),
        decreases left(old(self).lexemes(), old(self).position()), 90nat,
    {
        proof {
            reveal(crate::grammar::block);
            reveal(Block::models);
        }
        if self.kind(self.pos) == TokenType::LBrace {
            Ok(Block::Multiple(self.braces()?))
        } else {
            Ok(Block::Single(Box::new(self.statement()?)))
        }
    }

    /// `{ statements value }`
    #[verifier::spinoff_prover]
    #[verifier::rlimit(60)]
    fn braces(&mut self) -> (r: Result<BlockExpr<'f>, Error<'f>>)
        requires
            old(self).wf(),
        ensures
            final(self).yields(*old(self), r, braces(old(self).lexemes(), old(self).position())),
            braces(old(self).lexemes(), old(self).position()) matches Ok((tree, _)) ==> tree is Braces,
        decreases left(old(self).lexemes(), old(self).position()), 5nat,
    {
        proof {
            reveal(crate::grammar::braces);
            reveal(crate::grammar::braces_rest);
            reveal(BlockExpr::models);
            reveal(Statement::models);
        }
        let first: usize = self.pos;
        let ghost ts = self.lexemes();
        self.expect(TokenType::LBrace)?;
        let mut stmts: Vec<Statement<'f>> = Vec::new();
        let ghost mut done: Seq<Tree> = Seq::empty();
        loop
            invariant
                self.wf(),
                self.tokens@ == old(self).tokens@,
                ts == self.lexemes(),
                first == old(self).pos,
                first < self.pos,
                model_all(stmts@, done, self.tokens@),
                braces_rest(ts, first as int, (self.pos - first) as nat, done) == braces(
                    ts,
                    first as int,
                ),
            decreases self.tokens.len() - self.pos,
        {
            proof {
                reveal(crate::grammar::braces);
                reveal(crate::grammar::braces_rest);
                reveal(BlockExpr::models);
                reveal(Statement::models);
            }
            let kind = self.kind(self.pos);
            let ghost at = self.pos as int;
            if kind == TokenType::RBrace {
                self.pos += 1;
                return Ok(
                    BlockExpr {
                        start: self.tokens[first].start,
                        end: self.tokens[self.pos - 1].end,
                        stmts: Rep::collect(stmts),
                        expr: None,
                    },
                );
            } else if kind == TokenType::Eof {
                return Err(self.fail(self.pos, self.pos, Expected::Token(TokenType::RBrace)));
            } else if self.at_statement() {
                let s = self.statement()?;
                proof {
                    done = done.push(statement(ts, at)->Ok_0.0);
                }
                stmts.push(s);
            } else {
                let e = self.expression()?;
                let behind = self.kind(self.pos);
                if behind == TokenType::Semicolon {
                    self.pos += 1;
                    proof {
                        done = done.push(Tree::Expr { expr: Box::new(expression(ts, at)->Ok_0.0) });
                    }
                    stmts.push(Statement::Expr(e));
                } else if behind == TokenType::RBrace {
                    self.pos += 1;
                    return Ok(
                        BlockExpr {
                            start: self.tokens[first].start,
                            end: self.tokens[self.pos - 1].end,
                            stmts: Rep::collect(stmts),
                            expr: Some(e),
                        },
                    );
                } else {
                    return Err(self.fail(self.pos, self.pos, Expected::Separator));
                }
            }
        }
    }

    /// An expression.
    #[verifier::spinoff_prover]
    fn expression(&mut self) -> (r: Result<RangeExpr<'f>, Error<'f>>)
        requires
            old(self).wf(),
        ensures
            final(self).yields(*old(self), r, expression(old(self).lexemes(), old(self).position())),
        decreases left(old(self).lexemes(), old(self).position()), 70nat,
    {
        proof {
            reveal(crate::grammar::pair);
            reveal(RangeExpr::models);
        }
        let first: usize = self.pos;
        let left = self.or_expr()?;
        let operator = self.kind(self.pos);
        let range = if range_operator(operator) {
            self.pos += 1;
            Some((operator, Box::new(self.or_expr()?)))
        } else {
            None
        };
        Ok(
            RangeExpr {
                start: self.tokens[first].start,
                end: self.tokens[self.pos - 1].end,
                base: Box::new(left),
                range,
            },
        )
    }

    #[verifier::spinoff_prover]
    fn or_expr(&mut self) -> (r: Result<OrExpr<'f>, Error<'f>>)
        requires
            old(self).wf(),
        ensures
            final(self).yields(*old(self), r, parse_level(old(self).lexemes(), Level::Or, old(self).position())),
        decreases left(old(self).lexemes(), old(self).position()), 3 * height(Level::Or) + 11,
    {
        proof {
            reveal(crate::grammar::chain);
            reveal(crate::grammar::chain_rest);
            reveal(OrExpr::models);
        }
        let first: usize = self.pos;
        let ghost ts = self.lexemes();
        let base = self.and_expr()?;
        let ghost found = parse_level(ts, below(Level::Or), first as int)->Ok_0;
        let mut following: Vec<AndExpr<'f>> = Vec::new();
        let ghost mut done: Seq<(TokenType, Tree)> = Seq::empty();
        while self.kind(self.pos) == TokenType::OrOr
            invariant
                self.wf(),
                self.tokens@ == old(self).tokens@,
                ts == self.lexemes(),
                first == old(self).pos,
                first < self.pos,
                base.models(found.0, self.tokens@),
                following@.len() == done.len(),
                forall|i: int| 0 <= i < done.len() ==> (#[trigger] following@[i]).models(done[i].1, self.tokens@),
                chain_rest(ts, Level::Or, first as int, (self.pos - first - 1) as nat, found.0, done)
                    == parse_level(ts, Level::Or, first as int),
            decreases self.tokens.len() - self.pos,
        {
            proof {
                reveal(crate::grammar::chain);
                reveal(crate::grammar::chain_rest);
                reveal(OrExpr::models);
            }
            let operator = self.kind(self.pos);
            self.pos += 1;
            let ghost at = self.pos as int;
            let operand = self.and_expr()?;
            proof {
                done = done.push((operator, parse_level(ts, below(Level::Or), at)->Ok_0.0));
            }
            following.push(operand);
        }
        Ok(
            OrExpr {
                start: self.tokens[first].start,
                end: self.tokens[self.pos - 1].end,
                base,
                following: Rep::collect(following),
            },
        )
    }

    #[verifier::spinoff_prover]
    fn and_expr(&mut self) -> (r: Result<AndExpr<'f>, Error<'f>>)
        requires
            old(self).wf(),
        ensures
            final(self).yields(*old(self), r, parse_level(old(self).lexemes(), Level::And, old(self).position())),
        decreases left(old(self).lexemes(), old(self).position()), 3 * height(Level::And) + 11,
    {
        proof {
            reveal(crate::grammar::chain);
            reveal(crate::grammar::chain_rest);
            reveal(AndExpr::models);
        }
        let first: usize = self.pos;
        let ghost ts = self.lexemes();
        let base = self.bit_or_expr()?;
        let ghost found = parse_level(ts, below(Level::And), first as int)->Ok_0;
        let mut following: Vec<BitOrExpr<'f>> = Vec::new();
        let ghost mut done: Seq<(TokenType, Tree)> = Seq::empty();
        while self.kind(self.pos) == TokenType::AndAnd
            invariant
                self.wf(),
                self.tokens@ == old(self).tokens@,
                ts == self.lexemes(),
                first == old(self).pos,
                first < self.pos,
                base.models(found.0, self.tokens@),
                following@.len() == done.len(),
                forall|i: int| 0 <= i < done.len() ==> (#[trigger] following@[i]).models(done[i].1, self.tokens@),
                chain_rest(ts, Level::And, first as int, (self.pos - first - 1) as nat, found.0, done)
                    == parse_level(ts, Level::And, first as int),
            decreases self.tokens.len() - self.pos,
        {
            proof {
                reveal(crate::grammar::chain);
                reveal(crate::grammar::chain_rest);
                reveal(AndExpr::models);
            }
            let operator = self.kind(self.pos);
            self.pos += 1;
            let ghost at = self.pos as int;
            let operand = self.bit_or_expr()?;
            proof {
                done = done.push((operator, parse_level(ts, below(Level::And), at)->Ok_0.0));
            }
            following.push(operand);
        }
        Ok(
            AndExpr {
                start: self.tokens[first].start,
                end: self.tokens[self.pos - 1].end,
                base,
                following: Rep::collect(following),
            },
        )
    }

    #[verifier::spinoff_prover]
    fn bit_or_expr(&mut self) -> (r: Result<BitOrExpr<'f>, Error<'f>>)
        requires
            old(self).wf(),
        ensures
            final(self).yields(*old(self), r, parse_level(old(self).lexemes(), Level::BitOr, old(self).position())),
        decreases left(old(self).lexemes(), old(self).position()), 3 * height(Level::BitOr) + 11,
    {
        proof {
            reveal(crate::grammar::chain);
            reveal(crate::grammar::chain_rest);
            reveal(BitOrExpr::models);
        }
        let first: usize = self.pos;
        let ghost ts = self.lexemes();
        let base = self.bit_xor_expr()?;
        let ghost found = parse_level(ts, below(Level::BitOr), first as int)->Ok_0;
        let mut following: Vec<BitXorExpr<'f>> = Vec::new();
        let ghost mut done: Seq<(TokenType, Tree)> = Seq::empty();
        while self.kind(self.pos) == TokenType::Pipe
            invariant
                self.wf(),
                self.tokens@ == old(self).tokens@,
                ts == self.lexemes(),
                first == old(self).pos,
                first < self.pos,
                base.models(found.0, self.tokens@),
                following@.len() == done.len(),
                forall|i: int| 0 <= i < done.len() ==> (#[trigger] following@[i]).models(done[i].1, self.tokens@),
                chain_rest(ts, Level::BitOr, first as int, (self.pos - first - 1) as nat, found.0, done)
                    == parse_level(ts, Level::BitOr, first as int),
            decreases self.tokens.len() - self.pos,
        {
            proof {
                reveal(crate::grammar::chain);
                reveal(crate::grammar::chain_rest);
                reveal(BitOrExpr::models);
            }
            let operator = self.kind(self.pos);
            self.pos += 1;
            let ghost at = self.pos as int;
            let operand = self.bit_xor_expr()?;
            proof {
                done = done.push((operator, parse_level(ts, below(Level::BitOr), at)->Ok_0.0));
            }
            following.push(operand);
        }
        Ok(
            BitOrExpr {
                start: self.tokens[first].start,
                end: self.tokens[self.pos - 1].end,
                base,
                following: Rep::collect(following),
            },
        )
    }

    #[verifier::spinoff_prover]
    fn bit_xor_expr(&mut self) -> (r: Result<BitXorExpr<'f>, Error<'f>>)
        requires
            old(self).wf(),
        ensures
            final(self).yields(*old(self), r, parse_level(old(self).lexemes(), Level::BitXor, old(self).position())),
        decreases left(old(self).lexemes(), old(self).position()), 3 * height(Level::BitXor) + 11,
    {
        proof {
            reveal(crate::grammar::chain);
            reveal(crate::grammar::chain_rest);
            reveal(BitXorExpr::models);
        }
        let first: usize = self.pos;
        let ghost ts = self.lexemes();
        let base = self.bit_and_expr()?;
        let ghost found = parse_level(ts, below(Level::BitXor), first as int)->Ok_0;
        let mut following: Vec<BitAndExpr<'f>> = Vec::new();
        let ghost mut done: Seq<(TokenType, Tree)> = Seq::empty();
        while self.kind(self.pos) == TokenType::Caret
            invariant
                self.wf(),
                self.tokens@ == old(self).tokens@,
                ts == self.lexemes(),
                first == old(self).pos,
                first < self.pos,
                base.models(found.0, self.tokens@),
                following@.len() == done.len(),
                forall|i: int| 0 <= i < done.len() ==> (#[trigger] following@[i]).models(done[i].1, self.tokens@),
                chain_rest(ts, Level::BitXor, first as int, (self.pos - first - 1) as nat, found.0, done)
                    == parse_level(ts, Level::BitXor, first as int),
            decreases self.tokens.len() - self.pos,
        {
            proof {
                reveal(crate::grammar::chain);
                reveal(crate::grammar::chain_rest);
                reveal(BitXorExpr::models);
            }
            let operator = self.kind(self.pos);
            self.pos += 1;
            let ghost at = self.pos as int;
            let operand = self.bit_and_expr()?;
            proof {
                done = done.push((operator, parse_level(ts, below(Level::BitXor), at)->Ok_0.0));
            }
            following.push(operand);
        }
        Ok(
            BitXorExpr {
                start: self.tokens[first].start,
                end: self.tokens[self.pos - 1].end,
                base,
                following: Rep::collect(following),
            },
        )
    }

    #[verifier::spinoff_prover]
    fn bit_and_expr(&mut self) -> (r: Result<BitAndExpr<'f>, Error<'f>>)
        requires
            old(self).wf(),
        ensures
            final(self).yields(*old(self), r, parse_level(old(self).lexemes(), Level::BitAnd, old(self).position())),
        decreases left(old(self).lexemes(), old(self).position()), 3 * height(Level::BitAnd) + 11,
    {
        proof {
            reveal(crate::grammar::chain);
            reveal(crate::grammar::chain_rest);
            reveal(BitAndExpr::models);
        }
        let first: usize = self.pos;
        let ghost ts = self.lexemes();
        let base = self.eq_expr()?;
        let ghost found = parse_level(ts, below(Level::BitAnd), first as int)->Ok_0;
        let mut following: Vec<EqExpr<'f>> = Vec::new();
        let ghost mut done: Seq<(TokenType, Tree)> = Seq::empty();
        while self.kind(self.pos) == TokenType::Ampersand
            invariant
                self.wf(),
                self.tokens@ == old(self).tokens@,
                ts == self.lexemes(),
                first == old(self).pos,
                first < self.pos,
                base.models(found.0, self.tokens@),
                following@.len() == done.len(),
                forall|i: int| 0 <= i < done.len() ==> (#[trigger] following@[i]).models(done[i].1, self.tokens@),
                chain_rest(ts, Level::BitAnd, first as int, (self.pos - first - 1) as nat, found.0, done)
                    == parse_level(ts, Level::BitAnd, first as int),
            decreases self.tokens.len() - self.pos,
        {
            proof {
                reveal(crate::grammar::chain);
                reveal(crate::grammar::chain_rest);
                reveal(BitAndExpr::models);
            }
            let operator = self.kind(self.pos);
            self.pos += 1;
            let ghost at = self.pos as int;
            let operand = self.eq_expr()?;
            proof {
                done = done.push((operator, parse_level(ts, below(Level::BitAnd), at)->Ok_0.0));
            }
            following.push(operand);
        }
        Ok(
            BitAndExpr {
                start: self.tokens[first].start,
                end: self.tokens[self.pos - 1].end,
                base,
                following: Rep::collect(following),
            },
        )
    }

    #[verifier::spinoff_prover]
    fn eq_expr(&mut self) -> (r: Result<EqExpr<'f>, Error<'f>>)
        requires
            old(self).wf(),
        ensures
            final(self).yields(*old(self), r, parse_level(old(self).lexemes(), Level::Equality, old(self).position())),
        decreases left(old(self).lexemes(), old(self).position()), 3 * height(Level::Equality) + 11,
    {
        proof {
            reveal(crate::grammar::pair);
            reveal(EqExpr::models);
        }
        let first: usize = self.pos;
        let left = self.rel_expr()?;
        let operator = self.kind(self.pos);
        let right = if equality_operator(operator) {
            self.pos += 1;
            Some((operator, (self.rel_expr()?)))
        } else {
            None
        };
        Ok(
            EqExpr {
                start: self.tokens[first].start,
                end: self.tokens[self.pos - 1].end,
                left,
                right,
            },
        )
    }

    #[verifier::spinoff_prover]
    fn rel_expr(&mut self) -> (r: Result<RelExpr<'f>, Error<'f>>)
        requires
            old(self).wf(),
        ensures
            final(self).yields(*old(self), r, parse_level(old(self).lexemes(), Level::Relational, old(self).position())),
        decreases left(old(self).lexemes(), old(self).position()), 3 * height(Level::Relational) + 11,
    {
        proof {
            reveal(crate::grammar::pair);
            reveal(RelExpr::models);
        }
        let first: usize = self.pos;
        let left = self.shift_expr()?;
        let operator = self.kind(self.pos);
        let right = if relational_operator(operator) {
            self.pos += 1;
            Some((operator, (self.shift_expr()?)))
        } else {
            None
        };
        Ok(
            RelExpr {
                start: self.tokens[first].start,
                end: self.tokens[self.pos - 1].end,
                left,
                right,
            },
        )
    }

    #[verifier::spinoff_prover]
    fn shift_expr(&mut self) -> (r: Result<ShiftExpr<'f>, Error<'f>>)
        requires
            old(self).wf(),
        ensures
            final(self).yields(*old(self), r, parse_level(old(self).lexemes(), Level::Shift, old(self).position())),
        decreases left(old(self).lexemes(), old(self).position()), 3 * height(Level::Shift) + 11,
    {
        proof {
            reveal(crate::grammar::chain);
            reveal(crate::grammar::chain_rest);
            reveal(ShiftExpr::models);
        }
        let first: usize = self.pos;
        let ghost ts = self.lexemes();
        let base = self.add_expr()?;
        let ghost found = parse_level(ts, below(Level::Shift), first as int)->Ok_0;
        let mut following: Vec<(TokenType, AddExpr<'f>)> = Vec::new();
        let ghost mut done: Seq<(TokenType, Tree)> = Seq::empty();
        while shift_operator(self.kind(self.pos))
            invariant
                self.wf(),
                self.tokens@ == old(self).tokens@,
                ts == self.lexemes(),
                first == old(self).pos,
                first < self.pos,
                base.models(found.0, self.tokens@),
                following@.len() == done.len(),
                forall|i: int| 0 <= i < done.len() ==> (#[trigger] following@[i]).0 == done[i].0 && following@[i].1.models(
                        done[i].1,
                        self.tokens@,
                    ),
                chain_rest(ts, Level::Shift, first as int, (self.pos - first - 1) as nat, found.0, done)
                    == parse_level(ts, Level::Shift, first as int),
            decreases self.tokens.len() - self.pos,
        {
            proof {
                reveal(crate::grammar::chain);
                reveal(crate::grammar::chain_rest);
                reveal(ShiftExpr::models);
            }
            let operator = self.kind(self.pos);
            self.pos += 1;
            let ghost at = self.pos as int;
            let operand = self.add_expr()?;
            proof {
                done = done.push((operator, parse_level(ts, below(Level::Shift), at)->Ok_0.0));
            }
            following.push((operator, operand));
        }
        Ok(
            ShiftExpr {
                start: self.tokens[first].start,
                end: self.tokens[self.pos - 1].end,
                base,
                following: Rep::collect(following),
            },
        )
    }

    #[verifier::spinoff_prover]
    fn add_expr(&mut self) -> (r: Result<AddExpr<'f>, Error<'f>>)
        requires
            old(self).wf(),
        ensures
            final(self).yields(*old(self), r, parse_level(old(self).lexemes(), Level::Additive, old(self).position())),
        decreases left(old(self).lexemes(), old(self).position()), 3 * height(Level::Additive) + 11,
    {
        proof {
            reveal(crate::grammar::chain);
            reveal(crate::grammar::chain_rest);
            reveal(AddExpr::models);
        }
        let first: usize = self.pos;
        let ghost ts = self.lexemes();
        let base = self.mul_expr()?;
        let ghost found = parse_level(ts, below(Level::Additive), first as int)->Ok_0;
        let mut following: Vec<(TokenType, MulExpr<'f>)> = Vec::new();
        let ghost mut done: Seq<(TokenType, Tree)> = Seq::empty();
        while additive_operator(self.kind(self.pos))
            invariant
                self.wf(),
                self.tokens@ == old(self).tokens@,
                ts == self.lexemes(),
                first == old(self).pos,
                first < self.pos,
                base.models(found.0, self.tokens@),
                following@.len() == done.len(),
                forall|i: int| 0 <= i < done.len() ==> (#[trigger] following@[i]).0 == done[i].0 && following@[i].1.models(
                        done[i].1,
                        self.tokens@,
                    ),
                chain_rest(ts, Level::Additive, first as int, (self.pos - first - 1) as nat, found.0, done)
                    == parse_level(ts, Level::Additive, first as int),
            decreases self.tokens.len() - self.pos,
        {
            proof {
                reveal(crate::grammar::chain);
                reveal(crate::grammar::chain_rest);
                reveal(AddExpr::models);
            }
            let operator = self.kind(self.pos);
            self.pos += 1;
            let ghost at = self.pos as int;
            let operand = self.mul_expr()?;
            proof {
                done = done.push((operator, parse_level(ts, below(Level::Additive), at)->Ok_0.0));
            }
            following.push((operator, operand));
        }
        Ok(
            AddExpr {
                start: self.tokens[first].start,
                end: self.tokens[self.pos - 1].end,
                base,
                following: Rep::collect(following),
            },
        )
    }

    #[verifier::spinoff_prover]
    fn mul_expr(&mut self) -> (r: Result<MulExpr<'f>, Error<'f>>)
        requires
            old(self).wf(),
        ensures
            final(self).yields(*old(self), r, parse_level(old(self).lexemes(), Level::Multiplicative, old(self).position())),
        decreases left(old(self).lexemes(), old(self).position()), 3 * height(Level::Multiplicative) + 11,
    {
        proof {
            reveal(crate::grammar::chain);
            reveal(crate::grammar::chain_rest);
            reveal(MulExpr::models);
        }
        let first: usize = self.pos;
        let ghost ts = self.lexemes();
        let base = self.unary_expr()?;
        let ghost found = parse_level(ts, below(Level::Multiplicative), first as int)->Ok_0;
        let mut following: Vec<(TokenType, UnaryExpr<'f>)> = Vec::new();
        let ghost mut done: Seq<(TokenType, Tree)> = Seq::empty();
        while multiplicative_operator(self.kind(self.pos))
            invariant
                self.wf(),
                self.tokens@ == old(self).tokens@,
                ts == self.lexemes(),
                first == old(self).pos,
                first < self.pos,
                base.models(found.0, self.tokens@),
                following@.len() == done.len(),
                forall|i: int| 0 <= i < done.len() ==> (#[trigger] following@[i]).0 == done[i].0 && following@[i].1.models(
                        done[i].1,
                        self.tokens@,
                    ),
                chain_rest(ts, Level::Multiplicative, first as int, (self.pos - first - 1) as nat, found.0, done)
                    == parse_level(ts, Level::Multiplicative, first as int),
            decreases self.tokens.len() - self.pos,
        {
            proof {
                reveal(crate::grammar::chain);
                reveal(crate::grammar::chain_rest);
                reveal(MulExpr::models);
            }
            let operator = self.kind(self.pos);
            self.pos += 1;
            let ghost at = self.pos as int;
            let operand = self.unary_expr()?;
            proof {
                done = done.push((operator, parse_level(ts, below(Level::Multiplicative), at)->Ok_0.0));
            }
            following.push((operator, operand));
        }
        Ok(
            MulExpr {
                start: self.tokens[first].start,
                end: self.tokens[self.pos - 1].end,
                base,
                following: Rep::collect(following),
            },
        )
    }

    #[verifier::spinoff_prover]
    fn unary_expr(&mut self) -> (r: Result<UnaryExpr<'f>, Error<'f>>)
        requires
            old(self).wf(),
        ensures
            final(self).yields(*old(self), r, parse_level(old(self).lexemes(), Level::Unary, old(self).position())),
        decreases left(old(self).lexemes(), old(self).position()), 3 * height(Level::Unary) + 11,
    {
        proof {
            reveal(crate::grammar::prefix);
            reveal(UnaryExpr::models);
        }
        let first: usize = self.pos;
        let operator = self.kind(first);
        if prefix_operator(operator) {
            self.pos += 1;
            let expr = self.unary_expr()?;
            Ok(
                UnaryExpr::Unary {
                    start: self.tokens[first].start,
                    end: self.tokens[self.pos - 1].end,
                    operator,
                    expr: Box::new(expr),
                },
            )
        } else {
            Ok(UnaryExpr::Done(Box::new(self.exp_expr()?)))
        }
    }

    #[verifier::spinoff_prover]
    fn exp_expr(&mut self) -> (r: Result<ExpExpr<'f>, Error<'f>>)
        requires
            old(self).wf(),
        ensures
            final(self).yields(*old(self), r, parse_level(old(self).lexemes(), Level::Exponent, old(self).position())),
            parse_level(old(self).lexemes(), Level::Exponent, old(self).position()) matches Ok((tree, _)) ==> tree is Power,
        decreases left(old(self).lexemes(), old(self).position()), 3 * height(Level::Exponent) + 11,
    {
        proof {
            reveal(crate::grammar::power);
            reveal(ExpExpr::models);
        }
        let first: usize = self.pos;
        let base = self.assign_expr()?;
        let exponent = if self.kind(self.pos) == TokenType::StarStar {
            self.pos += 1;
            Some(self.unary_expr()?)
        } else {
            None
        };
        Ok(
            ExpExpr {
                start: self.tokens[first].start,
                end: self.tokens[self.pos - 1].end,
                base,
                exponent,
            },
        )
    }

    #[verifier::spinoff_prover]
    fn assign_expr(&mut self) -> (r: Result<AssignExpr<'f>, Error<'f>>)
        requires
            old(self).wf(),
        ensures
            final(self).yields(*old(self), r, parse_level(old(self).lexemes(), Level::Assignment, old(self).position())),
        decreases left(old(self).lexemes(), old(self).position()), 3 * height(Level::Assignment) + 11,
    {
        proof {
            reveal(crate::grammar::assignment);
            reveal(AssignExpr::models);
        }
        let first: usize = self.pos;
        let ghost ts = self.lexemes();
        let left = self.call_expr()?;
        let operator = self.kind(self.pos);
        if !assignment_operator(operator) {
            return Ok(
                AssignExpr {
                    start: self.tokens[first].start,
                    end: self.tokens[self.pos - 1].end,
                    left,
                    right: None,
                },
            );
        }
        if !can_assign(
            &left,
            Ghost(parse_level(ts, Level::Call, first as int)->Ok_0.0),
            Ghost(self.tokens@),
        ) {
            return Err(self.fail(first, self.pos - 1, Expected::Target));
        }
        self.pos += 1;
        let value = self.expression()?;
        Ok(
            AssignExpr {
                start: self.tokens[first].start,
                end: self.tokens[self.pos - 1].end,
                left,
                right: Some((operator, value)),
            },
        )
    }

    #[verifier::spinoff_prover]
    fn call_expr(&mut self) -> (r: Result<CallExpr<'f>, Error<'f>>)
        requires
            old(self).wf(),
        ensures
            final(self).yields(*old(self), r, parse_level(old(self).lexemes(), Level::Call, old(self).position())),
        decreases left(old(self).lexemes(), old(self).position()), 3 * height(Level::Call) + 11,
    {
        proof {
            reveal(crate::grammar::call);
            reveal(crate::grammar::call_rest);
            reveal(CallExpr::models);
            reveal(CallPart::models);
        }
        let first: usize = self.pos;
        let ghost ts = self.lexemes();
        let base = self.member_expr()?;
        if self.kind(self.pos) != TokenType::LParen {
            return Ok(
                CallExpr {
                    start: self.tokens[first].start,
                    end: self.tokens[self.pos - 1].end,
                    base,
                    following: None,
                },
            );
        }
        let ghost found = parse_level(ts, Level::Member, first as int)->Ok_0;
        let ghost open = self.pos as int;
        let args = self.arguments()?;
        let ghost items = arguments(ts, open)->Ok_0.0;
        let mut parts: Vec<CallPart<'f>> = Vec::new();
        let ghost mut done: Seq<Tree> = Seq::empty();
        loop
            invariant
                self.wf(),
                self.tokens@ == old(self).tokens@,
                ts == self.lexemes(),
                first == old(self).pos,
                first < self.pos,
                base.models(found.0, self.tokens@),
                model_each(args@, items, self.tokens@),
                parts@.len() == done.len(),
                forall|i: int| 0 <= i < done.len() ==> (#[trigger] parts@[i]).models(done[i], self.tokens@),
                call_rest(ts, first as int, (self.pos - first - 1) as nat, found.0, items, done)
                    == parse_level(ts, Level::Call, first as int),
            decreases self.tokens.len() - self.pos,
        {
            proof {
                reveal(crate::grammar::call);
                reveal(crate::grammar::call_rest);
                reveal(CallExpr::models);
                reveal(CallPart::models);
            }
            let kind = self.kind(self.pos);
            let ghost at = self.pos as int;
            if kind == TokenType::Dot {
                if self.kind(self.pos + 1) != TokenType::Identifier {
                    return Err(
                        self.fail(self.pos + 1, self.pos + 1, Expected::Token(TokenType::Identifier)),
                    );
                }
                parts.push(CallPart::Member(MemberPart::Field(self.text(self.pos + 1))));
                proof {
                    done = done.push(Tree::Field { name: text_at(ts, at + 1) });
                }
                self.pos += 2;
            } else if kind == TokenType::LParen {
                let more = self.arguments()?;
                proof {
                    done = done.push(Tree::Arguments { items: arguments(ts, at)->Ok_0.0 });
                }
                parts.push(CallPart::Args(more));
            } else {
                return Ok(
                    CallExpr {
                        start: self.tokens[first].start,
                        end: self.tokens[self.pos - 1].end,
                        base,
                        following: Some((args, Rep::collect(parts))),
                    },
                );
            }
        }
    }

    /// `(argument, argument)`
    #[verifier::spinoff_prover]
    fn arguments(&mut self) -> (r: Result<Args<'f>, Error<'f>>)
        requires
            old(self).wf(),
        ensures
            final(self).wf(),
            final(self).tokens@ == old(self).tokens@,
            match arguments(old(self).lexemes(), old(self).position()) {
                Ok((trees, more)) => r matches Ok(found) && model_each(
                    found@,
                    trees,
                    old(self).tokens@,
                ) && final(self).pos == old(self).pos + more + 1,
                Err(f) => r matches Err(e) && reports(old(self).tokens@, e, f),
            },
        decreases left(old(self).lexemes(), old(self).position()), 6nat,
    {
        proof {
            reveal(crate::grammar::arguments);
            reveal(crate::grammar::arguments_rest);
        }
        let first: usize = self.pos;
        let ghost ts = self.lexemes();
        self.expect(TokenType::LParen)?;
        let mut found: Vec<Expression<'f>> = Vec::new();
        let ghost mut done: Seq<Tree> = Seq::empty();
        if self.kind(self.pos) == TokenType::RParen {
            self.pos += 1;
            return Ok(Rep::collect(found));
        }
        loop
            invariant
                self.wf(),
                self.tokens@ == old(self).tokens@,
                ts == self.lexemes(),
                first == old(self).pos,
                first < self.pos <= self.tokens.len(),
                kind_at(ts, first as int) == TokenType::LParen,
                model_each(found@, done, self.tokens@),
                arguments_rest(ts, first as int, (self.pos - first) as nat, done) == arguments(
                    ts,
                    first as int,
                ),
            decreases self.tokens.len() - self.pos,
        {
            proof {
                reveal(crate::grammar::arguments);
                reveal(crate::grammar::arguments_rest);
            }
            let ghost at = self.pos as int;
            let e = self.expression()?;
            proof {
                done = done.push(expression(ts, at)->Ok_0.0);
            }
            found.push(e);
            let behind = self.kind(self.pos);
            if behind == TokenType::Comma {
                self.pos += 1;
            } else if behind == TokenType::RParen {
                self.pos += 1;
                return Ok(Rep::collect(found));
            } else {
                return Err(self.fail(self.pos, self.pos, Expected::Delimiter));
            }
        }
    }

    #[verifier::spinoff_prover]
    fn member_expr(&mut self) -> (r: Result<MemberExpr<'f>, Error<'f>>)
        requires
            old(self).wf(),
        ensures
            final(self).yields(*old(self), r, parse_level(old(self).lexemes(), Level::Member, old(self).position())),
        decreases left(old(self).lexemes(), old(self).position()), 3 * height(Level::Member) + 11,
    {
        proof {
            reveal(crate::grammar::access);
            reveal(crate::grammar::fields_rest);
            reveal(MemberExpr::models);
        }
        let first: usize = self.pos;
        let ghost ts = self.lexemes();
        let base = self.atom()?;
        let ghost found = parse_level(ts, Level::Atom, first as int)->Ok_0;
        let mut following: Vec<MemberPart> = Vec::new();
        let ghost mut done: Seq<Seq<char>> = Seq::empty();
        while self.kind(self.pos) == TokenType::Dot
            invariant
                self.wf(),
                self.tokens@ == old(self).tokens@,
                ts == self.lexemes(),
                first == old(self).pos,
                first < self.pos,
                base.models(found.0, self.tokens@),
                following@.len() == done.len(),
                forall|i: int| 0 <= i < done.len() ==> (#[trigger] following@[i]).names(done[i]),
                fields_rest(ts, first as int, (self.pos - first - 1) as nat, found.0, done)
                    == parse_level(ts, Level::Member, first as int),
            decreases self.tokens.len() - self.pos,
        {
            proof {
                reveal(crate::grammar::access);
                reveal(crate::grammar::fields_rest);
                reveal(MemberExpr::models);
            }
            if self.kind(self.pos + 1) != TokenType::Identifier {
                return Err(
                    self.fail(self.pos + 1, self.pos + 1, Expected::Token(TokenType::Identifier)),
                );
            }
            following.push(MemberPart::Field(self.text(self.pos + 1)));
            proof {
                done = done.push(text_at(ts, self.pos + 1));
            }
            self.pos += 2;
        }
        Ok(
            MemberExpr {
                start: self.tokens[first].start,
                end: self.tokens[self.pos - 1].end,
                base,
                following: Rep::collect(following),
            },
        )
    }

    /// An atom.
    #[verifier::spinoff_prover]
    fn atom(&mut self) -> (r: Result<Atom<'f>, Error<'f>>)
        requires
            old(self).wf(),
        ensures
            final(self).yields(*old(self), r, parse_level(old(self).lexemes(), Level::Atom, old(self).position())),
        decreases left(old(self).lexemes(), old(self).position()), 11nat,
    {
        proof {
            reveal(crate::grammar::atom);
            reveal(Atom::models);
        }
        let first: usize = self.pos;
        let kind = self.kind(first);
        if literal_kind(kind) {
            self.literal()
        } else if kind == TokenType::LParen {
            self.pos += 1;
            let e = self.expression()?;
            self.expect(TokenType::RParen)?;
            Ok(Atom::Expr(e))
        } else if kind == TokenType::LBrace {
            Ok(Atom::BlockExpr(self.braces()?))
        } else {
            self.form()
        }
    }

    /// One of the forms that start with a reserved word.
    #[verifier::spinoff_prover]
    #[verifier::rlimit(50)]
    fn form(&mut self) -> (r: Result<Atom<'f>, Error<'f>>)
        requires
            old(self).wf(),
        ensures
            final(self).yields(*old(self), r, form(old(self).lexemes(), old(self).position())),
        decreases left(old(self).lexemes(), old(self).position()), 10nat,
    {
        proof {
            reveal(crate::grammar::form);
            reveal(Atom::models);
        }
        let kind = self.kind(self.pos);
        if kind == TokenType::If {
            Ok(Atom::IfExpr(self.if_expr()?))
        } else if kind == TokenType::For {
            Ok(Atom::ForExpr(self.for_expr()?))
        } else if kind == TokenType::While {
            Ok(Atom::WhileExpr(self.while_expr()?))
        } else if kind == TokenType::Loop {
            Ok(Atom::LoopExpr(self.loop_expr()?))
        } else if kind == TokenType::Fun {
            Ok(Atom::FunExpr(self.fun_expr()?))
        } else if kind == TokenType::Class {
            Ok(Atom::ClassExpr(self.class_expr()?))
        } else if kind == TokenType::Try {
            Ok(Atom::TryExpr(self.try_expr()?))
        } else {
            Err(self.fail(self.pos, self.pos, Expected::Expression))
        }
    }

    /// A literal or a name.
    #[verifier::spinoff_prover]
    fn literal(&mut self) -> (r: Result<Atom<'f>, Error<'f>>)
        requires
            old(self).wf(),
        ensures
            final(self).yields(*old(self), r, literal(old(self).lexemes(), old(self).position())),
    {
        proof {
            reveal(crate::grammar::literal);
            reveal(Atom::models);
        }
        let first: usize = self.pos;
        let kind = self.kind(first);
        if kind == TokenType::Number {
            match Number::from_literal(self.tokens[first].lexeme.as_str()) {
                Some(n) => {
                    self.pos += 1;
                    Ok(Atom::Number(n))
                },
                None => Err(self.fail(first, first, Expected::Literal)),
            }
        } else if kind == TokenType::String {
            let s = self.text(first);
            self.pos += 1;
            Ok(Atom::String(s))
        } else if kind == TokenType::True {
            self.pos += 1;
            Ok(Atom::Bool(true))
        } else if kind == TokenType::False {
            self.pos += 1;
            Ok(Atom::Bool(false))
        } else if kind == TokenType::Null {
            self.pos += 1;
            Ok(Atom::Null)
        } else if kind == TokenType::Identifier {
            let name = self.text(first);
            self.pos += 1;
            Ok(
                Atom::Identifier {
                    start: self.tokens[first].start,
                    end: self.tokens[first].end,
                    name,
                },
            )
        } else {
            Err(self.fail(first, first, Expected::Expression))
        }
    }

    /// `loop body`
    #[verifier::spinoff_prover]
    fn loop_expr(&mut self) -> (r: Result<LoopExpr<'f>, Error<'f>>)
        requires
            old(self).wf(),
        ensures
            final(self).yields(*old(self), r, endless_loop(old(self).lexemes(), old(self).position())),
            endless_loop(old(self).lexemes(), old(self).position()) matches Ok((tree, _)) ==> tree is Loop,
        decreases left(old(self).lexemes(), old(self).position()), 9nat,
    {
        proof {
            reveal(crate::grammar::endless_loop);
            reveal(LoopExpr::models);
        }
        let first: usize = self.pos;
        self.expect(TokenType::Loop)?;
        let block = self.block()?;
        Ok(LoopExpr { start: self.tokens[first].start, end: self.tokens[self.pos - 1].end, block })
    }

    /// `class body`
    #[verifier::spinoff_prover]
    fn class_expr(&mut self) -> (r: Result<ClassExpr<'f>, Error<'f>>)
        requires
            old(self).wf(),
        ensures
            final(self).yields(*old(self), r, class_literal(old(self).lexemes(), old(self).position())),
            class_literal(old(self).lexemes(), old(self).position()) matches Ok((tree, _)) ==> tree is ClassLiteral,
        decreases left(old(self).lexemes(), old(self).position()), 9nat,
    {
        proof {
            reveal(crate::grammar::class_literal);
            reveal(ClassExpr::models);
        }
        let first: usize = self.pos;
        self.expect(TokenType::Class)?;
        let block = self.members()?;
        Ok(ClassExpr { start: self.tokens[first].start, end: self.tokens[self.pos - 1].end, block })
    }

    /// `if condition then else otherwise`
    #[verifier::spinoff_prover]
    fn if_expr(&mut self) -> (r: Result<IfExpr<'f>, Error<'f>>)
        requires
            old(self).wf(),
        ensures
            final(self).yields(*old(self), r, conditional(old(self).lexemes(), old(self).position())),
            conditional(old(self).lexemes(), old(self).position()) matches Ok((tree, _)) ==> tree is If,
        decreases left(old(self).lexemes(), old(self).position()), 9nat,
    {
        proof {
            reveal(crate::grammar::conditional);
            reveal(IfExpr::models);
        }
        let first: usize = self.pos;
        self.expect(TokenType::If)?;
        let condition = self.expression()?;
        let block = self.block()?;
        let else_block = if self.kind(self.pos) == TokenType::Else {
            self.pos += 1;
            Some(self.block()?)
        } else {
            None
        };
        Ok(
            IfExpr {
                start: self.tokens[first].start,
                end: self.tokens[self.pos - 1].end,
                condition,
                block,
                else_block,
            },
        )
    }

    /// `for name in iter body`
    #[verifier::spinoff_prover]
    fn for_expr(&mut self) -> (r: Result<ForExpr<'f>, Error<'f>>)
        requires
            old(self).wf(),
        ensures
            final(self).yields(*old(self), r, for_loop(old(self).lexemes(), old(self).position())),
            for_loop(old(self).lexemes(), old(self).position()) matches Ok((tree, _)) ==> tree is For,
        decreases left(old(self).lexemes(), old(self).position()), 9nat,
    {
        proof {
            reveal(crate::grammar::for_loop);
            reveal(ForExpr::models);
        }
        let first: usize = self.pos;
        self.expect(TokenType::For)?;
        if self.kind(self.pos) != TokenType::Identifier {
            return Err(self.fail(self.pos, self.pos, Expected::Token(TokenType::Identifier)));
        }
        let ident = self.text(self.pos);
        self.pos += 1;
        self.expect(TokenType::In)?;
        let iter = self.expression()?;
        let block = self.block()?;
        Ok(
            ForExpr {
                start: self.tokens[first].start,
                end: self.tokens[self.pos - 1].end,
                ident,
                iter,
                block,
            },
        )
    }

    /// `while condition body`
    #[verifier::spinoff_prover]
    fn while_expr(&mut self) -> (r: Result<WhileExpr<'f>, Error<'f>>)
        requires
            old(self).wf(),
        ensures
            final(self).yields(*old(self), r, while_loop(old(self).lexemes(), old(self).position())),
            while_loop(old(self).lexemes(), old(self).position()) matches Ok((tree, _)) ==> tree is While,
        decreases left(old(self).lexemes(), old(self).position()), 9nat,
    {
        proof {
            reveal(crate::grammar::while_loop);
            reveal(WhileExpr::models);
        }
        let first: usize = self.pos;
        self.expect(TokenType::While)?;
        let condition = self.expression()?;
        let block = self.block()?;
        Ok(
            WhileExpr {
                start: self.tokens[first].start,
                end: self.tokens[self.pos - 1].end,
                condition,
                block,
            },
        )
    }

    /// `fun (params) body`
    #[verifier::spinoff_prover]
    fn fun_expr(&mut self) -> (r: Result<FunExpr<'f>, Error<'f>>)
        requires
            old(self).wf(),
        ensures
            final(self).yields(*old(self), r, lambda(old(self).lexemes(), old(self).position())),
            lambda(old(self).lexemes(), old(self).position()) matches Ok((tree, _)) ==> tree is Lambda,
        decreases left(old(self).lexemes(), old(self).position()), 9nat,
    {
        proof {
            reveal(crate::grammar::lambda);
            reveal(FunExpr::models);
        }
        let first: usize = self.pos;
        self.expect(TokenType::Fun)?;
        let args = self.names()?;
        let block = self.block()?;
        Ok(
            FunExpr {
                start: self.tokens[first].start,
                end: self.tokens[self.pos - 1].end,
                args,
                block,
            },
        )
    }

    /// `try body catch name handler`
    #[verifier::spinoff_prover]
    fn try_expr(&mut self) -> (r: Result<TryExpr<'f>, Error<'f>>)
        requires
            old(self).wf(),
        ensures
            final(self).yields(*old(self), r, attempt(old(self).lexemes(), old(self).position())),
            attempt(old(self).lexemes(), old(self).position()) matches Ok((tree, _)) ==> tree is Try,
        decreases left(old(self).lexemes(), old(self).position()), 9nat,
    {
        proof {
            reveal(crate::grammar::attempt);
            reveal(TryExpr::models);
        }
        let first: usize = self.pos;
        self.expect(TokenType::Try)?;
        let try_block = self.block()?;
        self.expect(TokenType::Catch)?;
        if self.kind(self.pos) != TokenType::Identifier {
            return Err(self.fail(self.pos, self.pos, Expected::Token(TokenType::Identifier)));
        }
        let ident = self.text(self.pos);
        self.pos += 1;
        let catch_block = self.block()?;
        Ok(
            TryExpr {
                start: self.tokens[first].start,
                end: self.tokens[self.pos - 1].end,
                try_block,
                ident,
                catch_block,
            },
        )
    }
}

} // verus!
