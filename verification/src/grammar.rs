//! The grammar, as functions on sequences of lexemes.
//!
//! Every phrase is at least one token long. A production takes the index of
//! the first token of its phrase and gives the tree of the phrase and the
//! count of tokens that follow the first one, so that a phrase read at `pos`
//! with `more` further tokens is `tokens[pos ..= pos + more]`. Where the
//! tokens do not fit, it gives the first place at which they do not.
//!
//! A tree knows its own tokens by their indices, not by their place in the
//! source text: two token sequences that agree in kinds and texts have the
//! same tree.

use crate::number::literal_value;
use crate::tokens::{Lexeme, TokenType};
use vstd::prelude::*;

verus! {

/// The tokens `first ..= last`.
pub ghost struct Span {
    pub first: int,
    pub last: int,
}

/// The levels of binding, from the loosest to the tightest.
pub ghost enum Level {
    Range,
    Or,
    And,
    BitOr,
    BitXor,
    BitAnd,
    Equality,
    Relational,
    Shift,
    Additive,
    Multiplicative,
    Unary,
    Exponent,
    Assignment,
    Call,
    Member,
    Atom,
}

/// What was looked for where the tokens did not fit.
#[derive(Clone, Copy, Debug, PartialEq, Eq, Structural)]
pub enum Expected {
    /// A token of this kind.
    Token(TokenType),
    /// The start of an expression.
    Expression,
    /// The start of a member of a class, or the brace that ends the class.
    Member,
    /// The `;` that ends a statement or the `}` that ends the block.
    Separator,
    /// The `,` that goes on with a list or the `)` that ends it.
    Delimiter,
    /// Something that can be assigned to, left of an assignment.
    Target,
    /// A numeric literal that a number holds exactly.
    Literal,
}

/// The tokens `first ..= last` are not what was expected.
pub ghost struct Failure {
    pub first: int,
    pub last: int,
    pub expected: Expected,
}

/// A syntax tree.
pub ghost enum Tree {
    // Statements.
    /// `var name = value;`
    Var { span: Span, name: Seq<char>, value: Box<Tree> },
    /// `fun name(params) body`
    Function { span: Span, name: Seq<char>, params: Seq<Seq<char>>, body: Box<Tree> },
    /// `class name body`, the body a `Members`
    Class { span: Span, name: Seq<char>, body: Box<Tree> },
    /// `break;` or `break value;`
    Break { span: Span, value: Option<Box<Tree>> },
    /// `continue;`
    Continue { span: Span },
    /// `return;` or `return value;`
    Return { span: Span, value: Option<Box<Tree>> },
    /// `expr;`
    Expr { expr: Box<Tree> },
    // Classes.
    /// `{ members }`
    Members { span: Span, members: Seq<Tree> },
    /// `static`, where it is there, and a `Var` or a `Function`
    Member { span: Span, is_static: bool, item: Box<Tree> },
    // Blocks.
    /// `{ statements value }`
    Braces { span: Span, statements: Seq<Tree>, value: Option<Box<Tree>> },
    // Expressions.
    /// A level that takes one operator at most: range, equality, relational.
    Pair { level: Level, span: Span, left: Box<Tree>, right: Option<(TokenType, Box<Tree>)> },
    /// A level that takes operators one after the other, binding to the left.
    Chain { level: Level, span: Span, base: Box<Tree>, following: Seq<(TokenType, Tree)> },
    /// A prefix operator and what it is applied to.
    Prefix { span: Span, operator: TokenType, operand: Box<Tree> },
    /// `base`, or `base ** exponent`
    Power { span: Span, base: Box<Tree>, exponent: Option<Box<Tree>> },
    /// `target`, or `target = value` with one of the assignment operators
    Assign { span: Span, target: Box<Tree>, value: Option<(TokenType, Box<Tree>)> },
    /// `base`, or `base(arguments)` and then fields and argument lists
    Call { span: Span, base: Box<Tree>, following: Option<(Seq<Tree>, Seq<Tree>)> },
    /// `.name`, as a part of a call
    Field { name: Seq<char> },
    /// `(arguments)`, as a part of a call
    Arguments { items: Seq<Tree> },
    /// `base.field.field`
    Access { span: Span, base: Box<Tree>, fields: Seq<Seq<char>> },
    // Atoms.
    Number { text: Seq<char> },
    Text { text: Seq<char> },
    Truth { value: bool },
    Null,
    Name { span: Span, name: Seq<char> },
    /// `(inner)`
    Paren { inner: Box<Tree> },
    /// `if condition then`, or `if condition then else otherwise`
    If { span: Span, condition: Box<Tree>, then: Box<Tree>, otherwise: Option<Box<Tree>> },
    /// `for name in iter body`
    For { span: Span, name: Seq<char>, iter: Box<Tree>, body: Box<Tree> },
    /// `while condition body`
    While { span: Span, condition: Box<Tree>, body: Box<Tree> },
    /// `loop body`
    Loop { span: Span, body: Box<Tree> },
    /// `fun (params) body`
    Lambda { span: Span, params: Seq<Seq<char>>, body: Box<Tree> },
    /// `class body`, the body a `Members`
    ClassLiteral { span: Span, body: Box<Tree> },
    /// `try body catch name handler`
    Try { span: Span, body: Box<Tree>, name: Seq<char>, handler: Box<Tree> },
}

/// What a production gives: a value and the count of tokens behind the first
/// one of its phrase, or the place where the tokens do not fit.
pub type Parsed<T> = Result<(T, nat), Failure>;

/// The kind of the token at `i`. Behind the last token the input has ended.
pub open spec fn kind_at(ts: Seq<Lexeme>, i: int) -> TokenType {
    if 0 <= i < ts.len() {
        ts[i].kind
    } else {
        TokenType::Eof
    }
}

/// The text of the token at `i`.
pub open spec fn text_at(ts: Seq<Lexeme>, i: int) -> Seq<char> {
    if 0 <= i < ts.len() {
        ts[i].text
    } else {
        Seq::empty()
    }
}

/// The count of tokens from `pos` on.
pub open spec fn left(ts: Seq<Lexeme>, pos: int) -> nat {
    if pos < ts.len() {
        (ts.len() - pos) as nat
    } else {
        0
    }
}

/// The tokens from `pos` to `more` tokens behind it.
pub open spec fn span(pos: int, more: nat) -> Span {
    Span { first: pos, last: pos + more }
}

/// The token at `pos` is not what was expected.
pub open spec fn unexpected(pos: int, expected: Expected) -> Failure {
    Failure { first: pos, last: pos, expected }
}

/// The level that binds next tighter.
pub open spec fn below(level: Level) -> Level {
    match level {
        Level::Range => Level::Or,
        Level::Or => Level::And,
        Level::And => Level::BitOr,
        Level::BitOr => Level::BitXor,
        Level::BitXor => Level::BitAnd,
        Level::BitAnd => Level::Equality,
        Level::Equality => Level::Relational,
        Level::Relational => Level::Shift,
        Level::Shift => Level::Additive,
        Level::Additive => Level::Multiplicative,
        Level::Multiplicative => Level::Unary,
        Level::Unary => Level::Exponent,
        Level::Exponent => Level::Assignment,
        Level::Assignment => Level::Call,
        Level::Call => Level::Member,
        Level::Member => Level::Atom,
        Level::Atom => Level::Atom,
    }
}

/// How far a level is from the atoms.
pub open spec fn height(level: Level) -> nat {
    match level {
        Level::Range => 16,
        Level::Or => 15,
        Level::And => 14,
        Level::BitOr => 13,
        Level::BitXor => 12,
        Level::BitAnd => 11,
        Level::Equality => 10,
        Level::Relational => 9,
        Level::Shift => 8,
        Level::Additive => 7,
        Level::Multiplicative => 6,
        Level::Unary => 5,
        Level::Exponent => 4,
        Level::Assignment => 3,
        Level::Call => 2,
        Level::Member => 1,
        Level::Atom => 0,
    }
}

/// The binary operators of each level.
pub open spec fn has_operator(level: Level, kind: TokenType) -> bool {
    match level {
        Level::Range => kind == TokenType::DotDot || kind == TokenType::DotDotEq,
        Level::Or => kind == TokenType::OrOr,
        Level::And => kind == TokenType::AndAnd,
        Level::BitOr => kind == TokenType::Pipe,
        Level::BitXor => kind == TokenType::Caret,
        Level::BitAnd => kind == TokenType::Ampersand,
        Level::Equality => kind == TokenType::EqEq || kind == TokenType::NotEq,
        Level::Relational => kind == TokenType::Less || kind == TokenType::LessEq || kind
            == TokenType::Greater || kind == TokenType::GreaterEq,
        Level::Shift => kind == TokenType::Shl || kind == TokenType::Shr,
        Level::Additive => kind == TokenType::Plus || kind == TokenType::Minus,
        Level::Multiplicative => kind == TokenType::Star || kind == TokenType::Slash || kind
            == TokenType::Percent,
        _ => false,
    }
}

/// The prefix operators.
pub open spec fn is_prefix(kind: TokenType) -> bool {
    kind == TokenType::Plus || kind == TokenType::Minus || kind == TokenType::Bang
}

/// The assignment operators.
pub open spec fn is_assignment(kind: TokenType) -> bool {
    kind == TokenType::Assign || kind == TokenType::PlusAssign || kind == TokenType::MinusAssign
        || kind == TokenType::StarAssign || kind == TokenType::SlashAssign || kind
        == TokenType::PercentAssign
}

/// Whether a tree of the call level can be assigned to: it is a name, or it
/// ends in a field. One that ends in an argument list cannot, nor can a
/// literal or any other atom.
pub open spec fn assignable(target: Tree) -> bool {
    match target {
        Tree::Call { base, following: None, .. } => match *base {
            Tree::Access { base: atom, fields, .. } => fields.len() > 0 || *atom is Name,
            _ => false,
        },
        Tree::Call { following: Some((_, parts)), .. } => parts.len() > 0 && parts.last() is Field,
        _ => false,
    }
}

/// Whether the tokens at `pos` start a statement that is no expression.
pub open spec fn starts_statement(ts: Seq<Lexeme>, pos: int) -> bool {
    let kind = kind_at(ts, pos);
    ||| kind == TokenType::Var
    ||| kind == TokenType::Break
    ||| kind == TokenType::Continue
    ||| kind == TokenType::Return
    ||| (kind == TokenType::Fun || kind == TokenType::Class) && kind_at(ts, pos + 1)
        == TokenType::Identifier
}

/// A whole program: statements up to the end of the input, behind those in
/// `done`.
#[verifier::opaque]
pub open spec fn program_rest(ts: Seq<Lexeme>, pos: int, done: Seq<Tree>) -> Result<
    Seq<Tree>,
    Failure,
>
    decreases left(ts, pos), 100nat,
{
    if kind_at(ts, pos) == TokenType::Eof {
        Ok(done)
    } else {
        match statement(ts, pos) {
            Err(f) => Err(f),
            Ok((s, m)) => program_rest(ts, pos + m + 1, done.push(s)),
        }
    }
}

/// The statements of the program `ts`.
pub open spec fn program(ts: Seq<Lexeme>) -> Result<Seq<Tree>, Failure> {
    program_rest(ts, 0, Seq::empty())
}

/// A statement.
#[verifier::opaque]
pub open spec fn statement(ts: Seq<Lexeme>, pos: int) -> Parsed<Tree>
    decreases left(ts, pos), 80nat,
{
    let kind = kind_at(ts, pos);
    if kind == TokenType::Var {
        variable(ts, pos)
    } else if kind == TokenType::Fun && kind_at(ts, pos + 1) == TokenType::Identifier {
        function(ts, pos)
    } else if kind == TokenType::Class && kind_at(ts, pos + 1) == TokenType::Identifier {
        class_declaration(ts, pos)
    } else if kind == TokenType::Break {
        break_statement(ts, pos)
    } else if kind == TokenType::Return {
        return_statement(ts, pos)
    } else if kind == TokenType::Continue {
        continue_statement(ts, pos)
    } else {
        match expression(ts, pos) {
            Err(f) => Err(f),
            Ok((e, m)) => if kind_at(ts, pos + m + 1) == TokenType::Semicolon {
                Ok((Tree::Expr { expr: Box::new(e) }, m + 1))
            } else {
                Err(unexpected(pos + m + 1, Expected::Token(TokenType::Semicolon)))
            },
        }
    }
}

/// `class name body`
#[verifier::opaque]
pub open spec fn class_declaration(ts: Seq<Lexeme>, pos: int) -> Parsed<Tree>
    decreases left(ts, pos), 75nat,
{
    if kind_at(ts, pos) != TokenType::Class {
        Err(unexpected(pos, Expected::Token(TokenType::Class)))
    } else if kind_at(ts, pos + 1) != TokenType::Identifier {
        Err(unexpected(pos + 1, Expected::Token(TokenType::Identifier)))
    } else {
        match members(ts, pos + 2) {
            Err(f) => Err(f),
            Ok((body, m)) => Ok(
                (
                    Tree::Class {
                        span: span(pos, m + 2),
                        name: text_at(ts, pos + 1),
                        body: Box::new(body),
                    },
                    m + 2,
                ),
            ),
        }
    }
}

/// `break;` or `break value;`
#[verifier::opaque]
pub open spec fn break_statement(ts: Seq<Lexeme>, pos: int) -> Parsed<Tree>
    decreases left(ts, pos), 75nat,
{
    if kind_at(ts, pos) != TokenType::Break {
        Err(unexpected(pos, Expected::Token(TokenType::Break)))
    } else {
        match ending(ts, pos + 1) {
            Err(f) => Err(f),
            Ok((value, m)) => Ok((Tree::Break { span: span(pos, m + 1), value }, m + 1)),
        }
    }
}

/// `return;` or `return value;`
#[verifier::opaque]
pub open spec fn return_statement(ts: Seq<Lexeme>, pos: int) -> Parsed<Tree>
    decreases left(ts, pos), 75nat,
{
    if kind_at(ts, pos) != TokenType::Return {
        Err(unexpected(pos, Expected::Token(TokenType::Return)))
    } else {
        match ending(ts, pos + 1) {
            Err(f) => Err(f),
            Ok((value, m)) => Ok((Tree::Return { span: span(pos, m + 1), value }, m + 1)),
        }
    }
}

/// `continue;`
#[verifier::opaque]
pub open spec fn continue_statement(ts: Seq<Lexeme>, pos: int) -> Parsed<Tree> {
    if kind_at(ts, pos) != TokenType::Continue {
        Err(unexpected(pos, Expected::Token(TokenType::Continue)))
    } else if kind_at(ts, pos + 1) == TokenType::Semicolon {
        Ok((Tree::Continue { span: span(pos, 1) }, 1))
    } else {
        Err(unexpected(pos + 1, Expected::Token(TokenType::Semicolon)))
    }
}

/// What ends a `break` or a `return`: `;`, or a value and `;`.
#[verifier::opaque]
pub open spec fn ending(ts: Seq<Lexeme>, pos: int) -> Parsed<Option<Box<Tree>>>
    decreases left(ts, pos), 72nat,
{
    if kind_at(ts, pos) == TokenType::Semicolon {
        Ok((None, 0))
    } else {
        match expression(ts, pos) {
            Err(f) => Err(f),
            Ok((e, m)) => if kind_at(ts, pos + m + 1) == TokenType::Semicolon {
                Ok((Some(Box::new(e)), m + 1))
            } else {
                Err(unexpected(pos + m + 1, Expected::Token(TokenType::Semicolon)))
            },
        }
    }
}

/// `var name = value;`, from the `var` at `pos` on.
#[verifier::opaque]
pub open spec fn variable(ts: Seq<Lexeme>, pos: int) -> Parsed<Tree>
    decreases left(ts, pos), 75nat,
{
    if kind_at(ts, pos + 1) != TokenType::Identifier {
        Err(unexpected(pos + 1, Expected::Token(TokenType::Identifier)))
    } else if kind_at(ts, pos + 2) != TokenType::Assign {
        Err(unexpected(pos + 2, Expected::Token(TokenType::Assign)))
    } else {
        match expression(ts, pos + 3) {
            Err(f) => Err(f),
            Ok((value, m)) => if kind_at(ts, pos + m + 4) == TokenType::Semicolon {
                Ok(
                    (
                        Tree::Var {
                            span: span(pos, m + 4),
                            name: text_at(ts, pos + 1),
                            value: Box::new(value),
                        },
                        m + 4,
                    ),
                )
            } else {
                Err(unexpected(pos + m + 4, Expected::Token(TokenType::Semicolon)))
            },
        }
    }
}

/// `fun name(params) body`, from the `fun` at `pos` on.
#[verifier::opaque]
pub open spec fn function(ts: Seq<Lexeme>, pos: int) -> Parsed<Tree>
    decreases left(ts, pos), 75nat,
{
    if kind_at(ts, pos + 1) != TokenType::Identifier {
        Err(unexpected(pos + 1, Expected::Token(TokenType::Identifier)))
    } else {
        match names(ts, pos + 2) {
            Err(f) => Err(f),
            Ok((params, m)) => match block(ts, pos + m + 3) {
                Err(f) => Err(f),
                Ok((body, k)) => Ok(
                    (
                        Tree::Function {
                            span: span(pos, m + k + 3),
                            name: text_at(ts, pos + 1),
                            params,
                            body: Box::new(body),
                        },
                        m + k + 3,
                    ),
                ),
            },
        }
    }
}

/// `(name, name)`: the names of parameters, from the `(` at `pos` on.
#[verifier::opaque]
pub open spec fn names(ts: Seq<Lexeme>, pos: int) -> Parsed<Seq<Seq<char>>> {
    if kind_at(ts, pos) != TokenType::LParen {
        Err(unexpected(pos, Expected::Token(TokenType::LParen)))
    } else if kind_at(ts, pos + 1) == TokenType::RParen {
        Ok((Seq::empty(), 1))
    } else {
        names_rest(ts, pos, 1, Seq::empty())
    }
}

/// The names from `first + more` on, behind those in `done`.
#[verifier::opaque]
pub open spec fn names_rest(ts: Seq<Lexeme>, first: int, more: nat, done: Seq<Seq<char>>) -> Parsed<
    Seq<Seq<char>>,
>
    decreases left(ts, first + more),
{
    let at = first + more;
    if kind_at(ts, at) != TokenType::Identifier {
        Err(unexpected(at, Expected::Token(TokenType::Identifier)))
    } else if kind_at(ts, at + 1) == TokenType::Comma {
        names_rest(ts, first, more + 2, done.push(text_at(ts, at)))
    } else if kind_at(ts, at + 1) == TokenType::RParen {
        Ok((done.push(text_at(ts, at)), more + 1))
    } else {
        Err(unexpected(at + 1, Expected::Delimiter))
    }
}

/// `{ members }`: the body of a class, from the `{` at `pos` on.
#[verifier::opaque]
pub open spec fn members(ts: Seq<Lexeme>, pos: int) -> Parsed<Tree>
    decreases left(ts, pos), 5nat,
{
    if kind_at(ts, pos) != TokenType::LBrace {
        Err(unexpected(pos, Expected::Token(TokenType::LBrace)))
    } else {
        members_rest(ts, pos, 1, Seq::empty())
    }
}

/// The members from `first + more` on, behind those in `done`.
#[verifier::opaque]
pub open spec fn members_rest(ts: Seq<Lexeme>, first: int, more: nat, done: Seq<Tree>) -> Parsed<
    Tree,
>
    decreases left(ts, first + more), 100nat,
{
    let at = first + more;
    let kind = kind_at(ts, at);
    if kind == TokenType::RBrace {
        Ok((Tree::Members { span: span(first, more), members: done }, more))
    } else if kind == TokenType::Static || kind == TokenType::Var || kind == TokenType::Fun {
        match member(ts, at) {
            Err(f) => Err(f),
            Ok((item, m)) => members_rest(ts, first, more + m + 1, done.push(item)),
        }
    } else {
        Err(unexpected(at, Expected::Member))
    }
}

/// A member of a class: an attribute or a method, `static` or not.
#[verifier::opaque]
pub open spec fn member(ts: Seq<Lexeme>, pos: int) -> Parsed<Tree>
    decreases left(ts, pos), 78nat,
{
    let is_static = kind_at(ts, pos) == TokenType::Static;
    let lead: nat = if is_static {
        1
    } else {
        0
    };
    let kind = kind_at(ts, pos + lead);
    if kind == TokenType::Var || kind == TokenType::Fun {
        match (if kind == TokenType::Var {
            variable(ts, pos + lead)
        } else {
            function(ts, pos + lead)
        }) {
            Err(f) => Err(f),
            Ok((item, m)) => Ok(
                (
                    Tree::Member { span: span(pos, m + lead), is_static, item: Box::new(item) },
                    m + lead,
                ),
            ),
        }
    } else {
        Err(unexpected(pos + lead, Expected::Member))
    }
}

/// What stands where a body is wanted: a block in braces, or one statement.
#[verifier::opaque]
pub open spec fn block(ts: Seq<Lexeme>, pos: int) -> Parsed<Tree>
    decreases left(ts, pos), 90nat,
{
    if kind_at(ts, pos) == TokenType::LBrace {
        braces(ts, pos)
    } else {
        statement(ts, pos)
    }
}

/// `{ statements value }`, from the `{` at `pos` on.
#[verifier::opaque]
pub open spec fn braces(ts: Seq<Lexeme>, pos: int) -> Parsed<Tree>
    decreases left(ts, pos), 5nat,
{
    if kind_at(ts, pos) != TokenType::LBrace {
        Err(unexpected(pos, Expected::Token(TokenType::LBrace)))
    } else {
        braces_rest(ts, pos, 1, Seq::empty())
    }
}

/// The inside of a block from `first + more` on, behind the statements in
/// `done`. An expression with a `;` behind it is a statement; one with the
/// closing brace behind it is the value of the block.
#[verifier::opaque]
pub open spec fn braces_rest(ts: Seq<Lexeme>, first: int, more: nat, done: Seq<Tree>) -> Parsed<
    Tree,
>
    decreases left(ts, first + more), 100nat,
{
    let at = first + more;
    let kind = kind_at(ts, at);
    if kind == TokenType::RBrace {
        Ok((Tree::Braces { span: span(first, more), statements: done, value: None }, more))
    } else if kind == TokenType::Eof {
        Err(unexpected(at, Expected::Token(TokenType::RBrace)))
    } else if starts_statement(ts, at) {
        match statement(ts, at) {
            Err(f) => Err(f),
            Ok((s, m)) => braces_rest(ts, first, more + m + 1, done.push(s)),
        }
    } else {
        match expression(ts, at) {
            Err(f) => Err(f),
            Ok((e, m)) => {
                let behind = kind_at(ts, at + m + 1);
                if behind == TokenType::Semicolon {
                    braces_rest(ts, first, more + m + 2, done.push(Tree::Expr { expr: Box::new(e) }))
                } else if behind == TokenType::RBrace {
                    Ok(
                        (
                            Tree::Braces {
                                span: span(first, more + m + 1),
                                statements: done,
                                value: Some(Box::new(e)),
                            },
                            more + m + 1,
                        ),
                    )
                } else {
                    Err(unexpected(at + m + 1, Expected::Separator))
                }
            },
        }
    }
}

/// An expression: the loosest level.
pub open spec fn expression(ts: Seq<Lexeme>, pos: int) -> Parsed<Tree>
    decreases left(ts, pos), 70nat,
{
    parse_level(ts, Level::Range, pos)
}

/// An expression of the given level.
///
/// Range, equality and relational take a left operand and, where one of
/// their operators follows, one right operand of the next level; the binary
/// levels between and below them take operands of the next level for as long
/// as one of their operators follows. A prefix operator takes a unary
/// expression. An exponent is a unary expression, an assigned value any
/// expression: both bind to the right.
pub open spec fn parse_level(ts: Seq<Lexeme>, level: Level, pos: int) -> Parsed<Tree>
    decreases left(ts, pos), 3 * height(level) + 12,
{
    match level {
        Level::Range | Level::Equality | Level::Relational => pair(ts, level, pos),
        Level::Or
        | Level::And
        | Level::BitOr
        | Level::BitXor
        | Level::BitAnd
        | Level::Shift
        | Level::Additive
        | Level::Multiplicative => chain(ts, level, pos),
        Level::Unary => prefix(ts, pos),
        Level::Exponent => power(ts, pos),
        Level::Assignment => assignment(ts, pos),
        Level::Call => call(ts, pos),
        Level::Member => access(ts, pos),
        Level::Atom => atom(ts, pos),
    }
}

/// A level that takes one operator at most: a left operand of the next
/// level and, where an operator of the level follows, a right one.
#[verifier::opaque]
pub open spec fn pair(ts: Seq<Lexeme>, level: Level, pos: int) -> Parsed<Tree>
    decreases left(ts, pos), 3 * height(level) + 11,
    when height(level) > 0
{
    match parse_level(ts, below(level), pos) {
        Err(f) => Err(f),
        Ok((l, m)) => {
            let operator = kind_at(ts, pos + m + 1);
            if has_operator(level, operator) {
                match parse_level(ts, below(level), pos + m + 2) {
                    Err(f) => Err(f),
                    Ok((r, k)) => Ok(
                        (
                            Tree::Pair {
                                level,
                                span: span(pos, m + k + 2),
                                left: Box::new(l),
                                right: Some((operator, Box::new(r))),
                            },
                            m + k + 2,
                        ),
                    ),
                }
            } else {
                Ok((Tree::Pair { level, span: span(pos, m), left: Box::new(l), right: None }, m))
            }
        },
    }
}

/// A level that takes operators one after the other: an operand of the
/// next level, and an operator of the level and a further operand for as
/// long as one follows.
#[verifier::opaque]
pub open spec fn chain(ts: Seq<Lexeme>, level: Level, pos: int) -> Parsed<Tree>
    decreases left(ts, pos), 3 * height(level) + 11,
    when height(level) > 0
{
    match parse_level(ts, below(level), pos) {
        Err(f) => Err(f),
        Ok((base, m)) => chain_rest(ts, level, pos, m, base, Seq::empty()),
    }
}

/// A unary expression: a prefix operator before another one, or an
/// exponentiation.
#[verifier::opaque]
pub open spec fn prefix(ts: Seq<Lexeme>, pos: int) -> Parsed<Tree>
    decreases left(ts, pos), 3 * height(Level::Unary) + 11,
{
    let operator = kind_at(ts, pos);
    if is_prefix(operator) {
        match parse_level(ts, Level::Unary, pos + 1) {
            Err(f) => Err(f),
            Ok((operand, m)) => Ok(
                (
                    Tree::Prefix { span: span(pos, m + 1), operator, operand: Box::new(operand) },
                    m + 1,
                ),
            ),
        }
    } else {
        parse_level(ts, Level::Exponent, pos)
    }
}

/// `base`, or `base ** exponent` with a unary expression as the exponent.
#[verifier::opaque]
pub open spec fn power(ts: Seq<Lexeme>, pos: int) -> Parsed<Tree>
    decreases left(ts, pos), 3 * height(Level::Exponent) + 11,
{
    match parse_level(ts, Level::Assignment, pos) {
        Err(f) => Err(f),
        Ok((base, m)) => if kind_at(ts, pos + m + 1) == TokenType::StarStar {
            match parse_level(ts, Level::Unary, pos + m + 2) {
                Err(f) => Err(f),
                Ok((exponent, k)) => Ok(
                    (
                        Tree::Power {
                            span: span(pos, m + k + 2),
                            base: Box::new(base),
                            exponent: Some(Box::new(exponent)),
                        },
                        m + k + 2,
                    ),
                ),
            }
        } else {
            Ok((Tree::Power { span: span(pos, m), base: Box::new(base), exponent: None }, m))
        },
    }
}

/// `target`, or `target = value` with any expression as the value. What
/// stands left of an assignment operator has to be assignable.
#[verifier::opaque]
pub open spec fn assignment(ts: Seq<Lexeme>, pos: int) -> Parsed<Tree>
    decreases left(ts, pos), 3 * height(Level::Assignment) + 11,
{
    match parse_level(ts, Level::Call, pos) {
        Err(f) => Err(f),
        Ok((target, m)) => {
            let operator = kind_at(ts, pos + m + 1);
            if !is_assignment(operator) {
                Ok(
                    (
                        Tree::Assign { span: span(pos, m), target: Box::new(target), value: None },
                        m,
                    ),
                )
            } else if !assignable(target) {
                Err(Failure { first: pos, last: pos + m, expected: Expected::Target })
            } else {
                match parse_level(ts, Level::Range, pos + m + 2) {
                    Err(f) => Err(f),
                    Ok((value, k)) => Ok(
                        (
                            Tree::Assign {
                                span: span(pos, m + k + 2),
                                target: Box::new(target),
                                value: Some((operator, Box::new(value))),
                            },
                            m + k + 2,
                        ),
                    ),
                }
            }
        },
    }
}

/// `base`, or `base(arguments)` with fields and further argument lists
/// behind it.
#[verifier::opaque]
pub open spec fn call(ts: Seq<Lexeme>, pos: int) -> Parsed<Tree>
    decreases left(ts, pos), 3 * height(Level::Call) + 11,
{
    match parse_level(ts, Level::Member, pos) {
        Err(f) => Err(f),
        Ok((base, m)) => if kind_at(ts, pos + m + 1) == TokenType::LParen {
            match arguments(ts, pos + m + 1) {
                Err(f) => Err(f),
                Ok((first_arguments, k)) => call_rest(
                    ts,
                    pos,
                    m + k + 1,
                    base,
                    first_arguments,
                    Seq::empty(),
                ),
            }
        } else {
            Ok((Tree::Call { span: span(pos, m), base: Box::new(base), following: None }, m))
        },
    }
}

/// An atom and the fields behind it.
#[verifier::opaque]
pub open spec fn access(ts: Seq<Lexeme>, pos: int) -> Parsed<Tree>
    decreases left(ts, pos), 3 * height(Level::Member) + 11,
{
    match parse_level(ts, Level::Atom, pos) {
        Err(f) => Err(f),
        Ok((base, m)) => fields_rest(ts, pos, m, base, Seq::empty()),
    }
}

/// The operators and operands of a chain from behind `first + more` on,
/// behind those in `done`.
#[verifier::opaque]
pub open spec fn chain_rest(
    ts: Seq<Lexeme>,
    level: Level,
    first: int,
    more: nat,
    base: Tree,
    done: Seq<(TokenType, Tree)>,
) -> Parsed<Tree>
    decreases left(ts, first + more + 1), 3 * height(level) + 10,
    when height(level) > 0
{
    let operator = kind_at(ts, first + more + 1);
    if has_operator(level, operator) {
        match parse_level(ts, below(level), first + more + 2) {
            Err(f) => Err(f),
            Ok((operand, k)) => chain_rest(
                ts,
                level,
                first,
                more + k + 2,
                base,
                done.push((operator, operand)),
            ),
        }
    } else {
        Ok(
            (
                Tree::Chain { level, span: span(first, more), base: Box::new(base), following: done },
                more,
            ),
        )
    }
}

/// `(argument, argument)`, from the `(` at `pos` on.
#[verifier::opaque]
pub open spec fn arguments(ts: Seq<Lexeme>, pos: int) -> Parsed<Seq<Tree>>
    decreases left(ts, pos), 6nat,
{
    if kind_at(ts, pos) != TokenType::LParen {
        Err(unexpected(pos, Expected::Token(TokenType::LParen)))
    } else if kind_at(ts, pos + 1) == TokenType::RParen {
        Ok((Seq::empty(), 1))
    } else {
        arguments_rest(ts, pos, 1, Seq::empty())
    }
}

/// The arguments from `first + more` on, behind those in `done`.
#[verifier::opaque]
pub open spec fn arguments_rest(ts: Seq<Lexeme>, first: int, more: nat, done: Seq<Tree>) -> Parsed<
    Seq<Tree>,
>
    decreases left(ts, first + more), 100nat,
{
    let at = first + more;
    match expression(ts, at) {
        Err(f) => Err(f),
        Ok((e, m)) => {
            let behind = kind_at(ts, at + m + 1);
            if behind == TokenType::Comma {
                arguments_rest(ts, first, more + m + 2, done.push(e))
            } else if behind == TokenType::RParen {
                Ok((done.push(e), more + m + 1))
            } else {
                Err(unexpected(at + m + 1, Expected::Delimiter))
            }
        },
    }
}

/// The fields and argument lists of a call from behind `first + more` on,
/// behind those in `done`.
#[verifier::opaque]
pub open spec fn call_rest(
    ts: Seq<Lexeme>,
    first: int,
    more: nat,
    base: Tree,
    first_arguments: Seq<Tree>,
    done: Seq<Tree>,
) -> Parsed<Tree>
    decreases left(ts, first + more + 1), 8nat,
{
    let at = first + more + 1;
    let kind = kind_at(ts, at);
    if kind == TokenType::Dot {
        if kind_at(ts, at + 1) == TokenType::Identifier {
            call_rest(
                ts,
                first,
                more + 2,
                base,
                first_arguments,
                done.push(Tree::Field { name: text_at(ts, at + 1) }),
            )
        } else {
            Err(unexpected(at + 1, Expected::Token(TokenType::Identifier)))
        }
    } else if kind == TokenType::LParen {
        match arguments(ts, at) {
            Err(f) => Err(f),
            Ok((items, k)) => call_rest(
                ts,
                first,
                more + k + 1,
                base,
                first_arguments,
                done.push(Tree::Arguments { items }),
            ),
        }
    } else {
        Ok(
            (
                Tree::Call {
                    span: span(first, more),
                    base: Box::new(base),
                    following: Some((first_arguments, done)),
                },
                more,
            ),
        )
    }
}

/// The fields behind an atom from behind `first + more` on, behind those in
/// `done`.
#[verifier::opaque]
pub open spec fn fields_rest(
    ts: Seq<Lexeme>,
    first: int,
    more: nat,
    base: Tree,
    done: Seq<Seq<char>>,
) -> Parsed<Tree>
    decreases left(ts, first + more + 1), 8nat,
{
    let at = first + more + 1;
    if kind_at(ts, at) == TokenType::Dot {
        if kind_at(ts, at + 1) == TokenType::Identifier {
            fields_rest(ts, first, more + 2, base, done.push(text_at(ts, at + 1)))
        } else {
            Err(unexpected(at + 1, Expected::Token(TokenType::Identifier)))
        }
    } else {
        Ok((Tree::Access { span: span(first, more), base: Box::new(base), fields: done }, more))
    }
}

/// Whether a token of this kind is an atom by itself: a literal or a name.
pub open spec fn is_literal(kind: TokenType) -> bool {
    kind == TokenType::Number || kind == TokenType::String || kind == TokenType::True || kind
        == TokenType::False || kind == TokenType::Null || kind == TokenType::Identifier
}

/// The atom that the one token at `pos` is. A number has to be a literal
/// that a number holds exactly.
#[verifier::opaque]
pub open spec fn literal(ts: Seq<Lexeme>, pos: int) -> Parsed<Tree> {
    let kind = kind_at(ts, pos);
    if kind == TokenType::Number {
        if literal_value(text_at(ts, pos)) is Some {
            Ok((Tree::Number { text: text_at(ts, pos) }, 0))
        } else {
            Err(unexpected(pos, Expected::Literal))
        }
    } else if kind == TokenType::String {
        Ok((Tree::Text { text: text_at(ts, pos) }, 0))
    } else if kind == TokenType::True {
        Ok((Tree::Truth { value: true }, 0))
    } else if kind == TokenType::False {
        Ok((Tree::Truth { value: false }, 0))
    } else if kind == TokenType::Null {
        Ok((Tree::Null, 0))
    } else if kind == TokenType::Identifier {
        Ok((Tree::Name { span: span(pos, 0), name: text_at(ts, pos) }, 0))
    } else {
        Err(unexpected(pos, Expected::Expression))
    }
}

/// An atom: a literal, a name, an expression in parentheses, a block, or one
/// of the forms that start with a reserved word.
#[verifier::opaque]
pub open spec fn atom(ts: Seq<Lexeme>, pos: int) -> Parsed<Tree>
    decreases left(ts, pos), 11nat,
{
    let kind = kind_at(ts, pos);
    if is_literal(kind) {
        literal(ts, pos)
    } else if kind == TokenType::LParen {
        match expression(ts, pos + 1) {
            Err(f) => Err(f),
            Ok((inner, m)) => if kind_at(ts, pos + m + 2) == TokenType::RParen {
                Ok((Tree::Paren { inner: Box::new(inner) }, m + 2))
            } else {
                Err(unexpected(pos + m + 2, Expected::Token(TokenType::RParen)))
            },
        }
    } else if kind == TokenType::LBrace {
        braces(ts, pos)
    } else {
        form(ts, pos)
    }
}

/// One of the forms that start with a reserved word.
#[verifier::opaque]
pub open spec fn form(ts: Seq<Lexeme>, pos: int) -> Parsed<Tree>
    decreases left(ts, pos), 10nat,
{
    let kind = kind_at(ts, pos);
    if kind == TokenType::If {
        conditional(ts, pos)
    } else if kind == TokenType::For {
        for_loop(ts, pos)
    } else if kind == TokenType::While {
        while_loop(ts, pos)
    } else if kind == TokenType::Loop {
        endless_loop(ts, pos)
    } else if kind == TokenType::Fun {
        lambda(ts, pos)
    } else if kind == TokenType::Class {
        class_literal(ts, pos)
    } else if kind == TokenType::Try {
        attempt(ts, pos)
    } else {
        Err(unexpected(pos, Expected::Expression))
    }
}

/// `if condition then`, with `else otherwise` where an `else` follows.
#[verifier::opaque]
pub open spec fn conditional(ts: Seq<Lexeme>, pos: int) -> Parsed<Tree>
    decreases left(ts, pos), 9nat,
{
    if kind_at(ts, pos) != TokenType::If {
        Err(unexpected(pos, Expected::Token(TokenType::If)))
    } else {
        match expression(ts, pos + 1) {
            Err(f) => Err(f),
            Ok((condition, m)) => match block(ts, pos + m + 2) {
                Err(f) => Err(f),
                Ok((then, k)) => if kind_at(ts, pos + m + k + 3) == TokenType::Else {
                    match block(ts, pos + m + k + 4) {
                        Err(f) => Err(f),
                        Ok((otherwise, j)) => Ok(
                            (
                                Tree::If {
                                    span: span(pos, m + k + j + 4),
                                    condition: Box::new(condition),
                                    then: Box::new(then),
                                    otherwise: Some(Box::new(otherwise)),
                                },
                                m + k + j + 4,
                            ),
                        ),
                    }
                } else {
                    Ok(
                        (
                            Tree::If {
                                span: span(pos, m + k + 2),
                                condition: Box::new(condition),
                                then: Box::new(then),
                                otherwise: None,
                            },
                            m + k + 2,
                        ),
                    )
                },
            },
        }
    }
}

/// `for name in iter body`
#[verifier::opaque]
pub open spec fn for_loop(ts: Seq<Lexeme>, pos: int) -> Parsed<Tree>
    decreases left(ts, pos), 9nat,
{
    if kind_at(ts, pos) != TokenType::For {
        Err(unexpected(pos, Expected::Token(TokenType::For)))
    } else if kind_at(ts, pos + 1) != TokenType::Identifier {
        Err(unexpected(pos + 1, Expected::Token(TokenType::Identifier)))
    } else if kind_at(ts, pos + 2) != TokenType::In {
        Err(unexpected(pos + 2, Expected::Token(TokenType::In)))
    } else {
        match expression(ts, pos + 3) {
            Err(f) => Err(f),
            Ok((iter, m)) => match block(ts, pos + m + 4) {
                Err(f) => Err(f),
                Ok((body, k)) => Ok(
                    (
                        Tree::For {
                            span: span(pos, m + k + 4),
                            name: text_at(ts, pos + 1),
                            iter: Box::new(iter),
                            body: Box::new(body),
                        },
                        m + k + 4,
                    ),
                ),
            },
        }
    }
}

/// `while condition body`
#[verifier::opaque]
pub open spec fn while_loop(ts: Seq<Lexeme>, pos: int) -> Parsed<Tree>
    decreases left(ts, pos), 9nat,
{
    if kind_at(ts, pos) != TokenType::While {
        Err(unexpected(pos, Expected::Token(TokenType::While)))
    } else {
        match expression(ts, pos + 1) {
            Err(f) => Err(f),
            Ok((condition, m)) => match block(ts, pos + m + 2) {
                Err(f) => Err(f),
                Ok((body, k)) => Ok(
                    (
                        Tree::While {
                            span: span(pos, m + k + 2),
                            condition: Box::new(condition),
                            body: Box::new(body),
                        },
                        m + k + 2,
                    ),
                ),
            },
        }
    }
}

/// `loop body`
#[verifier::opaque]
pub open spec fn endless_loop(ts: Seq<Lexeme>, pos: int) -> Parsed<Tree>
    decreases left(ts, pos), 9nat,
{
    if kind_at(ts, pos) != TokenType::Loop {
        Err(unexpected(pos, Expected::Token(TokenType::Loop)))
    } else {
        match block(ts, pos + 1) {
            Err(f) => Err(f),
            Ok((body, k)) => Ok((Tree::Loop { span: span(pos, k + 1), body: Box::new(body) }, k + 1)),
        }
    }
}

/// `class body`
#[verifier::opaque]
pub open spec fn class_literal(ts: Seq<Lexeme>, pos: int) -> Parsed<Tree>
    decreases left(ts, pos), 9nat,
{
    if kind_at(ts, pos) != TokenType::Class {
        Err(unexpected(pos, Expected::Token(TokenType::Class)))
    } else {
        match members(ts, pos + 1) {
            Err(f) => Err(f),
            Ok((body, m)) => Ok(
                (Tree::ClassLiteral { span: span(pos, m + 1), body: Box::new(body) }, m + 1),
            ),
        }
    }
}

/// `fun (params) body`
#[verifier::opaque]
pub open spec fn lambda(ts: Seq<Lexeme>, pos: int) -> Parsed<Tree>
    decreases left(ts, pos), 9nat,
{
    if kind_at(ts, pos) != TokenType::Fun {
        Err(unexpected(pos, Expected::Token(TokenType::Fun)))
    } else {
        match names(ts, pos + 1) {
            Err(f) => Err(f),
            Ok((params, m)) => match block(ts, pos + m + 2) {
                Err(f) => Err(f),
                Ok((body, k)) => Ok(
                    (
                        Tree::Lambda { span: span(pos, m + k + 2), params, body: Box::new(body) },
                        m + k + 2,
                    ),
                ),
            },
        }
    }
}

/// `try body catch name handler`
#[verifier::opaque]
pub open spec fn attempt(ts: Seq<Lexeme>, pos: int) -> Parsed<Tree>
    decreases left(ts, pos), 9nat,
{
    if kind_at(ts, pos) != TokenType::Try {
        Err(unexpected(pos, Expected::Token(TokenType::Try)))
    } else {
        match block(ts, pos + 1) {
            Err(f) => Err(f),
            Ok((body, k)) => if kind_at(ts, pos + k + 2) != TokenType::Catch {
                Err(unexpected(pos + k + 2, Expected::Token(TokenType::Catch)))
            } else if kind_at(ts, pos + k + 3) != TokenType::Identifier {
                Err(unexpected(pos + k + 3, Expected::Token(TokenType::Identifier)))
            } else {
                match block(ts, pos + k + 4) {
                    Err(f) => Err(f),
                    Ok((handler, j)) => Ok(
                        (
                            Tree::Try {
                                span: span(pos, k + j + 4),
                                body: Box::new(body),
                                name: text_at(ts, pos + k + 3),
                                handler: Box::new(handler),
                            },
                            k + j + 4,
                        ),
                    ),
                }
            },
        }
    }
}

/// Range, equality and relational do not chain: the tree of such a level
/// is one left operand and at most one operator of the level with its right
/// operand.
pub proof fn lemma_takes_one_operator(ts: Seq<Lexeme>, level: Level, pos: int)
    requires
        level is Range || level is Equality || level is Relational,
    ensures
        match parse_level(ts, level, pos) {
            Ok((tree, more)) => {
                &&& tree is Pair
                &&& tree->Pair_level == level
                &&& match tree->Pair_right {
                    Some((operator, _)) => has_operator(level, operator),
                    None => !has_operator(level, kind_at(ts, pos + more + 1)),
                }
            },
            Err(_) => true,
        },
{
    reveal(pair);
}

} // verus!
