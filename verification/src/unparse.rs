//! Writing a tree back as tokens, and the proof that parsing loses nothing:
//! the tokens that a tree is written as are the tokens it was read from.

use crate::grammar::{
    access, arguments, arguments_rest, assignment, atom, attempt, below, block, braces,
    braces_rest, break_statement, call, call_rest, chain, chain_rest, class_declaration,
    class_literal, conditional, continue_statement, ending, endless_loop, expression,
    fields_rest, for_loop, form, function, has_operator, height, is_assignment, is_literal,
    is_prefix, kind_at, lambda, left, literal, member, members, members_rest, names, names_rest,
    pair, parse_level, power, prefix, program, program_rest, return_statement, starts_statement,
    statement, text_at, variable, while_loop, Failure, Level, Parsed, Tree,
};
use crate::tokens::{carries_text, lexemes, Lexeme, Token, TokenType};
use vstd::prelude::*;

verus! {

/// The token of a kind that has one spelling only.
pub open spec fn fixed(kind: TokenType) -> Lexeme {
    Lexeme { kind, text: Seq::empty() }
}

/// The token of a name.
pub open spec fn word(name: Seq<char>) -> Lexeme {
    Lexeme { kind: TokenType::Identifier, text: name }
}

/// The tokens that a tree is written as.
pub open spec fn tokens_of(tree: Tree) -> Seq<Lexeme>
    decreases tree, 0nat,
{
    match tree {
        Tree::Var { name, value, .. } => seq![
            fixed(TokenType::Var),
            word(name),
            fixed(TokenType::Assign),
        ] + tokens_of(*value) + seq![fixed(TokenType::Semicolon)],
        Tree::Function { name, params, body, .. } => seq![fixed(TokenType::Fun), word(name)]
            + names_of(params) + tokens_of(*body),
        Tree::Class { name, body, .. } => seq![fixed(TokenType::Class), word(name)] + tokens_of(
            *body,
        ),
        Tree::Break { value, .. } => seq![fixed(TokenType::Break)] + (match value {
            Some(v) => tokens_of(*v),
            None => Seq::empty(),
        }) + seq![fixed(TokenType::Semicolon)],
        Tree::Continue { .. } => seq![fixed(TokenType::Continue), fixed(TokenType::Semicolon)],
        Tree::Return { value, .. } => seq![fixed(TokenType::Return)] + (match value {
            Some(v) => tokens_of(*v),
            None => Seq::empty(),
        }) + seq![fixed(TokenType::Semicolon)],
        Tree::Expr { expr } => tokens_of(*expr) + seq![fixed(TokenType::Semicolon)],
        Tree::Members { members, .. } => seq![fixed(TokenType::LBrace)] + each(members) + seq![
            fixed(TokenType::RBrace),
        ],
        Tree::Member { is_static, item, .. } => (if is_static {
            seq![fixed(TokenType::Static)]
        } else {
            Seq::empty()
        }) + tokens_of(*item),
        Tree::Braces { statements, value, .. } => seq![fixed(TokenType::LBrace)] + each(statements)
            + (match value {
            Some(v) => tokens_of(*v),
            None => Seq::empty(),
        }) + seq![fixed(TokenType::RBrace)],
        Tree::Pair { left, right, .. } => tokens_of(*left) + (match right {
            Some((operator, r)) => seq![fixed(operator)] + tokens_of(*r),
            None => Seq::empty(),
        }),
        Tree::Chain { base, following, .. } => tokens_of(*base) + operands(following),
        Tree::Prefix { operator, operand, .. } => seq![fixed(operator)] + tokens_of(*operand),
        Tree::Power { base, exponent, .. } => tokens_of(*base) + (match exponent {
            Some(e) => seq![fixed(TokenType::StarStar)] + tokens_of(*e),
            None => Seq::empty(),
        }),
        Tree::Assign { target, value, .. } => tokens_of(*target) + (match value {
            Some((operator, v)) => seq![fixed(operator)] + tokens_of(*v),
            None => Seq::empty(),
        }),
        Tree::Call { base, following, .. } => tokens_of(*base) + (match following {
            Some((first, parts)) => list(first) + each(parts),
            None => Seq::empty(),
        }),
        Tree::Field { name } => seq![fixed(TokenType::Dot), word(name)],
        Tree::Arguments { items } => list(items),
        Tree::Access { base, fields, .. } => tokens_of(*base) + fields_of(fields),
        Tree::Number { text } => seq![Lexeme { kind: TokenType::Number, text }],
        Tree::Text { text } => seq![Lexeme { kind: TokenType::String, text }],
        Tree::Truth { value } => seq![
            fixed(
                if value {
                    TokenType::True
                } else {
                    TokenType::False
                },
            ),
        ],
        Tree::Null => seq![fixed(TokenType::Null)],
        Tree::Name { name, .. } => seq![word(name)],
        Tree::Paren { inner } => seq![fixed(TokenType::LParen)] + tokens_of(*inner) + seq![
            fixed(TokenType::RParen),
        ],
        Tree::If { condition, then, otherwise, .. } => seq![fixed(TokenType::If)] + tokens_of(
            *condition,
        ) + tokens_of(*then) + (match otherwise {
            Some(o) => seq![fixed(TokenType::Else)] + tokens_of(*o),
            None => Seq::empty(),
        }),
        Tree::For { name, iter, body, .. } => seq![
            fixed(TokenType::For),
            word(name),
            fixed(TokenType::In),
        ] + tokens_of(*iter) + tokens_of(*body),
        Tree::While { condition, body, .. } => seq![fixed(TokenType::While)] + tokens_of(
            *condition,
        ) + tokens_of(*body),
        Tree::Loop { body, .. } => seq![fixed(TokenType::Loop)] + tokens_of(*body),
        Tree::Lambda { params, body, .. } => seq![fixed(TokenType::Fun)] + names_of(params)
            + tokens_of(*body),
        Tree::ClassLiteral { body, .. } => seq![fixed(TokenType::Class)] + tokens_of(*body),
        Tree::Try { body, name, handler, .. } => seq![fixed(TokenType::Try)] + tokens_of(*body)
            + seq![fixed(TokenType::Catch), word(name)] + tokens_of(*handler),
    }
}

/// The tokens of the trees, one after the other.
pub open spec fn each(trees: Seq<Tree>) -> Seq<Lexeme>
    decreases trees, 0nat,
{
    if trees.len() == 0 {
        Seq::empty()
    } else {
        each(trees.drop_last()) + tokens_of(trees.last())
    }
}

/// The tokens of the trees, with a comma behind each.
pub open spec fn commas(trees: Seq<Tree>) -> Seq<Lexeme>
    decreases trees, 0nat,
{
    if trees.len() == 0 {
        Seq::empty()
    } else {
        commas(trees.drop_last()) + tokens_of(trees.last()) + seq![fixed(TokenType::Comma)]
    }
}

/// The trees as a list in parentheses, with commas between them.
pub open spec fn list(trees: Seq<Tree>) -> Seq<Lexeme>
    decreases trees, 1nat,
{
    seq![fixed(TokenType::LParen)] + (if trees.len() == 0 {
        Seq::empty()
    } else {
        commas(trees.drop_last()) + tokens_of(trees.last())
    }) + seq![fixed(TokenType::RParen)]
}

/// The operators with their operands, one after the other.
pub open spec fn operands(following: Seq<(TokenType, Tree)>) -> Seq<Lexeme>
    decreases following, 0nat,
{
    if following.len() == 0 {
        Seq::empty()
    } else {
        operands(following.drop_last()) + seq![fixed(following.last().0)] + tokens_of(
            following.last().1,
        )
    }
}

/// The names, with a comma behind each.
pub open spec fn name_commas(names: Seq<Seq<char>>) -> Seq<Lexeme>
    decreases names.len(),
{
    if names.len() == 0 {
        Seq::empty()
    } else {
        name_commas(names.drop_last()) + seq![word(names.last()), fixed(TokenType::Comma)]
    }
}

/// The names as a list in parentheses, with commas between them.
pub open spec fn names_of(names: Seq<Seq<char>>) -> Seq<Lexeme> {
    seq![fixed(TokenType::LParen)] + (if names.len() == 0 {
        Seq::empty()
    } else {
        name_commas(names.drop_last()) + seq![word(names.last())]
    }) + seq![fixed(TokenType::RParen)]
}

/// The fields, each with a point before it.
pub open spec fn fields_of(fields: Seq<Seq<char>>) -> Seq<Lexeme>
    decreases fields.len(),
{
    if fields.len() == 0 {
        Seq::empty()
    } else {
        fields_of(fields.drop_last()) + seq![fixed(TokenType::Dot), word(fields.last())]
    }
}

/// Only the tokens that differ by their text carry one.
pub open spec fn normal(ts: Seq<Lexeme>) -> bool {
    forall|i: int| 0 <= i < ts.len() && !carries_text(#[trigger] ts[i].kind) ==> ts[i].text == Seq::<char>::empty()
}

/// The count that a production gave, or none.
pub open spec fn more_of<T>(r: Parsed<T>) -> nat {
    match r {
        Ok((_, more)) => more,
        Err(_) => 0,
    }
}

/// The token of the name at `i`.
pub open spec fn word_at(ts: Seq<Lexeme>, i: int) -> Lexeme {
    word(text_at(ts, i))
}

/// None of the tokens `from..to` is the end of the input.
pub open spec fn solid(ts: Seq<Lexeme>, from: int, to: int) -> bool {
    forall|i: int| from <= i < to && 0 <= i < ts.len() ==> (#[trigger] ts[i]).kind != TokenType::Eof
}

/// The first index from `i` on at which the input ends.
pub open spec fn first_end(ts: Seq<Lexeme>, i: int) -> int
    decreases ts.len() - i,
{
    if i < 0 || i >= ts.len() || ts[i].kind == TokenType::Eof {
        i
    } else {
        first_end(ts, i + 1)
    }
}

/// Over tokens that are not the end, the end is looked for behind them.
#[verifier::spinoff_prover]
pub proof fn lemma_first_end(ts: Seq<Lexeme>, from: int, to: int)
    requires
        0 <= from <= to <= ts.len(),
        solid(ts, from, to),
    ensures
        first_end(ts, from) == first_end(ts, to),
        from <= first_end(ts, from) <= ts.len(),
    decreases to - from,
{
    if from < to {
        assert(ts[from].kind != TokenType::Eof);
        lemma_first_end(ts, from + 1, to);
    } else {
        lemma_first_end_bounds(ts, from);
    }
}

/// The end is found within the tokens or right behind them.
#[verifier::spinoff_prover]
pub proof fn lemma_first_end_bounds(ts: Seq<Lexeme>, i: int)
    requires
        0 <= i <= ts.len(),
    ensures
        i <= first_end(ts, i) <= ts.len(),
        kind_at(ts, first_end(ts, i)) == TokenType::Eof,
    decreases ts.len() - i,
{
    if i < ts.len() && ts[i].kind != TokenType::Eof {
        lemma_first_end_bounds(ts, i + 1);
    }
}

/// Sequences are joined in any grouping.
#[verifier::spinoff_prover]
pub proof fn lemma_assoc(a: Seq<Lexeme>, b: Seq<Lexeme>, c: Seq<Lexeme>)
    ensures
        a + (b + c) == (a + b) + c,
{
    assert(a + (b + c) =~= (a + b) + c);
}

/// What was read is what is written: where `r` is a tree with a count, the
/// phrase lies within the tokens, holds no end of the input, and the tree is
/// written as the phrase.
pub open spec fn spells(ts: Seq<Lexeme>, pos: int, r: Parsed<Tree>) -> bool {
    match r {
        Ok((tree, more)) => 0 <= pos && pos + more < ts.len() && solid(ts, pos, pos + more + 1)
            && tokens_of(tree) == ts.subrange(pos, pos + more + 1),
        Err(_) => true,
    }
}

/// As `spells`, of a list in parentheses.
pub open spec fn spells_list(ts: Seq<Lexeme>, pos: int, r: Parsed<Seq<Tree>>) -> bool {
    match r {
        Ok((trees, more)) => 0 <= pos && pos + more < ts.len() && solid(ts, pos, pos + more + 1)
            && list(trees) == ts.subrange(pos, pos + more + 1),
        Err(_) => true,
    }
}

/// As `spells`, of a list of names in parentheses.
pub open spec fn spells_names(ts: Seq<Lexeme>, pos: int, r: Parsed<Seq<Seq<char>>>) -> bool {
    match r {
        Ok((found, more)) => 0 <= pos && pos + more < ts.len() && solid(ts, pos, pos + more + 1)
            && names_of(found) == ts.subrange(pos, pos + more + 1),
        Err(_) => true,
    }
}

/// As `spells`, of what ends a `break` or a `return`: the value is written
/// as the tokens before the `;`.
pub open spec fn spells_ending(ts: Seq<Lexeme>, pos: int, r: Parsed<Option<Box<Tree>>>) -> bool {
    match r {
        Ok((value, more)) => 0 <= pos && pos + more < ts.len() && solid(ts, pos, pos + more + 1)
            && kind_at(ts, pos + more) == TokenType::Semicolon && (match value {
            Some(v) => tokens_of(*v),
            None => Seq::empty(),
        }) == ts.subrange(pos, pos + more),
        Err(_) => true,
    }
}

/// A list of names is written as it was read.
#[verifier::spinoff_prover]
pub proof fn lemma_names(ts: Seq<Lexeme>, pos: int)
    requires
        normal(ts),
    ensures
        spells_names(ts, pos, names(ts, pos)),
{
    reveal(names);
    if kind_at(ts, pos) == TokenType::LParen {
        if kind_at(ts, pos + 1) == TokenType::RParen {
            assert(seq![fixed(TokenType::LParen)] + Seq::<Lexeme>::empty() + seq![fixed(TokenType::RParen)] =~= ts.subrange(pos, pos + 2));
        } else {
            assert(seq![fixed(TokenType::LParen)] + Seq::<Lexeme>::empty() =~= ts.subrange(pos, pos + 1));
            lemma_names_rest(ts, pos, 1, Seq::empty());
        }
    }
}

/// The names from `first + more` on, behind those in `done`.
#[verifier::spinoff_prover]
pub proof fn lemma_names_rest(ts: Seq<Lexeme>, first: int, more: nat, done: Seq<Seq<char>>)
    requires
        normal(ts),
        0 <= first,
        first + more <= ts.len(),
        solid(ts, first, first + more),
        seq![fixed(TokenType::LParen)] + name_commas(done) == ts.subrange(first, first + more),
    ensures
        spells_names(ts, first, names_rest(ts, first, more, done)),
    decreases left(ts, first + more),
{
    reveal(names_rest);
    let at = first + more;
    if kind_at(ts, at) == TokenType::Identifier {
        let now = done.push(text_at(ts, at));
        assert(now.drop_last() == done);
        if kind_at(ts, at + 1) == TokenType::Comma {
            lemma_assoc(seq![fixed(TokenType::LParen)], name_commas(done), seq![word_at(ts, at), fixed(TokenType::Comma)]);
            assert(ts.subrange(first, at) + seq![word_at(ts, at), fixed(TokenType::Comma)] =~= ts.subrange(first, at + 2));
            lemma_names_rest(ts, first, more + 2, now);
        } else if kind_at(ts, at + 1) == TokenType::RParen {
            lemma_assoc(seq![fixed(TokenType::LParen)], name_commas(done), seq![word_at(ts, at)]);
            assert(ts.subrange(first, at) + seq![word_at(ts, at)] + seq![fixed(TokenType::RParen)] =~= ts.subrange(first, at + 2));
        }
    }
}

/// A program is written as it was read: where the tokens from `pos` on are
/// statements up to the end of the input, the statements are written as the
/// tokens before that end.
#[verifier::spinoff_prover]
pub proof fn lemma_program_rest(ts: Seq<Lexeme>, pos: int, done: Seq<Tree>)
    requires
        normal(ts),
        0 <= pos <= ts.len(),
    ensures
        match program_rest(ts, pos, done) {
            Ok(trees) => pos <= first_end(ts, pos) <= ts.len() && each(trees) == each(done) + ts.subrange(
                pos,
                first_end(ts, pos),
            ),
            Err(_) => true,
        },
    decreases left(ts, pos), 100nat,
{
    reveal(program_rest);
    if kind_at(ts, pos) == TokenType::Eof {
        assert(each(done) + ts.subrange(pos, pos) =~= each(done));
    } else {
        lemma_statement(ts, pos);
        match statement(ts, pos) {
            Ok((s, m)) => {
                let now = done.push(s);
                assert(now.drop_last() == done);
                lemma_first_end(ts, pos, pos + m + 1);
                lemma_first_end_bounds(ts, pos + m + 1);
                lemma_program_rest(ts, pos + m + 1, now);
                let end = first_end(ts, pos);
                lemma_assoc(each(done), ts.subrange(pos, pos + m + 1), ts.subrange(pos + m + 1, end));
                assert(ts.subrange(pos, pos + m + 1) + ts.subrange(pos + m + 1, end) =~= ts.subrange(pos, end));
            },
            Err(_) => {},
        }
    }
}

/// A statement is written as it was read.
#[verifier::spinoff_prover]
pub proof fn lemma_statement(ts: Seq<Lexeme>, pos: int)
    requires
        normal(ts),
    ensures
        spells(ts, pos, statement(ts, pos)),
    decreases left(ts, pos), 80nat,
{
    reveal(statement);
    let kind = kind_at(ts, pos);
    if kind == TokenType::Var {
        lemma_variable(ts, pos);
    } else if kind == TokenType::Fun && kind_at(ts, pos + 1) == TokenType::Identifier {
        lemma_function(ts, pos);
    } else if kind == TokenType::Class && kind_at(ts, pos + 1) == TokenType::Identifier {
        lemma_class_declaration(ts, pos);
    } else if kind == TokenType::Break {
        lemma_break_statement(ts, pos);
    } else if kind == TokenType::Return {
        lemma_return_statement(ts, pos);
    } else if kind == TokenType::Continue {
        reveal(continue_statement);
        if kind_at(ts, pos + 1) == TokenType::Semicolon {
            assert(seq![fixed(TokenType::Continue), fixed(TokenType::Semicolon)] =~= ts.subrange(pos, pos + 2));
        }
    } else {
        lemma_expression(ts, pos);
        match expression(ts, pos) {
            Ok((e, m)) => {
                if kind_at(ts, pos + m + 1) == TokenType::Semicolon {
                    assert(ts.subrange(pos, pos + m + 1) + seq![fixed(TokenType::Semicolon)] =~= ts.subrange(pos, pos + m + 2));
                }
            },
            Err(_) => {},
        }
    }
}

/// A class is written as it was read.
#[verifier::spinoff_prover]
pub proof fn lemma_class_declaration(ts: Seq<Lexeme>, pos: int)
    requires
        normal(ts),
    ensures
        spells(ts, pos, class_declaration(ts, pos)),
    decreases left(ts, pos), 75nat,
{
    reveal(class_declaration);
    if kind_at(ts, pos) == TokenType::Class && kind_at(ts, pos + 1) == TokenType::Identifier {
        lemma_members(ts, pos + 2);
        match members(ts, pos + 2) {
            Ok((body, m)) => {
                assert(seq![fixed(TokenType::Class), word_at(ts, pos + 1)] + ts.subrange(pos + 2, pos + m + 3) =~= ts.subrange(pos, pos + m + 3));
            },
            Err(_) => {},
        }
    }
}

/// A `break` is written as it was read.
#[verifier::spinoff_prover]
pub proof fn lemma_break_statement(ts: Seq<Lexeme>, pos: int)
    requires
        normal(ts),
    ensures
        spells(ts, pos, break_statement(ts, pos)),
    decreases left(ts, pos), 75nat,
{
    reveal(break_statement);
    if kind_at(ts, pos) == TokenType::Break {
        lemma_ending(ts, pos + 1);
        match ending(ts, pos + 1) {
            Ok((value, m)) => {
                assert(seq![fixed(TokenType::Break)] + ts.subrange(pos + 1, pos + m + 1) + seq![fixed(TokenType::Semicolon)] =~= ts.subrange(
                    pos,
                    pos + m + 2,
                ));
            },
            Err(_) => {},
        }
    }
}

/// A `return` is written as it was read.
#[verifier::spinoff_prover]
pub proof fn lemma_return_statement(ts: Seq<Lexeme>, pos: int)
    requires
        normal(ts),
    ensures
        spells(ts, pos, return_statement(ts, pos)),
    decreases left(ts, pos), 75nat,
{
    reveal(return_statement);
    if kind_at(ts, pos) == TokenType::Return {
        lemma_ending(ts, pos + 1);
        match ending(ts, pos + 1) {
            Ok((value, m)) => {
                assert(seq![fixed(TokenType::Return)] + ts.subrange(pos + 1, pos + m + 1) + seq![fixed(TokenType::Semicolon)] =~= ts.subrange(
                    pos,
                    pos + m + 2,
                ));
            },
            Err(_) => {},
        }
    }
}

/// What ends a `break` or a `return` is written as it was read.
#[verifier::spinoff_prover]
pub proof fn lemma_ending(ts: Seq<Lexeme>, pos: int)
    requires
        normal(ts),
    ensures
        spells_ending(ts, pos, ending(ts, pos)),
    decreases left(ts, pos), 72nat,
{
    reveal(ending);
    if kind_at(ts, pos) == TokenType::Semicolon {
        assert(Seq::<Lexeme>::empty() =~= ts.subrange(pos, pos));
    } else {
        lemma_expression(ts, pos);
    }
}

/// A declaration of a variable is written as it was read.
#[verifier::spinoff_prover]
pub proof fn lemma_variable(ts: Seq<Lexeme>, pos: int)
    requires
        normal(ts),
        kind_at(ts, pos) == TokenType::Var,
    ensures
        spells(ts, pos, variable(ts, pos)),
    decreases left(ts, pos), 75nat,
{
    reveal(variable);
    if kind_at(ts, pos + 1) == TokenType::Identifier && kind_at(ts, pos + 2) == TokenType::Assign {
        lemma_expression(ts, pos + 3);
        match expression(ts, pos + 3) {
            Ok((value, m)) => {
                if kind_at(ts, pos + m + 4) == TokenType::Semicolon {
                    assert(seq![fixed(TokenType::Var), word_at(ts, pos + 1), fixed(TokenType::Assign)] + ts.subrange(pos + 3, pos + m + 4) + seq![
                        fixed(TokenType::Semicolon),
                    ] =~= ts.subrange(pos, pos + m + 5));
                }
            },
            Err(_) => {},
        }
    }
}

/// A declaration of a function is written as it was read.
#[verifier::spinoff_prover]
pub proof fn lemma_function(ts: Seq<Lexeme>, pos: int)
    requires
        normal(ts),
        kind_at(ts, pos) == TokenType::Fun,
    ensures
        spells(ts, pos, function(ts, pos)),
    decreases left(ts, pos), 75nat,
{
    reveal(function);
    if kind_at(ts, pos + 1) == TokenType::Identifier {
        lemma_names(ts, pos + 2);
        match names(ts, pos + 2) {
            Ok((params, m)) => {
                lemma_block(ts, pos + m + 3);
                match block(ts, pos + m + 3) {
                    Ok((body, k)) => {
                        assert(seq![fixed(TokenType::Fun), word_at(ts, pos + 1)] + ts.subrange(pos + 2, pos + m + 3) + ts.subrange(
                            pos + m + 3,
                            pos + m + k + 4,
                        ) =~= ts.subrange(pos, pos + m + k + 4));
                    },
                    Err(_) => {},
                }
            },
            Err(_) => {},
        }
    }
}

/// The body of a class is written as it was read.
#[verifier::spinoff_prover]
pub proof fn lemma_members(ts: Seq<Lexeme>, pos: int)
    requires
        normal(ts),
    ensures
        spells(ts, pos, members(ts, pos)),
    decreases left(ts, pos), 5nat,
{
    reveal(members);
    if kind_at(ts, pos) == TokenType::LBrace {
        assert(seq![fixed(TokenType::LBrace)] + Seq::<Lexeme>::empty() =~= ts.subrange(pos, pos + 1));
        lemma_members_rest(ts, pos, 1, Seq::empty());
    }
}

/// The members from `first + more` on, behind those in `done`.
#[verifier::spinoff_prover]
pub proof fn lemma_members_rest(ts: Seq<Lexeme>, first: int, more: nat, done: Seq<Tree>)
    requires
        normal(ts),
        0 <= first,
        first + more <= ts.len(),
        solid(ts, first, first + more),
        seq![fixed(TokenType::LBrace)] + each(done) == ts.subrange(first, first + more),
    ensures
        spells(ts, first, members_rest(ts, first, more, done)),
    decreases left(ts, first + more), 100nat,
{
    reveal(members_rest);
    let at = first + more;
    let kind = kind_at(ts, at);
    if kind == TokenType::RBrace {
        assert(ts.subrange(first, at) + seq![fixed(TokenType::RBrace)] =~= ts.subrange(first, at + 1));
    } else if kind == TokenType::Static || kind == TokenType::Var || kind == TokenType::Fun {
        lemma_member(ts, at);
        match member(ts, at) {
            Ok((item, m)) => {
                let now = done.push(item);
                assert(now.drop_last() == done);
                lemma_assoc(seq![fixed(TokenType::LBrace)], each(done), tokens_of(item));
                assert(ts.subrange(first, at) + ts.subrange(at, at + m + 1) =~= ts.subrange(first, at + m + 1));
                lemma_members_rest(ts, first, more + m + 1, now);
            },
            Err(_) => {},
        }
    }
}

/// A member of a class is written as it was read.
#[verifier::spinoff_prover]
pub proof fn lemma_member(ts: Seq<Lexeme>, pos: int)
    requires
        normal(ts),
    ensures
        spells(ts, pos, member(ts, pos)),
    decreases left(ts, pos), 78nat,
{
    reveal(member);
    let lead: nat = if kind_at(ts, pos) == TokenType::Static {
        1
    } else {
        0
    };
    let kind = kind_at(ts, pos + lead);
    if kind == TokenType::Var || kind == TokenType::Fun {
        if kind == TokenType::Var {
            lemma_variable(ts, pos + lead);
        } else {
            lemma_function(ts, pos + lead);
        }
        let m = more_of(
            if kind == TokenType::Var {
                variable(ts, pos + lead)
            } else {
                function(ts, pos + lead)
            },
        );
        if lead == 1 {
            assert(seq![fixed(TokenType::Static)] + ts.subrange(pos + 1, pos + m + 2) =~= ts.subrange(pos, pos + m + 2));
        } else {
            assert(Seq::<Lexeme>::empty() + ts.subrange(pos, pos + m + 1) =~= ts.subrange(pos, pos + m + 1));
        }
    }
}

/// A body is written as it was read.
#[verifier::spinoff_prover]
pub proof fn lemma_block(ts: Seq<Lexeme>, pos: int)
    requires
        normal(ts),
    ensures
        spells(ts, pos, block(ts, pos)),
    decreases left(ts, pos), 90nat,
{
    reveal(block);
    if kind_at(ts, pos) == TokenType::LBrace {
        lemma_braces(ts, pos);
    } else {
        lemma_statement(ts, pos);
    }
}

/// A block in braces is written as it was read.
#[verifier::spinoff_prover]
pub proof fn lemma_braces(ts: Seq<Lexeme>, pos: int)
    requires
        normal(ts),
    ensures
        spells(ts, pos, braces(ts, pos)),
    decreases left(ts, pos), 5nat,
{
    reveal(braces);
    if kind_at(ts, pos) == TokenType::LBrace {
        assert(seq![fixed(TokenType::LBrace)] + Seq::<Lexeme>::empty() =~= ts.subrange(pos, pos + 1));
        lemma_braces_rest(ts, pos, 1, Seq::empty());
    }
}

/// The inside of a block from `first + more` on, behind the statements in
/// `done`.
#[verifier::spinoff_prover]
pub proof fn lemma_braces_rest(ts: Seq<Lexeme>, first: int, more: nat, done: Seq<Tree>)
    requires
        normal(ts),
        0 <= first,
        first + more <= ts.len(),
        solid(ts, first, first + more),
        seq![fixed(TokenType::LBrace)] + each(done) == ts.subrange(first, first + more),
    ensures
        spells(ts, first, braces_rest(ts, first, more, done)),
    decreases left(ts, first + more), 100nat,
{
    reveal(braces_rest);
    let at = first + more;
    let kind = kind_at(ts, at);
    if kind == TokenType::RBrace {
        assert(ts.subrange(first, at) + Seq::<Lexeme>::empty() + seq![fixed(TokenType::RBrace)] =~= ts.subrange(first, at + 1));
    } else if kind == TokenType::Eof {
    } else if starts_statement(ts, at) {
        lemma_statement(ts, at);
        match statement(ts, at) {
            Ok((s, m)) => {
                let now = done.push(s);
                assert(now.drop_last() == done);
                lemma_assoc(seq![fixed(TokenType::LBrace)], each(done), tokens_of(s));
                assert(ts.subrange(first, at) + ts.subrange(at, at + m + 1) =~= ts.subrange(first, at + m + 1));
                lemma_braces_rest(ts, first, more + m + 1, now);
            },
            Err(_) => {},
        }
    } else {
        lemma_expression(ts, at);
        match expression(ts, at) {
            Ok((e, m)) => {
                let behind = kind_at(ts, at + m + 1);
                if behind == TokenType::Semicolon {
                    let s = Tree::Expr { expr: Box::new(e) };
                    let now = done.push(s);
                    assert(now.drop_last() == done);
                    assert(ts.subrange(at, at + m + 1) + seq![fixed(TokenType::Semicolon)] =~= ts.subrange(at, at + m + 2));
                    lemma_assoc(seq![fixed(TokenType::LBrace)], each(done), tokens_of(s));
                    assert(ts.subrange(first, at) + ts.subrange(at, at + m + 2) =~= ts.subrange(first, at + m + 2));
                    lemma_braces_rest(ts, first, more + m + 2, now);
                } else if behind == TokenType::RBrace {
                    assert(ts.subrange(first, at) + ts.subrange(at, at + m + 1) + seq![fixed(TokenType::RBrace)] =~= ts.subrange(
                        first,
                        at + m + 2,
                    ));
                }
            },
            Err(_) => {},
        }
    }
}

/// An expression is written as it was read.
#[verifier::spinoff_prover]
pub proof fn lemma_expression(ts: Seq<Lexeme>, pos: int)
    requires
        normal(ts),
    ensures
        spells(ts, pos, expression(ts, pos)),
    decreases left(ts, pos), 70nat,
{
    lemma_level(ts, Level::Range, pos);
}

/// An expression of any level is written as it was read.
#[verifier::spinoff_prover]
pub proof fn lemma_level(ts: Seq<Lexeme>, level: Level, pos: int)
    requires
        normal(ts),
    ensures
        spells(ts, pos, parse_level(ts, level, pos)),
    decreases left(ts, pos), 3 * height(level) + 12,
{
    match level {
        Level::Range | Level::Equality | Level::Relational => lemma_pair(ts, level, pos),
        Level::Or
        | Level::And
        | Level::BitOr
        | Level::BitXor
        | Level::BitAnd
        | Level::Shift
        | Level::Additive
        | Level::Multiplicative => lemma_chain(ts, level, pos),
        Level::Unary => lemma_prefix(ts, pos),
        Level::Exponent => lemma_power(ts, pos),
        Level::Assignment => lemma_assignment(ts, pos),
        Level::Call => lemma_call(ts, pos),
        Level::Member => lemma_access(ts, pos),
        Level::Atom => lemma_atom(ts, pos),
    }
}

/// A level of one operator at most is written as it was read.
#[verifier::spinoff_prover]
pub proof fn lemma_pair(ts: Seq<Lexeme>, level: Level, pos: int)
    requires
        normal(ts),
        level is Range || level is Equality || level is Relational,
    ensures
        spells(ts, pos, pair(ts, level, pos)),
    decreases left(ts, pos), 3 * height(level) + 11,
{
    reveal(pair);
    lemma_level(ts, below(level), pos);
    match parse_level(ts, below(level), pos) {
        Ok((l, m)) => {
            let operator = kind_at(ts, pos + m + 1);
            if has_operator(level, operator) {
                lemma_level(ts, below(level), pos + m + 2);
                match parse_level(ts, below(level), pos + m + 2) {
                    Ok((r, k)) => {
                        assert(ts.subrange(pos, pos + m + 1) + (seq![fixed(operator)] + ts.subrange(
                            pos + m + 2,
                            pos + m + k + 3,
                        )) =~= ts.subrange(pos, pos + m + k + 3));
                    },
                    Err(_) => {},
                }
            } else {
                assert(ts.subrange(pos, pos + m + 1) + Seq::<Lexeme>::empty() =~= ts.subrange(pos, pos + m + 1));
            }
        },
        Err(_) => {},
    }
}

/// A level of operators one after the other is written as it was read.
#[verifier::spinoff_prover]
pub proof fn lemma_chain(ts: Seq<Lexeme>, level: Level, pos: int)
    requires
        normal(ts),
        height(level) > 0,
        !(level is Range || level is Equality || level is Relational),
    ensures
        spells(ts, pos, chain(ts, level, pos)),
    decreases left(ts, pos), 3 * height(level) + 11,
{
    reveal(chain);
    lemma_level(ts, below(level), pos);
    match parse_level(ts, below(level), pos) {
        Ok((base, m)) => {
            assert(ts.subrange(pos, pos + m + 1) + Seq::<Lexeme>::empty() =~= ts.subrange(pos, pos + m + 1));
            lemma_chain_rest(ts, level, pos, m, base, Seq::empty());
        },
        Err(_) => {},
    }
}

/// The operators and operands of a chain from behind `first + more` on,
/// behind those in `done`.
#[verifier::spinoff_prover]
pub proof fn lemma_chain_rest(
    ts: Seq<Lexeme>,
    level: Level,
    first: int,
    more: nat,
    base: Tree,
    done: Seq<(TokenType, Tree)>,
)
    requires
        normal(ts),
        height(level) > 0,
        0 <= first,
        first + more < ts.len(),
        solid(ts, first, first + more + 1),
        tokens_of(base) + operands(done) == ts.subrange(first, first + more + 1),
    ensures
        spells(ts, first, chain_rest(ts, level, first, more, base, done)),
    decreases left(ts, first + more + 1), 3 * height(level) + 10,
{
    reveal(chain_rest);
    let at = first + more + 1;
    let operator = kind_at(ts, at);
    if has_operator(level, operator) {
        lemma_level(ts, below(level), at + 1);
        match parse_level(ts, below(level), at + 1) {
            Ok((operand, k)) => {
                let now = done.push((operator, operand));
                assert(now.drop_last() == done);
                lemma_assoc(
                    tokens_of(base),
                    operands(done) + seq![fixed(operator)],
                    tokens_of(operand),
                );
                lemma_assoc(tokens_of(base), operands(done), seq![fixed(operator)]);
                assert(ts.subrange(first, at) + seq![fixed(operator)] + ts.subrange(at + 1, at + k + 2) =~= ts.subrange(
                    first,
                    at + k + 2,
                ));
                lemma_chain_rest(ts, level, first, more + k + 2, base, now);
            },
            Err(_) => {},
        }
    }
}

/// A unary expression is written as it was read.
#[verifier::spinoff_prover]
pub proof fn lemma_prefix(ts: Seq<Lexeme>, pos: int)
    requires
        normal(ts),
    ensures
        spells(ts, pos, prefix(ts, pos)),
    decreases left(ts, pos), 3 * height(Level::Unary) + 11,
{
    reveal(prefix);
    let operator = kind_at(ts, pos);
    if is_prefix(operator) {
        lemma_level(ts, Level::Unary, pos + 1);
        match parse_level(ts, Level::Unary, pos + 1) {
            Ok((operand, m)) => {
                assert(seq![fixed(operator)] + ts.subrange(pos + 1, pos + m + 2) =~= ts.subrange(pos, pos + m + 2));
            },
            Err(_) => {},
        }
    } else {
        lemma_level(ts, Level::Exponent, pos);
    }
}

/// An exponentiation is written as it was read.
#[verifier::spinoff_prover]
pub proof fn lemma_power(ts: Seq<Lexeme>, pos: int)
    requires
        normal(ts),
    ensures
        spells(ts, pos, power(ts, pos)),
    decreases left(ts, pos), 3 * height(Level::Exponent) + 11,
{
    reveal(power);
    lemma_level(ts, Level::Assignment, pos);
    match parse_level(ts, Level::Assignment, pos) {
        Ok((base, m)) => {
            if kind_at(ts, pos + m + 1) == TokenType::StarStar {
                lemma_level(ts, Level::Unary, pos + m + 2);
                match parse_level(ts, Level::Unary, pos + m + 2) {
                    Ok((exponent, k)) => {
                        assert(ts.subrange(pos, pos + m + 1) + (seq![fixed(TokenType::StarStar)] + ts.subrange(
                            pos + m + 2,
                            pos + m + k + 3,
                        )) =~= ts.subrange(pos, pos + m + k + 3));
                    },
                    Err(_) => {},
                }
            } else {
                assert(ts.subrange(pos, pos + m + 1) + Seq::<Lexeme>::empty() =~= ts.subrange(pos, pos + m + 1));
            }
        },
        Err(_) => {},
    }
}

/// An assignment is written as it was read.
#[verifier::spinoff_prover]
pub proof fn lemma_assignment(ts: Seq<Lexeme>, pos: int)
    requires
        normal(ts),
    ensures
        spells(ts, pos, assignment(ts, pos)),
    decreases left(ts, pos), 3 * height(Level::Assignment) + 11,
{
    reveal(assignment);
    lemma_level(ts, Level::Call, pos);
    match parse_level(ts, Level::Call, pos) {
        Ok((target, m)) => {
            let operator = kind_at(ts, pos + m + 1);
            if is_assignment(operator) {
                lemma_level(ts, Level::Range, pos + m + 2);
                match parse_level(ts, Level::Range, pos + m + 2) {
                    Ok((value, k)) => {
                        assert(ts.subrange(pos, pos + m + 1) + (seq![fixed(operator)] + ts.subrange(
                            pos + m + 2,
                            pos + m + k + 3,
                        )) =~= ts.subrange(pos, pos + m + k + 3));
                    },
                    Err(_) => {},
                }
            } else {
                assert(ts.subrange(pos, pos + m + 1) + Seq::<Lexeme>::empty() =~= ts.subrange(pos, pos + m + 1));
            }
        },
        Err(_) => {},
    }
}

/// A call is written as it was read.
#[verifier::spinoff_prover]
pub proof fn lemma_call(ts: Seq<Lexeme>, pos: int)
    requires
        normal(ts),
    ensures
        spells(ts, pos, call(ts, pos)),
    decreases left(ts, pos), 3 * height(Level::Call) + 11,
{
    reveal(call);
    lemma_level(ts, Level::Member, pos);
    match parse_level(ts, Level::Member, pos) {
        Ok((base, m)) => {
            if kind_at(ts, pos + m + 1) == TokenType::LParen {
                lemma_arguments(ts, pos + m + 1);
                match arguments(ts, pos + m + 1) {
                    Ok((first_arguments, k)) => {
                        assert(ts.subrange(pos, pos + m + 1) + ts.subrange(pos + m + 1, pos + m + k + 2) + Seq::<Lexeme>::empty() =~= ts.subrange(
                            pos,
                            pos + m + k + 2,
                        ));
                        lemma_call_rest(ts, pos, m + k + 1, base, first_arguments, Seq::empty());
                    },
                    Err(_) => {},
                }
            } else {
                assert(ts.subrange(pos, pos + m + 1) + Seq::<Lexeme>::empty() =~= ts.subrange(pos, pos + m + 1));
            }
        },
        Err(_) => {},
    }
}

/// The fields and argument lists of a call from behind `first + more` on,
/// behind those in `done`.
#[verifier::spinoff_prover]
pub proof fn lemma_call_rest(
    ts: Seq<Lexeme>,
    first: int,
    more: nat,
    base: Tree,
    first_arguments: Seq<Tree>,
    done: Seq<Tree>,
)
    requires
        normal(ts),
        0 <= first,
        first + more < ts.len(),
        solid(ts, first, first + more + 1),
        tokens_of(base) + list(first_arguments) + each(done) == ts.subrange(first, first + more + 1),
    ensures
        spells(ts, first, call_rest(ts, first, more, base, first_arguments, done)),
    decreases left(ts, first + more + 1), 8nat,
{
    reveal(call_rest);
    let at = first + more + 1;
    let kind = kind_at(ts, at);
    let head = tokens_of(base) + list(first_arguments);
    if kind == TokenType::Dot {
        if kind_at(ts, at + 1) == TokenType::Identifier {
            let part = Tree::Field { name: text_at(ts, at + 1) };
            let now = done.push(part);
            assert(now.drop_last() == done);
            lemma_assoc(head, each(done), tokens_of(part));
            assert(ts.subrange(first, at) + seq![fixed(TokenType::Dot), word_at(ts, at + 1)] =~= ts.subrange(first, at + 2));
            lemma_call_rest(ts, first, more + 2, base, first_arguments, now);
        }
    } else if kind == TokenType::LParen {
        lemma_arguments(ts, at);
        match arguments(ts, at) {
            Ok((items, k)) => {
                let part = Tree::Arguments { items };
                let now = done.push(part);
                assert(now.drop_last() == done);
                lemma_assoc(head, each(done), tokens_of(part));
                assert(ts.subrange(first, at) + ts.subrange(at, at + k + 1) =~= ts.subrange(first, at + k + 1));
                lemma_call_rest(ts, first, more + k + 1, base, first_arguments, now);
            },
            Err(_) => {},
        }
    } else {
        lemma_assoc(tokens_of(base), list(first_arguments), each(done));
    }
}

/// A list of arguments is written as it was read.
#[verifier::spinoff_prover]
pub proof fn lemma_arguments(ts: Seq<Lexeme>, pos: int)
    requires
        normal(ts),
    ensures
        spells_list(ts, pos, arguments(ts, pos)),
    decreases left(ts, pos), 6nat,
{
    reveal(arguments);
    if kind_at(ts, pos) == TokenType::LParen {
        if kind_at(ts, pos + 1) == TokenType::RParen {
            assert(seq![fixed(TokenType::LParen)] + Seq::<Lexeme>::empty() + seq![fixed(TokenType::RParen)] =~= ts.subrange(pos, pos + 2));
        } else {
            assert(seq![fixed(TokenType::LParen)] + Seq::<Lexeme>::empty() =~= ts.subrange(pos, pos + 1));
            lemma_arguments_rest(ts, pos, 1, Seq::empty());
        }
    }
}

/// The arguments from `first + more` on, behind those in `done`.
#[verifier::spinoff_prover]
pub proof fn lemma_arguments_rest(ts: Seq<Lexeme>, first: int, more: nat, done: Seq<Tree>)
    requires
        normal(ts),
        0 <= first,
        first + more <= ts.len(),
        solid(ts, first, first + more),
        seq![fixed(TokenType::LParen)] + commas(done) == ts.subrange(first, first + more),
    ensures
        spells_list(ts, first, arguments_rest(ts, first, more, done)),
    decreases left(ts, first + more), 100nat,
{
    reveal(arguments_rest);
    let at = first + more;
    lemma_expression(ts, at);
    match expression(ts, at) {
        Ok((e, m)) => {
            let now = done.push(e);
            assert(now.drop_last() == done);
            let behind = kind_at(ts, at + m + 1);
            lemma_assoc(seq![fixed(TokenType::LParen)], commas(done), tokens_of(e));
            if behind == TokenType::Comma {
                lemma_assoc(seq![fixed(TokenType::LParen)], commas(done) + tokens_of(e), seq![fixed(TokenType::Comma)]);
                assert(ts.subrange(first, at) + ts.subrange(at, at + m + 1) + seq![fixed(TokenType::Comma)] =~= ts.subrange(
                    first,
                    at + m + 2,
                ));
                lemma_arguments_rest(ts, first, more + m + 2, now);
            } else if behind == TokenType::RParen {
                assert(ts.subrange(first, at) + ts.subrange(at, at + m + 1) + seq![fixed(TokenType::RParen)] =~= ts.subrange(
                    first,
                    at + m + 2,
                ));
            }
        },
        Err(_) => {},
    }
}

/// An atom with its fields is written as it was read.
#[verifier::spinoff_prover]
pub proof fn lemma_access(ts: Seq<Lexeme>, pos: int)
    requires
        normal(ts),
    ensures
        spells(ts, pos, access(ts, pos)),
    decreases left(ts, pos), 3 * height(Level::Member) + 11,
{
    reveal(access);
    lemma_level(ts, Level::Atom, pos);
    match parse_level(ts, Level::Atom, pos) {
        Ok((base, m)) => {
            assert(ts.subrange(pos, pos + m + 1) + Seq::<Lexeme>::empty() =~= ts.subrange(pos, pos + m + 1));
            lemma_fields_rest(ts, pos, m, base, Seq::empty());
        },
        Err(_) => {},
    }
}

/// The fields behind an atom from behind `first + more` on, behind those in
/// `done`.
#[verifier::spinoff_prover]
pub proof fn lemma_fields_rest(
    ts: Seq<Lexeme>,
    first: int,
    more: nat,
    base: Tree,
    done: Seq<Seq<char>>,
)
    requires
        normal(ts),
        0 <= first,
        first + more < ts.len(),
        solid(ts, first, first + more + 1),
        tokens_of(base) + fields_of(done) == ts.subrange(first, first + more + 1),
    ensures
        spells(ts, first, fields_rest(ts, first, more, base, done)),
    decreases left(ts, first + more + 1), 8nat,
{
    reveal(fields_rest);
    let at = first + more + 1;
    if kind_at(ts, at) == TokenType::Dot {
        if kind_at(ts, at + 1) == TokenType::Identifier {
            let now = done.push(text_at(ts, at + 1));
            assert(now.drop_last() == done);
            lemma_assoc(tokens_of(base), fields_of(done), seq![fixed(TokenType::Dot), word_at(ts, at + 1)]);
            assert(ts.subrange(first, at) + seq![fixed(TokenType::Dot), word_at(ts, at + 1)] =~= ts.subrange(first, at + 2));
            lemma_fields_rest(ts, first, more + 2, base, now);
        }
    }
}

/// An atom is written as it was read.
#[verifier::spinoff_prover]
pub proof fn lemma_atom(ts: Seq<Lexeme>, pos: int)
    requires
        normal(ts),
    ensures
        spells(ts, pos, atom(ts, pos)),
    decreases left(ts, pos), 11nat,
{
    reveal(atom);
    let kind = kind_at(ts, pos);
    if is_literal(kind) {
        reveal(literal);
        match literal(ts, pos) {
            Ok((tree, more)) => {
                assert(tokens_of(tree) =~= ts.subrange(pos, pos + 1));
            },
            Err(_) => {},
        }
    } else if kind == TokenType::LParen {
        lemma_expression(ts, pos + 1);
        match expression(ts, pos + 1) {
            Ok((inner, m)) => {
                if kind_at(ts, pos + m + 2) == TokenType::RParen {
                    assert(seq![fixed(TokenType::LParen)] + ts.subrange(pos + 1, pos + m + 2) + seq![fixed(TokenType::RParen)] =~= ts.subrange(
                        pos,
                        pos + m + 3,
                    ));
                }
            },
            Err(_) => {},
        }
    } else if kind == TokenType::LBrace {
        lemma_braces(ts, pos);
    } else {
        lemma_form(ts, pos);
    }
}

/// A form that starts with a reserved word is written as it was read.
#[verifier::spinoff_prover]
pub proof fn lemma_form(ts: Seq<Lexeme>, pos: int)
    requires
        normal(ts),
    ensures
        spells(ts, pos, form(ts, pos)),
    decreases left(ts, pos), 10nat,
{
    reveal(form);
    let kind = kind_at(ts, pos);
    if kind == TokenType::If {
        lemma_conditional(ts, pos);
    } else if kind == TokenType::For {
        lemma_for_loop(ts, pos);
    } else if kind == TokenType::While {
        lemma_while_loop(ts, pos);
    } else if kind == TokenType::Loop {
        lemma_endless_loop(ts, pos);
    } else if kind == TokenType::Fun {
        lemma_lambda(ts, pos);
    } else if kind == TokenType::Class {
        lemma_class_literal(ts, pos);
    } else if kind == TokenType::Try {
        lemma_attempt(ts, pos);
    }
}

/// An `if` is written as it was read.
#[verifier::spinoff_prover]
pub proof fn lemma_conditional(ts: Seq<Lexeme>, pos: int)
    requires
        normal(ts),
    ensures
        spells(ts, pos, conditional(ts, pos)),
    decreases left(ts, pos), 9nat,
{
    reveal(conditional);
    if kind_at(ts, pos) == TokenType::If {
        lemma_expression(ts, pos + 1);
        match expression(ts, pos + 1) {
            Ok((c, m)) => {
                lemma_block(ts, pos + m + 2);
                match block(ts, pos + m + 2) {
                    Ok((t, k)) => {
                        let head = seq![fixed(TokenType::If)] + ts.subrange(pos + 1, pos + m + 2) + ts.subrange(
                            pos + m + 2,
                            pos + m + k + 3,
                        );
                        assert(head =~= ts.subrange(pos, pos + m + k + 3));
                        if kind_at(ts, pos + m + k + 3) == TokenType::Else {
                            lemma_block(ts, pos + m + k + 4);
                            match block(ts, pos + m + k + 4) {
                                Ok((o, j)) => {
                                    assert(head + (seq![fixed(TokenType::Else)] + ts.subrange(
                                        pos + m + k + 4,
                                        pos + m + k + j + 5,
                                    )) =~= ts.subrange(pos, pos + m + k + j + 5));
                                },
                                Err(_) => {},
                            }
                        } else {
                            assert(head + Seq::<Lexeme>::empty() =~= head);
                        }
                    },
                    Err(_) => {},
                }
            },
            Err(_) => {},
        }
    }
}

/// A `for` is written as it was read.
#[verifier::spinoff_prover]
pub proof fn lemma_for_loop(ts: Seq<Lexeme>, pos: int)
    requires
        normal(ts),
    ensures
        spells(ts, pos, for_loop(ts, pos)),
    decreases left(ts, pos), 9nat,
{
    reveal(for_loop);
    if kind_at(ts, pos) == TokenType::For && kind_at(ts, pos + 1) == TokenType::Identifier
        && kind_at(ts, pos + 2) == TokenType::In {
        lemma_expression(ts, pos + 3);
        match expression(ts, pos + 3) {
            Ok((iter, m)) => {
                lemma_block(ts, pos + m + 4);
                match block(ts, pos + m + 4) {
                    Ok((body, k)) => {
                        assert(seq![fixed(TokenType::For), word_at(ts, pos + 1), fixed(TokenType::In)] + ts.subrange(pos + 3, pos + m + 4) + ts.subrange(
                            pos + m + 4,
                            pos + m + k + 5,
                        ) =~= ts.subrange(pos, pos + m + k + 5));
                    },
                    Err(_) => {},
                }
            },
            Err(_) => {},
        }
    }
}

/// A `while` is written as it was read.
#[verifier::spinoff_prover]
pub proof fn lemma_while_loop(ts: Seq<Lexeme>, pos: int)
    requires
        normal(ts),
    ensures
        spells(ts, pos, while_loop(ts, pos)),
    decreases left(ts, pos), 9nat,
{
    reveal(while_loop);
    if kind_at(ts, pos) == TokenType::While {
        lemma_expression(ts, pos + 1);
        match expression(ts, pos + 1) {
            Ok((c, m)) => {
                lemma_block(ts, pos + m + 2);
                match block(ts, pos + m + 2) {
                    Ok((body, k)) => {
                        assert(seq![fixed(TokenType::While)] + ts.subrange(pos + 1, pos + m + 2) + ts.subrange(
                            pos + m + 2,
                            pos + m + k + 3,
                        ) =~= ts.subrange(pos, pos + m + k + 3));
                    },
                    Err(_) => {},
                }
            },
            Err(_) => {},
        }
    }
}

/// A `loop` is written as it was read.
#[verifier::spinoff_prover]
pub proof fn lemma_endless_loop(ts: Seq<Lexeme>, pos: int)
    requires
        normal(ts),
    ensures
        spells(ts, pos, endless_loop(ts, pos)),
    decreases left(ts, pos), 9nat,
{
    reveal(endless_loop);
    if kind_at(ts, pos) == TokenType::Loop {
        lemma_block(ts, pos + 1);
        match block(ts, pos + 1) {
            Ok((body, k)) => {
                assert(seq![fixed(TokenType::Loop)] + ts.subrange(pos + 1, pos + k + 2) =~= ts.subrange(pos, pos + k + 2));
            },
            Err(_) => {},
        }
    }
}

/// A function without a name is written as it was read.
#[verifier::spinoff_prover]
pub proof fn lemma_lambda(ts: Seq<Lexeme>, pos: int)
    requires
        normal(ts),
    ensures
        spells(ts, pos, lambda(ts, pos)),
    decreases left(ts, pos), 9nat,
{
    reveal(lambda);
    if kind_at(ts, pos) == TokenType::Fun {
        lemma_names(ts, pos + 1);
        match names(ts, pos + 1) {
            Ok((params, m)) => {
                lemma_block(ts, pos + m + 2);
                match block(ts, pos + m + 2) {
                    Ok((body, k)) => {
                        assert(seq![fixed(TokenType::Fun)] + ts.subrange(pos + 1, pos + m + 2) + ts.subrange(
                            pos + m + 2,
                            pos + m + k + 3,
                        ) =~= ts.subrange(pos, pos + m + k + 3));
                    },
                    Err(_) => {},
                }
            },
            Err(_) => {},
        }
    }
}

/// A class without a name is written as it was read.
#[verifier::spinoff_prover]
pub proof fn lemma_class_literal(ts: Seq<Lexeme>, pos: int)
    requires
        normal(ts),
    ensures
        spells(ts, pos, class_literal(ts, pos)),
    decreases left(ts, pos), 9nat,
{
    reveal(class_literal);
    if kind_at(ts, pos) == TokenType::Class {
        lemma_members(ts, pos + 1);
        match members(ts, pos + 1) {
            Ok((body, m)) => {
                assert(seq![fixed(TokenType::Class)] + ts.subrange(pos + 1, pos + m + 2) =~= ts.subrange(pos, pos + m + 2));
            },
            Err(_) => {},
        }
    }
}

/// A `try` is written as it was read.
#[verifier::spinoff_prover]
pub proof fn lemma_attempt(ts: Seq<Lexeme>, pos: int)
    requires
        normal(ts),
    ensures
        spells(ts, pos, attempt(ts, pos)),
    decreases left(ts, pos), 9nat,
{
    reveal(attempt);
    if kind_at(ts, pos) == TokenType::Try {
        lemma_block(ts, pos + 1);
        match block(ts, pos + 1) {
            Ok((body, k)) => {
                if kind_at(ts, pos + k + 2) == TokenType::Catch && kind_at(ts, pos + k + 3)
                    == TokenType::Identifier {
                    lemma_block(ts, pos + k + 4);
                    match block(ts, pos + k + 4) {
                        Ok((handler, j)) => {
                            assert(seq![fixed(TokenType::Try)] + ts.subrange(pos + 1, pos + k + 2) + seq![
                                fixed(TokenType::Catch),
                                word_at(ts, pos + k + 3),
                            ] + ts.subrange(pos + k + 4, pos + k + j + 5) =~= ts.subrange(pos, pos + k + j + 5));
                        },
                        Err(_) => {},
                    }
                }
            },
            Err(_) => {},
        }
    }
}

/// The tokens that a parser reads are normal.
pub proof fn lemma_lexemes_are_normal(tokens: Seq<Token<'_>>)
    ensures
        normal(lexemes(tokens)),
{
}

/// The tokens end with the one token for the end of the input.
pub open spec fn ends_once(ts: Seq<Lexeme>) -> bool {
    &&& ts.len() > 0
    &&& ts.last().kind == TokenType::Eof
    &&& solid(ts, 0, ts.len() - 1)
}

/// Parsing loses nothing: the statements that `ts` is read as are written
/// as the tokens of `ts` before the first end of the input.
#[verifier::spinoff_prover]
pub proof fn lemma_written_as_read(ts: Seq<Lexeme>, trees: Seq<Tree>)
    requires
        normal(ts),
        program(ts) == Ok::<Seq<Tree>, Failure>(trees),
    ensures
        each(trees) == ts.subrange(0, first_end(ts, 0)),
{
    lemma_program_rest(ts, 0, Seq::empty());
    assert(each(Seq::<Tree>::empty()) + ts.subrange(0, first_end(ts, 0)) =~= ts.subrange(0, first_end(ts, 0)));
}

/// Writing a program and reading it again gives the same program: where
/// `ts` ends with its one token for the end of the input and is read as the
/// statements `trees`, the statements are written as the tokens before that
/// end, and what is written, with the end behind it, is read as `trees`
/// again.
#[verifier::spinoff_prover]
pub proof fn lemma_round_trip(ts: Seq<Lexeme>, trees: Seq<Tree>)
    requires
        normal(ts),
        ends_once(ts),
        program(ts) == Ok::<Seq<Tree>, Failure>(trees),
    ensures
        each(trees) == ts.drop_last(),
        program(each(trees).push(fixed(TokenType::Eof))) == Ok::<Seq<Tree>, Failure>(trees),
{
    lemma_written_as_read(ts, trees);
    lemma_first_end(ts, 0, ts.len() - 1);
    assert(first_end(ts, ts.len() - 1) == ts.len() - 1);
    assert(each(trees) =~= ts.drop_last());
    assert(each(trees).push(fixed(TokenType::Eof)) =~= ts);
}

} // verus!
