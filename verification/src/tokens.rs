//! Tokens: the kinds, the located token, and the tables of reserved words and
//! operator symbols.

use crate::error::Location;
use crate::text::chars_of;
use vstd::prelude::*;

verus! {

/// The kind of a token.
#[derive(Clone, Copy, Debug, PartialEq, Eq, Structural)]
pub enum TokenType {
    // Literals and names; the token's lexeme says which.
    Number,
    String,
    Identifier,
    True,
    False,
    Null,
    // Reserved words.
    If,
    Else,
    For,
    In,
    While,
    Loop,
    Fun,
    Class,
    Try,
    Catch,
    Var,
    Break,
    Continue,
    Return,
    Static,
    // Operators, from the loosest to the tightest.
    DotDot,
    DotDotEq,
    OrOr,
    AndAnd,
    Pipe,
    Caret,
    Ampersand,
    EqEq,
    NotEq,
    Less,
    LessEq,
    Greater,
    GreaterEq,
    Shl,
    Shr,
    Plus,
    Minus,
    Star,
    Slash,
    Percent,
    Bang,
    StarStar,
    Assign,
    PlusAssign,
    MinusAssign,
    StarAssign,
    SlashAssign,
    PercentAssign,
    // Punctuation.
    LParen,
    RParen,
    LBrace,
    RBrace,
    Comma,
    Dot,
    Semicolon,
    /// The end of the input.
    Eof,
}

/// A token with the span of source it was read from.
///
/// The lexeme of a number is its digits, that of an identifier its name, that
/// of a string its contents with the escapes resolved. For every other kind it
/// is the token's text in the source.
#[derive(Clone, Debug)]
pub struct Token<'f> {
    pub token_type: TokenType,
    pub lexeme: String,
    pub start: Location<'f>,
    pub end: Location<'f>,
}

/// What the grammar reads of a token: its kind, and its text where the kind
/// leaves a choice.
pub ghost struct Lexeme {
    pub kind: TokenType,
    pub text: Seq<char>,
}

/// Whether tokens of this kind differ by their text.
pub open spec fn carries_text(kind: TokenType) -> bool {
    kind == TokenType::Number || kind == TokenType::String || kind == TokenType::Identifier
}

impl<'f> Token<'f> {
    /// The token as the grammar reads it.
    pub open spec fn lexeme(&self) -> Lexeme {
        Lexeme {
            kind: self.token_type,
            text: if carries_text(self.token_type) {
                self.lexeme@
            } else {
                Seq::empty()
            },
        }
    }
}

/// The tokens as the grammar reads them.
pub open spec fn lexemes(tokens: Seq<Token<'_>>) -> Seq<Lexeme> {
    Seq::new(tokens.len(), |i: int| tokens[i].lexeme())
}

/// The operator or punctuation mark that one character spells.
pub open spec fn symbol1(a: char) -> Option<TokenType> {
    if a == '(' {
        Some(TokenType::LParen)
    }     else if a == ')' {
        Some(TokenType::RParen)
    }     else if a == '{' {
        Some(TokenType::LBrace)
    }     else if a == '}' {
        Some(TokenType::RBrace)
    }     else if a == ',' {
        Some(TokenType::Comma)
    }     else if a == '.' {
        Some(TokenType::Dot)
    }     else if a == ';' {
        Some(TokenType::Semicolon)
    }     else if a == '+' {
        Some(TokenType::Plus)
    }     else if a == '-' {
        Some(TokenType::Minus)
    }     else if a == '*' {
        Some(TokenType::Star)
    }     else if a == '/' {
        Some(TokenType::Slash)
    }     else if a == '%' {
        Some(TokenType::Percent)
    }     else if a == '!' {
        Some(TokenType::Bang)
    }     else if a == '=' {
        Some(TokenType::Assign)
    }     else if a == '<' {
        Some(TokenType::Less)
    }     else if a == '>' {
        Some(TokenType::Greater)
    }     else if a == '&' {
        Some(TokenType::Ampersand)
    }     else if a == '|' {
        Some(TokenType::Pipe)
    }     else if a == '^' {
        Some(TokenType::Caret)
    } else {
        None
    }
}

pub fn find_symbol1(a: char) -> (r: Option<TokenType>)
    ensures
        r == symbol1(a),
{
    if a == '(' {
        Some(TokenType::LParen)
    }     else if a == ')' {
        Some(TokenType::RParen)
    }     else if a == '{' {
        Some(TokenType::LBrace)
    }     else if a == '}' {
        Some(TokenType::RBrace)
    }     else if a == ',' {
        Some(TokenType::Comma)
    }     else if a == '.' {
        Some(TokenType::Dot)
    }     else if a == ';' {
        Some(TokenType::Semicolon)
    }     else if a == '+' {
        Some(TokenType::Plus)
    }     else if a == '-' {
        Some(TokenType::Minus)
    }     else if a == '*' {
        Some(TokenType::Star)
    }     else if a == '/' {
        Some(TokenType::Slash)
    }     else if a == '%' {
        Some(TokenType::Percent)
    }     else if a == '!' {
        Some(TokenType::Bang)
    }     else if a == '=' {
        Some(TokenType::Assign)
    }     else if a == '<' {
        Some(TokenType::Less)
    }     else if a == '>' {
        Some(TokenType::Greater)
    }     else if a == '&' {
        Some(TokenType::Ampersand)
    }     else if a == '|' {
        Some(TokenType::Pipe)
    }     else if a == '^' {
        Some(TokenType::Caret)
    } else {
        None
    }
}

/// The operator that two characters spell.
pub open spec fn symbol2(a: char, b: char) -> Option<TokenType> {
    if a == '.' && b == '.' {
        Some(TokenType::DotDot)
    }     else if a == '*' && b == '*' {
        Some(TokenType::StarStar)
    }     else if a == '=' && b == '=' {
        Some(TokenType::EqEq)
    }     else if a == '!' && b == '=' {
        Some(TokenType::NotEq)
    }     else if a == '<' && b == '=' {
        Some(TokenType::LessEq)
    }     else if a == '>' && b == '=' {
        Some(TokenType::GreaterEq)
    }     else if a == '<' && b == '<' {
        Some(TokenType::Shl)
    }     else if a == '>' && b == '>' {
        Some(TokenType::Shr)
    }     else if a == '&' && b == '&' {
        Some(TokenType::AndAnd)
    }     else if a == '|' && b == '|' {
        Some(TokenType::OrOr)
    }     else if a == '+' && b == '=' {
        Some(TokenType::PlusAssign)
    }     else if a == '-' && b == '=' {
        Some(TokenType::MinusAssign)
    }     else if a == '*' && b == '=' {
        Some(TokenType::StarAssign)
    }     else if a == '/' && b == '=' {
        Some(TokenType::SlashAssign)
    }     else if a == '%' && b == '=' {
        Some(TokenType::PercentAssign)
    } else {
        None
    }
}

pub fn find_symbol2(a: char, b: char) -> (r: Option<TokenType>)
    ensures
        r == symbol2(a, b),
{
    if a == '.' && b == '.' {
        Some(TokenType::DotDot)
    }     else if a == '*' && b == '*' {
        Some(TokenType::StarStar)
    }     else if a == '=' && b == '=' {
        Some(TokenType::EqEq)
    }     else if a == '!' && b == '=' {
        Some(TokenType::NotEq)
    }     else if a == '<' && b == '=' {
        Some(TokenType::LessEq)
    }     else if a == '>' && b == '=' {
        Some(TokenType::GreaterEq)
    }     else if a == '<' && b == '<' {
        Some(TokenType::Shl)
    }     else if a == '>' && b == '>' {
        Some(TokenType::Shr)
    }     else if a == '&' && b == '&' {
        Some(TokenType::AndAnd)
    }     else if a == '|' && b == '|' {
        Some(TokenType::OrOr)
    }     else if a == '+' && b == '=' {
        Some(TokenType::PlusAssign)
    }     else if a == '-' && b == '=' {
        Some(TokenType::MinusAssign)
    }     else if a == '*' && b == '=' {
        Some(TokenType::StarAssign)
    }     else if a == '/' && b == '=' {
        Some(TokenType::SlashAssign)
    }     else if a == '%' && b == '=' {
        Some(TokenType::PercentAssign)
    } else {
        None
    }
}

/// The operator that three characters spell.
pub open spec fn symbol3(a: char, b: char, c: char) -> Option<TokenType> {
    if a == '.' && b == '.' && c == '=' {
        Some(TokenType::DotDotEq)
    } else {
        None
    }
}

pub fn find_symbol3(a: char, b: char, c: char) -> (r: Option<TokenType>)
    ensures
        r == symbol3(a, b, c),
{
    if a == '.' && b == '.' && c == '=' {
        Some(TokenType::DotDotEq)
    } else {
        None
    }
}

/// The reserved word or literal that `text` spells.
pub open spec fn keyword(text: Seq<char>) -> Option<TokenType> {
    if text == "if"@ {
        Some(TokenType::If)
    }     else if text == "else"@ {
        Some(TokenType::Else)
    }     else if text == "for"@ {
        Some(TokenType::For)
    }     else if text == "in"@ {
        Some(TokenType::In)
    }     else if text == "while"@ {
        Some(TokenType::While)
    }     else if text == "loop"@ {
        Some(TokenType::Loop)
    }     else if text == "fun"@ {
        Some(TokenType::Fun)
    }     else if text == "class"@ {
        Some(TokenType::Class)
    }     else if text == "try"@ {
        Some(TokenType::Try)
    }     else if text == "catch"@ {
        Some(TokenType::Catch)
    }     else if text == "var"@ {
        Some(TokenType::Var)
    }     else if text == "break"@ {
        Some(TokenType::Break)
    }     else if text == "continue"@ {
        Some(TokenType::Continue)
    }     else if text == "return"@ {
        Some(TokenType::Return)
    }     else if text == "static"@ {
        Some(TokenType::Static)
    }     else if text == "true"@ {
        Some(TokenType::True)
    }     else if text == "false"@ {
        Some(TokenType::False)
    }     else if text == "null"@ {
        Some(TokenType::Null)
    } else {
        None
    }
}

/// Whether `chars[from..to]` is the word `word`.
fn spells(chars: &Vec<char>, from: usize, to: usize, word: &str) -> (r: bool)
    requires
        from <= to <= chars.len(),
    ensures
        r == (chars@.subrange(from as int, to as int) == word@),
{
    let letters = chars_of(word);
    if letters.len() != to - from {
        return false;
    }
    let mut i: usize = 0;
    while i < letters.len()
        invariant
            from <= to <= chars.len(),
            letters.len() == to - from,
            letters@ == word@,
            0 <= i <= letters.len(),
            forall|j: int| 0 <= j < i ==> chars@[from + j] == letters@[j],
        decreases letters.len() - i,
    {
        if chars[from + i] != letters[i] {
            assert(chars@.subrange(from as int, to as int)[i as int] != word@[i as int]);
            return false;
        }
        i += 1;
    }
    assert(chars@.subrange(from as int, to as int) =~= word@);
    true
}

/// The reserved word or literal that `chars[from..to]` spells.
pub fn find_keyword(chars: &Vec<char>, from: usize, to: usize) -> (r: Option<TokenType>)
    requires
        from <= to <= chars.len(),
    ensures
        r == keyword(chars@.subrange(from as int, to as int)),
{
    if spells(chars, from, to, "if") {
        Some(TokenType::If)
    }     else if spells(chars, from, to, "else") {
        Some(TokenType::Else)
    }     else if spells(chars, from, to, "for") {
        Some(TokenType::For)
    }     else if spells(chars, from, to, "in") {
        Some(TokenType::In)
    }     else if spells(chars, from, to, "while") {
        Some(TokenType::While)
    }     else if spells(chars, from, to, "loop") {
        Some(TokenType::Loop)
    }     else if spells(chars, from, to, "fun") {
        Some(TokenType::Fun)
    }     else if spells(chars, from, to, "class") {
        Some(TokenType::Class)
    }     else if spells(chars, from, to, "try") {
        Some(TokenType::Try)
    }     else if spells(chars, from, to, "catch") {
        Some(TokenType::Catch)
    }     else if spells(chars, from, to, "var") {
        Some(TokenType::Var)
    }     else if spells(chars, from, to, "break") {
        Some(TokenType::Break)
    }     else if spells(chars, from, to, "continue") {
        Some(TokenType::Continue)
    }     else if spells(chars, from, to, "return") {
        Some(TokenType::Return)
    }     else if spells(chars, from, to, "static") {
        Some(TokenType::Static)
    }     else if spells(chars, from, to, "true") {
        Some(TokenType::True)
    }     else if spells(chars, from, to, "false") {
        Some(TokenType::False)
    }     else if spells(chars, from, to, "null") {
        Some(TokenType::Null)
    } else {
        None
    }
}

/// How a kind of token is called in messages.
pub open spec fn token_name(kind: TokenType) -> Seq<char> {
    match kind {
        TokenType::Number => "a number"@,
        TokenType::String => "a string"@,
        TokenType::Identifier => "an identifier"@,
        TokenType::True => "'true'"@,
        TokenType::False => "'false'"@,
        TokenType::Null => "'null'"@,
        TokenType::If => "'if'"@,
        TokenType::Else => "'else'"@,
        TokenType::For => "'for'"@,
        TokenType::In => "'in'"@,
        TokenType::While => "'while'"@,
        TokenType::Loop => "'loop'"@,
        TokenType::Fun => "'fun'"@,
        TokenType::Class => "'class'"@,
        TokenType::Try => "'try'"@,
        TokenType::Catch => "'catch'"@,
        TokenType::Var => "'var'"@,
        TokenType::Break => "'break'"@,
        TokenType::Continue => "'continue'"@,
        TokenType::Return => "'return'"@,
        TokenType::Static => "'static'"@,
        TokenType::DotDot => "'..'"@,
        TokenType::DotDotEq => "'..='"@,
        TokenType::OrOr => "'||'"@,
        TokenType::AndAnd => "'&&'"@,
        TokenType::Pipe => "'|'"@,
        TokenType::Caret => "'^'"@,
        TokenType::Ampersand => "'&'"@,
        TokenType::EqEq => "'=='"@,
        TokenType::NotEq => "'!='"@,
        TokenType::Less => "'<'"@,
        TokenType::LessEq => "'<='"@,
        TokenType::Greater => "'>'"@,
        TokenType::GreaterEq => "'>='"@,
        TokenType::Shl => "'<<'"@,
        TokenType::Shr => "'>>'"@,
        TokenType::Plus => "'+'"@,
        TokenType::Minus => "'-'"@,
        TokenType::Star => "'*'"@,
        TokenType::Slash => "'/'"@,
        TokenType::Percent => "'%'"@,
        TokenType::Bang => "'!'"@,
        TokenType::StarStar => "'**'"@,
        TokenType::Assign => "'='"@,
        TokenType::PlusAssign => "'+='"@,
        TokenType::MinusAssign => "'-='"@,
        TokenType::StarAssign => "'*='"@,
        TokenType::SlashAssign => "'/='"@,
        TokenType::PercentAssign => "'%='"@,
        TokenType::LParen => "'('"@,
        TokenType::RParen => "')'"@,
        TokenType::LBrace => "'{'"@,
        TokenType::RBrace => "'}'"@,
        TokenType::Comma => "','"@,
        TokenType::Dot => "'.'"@,
        TokenType::Semicolon => "';'"@,
        TokenType::Eof => "the end of the input"@,
    }
}

impl TokenType {
    /// How the kind is called in messages.
    pub fn name(&self) -> (r: &'static str)
        ensures
            r@ == token_name(*self),
    {
        match self {
            TokenType::Number => "a number",
            TokenType::String => "a string",
            TokenType::Identifier => "an identifier",
            TokenType::True => "'true'",
            TokenType::False => "'false'",
            TokenType::Null => "'null'",
            TokenType::If => "'if'",
            TokenType::Else => "'else'",
            TokenType::For => "'for'",
            TokenType::In => "'in'",
            TokenType::While => "'while'",
            TokenType::Loop => "'loop'",
            TokenType::Fun => "'fun'",
            TokenType::Class => "'class'",
            TokenType::Try => "'try'",
            TokenType::Catch => "'catch'",
            TokenType::Var => "'var'",
            TokenType::Break => "'break'",
            TokenType::Continue => "'continue'",
            TokenType::Return => "'return'",
            TokenType::Static => "'static'",
            TokenType::DotDot => "'..'",
            TokenType::DotDotEq => "'..='",
            TokenType::OrOr => "'||'",
            TokenType::AndAnd => "'&&'",
            TokenType::Pipe => "'|'",
            TokenType::Caret => "'^'",
            TokenType::Ampersand => "'&'",
            TokenType::EqEq => "'=='",
            TokenType::NotEq => "'!='",
            TokenType::Less => "'<'",
            TokenType::LessEq => "'<='",
            TokenType::Greater => "'>'",
            TokenType::GreaterEq => "'>='",
            TokenType::Shl => "'<<'",
            TokenType::Shr => "'>>'",
            TokenType::Plus => "'+'",
            TokenType::Minus => "'-'",
            TokenType::Star => "'*'",
            TokenType::Slash => "'/'",
            TokenType::Percent => "'%'",
            TokenType::Bang => "'!'",
            TokenType::StarStar => "'**'",
            TokenType::Assign => "'='",
            TokenType::PlusAssign => "'+='",
            TokenType::MinusAssign => "'-='",
            TokenType::StarAssign => "'*='",
            TokenType::SlashAssign => "'/='",
            TokenType::PercentAssign => "'%='",
            TokenType::LParen => "'('",
            TokenType::RParen => "')'",
            TokenType::LBrace => "'{'",
            TokenType::RBrace => "'}'",
            TokenType::Comma => "','",
            TokenType::Dot => "'.'",
            TokenType::Semicolon => "';'",
            TokenType::Eof => "the end of the input",
        }
    }
}

} // verus!
