//! The scanner: from source text to located tokens.
//!
//! What the scanner returns is defined by [`scan_from`], a function on the
//! sequence of characters. At each place it skips blanks and comments and
//! then reads the longest token that starts there.

use crate::error::{Error, ErrorKind, Location};
use crate::number::{is_digit, literal_value, Number};
use crate::text::text_of;
use crate::text::chars_of;
use crate::tokens::{
    find_keyword, find_symbol1, find_symbol2, find_symbol3, keyword, symbol1, symbol2, symbol3,
    Token, TokenType,
};
use vstd::prelude::*;
use vstd::string::*;

verus! {

pub open spec fn is_space(c: char) -> bool {
    c == ' ' || c == '\t' || c == '\r' || c == '\n'
}

pub open spec fn is_ident_start(c: char) -> bool {
    ('a' <= c <= 'z') || ('A' <= c <= 'Z') || c == '_'
}

pub open spec fn is_ident_part(c: char) -> bool {
    is_ident_start(c) || is_digit(c)
}

/// The first index from `i` on that holds no digit.
pub open spec fn digits_end(s: Seq<char>, i: int) -> int
    decreases s.len() - i,
{
    if 0 <= i < s.len() && is_digit(s[i]) {
        digits_end(s, i + 1)
    } else {
        i
    }
}

/// The first index from `i` on that holds no character of a name.
pub open spec fn ident_end(s: Seq<char>, i: int) -> int
    decreases s.len() - i,
{
    if 0 <= i < s.len() && is_ident_part(s[i]) {
        ident_end(s, i + 1)
    } else {
        i
    }
}

/// The first index from `i` on that holds a line feed, or the length.
pub open spec fn line_end(s: Seq<char>, i: int) -> int
    decreases s.len() - i,
{
    if 0 <= i < s.len() && s[i] != '\n' {
        line_end(s, i + 1)
    } else {
        i
    }
}

pub proof fn lemma_line_end(s: Seq<char>, i: int)
    requires
        0 <= i <= s.len(),
    ensures
        i <= line_end(s, i) <= s.len(),
    decreases s.len() - i,
{
    if i < s.len() && s[i] != '\n' {
        lemma_line_end(s, i + 1);
    }
}

pub proof fn lemma_digits_end(s: Seq<char>, i: int)
    requires
        0 <= i <= s.len(),
    ensures
        i <= digits_end(s, i) <= s.len(),
        forall|j: int| i <= j < digits_end(s, i) ==> is_digit(#[trigger] s[j]),
        digits_end(s, i) < s.len() ==> !is_digit(s[digits_end(s, i)]),
    decreases s.len() - i,
{
    if i < s.len() && is_digit(s[i]) {
        lemma_digits_end(s, i + 1);
    }
}

pub proof fn lemma_ident_end(s: Seq<char>, i: int)
    requires
        0 <= i <= s.len(),
    ensures
        i <= ident_end(s, i) <= s.len(),
    decreases s.len() - i,
{
    if i < s.len() && is_ident_part(s[i]) {
        lemma_ident_end(s, i + 1);
    }
}

/// The first index from `i` on that starts a token: blanks are passed over,
/// and so is a comment, which runs from `//` to the end of its line.
pub open spec fn skip_trivia(s: Seq<char>, i: int) -> int
    decreases s.len() - i,
{
    if i < 0 || i >= s.len() {
        i
    } else if is_space(s[i]) {
        skip_trivia(s, i + 1)
    } else if s[i] == '/' && i + 1 < s.len() && s[i + 1] == '/' {
        proof {
            lemma_line_end(s, i + 2);
        }
        skip_trivia(s, line_end(s, i + 2))
    } else {
        i
    }
}

pub proof fn lemma_skip_trivia(s: Seq<char>, i: int)
    requires
        0 <= i <= s.len(),
    ensures
        i <= skip_trivia(s, i) <= s.len(),
    decreases s.len() - i,
{
    if i < s.len() {
        if is_space(s[i]) {
            lemma_skip_trivia(s, i + 1);
        } else if s[i] == '/' && i + 1 < s.len() && s[i + 1] == '/' {
            lemma_line_end(s, i + 2);
            lemma_skip_trivia(s, line_end(s, i + 2));
        }
    }
}

/// What went wrong in the text.
#[derive(Clone, Copy, Debug, PartialEq, Eq, Structural)]
pub enum Problem {
    UnexpectedCharacter,
    MalformedNumber,
    UnterminatedString,
    UnknownEscape,
}

/// What the scanner says of each problem.
pub open spec fn problem_text(problem: Problem) -> Seq<char> {
    match problem {
        Problem::UnexpectedCharacter => "Unexpected character"@,
        Problem::MalformedNumber => "Malformed number literal"@,
        Problem::UnterminatedString => "Unterminated string"@,
        Problem::UnknownEscape => "Unknown escape sequence"@,
    }
}

/// A token as the text gives it: kind, lexeme, and the characters
/// `start..end` that it was read from.
pub ghost struct Scanned {
    pub kind: TokenType,
    pub text: Seq<char>,
    pub start: int,
    pub end: int,
}

/// A problem with the characters `start..end`.
pub ghost struct LexFailure {
    pub problem: Problem,
    pub start: int,
    pub end: int,
}

/// The character that stands behind a backslash in a string.
pub open spec fn escape(c: char) -> Option<char> {
    if c == 'n' {
        Some('\n')
    } else if c == 't' {
        Some('\t')
    } else if c == 'r' {
        Some('\r')
    } else if c == '0' {
        Some('\0')
    } else if c == '\\' || c == '"' || c == '\'' {
        Some(c)
    } else {
        None
    }
}

/// How the inside of a string ends.
pub ghost enum Quoted {
    /// At the closing quote, with the contents read and the index behind it.
    Closed { text: Seq<char>, end: int },
    /// At a backslash with a character behind it that is no escape.
    BadEscape { at: int },
    /// At the end of the input.
    Open,
}

/// Reads the inside of a string from `i` on, up to the quote that closes it.
/// `text` holds what was read before `i`.
pub open spec fn string_body(s: Seq<char>, i: int, quote: char, text: Seq<char>) -> Quoted
    decreases s.len() - i,
{
    if i < 0 || i >= s.len() {
        Quoted::Open
    } else if s[i] == quote {
        Quoted::Closed { text, end: i + 1 }
    } else if s[i] == '\\' {
        if i + 1 >= s.len() {
            Quoted::Open
        } else {
            match escape(s[i + 1]) {
                Some(c) => string_body(s, i + 2, quote, text.push(c)),
                None => Quoted::BadEscape { at: i },
            }
        }
    } else {
        string_body(s, i + 1, quote, text.push(s[i]))
    }
}

/// The number that starts at `i`: digits, and a point with digits behind it
/// where they follow. A name or a second point with a digit right behind the
/// number makes it malformed, and so does a value that no number holds
/// exactly.
pub open spec fn number_at(s: Seq<char>, i: int) -> Result<Scanned, LexFailure> {
    let whole = digits_end(s, i);
    let fraction = whole + 1 < s.len() && s[whole] == '.' && is_digit(s[whole + 1]);
    let end = if fraction {
        digits_end(s, whole + 1)
    } else {
        whole
    };
    let text = s.subrange(i, end);
    if (end < s.len() && is_ident_start(s[end])) || (fraction && end + 1 < s.len() && s[end] == '.'
        && is_digit(s[end + 1])) || literal_value(text) is None {
        Err(LexFailure { problem: Problem::MalformedNumber, start: i, end })
    } else {
        Ok(Scanned { kind: TokenType::Number, text, start: i, end })
    }
}

/// The name or reserved word that starts at `i`.
pub open spec fn word_at(s: Seq<char>, i: int) -> Scanned {
    let end = ident_end(s, i);
    let text = s.subrange(i, end);
    Scanned {
        kind: match keyword(text) {
            Some(kind) => kind,
            None => TokenType::Identifier,
        },
        text,
        start: i,
        end,
    }
}

/// The string that starts with the quote at `i`.
pub open spec fn string_at(s: Seq<char>, i: int) -> Result<Scanned, LexFailure> {
    match string_body(s, i + 1, s[i], Seq::empty()) {
        Quoted::Closed { text, end } => Ok(Scanned { kind: TokenType::String, text, start: i, end }),
        Quoted::BadEscape { at } => Err(
            LexFailure { problem: Problem::UnknownEscape, start: at, end: at + 2 },
        ),
        Quoted::Open => Err(
            LexFailure { problem: Problem::UnterminatedString, start: i, end: i + 1 },
        ),
    }
}

/// The operator that starts at `i`, with its length: of the next three, two
/// and one characters, the longest that spell one.
pub open spec fn operator_at(s: Seq<char>, i: int) -> Option<(TokenType, int)> {
    if i + 2 < s.len() && symbol3(s[i], s[i + 1], s[i + 2]) is Some {
        Some((symbol3(s[i], s[i + 1], s[i + 2])->0, 3))
    } else if i + 1 < s.len() && symbol2(s[i], s[i + 1]) is Some {
        Some((symbol2(s[i], s[i + 1])->0, 2))
    } else if symbol1(s[i]) is Some {
        Some((symbol1(s[i])->0, 1))
    } else {
        None
    }
}

/// The token that starts at `i`, where `i` holds no blank and starts no
/// comment.
pub open spec fn next_token(s: Seq<char>, i: int) -> Result<Scanned, LexFailure> {
    let c = s[i];
    if is_digit(c) {
        number_at(s, i)
    } else if is_ident_start(c) {
        Ok(word_at(s, i))
    } else if c == '"' || c == '\'' {
        string_at(s, i)
    } else {
        match operator_at(s, i) {
            Some((kind, n)) => Ok(Scanned { kind, text: s.subrange(i, i + n), start: i, end: i + n }),
            None => Err(LexFailure { problem: Problem::UnexpectedCharacter, start: i, end: i + 1 }),
        }
    }
}

pub proof fn lemma_string_body(s: Seq<char>, i: int, quote: char, text: Seq<char>)
    requires
        0 <= i <= s.len(),
    ensures
        string_body(s, i, quote, text) matches Quoted::Closed { end, .. } ==> i < end <= s.len(),
        string_body(s, i, quote, text) matches Quoted::BadEscape { at } ==> i <= at && at + 1
            < s.len(),
    decreases s.len() - i,
{
    if i < s.len() && s[i] != quote {
        if s[i] == '\\' {
            if i + 1 < s.len() {
                match escape(s[i + 1]) {
                    Some(c) => lemma_string_body(s, i + 2, quote, text.push(c)),
                    None => {},
                }
            }
        } else {
            lemma_string_body(s, i + 1, quote, text.push(s[i]));
        }
    }
}

/// A token starts where it was looked for, is not empty, and ends within the
/// text.
pub proof fn lemma_next_token(s: Seq<char>, i: int)
    requires
        0 <= i < s.len(),
    ensures
        next_token(s, i) matches Ok(t) ==> t.start == i && i < t.end <= s.len(),
        next_token(s, i) matches Err(f) ==> i <= f.start < f.end <= s.len(),
{
    lemma_digits_end(s, i);
    if is_digit(s[i]) {
        let whole = digits_end(s, i);
        assert(whole > i);
        if whole + 1 < s.len() {
            lemma_digits_end(s, whole + 1);
        }
    }
    lemma_ident_end(s, i);
    if is_ident_start(s[i]) {
        lemma_ident_end(s, i + 1);
    }
    lemma_string_body(s, i + 1, s[i], Seq::empty());
}

/// Whether the token of this kind is spelled by symbols: an operator or a
/// punctuation mark.
pub open spec fn is_symbol(s: Seq<char>, i: int) -> bool {
    !is_digit(s[i]) && !is_ident_start(s[i]) && s[i] != '"' && s[i] != '\''
}

/// Maximal munch: the token that is read at `i` is the longest that starts
/// there. No operator of more characters starts at `i`, and a name or a
/// number ends only where the next character cannot go on with it.
pub proof fn lemma_longest_token(s: Seq<char>, i: int)
    requires
        0 <= i < s.len(),
    ensures
        next_token(s, i) matches Ok(t) ==> {
            &&& is_symbol(s, i) && t.end - i < 3 ==> !(i + 2 < s.len() && symbol3(
                s[i],
                s[i + 1],
                s[i + 2],
            ) is Some)
            &&& is_symbol(s, i) && t.end - i < 2 ==> !(i + 1 < s.len() && symbol2(s[i], s[i + 1])
                is Some)
            &&& is_ident_start(s[i]) ==> t.end == s.len() || !is_ident_part(s[t.end])
            &&& is_digit(s[i]) ==> t.end == s.len() || (!is_digit(s[t.end]) && !is_ident_start(
                s[t.end],
            ))
        },
{
    lemma_digits_end(s, i);
    if is_digit(s[i]) {
        let whole = digits_end(s, i);
        if whole + 1 < s.len() {
            lemma_digits_end(s, whole + 1);
        }
    }
    lemma_ident_parts(s, i);
}

/// A name ends at the end of the text or before a character that is no part
/// of a name.
pub proof fn lemma_ident_parts(s: Seq<char>, i: int)
    requires
        0 <= i <= s.len(),
    ensures
        ident_end(s, i) == s.len() || !is_ident_part(s[ident_end(s, i)]),
    decreases s.len() - i,
{
    if i < s.len() && is_ident_part(s[i]) {
        lemma_ident_parts(s, i + 1);
    }
}

/// The tokens of `s` from `i` on, behind those in `found`, with the token for
/// the end of the input as the last; or the first problem met.
pub open spec fn scan_from(s: Seq<char>, i: int, found: Seq<Scanned>) -> Result<
    Seq<Scanned>,
    LexFailure,
>
    decreases s.len() - i,
{
    if i < 0 || i > s.len() {
        Ok(found)
    } else {
        let at = skip_trivia(s, i);
        if at >= s.len() {
            Ok(
                found.push(
                    Scanned {
                        kind: TokenType::Eof,
                        text: Seq::empty(),
                        start: s.len() as int,
                        end: s.len() as int,
                    },
                ),
            )
        } else {
            match next_token(s, at) {
                Err(f) => Err(f),
                Ok(t) => {
                    proof {
                        lemma_skip_trivia(s, i);
                        lemma_next_token(s, at);
                    }
                    scan_from(s, t.end, found.push(t))
                },
            }
        }
    }
}

/// The tokens of the text `s`.
pub open spec fn scan_text(s: Seq<char>) -> Result<Seq<Scanned>, LexFailure> {
    scan_from(s, 0, Seq::empty())
}

/// The line of the character at `offset`: one more than the line feeds before
/// it.
pub open spec fn line_of(s: Seq<char>, offset: int) -> int
    decreases offset,
{
    if offset <= 0 {
        1
    } else if s[offset - 1] == '\n' {
        line_of(s, offset - 1) + 1
    } else {
        line_of(s, offset - 1)
    }
}

/// The column of the character at `offset`: one more than the characters
/// between it and the last line feed before it.
pub open spec fn column_of(s: Seq<char>, offset: int) -> int
    decreases offset,
{
    if offset <= 0 || s[offset - 1] == '\n' {
        1
    } else {
        column_of(s, offset - 1) + 1
    }
}

pub proof fn lemma_position_bounds(s: Seq<char>, offset: int)
    requires
        0 <= offset,
    ensures
        1 <= line_of(s, offset) <= offset + 1,
        1 <= column_of(s, offset) <= offset + 1,
    decreases offset,
{
    if offset > 0 {
        lemma_position_bounds(s, offset - 1);
    }
}

/// The location of the character at `offset` of the text `s` called `source`.
pub open spec fn locate<'f>(source: &'f str, s: Seq<char>, offset: int) -> Location<'f> {
    Location {
        source,
        line: line_of(s, offset) as usize,
        column: column_of(s, offset) as usize,
        offset: offset as usize,
    }
}

/// `token` is `scanned`, located in the text `s` called `source`.
pub open spec fn located<'f>(token: Token<'f>, scanned: Scanned, source: &'f str, s: Seq<char>) -> bool {
    &&& token.token_type == scanned.kind
    &&& token.lexeme@ == scanned.text
    &&& token.start == locate(source, s, scanned.start)
    &&& token.end == locate(source, s, scanned.end)
}

/// `tokens` are `found`, one for one.
pub open spec fn all_located<'f>(
    tokens: Seq<Token<'f>>,
    found: Seq<Scanned>,
    source: &'f str,
    s: Seq<char>,
) -> bool {
    &&& tokens.len() == found.len()
    &&& forall|i: int| 0 <= i < tokens.len() ==> located(#[trigger] tokens[i], found[i], source, s)
}

/// `r` is what scanning came to: the tokens located, or the problem as an
/// error over its span.
pub open spec fn reports<'f>(
    r: Result<Vec<Token<'f>>, Error<'f>>,
    outcome: Result<Seq<Scanned>, LexFailure>,
    source: &'f str,
    s: Seq<char>,
) -> bool {
    match outcome {
        Ok(found) => r matches Ok(tokens) && all_located(tokens@, found, source, s),
        Err(f) => r matches Err(e) && e.is(
            ErrorKind::LexicalError,
            locate(source, s, f.start),
            locate(source, s, f.end),
            problem_text(f.problem),
        ),
    }
}

/// A cursor over the characters of one source text.
pub struct Lexer<'f> {
    source: &'f str,
    chars: Vec<char>,
    pos: usize,
    line: usize,
    column: usize,
}

impl<'f> Lexer<'f> {
    /// The cursor stands within the text and knows its line and column.
    pub closed spec fn wf(&self) -> bool {
        &&& self.chars.len() < usize::MAX
        &&& self.pos <= self.chars.len()
        &&& self.line == line_of(self.chars@, self.pos as int)
        &&& self.column == column_of(self.chars@, self.pos as int)
    }

    /// The text under the cursor.
    pub closed spec fn text(&self) -> Seq<char> {
        self.chars@
    }

    /// The name of the text.
    pub closed spec fn source(&self) -> &'f str {
        self.source
    }

    /// The index of the character at which the cursor stands.
    pub closed spec fn offset(&self) -> int {
        self.pos as int
    }

    /// A cursor at the start of `code`, a text called `source`.
    pub fn new(source: &'f str, code: &str) -> (r: Lexer<'f>)
        requires
            code@.len() < usize::MAX,
        ensures
            r.wf(),
            r.text() == code@,
            r.source() == source,
            r.offset() == 0,
    {
        Lexer { source, chars: chars_of(code), pos: 0, line: 1, column: 1 }
    }

    fn here(&self) -> (r: Location<'f>)
        requires
            self.wf(),
        ensures
            r == locate(self.source, self.chars@, self.pos as int),
    {
        Location { source: self.source, line: self.line, column: self.column, offset: self.pos }
    }

    fn advance(&mut self)
        requires
            old(self).wf(),
            old(self).pos < old(self).chars.len(),
        ensures
            final(self).wf(),
            final(self).chars == old(self).chars,
            final(self).source == old(self).source,
            final(self).pos == old(self).pos + 1,
    {
        proof {
            lemma_position_bounds(self.chars@, self.pos as int);
        }
        if self.chars[self.pos] == '\n' {
            self.line += 1;
            self.column = 1;
        } else {
            self.column += 1;
        }
        self.pos += 1;
    }

    fn fail<T>(&self, start: Location<'f>, problem: Problem) -> (r: Result<T, Error<'f>>)
        requires
            self.wf(),
        ensures
            r matches Err(e) && e.is(
                ErrorKind::LexicalError,
                start,
                locate(self.source, self.chars@, self.pos as int),
                problem_text(problem),
            ),
    {
        let message = match problem {
            Problem::UnexpectedCharacter => "Unexpected character",
            Problem::MalformedNumber => "Malformed number literal",
            Problem::UnterminatedString => "Unterminated string",
            Problem::UnknownEscape => "Unknown escape sequence",
        };
        Err(Error::new(ErrorKind::LexicalError, start, self.here(), String::from_str(message)))
    }

    fn skip(&mut self)
        requires
            old(self).wf(),
        ensures
            final(self).wf(),
            final(self).chars == old(self).chars,
            final(self).source == old(self).source,
            final(self).pos == skip_trivia(old(self).chars@, old(self).pos as int),
    {
        loop
            invariant
                self.wf(),
                self.chars == old(self).chars,
                self.source == old(self).source,
                skip_trivia(self.chars@, self.pos as int) == skip_trivia(
                    old(self).chars@,
                    old(self).pos as int,
                ),
            ensures
                self.pos == skip_trivia(old(self).chars@, old(self).pos as int),
            decreases self.chars.len() - self.pos,
        {
            if self.pos >= self.chars.len() {
                break ;
            }
            let c: char = self.chars[self.pos];
            if c == ' ' || c == '\t' || c == '\r' || c == '\n' {
                self.advance();
            } else if c == '/' && self.pos + 1 < self.chars.len() && self.chars[self.pos + 1]
                == '/' {
                let ghost from = self.pos as int;
                self.advance();
                self.advance();
                while self.pos < self.chars.len() && self.chars[self.pos] != '\n'
                    invariant
                        self.wf(),
                        self.chars == old(self).chars,
                        self.source == old(self).source,
                        from + 2 <= self.pos,
                        line_end(self.chars@, self.pos as int) == line_end(self.chars@, from + 2),
                    decreases self.chars.len() - self.pos,
                {
                    self.advance();
                }
            } else {
                break ;
            }
        }
    }

    fn number(&mut self) -> (r: Result<Token<'f>, Error<'f>>)
        requires
            old(self).wf(),
            old(self).pos < old(self).chars.len(),
            is_digit(old(self).chars@[old(self).pos as int]),
        ensures
            final(self).wf(),
            final(self).chars == old(self).chars,
            final(self).source == old(self).source,
            final(self).token(*old(self), r, number_at(old(self).chars@, old(self).pos as int)),
    {
        let start = self.here();
        let from: usize = self.pos;
        self.digits();
        let mut fraction = false;
        if self.pos + 1 < self.chars.len() && self.chars[self.pos] == '.' && self.digit_at(
            self.pos + 1,
        ) {
            fraction = true;
            self.advance();
            self.digits();
        }
        let text = text_of(&self.chars, from, self.pos);
        if self.pos < self.chars.len() && is_name_start(self.chars[self.pos]) {
            return self.fail(start, Problem::MalformedNumber);
        }
        if fraction && self.pos + 1 < self.chars.len() && self.chars[self.pos] == '.'
            && self.digit_at(self.pos + 1) {
            return self.fail(start, Problem::MalformedNumber);
        }
        if Number::from_literal(text.as_str()).is_none() {
            return self.fail(start, Problem::MalformedNumber);
        }
        Ok(Token { token_type: TokenType::Number, lexeme: text, start, end: self.here() })
    }

    fn digit_at(&self, i: usize) -> (r: bool)
        requires
            i < self.chars.len(),
        ensures
            r == is_digit(self.chars@[i as int]),
    {
        '0' <= self.chars[i] && self.chars[i] <= '9'
    }

    fn digits(&mut self)
        requires
            old(self).wf(),
        ensures
            final(self).wf(),
            final(self).chars == old(self).chars,
            final(self).source == old(self).source,
            final(self).pos == digits_end(old(self).chars@, old(self).pos as int),
            old(self).pos <= final(self).pos,
    {
        while self.pos < self.chars.len() && self.digit_at(self.pos)
            invariant
                self.wf(),
                self.chars == old(self).chars,
                self.source == old(self).source,
                old(self).pos <= self.pos,
                digits_end(self.chars@, self.pos as int) == digits_end(
                    old(self).chars@,
                    old(self).pos as int,
                ),
            decreases self.chars.len() - self.pos,
        {
            self.advance();
        }
    }

    fn word(&mut self) -> (r: Token<'f>)
        requires
            old(self).wf(),
            old(self).pos < old(self).chars.len(),
        ensures
            final(self).wf(),
            final(self).chars == old(self).chars,
            final(self).source == old(self).source,
            final(self).token(
                *old(self),
                Ok::<Token<'f>, Error<'f>>(r),
                Ok::<Scanned, LexFailure>(word_at(old(self).chars@, old(self).pos as int)),
            ),
    {
        let start = self.here();
        let from: usize = self.pos;
        while self.pos < self.chars.len() && is_name_part(self.chars[self.pos])
            invariant
                self.wf(),
                self.chars == old(self).chars,
                self.source == old(self).source,
                from <= self.pos,
                ident_end(self.chars@, self.pos as int) == ident_end(self.chars@, from as int),
            decreases self.chars.len() - self.pos,
        {
            self.advance();
        }
        let token_type = match find_keyword(&self.chars, from, self.pos) {
            Some(kind) => kind,
            None => TokenType::Identifier,
        };
        Token { token_type, lexeme: text_of(&self.chars, from, self.pos), start, end: self.here() }
    }

    fn string(&mut self) -> (r: Result<Token<'f>, Error<'f>>)
        requires
            old(self).wf(),
            old(self).pos < old(self).chars.len(),
        ensures
            final(self).wf(),
            final(self).chars == old(self).chars,
            final(self).source == old(self).source,
            final(self).token(*old(self), r, string_at(old(self).chars@, old(self).pos as int)),
    {
        let start = self.here();
        let quote: char = self.chars[self.pos];
        self.advance();
        let behind = self.here();
        let mut text = String::new();
        loop
            invariant
                self.wf(),
                self.chars == old(self).chars,
                self.source == old(self).source,
                start == locate(self.source, self.chars@, old(self).pos as int),
                behind == locate(self.source, self.chars@, old(self).pos + 1),
                quote == self.chars@[old(self).pos as int],
                old(self).pos < self.pos,
                string_body(self.chars@, self.pos as int, quote, text@) == string_body(
                    self.chars@,
                    old(self).pos + 1,
                    quote,
                    Seq::empty(),
                ),
            decreases self.chars.len() - self.pos,
        {
            if self.pos >= self.chars.len() {
                return Err(
                    Error::new(
                        ErrorKind::LexicalError,
                        start,
                        behind,
                        String::from_str("Unterminated string"),
                    ),
                );
            }
            let c: char = self.chars[self.pos];
            if c == quote {
                self.advance();
                return Ok(
                    Token { token_type: TokenType::String, lexeme: text, start, end: self.here() },
                );
            } else if c == '\\' {
                if self.pos + 1 >= self.chars.len() {
                    return Err(
                        Error::new(
                            ErrorKind::LexicalError,
                            start,
                            behind,
                            String::from_str("Unterminated string"),
                        ),
                    );
                }
                let at = self.here();
                self.advance();
                let escaped = find_escape(self.chars[self.pos]);
                self.advance();
                match escaped {
                    Some(e) => text.push(e),
                    None => {
                        return self.fail(at, Problem::UnknownEscape);
                    },
                }
            } else {
                text.push(c);
                self.advance();
            }
        }
    }

    fn operator(&mut self) -> (r: Result<Token<'f>, Error<'f>>)
        requires
            old(self).wf(),
            old(self).pos < old(self).chars.len(),
        ensures
            final(self).wf(),
            final(self).chars == old(self).chars,
            final(self).source == old(self).source,
            final(self).token(
                *old(self),
                r,
                match operator_at(old(self).chars@, old(self).pos as int) {
                    Some((kind, n)) => Ok(
                        Scanned {
                            kind,
                            text: old(self).chars@.subrange(
                                old(self).pos as int,
                                old(self).pos + n,
                            ),
                            start: old(self).pos as int,
                            end: old(self).pos + n,
                        },
                    ),
                    None => Err(
                        LexFailure {
                            problem: Problem::UnexpectedCharacter,
                            start: old(self).pos as int,
                            end: old(self).pos + 1,
                        },
                    ),
                },
            ),
    {
        let start = self.here();
        let from: usize = self.pos;
        let a: char = self.chars[from];
        let mut found: Option<TokenType> = None;
        let mut n: usize = 1;
        if from + 2 < self.chars.len() {
            found = find_symbol3(a, self.chars[from + 1], self.chars[from + 2]);
            n = 3;
        }
        if found.is_none() && from + 1 < self.chars.len() {
            found = find_symbol2(a, self.chars[from + 1]);
            n = 2;
        }
        if found.is_none() {
            found = find_symbol1(a);
            n = 1;
        }
        match found {
            Some(token_type) => {
                let mut i: usize = 0;
                while i < n
                    invariant
                        self.wf(),
                        self.chars == old(self).chars,
                        self.source == old(self).source,
                        0 <= i <= n,
                        self.pos == from + i,
                        from + n <= self.chars.len(),
                    decreases n - i,
                {
                    self.advance();
                    i += 1;
                }
                Ok(
                    Token {
                        token_type,
                        lexeme: text_of(&self.chars, from, self.pos),
                        start,
                        end: self.here(),
                    },
                )
            },
            None => {
                self.advance();
                self.fail(start, Problem::UnexpectedCharacter)
            },
        }
    }

    /// `r` is `outcome`, a token that starts where `before` stood, located;
    /// and where it is a token, the cursor stands behind it.
    pub closed spec fn token(
        &self,
        before: Lexer<'f>,
        r: Result<Token<'f>, Error<'f>>,
        outcome: Result<Scanned, LexFailure>,
    ) -> bool {
        match outcome {
            Ok(t) => r matches Ok(token) && located(token, t, before.source, before.chars@)
                && self.pos == t.end,
            Err(f) => r matches Err(e) && e.is(
                ErrorKind::LexicalError,
                locate(before.source, before.chars@, f.start),
                locate(before.source, before.chars@, f.end),
                problem_text(f.problem),
            ),
        }
    }

    fn next(&mut self) -> (r: Result<Token<'f>, Error<'f>>)
        requires
            old(self).wf(),
            old(self).pos < old(self).chars.len(),
        ensures
            final(self).wf(),
            final(self).chars == old(self).chars,
            final(self).source == old(self).source,
            final(self).token(*old(self), r, next_token(old(self).chars@, old(self).pos as int)),
    {
        let c: char = self.chars[self.pos];
        if '0' <= c && c <= '9' {
            self.number()
        } else if is_name_start(c) {
            Ok(self.word())
        } else if c == '"' || c == '\'' {
            self.string()
        } else {
            self.operator()
        }
    }

    /// Scans the text from the cursor on: the tokens in order, with the token
    /// for the end of the input as the last, or the first problem met.
    pub fn scan(&mut self) -> (r: Result<Vec<Token<'f>>, Error<'f>>)
        requires
            old(self).wf(),
        ensures
            final(self).wf(),
            final(self).text() == old(self).text(),
            final(self).source() == old(self).source(),
            reports(
                r,
                scan_from(old(self).text(), old(self).offset(), Seq::empty()),
                old(self).source(),
                old(self).text(),
            ),
    {
        let mut tokens: Vec<Token<'f>> = Vec::new();
        let ghost mut found: Seq<Scanned> = Seq::empty();
        loop
            invariant
                self.wf(),
                self.chars == old(self).chars,
                self.source == old(self).source,
                all_located(tokens@, found, self.source, self.chars@),
                scan_from(self.chars@, self.pos as int, found) == scan_from(
                    old(self).chars@,
                    old(self).pos as int,
                    Seq::empty(),
                ),
            decreases self.chars.len() - self.pos,
        {
            let ghost from = self.pos as int;
            self.skip();
            proof {
                lemma_skip_trivia(self.chars@, from);
            }
            if self.pos >= self.chars.len() {
                let end = self.here();
                tokens.push(
                    Token { token_type: TokenType::Eof, lexeme: String::new(), start: end, end },
                );
                return Ok(tokens);
            }
            proof {
                lemma_next_token(self.chars@, self.pos as int);
            }
            match self.next() {
                Ok(token) => {
                    proof {
                        found = found.push(next_token(self.chars@, skip_trivia(self.chars@, from))->Ok_0);
                    }
                    tokens.push(token);
                },
                Err(e) => {
                    return Err(e);
                },
            }
        }
    }
}

fn is_name_start(c: char) -> (r: bool)
    ensures
        r == is_ident_start(c),
{
    ('a' <= c && c <= 'z') || ('A' <= c && c <= 'Z') || c == '_'
}

fn is_name_part(c: char) -> (r: bool)
    ensures
        r == is_ident_part(c),
{
    is_name_start(c) || ('0' <= c && c <= '9')
}

fn find_escape(c: char) -> (r: Option<char>)
    ensures
        r == escape(c),
{
    if c == 'n' {
        Some('\n')
    } else if c == 't' {
        Some('\t')
    } else if c == 'r' {
        Some('\r')
    } else if c == '0' {
        Some('\0')
    } else if c == '\\' || c == '"' || c == '\'' {
        Some(c)
    } else {
        None
    }
}

/// Scans `code`, a text called `source`.
pub fn tokenize<'f>(source: &'f str, code: &str) -> (r: Result<Vec<Token<'f>>, Error<'f>>)
    requires
        code@.len() < usize::MAX,
    ensures
        reports(r, scan_text(code@), source, code@),
{
    let mut lexer = Lexer::new(source, code);
    lexer.scan()
}

} // verus!
