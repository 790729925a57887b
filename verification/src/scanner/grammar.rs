//! The lexical grammar, as mathematical functions from source text to tokens.
//!
//! Source text is a sequence of characters and a position is an index into
//! it. [`step`] says what the one lexical item that starts at a position is
//! and where it ends; [`tokens_from`] and [`diagnostics_from`] collect what
//! the steps from a position to the end of the text produce. The tests on
//! single characters that the scanner runs stand beside the sets they decide.

use crate::scanner::token::{keyword_of, Diagnostic, LexError, TokenType, TokenView};
use vstd::prelude::*;

verus! {

/// A decimal digit.
pub open spec fn is_digit(c: char) -> bool {
    '0' <= c <= '9'
}

/// An ASCII letter or an underscore: what an identifier may start with.
pub open spec fn is_alpha(c: char) -> bool {
    ('a' <= c <= 'z') || ('A' <= c <= 'Z') || c == '_'
}

/// What an identifier may go on with: a letter, a digit or an underscore.
pub open spec fn is_alphanumeric(c: char) -> bool {
    is_alpha(c) || is_digit(c)
}

/// A character that separates tokens and is otherwise ignored.
pub open spec fn is_whitespace(c: char) -> bool {
    c == ' ' || c == '\r' || c == '\t' || c == '\n'
}

/// Tests for a decimal digit.
pub fn digit(c: char) -> (yes: bool)
    ensures
        yes == is_digit(c),
{
    '0' <= c && c <= '9'
}

/// Tests for an ASCII letter or an underscore.
pub fn alpha(c: char) -> (yes: bool)
    ensures
        yes == is_alpha(c),
{
    ('a' <= c && c <= 'z') || ('A' <= c && c <= 'Z') || c == '_'
}

/// The sets of characters that the scanner consumes in runs.
#[derive(Clone, Copy, Debug, PartialEq, Eq, Structural)]
pub enum CharClass {
    /// Decimal digits.
    Digit,
    /// Letters, digits and underscores.
    Alphanumeric,
    /// Everything but a newline: the rest of a line comment.
    CommentBody,
    /// Everything but a double quote: the inside of a string literal.
    StringBody,
}

impl CharClass {
    /// Whether `c` belongs to this class.
    pub open spec fn contains(self, c: char) -> bool {
        match self {
            CharClass::Digit => is_digit(c),
            CharClass::Alphanumeric => is_alphanumeric(c),
            CharClass::CommentBody => c != '\n',
            CharClass::StringBody => c != '"',
        }
    }

    /// Tests whether `c` belongs to this class.
    pub fn accepts(self, c: char) -> (yes: bool)
        ensures
            yes == self.contains(c),
    {
        match self {
            CharClass::Digit => digit(c),
            CharClass::Alphanumeric => alpha(c) || digit(c),
            CharClass::CommentBody => c != '\n',
            CharClass::StringBody => c != '"',
        }
    }
}

/// Where the longest run of characters of `class` that starts at `pos` ends:
/// the first position at or after `pos` that holds a character outside
/// `class`, or the length of `source` if there is none.
pub open spec fn run_end(source: Seq<char>, pos: int, class: CharClass) -> int
    decreases source.len() - pos,
{
    if 0 <= pos < source.len() && class.contains(source[pos]) {
        run_end(source, pos + 1, class)
    } else {
        pos
    }
}

/// The number of newlines among the first `pos` characters of `source`.
pub open spec fn newlines_before(source: Seq<char>, pos: int) -> nat
    decreases pos,
{
    if pos <= 0 {
        0
    } else if pos <= source.len() && source[pos - 1] == '\n' {
        newlines_before(source, pos - 1) + 1
    } else {
        newlines_before(source, pos - 1)
    }
}

/// The line that position `pos` of `source` is on. Lines are counted from 1,
/// each newline ends one, and the count stops at `u32::MAX`.
pub open spec fn line_number(source: Seq<char>, pos: int) -> u32 {
    let line = newlines_before(source, pos) + 1;
    if line <= u32::MAX {
        line as u32
    } else {
        u32::MAX
    }
}

/// What one lexical item amounts to.
pub enum Lexed {
    /// Whitespace, a comment, or a lone `/` that ends the input: nothing.
    Skipped,
    /// A token of the given kind and lexeme.
    Token { token_type: TokenType, lexeme: Option<Seq<char>> },
    /// A lexical error.
    Error(LexError),
}

/// One lexical item: what it amounts to and the position just after it.
pub struct Step {
    pub lexed: Lexed,
    pub next: int,
}

/// A token that has no lexeme and ends just before `next`.
pub open spec fn fixed(token_type: TokenType, next: int) -> Step {
    Step { lexed: Lexed::Token { token_type, lexeme: None }, next }
}

/// The item at `pos`, where `!`, `=`, `<` or `>` stands: the two-character
/// operator `double` if an `=` follows directly, else `single`.
pub open spec fn operator_step(
    source: Seq<char>,
    pos: int,
    single: TokenType,
    double: TokenType,
) -> Step {
    if pos + 1 < source.len() && source[pos + 1] == '=' {
        fixed(double, pos + 2)
    } else {
        fixed(single, pos + 1)
    }
}

/// Where the line comment whose `//` starts at `pos` ends: just after the
/// next newline, or at the end of the text if no newline follows.
pub open spec fn comment_end(source: Seq<char>, pos: int) -> int {
    let newline = run_end(source, pos + 2, CharClass::CommentBody);
    if newline < source.len() {
        newline + 1
    } else {
        newline
    }
}

/// The item at `pos`, where a `/` stands. A second `/` makes a comment that
/// runs up to and including the next newline, or to the end of the input.
/// Before any other character the `/` is a token. A `/` that is the last
/// character of the input is dropped.
pub open spec fn slash_step(source: Seq<char>, pos: int) -> Step {
    if pos + 1 >= source.len() {
        Step { lexed: Lexed::Skipped, next: pos + 1 }
    } else if source[pos + 1] == '/' {
        Step { lexed: Lexed::Skipped, next: comment_end(source, pos) }
    } else {
        fixed(TokenType::Slash, pos + 1)
    }
}

/// The item at `pos`, where a `"` stands: a string whose lexeme is
/// everything up to the next `"`, or an error if there is no next `"`.
pub open spec fn string_step(source: Seq<char>, pos: int) -> Step {
    let closing = run_end(source, pos + 1, CharClass::StringBody);
    if closing < source.len() {
        Step {
            lexed: Lexed::Token {
                token_type: TokenType::String,
                lexeme: Some(source.subrange(pos + 1, closing)),
            },
            next: closing + 1,
        }
    } else {
        Step { lexed: Lexed::Error(LexError::UnterminatedString), next: closing }
    }
}

/// Where the number that starts at `pos` ends: after its digits, and after
/// one `.` and the digits behind it if a digit follows the `.` directly.
pub open spec fn number_end(source: Seq<char>, pos: int) -> int {
    let whole = run_end(source, pos, CharClass::Digit);
    if whole + 1 < source.len() && source[whole] == '.' && is_digit(source[whole + 1]) {
        run_end(source, whole + 1, CharClass::Digit)
    } else {
        whole
    }
}

/// The item at `pos`, where a digit stands: a number.
pub open spec fn number_step(source: Seq<char>, pos: int) -> Step {
    let end = number_end(source, pos);
    Step {
        lexed: Lexed::Token {
            token_type: TokenType::Number,
            lexeme: Some(source.subrange(pos, end)),
        },
        next: end,
    }
}

/// What a whole word is: the keyword it spells, or else an identifier.
pub open spec fn word_token(word: Seq<char>) -> Lexed {
    match keyword_of(word) {
        Some(keyword) => Lexed::Token { token_type: keyword, lexeme: None },
        None => Lexed::Token { token_type: TokenType::Identifier, lexeme: Some(word) },
    }
}

/// The item at `pos`, where a letter or an underscore stands: the longest
/// word that starts there, as a keyword or an identifier.
pub open spec fn identifier_step(source: Seq<char>, pos: int) -> Step {
    let end = run_end(source, pos, CharClass::Alphanumeric);
    Step { lexed: word_token(source.subrange(pos, end)), next: end }
}

/// Whether `c` can begin a lexical item that is not an error: a token,
/// whitespace or a comment.
pub open spec fn is_recognized(c: char) -> bool {
    ||| c == '(' || c == ')' || c == '{' || c == '}' || c == ',' || c == '.'
    ||| c == '-' || c == '+' || c == ';' || c == '*'
    ||| c == '!' || c == '=' || c == '<' || c == '>' || c == '/'
    ||| c == '"'
    ||| is_whitespace(c)
    ||| is_digit(c)
    ||| is_alpha(c)
}

/// The lexical item that starts at `pos`, for `0 <= pos < source.len()`.
pub open spec fn step(source: Seq<char>, pos: int) -> Step {
    let c = source[pos];
    if c == '(' {
        fixed(TokenType::LeftParen, pos + 1)
    } else if c == ')' {
        fixed(TokenType::RightParen, pos + 1)
    } else if c == '{' {
        fixed(TokenType::LeftBrace, pos + 1)
    } else if c == '}' {
        fixed(TokenType::RightBrace, pos + 1)
    } else if c == ',' {
        fixed(TokenType::Comma, pos + 1)
    } else if c == '.' {
        fixed(TokenType::Dot, pos + 1)
    } else if c == '-' {
        fixed(TokenType::Minus, pos + 1)
    } else if c == '+' {
        fixed(TokenType::Plus, pos + 1)
    } else if c == ';' {
        fixed(TokenType::Semicolon, pos + 1)
    } else if c == '*' {
        fixed(TokenType::Star, pos + 1)
    } else if c == '!' {
        operator_step(source, pos, TokenType::Bang, TokenType::BangEqual)
    } else if c == '=' {
        operator_step(source, pos, TokenType::Equal, TokenType::EqualEqual)
    } else if c == '<' {
        operator_step(source, pos, TokenType::Less, TokenType::LessEqual)
    } else if c == '>' {
        operator_step(source, pos, TokenType::Greater, TokenType::GreaterEqual)
    } else if c == '/' {
        slash_step(source, pos)
    } else if is_whitespace(c) {
        Step { lexed: Lexed::Skipped, next: pos + 1 }
    } else if c == '"' {
        string_step(source, pos)
    } else if is_digit(c) {
        number_step(source, pos)
    } else if is_alpha(c) {
        identifier_step(source, pos)
    } else {
        Step { lexed: Lexed::Error(LexError::UnrecognizedCharacter(c)), next: pos + 1 }
    }
}

/// The tokens that an item found on line `line` adds to the output.
pub open spec fn emitted(lexed: Lexed, line: u32) -> Seq<TokenView> {
    match lexed {
        Lexed::Token { token_type, lexeme } => seq![TokenView { token_type, lexeme, line }],
        _ => Seq::empty(),
    }
}

/// The diagnostics that an item found on line `line` gives rise to.
pub open spec fn reported(lexed: Lexed, line: u32) -> Seq<Diagnostic> {
    match lexed {
        Lexed::Error(error) => seq![Diagnostic { error, line }],
        _ => Seq::empty(),
    }
}

/// The token that closes every token sequence, on the last line of `source`.
pub open spec fn end_of_input(source: Seq<char>) -> TokenView {
    TokenView {
        token_type: TokenType::EOF,
        lexeme: None,
        line: line_number(source, source.len() as int),
    }
}

/// The tokens of `source` from position `pos` on, the end-of-input token
/// last. Each token carries the line of its first character.
pub open spec fn tokens_from(source: Seq<char>, pos: int) -> Seq<TokenView>
    decreases source.len() - pos,
    via tokens_from_decreases
{
    if 0 <= pos < source.len() {
        let item = step(source, pos);
        emitted(item.lexed, line_number(source, pos)) + tokens_from(source, item.next)
    } else {
        seq![end_of_input(source)]
    }
}

/// The diagnostics for `source` from position `pos` on, in source order.
/// Each carries the line of the first character of the item it is about.
pub open spec fn diagnostics_from(source: Seq<char>, pos: int) -> Seq<Diagnostic>
    decreases source.len() - pos,
    via diagnostics_from_decreases
{
    if 0 <= pos < source.len() {
        let item = step(source, pos);
        reported(item.lexed, line_number(source, pos)) + diagnostics_from(source, item.next)
    } else {
        Seq::empty()
    }
}

/// The token sequence of a whole source text.
pub open spec fn scan(source: Seq<char>) -> Seq<TokenView> {
    tokens_from(source, 0)
}

/// The diagnostics for a whole source text.
pub open spec fn diagnose(source: Seq<char>) -> Seq<Diagnostic> {
    diagnostics_from(source, 0)
}

/// Whether `source` from position `pos` on is made up of whitespace and
/// line comments and nothing else.
pub open spec fn is_blank_from(source: Seq<char>, pos: int) -> bool
    decreases source.len() - pos,
    via is_blank_from_decreases
{
    if pos < 0 || pos >= source.len() {
        true
    } else if is_whitespace(source[pos]) {
        is_blank_from(source, pos + 1)
    } else if source[pos] == '/' && pos + 1 < source.len() && source[pos + 1] == '/' {
        is_blank_from(source, comment_end(source, pos))
    } else {
        false
    }
}

/// Whether `source` is made up of whitespace and line comments and nothing
/// else.
pub open spec fn is_blank(source: Seq<char>) -> bool {
    is_blank_from(source, 0)
}

#[via_fn]
proof fn is_blank_from_decreases(source: Seq<char>, pos: int) {
    if 0 <= pos && pos + 1 < source.len() {
        lemma_run_end(source, pos + 2, CharClass::CommentBody);
    }
}

#[via_fn]
proof fn tokens_from_decreases(source: Seq<char>, pos: int) {
    if 0 <= pos < source.len() {
        lemma_step_advances(source, pos);
    }
}

#[via_fn]
proof fn diagnostics_from_decreases(source: Seq<char>, pos: int) {
    if 0 <= pos < source.len() {
        lemma_step_advances(source, pos);
    }
}

/// A run ends between its start and the end of the text; everything in it
/// belongs to the class, and what follows it, if anything, does not.
pub proof fn lemma_run_end(source: Seq<char>, pos: int, class: CharClass)
    requires
        0 <= pos <= source.len(),
    ensures
        pos <= run_end(source, pos, class) <= source.len(),
        forall|i: int|
            pos <= i < run_end(source, pos, class) ==> class.contains(#[trigger] source[i]),
        run_end(source, pos, class) < source.len() ==> !class.contains(
            source[run_end(source, pos, class)],
        ),
    decreases source.len() - pos,
{
    if pos < source.len() && class.contains(source[pos]) {
        lemma_run_end(source, pos + 1, class);
    }
}

/// Every item is at least one character long and ends within the text.
pub proof fn lemma_step_advances(source: Seq<char>, pos: int)
    requires
        0 <= pos < source.len(),
    ensures
        pos < step(source, pos).next <= source.len(),
{
    lemma_run_end(source, pos, CharClass::Digit);
    lemma_run_end(source, pos, CharClass::Alphanumeric);
    lemma_run_end(source, pos + 1, CharClass::StringBody);
    let whole = run_end(source, pos, CharClass::Digit);
    if whole < source.len() {
        lemma_run_end(source, whole + 1, CharClass::Digit);
    }
    if pos + 2 <= source.len() {
        lemma_run_end(source, pos + 2, CharClass::CommentBody);
    }
}

} // verus!
