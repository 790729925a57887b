//! The scanner: a cursor over the source text and the tokens produced so far.

use crate::scanner::grammar::{
    alpha, diagnose, diagnostics_from, digit, emitted, end_of_input, identifier_step, is_alpha,
    is_digit, lemma_run_end, lemma_step_advances, line_number, number_step, operator_step,
    reported, run_end, scan, slash_step, step, string_step, tokens_from, CharClass, Step,
};
use crate::scanner::theorems::theorem_end_of_input_is_last;
use crate::scanner::token::{
    keyword, token_views, Diagnostic, LexError, Token, TokenType, TokenView,
};
use vstd::prelude::*;
use vstd::slice::slice_subrange;

pub mod grammar;
pub mod theorems;
pub mod token;

verus! {

/// `String::push` of the standard library appends the character to the end
/// of the string and changes nothing else of it.
pub assume_specification[ std::string::String::push ](s: &mut std::string::String, ch: char)
    ensures
        final(s)@ == old(s)@.push(ch),
;

/// The state of a scanner as a mathematical value.
pub struct ScannerView {
    /// The text being scanned.
    pub source: Seq<char>,
    /// The index of the next character to consume.
    pub position: int,
    /// The line that `position` is on.
    pub line: u32,
    /// The tokens produced so far.
    pub tokens: Seq<TokenView>,
    /// The lexical errors found so far.
    pub diagnostics: Seq<Diagnostic>,
}

impl ScannerView {
    /// The cursor is within the text and the line counter agrees with it.
    pub open spec fn wf(self) -> bool {
        &&& 0 <= self.position <= self.source.len()
        &&& self.line == line_number(self.source, self.position)
    }

    /// The state in which the scan of `source` begins.
    pub open spec fn start(source: Seq<char>) -> ScannerView {
        ScannerView {
            source,
            position: 0,
            line: 1,
            tokens: Seq::empty(),
            diagnostics: Seq::empty(),
        }
    }

    /// This state with the cursor moved to `position`.
    pub open spec fn at(self, position: int) -> ScannerView {
        ScannerView { position, line: line_number(self.source, position), ..self }
    }

    /// Two states with the same components are the same state.
    proof fn lemma_equal(self, other: ScannerView)
        requires
            self.source =~= other.source,
            self.position == other.position,
            self.line == other.line,
            self.tokens =~= other.tokens,
            self.diagnostics =~= other.diagnostics,
        ensures
            self == other,
    {
    }

    /// This state after the item `item`, which starts on line `line`, has
    /// been consumed and its token or diagnostic recorded.
    pub open spec fn after(self, item: Step, line: u32) -> ScannerView {
        ScannerView {
            tokens: self.tokens + emitted(item.lexed, line),
            diagnostics: self.diagnostics + reported(item.lexed, line),
            ..self.at(item.next)
        }
    }
}

/// A cursor over a source text, with the tokens and diagnostics that the
/// text before the cursor gave.
pub struct Scanner {
    source: Vec<char>,
    tokens: Vec<Token>,
    diagnostics: Vec<Diagnostic>,
    current: usize,
    line: u32,
}

impl View for Scanner {
    type V = ScannerView;

    closed spec fn view(&self) -> ScannerView {
        ScannerView {
            source: self.source@,
            position: self.current as int,
            line: self.line,
            tokens: token_views(self.tokens@),
            diagnostics: self.diagnostics@,
        }
    }
}

impl Scanner {
    /// A scanner at the start of `source`, on line 1, with nothing produced.
    pub fn new(source: &String) -> (scanner: Scanner)
        ensures
            scanner@ == ScannerView::start(source@),
            scanner@.wf(),
    {
        let mut chars: Vec<char> = Vec::new();
        for c in it: source.as_str().chars()
            invariant
                chars@ == it.seq().take(it.index()),
        {
            chars.push(c);
        }
        assert(chars@ == source@);
        let scanner = Scanner {
            source: chars,
            tokens: Vec::new(),
            diagnostics: Vec::new(),
            current: 0,
            line: 1,
        };
        assert(scanner@.tokens =~= Seq::empty());
        scanner
    }

    /// The next character, which stays unconsumed.
    fn peek_char(&self) -> (c: Option<char>)
        requires
            self@.wf(),
        ensures
            c == if self@.position < self@.source.len() {
                Some(self@.source[self@.position])
            } else {
                None
            },
    {
        if self.current < self.source.len() {
            Some(self.source[self.current])
        } else {
            None
        }
    }

    /// The character after the next one, which stays unconsumed too.
    fn peek_next_char(&self) -> (c: Option<char>)
        requires
            self@.wf(),
        ensures
            c == if self@.position + 1 < self@.source.len() {
                Some(self@.source[self@.position + 1])
            } else {
                None
            },
    {
        if self.current < self.source.len() && self.current + 1 < self.source.len() {
            Some(self.source[self.current + 1])
        } else {
            None
        }
    }

    /// Consumes the next character, if there is one, and counts the line
    /// that a newline ends.
    fn next_char(&mut self) -> (c: Option<char>)
        requires
            old(self)@.wf(),
        ensures
            final(self)@.wf(),
            old(self)@.position < old(self)@.source.len() ==> c == Some(
                old(self)@.source[old(self)@.position],
            ) && final(self)@ == old(self)@.at(old(self)@.position + 1),
            old(self)@.position >= old(self)@.source.len() ==> c is None && final(self)@ == old(
                self,
            )@,
    {
        if self.current < self.source.len() {
            let c: char = self.source[self.current];
            if c == '\n' && self.line < u32::MAX {
                self.line = self.line + 1;
            }
            self.current = self.current + 1;
            Some(c)
        } else {
            None
        }
    }

    /// Consumes the longest run of characters of `class` at the cursor.
    fn skip_run(&mut self, class: CharClass)
        requires
            old(self)@.wf(),
        ensures
            final(self)@.wf(),
            final(self)@ == old(self)@.at(
                run_end(old(self)@.source, old(self)@.position, class),
            ),
    {
        while self.current < self.source.len() && class.accepts(self.source[self.current])
            invariant
                self@.wf(),
                self@ == old(self)@.at(self@.position),
                run_end(self@.source, self@.position, class) == run_end(
                    old(self)@.source,
                    old(self)@.position,
                    class,
                ),
            decreases self@.source.len() - self@.position,
        {
            self.next_char();
        }
    }

    /// The characters of the source from `start` up to `end`, as text.
    fn lexeme(&self, start: usize, end: usize) -> (text: String)
        requires
            start <= end <= self@.source.len(),
        ensures
            text@ == self@.source.subrange(start as int, end as int),
    {
        let mut text = String::new();
        let mut i: usize = start;
        while i < end
            invariant
                start <= i <= end <= self.source@.len(),
                text@ == self.source@.subrange(start as int, i as int),
            decreases end - i,
        {
            text.push(self.source[i]);
            i = i + 1;
        }
        text
    }

    /// Appends a token to the output.
    fn add_token(&mut self, token_type: TokenType, lexeme: Option<String>, line: u32)
        ensures
            final(self)@ == (ScannerView {
                tokens: old(self)@.tokens.push(
                    TokenView {
                        token_type,
                        lexeme: match lexeme {
                            Some(text) => Some(text@),
                            None => None,
                        },
                        line,
                    },
                ),
                ..old(self)@
            }),
    {
        let token = Token::new(token_type, lexeme, line);
        self.tokens.push(token);
        assert(token_views(self.tokens@) =~= token_views(old(self).tokens@).push(token@));
    }

    /// Records a lexical error found on line `line`.
    fn report(&mut self, error: LexError, line: u32)
        ensures
            final(self)@ == (ScannerView {
                diagnostics: old(self)@.diagnostics.push(Diagnostic { error, line }),
                ..old(self)@
            }),
    {
        self.diagnostics.push(Diagnostic { error, line });
    }

    /// Scans the rest of a string literal whose opening quote was just
    /// consumed, up to and including its closing quote. Without a closing
    /// quote the rest of the input is consumed and the string is reported
    /// as unterminated.
    fn scan_string(&mut self)
        requires
            old(self)@.wf(),
            old(self)@.position >= 1,
            old(self)@.source[old(self)@.position - 1] == '"',
        ensures
            final(self)@.wf(),
            final(self)@ == old(self)@.after(
                string_step(old(self)@.source, old(self)@.position - 1),
                old(self)@.line,
            ),
    {
        let line: u32 = self.line;
        let start: usize = self.current;
        self.skip_run(CharClass::StringBody);
        proof {
            lemma_run_end(old(self)@.source, old(self)@.position, CharClass::StringBody);
        }
        if self.current < self.source.len() {
            let lexeme = self.lexeme(start, self.current);
            self.next_char();
            self.add_token(TokenType::String, Some(lexeme), line);
        } else {
            self.report(LexError::UnterminatedString, line);
        }
        proof {
            self@.lemma_equal(old(self)@.after(
                string_step(old(self)@.source, old(self)@.position - 1),
                old(self)@.line,
            ));
        }
    }

    /// Scans the rest of a number whose first digit was just consumed.
    fn scan_number(&mut self)
        requires
            old(self)@.wf(),
            old(self)@.position >= 1,
            is_digit(old(self)@.source[old(self)@.position - 1]),
        ensures
            final(self)@.wf(),
            final(self)@ == old(self)@.after(
                number_step(old(self)@.source, old(self)@.position - 1),
                old(self)@.line,
            ),
    {
        let line: u32 = self.line;
        let start: usize = self.current - 1;
        self.skip_run(CharClass::Digit);
        proof {
            lemma_run_end(old(self)@.source, old(self)@.position, CharClass::Digit);
        }
        let fraction: bool = match (self.peek_char(), self.peek_next_char()) {
            (Some('.'), Some(c)) => digit(c),
            _ => false,
        };
        if fraction {
            self.next_char();
            proof {
                lemma_run_end(self@.source, self@.position, CharClass::Digit);
            }
            self.skip_run(CharClass::Digit);
        }
        let lexeme = self.lexeme(start, self.current);
        self.add_token(TokenType::Number, Some(lexeme), line);
        proof {
            self@.lemma_equal(old(self)@.after(
                number_step(old(self)@.source, old(self)@.position - 1),
                old(self)@.line,
            ));
        }
    }

    /// Scans the rest of a word whose first character was just consumed, and
    /// adds the keyword that the word spells or else an identifier.
    fn scan_identifier(&mut self)
        requires
            old(self)@.wf(),
            old(self)@.position >= 1,
            is_alpha(old(self)@.source[old(self)@.position - 1]),
        ensures
            final(self)@.wf(),
            final(self)@ == old(self)@.after(
                identifier_step(old(self)@.source, old(self)@.position - 1),
                old(self)@.line,
            ),
    {
        let line: u32 = self.line;
        let start: usize = self.current - 1;
        self.skip_run(CharClass::Alphanumeric);
        proof {
            lemma_run_end(old(self)@.source, old(self)@.position, CharClass::Alphanumeric);
        }
        match keyword(slice_subrange(self.source.as_slice(), start, self.current)) {
            Some(reserved) => self.add_token(reserved, None, line),
            None => {
                let lexeme = self.lexeme(start, self.current);
                self.add_token(TokenType::Identifier, Some(lexeme), line);
            },
        }
        proof {
            self@.lemma_equal(old(self)@.after(
                identifier_step(old(self)@.source, old(self)@.position - 1),
                old(self)@.line,
            ));
        }
    }

    /// Adds `double` and consumes the `=` at the cursor if there is one
    /// there; adds `single` otherwise. The operator's first character was
    /// just consumed.
    fn scan_operator(&mut self, single: TokenType, double: TokenType)
        requires
            old(self)@.wf(),
            old(self)@.position >= 1,
            old(self)@.source[old(self)@.position - 1] != '\n',
        ensures
            final(self)@.wf(),
            final(self)@ == old(self)@.after(
                operator_step(old(self)@.source, old(self)@.position - 1, single, double),
                old(self)@.line,
            ),
    {
        let line: u32 = self.line;
        match self.peek_char() {
            Some('=') => {
                self.next_char();
                self.add_token(double, None, line);
            },
            _ => self.add_token(single, None, line),
        }
        proof {
            self@.lemma_equal(old(self)@.after(
                operator_step(old(self)@.source, old(self)@.position - 1, single, double),
                old(self)@.line,
            ));
        }
    }

    /// Scans what follows a `/` that was just consumed: the rest of a
    /// comment if a second `/` follows, else nothing.
    fn scan_slash(&mut self)
        requires
            old(self)@.wf(),
            old(self)@.position >= 1,
            old(self)@.source[old(self)@.position - 1] == '/',
        ensures
            final(self)@.wf(),
            final(self)@ == old(self)@.after(
                slash_step(old(self)@.source, old(self)@.position - 1),
                old(self)@.line,
            ),
    {
        let line: u32 = self.line;
        match self.peek_char() {
            Some('/') => {
                self.next_char();
                self.skip_run(CharClass::CommentBody);
                proof {
                    lemma_run_end(
                        old(self)@.source,
                        old(self)@.position + 1,
                        CharClass::CommentBody,
                    );
                }
                self.next_char();
            },
            Some(_) => self.add_token(TokenType::Slash, None, line),
            None => {},
        }
        proof {
            self@.lemma_equal(old(self)@.after(
                slash_step(old(self)@.source, old(self)@.position - 1),
                old(self)@.line,
            ));
        }
    }

    /// Scans the one lexical item at the cursor.
    fn scan_token(&mut self)
        requires
            old(self)@.wf(),
            old(self)@.position < old(self)@.source.len(),
        ensures
            final(self)@.wf(),
            final(self)@ == old(self)@.after(
                step(old(self)@.source, old(self)@.position),
                old(self)@.line,
            ),
    {
        let line: u32 = self.line;
        match self.next_char() {
            Some('(') => self.add_token(TokenType::LeftParen, None, line),
            Some(')') => self.add_token(TokenType::RightParen, None, line),
            Some('{') => self.add_token(TokenType::LeftBrace, None, line),
            Some('}') => self.add_token(TokenType::RightBrace, None, line),
            Some(',') => self.add_token(TokenType::Comma, None, line),
            Some('.') => self.add_token(TokenType::Dot, None, line),
            Some('-') => self.add_token(TokenType::Minus, None, line),
            Some('+') => self.add_token(TokenType::Plus, None, line),
            Some(';') => self.add_token(TokenType::Semicolon, None, line),
            Some('*') => self.add_token(TokenType::Star, None, line),
            Some('!') => self.scan_operator(TokenType::Bang, TokenType::BangEqual),
            Some('=') => self.scan_operator(TokenType::Equal, TokenType::EqualEqual),
            Some('<') => self.scan_operator(TokenType::Less, TokenType::LessEqual),
            Some('>') => self.scan_operator(TokenType::Greater, TokenType::GreaterEqual),
            Some('/') => self.scan_slash(),
            Some(' ') | Some('\r') | Some('\t') | Some('\n') => {},
            Some('"') => self.scan_string(),
            Some(c) => {
                if digit(c) {
                    self.scan_number();
                } else if alpha(c) {
                    self.scan_identifier();
                } else {
                    self.report(LexError::UnrecognizedCharacter(c), line);
                }
            },
            None => {},
        }
        proof {
            self@.lemma_equal(old(self)@.after(
                step(old(self)@.source, old(self)@.position),
                old(self)@.line,
            ));
        }
    }

    /// Scans the text from the cursor to its end and appends the
    /// end-of-input token. On a scanner that [`Scanner::new`] made, this
    /// leaves the whole token sequence of the source in [`Scanner::tokens`]
    /// and its diagnostics in [`Scanner::diagnostics`].
    pub fn scan_tokens(&mut self)
        requires
            old(self)@.wf(),
        ensures
            final(self)@.wf(),
            final(self)@.source == old(self)@.source,
            final(self)@.position == old(self)@.source.len(),
            final(self)@.tokens == old(self)@.tokens + tokens_from(
                old(self)@.source,
                old(self)@.position,
            ),
            final(self)@.diagnostics == old(self)@.diagnostics + diagnostics_from(
                old(self)@.source,
                old(self)@.position,
            ),
            final(self)@.tokens.len() > old(self)@.tokens.len(),
            final(self)@.tokens.last() == end_of_input(old(self)@.source),
            old(self)@ == ScannerView::start(old(self)@.source) ==> final(self)@.tokens == scan(
                old(self)@.source,
            ) && final(self)@.diagnostics == diagnose(old(self)@.source),
    {
        proof {
            theorem_end_of_input_is_last(old(self)@.source, old(self)@.position);
        }
        while self.current < self.source.len()
            invariant
                self@.wf(),
                self@.source == old(self)@.source,
                self@.tokens + tokens_from(self@.source, self@.position) == old(self)@.tokens
                    + tokens_from(old(self)@.source, old(self)@.position),
                self@.diagnostics + diagnostics_from(self@.source, self@.position) == old(
                    self,
                )@.diagnostics + diagnostics_from(old(self)@.source, old(self)@.position),
            decreases self@.source.len() - self@.position,
        {
            proof {
                lemma_step_advances(self@.source, self@.position);
            }
            self.scan_token();
        }
        let line: u32 = self.line;
        self.add_token(TokenType::EOF, None, line);
    }

    /// Gives up the scanner for the tokens and the diagnostics that it has
    /// collected.
    pub fn into_parts(self) -> (parts: (Vec<Token>, Vec<Diagnostic>))
        ensures
            token_views(parts.0@) == self@.tokens,
            parts.1@ == self@.diagnostics,
    {
        (self.tokens, self.diagnostics)
    }

    /// The tokens produced so far.
    pub fn tokens(&self) -> (tokens: &Vec<Token>)
        ensures
            token_views(tokens@) == self@.tokens,
    {
        &self.tokens
    }

    /// The lexical errors found so far.
    pub fn diagnostics(&self) -> (diagnostics: &Vec<Diagnostic>)
        ensures
            diagnostics@ == self@.diagnostics,
    {
        &self.diagnostics
    }
}

} // verus!
