//! What holds of every source text: theorems about the lexical grammar.

use crate::scanner::grammar::{
    diagnose, diagnostics_from, emitted, end_of_input, is_alpha, is_alphanumeric, is_blank,
    is_blank_from, is_digit, is_recognized, lemma_run_end, lemma_step_advances, line_number,
    newlines_before, run_end, scan, step, tokens_from, word_token, CharClass, Lexed,
};
use crate::scanner::token::{keyword_of, Diagnostic, LexError, TokenType, TokenView};
use vstd::prelude::*;

verus! {

/// A word is a keyword exactly if it is that keyword's spelling: the
/// lookup finds `kind` for `word` if and only if `kind` is a reserved word
/// and `word` is how it is written.
pub proof fn theorem_keyword_lookup(word: Seq<char>, kind: TokenType)
    ensures
        keyword_of(word) == Some(kind) <==> kind.is_keyword() && kind.spelling() == Some(word),
{
    if kind.is_keyword() && kind.spelling() == Some(word) {
        lemma_keyword_spellings_differ();
    }
}

/// No two reserved words are written alike.
proof fn lemma_keyword_spellings_differ()
    ensures
        forall|a: TokenType, b: TokenType|
            a.is_keyword() && b.is_keyword() && a != b ==> #[trigger] a.spelling()
                != #[trigger] b.spelling(),
{
    assert forall|a: TokenType, b: TokenType|
        a.is_keyword() && b.is_keyword() && a != b implies #[trigger] a.spelling()
        != #[trigger] b.spelling() by {
        let x = a.spelling()->0;
        let y = b.spelling()->0;
        assert(x.len() != y.len() || x[0] != y[0] || x[1] != y[1]);
    }
}

/// The token that one lexical item yields is never the end-of-input token,
/// and it carries a lexeme exactly if its kind is one of the literal kinds.
pub proof fn theorem_step_tokens_are_well_formed(source: Seq<char>, pos: int)
    requires
        0 <= pos < source.len(),
    ensures
        step(source, pos).lexed matches Lexed::Token { token_type, lexeme } ==> token_type
            != TokenType::EOF && (lexeme is Some <==> token_type.carries_lexeme()),
{
}

/// Every scan ends with the end-of-input token, on the last line of the
/// source, and that is the only end-of-input token in its output.
pub proof fn theorem_end_of_input_is_last(source: Seq<char>, pos: int)
    ensures
        tokens_from(source, pos).len() >= 1,
        tokens_from(source, pos).last() == end_of_input(source),
        forall|i: int|
            0 <= i < tokens_from(source, pos).len() - 1 ==> (#[trigger] tokens_from(
                source,
                pos,
            )[i]).token_type != TokenType::EOF,
    decreases source.len() - pos,
{
    if 0 <= pos < source.len() {
        lemma_step_advances(source, pos);
        theorem_step_tokens_are_well_formed(source, pos);
        theorem_end_of_input_is_last(source, step(source, pos).next);
    }
}

/// A source that is made up of whitespace and comments alone yields the
/// end-of-input token and nothing else, and no diagnostic.
pub proof fn theorem_blank_source_yields_end_of_input_only(source: Seq<char>)
    requires
        is_blank(source),
    ensures
        scan(source) == seq![end_of_input(source)],
        diagnose(source) == Seq::<Diagnostic>::empty(),
{
    lemma_blank_from(source, 0);
}

/// From a position after which only whitespace and comments follow, the
/// scan yields the end-of-input token alone, and no diagnostic.
proof fn lemma_blank_from(source: Seq<char>, pos: int)
    requires
        is_blank_from(source, pos),
    ensures
        tokens_from(source, pos) == seq![end_of_input(source)],
        diagnostics_from(source, pos) == Seq::<Diagnostic>::empty(),
    decreases source.len() - pos,
{
    if 0 <= pos < source.len() {
        lemma_step_advances(source, pos);
        lemma_blank_from(source, step(source, pos).next);
    }
}

/// The source text of a token is what the token says it is. Where the
/// token's kind has a fixed spelling, the characters that the token was
/// made from are exactly that spelling. An identifier or a number carries
/// the characters it was made from as its lexeme, and a string carries the
/// characters between its two quotes.
pub proof fn theorem_tokens_spell_their_source(source: Seq<char>, pos: int)
    requires
        0 <= pos < source.len(),
    ensures
        pos < step(source, pos).next <= source.len(),
        step(source, pos).lexed matches Lexed::Token { token_type, lexeme } ==> {
            let text = source.subrange(pos, step(source, pos).next);
            &&& token_type.spelling() is Some ==> token_type.spelling() == Some(text)
                && lexeme is None
            &&& token_type == TokenType::Identifier || token_type == TokenType::Number ==> lexeme
                == Some(text)
            &&& token_type == TokenType::String ==> text.len() >= 2 && text.first() == '"'
                && text.last() == '"' && lexeme == Some(text.subrange(1, text.len() - 1))
        },
{
    lemma_step_advances(source, pos);
    let text = source.subrange(pos, step(source, pos).next);
    match step(source, pos).lexed {
        Lexed::Token { token_type, lexeme } => {
            if token_type.is_keyword() {
                theorem_keyword_lookup(text, token_type);
            } else if token_type == TokenType::String {
                lemma_run_end(source, pos + 1, CharClass::StringBody);
            }
        },
        _ => {},
    }
}

/// Every token of a scan but the closing one was made by the lexical item
/// at some position of the source, which this function gives: the item
/// there yields just that token, on that position's line.
pub proof fn theorem_tokens_come_from_items(source: Seq<char>, pos: int, i: int) -> (at: int)
    requires
        0 <= pos,
        0 <= i < tokens_from(source, pos).len() - 1,
    ensures
        pos <= at < source.len(),
        emitted(step(source, at).lexed, line_number(source, at)) == seq![
            tokens_from(source, pos)[i],
        ],
    decreases source.len() - pos,
{
    lemma_step_advances(source, pos);
    let first = emitted(step(source, pos).lexed, line_number(source, pos));
    if i < first.len() {
        pos
    } else {
        theorem_tokens_come_from_items(source, step(source, pos).next, i - first.len())
    }
}

/// Re-deriving a token's spelling from its kind gives back the source text.
/// Each token of a scan whose kind has a fixed spelling stands for one
/// occurrence of exactly that spelling in the source, at the position that
/// this function gives, on the token's line; such a token has no lexeme.
pub proof fn theorem_fixed_tokens_spell_their_source(source: Seq<char>, i: int) -> (at: int)
    requires
        0 <= i < scan(source).len(),
        scan(source)[i].token_type.spelling() is Some,
    ensures
        0 <= at,
        at + scan(source)[i].token_type.spelling()->0.len() <= source.len(),
        source.subrange(at, at + scan(source)[i].token_type.spelling()->0.len()) == scan(
            source,
        )[i].token_type.spelling()->0,
        scan(source)[i].line == line_number(source, at),
        scan(source)[i].lexeme is None,
{
    theorem_end_of_input_is_last(source, 0);
    let at = theorem_tokens_come_from_items(source, 0, i);
    theorem_tokens_spell_their_source(source, at);
    let made = emitted(step(source, at).lexed, line_number(source, at));
    assert(made[0] == scan(source)[i]);
    at
}

/// The lexeme of a token is source text. Each identifier and each number of
/// a scan carries as its lexeme the characters of one occurrence in the
/// source, at the position that this function gives, on the token's line.
/// For a string the position is that of its opening quote, and the lexeme
/// is what stands between that quote and the closing one.
pub proof fn theorem_lexemes_are_source_text(source: Seq<char>, i: int) -> (at: int)
    requires
        0 <= i < scan(source).len(),
        scan(source)[i].token_type.carries_lexeme(),
    ensures
        0 <= at < source.len(),
        scan(source)[i].line == line_number(source, at),
        scan(source)[i].lexeme matches Some(lexeme) && if scan(source)[i].token_type
            == TokenType::String {
            &&& at + lexeme.len() + 2 <= source.len()
            &&& source[at] == '"'
            &&& source.subrange(at + 1, at + 1 + lexeme.len()) == lexeme
            &&& source[at + 1 + lexeme.len()] == '"'
        } else {
            &&& at + lexeme.len() <= source.len()
            &&& source.subrange(at, at + lexeme.len()) == lexeme
        },
{
    theorem_end_of_input_is_last(source, 0);
    let at = theorem_tokens_come_from_items(source, 0, i);
    theorem_tokens_spell_their_source(source, at);
    let made = emitted(step(source, at).lexed, line_number(source, at));
    assert(made[0] == scan(source)[i]);
    at
}

/// A string that is never closed is an error and does not stop the scan.
/// Where a `"` stands at `pos` and no `"` follows it, the scan from `pos`
/// yields the end-of-input token alone and reports one unterminated
/// string, on the line of the `"`.
pub proof fn theorem_unterminated_string_ends_the_scan(source: Seq<char>, pos: int)
    requires
        0 <= pos < source.len(),
        source[pos] == '"',
        forall|i: int| pos < i < source.len() ==> #[trigger] source[i] != '"',
    ensures
        tokens_from(source, pos) == seq![end_of_input(source)],
        diagnostics_from(source, pos) == seq![
            Diagnostic { error: LexError::UnterminatedString, line: line_number(source, pos) },
        ],
{
    lemma_run_end_of_members(source, pos + 1, CharClass::StringBody);
    let end = source.len() as int;
    assert(tokens_from(source, end) == seq![end_of_input(source)]);
    assert(diagnostics_from(source, end) == Seq::<Diagnostic>::empty());
}

/// Each lexical error comes exactly where it is due. An item is an
/// unrecognized character if and only if the character it starts with can
/// begin no token, no whitespace and no comment, and the error names that
/// character. An item is an unterminated string if and only if it starts
/// with a `"` after which no `"` follows.
pub proof fn theorem_errors_come_where_due(source: Seq<char>, pos: int)
    requires
        0 <= pos < source.len(),
    ensures
        !is_recognized(source[pos]) <==> step(source, pos).lexed == Lexed::Error(
            LexError::UnrecognizedCharacter(source[pos]),
        ),
        step(source, pos).lexed matches Lexed::Error(LexError::UnrecognizedCharacter(c)) ==> c
            == source[pos],
        (source[pos] == '"' && forall|i: int|
            pos < i < source.len() ==> #[trigger] source[i] != '"') <==> step(source, pos).lexed
            == Lexed::Error(LexError::UnterminatedString),
{
    lemma_run_end(source, pos + 1, CharClass::StringBody);
    if forall|i: int| pos < i < source.len() ==> #[trigger] source[i] != '"' {
        lemma_run_end_of_members(source, pos + 1, CharClass::StringBody);
    }
}

/// An unrecognized character is reported and skipped, and the scan goes
/// on. Where the character at `pos` can begin no token, no whitespace and
/// no comment, the scan from `pos` yields what the scan from the next
/// position yields, after one diagnostic that names the character and its
/// line.
pub proof fn theorem_unrecognized_character_is_skipped(source: Seq<char>, pos: int)
    requires
        0 <= pos < source.len(),
        !is_recognized(source[pos]),
    ensures
        tokens_from(source, pos) == tokens_from(source, pos + 1),
        diagnostics_from(source, pos) == seq![
            Diagnostic {
                error: LexError::UnrecognizedCharacter(source[pos]),
                line: line_number(source, pos),
            },
        ] + diagnostics_from(source, pos + 1),
{
}

/// The longest match wins for words. The word that starts at a letter or
/// an underscore takes in every letter, digit and underscore that follows
/// directly, and only then is it looked up: it is the keyword that all of
/// it spells, or else an identifier.
pub proof fn theorem_words_are_maximal(source: Seq<char>, pos: int)
    requires
        0 <= pos < source.len(),
        is_alpha(source[pos]),
    ensures
        pos < step(source, pos).next <= source.len(),
        forall|i: int|
            pos <= i < step(source, pos).next ==> is_alphanumeric(#[trigger] source[i]),
        step(source, pos).next < source.len() ==> !is_alphanumeric(
            source[step(source, pos).next],
        ),
        step(source, pos).lexed == word_token(source.subrange(pos, step(source, pos).next)),
{
    lemma_run_end(source, pos, CharClass::Alphanumeric);
}

/// The shape of a number. The number that starts at a digit is a run of
/// digits, after which one `.` and a second run of digits may follow; the
/// `.` belongs to the number only where a digit follows it directly. No
/// digit follows the number directly.
pub proof fn theorem_numbers_are_maximal(source: Seq<char>, pos: int) -> (whole: int)
    requires
        0 <= pos < source.len(),
        is_digit(source[pos]),
    ensures
        pos < whole <= step(source, pos).next <= source.len(),
        step(source, pos).lexed == (Lexed::Token {
            token_type: TokenType::Number,
            lexeme: Some(source.subrange(pos, step(source, pos).next)),
        }),
        forall|i: int| pos <= i < whole ==> is_digit(#[trigger] source[i]),
        whole < step(source, pos).next ==> source[whole] == '.' && whole + 1 < step(
            source,
            pos,
        ).next,
        forall|i: int| whole < i < step(source, pos).next ==> is_digit(#[trigger] source[i]),
        step(source, pos).next < source.len() ==> !is_digit(source[step(source, pos).next]),
        whole == step(source, pos).next && whole + 1 < source.len() && source[whole] == '.'
            ==> !is_digit(source[whole + 1]),
{
    let whole = run_end(source, pos, CharClass::Digit);
    lemma_run_end(source, pos, CharClass::Digit);
    if whole < source.len() {
        lemma_run_end(source, whole + 1, CharClass::Digit);
    }
    whole
}

/// A word scans as one token. A source that is a single word, that is a
/// letter or an underscore followed by letters, digits and underscores,
/// yields the keyword that the whole word spells, or else one identifier
/// with the whole word as its lexeme, and then the end-of-input token.
pub proof fn theorem_word_scans_whole(word: Seq<char>)
    requires
        word.len() > 0,
        is_alpha(word[0]),
        forall|i: int| 0 <= i < word.len() ==> is_alphanumeric(#[trigger] word[i]),
    ensures
        scan(word) == emitted(word_token(word), 1) + seq![
            TokenView { token_type: TokenType::EOF, lexeme: None, line: 1 },
        ],
        diagnose(word) == Seq::<Diagnostic>::empty(),
{
    lemma_run_end_of_members(word, 0, CharClass::Alphanumeric);
    lemma_single_line(word, word.len() as int);
    assert(word.subrange(0, word.len() as int) =~= word);
    assert(tokens_from(word, word.len() as int) == seq![end_of_input(word)]);
    assert(diagnostics_from(word, word.len() as int) == Seq::<Diagnostic>::empty());
}

/// A kind's spelling scans back to that kind. The source that consists of
/// the fixed spelling of a kind yields one token of that kind, without a
/// lexeme, and then the end-of-input token. The one kind for which this
/// does not hold is the slash: a `/` that ends the input is dropped.
pub proof fn theorem_spelling_scans_to_its_kind(kind: TokenType)
    requires
        kind.spelling() is Some,
        kind != TokenType::Slash,
    ensures
        scan(kind.spelling()->0) == seq![
            TokenView { token_type: kind, lexeme: None, line: 1 },
            TokenView { token_type: TokenType::EOF, lexeme: None, line: 1 },
        ],
        diagnose(kind.spelling()->0) == Seq::<Diagnostic>::empty(),
{
    let text = kind.spelling()->0;
    if kind.is_keyword() {
        theorem_word_scans_whole(text);
        theorem_keyword_lookup(text, kind);
    } else {
        lemma_single_line(text, text.len() as int);
        assert(tokens_from(text, text.len() as int) == seq![end_of_input(text)]);
        assert(diagnostics_from(text, text.len() as int) == Seq::<Diagnostic>::empty());
    }
}

/// Line numbers never decrease along the source.
pub proof fn theorem_lines_never_decrease(source: Seq<char>, earlier: int, later: int)
    requires
        earlier <= later,
    ensures
        line_number(source, earlier) <= line_number(source, later),
    decreases later - earlier,
{
    if earlier < later {
        theorem_lines_never_decrease(source, earlier, later - 1);
    }
}

/// Tokens come out in source order: from any position on, no token of the
/// scan is on an earlier line than the position itself, and the lines of
/// the tokens never decrease from one token to the next.
pub proof fn theorem_token_lines_never_decrease(source: Seq<char>, pos: int)
    requires
        0 <= pos <= source.len(),
    ensures
        forall|i: int|
            0 <= i < tokens_from(source, pos).len() ==> line_number(source, pos) <= (
            #[trigger] tokens_from(source, pos)[i]).line,
        forall|i: int, j: int|
            0 <= i <= j < tokens_from(source, pos).len() ==> (#[trigger] tokens_from(
                source,
                pos,
            )[i]).line <= (#[trigger] tokens_from(source, pos)[j]).line,
    decreases source.len() - pos,
{
    if pos < source.len() {
        let next = step(source, pos).next;
        lemma_step_advances(source, pos);
        theorem_token_lines_never_decrease(source, next);
        theorem_lines_never_decrease(source, pos, next);
    }
}

/// Where every character from `pos` to the end belongs to `class`, the run
/// that starts at `pos` goes to the end.
proof fn lemma_run_end_of_members(source: Seq<char>, pos: int, class: CharClass)
    requires
        0 <= pos <= source.len(),
        forall|i: int| pos <= i < source.len() ==> class.contains(#[trigger] source[i]),
    ensures
        run_end(source, pos, class) == source.len(),
    decreases source.len() - pos,
{
    if pos < source.len() {
        lemma_run_end_of_members(source, pos + 1, class);
    }
}

/// Where there is no newline before `pos`, position `pos` is on line 1.
proof fn lemma_single_line(source: Seq<char>, pos: int)
    requires
        forall|i: int| 0 <= i < pos && i < source.len() ==> #[trigger] source[i] != '\n',
    ensures
        newlines_before(source, pos) == 0,
        line_number(source, pos) == 1,
    decreases pos,
{
    if pos > 0 {
        lemma_single_line(source, pos - 1);
    }
}

} // verus!
