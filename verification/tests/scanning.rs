use rlox::scanner::token::{Diagnostic, LexError, Token, TokenType};
use rlox::scanner::Scanner;

fn scan(source: &str) -> (Vec<Token>, Vec<Diagnostic>) {
    let text = String::from(source);
    let mut scanner = Scanner::new(&text);
    scanner.scan_tokens();
    scanner.into_parts()
}

fn fixed(token_type: TokenType, line: u32) -> Token {
    Token::new(token_type, None, line)
}

fn literal(token_type: TokenType, lexeme: &str, line: u32) -> Token {
    Token::new(token_type, Some(String::from(lexeme)), line)
}

fn kinds(tokens: &[Token]) -> Vec<TokenType> {
    tokens.iter().map(|token| token.token_type).collect()
}

#[test]
fn empty_source_yields_end_of_input_on_line_one() {
    let (tokens, diagnostics) = scan("");
    assert_eq!(tokens, vec![fixed(TokenType::EOF, 1)]);
    assert!(diagnostics.is_empty());
}

#[test]
fn every_scan_ends_with_the_only_end_of_input_token() {
    let sources = [
        "",
        " ",
        "var x = 1;",
        "\"open",
        "@#$",
        "// note",
        "/",
        "a\nb\nc\n",
        "print \"one\ntwo\"; // done",
        "1.5.x!==<=>=",
    ];
    for source in sources {
        let (tokens, _) = scan(source);
        let last = tokens.last().expect("a scan yields at least one token");
        assert_eq!(last.token_type, TokenType::EOF, "source {source:?}");
        assert_eq!(last.lexeme, None);
        let ends = tokens.iter().filter(|token| token.token_type == TokenType::EOF).count();
        assert_eq!(ends, 1, "source {source:?}");
    }
}

#[test]
fn whitespace_and_comments_yield_end_of_input_only() {
    let (tokens, diagnostics) =
        scan(" \t\r\n// a comment ( with + tokens \" inside\n\n  // another\n");
    assert_eq!(tokens, vec![fixed(TokenType::EOF, 5)]);
    assert!(diagnostics.is_empty());
}

#[test]
fn comment_without_newline_runs_to_the_end() {
    let (tokens, diagnostics) = scan("// no newline here");
    assert_eq!(tokens, vec![fixed(TokenType::EOF, 1)]);
    assert!(diagnostics.is_empty());
}

#[test]
fn comment_ends_at_its_newline() {
    let (tokens, diagnostics) = scan("a // b\nc");
    assert_eq!(
        tokens,
        vec![
            literal(TokenType::Identifier, "a", 1),
            literal(TokenType::Identifier, "c", 2),
            fixed(TokenType::EOF, 2),
        ]
    );
    assert!(diagnostics.is_empty());
}

#[test]
fn single_character_punctuation() {
    let (tokens, diagnostics) = scan("(){},.-+;*");
    assert_eq!(
        kinds(&tokens),
        vec![
            TokenType::LeftParen,
            TokenType::RightParen,
            TokenType::LeftBrace,
            TokenType::RightBrace,
            TokenType::Comma,
            TokenType::Dot,
            TokenType::Minus,
            TokenType::Plus,
            TokenType::Semicolon,
            TokenType::Star,
            TokenType::EOF,
        ]
    );
    assert!(tokens.iter().all(|token| token.lexeme.is_none() && token.line == 1));
    assert!(diagnostics.is_empty());
}

#[test]
fn bang_equal_is_one_token() {
    let (tokens, diagnostics) = scan("!=");
    assert_eq!(tokens, vec![fixed(TokenType::BangEqual, 1), fixed(TokenType::EOF, 1)]);
    assert!(diagnostics.is_empty());
}

#[test]
fn bang_before_a_letter_is_bang_then_identifier() {
    let (tokens, diagnostics) = scan("!a");
    assert_eq!(
        tokens,
        vec![
            fixed(TokenType::Bang, 1),
            literal(TokenType::Identifier, "a", 1),
            fixed(TokenType::EOF, 1),
        ]
    );
    assert!(diagnostics.is_empty());
}

#[test]
fn two_character_operators_are_greedy() {
    let (tokens, _) = scan("== = <= < >= > != !");
    assert_eq!(
        kinds(&tokens),
        vec![
            TokenType::EqualEqual,
            TokenType::Equal,
            TokenType::LessEqual,
            TokenType::Less,
            TokenType::GreaterEqual,
            TokenType::Greater,
            TokenType::BangEqual,
            TokenType::Bang,
            TokenType::EOF,
        ]
    );
    let (tokens, _) = scan("===");
    assert_eq!(kinds(&tokens), vec![TokenType::EqualEqual, TokenType::Equal, TokenType::EOF]);
    let (tokens, _) = scan("!==");
    assert_eq!(kinds(&tokens), vec![TokenType::BangEqual, TokenType::Equal, TokenType::EOF]);
}

#[test]
fn single_operator_at_the_end_of_input_is_kept() {
    for (source, kind) in [
        ("!", TokenType::Bang),
        ("=", TokenType::Equal),
        ("<", TokenType::Less),
        (">", TokenType::Greater),
    ] {
        let (tokens, diagnostics) = scan(source);
        assert_eq!(tokens, vec![fixed(kind, 1), fixed(TokenType::EOF, 1)]);
        assert!(diagnostics.is_empty());
    }
}

#[test]
fn slash_before_another_character_is_a_token() {
    let (tokens, diagnostics) = scan("6 / 2");
    assert_eq!(
        tokens,
        vec![
            literal(TokenType::Number, "6", 1),
            fixed(TokenType::Slash, 1),
            literal(TokenType::Number, "2", 1),
            fixed(TokenType::EOF, 1),
        ]
    );
    assert!(diagnostics.is_empty());
}

#[test]
fn slash_that_ends_the_input_is_dropped() {
    let (tokens, diagnostics) = scan("/");
    assert_eq!(tokens, vec![fixed(TokenType::EOF, 1)]);
    assert!(diagnostics.is_empty());
    let (tokens, diagnostics) = scan("a /");
    assert_eq!(tokens, vec![literal(TokenType::Identifier, "a", 1), fixed(TokenType::EOF, 1)]);
    assert!(diagnostics.is_empty());
}

#[test]
fn keyword_prefix_does_not_split_an_identifier() {
    let (tokens, diagnostics) = scan("classroom");
    assert_eq!(
        tokens,
        vec![literal(TokenType::Identifier, "classroom", 1), fixed(TokenType::EOF, 1)]
    );
    assert!(diagnostics.is_empty());
}

#[test]
fn every_keyword_is_recognized() {
    let (tokens, diagnostics) =
        scan("and class else false for fun if nil or print return super this true var while");
    assert_eq!(
        kinds(&tokens),
        vec![
            TokenType::And,
            TokenType::Class,
            TokenType::Else,
            TokenType::False,
            TokenType::For,
            TokenType::Fun,
            TokenType::If,
            TokenType::Nil,
            TokenType::Or,
            TokenType::Print,
            TokenType::Return,
            TokenType::Super,
            TokenType::This,
            TokenType::True,
            TokenType::Var,
            TokenType::While,
            TokenType::EOF,
        ]
    );
    assert!(tokens.iter().all(|token| token.lexeme.is_none()));
    assert!(diagnostics.is_empty());
}

#[test]
fn keywords_are_case_sensitive() {
    let (tokens, _) = scan("Class WHILE nil_ _nil");
    assert_eq!(
        tokens,
        vec![
            literal(TokenType::Identifier, "Class", 1),
            literal(TokenType::Identifier, "WHILE", 1),
            literal(TokenType::Identifier, "nil_", 1),
            literal(TokenType::Identifier, "_nil", 1),
            fixed(TokenType::EOF, 1),
        ]
    );
}

#[test]
fn identifiers_take_letters_digits_and_underscores() {
    let (tokens, diagnostics) = scan("_a1_b2 x9y or2");
    assert_eq!(
        tokens,
        vec![
            literal(TokenType::Identifier, "_a1_b2", 1),
            literal(TokenType::Identifier, "x9y", 1),
            literal(TokenType::Identifier, "or2", 1),
            fixed(TokenType::EOF, 1),
        ]
    );
    assert!(diagnostics.is_empty());
}

#[test]
fn lines_are_counted_from_one() {
    let (tokens, diagnostics) = scan("1\n+\n2");
    assert_eq!(
        tokens,
        vec![
            literal(TokenType::Number, "1", 1),
            fixed(TokenType::Plus, 2),
            literal(TokenType::Number, "2", 3),
            fixed(TokenType::EOF, 3),
        ]
    );
    assert!(diagnostics.is_empty());
}

#[test]
fn end_of_input_is_on_the_line_after_a_final_newline() {
    let (tokens, _) = scan("a\n");
    assert_eq!(tokens, vec![literal(TokenType::Identifier, "a", 1), fixed(TokenType::EOF, 2)]);
}

#[test]
fn string_lexeme_excludes_the_quotes() {
    let (tokens, diagnostics) = scan("\"hi\"");
    assert_eq!(tokens, vec![literal(TokenType::String, "hi", 1), fixed(TokenType::EOF, 1)]);
    assert!(diagnostics.is_empty());
}

#[test]
fn empty_string_has_an_empty_lexeme() {
    let (tokens, diagnostics) = scan("\"\"");
    assert_eq!(tokens, vec![literal(TokenType::String, "", 1), fixed(TokenType::EOF, 1)]);
    assert!(diagnostics.is_empty());
}

#[test]
fn string_keeps_its_characters_verbatim() {
    let (tokens, diagnostics) = scan("\"a // b + 1 caf\u{e9} \u{1f600}\" x");
    assert_eq!(
        tokens,
        vec![
            literal(TokenType::String, "a // b + 1 caf\u{e9} \u{1f600}", 1),
            literal(TokenType::Identifier, "x", 1),
            fixed(TokenType::EOF, 1),
        ]
    );
    assert!(diagnostics.is_empty());
}

#[test]
fn string_over_several_lines_is_on_its_first_line() {
    let (tokens, diagnostics) = scan("\n\"one\ntwo\nthree\" +");
    assert_eq!(
        tokens,
        vec![
            literal(TokenType::String, "one\ntwo\nthree", 2),
            fixed(TokenType::Plus, 4),
            fixed(TokenType::EOF, 4),
        ]
    );
    assert!(diagnostics.is_empty());
}

#[test]
fn unterminated_string_is_reported() {
    let (tokens, diagnostics) = scan("\"abc");
    assert_eq!(tokens, vec![fixed(TokenType::EOF, 1)]);
    assert_eq!(diagnostics, vec![Diagnostic { error: LexError::UnterminatedString, line: 1 }]);
}

#[test]
fn unterminated_string_is_reported_on_the_line_of_its_quote() {
    let (tokens, diagnostics) = scan("x\n\"abc\ndef\n");
    assert_eq!(tokens, vec![literal(TokenType::Identifier, "x", 1), fixed(TokenType::EOF, 4)]);
    assert_eq!(diagnostics, vec![Diagnostic { error: LexError::UnterminatedString, line: 2 }]);
}

#[test]
fn unrecognized_character_is_reported() {
    let (tokens, diagnostics) = scan("@");
    assert_eq!(tokens, vec![fixed(TokenType::EOF, 1)]);
    assert_eq!(
        diagnostics,
        vec![Diagnostic { error: LexError::UnrecognizedCharacter('@'), line: 1 }]
    );
}

#[test]
fn scanning_goes_on_after_an_unrecognized_character() {
    let (tokens, diagnostics) = scan("a @ b\n# \u{e9}c");
    assert_eq!(
        tokens,
        vec![
            literal(TokenType::Identifier, "a", 1),
            literal(TokenType::Identifier, "b", 1),
            literal(TokenType::Identifier, "c", 2),
            fixed(TokenType::EOF, 2),
        ]
    );
    assert_eq!(
        diagnostics,
        vec![
            Diagnostic { error: LexError::UnrecognizedCharacter('@'), line: 1 },
            Diagnostic { error: LexError::UnrecognizedCharacter('#'), line: 2 },
            Diagnostic { error: LexError::UnrecognizedCharacter('\u{e9}'), line: 2 },
        ]
    );
}

#[test]
fn number_with_a_fraction_is_one_token() {
    let (tokens, diagnostics) = scan("123.45");
    assert_eq!(tokens, vec![literal(TokenType::Number, "123.45", 1), fixed(TokenType::EOF, 1)]);
    assert!(diagnostics.is_empty());
}

#[test]
fn number_without_a_fraction() {
    let (tokens, _) = scan("0 7 1234567890");
    assert_eq!(
        tokens,
        vec![
            literal(TokenType::Number, "0", 1),
            literal(TokenType::Number, "7", 1),
            literal(TokenType::Number, "1234567890", 1),
            fixed(TokenType::EOF, 1),
        ]
    );
}

#[test]
fn trailing_dot_is_not_part_of_a_number() {
    let (tokens, diagnostics) = scan("123.");
    assert_eq!(
        tokens,
        vec![
            literal(TokenType::Number, "123", 1),
            fixed(TokenType::Dot, 1),
            fixed(TokenType::EOF, 1),
        ]
    );
    assert!(diagnostics.is_empty());
    let (tokens, _) = scan("123.abs");
    assert_eq!(
        tokens,
        vec![
            literal(TokenType::Number, "123", 1),
            fixed(TokenType::Dot, 1),
            literal(TokenType::Identifier, "abs", 1),
            fixed(TokenType::EOF, 1),
        ]
    );
}

#[test]
fn number_takes_at_most_one_dot() {
    let (tokens, _) = scan("1.2.3");
    assert_eq!(
        tokens,
        vec![
            literal(TokenType::Number, "1.2", 1),
            fixed(TokenType::Dot, 1),
            literal(TokenType::Number, "3", 1),
            fixed(TokenType::EOF, 1),
        ]
    );
    let (tokens, _) = scan(".5");
    assert_eq!(
        tokens,
        vec![fixed(TokenType::Dot, 1), literal(TokenType::Number, "5", 1), fixed(TokenType::EOF, 1)]
    );
}

#[test]
fn number_ends_where_a_letter_begins() {
    let (tokens, _) = scan("12ab");
    assert_eq!(
        tokens,
        vec![
            literal(TokenType::Number, "12", 1),
            literal(TokenType::Identifier, "ab", 1),
            fixed(TokenType::EOF, 1),
        ]
    );
}

#[test]
fn a_small_program() {
    let program = [
        "// greet\n",
        "fun greet(name) {\n",
        "  print \"hi, \" + name;\n",
        "}\n",
        "var n = 3 * (4 - 1) / 2;\n",
        "if (n >= 4.5 and !false) greet(\"you\");\n",
    ]
    .concat();
    let (tokens, diagnostics) = scan(&program);
    assert!(diagnostics.is_empty());
    assert_eq!(
        tokens,
        vec![
            fixed(TokenType::Fun, 2),
            literal(TokenType::Identifier, "greet", 2),
            fixed(TokenType::LeftParen, 2),
            literal(TokenType::Identifier, "name", 2),
            fixed(TokenType::RightParen, 2),
            fixed(TokenType::LeftBrace, 2),
            fixed(TokenType::Print, 3),
            literal(TokenType::String, "hi, ", 3),
            fixed(TokenType::Plus, 3),
            literal(TokenType::Identifier, "name", 3),
            fixed(TokenType::Semicolon, 3),
            fixed(TokenType::RightBrace, 4),
            fixed(TokenType::Var, 5),
            literal(TokenType::Identifier, "n", 5),
            fixed(TokenType::Equal, 5),
            literal(TokenType::Number, "3", 5),
            fixed(TokenType::Star, 5),
            fixed(TokenType::LeftParen, 5),
            literal(TokenType::Number, "4", 5),
            fixed(TokenType::Minus, 5),
            literal(TokenType::Number, "1", 5),
            fixed(TokenType::RightParen, 5),
            fixed(TokenType::Slash, 5),
            literal(TokenType::Number, "2", 5),
            fixed(TokenType::Semicolon, 5),
            fixed(TokenType::If, 6),
            fixed(TokenType::LeftParen, 6),
            literal(TokenType::Identifier, "n", 6),
            fixed(TokenType::GreaterEqual, 6),
            literal(TokenType::Number, "4.5", 6),
            fixed(TokenType::And, 6),
            fixed(TokenType::Bang, 6),
            fixed(TokenType::False, 6),
            fixed(TokenType::RightParen, 6),
            literal(TokenType::Identifier, "greet", 6),
            fixed(TokenType::LeftParen, 6),
            literal(TokenType::String, "you", 6),
            fixed(TokenType::RightParen, 6),
            fixed(TokenType::Semicolon, 6),
            fixed(TokenType::EOF, 7),
        ]
    );
}

#[test]
fn token_lines_never_decrease() {
    let (tokens, _) = scan("a\n\"b\nc\" d // e\n\n@ f\n\"g\n");
    for pair in tokens.windows(2) {
        assert!(pair[0].line <= pair[1].line);
    }
}

#[test]
fn a_fresh_scanner_holds_nothing() {
    let text = String::from("var x;");
    let scanner = Scanner::new(&text);
    assert!(scanner.tokens().is_empty());
    assert!(scanner.diagnostics().is_empty());
}

#[test]
fn accessors_show_what_into_parts_gives() {
    let text = String::from("x @ \"y");
    let mut scanner = Scanner::new(&text);
    scanner.scan_tokens();
    let tokens = scanner.tokens().clone();
    let diagnostics = scanner.diagnostics().clone();
    assert_eq!(tokens, vec![literal(TokenType::Identifier, "x", 1), fixed(TokenType::EOF, 1)]);
    assert_eq!(
        diagnostics,
        vec![
            Diagnostic { error: LexError::UnrecognizedCharacter('@'), line: 1 },
            Diagnostic { error: LexError::UnterminatedString, line: 1 },
        ]
    );
    assert_eq!(scanner.into_parts(), (tokens, diagnostics));
}

#[test]
fn scanning_again_at_the_end_adds_one_end_of_input() {
    let text = String::from("a\n");
    let mut scanner = Scanner::new(&text);
    scanner.scan_tokens();
    scanner.scan_tokens();
    assert_eq!(
        scanner.tokens(),
        &vec![
            literal(TokenType::Identifier, "a", 1),
            fixed(TokenType::EOF, 2),
            fixed(TokenType::EOF, 2),
        ]
    );
}

/// The text that a token stands for in the source.
fn source_text(token: &Token) -> String {
    match (token.token_type, &token.lexeme) {
        (TokenType::String, Some(lexeme)) => format!("\"{lexeme}\""),
        (_, Some(lexeme)) => lexeme.clone(),
        (kind, None) => String::from(kind.text().unwrap_or("")),
    }
}

#[test]
fn generated_sources_keep_the_general_laws() {
    let alphabet: Vec<char> = "ab_z09 \n\t\r\"/.!=<>(){},-+;*@#\u{e9}".chars().collect();
    let words = ["and", "class", "or", "var", "while", "//", "\"s\"", "1.5", "!=", "nil"];
    let mut state: u64 = 0x2545_f491_4f6c_dd1d;
    let mut next = move |bound: usize| {
        state = state.wrapping_mul(6364136223846793005).wrapping_add(1442695040888963407);
        ((state >> 33) as usize) % bound
    };
    for _ in 0..2000 {
        let mut source = String::new();
        for _ in 0..next(24) {
            if next(4) == 0 {
                source.push_str(words[next(words.len())]);
            } else {
                source.push(alphabet[next(alphabet.len())]);
            }
        }
        let (tokens, diagnostics) = scan(&source);

        let last = tokens.last().expect("a scan yields at least one token");
        assert_eq!(last.token_type, TokenType::EOF, "source {source:?}");
        let newlines = source.chars().filter(|&c| c == '\n').count() as u32;
        assert_eq!(last.line, newlines + 1, "source {source:?}");
        let ends = tokens.iter().filter(|token| token.token_type == TokenType::EOF).count();
        assert_eq!(ends, 1, "source {source:?}");

        for pair in tokens.windows(2) {
            assert!(pair[0].line <= pair[1].line, "source {source:?}");
        }
        for pair in diagnostics.windows(2) {
            assert!(pair[0].line <= pair[1].line, "source {source:?}");
        }

        let mut rest: &str = &source;
        for token in &tokens[..tokens.len() - 1] {
            let carries = matches!(
                token.token_type,
                TokenType::Identifier | TokenType::Number | TokenType::String
            );
            assert_eq!(token.lexeme.is_some(), carries, "source {source:?}");
            let text = source_text(token);
            let found = rest.find(&text);
            assert!(found.is_some(), "token {token:?} of source {source:?}");
            rest = &rest[found.unwrap_or(0) + text.len()..];
        }
    }
}
