//! Tokens and their kinds.

use vstd::prelude::*;

verus! {

/// The kind of a token.
#[derive(Clone, Copy, Debug, PartialEq, Eq, Structural)]
pub enum TokenType {
    // Single-character punctuation.
    LeftParen,
    RightParen,
    LeftBrace,
    RightBrace,
    Comma,
    Dot,
    Minus,
    Plus,
    Semicolon,
    Slash,
    Star,
    // Operators of one or two characters.
    Bang,
    BangEqual,
    Equal,
    EqualEqual,
    Greater,
    GreaterEqual,
    Less,
    LessEqual,
    // Literals.
    Identifier,
    String,
    Number,
    // Keywords.
    And,
    Class,
    Else,
    False,
    Fun,
    For,
    If,
    Nil,
    Or,
    Print,
    Return,
    Super,
    This,
    True,
    Var,
    While,
    /// The end of the input.
    EOF,
}

impl TokenType {
    /// Whether this kind is a reserved word.
    pub open spec fn is_keyword(self) -> bool {
        match self {
            TokenType::And
            | TokenType::Class
            | TokenType::Else
            | TokenType::False
            | TokenType::Fun
            | TokenType::For
            | TokenType::If
            | TokenType::Nil
            | TokenType::Or
            | TokenType::Print
            | TokenType::Return
            | TokenType::Super
            | TokenType::This
            | TokenType::True
            | TokenType::Var
            | TokenType::While => true,
            _ => false,
        }
    }

    /// Whether a token of this kind carries its source text as a lexeme.
    pub open spec fn carries_lexeme(self) -> bool {
        self == TokenType::Identifier || self == TokenType::String || self == TokenType::Number
    }

    /// The text that a token of this kind is always written as: `Some` for
    /// punctuation, operators and keywords, `None` for the literal kinds and
    /// for the end of the input.
    pub open spec fn spelling(self) -> Option<Seq<char>> {
        match self {
            TokenType::LeftParen => Some(seq!['(']),
            TokenType::RightParen => Some(seq![')']),
            TokenType::LeftBrace => Some(seq!['{']),
            TokenType::RightBrace => Some(seq!['}']),
            TokenType::Comma => Some(seq![',']),
            TokenType::Dot => Some(seq!['.']),
            TokenType::Minus => Some(seq!['-']),
            TokenType::Plus => Some(seq!['+']),
            TokenType::Semicolon => Some(seq![';']),
            TokenType::Slash => Some(seq!['/']),
            TokenType::Star => Some(seq!['*']),
            TokenType::Bang => Some(seq!['!']),
            TokenType::BangEqual => Some(seq!['!', '=']),
            TokenType::Equal => Some(seq!['=']),
            TokenType::EqualEqual => Some(seq!['=', '=']),
            TokenType::Greater => Some(seq!['>']),
            TokenType::GreaterEqual => Some(seq!['>', '=']),
            TokenType::Less => Some(seq!['<']),
            TokenType::LessEqual => Some(seq!['<', '=']),
            TokenType::And => Some(seq!['a', 'n', 'd']),
            TokenType::Class => Some(seq!['c', 'l', 'a', 's', 's']),
            TokenType::Else => Some(seq!['e', 'l', 's', 'e']),
            TokenType::False => Some(seq!['f', 'a', 'l', 's', 'e']),
            TokenType::Fun => Some(seq!['f', 'u', 'n']),
            TokenType::For => Some(seq!['f', 'o', 'r']),
            TokenType::If => Some(seq!['i', 'f']),
            TokenType::Nil => Some(seq!['n', 'i', 'l']),
            TokenType::Or => Some(seq!['o', 'r']),
            TokenType::Print => Some(seq!['p', 'r', 'i', 'n', 't']),
            TokenType::Return => Some(seq!['r', 'e', 't', 'u', 'r', 'n']),
            TokenType::Super => Some(seq!['s', 'u', 'p', 'e', 'r']),
            TokenType::This => Some(seq!['t', 'h', 'i', 's']),
            TokenType::True => Some(seq!['t', 'r', 'u', 'e']),
            TokenType::Var => Some(seq!['v', 'a', 'r']),
            TokenType::While => Some(seq!['w', 'h', 'i', 'l', 'e']),
            TokenType::Identifier | TokenType::String | TokenType::Number | TokenType::EOF => None,
        }
    }

    /// The fixed spelling of this kind as text, where it has one.
    pub fn text(self) -> (t: Option<&'static str>)
        ensures
            t is Some <==> self.spelling() is Some,
            t matches Some(s) ==> self.spelling() == Some(s@),
    {
        proof {
            lemma_fixed_texts();
        }
        match self {
            TokenType::LeftParen => Some("("),
            TokenType::RightParen => Some(")"),
            TokenType::LeftBrace => Some("{"),
            TokenType::RightBrace => Some("}"),
            TokenType::Comma => Some(","),
            TokenType::Dot => Some("."),
            TokenType::Minus => Some("-"),
            TokenType::Plus => Some("+"),
            TokenType::Semicolon => Some(";"),
            TokenType::Slash => Some("/"),
            TokenType::Star => Some("*"),
            TokenType::Bang => Some("!"),
            TokenType::BangEqual => Some("!="),
            TokenType::Equal => Some("="),
            TokenType::EqualEqual => Some("=="),
            TokenType::Greater => Some(">"),
            TokenType::GreaterEqual => Some(">="),
            TokenType::Less => Some("<"),
            TokenType::LessEqual => Some("<="),
            TokenType::And => Some("and"),
            TokenType::Class => Some("class"),
            TokenType::Else => Some("else"),
            TokenType::False => Some("false"),
            TokenType::Fun => Some("fun"),
            TokenType::For => Some("for"),
            TokenType::If => Some("if"),
            TokenType::Nil => Some("nil"),
            TokenType::Or => Some("or"),
            TokenType::Print => Some("print"),
            TokenType::Return => Some("return"),
            TokenType::Super => Some("super"),
            TokenType::This => Some("this"),
            TokenType::True => Some("true"),
            TokenType::Var => Some("var"),
            TokenType::While => Some("while"),
            TokenType::Identifier | TokenType::String | TokenType::Number | TokenType::EOF => None,
        }
    }
}

/// What the text of each fixed spelling is, character by character.
proof fn lemma_fixed_texts()
    ensures
        "("@ == seq!['('],
        ")"@ == seq![')'],
        "{"@ == seq!['{'],
        "}"@ == seq!['}'],
        ","@ == seq![','],
        "."@ == seq!['.'],
        "-"@ == seq!['-'],
        "+"@ == seq!['+'],
        ";"@ == seq![';'],
        "/"@ == seq!['/'],
        "*"@ == seq!['*'],
        "!"@ == seq!['!'],
        "!="@ == seq!['!', '='],
        "="@ == seq!['='],
        "=="@ == seq!['=', '='],
        ">"@ == seq!['>'],
        ">="@ == seq!['>', '='],
        "<"@ == seq!['<'],
        "<="@ == seq!['<', '='],
        "and"@ == seq!['a', 'n', 'd'],
        "class"@ == seq!['c', 'l', 'a', 's', 's'],
        "else"@ == seq!['e', 'l', 's', 'e'],
        "false"@ == seq!['f', 'a', 'l', 's', 'e'],
        "fun"@ == seq!['f', 'u', 'n'],
        "for"@ == seq!['f', 'o', 'r'],
        "if"@ == seq!['i', 'f'],
        "nil"@ == seq!['n', 'i', 'l'],
        "or"@ == seq!['o', 'r'],
        "print"@ == seq!['p', 'r', 'i', 'n', 't'],
        "return"@ == seq!['r', 'e', 't', 'u', 'r', 'n'],
        "super"@ == seq!['s', 'u', 'p', 'e', 'r'],
        "this"@ == seq!['t', 'h', 'i', 's'],
        "true"@ == seq!['t', 'r', 'u', 'e'],
        "var"@ == seq!['v', 'a', 'r'],
        "while"@ == seq!['w', 'h', 'i', 'l', 'e'],
{
    reveal_strlit("(");
    reveal_strlit(")");
    reveal_strlit("{");
    reveal_strlit("}");
    reveal_strlit(",");
    reveal_strlit(".");
    reveal_strlit("-");
    reveal_strlit("+");
    reveal_strlit(";");
    reveal_strlit("/");
    reveal_strlit("*");
    reveal_strlit("!");
    reveal_strlit("!=");
    reveal_strlit("=");
    reveal_strlit("==");
    reveal_strlit(">");
    reveal_strlit(">=");
    reveal_strlit("<");
    reveal_strlit("<=");
    reveal_strlit("and");
    reveal_strlit("class");
    reveal_strlit("else");
    reveal_strlit("false");
    reveal_strlit("fun");
    reveal_strlit("for");
    reveal_strlit("if");
    reveal_strlit("nil");
    reveal_strlit("or");
    reveal_strlit("print");
    reveal_strlit("return");
    reveal_strlit("super");
    reveal_strlit("this");
    reveal_strlit("true");
    reveal_strlit("var");
    reveal_strlit("while");
}

/// The reserved word that is written exactly as `word`, if there is one.
pub open spec fn keyword_of(word: Seq<char>) -> Option<TokenType> {
    if TokenType::And.spelling() == Some(word) {
        Some(TokenType::And)
    } else if TokenType::Class.spelling() == Some(word) {
        Some(TokenType::Class)
    } else if TokenType::Else.spelling() == Some(word) {
        Some(TokenType::Else)
    } else if TokenType::False.spelling() == Some(word) {
        Some(TokenType::False)
    } else if TokenType::For.spelling() == Some(word) {
        Some(TokenType::For)
    } else if TokenType::Fun.spelling() == Some(word) {
        Some(TokenType::Fun)
    } else if TokenType::If.spelling() == Some(word) {
        Some(TokenType::If)
    } else if TokenType::Nil.spelling() == Some(word) {
        Some(TokenType::Nil)
    } else if TokenType::Or.spelling() == Some(word) {
        Some(TokenType::Or)
    } else if TokenType::Print.spelling() == Some(word) {
        Some(TokenType::Print)
    } else if TokenType::Return.spelling() == Some(word) {
        Some(TokenType::Return)
    } else if TokenType::Super.spelling() == Some(word) {
        Some(TokenType::Super)
    } else if TokenType::This.spelling() == Some(word) {
        Some(TokenType::This)
    } else if TokenType::True.spelling() == Some(word) {
        Some(TokenType::True)
    } else if TokenType::Var.spelling() == Some(word) {
        Some(TokenType::Var)
    } else if TokenType::While.spelling() == Some(word) {
        Some(TokenType::While)
    } else {
        None
    }
}

/// The reserved word spelled by `word`, if it spells one.
pub fn keyword(word: &[char]) -> (kind: Option<TokenType>)
    ensures
        kind == keyword_of(word@),
{
    let n: usize = word.len();
    if n == 2 {
        if word[0] == 'i' && word[1] == 'f' {
            assert(word@ =~= seq!['i', 'f']);
            Some(TokenType::If)
        } else if word[0] == 'o' && word[1] == 'r' {
            assert(word@ =~= seq!['o', 'r']);
            Some(TokenType::Or)
        } else {
            None
        }
    } else if n == 3 {
        if word[0] == 'a' && word[1] == 'n' && word[2] == 'd' {
            assert(word@ =~= seq!['a', 'n', 'd']);
            Some(TokenType::And)
        } else if word[0] == 'f' && word[1] == 'o' && word[2] == 'r' {
            assert(word@ =~= seq!['f', 'o', 'r']);
            Some(TokenType::For)
        } else if word[0] == 'f' && word[1] == 'u' && word[2] == 'n' {
            assert(word@ =~= seq!['f', 'u', 'n']);
            Some(TokenType::Fun)
        } else if word[0] == 'n' && word[1] == 'i' && word[2] == 'l' {
            assert(word@ =~= seq!['n', 'i', 'l']);
            Some(TokenType::Nil)
        } else if word[0] == 'v' && word[1] == 'a' && word[2] == 'r' {
            assert(word@ =~= seq!['v', 'a', 'r']);
            Some(TokenType::Var)
        } else {
            None
        }
    } else if n == 4 {
        if word[0] == 'e' && word[1] == 'l' && word[2] == 's' && word[3] == 'e' {
            assert(word@ =~= seq!['e', 'l', 's', 'e']);
            Some(TokenType::Else)
        } else if word[0] == 't' && word[1] == 'h' && word[2] == 'i' && word[3] == 's' {
            assert(word@ =~= seq!['t', 'h', 'i', 's']);
            Some(TokenType::This)
        } else if word[0] == 't' && word[1] == 'r' && word[2] == 'u' && word[3] == 'e' {
            assert(word@ =~= seq!['t', 'r', 'u', 'e']);
            Some(TokenType::True)
        } else {
            None
        }
    } else if n == 5 {
        if word[0] == 'c'
            && word[1] == 'l'
            && word[2] == 'a'
            && word[3] == 's'
            && word[4] == 's'
        {
            assert(word@ =~= seq!['c', 'l', 'a', 's', 's']);
            Some(TokenType::Class)
        } else if word[0] == 'f'
            && word[1] == 'a'
            && word[2] == 'l'
            && word[3] == 's'
            && word[4] == 'e'
        {
            assert(word@ =~= seq!['f', 'a', 'l', 's', 'e']);
            Some(TokenType::False)
        } else if word[0] == 'p'
            && word[1] == 'r'
            && word[2] == 'i'
            && word[3] == 'n'
            && word[4] == 't'
        {
            assert(word@ =~= seq!['p', 'r', 'i', 'n', 't']);
            Some(TokenType::Print)
        } else if word[0] == 's'
            && word[1] == 'u'
            && word[2] == 'p'
            && word[3] == 'e'
            && word[4] == 'r'
        {
            assert(word@ =~= seq!['s', 'u', 'p', 'e', 'r']);
            Some(TokenType::Super)
        } else if word[0] == 'w'
            && word[1] == 'h'
            && word[2] == 'i'
            && word[3] == 'l'
            && word[4] == 'e'
        {
            assert(word@ =~= seq!['w', 'h', 'i', 'l', 'e']);
            Some(TokenType::While)
        } else {
            None
        }
    } else if n == 6 {
        if word[0] == 'r'
            && word[1] == 'e'
            && word[2] == 't'
            && word[3] == 'u'
            && word[4] == 'r'
            && word[5] == 'n'
        {
            assert(word@ =~= seq!['r', 'e', 't', 'u', 'r', 'n']);
            Some(TokenType::Return)
        } else {
            None
        }
    } else {
        None
    }
}

/// One classified unit of source text.
#[derive(Clone, Debug, PartialEq, Eq)]
pub struct Token {
    /// What kind of token this is.
    pub token_type: TokenType,
    /// The source text of an identifier, a number or the inside of a string;
    /// absent where the kind alone fixes the spelling.
    pub lexeme: Option<String>,
    /// The line on which the token starts, counted from 1.
    pub line: u32,
}

/// A token as a mathematical value: its lexeme is a sequence of characters.
pub struct TokenView {
    pub token_type: TokenType,
    pub lexeme: Option<Seq<char>>,
    pub line: u32,
}

impl View for Token {
    type V = TokenView;

    open spec fn view(&self) -> TokenView {
        TokenView {
            token_type: self.token_type,
            lexeme: match self.lexeme {
                Some(text) => Some(text@),
                None => None,
            },
            line: self.line,
        }
    }
}

/// The tokens of a sequence as mathematical values.
pub open spec fn token_views(tokens: Seq<Token>) -> Seq<TokenView> {
    tokens.map_values(|token: Token| token@)
}

impl Token {
    /// A token of the given kind, lexeme and line.
    pub fn new(token_type: TokenType, lexeme: Option<String>, line: u32) -> (token: Token)
        ensures
            token.token_type == token_type,
            token.lexeme == lexeme,
            token.line == line,
    {
        Token { token_type, lexeme, line }
    }
}

/// What can be wrong with a piece of source text.
#[derive(Clone, Copy, Debug, PartialEq, Eq, Structural)]
pub enum LexError {
    /// A character that starts no token and is neither whitespace nor a comment.
    UnrecognizedCharacter(char),
    /// A string literal whose closing quote is missing.
    UnterminatedString,
}

/// A lexical error together with the line it was found on.
#[derive(Clone, Copy, Debug, PartialEq, Eq, Structural)]
pub struct Diagnostic {
    /// What went wrong.
    pub error: LexError,
    /// For an unrecognized character, the line it stands on; for an
    /// unterminated string, the line of its opening quote. Counted from 1.
    pub line: u32,
}

} // verus!
