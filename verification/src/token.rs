//! Tokens: what the scanner hands to the parser.

use vstd::prelude::*;

verus! {

/// The kind of a token. The two literal kinds carry what the literal says.
#[derive(Debug)]
pub enum TokenType {
    /// `(`
    LeftParen,
    /// `)`
    RightParen,
    /// `{`
    LeftBrace,
    /// `}`
    RightBrace,
    /// `,`
    Comma,
    /// `.`
    Dot,
    /// `-`
    Minus,
    /// `+`
    Plus,
    /// `;`
    Semicolon,
    /// `/`
    Slash,
    /// `*`
    Star,
    /// `!`
    Bang,
    /// `!=`
    BangEqual,
    /// `=`
    Equal,
    /// `==`
    EqualEqual,
    /// `>`
    Greater,
    /// `>=`
    GreaterEqual,
    /// `<`
    Less,
    /// `<=`
    LessEqual,
    /// `..`
    DotDot,
    /// A name that is no keyword.
    Identifier,
    /// A string literal, with the text between its quotes.
    String(String),
    /// A number literal, with its decimal text as written.
    Number(String),
    /// The keyword `and`.
    And,
    /// The keyword `class`.
    Class,
    /// The keyword `else`.
    Else,
    /// The keyword `false`.
    False,
    /// The keyword `fn`.
    Fn,
    /// The keyword `for`.
    For,
    /// The keyword `if`.
    If,
    /// The keyword `in`.
    In,
    /// The keyword `null`.
    Null,
    /// The keyword `or`.
    Or,
    /// The keyword `return`.
    Return,
    /// The keyword `super`.
    Super,
    /// The keyword `this`.
    This,
    /// The keyword `true`.
    True,
    /// The keyword `let`.
    Let,
    /// The keyword `while`.
    While,
    /// What the parser sees once the tokens have run out; the scanner never makes one.
    Eof,
}

/// A token kind as a mathematical value.
pub enum TokenKind {
    /// `(`
    LeftParen,
    /// `)`
    RightParen,
    /// `{`
    LeftBrace,
    /// `}`
    RightBrace,
    /// `,`
    Comma,
    /// `.`
    Dot,
    /// `-`
    Minus,
    /// `+`
    Plus,
    /// `;`
    Semicolon,
    /// `/`
    Slash,
    /// `*`
    Star,
    /// `!`
    Bang,
    /// `!=`
    BangEqual,
    /// `=`
    Equal,
    /// `==`
    EqualEqual,
    /// `>`
    Greater,
    /// `>=`
    GreaterEqual,
    /// `<`
    Less,
    /// `<=`
    LessEqual,
    /// `..`
    DotDot,
    /// A name that is no keyword.
    Identifier,
    /// A string literal, with the text between its quotes.
    String(Seq<char>),
    /// A number literal, with its decimal text as written.
    Number(Seq<char>),
    /// The keyword `and`.
    And,
    /// The keyword `class`.
    Class,
    /// The keyword `else`.
    Else,
    /// The keyword `false`.
    False,
    /// The keyword `fn`.
    Fn,
    /// The keyword `for`.
    For,
    /// The keyword `if`.
    If,
    /// The keyword `in`.
    In,
    /// The keyword `null`.
    Null,
    /// The keyword `or`.
    Or,
    /// The keyword `return`.
    Return,
    /// The keyword `super`.
    Super,
    /// The keyword `this`.
    This,
    /// The keyword `true`.
    True,
    /// The keyword `let`.
    Let,
    /// The keyword `while`.
    While,
    /// What the parser sees once the tokens have run out; the scanner never makes one.
    Eof,
}

impl View for TokenType {
    type V = TokenKind;

    open spec fn view(&self) -> TokenKind {
        match self {
            TokenType::LeftParen => TokenKind::LeftParen,
            TokenType::RightParen => TokenKind::RightParen,
            TokenType::LeftBrace => TokenKind::LeftBrace,
            TokenType::RightBrace => TokenKind::RightBrace,
            TokenType::Comma => TokenKind::Comma,
            TokenType::Dot => TokenKind::Dot,
            TokenType::Minus => TokenKind::Minus,
            TokenType::Plus => TokenKind::Plus,
            TokenType::Semicolon => TokenKind::Semicolon,
            TokenType::Slash => TokenKind::Slash,
            TokenType::Star => TokenKind::Star,
            TokenType::Bang => TokenKind::Bang,
            TokenType::BangEqual => TokenKind::BangEqual,
            TokenType::Equal => TokenKind::Equal,
            TokenType::EqualEqual => TokenKind::EqualEqual,
            TokenType::Greater => TokenKind::Greater,
            TokenType::GreaterEqual => TokenKind::GreaterEqual,
            TokenType::Less => TokenKind::Less,
            TokenType::LessEqual => TokenKind::LessEqual,
            TokenType::DotDot => TokenKind::DotDot,
            TokenType::Identifier => TokenKind::Identifier,
            TokenType::String(s) => TokenKind::String(s@),
            TokenType::Number(s) => TokenKind::Number(s@),
            TokenType::And => TokenKind::And,
            TokenType::Class => TokenKind::Class,
            TokenType::Else => TokenKind::Else,
            TokenType::False => TokenKind::False,
            TokenType::Fn => TokenKind::Fn,
            TokenType::For => TokenKind::For,
            TokenType::If => TokenKind::If,
            TokenType::In => TokenKind::In,
            TokenType::Null => TokenKind::Null,
            TokenType::Or => TokenKind::Or,
            TokenType::Return => TokenKind::Return,
            TokenType::Super => TokenKind::Super,
            TokenType::This => TokenKind::This,
            TokenType::True => TokenKind::True,
            TokenType::Let => TokenKind::Let,
            TokenType::While => TokenKind::While,
            TokenType::Eof => TokenKind::Eof,
        }
    }
}

impl TokenKind {
    /// The position of the kind in the list of kinds; two kinds have the same
    /// position when they differ at most in what a literal carries.
    pub open spec fn index(self) -> nat {
        match self {
            TokenKind::LeftParen => 0,
            TokenKind::RightParen => 1,
            TokenKind::LeftBrace => 2,
            TokenKind::RightBrace => 3,
            TokenKind::Comma => 4,
            TokenKind::Dot => 5,
            TokenKind::Minus => 6,
            TokenKind::Plus => 7,
            TokenKind::Semicolon => 8,
            TokenKind::Slash => 9,
            TokenKind::Star => 10,
            TokenKind::Bang => 11,
            TokenKind::BangEqual => 12,
            TokenKind::Equal => 13,
            TokenKind::EqualEqual => 14,
            TokenKind::Greater => 15,
            TokenKind::GreaterEqual => 16,
            TokenKind::Less => 17,
            TokenKind::LessEqual => 18,
            TokenKind::DotDot => 19,
            TokenKind::Identifier => 20,
            TokenKind::String(_) => 21,
            TokenKind::Number(_) => 22,
            TokenKind::And => 23,
            TokenKind::Class => 24,
            TokenKind::Else => 25,
            TokenKind::False => 26,
            TokenKind::Fn => 27,
            TokenKind::For => 28,
            TokenKind::If => 29,
            TokenKind::In => 30,
            TokenKind::Null => 31,
            TokenKind::Or => 32,
            TokenKind::Return => 33,
            TokenKind::Super => 34,
            TokenKind::This => 35,
            TokenKind::True => 36,
            TokenKind::Let => 37,
            TokenKind::While => 38,
            TokenKind::Eof => 39,
        }
    }

    /// Whether both are the same kind of token, whatever a literal carries.
    #[verifier::opaque]
    pub open spec fn same_kind(self, other: TokenKind) -> bool {
        self.index() == other.index()
    }
}

impl TokenType {
    /// The position of the kind in the list of kinds.
    pub fn index(&self) -> (r: u8)
        ensures
            r as nat == self@.index(),
    {
        match self {
            TokenType::LeftParen => 0,
            TokenType::RightParen => 1,
            TokenType::LeftBrace => 2,
            TokenType::RightBrace => 3,
            TokenType::Comma => 4,
            TokenType::Dot => 5,
            TokenType::Minus => 6,
            TokenType::Plus => 7,
            TokenType::Semicolon => 8,
            TokenType::Slash => 9,
            TokenType::Star => 10,
            TokenType::Bang => 11,
            TokenType::BangEqual => 12,
            TokenType::Equal => 13,
            TokenType::EqualEqual => 14,
            TokenType::Greater => 15,
            TokenType::GreaterEqual => 16,
            TokenType::Less => 17,
            TokenType::LessEqual => 18,
            TokenType::DotDot => 19,
            TokenType::Identifier => 20,
            TokenType::String(_) => 21,
            TokenType::Number(_) => 22,
            TokenType::And => 23,
            TokenType::Class => 24,
            TokenType::Else => 25,
            TokenType::False => 26,
            TokenType::Fn => 27,
            TokenType::For => 28,
            TokenType::If => 29,
            TokenType::In => 30,
            TokenType::Null => 31,
            TokenType::Or => 32,
            TokenType::Return => 33,
            TokenType::Super => 34,
            TokenType::This => 35,
            TokenType::True => 36,
            TokenType::Let => 37,
            TokenType::While => 38,
            TokenType::Eof => 39,
        }
    }

    /// Whether both are the same kind of token, whatever a literal carries.
    pub fn same_kind(&self, other: &TokenType) -> (r: bool)
        ensures
            r == self@.same_kind(other@),
    {
        reveal(TokenKind::same_kind);
        self.index() == other.index()
    }
}

impl Clone for TokenType {
    fn clone(&self) -> (r: Self)
        ensures
            r@ == self@,
    {
        match self {
            TokenType::String(s) => TokenType::String(s.clone()),
            TokenType::Number(s) => TokenType::Number(s.clone()),
            TokenType::LeftParen => TokenType::LeftParen,
            TokenType::RightParen => TokenType::RightParen,
            TokenType::LeftBrace => TokenType::LeftBrace,
            TokenType::RightBrace => TokenType::RightBrace,
            TokenType::Comma => TokenType::Comma,
            TokenType::Dot => TokenType::Dot,
            TokenType::Minus => TokenType::Minus,
            TokenType::Plus => TokenType::Plus,
            TokenType::Semicolon => TokenType::Semicolon,
            TokenType::Slash => TokenType::Slash,
            TokenType::Star => TokenType::Star,
            TokenType::Bang => TokenType::Bang,
            TokenType::BangEqual => TokenType::BangEqual,
            TokenType::Equal => TokenType::Equal,
            TokenType::EqualEqual => TokenType::EqualEqual,
            TokenType::Greater => TokenType::Greater,
            TokenType::GreaterEqual => TokenType::GreaterEqual,
            TokenType::Less => TokenType::Less,
            TokenType::LessEqual => TokenType::LessEqual,
            TokenType::DotDot => TokenType::DotDot,
            TokenType::Identifier => TokenType::Identifier,
            TokenType::And => TokenType::And,
            TokenType::Class => TokenType::Class,
            TokenType::Else => TokenType::Else,
            TokenType::False => TokenType::False,
            TokenType::Fn => TokenType::Fn,
            TokenType::For => TokenType::For,
            TokenType::If => TokenType::If,
            TokenType::In => TokenType::In,
            TokenType::Null => TokenType::Null,
            TokenType::Or => TokenType::Or,
            TokenType::Return => TokenType::Return,
            TokenType::Super => TokenType::Super,
            TokenType::This => TokenType::This,
            TokenType::True => TokenType::True,
            TokenType::Let => TokenType::Let,
            TokenType::While => TokenType::While,
            TokenType::Eof => TokenType::Eof,
        }
    }
}

/// The keyword that `word` spells, if it spells one.
pub open spec fn keyword_kind(word: Seq<char>) -> Option<TokenKind> {
    if word == "let"@ {
        Some(TokenKind::Let)
    } else if word == "fn"@ {
        Some(TokenKind::Fn)
    } else if word == "while"@ {
        Some(TokenKind::While)
    } else if word == "for"@ {
        Some(TokenKind::For)
    } else if word == "in"@ {
        Some(TokenKind::In)
    } else if word == "and"@ {
        Some(TokenKind::And)
    } else if word == "or"@ {
        Some(TokenKind::Or)
    } else if word == "if"@ {
        Some(TokenKind::If)
    } else if word == "else"@ {
        Some(TokenKind::Else)
    } else if word == "null"@ {
        Some(TokenKind::Null)
    } else if word == "return"@ {
        Some(TokenKind::Return)
    } else if word == "true"@ {
        Some(TokenKind::True)
    } else if word == "false"@ {
        Some(TokenKind::False)
    } else if word == "this"@ {
        Some(TokenKind::This)
    } else if word == "super"@ {
        Some(TokenKind::Super)
    } else if word == "class"@ {
        Some(TokenKind::Class)
    } else {
        None
    }
}

/// Whether `word` holds exactly the characters of `text`.
pub fn spells(word: &Vec<char>, text: &str) -> (r: bool)
    ensures
        r == (word@ == text@),
{
    let n = text.unicode_len();
    if word.len() != n {
        return false;
    }
    let mut i: usize = 0;
    while i < n
        invariant
            n == text@.len(),
            word@.len() == n,
            i <= n,
            forall|j: int| 0 <= j < i ==> word@[j] == text@[j],
        decreases n - i,
    {
        if word[i] != text.get_char(i) {
            return false;
        }
        i = i + 1;
    }
    assert(word@ =~= text@);
    true
}

/// Looks `word` up among the keywords.
pub fn keyword(word: &Vec<char>) -> (r: Option<TokenType>)
    ensures
        r is Some == keyword_kind(word@) is Some,
        r is Some ==> r->0@ == keyword_kind(word@)->0,
{
    if spells(word, "let") {
        Some(TokenType::Let)
    } else if spells(word, "fn") {
        Some(TokenType::Fn)
    } else if spells(word, "while") {
        Some(TokenType::While)
    } else if spells(word, "for") {
        Some(TokenType::For)
    } else if spells(word, "in") {
        Some(TokenType::In)
    } else if spells(word, "and") {
        Some(TokenType::And)
    } else if spells(word, "or") {
        Some(TokenType::Or)
    } else if spells(word, "if") {
        Some(TokenType::If)
    } else if spells(word, "else") {
        Some(TokenType::Else)
    } else if spells(word, "null") {
        Some(TokenType::Null)
    } else if spells(word, "return") {
        Some(TokenType::Return)
    } else if spells(word, "true") {
        Some(TokenType::True)
    } else if spells(word, "false") {
        Some(TokenType::False)
    } else if spells(word, "this") {
        Some(TokenType::This)
    } else if spells(word, "super") {
        Some(TokenType::Super)
    } else if spells(word, "class") {
        Some(TokenType::Class)
    } else {
        None
    }
}

/// A token: the text it was read from, its kind, and the line it stands on.
#[derive(Debug)]
pub struct Token {
    pub lexeme: String,
    pub ty: TokenType,
    pub line: usize,
}

/// A token as a mathematical value.
pub struct TokenView {
    pub lexeme: Seq<char>,
    pub ty: TokenKind,
    pub line: nat,
}

impl View for Token {
    type V = TokenView;

    open spec fn view(&self) -> TokenView {
        TokenView { lexeme: self.lexeme@, ty: self.ty@, line: self.line as nat }
    }
}

/// The views of a list of tokens, in order.
pub open spec fn tokens_view(tokens: Seq<Token>) -> Seq<TokenView> {
    tokens.map_values(|t: Token| t@)
}

impl Token {
    /// A token of the given text, kind and line.
    pub fn new(lexeme: String, ty: TokenType, line: usize) -> (r: Self)
        ensures
            r@ == (TokenView { lexeme: lexeme@, ty: ty@, line: line as nat }),
    {
        Self { lexeme, ty, line }
    }
}

impl Clone for Token {
    fn clone(&self) -> (r: Self)
        ensures
            r@ == self@,
    {
        Token { lexeme: self.lexeme.clone(), ty: self.ty.clone(), line: self.line }
    }
}

} // verus!
