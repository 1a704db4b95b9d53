//! The scanner: source text to tokens.

use crate::error::{Diagnostic, DiagnosticView, ErrorKind, diagnostics_view};
use crate::text::{chars_of, text_of};
use crate::token::{Token, TokenKind, TokenType, TokenView, keyword, keyword_kind, tokens_view};
use vstd::prelude::*;

verus! {

/// Whether `c` is one of the ten decimal digits.
pub open spec fn is_digit(c: char) -> bool {
    '0' <= c && c <= '9'
}

/// What `char::is_alphabetic` answers for `c`: whether Unicode gives it the
/// property Alphabetic.
pub uninterp spec fn unicode_alphabetic(c: char) -> bool;

/// What `char::is_alphanumeric` answers for `c`: whether Unicode counts it as
/// alphabetic or numeric.
pub uninterp spec fn unicode_alphanumeric(c: char) -> bool;

/// `char::is_alphabetic` of the standard library. Its answer is a fixed
/// property of the character, taken from the Unicode tables; the contract
/// gives that answer a name and claims nothing more of it.
pub assume_specification[ char::is_alphabetic ](c: char) -> (r: bool)
    ensures
        r == unicode_alphabetic(c),
;

/// `char::is_alphanumeric` of the standard library. Its answer is a fixed
/// property of the character, taken from the Unicode tables; the contract
/// gives that answer a name and claims nothing more of it.
pub assume_specification[ char::is_alphanumeric ](c: char) -> (r: bool)
    ensures
        r == unicode_alphanumeric(c),
;

/// Whether `c` is white space: a blank, a tab, a carriage return or a line
/// break.
pub open spec fn is_space(c: char) -> bool {
    c == ' ' || c == '\t' || c == '\r' || c == '\n'
}

/// Tests whether `c` is white space.
pub fn space(c: char) -> (r: bool)
    ensures
        r == is_space(c),
{
    c == ' ' || c == '\t' || c == '\r' || c == '\n'
}

/// Whether a name may begin with `c`.
pub open spec fn starts_word(c: char) -> bool {
    unicode_alphabetic(c) || c == '_'
}

/// The classes of characters that the scanner reads in runs.
#[derive(Clone, Copy, Debug, PartialEq, Eq, Structural)]
pub enum CharClass {
    /// The decimal digits.
    Digit,
    /// What a name may go on with: alphanumeric characters and the
    /// underscore, and never white space.
    Word,
    /// Everything but the double quote.
    Quoted,
}

impl CharClass {
    /// Whether `c` belongs to the class.
    pub open spec fn holds(self, c: char) -> bool {
        match self {
            CharClass::Digit => is_digit(c),
            CharClass::Word => c == '_' || (!is_space(c) && unicode_alphanumeric(c)),
            CharClass::Quoted => c != '"',
        }
    }

    /// Tests whether `c` belongs to the class.
    pub fn contains(self, c: char) -> (r: bool)
        ensures
            r == self.holds(c),
    {
        match self {
            CharClass::Digit => '0' <= c && c <= '9',
            CharClass::Word => c == '_' || (!space(c) && c.is_alphanumeric()),
            CharClass::Quoted => c != '"',
        }
    }
}

/// How many characters of `src`, counted from `pos` on, belong to `class`
/// before the first one that does not, or the end.
pub open spec fn run_length(src: Seq<char>, pos: int, class: CharClass) -> nat
    decreases src.len() - pos,
{
    if 0 <= pos < src.len() && class.holds(src[pos]) {
        1 + run_length(src, pos + 1, class)
    } else {
        0
    }
}

/// What one step of the scanner finds.
pub enum Scanned {
    /// A token of this kind.
    Token(TokenKind),
    /// A blank, a tab or a carriage return.
    Blank,
    /// A line break.
    Newline,
    /// Something that is no token, with the message that says why.
    Error(Seq<char>),
}

/// One step of the scanner: what it found, and where the next step begins.
pub struct Step {
    pub found: Scanned,
    pub end: int,
}

/// A token of one character.
pub open spec fn single(pos: int, kind: TokenKind) -> Step {
    Step { found: Scanned::Token(kind), end: pos + 1 }
}

/// A token of two characters where `second` follows, else of one.
pub open spec fn one_or_two(
    src: Seq<char>,
    pos: int,
    second: char,
    double: TokenKind,
    alone: TokenKind,
) -> Step {
    if pos + 1 < src.len() && src[pos + 1] == second {
        Step { found: Scanned::Token(double), end: pos + 2 }
    } else {
        Step { found: Scanned::Token(alone), end: pos + 1 }
    }
}

/// A string literal whose opening quote stands at `pos`: all up to the next
/// quote, which is taken too. Without a closing quote the rest of the source
/// is taken and reported.
pub open spec fn string_step(src: Seq<char>, pos: int) -> Step {
    let close = pos + 1 + run_length(src, pos + 1, CharClass::Quoted);
    if close >= src.len() {
        Step { found: Scanned::Error("Unterminated string"@), end: src.len() as int }
    } else {
        Step { found: Scanned::Token(TokenKind::String(src.subrange(pos + 1, close))), end: close + 1 }
    }
}

/// Where the number literal that begins at `pos` ends: after its digits, and
/// after a point and further digits where a point and a digit follow.
pub open spec fn number_end(src: Seq<char>, pos: int) -> int {
    let whole = pos + 1 + run_length(src, pos + 1, CharClass::Digit);
    if whole + 1 < src.len() && src[whole] == '.' && is_digit(src[whole + 1]) {
        whole + 2 + run_length(src, whole + 2, CharClass::Digit)
    } else {
        whole
    }
}

/// A number literal whose first digit stands at `pos`.
pub open spec fn number_step(src: Seq<char>, pos: int) -> Step {
    let end = number_end(src, pos);
    Step { found: Scanned::Token(TokenKind::Number(src.subrange(pos, end))), end }
}

/// A keyword or a name whose first character stands at `pos`.
pub open spec fn word_step(src: Seq<char>, pos: int) -> Step {
    let end = pos + 1 + run_length(src, pos + 1, CharClass::Word);
    let kind = match keyword_kind(src.subrange(pos, end)) {
        Some(k) => k,
        None => TokenKind::Identifier,
    };
    Step { found: Scanned::Token(kind), end }
}

/// The message for a character that begins no token.
pub open spec fn unexpected(c: char) -> Seq<char> {
    "Unexpected Token '"@ + seq![c] + "'"@
}

/// The step that the scanner takes at `pos`, a position inside `src`.
pub open spec fn scan_at(src: Seq<char>, pos: int) -> Step {
    let c = src[pos];
    if c == ' ' || c == '\r' || c == '\t' {
        Step { found: Scanned::Blank, end: pos + 1 }
    } else if c == '\n' {
        Step { found: Scanned::Newline, end: pos + 1 }
    } else if c == '(' {
        single(pos, TokenKind::LeftParen)
    } else if c == ')' {
        single(pos, TokenKind::RightParen)
    } else if c == '{' {
        single(pos, TokenKind::LeftBrace)
    } else if c == '}' {
        single(pos, TokenKind::RightBrace)
    } else if c == ',' {
        single(pos, TokenKind::Comma)
    } else if c == '-' {
        single(pos, TokenKind::Minus)
    } else if c == '+' {
        single(pos, TokenKind::Plus)
    } else if c == ';' {
        single(pos, TokenKind::Semicolon)
    } else if c == '*' {
        single(pos, TokenKind::Star)
    } else if c == '/' {
        single(pos, TokenKind::Slash)
    } else if c == '!' {
        one_or_two(src, pos, '=', TokenKind::BangEqual, TokenKind::Bang)
    } else if c == '=' {
        one_or_two(src, pos, '=', TokenKind::EqualEqual, TokenKind::Equal)
    } else if c == '>' {
        one_or_two(src, pos, '=', TokenKind::GreaterEqual, TokenKind::Greater)
    } else if c == '<' {
        one_or_two(src, pos, '=', TokenKind::LessEqual, TokenKind::Less)
    } else if c == '.' {
        one_or_two(src, pos, '.', TokenKind::DotDot, TokenKind::Dot)
    } else if c == '"' {
        string_step(src, pos)
    } else if is_digit(c) {
        number_step(src, pos)
    } else if starts_word(c) {
        word_step(src, pos)
    } else {
        Step { found: Scanned::Error(unexpected(c)), end: pos + 1 }
    }
}

/// Where the step at `pos` ends: after `pos` and inside the source, as every
/// step does.
pub open spec fn step_end(src: Seq<char>, pos: int) -> int {
    let end = scan_at(src, pos).end;
    if pos < end <= src.len() {
        end
    } else {
        pos + 1
    }
}

/// The tokens and the diagnostics of a source, each in the order found.
pub struct Lexed {
    pub tokens: Seq<TokenView>,
    pub errors: Seq<DiagnosticView>,
}

/// What the scanner makes of `src` from `pos` on, where `pos` stands on line `line`.
pub open spec fn lex_from(src: Seq<char>, pos: int, line: nat) -> Lexed
    decreases src.len() - pos,
{
    if pos < 0 || pos >= src.len() {
        Lexed { tokens: Seq::empty(), errors: Seq::empty() }
    } else {
        let end = step_end(src, pos);
        match scan_at(src, pos).found {
            Scanned::Token(kind) => {
                let rest = lex_from(src, end, line);
                let token = TokenView { lexeme: src.subrange(pos, end), ty: kind, line };
                Lexed { tokens: seq![token] + rest.tokens, errors: rest.errors }
            },
            Scanned::Blank => lex_from(src, end, line),
            Scanned::Newline => lex_from(src, end, line + 1),
            Scanned::Error(message) => {
                let rest = lex_from(src, end, line);
                let error = DiagnosticView { kind: ErrorKind::Syntax, line, message };
                Lexed { tokens: rest.tokens, errors: seq![error] + rest.errors }
            },
        }
    }
}

/// What the scanner makes of a whole source, which begins on line 1.
pub open spec fn lex(src: Seq<char>) -> Lexed {
    lex_from(src, 0, 1)
}

/// The end of a run lies inside the source.
pub proof fn lemma_run_in_bounds(src: Seq<char>, pos: int, class: CharClass)
    requires
        0 <= pos <= src.len(),
    ensures
        pos + run_length(src, pos, class) <= src.len(),
    decreases src.len() - pos,
{
    if pos < src.len() && class.holds(src[pos]) {
        lemma_run_in_bounds(src, pos + 1, class);
    }
}

/// Every step ends after the position it began at, and inside the source.
pub proof fn lemma_step_advances(src: Seq<char>, pos: int)
    requires
        0 <= pos < src.len(),
    ensures
        pos < scan_at(src, pos).end <= src.len(),
        step_end(src, pos) == scan_at(src, pos).end,
{
    lemma_run_in_bounds(src, pos + 1, CharClass::Digit);
    lemma_run_in_bounds(src, pos + 1, CharClass::Word);
    let whole = pos + 1 + run_length(src, pos + 1, CharClass::Digit);
    if whole + 1 < src.len() {
        lemma_run_in_bounds(src, whole + 2, CharClass::Digit);
    }
}

/// What `tokenize` answers for a source that scans as `lexed`: the tokens where
/// nothing was reported, else everything that was reported.
pub open spec fn outcome(lexed: Lexed) -> Result<Seq<TokenView>, Seq<DiagnosticView>> {
    if lexed.errors.len() == 0 {
        Ok(lexed.tokens)
    } else {
        Err(lexed.errors)
    }
}

/// The answer of `tokenize` as a mathematical value.
pub open spec fn outcome_view(r: Result<Vec<Token>, Vec<Diagnostic>>) -> Result<
    Seq<TokenView>,
    Seq<DiagnosticView>,
> {
    match r {
        Ok(tokens) => Ok(tokens_view(tokens@)),
        Err(errors) => Err(diagnostics_view(errors@)),
    }
}

/// The scanner. It holds the source and a cursor into it.
pub struct Lexer {
    source: String,
    /// The characters of the source, followed by one NUL, so that looking
    /// ahead at the end of the source finds a character that begins nothing.
    chars: Vec<char>,
    current: usize,
    start: usize,
    line: usize,
}

impl Lexer {
    /// The source that this scanner reads.
    pub closed spec fn text(&self) -> Seq<char> {
        self.source@
    }

    /// The cursor lies inside the source, and the line counter has counted no
    /// more line breaks than the cursor has passed.
    pub closed spec fn wf(&self) -> bool {
        &&& self.chars@ == self.source@.push('\0')
        &&& self.source@.len() < usize::MAX
        &&& self.start <= self.current <= self.source@.len()
        &&& 1 <= self.line <= self.current + 1
    }

    /// A scanner at the beginning of `source`.
    pub fn new(source: String) -> (r: Self)
        ensures
            r.wf(),
            r.text() == source@,
    {
        let mut chars = chars_of(source.as_str());
        chars.push('\0');
        assert(chars@.len() == chars.len());
        Self { source, chars, current: 0, start: 0, line: 1 }
    }

    /// Scans the whole source. Scanning goes on after a character that
    /// begins no token; if anything was reported, the answer is all that was
    /// reported, else all the tokens.
    pub fn tokenize(&mut self) -> (r: Result<Vec<Token>, Vec<Diagnostic>>)
        requires
            old(self).wf(),
        ensures
            final(self).wf(),
            final(self).text() == old(self).text(),
            outcome_view(r) == outcome(lex(old(self).text())),
    {
        self.reset();
        let mut tokens: Vec<Token> = Vec::new();
        let mut errors: Vec<Diagnostic> = Vec::new();
        let ghost src = self.source@;
        while !self.finished()
            invariant
                self.wf(),
                self.source@ == src,
                tokens_view(tokens@) + lex_from(src, self.current as int, self.line as nat).tokens
                    == lex(src).tokens,
                diagnostics_view(errors@) + lex_from(
                    src,
                    self.current as int,
                    self.line as nat,
                ).errors == lex(src).errors,
            decreases src.len() - self.current,
        {
            self.start = self.current;
            let ghost line = self.line as nat;
            match self.scan_token() {
                Ok(Some(token)) => {
                    tokens.push(token);
                    proof {
                        let rest = lex_from(src, self.current as int, line);
                    }
                },
                Ok(None) => {},
                Err(error) => {
                    errors.push(error);
                    proof {
                        let rest = lex_from(src, self.current as int, line);
                    }
                },
            }
        }
        if errors.len() == 0 {
            Ok(tokens)
        } else {
            Err(errors)
        }
    }

    fn reset(&mut self)
        requires
            old(self).wf(),
        ensures
            final(self).wf(),
            final(self).source == old(self).source,
            final(self).current == 0,
            final(self).line == 1,
    {
        self.line = 1;
        self.start = 0;
        self.current = 0;
    }

    /// Takes one step at the cursor: a token, a blank, a line break, or a
    /// report of what begins no token.
    fn scan_token(&mut self) -> (r: Result<Option<Token>, Diagnostic>)
        requires
            old(self).wf(),
            old(self).start == old(self).current,
            old(self).current < old(self).source@.len(),
        ensures
            final(self).wf(),
            final(self).source == old(self).source,
            final(self).current == scan_at(old(self).source@, old(self).current as int).end,
            match scan_at(old(self).source@, old(self).current as int).found {
                Scanned::Token(kind) => {
                    &&& r matches Ok(Some(token))
                    &&& token@ == (TokenView {
                        lexeme: old(self).source@.subrange(
                            old(self).current as int,
                            final(self).current as int,
                        ),
                        ty: kind,
                        line: old(self).line as nat,
                    })
                    &&& final(self).line == old(self).line
                },
                Scanned::Blank => r matches Ok(None) && final(self).line == old(self).line,
                Scanned::Newline => r matches Ok(None) && final(self).line == old(self).line + 1,
                Scanned::Error(message) => {
                    &&& r matches Err(error)
                    &&& error@ == (DiagnosticView {
                        kind: ErrorKind::Syntax,
                        line: old(self).line as nat,
                        message,
                    })
                    &&& final(self).line == old(self).line
                },
            },
    {
        let c = self.next_char();
        if c == ' ' || c == '\r' || c == '\t' {
            Ok(None)
        } else if c == '\n' {
            self.line = self.line + 1;
            Ok(None)
        } else if c == '(' {
            Ok(Some(self.add_token(TokenType::LeftParen)))
        } else if c == ')' {
            Ok(Some(self.add_token(TokenType::RightParen)))
        } else if c == '{' {
            Ok(Some(self.add_token(TokenType::LeftBrace)))
        } else if c == '}' {
            Ok(Some(self.add_token(TokenType::RightBrace)))
        } else if c == ',' {
            Ok(Some(self.add_token(TokenType::Comma)))
        } else if c == '-' {
            Ok(Some(self.add_token(TokenType::Minus)))
        } else if c == '+' {
            Ok(Some(self.add_token(TokenType::Plus)))
        } else if c == ';' {
            Ok(Some(self.add_token(TokenType::Semicolon)))
        } else if c == '*' {
            Ok(Some(self.add_token(TokenType::Star)))
        } else if c == '/' {
            Ok(Some(self.add_token(TokenType::Slash)))
        } else if c == '!' {
            if self.complement('=') {
                Ok(Some(self.add_token(TokenType::BangEqual)))
            } else {
                Ok(Some(self.add_token(TokenType::Bang)))
            }
        } else if c == '=' {
            if self.complement('=') {
                Ok(Some(self.add_token(TokenType::EqualEqual)))
            } else {
                Ok(Some(self.add_token(TokenType::Equal)))
            }
        } else if c == '>' {
            if self.complement('=') {
                Ok(Some(self.add_token(TokenType::GreaterEqual)))
            } else {
                Ok(Some(self.add_token(TokenType::Greater)))
            }
        } else if c == '<' {
            if self.complement('=') {
                Ok(Some(self.add_token(TokenType::LessEqual)))
            } else {
                Ok(Some(self.add_token(TokenType::Less)))
            }
        } else if c == '.' {
            if self.complement('.') {
                Ok(Some(self.add_token(TokenType::DotDot)))
            } else {
                Ok(Some(self.add_token(TokenType::Dot)))
            }
        } else if c == '"' {
            match self.add_string_token() {
                Ok(token) => Ok(Some(token)),
                Err(error) => Err(error),
            }
        } else if CharClass::Digit.contains(c) {
            Ok(Some(self.add_number_token()))
        } else if c.is_alphabetic() || c == '_' {
            Ok(Some(self.add_identifier_token()))
        } else {
            let mut message = String::from_str("Unexpected Token '");
            message.push(c);
            message.append("'");
            assert(message@ =~= unexpected(c));
            Err(Diagnostic::syntax(self.line, message))
        }
    }

    /// Reads on to the end of a name and tells a keyword from an identifier.
    fn add_identifier_token(&mut self) -> (r: Token)
        requires
            old(self).wf(),
            old(self).current == old(self).start + 1,
        ensures
            final(self).wf(),
            final(self).source == old(self).source,
            final(self).line == old(self).line,
            final(self).start == old(self).start,
            final(self).current == word_step(old(self).source@, old(self).start as int).end,
            r@ == (TokenView {
                lexeme: old(self).source@.subrange(
                    old(self).start as int,
                    final(self).current as int,
                ),
                ty: word_step(old(self).source@, old(self).start as int).found->Token_0,
                line: old(self).line as nat,
            }),
    {
        self.current = self.run(self.current, CharClass::Word);
        let mut word: Vec<char> = Vec::new();
        let mut i = self.start;
        while i < self.current
            invariant
                self.wf(),
                self.start <= i <= self.current,
                word@ == self.source@.subrange(self.start as int, i as int),
            decreases self.current - i,
        {
            word.push(self.chars[i]);
            i = i + 1;
        }
        match keyword(&word) {
            Some(kind) => self.add_token(kind),
            None => self.add_token(TokenType::Identifier),
        }
    }

    /// Reads on to the closing quote of a string literal.
    fn add_string_token(&mut self) -> (r: Result<Token, Diagnostic>)
        requires
            old(self).wf(),
            old(self).current == old(self).start + 1,
        ensures
            final(self).wf(),
            final(self).source == old(self).source,
            final(self).line == old(self).line,
            final(self).current == string_step(old(self).source@, old(self).start as int).end,
            match string_step(old(self).source@, old(self).start as int).found {
                Scanned::Token(kind) => {
                    &&& r matches Ok(token)
                    &&& token@ == (TokenView {
                        lexeme: old(self).source@.subrange(
                            old(self).start as int,
                            final(self).current as int,
                        ),
                        ty: kind,
                        line: old(self).line as nat,
                    })
                },
                Scanned::Error(message) => {
                    &&& r matches Err(error)
                    &&& error@ == (DiagnosticView {
                        kind: ErrorKind::Syntax,
                        line: old(self).line as nat,
                        message,
                    })
                },
                _ => false,
            },
    {
        self.current = self.run(self.current, CharClass::Quoted);
        if self.finished() {
            return Err(Diagnostic::syntax(self.line, String::from_str("Unterminated string")));
        }
        // takes the closing quote

        self.next_char();
        let text = text_of(&self.chars, self.start + 1, self.current - 1);
        assert(self.chars@.subrange(self.start + 1, self.current - 1) =~= self.source@.subrange(
            self.start + 1,
            self.current - 1,
        ));
        Ok(self.add_token(TokenType::String(text)))
    }

    /// Reads on to the end of a number literal.
    fn add_number_token(&mut self) -> (r: Token)
        requires
            old(self).wf(),
            old(self).current == old(self).start + 1,
        ensures
            final(self).wf(),
            final(self).source == old(self).source,
            final(self).line == old(self).line,
            final(self).current == number_end(old(self).source@, old(self).start as int),
            r@ == (TokenView {
                lexeme: old(self).source@.subrange(
                    old(self).start as int,
                    final(self).current as int,
                ),
                ty: TokenKind::Number(
                    old(self).source@.subrange(old(self).start as int, final(self).current as int),
                ),
                line: old(self).line as nat,
            }),
    {
        self.current = self.run(self.current, CharClass::Digit);
        if self.peek() == '.' && CharClass::Digit.contains(self.peek1()) {
            self.next_char();
            self.current = self.run(self.current, CharClass::Digit);
        }
        let text = text_of(&self.chars, self.start, self.current);
        assert(self.chars@.subrange(self.start as int, self.current as int)
            =~= self.source@.subrange(self.start as int, self.current as int));
        self.add_token(TokenType::Number(text))
    }

    /// Where the run of `class` that begins at `from` ends.
    fn run(&self, from: usize, class: CharClass) -> (end: usize)
        requires
            self.wf(),
            from <= self.source@.len(),
        ensures
            end == from + run_length(self.source@, from as int, class),
            from <= end <= self.source@.len(),
    {
        let n = self.chars.len() - 1;
        let mut i = from;
        while i < n && class.contains(self.chars[i])
            invariant
                self.wf(),
                n == self.source@.len(),
                from <= i <= n,
                from + run_length(self.source@, from as int, class) == i + run_length(
                    self.source@,
                    i as int,
                    class,
                ),
            decreases n - i,
        {
            i = i + 1;
        }
        i
    }

    /// Takes the next character if it is `c`.
    fn complement(&mut self, c: char) -> (r: bool)
        requires
            old(self).wf(),
            c != '\0',
        ensures
            final(self).wf(),
            final(self).source == old(self).source,
            final(self).line == old(self).line,
            final(self).start == old(self).start,
            r == (old(self).current < old(self).source@.len() && old(self).source@[old(
                self,
            ).current as int] == c),
            final(self).current == if r {
                old(self).current + 1
            } else {
                old(self).current as int
            },
    {
        if self.peek() == c {
            self.current = self.current + 1;
            return true;
        }
        false
    }

    /// The token that the text between `start` and the cursor makes.
    fn add_token(&self, ty: TokenType) -> (r: Token)
        requires
            self.wf(),
        ensures
            r@ == (TokenView {
                lexeme: self.source@.subrange(self.start as int, self.current as int),
                ty: ty@,
                line: self.line as nat,
            }),
    {
        let lexeme = text_of(&self.chars, self.start, self.current);
        assert(self.chars@.subrange(self.start as int, self.current as int)
            =~= self.source@.subrange(self.start as int, self.current as int));
        Token::new(lexeme, ty, self.line)
    }

    /// The character at the cursor; NUL at the end of the source.
    fn peek(&self) -> (c: char)
        requires
            self.wf(),
        ensures
            c == self.source@.push('\0')[self.current as int],
    {
        self.chars[self.current]
    }

    /// The character after the one at the cursor; NUL where there is none.
    fn peek1(&self) -> (c: char)
        requires
            self.wf(),
        ensures
            c == if self.current + 1 < self.source@.len() {
                self.source@[self.current + 1]
            } else {
                '\0'
            },
    {
        if self.current + 1 < self.chars.len() {
            self.chars[self.current + 1]
        } else {
            '\0'
        }
    }

    /// Takes the character at the cursor.
    fn next_char(&mut self) -> (c: char)
        requires
            old(self).wf(),
            old(self).current < old(self).source@.len(),
        ensures
            final(self).wf(),
            final(self).source == old(self).source,
            final(self).line == old(self).line,
            final(self).start == old(self).start,
            final(self).current == old(self).current + 1,
            c == old(self).source@[old(self).current as int],
    {
        let c = self.chars[self.current];
        self.current = self.current + 1;
        c
    }

    /// Whether the cursor has reached the end of the source.
    fn finished(&self) -> (r: bool)
        requires
            self.wf(),
        ensures
            r == (self.current >= self.source@.len()),
    {
        self.current >= self.chars.len() - 1
    }
}

} // verus!
