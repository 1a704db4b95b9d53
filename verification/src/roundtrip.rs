//! The round trip of the scanner: the texts of the tokens of a source,
//! written one after the other with a blank after each, scan to the same
//! tokens again.

use crate::lexer::{
    CharClass, Scanned, is_digit, lemma_step_advances, lex, lex_from, run_length, scan_at,
    starts_word,
};
use crate::token::TokenView;
use vstd::prelude::*;

verus! {

/// The texts of the tokens, one after the other, with a blank after each.
pub open spec fn spaced(tokens: Seq<TokenView>) -> Seq<char>
    decreases tokens.len(),
{
    if tokens.len() == 0 {
        Seq::empty()
    } else {
        tokens[0].lexeme + seq![' '] + spaced(tokens.drop_first())
    }
}

/// Whether two lists of tokens agree token for token in text and in kind.
/// The lines on which the tokens stand do not count.
pub open spec fn same_tokens(a: Seq<TokenView>, b: Seq<TokenView>) -> bool {
    &&& a.len() == b.len()
    &&& forall|i: int|
        0 <= i < a.len() ==> (#[trigger] a[i]).lexeme == b[i].lexeme && a[i].ty == b[i].ty
}

/// Whether `text` holds `lexeme` at `p`, and a blank after it.
pub open spec fn holds_at(text: Seq<char>, p: int, lexeme: Seq<char>) -> bool {
    &&& 0 <= p
    &&& p + lexeme.len() < text.len()
    &&& forall|j: int| 0 <= j < lexeme.len() ==> #[trigger] text[p + j] == lexeme[j]
    &&& text[p + lexeme.len()] == ' '
}

/// What a run is made of: characters of the class, up to the first
/// character that is not of the class, or the end.
proof fn lemma_run_chars(a: Seq<char>, i: int, class: CharClass)
    requires
        0 <= i <= a.len(),
    ensures
        i + run_length(a, i, class) <= a.len(),
        forall|k: int| i <= k < i + run_length(a, i, class) ==> class.holds(#[trigger] a[k]),
        i + run_length(a, i, class) < a.len() ==> !class.holds(a[i + run_length(a, i, class)]),
    decreases a.len() - i,
{
    if i < a.len() && class.holds(a[i]) {
        lemma_run_chars(a, i + 1, class);
    }
}

/// Characters of the class up to one that is not of the class are a run.
proof fn lemma_run_exact(a: Seq<char>, i: int, class: CharClass, n: nat)
    requires
        0 <= i,
        i + n <= a.len(),
        forall|k: int| i <= k < i + n ==> class.holds(#[trigger] a[k]),
        i + n < a.len() ==> !class.holds(a[i + n]),
    ensures
        run_length(a, i, class) == n,
    decreases n,
{
    if n > 0 {
        lemma_run_exact(a, i + 1, class, (n - 1) as nat);
    }
}

/// A run that is written again, and followed by a character that is not of
/// its class, is the same run.
proof fn lemma_run_again(
    src: Seq<char>,
    from: int,
    text: Seq<char>,
    at: int,
    class: CharClass,
)
    requires
        0 <= from <= src.len(),
        0 <= at,
        at + run_length(src, from, class) < text.len(),
        forall|j: int|
            0 <= j < run_length(src, from, class) ==> #[trigger] text[at + j] == src[from + j],
        !class.holds(text[at + run_length(src, from, class)]),
    ensures
        run_length(text, at, class) == run_length(src, from, class),
{
    let n = run_length(src, from, class);
    lemma_run_chars(src, from, class);
    assert forall|k: int| at <= k < at + n implies class.holds(#[trigger] text[k]) by {
        assert(text[at + (k - at)] == src[from + (k - at)]);
    }
    lemma_run_exact(text, at, class, n);
}

/// A part of `text` that holds, character for character, what a part of
/// `src` holds is the same sequence of characters.
proof fn lemma_same_part(src: Seq<char>, from: int, text: Seq<char>, at: int, n: int)
    requires
        0 <= from,
        0 <= at,
        0 <= n,
        from + n <= src.len(),
        at + n <= text.len(),
        forall|j: int| 0 <= j < n ==> #[trigger] text[at + j] == src[from + j],
    ensures
        text.subrange(at, at + n) == src.subrange(from, from + n),
{
    assert forall|j: int| 0 <= j < n implies #[trigger] text.subrange(at, at + n)[j]
        == src.subrange(from, from + n)[j] by {
        assert(text[at + j] == src[from + j]);
    }
}

/// Whether `c` is one of the characters that are a token by themselves.
spec fn single(c: char) -> bool {
    c == '(' || c == ')' || c == '{' || c == '}' || c == ',' || c == '-' || c == '+' || c == ';'
        || c == '*' || c == '/'
}

/// A token that is written again, with a blank after it, scans to the same
/// token again.
proof fn lemma_rescan(src: Seq<char>, pos: int, text: Seq<char>, p: int)
    requires
        0 <= pos < src.len(),
        scan_at(src, pos).found is Token,
        holds_at(text, p, src.subrange(pos, scan_at(src, pos).end)),
    ensures
        scan_at(text, p).found == scan_at(src, pos).found,
        scan_at(text, p).end == p + (scan_at(src, pos).end - pos),
{
    lemma_step_advances(src, pos);
    let end = scan_at(src, pos).end;
    let c = src[pos];
    assert forall|j: int| 0 <= j < end - pos implies #[trigger] text[p + j] == src[pos + j] by {}
    assert(text[p + 0] == src[pos + 0]);
    if c == ' ' || c == '\r' || c == '\t' || c == '\n' {
    } else if single(c) {
    } else if c == '!' || c == '=' || c == '>' || c == '<' || c == '.' {
        if end == pos + 2 {
        } else {
        }
    } else if c == '"' {
        let n = run_length(src, pos + 1, CharClass::Quoted);
        lemma_run_chars(src, pos + 1, CharClass::Quoted);
        assert forall|j: int| 0 <= j < n implies #[trigger] text[p + 1 + j] == src[pos + 1 + j] by {
            assert(text[p + (1 + j)] == src[pos + (1 + j)]);
        }
        assert(text[p + (1 + n)] == src[pos + (1 + n)]);
        lemma_run_again(src, pos + 1, text, p + 1, CharClass::Quoted);
        lemma_same_part(src, pos + 1, text, p + 1, n as int);
    } else if is_digit(c) {
        let n = run_length(src, pos + 1, CharClass::Digit);
        let whole = pos + 1 + n;
        assert forall|j: int| 0 <= j < n implies #[trigger] text[p + 1 + j] == src[pos + 1 + j] by {
            assert(text[p + (1 + j)] == src[pos + (1 + j)]);
        }
        if whole + 1 < src.len() && src[whole] == '.' && is_digit(src[whole + 1]) {
            let m = run_length(src, whole + 2, CharClass::Digit);
            assert(text[p + (1 + n)] == src[pos + (1 + n)]);
            assert(text[p + (2 + n)] == src[pos + (2 + n)]);
            lemma_run_again(src, pos + 1, text, p + 1, CharClass::Digit);
            assert forall|j: int| 0 <= j < m implies #[trigger] text[p + n + 3 + j] == src[whole
                + 2 + j] by {
                assert(text[p + (n + 3 + j)] == src[pos + (n + 3 + j)]);
            }
            lemma_run_again(src, whole + 2, text, p + n + 3, CharClass::Digit);
        } else {
            lemma_run_again(src, pos + 1, text, p + 1, CharClass::Digit);
        }
        lemma_same_part(src, pos, text, p, end - pos);
    } else if starts_word(c) {
        let n = run_length(src, pos + 1, CharClass::Word);
        assert forall|j: int| 0 <= j < n implies #[trigger] text[p + 1 + j] == src[pos + 1 + j] by {
            assert(text[p + (1 + j)] == src[pos + (1 + j)]);
        }
        lemma_run_again(src, pos + 1, text, p + 1, CharClass::Word);
        lemma_same_part(src, pos, text, p, end - pos);
    }
}

/// The round trip from a position on: where `text` from `p` on holds the
/// texts of the tokens that the scanner finds in `src` from `pos` on, each
/// with a blank after it, the scanner finds the same tokens in `text` from
/// `p` on, and nothing to report.
proof fn lemma_round_trip_from(
    src: Seq<char>,
    pos: int,
    line: nat,
    text: Seq<char>,
    p: int,
    line_again: nat,
)
    requires
        0 <= pos <= src.len(),
        0 <= p <= text.len(),
        text.subrange(p, text.len() as int) == spaced(lex_from(src, pos, line).tokens),
    ensures
        lex_from(text, p, line_again).errors.len() == 0,
        same_tokens(lex_from(text, p, line_again).tokens, lex_from(src, pos, line).tokens),
    decreases src.len() - pos,
{
    let found = lex_from(src, pos, line).tokens;
    if pos >= src.len() {
    } else {
        lemma_step_advances(src, pos);
        let step = scan_at(src, pos);
        let end = step.end;
        match step.found {
            Scanned::Token(kind) => {
                let rest = lex_from(src, end, line).tokens;
                let lexeme = src.subrange(pos, end);
                assert(found.drop_first() =~= rest);
                let tail = text.subrange(p, text.len() as int);
                assert(tail == lexeme + seq![' '] + spaced(rest));
                let n = lexeme.len() as int;
                assert forall|j: int| 0 <= j < n implies #[trigger] text[p + j] == lexeme[j] by {
                    assert(tail[j] == text[p + j]);
                }
                assert(text[p + n] == ' ') by {
                    assert(tail[n] == text[p + n]);
                }
                lemma_rescan(src, pos, text, p);
                assert forall|j: int| 0 <= j < spaced(rest).len() implies #[trigger] text.subrange(
                    p + n + 1,
                    text.len() as int,
                )[j] == spaced(rest)[j] by {
                    assert(tail[n + 1 + j] == text[p + (n + 1 + j)]);
                }
                assert(text.subrange(p + n + 1, text.len() as int) =~= spaced(rest));
                lemma_round_trip_from(src, end, line, text, p + n + 1, line_again);
                let again = lex_from(text, p, line_again);
                let after = lex_from(text, p + n + 1, line_again);
                assert(lex_from(text, p + n, line_again) == after);
                assert forall|j: int| 0 <= j < n implies #[trigger] text[p + j] == src[pos + j] by {}
                assert forall|i: int| 0 <= i < again.tokens.len() implies (
                #[trigger] again.tokens[i]).lexeme == found[i].lexeme && again.tokens[i].ty
                    == found[i].ty by {}
            },
            Scanned::Blank => {
                lemma_round_trip_from(src, end, line, text, p, line_again);
            },
            Scanned::Newline => {
                lemma_round_trip_from(src, end, line + 1, text, p, line_again);
            },
            Scanned::Error(_) => {
                lemma_round_trip_from(src, end, line, text, p, line_again);
            },
        }
    }
}

/// Round trip: the texts of the tokens of a source, written one after the
/// other with a blank after each, scan without a report to the same tokens,
/// text for text and kind for kind.
pub proof fn law_round_trip(src: Seq<char>)
    ensures
        lex(spaced(lex(src).tokens)).errors.len() == 0,
        same_tokens(lex(spaced(lex(src).tokens)).tokens, lex(src).tokens),
{
    let text = spaced(lex(src).tokens);
    assert(text.subrange(0, text.len() as int) =~= text);
    lemma_round_trip_from(src, 0, 1, text, 0, 1);
}

} // verus!
