//! The lexical grammar as spec functions: the tokens that a source text
//! yields. Scanning reads one token, comment or blank at a time from the left;
//! a character that starts no token, an unterminated string and an invalid
//! number yield no token. Each token's line is its starting line plus the
//! newlines inside it; the EOF token carries the last line.
use crate::expr::{LiteralModel, TokenModel};
use crate::number::decimal_value;
use crate::token::TokenType;
use vstd::prelude::*;

verus! {

pub open spec fn is_digit(c: char) -> bool {
    '0' <= c <= '9'
}

pub open spec fn is_alpha(c: char) -> bool {
    ('a' <= c <= 'z') || ('A' <= c <= 'Z') || c == '_'
}

/// The end of the run of digits from `i`.
pub open spec fn digits_end(s: Seq<char>, i: int) -> int
    decreases s.len() - i,
{
    if 0 <= i < s.len() && is_digit(s[i]) {
        digits_end(s, i + 1)
    } else {
        i
    }
}

/// The end of the run of letters, digits and underscores from `i`.
pub open spec fn ident_end(s: Seq<char>, i: int) -> int
    decreases s.len() - i,
{
    if 0 <= i < s.len() && (is_alpha(s[i]) || is_digit(s[i])) {
        ident_end(s, i + 1)
    } else {
        i
    }
}

/// The first newline from `i`, or the end.
pub open spec fn line_end(s: Seq<char>, i: int) -> int
    decreases s.len() - i,
{
    if 0 <= i < s.len() && s[i] != '\n' {
        line_end(s, i + 1)
    } else {
        i
    }
}

/// The first `"` from `i`, or the end.
pub open spec fn quote_end(s: Seq<char>, i: int) -> int
    decreases s.len() - i,
{
    if 0 <= i < s.len() && s[i] != '"' {
        quote_end(s, i + 1)
    } else {
        i
    }
}

/// The first `*/` from `i`, or the end.
pub open spec fn block_end(s: Seq<char>, i: int) -> int
    decreases s.len() - i,
{
    if 0 <= i < s.len() && !(s[i] == '*' && i + 1 < s.len() && s[i + 1] == '/') {
        block_end(s, i + 1)
    } else {
        i
    }
}

/// The end of a number starting at `p`: digits, then `.` and digits if a
/// digit follows the dot.
pub open spec fn number_end(s: Seq<char>, p: int) -> int {
    let d = digits_end(s, p + 1);
    if d + 1 < s.len() && s[d] == '.' && is_digit(s[d + 1]) {
        digits_end(s, d + 1)
    } else {
        d
    }
}

/// The number of newlines in `s[a..b]`.
pub open spec fn newlines(s: Seq<char>, a: int, b: int) -> int
    decreases b - a,
{
    if b <= a {
        0
    } else {
        newlines(s, a, b - 1) + if s[b - 1] == '\n' {
            1int
        } else {
            0
        }
    }
}

/// The keyword that a word spells.
pub open spec fn keyword_of(w: Seq<char>) -> Option<TokenType> {
    if w == "and"@ {
        Some(TokenType::And)
    } else if w == "break"@ {
        Some(TokenType::Break)
    } else if w == "class"@ {
        Some(TokenType::Class)
    } else if w == "else"@ {
        Some(TokenType::Else)
    } else if w == "false"@ {
        Some(TokenType::False)
    } else if w == "for"@ {
        Some(TokenType::For)
    } else if w == "fun"@ {
        Some(TokenType::Fun)
    } else if w == "if"@ {
        Some(TokenType::If)
    } else if w == "nil"@ {
        Some(TokenType::Nil)
    } else if w == "or"@ {
        Some(TokenType::Or)
    } else if w == "print"@ {
        Some(TokenType::Print)
    } else if w == "return"@ {
        Some(TokenType::Return)
    } else if w == "super"@ {
        Some(TokenType::Super)
    } else if w == "this"@ {
        Some(TokenType::This)
    } else if w == "true"@ {
        Some(TokenType::True)
    } else if w == "var"@ {
        Some(TokenType::Var)
    } else if w == "while"@ {
        Some(TokenType::While)
    } else {
        None
    }
}

/// The punctuators of one character.
pub open spec fn single_kind(c: char) -> Option<TokenType> {
    if c == '(' {
        Some(TokenType::LeftParen)
    } else if c == ')' {
        Some(TokenType::RightParen)
    } else if c == '{' {
        Some(TokenType::LeftBrace)
    } else if c == '}' {
        Some(TokenType::RightBrace)
    } else if c == ',' {
        Some(TokenType::Comma)
    } else if c == '.' {
        Some(TokenType::Dot)
    } else if c == '+' {
        Some(TokenType::Plus)
    } else if c == '-' {
        Some(TokenType::Minus)
    } else if c == ';' {
        Some(TokenType::Semicolon)
    } else if c == '*' {
        Some(TokenType::Star)
    } else if c == '?' {
        Some(TokenType::QuestionMark)
    } else if c == ':' {
        Some(TokenType::Colon)
    } else {
        None
    }
}

/// The operators that an `=` may follow: the kind alone, and with the `=`.
pub open spec fn pair_kind(c: char) -> Option<(TokenType, TokenType)> {
    if c == '!' {
        Some((TokenType::Bang, TokenType::BangEqual))
    } else if c == '=' {
        Some((TokenType::Equal, TokenType::EqualEqual))
    } else if c == '<' {
        Some((TokenType::Less, TokenType::LessEqual))
    } else if c == '>' {
        Some((TokenType::Greater, TokenType::GreaterEqual))
    } else {
        None
    }
}

pub open spec fn next_is(s: Seq<char>, p: int, c: char) -> bool {
    p + 1 < s.len() && s[p + 1] == c
}

/// What starts at `p`: the kind and payload of a token, if any, and where the
/// next read starts.
pub open spec fn scan_one(s: Seq<char>, p: int) -> (Option<(TokenType, LiteralModel)>, int) {
    let c = s[p];
    if single_kind(c) is Some {
        (Some((single_kind(c)->0, LiteralModel::Nil)), p + 1)
    } else if pair_kind(c) is Some {
        let (one, two) = pair_kind(c)->0;
        if next_is(s, p, '=') {
            (Some((two, LiteralModel::Nil)), p + 2)
        } else {
            (Some((one, LiteralModel::Nil)), p + 1)
        }
    } else if c == '/' {
        if next_is(s, p, '/') {
            (None, line_end(s, p + 2))
        } else if next_is(s, p, '*') {
            let b = block_end(s, p + 2);
            (None, if b < s.len() { b + 2 } else { b })
        } else {
            (Some((TokenType::Slash, LiteralModel::Nil)), p + 1)
        }
    } else if c == '"' {
        let q = quote_end(s, p + 1);
        if q >= s.len() {
            (None, q)
        } else {
            (Some((TokenType::String, LiteralModel::String(s.subrange(p + 1, q)))), q + 1)
        }
    } else if is_digit(c) {
        let e = number_end(s, p);
        match decimal_value(s.subrange(p, e)) {
            Some(n) => (Some((TokenType::Number, LiteralModel::Number(n))), e),
            None => (None, e),
        }
    } else if is_alpha(c) {
        let e = ident_end(s, p + 1);
        let k = match keyword_of(s.subrange(p, e)) {
            Some(k) => k,
            None => TokenType::Identifier,
        };
        (Some((k, LiteralModel::Nil)), e)
    } else {
        (None, p + 1)
    }
}

/// The token read at `p` when the line there is `line`, if any.
pub open spec fn emitted(s: Seq<char>, p: int, line: int) -> Seq<TokenModel> {
    let (tok, next) = scan_one(s, p);
    match tok {
        Some((k, lit)) => seq![
            TokenModel {
                token_type: k,
                literal: lit,
                lexeme: s.subrange(p, next),
                line: (line + newlines(s, p, next)) as usize,
            },
        ],
        None => seq![],
    }
}

pub open spec fn eof_token(line: int) -> TokenModel {
    TokenModel {
        token_type: TokenType::Eof,
        literal: LiteralModel::Nil,
        lexeme: seq![],
        line: line as usize,
    }
}

/// The tokens from `p` on, the line at `p` being `line`.
pub open spec fn lex_from(s: Seq<char>, p: int, line: int) -> Seq<TokenModel>
    decreases s.len() - p,
{
    if !(0 <= p < s.len()) {
        seq![eof_token(line)]
    } else {
        let next = scan_one(s, p).1;
        if next <= p || next > s.len() {
            seq![eof_token(line)]
        } else {
            emitted(s, p, line) + lex_from(s, next, line + newlines(s, p, next))
        }
    }
}

/// The tokens of a source text, from line 1.
pub open spec fn lex(s: Seq<char>) -> Seq<TokenModel> {
    lex_from(s, 0, 1)
}

pub proof fn lemma_newlines_bounds(s: Seq<char>, a: int, b: int)
    requires
        a <= b,
    ensures
        0 <= newlines(s, a, b) <= b - a,
    decreases b - a,
{
    if b > a {
        lemma_newlines_bounds(s, a, b - 1);
    }
}

/// The lines of the tokens from `p` lie between `line` and `line` plus what is
/// left of the text, in order.
pub proof fn lemma_lex_lines(s: Seq<char>, p: int, line: int)
    requires
        0 <= p <= s.len(),
        1 <= line,
        line + (s.len() - p) <= usize::MAX,
    ensures
        lex_from(s, p, line).len() >= 1,
        forall|i: int|
            0 <= i < lex_from(s, p, line).len() ==> line <= #[trigger] lex_from(s, p, line)[i].line
                <= line + (s.len() - p),
        forall|i: int, j: int|
            0 <= i < j < lex_from(s, p, line).len() ==> #[trigger] lex_from(s, p, line)[i].line
                <= #[trigger] lex_from(s, p, line)[j].line,
    decreases s.len() - p,
{
    if 0 <= p < s.len() {
        let next = scan_one(s, p).1;
        if !(next <= p || next > s.len()) {
            lemma_newlines_bounds(s, p, next);
            let line2 = line + newlines(s, p, next);
            lemma_lex_lines(s, next, line2);
            let e = emitted(s, p, line);
            let rest = lex_from(s, next, line2);
            assert(lex_from(s, p, line) == e + rest);
            assert forall|i: int|
                0 <= i < lex_from(s, p, line).len() implies line <= #[trigger] lex_from(
                s,
                p,
                line,
            )[i].line <= line + (s.len() - p) by {
                if i >= e.len() {
                    assert(lex_from(s, p, line)[i] == rest[i - e.len()]);
                }
            }
            assert forall|i: int, j: int|
                0 <= i < j < lex_from(s, p, line).len() implies #[trigger] lex_from(
                s,
                p,
                line,
            )[i].line <= #[trigger] lex_from(s, p, line)[j].line by {
                if i >= e.len() {
                    assert(lex_from(s, p, line)[i] == rest[i - e.len()]);
                }
                if j >= e.len() {
                    assert(lex_from(s, p, line)[j] == rest[j - e.len()]);
                }
            }
        }
    }
}

} // verus!
