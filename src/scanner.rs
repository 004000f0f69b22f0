//! The lexer: source text to a token stream that ends with an EOF token.
use crate::expr::{literal_model, token_model, tokens_model, LiteralModel, TokenModel};
use crate::lexical::{
    block_end, digits_end, emitted, eof_token, ident_end, is_alpha, is_digit, keyword_of, lex,
    lex_from, line_end, newlines, number_end, pair_kind, quote_end, scan_one, single_kind,
};
use crate::number::{decimal_value, Number};
use crate::parser::well_formed_stream;
use crate::token::{Literal, Token, TokenType};
use vstd::prelude::*;
use vstd::slice::slice_subrange;

verus! {

/// Relies on `str::chars` collected into a `Vec`: the characters in order;
/// a `Vec` never holds more than `isize::MAX` bytes.
#[verifier::external_body]
fn chars_of(s: &str) -> (r: Vec<char>)
    ensures
        r@ == s@,
        r@.len() <= isize::MAX,
{
    s.chars().collect()
}

/// Relies on collecting characters into a `String`: the same characters.
#[verifier::external_body]
fn string_of(cs: &[char]) -> (r: String)
    ensures
        r@ == cs@,
{
    cs.iter().collect()
}

/// The decimal digits of `n`.
pub open spec fn decimal(n: nat) -> Seq<char>
    decreases n,
{
    if n < 10 {
        seq![digit(n)]
    } else {
        decimal(n / 10).push(digit(n % 10))
    }
}

pub open spec fn digit(d: nat) -> char {
    ((d + 48) as u8) as char
}

/// The decimal text of `n`.
pub fn decimal_text(n: usize) -> (r: String)
    ensures
        r@ == decimal(n as nat),
{
    let mut rev: Vec<char> = Vec::new();
    let mut m: usize = n;
    let ghost mut suffix: Seq<char> = seq![];
    while m >= 10
        invariant
            m <= n,
            decimal(n as nat) == decimal(m as nat) + suffix,
            rev@.len() == suffix.len(),
            forall|i: int| 0 <= i < rev@.len() ==> rev@[i] == suffix[suffix.len() - 1 - i],
        decreases m,
    {
        let c = (((m % 10) as u8) + 48) as char;
        proof {
            assert(c == digit((m % 10) as nat));
            assert(decimal(m as nat) == decimal((m / 10) as nat).push(c));
            assert(decimal((m / 10) as nat).push(c) + suffix =~= decimal((m / 10) as nat) + (seq![c]
                + suffix));
        }
        rev.push(c);
        proof {
            suffix = seq![c] + suffix;
        }
        m = m / 10;
    }
    let c = ((m as u8) + 48) as char;
    proof {
        assert(c == digit(m as nat));
        assert(decimal(m as nat) == seq![c]);
    }
    rev.push(c);
    proof {
        suffix = seq![c] + suffix;
    }
    let mut out: Vec<char> = Vec::new();
    let mut i: usize = rev.len();
    while i > 0
        invariant
            i <= rev@.len(),
            rev@.len() == suffix.len(),
            forall|k: int| 0 <= k < rev@.len() ==> rev@[k] == suffix[suffix.len() - 1 - k],
            out@ == suffix.subrange(0, (rev@.len() - i) as int),
        decreases i,
    {
        i -= 1;
        out.push(rev[i]);
        assert(out@ =~= suffix.subrange(0, (rev@.len() - i) as int));
    }
    assert(out@ =~= suffix);
    string_of(out.as_slice())
}

/// A diagnostic: `[line:N] Error<where>:<message>`.
pub fn report(line: usize, where_error: &str, message: &str) -> (r: String)
    ensures
        r@ == "[line:"@ + decimal(line as nat) + "] Error"@ + where_error@ + ":"@ + message@,
{
    let mut r = String::from_str("[line:");
    let n = decimal_text(line);
    r.append(n.as_str());
    r.append("] Error");
    r.append(where_error);
    r.append(":");
    r.append(message);
    r
}

/// A diagnostic for a line: `[line:N] Error:<message>`.
pub fn error(line: usize, message: &str) -> (r: String)
    ensures
        r@ == "[line:"@ + decimal(line as nat) + "] Error"@ + ""@ + ":"@ + message@,
{
    report(line, "", message)
}

/// What a literal token carries: a `NUMBER` the value its lexeme denotes, a
/// `STRING` the text between its quotes.
pub open spec fn payload_ok(t: Token) -> bool {
    &&& t.token_type == TokenType::Number ==> (t.literal matches Literal::Number(n)
        && decimal_value(t.lexeme@) == Some(n.bits))
    &&& t.token_type == TokenType::String ==> (t.literal matches Literal::String(text)
        && t.lexeme@ == seq!['"'] + text@ + seq!['"'])
}

/// The texts of some strings.
pub open spec fn texts(v: Seq<String>) -> Seq<Seq<char>> {
    v.map_values(|e: String| e@)
}

pub struct Scanner {
    source: Vec<char>,
    tokens: Vec<Token>,
    start: usize,
    current: usize,
    line: usize,
    errors: Vec<String>,
}

/// The keyword that `word` spells, if any.
fn keyword(word: &String) -> (r: Option<TokenType>)
    ensures
        r == keyword_of(word@),
{
    if *word == String::from_str("and") {
        Some(TokenType::And)
    } else if *word == String::from_str("break") {
        Some(TokenType::Break)
    } else if *word == String::from_str("class") {
        Some(TokenType::Class)
    } else if *word == String::from_str("else") {
        Some(TokenType::Else)
    } else if *word == String::from_str("false") {
        Some(TokenType::False)
    } else if *word == String::from_str("for") {
        Some(TokenType::For)
    } else if *word == String::from_str("fun") {
        Some(TokenType::Fun)
    } else if *word == String::from_str("if") {
        Some(TokenType::If)
    } else if *word == String::from_str("nil") {
        Some(TokenType::Nil)
    } else if *word == String::from_str("or") {
        Some(TokenType::Or)
    } else if *word == String::from_str("print") {
        Some(TokenType::Print)
    } else if *word == String::from_str("return") {
        Some(TokenType::Return)
    } else if *word == String::from_str("super") {
        Some(TokenType::Super)
    } else if *word == String::from_str("this") {
        Some(TokenType::This)
    } else if *word == String::from_str("true") {
        Some(TokenType::True)
    } else if *word == String::from_str("var") {
        Some(TokenType::Var)
    } else if *word == String::from_str("while") {
        Some(TokenType::While)
    } else {
        None
    }
}

fn single_char(c: char) -> (r: Option<TokenType>)
    ensures
        r == single_kind(c),
{
    if c == '(' {
        Some(TokenType::LeftParen)
    } else if c == ')' {
        Some(TokenType::RightParen)
    } else if c == '{' {
        Some(TokenType::LeftBrace)
    } else if c == '}' {
        Some(TokenType::RightBrace)
    } else if c == ',' {
        Some(TokenType::Comma)
    } else if c == '.' {
        Some(TokenType::Dot)
    } else if c == '+' {
        Some(TokenType::Plus)
    } else if c == '-' {
        Some(TokenType::Minus)
    } else if c == ';' {
        Some(TokenType::Semicolon)
    } else if c == '*' {
        Some(TokenType::Star)
    } else if c == '?' {
        Some(TokenType::QuestionMark)
    } else if c == ':' {
        Some(TokenType::Colon)
    } else {
        None
    }
}

fn pair_char(c: char) -> (r: Option<(TokenType, TokenType)>)
    ensures
        r == pair_kind(c),
{
    if c == '!' {
        Some((TokenType::Bang, TokenType::BangEqual))
    } else if c == '=' {
        Some((TokenType::Equal, TokenType::EqualEqual))
    } else if c == '<' {
        Some((TokenType::Less, TokenType::LessEqual))
    } else if c == '>' {
        Some((TokenType::Greater, TokenType::GreaterEqual))
    } else {
        None
    }
}

fn is_ascii_digit(c: char) -> (r: bool)
    ensures
        r == is_digit(c),
{
    '0' <= c && c <= '9'
}

fn is_alpha_char(c: char) -> (r: bool)
    ensures
        r == is_alpha(c),
{
    ('a' <= c && c <= 'z') || ('A' <= c && c <= 'Z') || c == '_'
}

impl Scanner {
    spec fn inv(&self) -> bool {
        &&& self.start <= self.current <= self.source@.len()
        &&& self.source@.len() <= isize::MAX
        &&& 1 <= self.line <= self.current + 1
        &&& forall|i: int| 0 <= i < self.tokens@.len() ==> #[trigger] self.tokens@[i].token_type
            != TokenType::Eof
        &&& forall|i: int| 0 <= i < self.tokens@.len() ==> #[trigger] payload_ok(self.tokens@[i])
    }

    /// The line where the current token started: the line now, less the
    /// newlines read since its start.
    spec fn base(&self) -> int {
        self.line - newlines(self.source@, self.start as int, self.current as int)
    }

    spec fn src(&self) -> Seq<char> {
        self.source@
    }

    /// The diagnostics of the last scan.
    pub closed spec fn diagnostics(&self) -> Seq<Seq<char>> {
        texts(self.errors@)
    }

    pub fn new() -> (r: Scanner)
        ensures
            r.diagnostics() == Seq::<Seq<char>>::empty(),
    {
        let r = Scanner {
            source: Vec::new(),
            tokens: Vec::new(),
            start: 0,
            current: 0,
            line: 1,
            errors: Vec::new(),
        };
        assert(r.diagnostics() =~= Seq::<Seq<char>>::empty());
        r
    }

    /// The diagnostics of the last scan.
    pub fn errors(&self) -> (r: Vec<String>)
        ensures
            texts(r@) == self.diagnostics(),
    {
        let mut r: Vec<String> = Vec::new();
        let mut i: usize = 0;
        while i < self.errors.len()
            invariant
                i <= self.errors@.len(),
                texts(r@) == self.diagnostics().subrange(0, i as int),
            decreases self.errors@.len() - i,
        {
            let e = self.errors[i].clone();
            proof {
                assert(texts(r@.push(e)) =~= texts(r@).push(e@));
                assert(self.diagnostics().subrange(0, i + 1) =~= self.diagnostics().subrange(
                    0,
                    i as int,
                ).push(self.errors@[i as int]@));
            }
            r.push(e);
            i += 1;
        }
        assert(self.diagnostics().subrange(0, i as int) =~= self.diagnostics());
        r
    }

    fn is_at_end(&self) -> (r: bool)
        ensures
            r == (self.current >= self.source@.len()),
    {
        self.current >= self.source.len()
    }

    /// The character at `current + ahead`, or `'\0'` past the end.
    fn peek_at(&self, ahead: usize) -> (r: char)
        requires
            ahead <= 1,
            self.current <= self.source@.len(),
        ensures
            self.current + ahead < self.source@.len() ==> r == self.source@[self.current + ahead],
            self.current + ahead >= self.source@.len() ==> r == '\0',
    {
        if ahead >= self.source.len() - self.current {
            '\0'
        } else {
            self.source[self.current + ahead]
        }
    }

    /// Reads one character, counting newlines.
    fn step(&mut self) -> (c: char)
        requires
            old(self).inv(),
            old(self).current < old(self).source@.len(),
        ensures
            final(self).inv(),
            final(self).current == old(self).current + 1,
            final(self).start == old(self).start,
            final(self).source == old(self).source,
            final(self).tokens == old(self).tokens,
            final(self).base() == old(self).base(),
            c == old(self).source@[old(self).current as int],
    {
        let c = self.source[self.current];
        self.current = self.current + 1;
        if c == '\n' {
            self.line = self.line + 1;
        }
        c
    }

    fn add_token(&mut self, token_type: TokenType, literal: Literal)
        requires
            old(self).inv(),
            token_type != TokenType::Eof,
            token_type == TokenType::Number ==> (literal matches Literal::Number(n) && decimal_value(
                old(self).source@.subrange(old(self).start as int, old(self).current as int),
            ) == Some(n.bits)),
            token_type == TokenType::String ==> (literal matches Literal::String(text)
                && old(self).source@.subrange(old(self).start as int, old(self).current as int)
                == seq!['"'] + text@ + seq!['"']),
        ensures
            final(self).inv(),
            final(self).current == old(self).current,
            final(self).start == old(self).start,
            final(self).line == old(self).line,
            final(self).source == old(self).source,
            tokens_model(final(self).tokens@) == tokens_model(old(self).tokens@).push(
                TokenModel {
                    token_type,
                    literal: literal_model(literal),
                    lexeme: old(self).source@.subrange(
                        old(self).start as int,
                        old(self).current as int,
                    ),
                    line: old(self).line,
                },
            ),
    {
        let lexeme = string_of(slice_subrange(self.source.as_slice(), self.start, self.current));
        let t = Token::new(token_type, literal, lexeme, self.line);
        let ghost before = self.tokens@;
        self.tokens.push(t);
        assert(tokens_model(self.tokens@) =~= tokens_model(before).push(token_model(t)));
    }

    fn add_error(&mut self, message: &str)
        requires
            old(self).inv(),
        ensures
            final(self).inv(),
            final(self).current == old(self).current,
            final(self).start == old(self).start,
            final(self).line == old(self).line,
            final(self).source == old(self).source,
            final(self).tokens == old(self).tokens,
    {
        let e = error(self.line, message);
        self.errors.push(e);
    }

    /// Reads `expected` if it comes next.
    fn match_char(&mut self, expected: char) -> (r: bool)
        requires
            old(self).inv(),
            expected != '\n',
        ensures
            final(self).inv(),
            r == (old(self).current + 1 <= old(self).source@.len() && old(self).source@[old(
                self,
            ).current as int] == expected),
            final(self).current == old(self).current + if r {
                1int
            } else {
                0
            },
            final(self).line == old(self).line,
            final(self).start == old(self).start,
            final(self).source == old(self).source,
            final(self).tokens == old(self).tokens,
    {
        if self.is_at_end() || self.source[self.current] != expected {
            return false;
        }
        self.step();
        true
    }

    /// A string, after its opening quote.
    fn string(&mut self)
        requires
            old(self).inv(),
            old(self).current == old(self).start + 1,
            old(self).source@[old(self).start as int] == '"',
        ensures
            final(self).inv(),
            final(self).source == old(self).source,
            final(self).start == old(self).start,
            final(self).current > old(self).start,
            final(self).base() == old(self).base(),
            ({
                let s = old(self).source@;
                let q = quote_end(s, old(self).start + 1);
                if q >= s.len() {
                    final(self).current == q && final(self).tokens@ == old(self).tokens@
                } else {
                    final(self).current == q + 1 && tokens_model(final(self).tokens@)
                        == tokens_model(old(self).tokens@) + seq![
                        TokenModel {
                            token_type: TokenType::String,
                            literal: LiteralModel::String(s.subrange(old(self).start + 1, q)),
                            lexeme: s.subrange(old(self).start as int, q + 1),
                            line: final(self).line,
                        },
                    ]
                }
            }),
    {
        let ghost s = self.source@;
        while self.peek_at(0) != '"' && !self.is_at_end()
            invariant
                self.inv(),
                self.source@ == s,
                self.source == old(self).source,
                self.start == old(self).start,
                self.tokens == old(self).tokens,
                self.current > self.start,
                self.base() == old(self).base(),
                quote_end(s, self.start + 1) == quote_end(s, self.current as int),
            decreases self.source@.len() - self.current,
        {
            self.step();
        }
        if self.is_at_end() {
            self.add_error("Unterminated string.");
            return;
        }
        self.step();
        let text = string_of(slice_subrange(self.source.as_slice(), self.start + 1, self.current - 1));
        assert(self.source@.subrange(self.start as int, self.current as int) =~= seq!['"'] + text@
            + seq!['"']);
        let ghost before = self.tokens@;
        self.add_token(TokenType::String, Literal::String(text));
        assert(tokens_model(before).push(tokens_model(self.tokens@).last()) =~= tokens_model(before) + seq![tokens_model(self.tokens@).last()]);
    }

    /// A number, after its first digit.
    fn number(&mut self)
        requires
            old(self).inv(),
            old(self).current == old(self).start + 1,
        ensures
            final(self).inv(),
            final(self).source == old(self).source,
            final(self).start == old(self).start,
            final(self).current > old(self).start,
            final(self).base() == old(self).base(),
            ({
                let s = old(self).source@;
                let e = number_end(s, old(self).start as int);
                &&& final(self).current == e
                &&& tokens_model(final(self).tokens@) == tokens_model(old(self).tokens@) + match decimal_value(
                    s.subrange(old(self).start as int, e),
                ) {
                    Some(n) => seq![
                        TokenModel {
                            token_type: TokenType::Number,
                            literal: LiteralModel::Number(n),
                            lexeme: s.subrange(old(self).start as int, e),
                            line: final(self).line,
                        },
                    ],
                    None => seq![],
                }
            }),
    {
        let ghost s = self.source@;
        while is_ascii_digit(self.peek_at(0))
            invariant
                self.inv(),
                self.source@ == s,
                self.source == old(self).source,
                self.start == old(self).start,
                self.tokens == old(self).tokens,
                self.current > self.start,
                self.base() == old(self).base(),
                digits_end(s, self.start + 1) == digits_end(s, self.current as int),
            decreases self.source@.len() - self.current,
        {
            self.step();
        }
        if self.peek_at(0) == '.' && is_ascii_digit(self.peek_at(1)) {
            self.step();
            let ghost d = self.current;
            while is_ascii_digit(self.peek_at(0))
                invariant
                    self.inv(),
                    self.source@ == s,
                    self.source == old(self).source,
                    self.start == old(self).start,
                    self.tokens == old(self).tokens,
                    self.current > self.start,
                    self.base() == old(self).base(),
                    digits_end(s, d as int) == digits_end(s, self.current as int),
                decreases self.source@.len() - self.current,
            {
                self.step();
            }
        }
        let text = string_of(slice_subrange(self.source.as_slice(), self.start, self.current));
        let ghost before = self.tokens@;
        match Number::parse(text.as_str()) {
            Some(n) => {
                self.add_token(TokenType::Number, Literal::Number(n));
                assert(tokens_model(before).push(tokens_model(self.tokens@).last()) =~= tokens_model(before) + seq![tokens_model(self.tokens@).last()]);
            },
            None => {
                self.add_error("Invalid number.");
                assert(tokens_model(before) + seq![] =~= tokens_model(before));
            },
        }
    }

    /// An identifier or keyword, after its first character.
    fn identifier(&mut self)
        requires
            old(self).inv(),
            old(self).current == old(self).start + 1,
        ensures
            final(self).inv(),
            final(self).source == old(self).source,
            final(self).start == old(self).start,
            final(self).current > old(self).start,
            final(self).base() == old(self).base(),
            ({
                let s = old(self).source@;
                let e = ident_end(s, old(self).start + 1);
                let k = match keyword_of(s.subrange(old(self).start as int, e)) {
                    Some(k) => k,
                    None => TokenType::Identifier,
                };
                &&& final(self).current == e
                &&& tokens_model(final(self).tokens@) == tokens_model(old(self).tokens@) + seq![
                    TokenModel {
                        token_type: k,
                        literal: LiteralModel::Nil,
                        lexeme: s.subrange(old(self).start as int, e),
                        line: final(self).line,
                    },
                ]
            }),
    {
        let ghost s = self.source@;
        while self.current < self.source.len() && (is_alpha_char(self.source[self.current])
            || is_ascii_digit(self.source[self.current]))
            invariant
                self.inv(),
                self.source@ == s,
                self.source == old(self).source,
                self.start == old(self).start,
                self.tokens == old(self).tokens,
                self.current > self.start,
                self.base() == old(self).base(),
                ident_end(s, self.start + 1) == ident_end(s, self.current as int),
            decreases self.source@.len() - self.current,
        {
            self.step();
        }
        let word = string_of(slice_subrange(self.source.as_slice(), self.start, self.current));
        let kind = match keyword(&word) {
            Some(t) => t,
            None => TokenType::Identifier,
        };
        let ghost before = self.tokens@;
        self.add_token(kind, Literal::Nil);
        assert(tokens_model(before).push(tokens_model(self.tokens@).last()) =~= tokens_model(before) + seq![tokens_model(self.tokens@).last()]);
    }

    /// Reads one token, or skips a blank or a comment, from `current`.
    #[verifier::rlimit(100)]
    fn scan_token(&mut self)
        requires
            old(self).inv(),
            old(self).current < old(self).source@.len(),
            old(self).start == old(self).current,
        ensures
            final(self).inv(),
            final(self).source == old(self).source,
            final(self).current == scan_one(old(self).source@, old(self).current as int).1,
            final(self).current > old(self).current,
            final(self).line == old(self).line + newlines(
                old(self).source@,
                old(self).current as int,
                final(self).current as int,
            ),
            tokens_model(final(self).tokens@) == tokens_model(old(self).tokens@) + emitted(
                old(self).source@,
                old(self).current as int,
                old(self).line as int,
            ),
    {
        let ghost s = self.source@;
        let ghost p = self.current as int;
        let ghost t0 = tokens_model(self.tokens@);
        assert(self.base() == old(self).line);
        let c = self.step();
        match single_char(c) {
            Some(t) => {
                self.add_token(t, Literal::Nil);
                assert(t0.push(tokens_model(self.tokens@).last()) =~= t0 + seq![tokens_model(self.tokens@).last()]);
                return;
            },
            None => {},
        }
        match pair_char(c) {
            Some((one, two)) => {
                let t = if self.match_char('=') {
                    two
                } else {
                    one
                };
                self.add_token(t, Literal::Nil);
                assert(t0.push(tokens_model(self.tokens@).last()) =~= t0 + seq![tokens_model(self.tokens@).last()]);
                return;
            },
            None => {},
        }
        if c == '/' {
            if self.match_char('/') {
                while !self.is_at_end() && self.peek_at(0) != '\n'
                    invariant
                        self.inv(),
                        self.source@ == s,
                        self.source == old(self).source,
                        self.start == old(self).start,
                        self.tokens == old(self).tokens,
                        self.current >= p + 2,
                        self.base() == old(self).line,
                        line_end(s, p + 2) == line_end(s, self.current as int),
                    decreases self.source@.len() - self.current,
                {
                    self.step();
                }
            } else if self.match_char('*') {
                while !self.is_at_end() && !(self.peek_at(0) == '*' && self.peek_at(1) == '/')
                    invariant
                        self.inv(),
                        self.source@ == s,
                        self.source == old(self).source,
                        self.start == old(self).start,
                        self.tokens == old(self).tokens,
                        self.current >= p + 2,
                        self.base() == old(self).line,
                        block_end(s, p + 2) == block_end(s, self.current as int),
                    decreases self.source@.len() - self.current,
                {
                    self.step();
                }
                if !self.is_at_end() {
                    self.step();
                    self.step();
                }
            } else {
                self.add_token(TokenType::Slash, Literal::Nil);
                assert(t0.push(tokens_model(self.tokens@).last()) =~= t0 + seq![tokens_model(self.tokens@).last()]);
                return;
            }
            assert(t0 + seq![] =~= t0);
        } else if c == '"' {
            self.string();
            assert(t0 + seq![] =~= t0);
        } else if is_ascii_digit(c) {
            self.number();
        } else if is_alpha_char(c) {
            self.identifier();
        } else if c == ' ' || c == '\r' || c == '\t' || c == '\n' {
            assert(t0 + seq![] =~= t0);
        } else {
            self.add_error("Unexpected character");
            assert(t0 + seq![] =~= t0);
        }
    }

    /// The tokens of `script`: those that the lexical grammar gives, ending
    /// with an EOF token. Characters that start no token, unterminated strings
    /// and invalid numbers yield no token and are reported in `errors`.
    pub fn scan_tokens(&mut self, script: &str) -> (r: Vec<Token>)
        ensures
            tokens_model(r@) == lex(script@),
            well_formed_stream(r@),
            forall|i: int| 0 <= i < r@.len() - 1 ==> #[trigger] r@[i].token_type != TokenType::Eof,
            forall|i: int| 0 <= i < r@.len() ==> #[trigger] payload_ok(r@[i]),
    {
        self.source = chars_of(script);
        self.tokens = Vec::new();
        self.errors = Vec::new();
        self.start = 0;
        self.current = 0;
        self.line = 1;
        let ghost s = self.source@;
        assert(tokens_model(self.tokens@) + lex_from(s, 0, 1) =~= lex(s));
        while !self.is_at_end()
            invariant
                self.inv(),
                self.source@ == s,
                s == script@,
                lex(s) == tokens_model(self.tokens@) + lex_from(s, self.current as int, self.line as int),
            decreases self.source@.len() - self.current,
        {
            self.start = self.current;
            let ghost t0 = tokens_model(self.tokens@);
            let ghost p = self.current as int;
            let ghost l = self.line as int;
            self.scan_token();
            assert(t0 + (emitted(s, p, l) + lex_from(s, self.current as int, self.line as int)) =~= tokens_model(self.tokens@) + lex_from(s, self.current as int, self.line as int));
        }
        let mut tokens: Vec<Token> = Vec::new();
        tokens.append(&mut self.tokens);
        let eof = Token::new(TokenType::Eof, Literal::Nil, String::new(), self.line);
        let ghost before = tokens@;
        tokens.push(eof);
        assert(token_model(eof) == eof_token(self.line as int));
        assert(tokens_model(tokens@) =~= tokens_model(before) + seq![eof_token(self.line as int)]);
        tokens
    }
}

} // verus!
