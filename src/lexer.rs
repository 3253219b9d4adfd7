//! Turns source text into tokens, one at a time.
use vstd::prelude::*;
use vstd::string::*;
use crate::token::{lookup_ident, lookup_ident_spec, Tok, Token};

verus! {

/// Whether a non-ASCII `c` has the Unicode Alphabetic property.
pub uninterp spec fn alphabetic(c: char) -> bool;

/// Whether a non-ASCII `c` has the Unicode White_Space property.
pub uninterp spec fn whitespace(c: char) -> bool;

/// Whether `c` is alphabetic. Among ASCII characters exactly the Latin
/// letters are.
pub open spec fn is_alphabetic_spec(c: char) -> bool {
    if (c as u32) < 128 {
        (65 <= c as u32 <= 90) || (97 <= c as u32 <= 122)
    } else {
        alphabetic(c)
    }
}

/// Whether `c` is whitespace. Among ASCII characters exactly tab, line feed,
/// vertical tab, form feed, carriage return and space are.
pub open spec fn is_whitespace_spec(c: char) -> bool {
    if (c as u32) < 128 {
        (9 <= c as u32 <= 13) || c as u32 == 32
    } else {
        whitespace(c)
    }
}

/// Relies on `char::is_alphabetic`: whether `c` has the Unicode Alphabetic
/// property, which among ASCII characters exactly the Latin letters have.
#[verifier::external_body]
fn char_is_alphabetic(c: char) -> (r: bool)
    ensures
        r == is_alphabetic_spec(c),
        (c as u32) >= 128 ==> r == alphabetic(c),
{
    c.is_alphabetic()
}

/// Relies on `char::is_whitespace`: whether `c` has the Unicode White_Space
/// property, which among ASCII characters exactly tab, line feed, vertical
/// tab, form feed, carriage return and space have.
#[verifier::external_body]
fn char_is_whitespace(c: char) -> (r: bool)
    ensures
        r == is_whitespace_spec(c),
        (c as u32) >= 128 ==> r == whitespace(c),
{
    c.is_whitespace()
}

/// A character that may occur in an identifier.
pub open spec fn is_letter_spec(c: char) -> bool {
    is_alphabetic_spec(c) || c == '_'
}

/// An ASCII decimal digit.
pub open spec fn is_digit_spec(c: char) -> bool {
    48 <= c as u32 <= 57
}

/// The value of an ASCII decimal digit.
pub open spec fn digit_value(c: char) -> nat {
    (c as u32 - 48) as nat
}

/// The value of a run of decimal digits, most significant first.
pub open spec fn digits_value(d: Seq<char>) -> nat
    decreases d.len(),
{
    if d.len() == 0 {
        0
    } else {
        digits_value(d.drop_last()) * 10 + digit_value(d.last())
    }
}

/// The first position at or after `p` that does not hold whitespace.
pub open spec fn skip_ws(s: Seq<char>, p: int) -> int
    decreases s.len() - p,
{
    if 0 <= p < s.len() && is_whitespace_spec(s[p]) {
        skip_ws(s, p + 1)
    } else {
        p
    }
}

/// The end of the run of identifier characters that starts at `p`.
pub open spec fn scan_letters(s: Seq<char>, p: int) -> int
    decreases s.len() - p,
{
    if 0 <= p < s.len() && is_letter_spec(s[p]) {
        scan_letters(s, p + 1)
    } else {
        p
    }
}

/// The end of the run of decimal digits that starts at `p`.
pub open spec fn scan_digits(s: Seq<char>, p: int) -> int
    decreases s.len() - p,
{
    if 0 <= p < s.len() && is_digit_spec(s[p]) {
        scan_digits(s, p + 1)
    } else {
        p
    }
}

/// The token for the single character `c`, if it stands alone as one.
pub open spec fn single_char_tok(c: char) -> Option<Tok> {
    if c == '=' {
        Some(Tok::Assign)
    } else if c == '+' {
        Some(Tok::Plus)
    } else if c == '-' {
        Some(Tok::Minus)
    } else if c == '*' {
        Some(Tok::Asterisk)
    } else if c == '/' {
        Some(Tok::Slash)
    } else if c == '(' {
        Some(Tok::Lparen)
    } else if c == ')' {
        Some(Tok::Rparen)
    } else if c == '{' {
        Some(Tok::Lbrace)
    } else if c == '}' {
        Some(Tok::Rbrace)
    } else if c == ',' {
        Some(Tok::Comma)
    } else if c == ';' {
        Some(Tok::Semicolon)
    } else {
        None
    }
}

/// The token that starts at or after position `p` of `s`, with the position
/// just past it. Whitespace before it is skipped; a run of digits whose value
/// does not fit in an `i64` is an illegal token.
pub open spec fn lex_one(s: Seq<char>, p: int) -> (Tok, int) {
    let q = skip_ws(s, p);
    if !(0 <= q < s.len()) {
        (Tok::EOF, q)
    } else {
        let c = s[q];
        match single_char_tok(c) {
            Some(t) => (t, q + 1),
            None => if is_letter_spec(c) {
                let e = scan_letters(s, q + 1);
                (lookup_ident_spec(s.subrange(q, e)), e)
            } else if is_digit_spec(c) {
                let e = scan_digits(s, q + 1);
                let v = digits_value(s.subrange(q, e));
                if v <= i64::MAX {
                    (Tok::Int(v as i64), e)
                } else {
                    (Tok::Illegal, e)
                }
            } else {
                (Tok::Illegal, q + 1)
            },
        }
    }
}

/// The tokens of `s` from position `p` on, up to and without the end of input.
pub open spec fn lex_from(s: Seq<char>, p: int) -> Seq<Tok>
    decreases s.len() - p,
{
    let (t, q) = lex_one(s, p);
    if t is EOF || !(p < q <= s.len()) {
        Seq::empty()
    } else {
        seq![t] + lex_from(s, q)
    }
}

/// The tokens of a whole source text, without the end of input.
pub open spec fn tokenize(s: Seq<char>) -> Seq<Tok> {
    lex_from(s, 0)
}

proof fn lemma_skip_ws(s: Seq<char>, p: int)
    requires
        0 <= p <= s.len(),
    ensures
        p <= skip_ws(s, p) <= s.len(),
        skip_ws(s, p) < s.len() ==> !is_whitespace_spec(s[skip_ws(s, p)]),
    decreases s.len() - p,
{
    if p < s.len() && is_whitespace_spec(s[p]) {
        lemma_skip_ws(s, p + 1);
    }
}

proof fn lemma_scan_letters(s: Seq<char>, p: int)
    requires
        0 <= p <= s.len(),
    ensures
        p <= scan_letters(s, p) <= s.len(),
    decreases s.len() - p,
{
    if p < s.len() && is_letter_spec(s[p]) {
        lemma_scan_letters(s, p + 1);
    }
}

proof fn lemma_scan_digits(s: Seq<char>, p: int)
    requires
        0 <= p <= s.len(),
    ensures
        p <= scan_digits(s, p) <= s.len(),
    decreases s.len() - p,
{
    if p < s.len() && is_digit_spec(s[p]) {
        lemma_scan_digits(s, p + 1);
    }
}

/// Each token but the end of input moves forward within the text; the end of
/// input leaves the position at the end.
pub proof fn lemma_lex_one_progress(s: Seq<char>, p: int)
    requires
        0 <= p <= s.len(),
    ensures
        !(lex_one(s, p).0 is EOF) ==> p < lex_one(s, p).1 <= s.len(),
        lex_one(s, p).0 is EOF ==> lex_one(s, p).1 == s.len(),
{
    lemma_skip_ws(s, p);
    let q = skip_ws(s, p);
    if q < s.len() {
        lemma_scan_letters(s, q + 1);
        lemma_scan_digits(s, q + 1);
    }
}

/// The token stream from `p` is the next token followed by the stream after it.
pub proof fn lemma_lex_from_unfold(s: Seq<char>, p: int)
    requires
        0 <= p <= s.len(),
    ensures
        lex_one(s, p).0 is EOF ==> lex_from(s, p) == Seq::<Tok>::empty(),
        lex_one(s, p).0 is EOF ==> lex_from(s, lex_one(s, p).1) == Seq::<Tok>::empty(),
        !(lex_one(s, p).0 is EOF) ==> lex_from(s, p) == seq![lex_one(s, p).0] + lex_from(
            s,
            lex_one(s, p).1,
        ),
{
    lemma_lex_one_progress(s, p);
    if lex_one(s, p).0 is EOF {
        let q = lex_one(s, p).1;
        lemma_lex_one_progress(s, q);
        lemma_skip_ws(s, q);
    }
}

/// The characters of a text, in order.
pub(crate) fn chars_of(input: &str) -> (r: Vec<char>)
    ensures
        r@ == input@,
{
    let n = input.unicode_len();
    let mut chars: Vec<char> = Vec::new();
    let mut i: usize = 0;
    while i < n
        invariant
            n == input@.len(),
            i <= n,
            chars@ == input@.subrange(0, i as int),
        decreases n - i,
    {
        let c = input.get_char(i);
        chars.push(c);
        i = i + 1;
        proof {
            assert(chars@ =~= input@.subrange(0, i as int));
        }
    }
    proof {
        assert(chars@ =~= input@);
    }
    chars
}

/// Whether `r` is the `i64` of value `v`, or `None` where `v` does not fit.
pub open spec fn number_matches(v: nat, r: Option<i64>) -> bool {
    match r {
        Some(x) => v <= i64::MAX && x as int == v,
        None => v > i64::MAX,
    }
}

/// Scans the run of decimal digits that starts at `start`: its end, and its
/// value where that fits in an `i64`.
pub(crate) fn scan_number(chars: &Vec<char>, start: usize) -> (r: (usize, Option<i64>))
    requires
        start < chars.len(),
        is_digit_spec(chars@[start as int]),
    ensures
        r.0 == scan_digits(chars@, start + 1),
        start < r.0 <= chars.len(),
        number_matches(digits_value(chars@.subrange(start as int, r.0 as int)), r.1),
{
    let first = chars[start];
    let mut value: i64 = (first as u32 - 48) as i64;
    let mut fits: bool = true;
    let mut pos: usize = start + 1;
    proof {
        let d = chars@.subrange(start as int, start + 1);
        assert(d.drop_last() =~= Seq::<char>::empty());
        assert(d.last() == first);
        assert(digits_value(d.drop_last()) == 0);
        assert(digits_value(d) == digit_value(first));
    }
    while pos < chars.len() && 48 <= chars[pos] as u32 && chars[pos] as u32 <= 57
        invariant
            start < pos <= chars.len(),
            scan_digits(chars@, pos as int) == scan_digits(chars@, start + 1),
            fits ==> value as int == digits_value(chars@.subrange(start as int, pos as int)),
            fits ==> value >= 0,
            !fits ==> digits_value(chars@.subrange(start as int, pos as int)) > i64::MAX,
        decreases chars.len() - pos,
    {
        let c = chars[pos];
        let d: i64 = (c as u32 - 48) as i64;
        proof {
            let s = chars@.subrange(start as int, pos + 1);
            assert(s.drop_last() =~= chars@.subrange(start as int, pos as int));
            assert(s.last() == c);
        }
        if fits {
            if value <= (i64::MAX - d) / 10 {
                value = value * 10 + d;
            } else {
                fits = false;
            }
        }
        pos = pos + 1;
    }
    if fits {
        (pos, Some(value))
    } else {
        (pos, None)
    }
}

/// Turns text into tokens on demand.
#[derive(Debug)]
pub struct Lexer<'a> {
    input: &'a str,
    chars: Vec<char>,
    pos: usize,
}

fn is_letter(ch: char) -> (r: bool)
    ensures
        r == is_letter_spec(ch),
{
    char_is_alphabetic(ch) || ch == '_'
}

impl<'a> Lexer<'a> {
    /// The characters of the source text.
    pub closed spec fn text(&self) -> Seq<char> {
        self.chars@
    }

    /// How many characters have been consumed.
    pub closed spec fn position(&self) -> int {
        self.pos as int
    }

    pub closed spec fn wf(&self) -> bool {
        &&& self.chars@ == self.input@
        &&& self.pos <= self.chars.len()
    }

    /// The tokens still to come, without the end of input.
    pub open spec fn remaining(&self) -> Seq<Tok> {
        lex_from(self.text(), self.position())
    }

    pub fn new(input: &'a str) -> (r: Lexer<'a>)
        ensures
            r.wf(),
            r.text() == input@,
            r.position() == 0,
            r.remaining() == tokenize(input@),
    {
        let chars = chars_of(input);
        Lexer { input, chars, pos: 0 }
    }

    fn skip_whitespace(&mut self)
        requires
            old(self).wf(),
        ensures
            final(self).wf(),
            final(self).text() == old(self).text(),
            final(self).position() == skip_ws(old(self).text(), old(self).position()),
    {
        while self.pos < self.chars.len() && char_is_whitespace(self.chars[self.pos])
            invariant
                self.wf(),
                self.text() == old(self).text(),
                skip_ws(self.text(), self.position()) == skip_ws(
                    old(self).text(),
                    old(self).position(),
                ),
            decreases self.chars.len() - self.pos,
        {
            self.pos = self.pos + 1;
        }
    }

    fn read_char(&mut self) -> (r: Option<char>)
        requires
            old(self).wf(),
        ensures
            final(self).wf(),
            final(self).text() == old(self).text(),
            old(self).position() < old(self).text().len() ==> r == Some(
                old(self).text()[old(self).position()],
            ) && final(self).position() == old(self).position() + 1,
            old(self).position() >= old(self).text().len() ==> r is None && final(self).position()
                == old(self).position(),
    {
        if self.pos < self.chars.len() {
            let c = self.chars[self.pos];
            self.pos = self.pos + 1;
            Some(c)
        } else {
            None
        }
    }

    fn read_identifier(&mut self, start: usize) -> (r: String)
        requires
            old(self).wf(),
            start <= old(self).position(),
        ensures
            final(self).wf(),
            final(self).text() == old(self).text(),
            final(self).position() == scan_letters(old(self).text(), old(self).position()),
            r@ == old(self).text().subrange(start as int, final(self).position()),
    {
        while self.pos < self.chars.len() && is_letter(self.chars[self.pos])
            invariant
                self.wf(),
                self.text() == old(self).text(),
                start <= self.pos,
                scan_letters(self.text(), self.position()) == scan_letters(
                    old(self).text(),
                    old(self).position(),
                ),
            decreases self.chars.len() - self.pos,
        {
            self.pos = self.pos + 1;
        }
        let word = self.input.substring_char(start, self.pos);
        word.to_owned()
    }

    /// Reads the rest of a run of digits whose first digit, at `start`, has
    /// been consumed. `None` where its value does not fit in an `i64`.
    fn read_number(&mut self, start: usize) -> (r: Option<i64>)
        requires
            old(self).wf(),
            start < old(self).position() == start + 1,
            is_digit_spec(old(self).text()[start as int]),
        ensures
            final(self).wf(),
            final(self).text() == old(self).text(),
            final(self).position() == scan_digits(old(self).text(), old(self).position()),
            number_matches(
                digits_value(old(self).text().subrange(start as int, final(self).position())),
                r,
            ),
    {
        let (end, value) = scan_number(&self.chars, start);
        self.pos = end;
        value
    }

    /// The next token; the end of input, again and again, once the text is
    /// consumed.
    pub fn next_token(&mut self) -> (r: Token)
        requires
            old(self).wf(),
        ensures
            final(self).wf(),
            final(self).text() == old(self).text(),
            (r@, final(self).position()) == lex_one(old(self).text(), old(self).position()),
            r@ is EOF ==> old(self).remaining() == Seq::<Tok>::empty(),
            r@ is EOF ==> final(self).remaining() == Seq::<Tok>::empty(),
            !(r@ is EOF) ==> old(self).remaining() == seq![r@] + final(self).remaining(),
    {
        proof {
            lemma_lex_from_unfold(self.text(), self.position());
        }
        self.skip_whitespace();
        let start = self.pos;
        match self.read_char() {
            Some('=') => Token::Assign,
            Some('+') => Token::Plus,
            Some('-') => Token::Minus,
            Some('*') => Token::Asterisk,
            Some('/') => Token::Slash,
            Some('(') => Token::Lparen,
            Some(')') => Token::Rparen,
            Some('{') => Token::Lbrace,
            Some('}') => Token::Rbrace,
            Some(',') => Token::Comma,
            Some(';') => Token::Semicolon,
            Some(ch) => {
                if is_letter(ch) {
                    let ident = self.read_identifier(start);
                    lookup_ident(ident)
                } else if 48 <= ch as u32 && ch as u32 <= 57 {
                    match self.read_number(start) {
                        Some(v) => Token::Int(v),
                        None => Token::Illegal,
                    }
                } else {
                    Token::Illegal
                }
            },
            None => Token::EOF,
        }
    }

    /// The next token, or `None` at the end of input.
    pub fn next(&mut self) -> (r: Option<Token>)
        requires
            old(self).wf(),
        ensures
            final(self).wf(),
            final(self).text() == old(self).text(),
            r is None ==> old(self).remaining() == Seq::<Tok>::empty(),
            r matches Some(t) ==> old(self).remaining() == seq![t@] + final(self).remaining(),
    {
        let tok = self.next_token();
        if matches!(tok, Token::EOF) {
            None
        } else {
            Some(tok)
        }
    }
}

} // verus!
