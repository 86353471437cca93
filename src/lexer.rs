use crate::span::{Span, Spanned};
use crate::token::{Token, TokenType};
use vstd::prelude::*;
use vstd::string::*;

verus! {

/// Why lexing stopped before the end of the input.
#[derive(Debug, Clone, Copy, PartialEq, Eq, Structural)]
pub enum LexError {
    /// A character that starts no token; the span covers its bytes.
    UnknownCharacter { span: Span },
    /// A string literal with no closing quote; the span is the empty span
    /// at the end of the input.
    UnterminatedString { span: Span },
}

/// An ASCII whitespace byte: tab, line feed, vertical tab, form feed,
/// carriage return or space.
pub open spec fn is_space(c: u8) -> bool {
    c == 32 || (9 <= c && c <= 13)
}

/// Whether the three bytes encode a whitespace character: U+1680,
/// U+2000 to U+200A, U+2028, U+2029, U+202F, U+205F or U+3000.
pub open spec fn is_wide_space(x: u8, y: u8, z: u8) -> bool {
    ||| (x == 0xE1 && y == 0x9A && z == 0x80)
    ||| (x == 0xE2 && y == 0x80 && ((0x80 <= z && z <= 0x8A) || z == 0xA8 || z == 0xA9 || z == 0xAF))
    ||| (x == 0xE2 && y == 0x81 && z == 0x9F)
    ||| (x == 0xE3 && y == 0x80 && z == 0x80)
}

/// The number of bytes of the whitespace character that starts at `p`, or
/// 0 when none does. Whitespace is what `char::is_whitespace` accepts: the
/// ASCII whitespace bytes, U+0085, U+00A0 and the three-byte ones above.
pub open spec fn space_width(b: Seq<u8>, p: nat) -> nat {
    if p >= b.len() {
        0
    } else if is_space(b[p as int]) {
        1
    } else if b[p as int] == 0xC2 && p + 1 < b.len() && (b[p + 1int] == 0x85 || b[p + 1int] == 0xA0) {
        2
    } else if p + 2 < b.len() && is_wide_space(b[p as int], b[p + 1int], b[p + 2int]) {
        3
    } else {
        0
    }
}

pub open spec fn is_letter(c: u8) -> bool {
    (65 <= c && c <= 90) || (97 <= c && c <= 122) || c == 95
}

pub open spec fn is_decimal(c: u8) -> bool {
    48 <= c && c <= 57
}

/// A byte that may continue a number: a decimal digit or the separator `_`.
pub open spec fn is_digit_or_sep(c: u8) -> bool {
    is_decimal(c) || c == 95
}

/// The first position at or after `p` that is neither whitespace nor inside
/// a `#` comment; `in_comment` says whether `p` lies inside a comment.
pub open spec fn skip_trivia(b: Seq<u8>, p: nat, in_comment: bool) -> nat
    decreases b.len() - p,
{
    if p >= b.len() {
        p
    } else if in_comment {
        skip_trivia(b, p + 1, b[p as int] != 10)
    } else if space_width(b, p) > 0 {
        skip_trivia(b, p + space_width(b, p), false)
    } else if b[p as int] == 35 {
        skip_trivia(b, p + 1, true)
    } else {
        p
    }
}

/// The end of the run of identifier bytes that starts at `i`.
pub open spec fn ident_end(b: Seq<u8>, i: nat) -> nat
    decreases b.len() - i,
{
    if i < b.len() && is_letter(b[i as int]) {
        ident_end(b, i + 1)
    } else {
        i
    }
}

/// The end of the run of digits and separators that starts at `i`.
pub open spec fn digits_end(b: Seq<u8>, i: nat) -> nat
    decreases b.len() - i,
{
    if i < b.len() && is_digit_or_sep(b[i as int]) {
        digits_end(b, i + 1)
    } else {
        i
    }
}

/// The position of the quote that closes a string whose contents are
/// scanned from `i`; a backslash followed by a quote does not close it.
pub open spec fn string_end(b: Seq<u8>, i: nat) -> Option<nat>
    decreases b.len() - i,
{
    if i >= b.len() {
        None
    } else if b[i as int] == 34 {
        Some(i)
    } else if b[i as int] == 92 && i + 1 < b.len() && b[i + 1int] == 34 {
        string_end(b, i + 2)
    } else {
        string_end(b, i + 1)
    }
}

/// The kind of a word: a keyword, a boolean literal or an identifier.
pub open spec fn keyword_kind(w: Seq<u8>) -> TokenType {
    if w == seq![100u8, 101, 102] {
        TokenType::Def
    } else if w == seq![108u8, 101, 116] {
        TokenType::Let
    } else if w == seq![108u8, 111, 111, 112] {
        TokenType::Loop
    } else if w == seq![119u8, 104, 105, 108, 101] {
        TokenType::While
    } else if w == seq![105u8, 102] {
        TokenType::If
    } else if w == seq![101u8, 108, 115, 101] {
        TokenType::Else
    } else if w == seq![98u8, 114, 101, 97, 107] {
        TokenType::Break
    } else if w == seq![99u8, 111, 110, 116, 105, 110, 117, 101] {
        TokenType::Continue
    } else if w == seq![116u8, 114, 117, 101] || w == seq![102u8, 97, 108, 115, 101] {
        TokenType::Bool
    } else {
        TokenType::Identifier
    }
}

/// The kind of a token made of the single byte `c`, if there is one.
pub open spec fn single_kind(c: u8) -> Option<TokenType> {
    if c == 33 {
        Some(TokenType::Bang)
    } else if c == 43 {
        Some(TokenType::Plus)
    } else if c == 45 {
        Some(TokenType::Minus)
    } else if c == 42 {
        Some(TokenType::Star)
    } else if c == 47 {
        Some(TokenType::Slash)
    } else if c == 58 {
        Some(TokenType::Colon)
    } else if c == 59 {
        Some(TokenType::Semicolon)
    } else if c == 44 {
        Some(TokenType::Comma)
    } else if c == 46 {
        Some(TokenType::Dot)
    } else if c == 40 {
        Some(TokenType::LeftParen)
    } else if c == 41 {
        Some(TokenType::RightParen)
    } else if c == 123 {
        Some(TokenType::LeftCurly)
    } else if c == 125 {
        Some(TokenType::RightCurly)
    } else if c == 61 {
        Some(TokenType::Equal)
    } else if c == 60 {
        Some(TokenType::Less)
    } else if c == 62 {
        Some(TokenType::Greater)
    } else {
        None
    }
}

/// The kind of a token made of the bytes `c`, `d`, if there is one:
/// `!=`, `**`, `==`, `<=` and `>=`.
pub open spec fn double_kind(c: u8, d: u8) -> Option<TokenType> {
    if c == 33 && d == 61 {
        Some(TokenType::NotEqual)
    } else if c == 42 && d == 42 {
        Some(TokenType::StarStar)
    } else if c == 61 && d == 61 {
        Some(TokenType::EqualEqual)
    } else if c == 60 && d == 61 {
        Some(TokenType::LessEqual)
    } else if c == 62 && d == 61 {
        Some(TokenType::GreaterEqual)
    } else {
        None
    }
}

/// The number of bytes of the UTF-8 character whose first byte is `c`.
pub open spec fn char_width(c: u8) -> nat {
    if c < 128 {
        1
    } else if c >= 240 {
        4
    } else if c >= 224 {
        3
    } else {
        2
    }
}

/// The outcome of one step of the lexer.
pub enum Step {
    /// Only whitespace and comments are left.
    End,
    /// A token, and the position just after it.
    Tok(Token, nat),
    /// A lexical error.
    Fail(LexError),
}

pub open spec fn tok(kind: TokenType, lo: nat, hi: nat, next: nat) -> Step {
    Step::Tok(Spanned(kind, Span { lo: lo as usize, hi: hi as usize }), next)
}

/// The token that starts at `q`, which is neither whitespace nor a comment.
pub open spec fn scan_at(b: Seq<u8>, q: nat) -> Step
    recommends
        q < b.len(),
{
    let c = b[q as int];
    if q + 1 < b.len() && double_kind(c, b[q + 1int]) is Some {
        tok(double_kind(c, b[q + 1int])->0, q, q + 2, q + 2)
    } else if single_kind(c) is Some {
        tok(single_kind(c)->0, q, q + 1, q + 1)
    } else if c == 34 {
        match string_end(b, q + 1) {
            Some(e) => tok(TokenType::String, q + 1, e, e + 1),
            None => Step::Fail(
                LexError::UnterminatedString {
                    span: Span { lo: b.len() as usize, hi: b.len() as usize },
                },
            ),
        }
    } else if is_letter(c) {
        let e = ident_end(b, q + 1);
        tok(keyword_kind(b.subrange(q as int, e as int)), q, e, e)
    } else if is_decimal(c) {
        let e = digits_end(b, q + 1);
        if e < b.len() && b[e as int] == 46 {
            let f = digits_end(b, e + 1);
            tok(TokenType::Float, q, f, f)
        } else {
            tok(TokenType::Integer, q, e, e)
        }
    } else {
        let w = char_width(c);
        let hi = if q + w <= b.len() { q + w } else { b.len() as nat };
        Step::Fail(LexError::UnknownCharacter { span: Span { lo: q as usize, hi: hi as usize } })
    }
}

/// One step of the lexer from position `p`.
pub open spec fn lex_step(b: Seq<u8>, p: nat) -> Step {
    let q = skip_trivia(b, p, false);
    if q >= b.len() {
        Step::End
    } else {
        scan_at(b, q)
    }
}

/// Everything the lexer produces from position `p`: the tokens in order,
/// and the error that stopped it, if any.
pub open spec fn lex_from(b: Seq<u8>, p: nat) -> (Seq<Token>, Option<LexError>)
    decreases b.len() - p,
{
    match lex_step(b, p) {
        Step::End => (seq![], None),
        Step::Fail(e) => (seq![], Some(e)),
        Step::Tok(t, q) => if p < q <= b.len() {
            let rest = lex_from(b, q);
            (seq![t] + rest.0, rest.1)
        } else {
            (seq![], None)
        },
    }
}

/// What the lexer produces from the whole of `source`.
pub open spec fn lex_source(source: Seq<char>) -> (Seq<Token>, Option<LexError>) {
    lex_from(vstd::utf8::encode_utf8(source), 0)
}

pub proof fn lemma_skip_trivia(b: Seq<u8>, p: nat, in_comment: bool)
    requires
        p <= b.len(),
    ensures
        p <= skip_trivia(b, p, in_comment) <= b.len(),
        skip_trivia(b, p, in_comment) < b.len() ==> {
            let q = skip_trivia(b, p, in_comment);
            space_width(b, q) == 0 && b[q as int] != 35
        },
    decreases b.len() - p,
{
    if p < b.len() {
        if in_comment {
            lemma_skip_trivia(b, p + 1, b[p as int] != 10);
        } else if space_width(b, p) > 0 {
            lemma_skip_trivia(b, p + space_width(b, p), false);
        } else if b[p as int] == 35 {
            lemma_skip_trivia(b, p + 1, true);
        }
    }
}

pub proof fn lemma_ident_end(b: Seq<u8>, i: nat)
    requires
        i <= b.len(),
    ensures
        i <= ident_end(b, i) <= b.len(),
        forall|k: int| i <= k < ident_end(b, i) ==> is_letter(b[k]),
    decreases b.len() - i,
{
    if i < b.len() && is_letter(b[i as int]) {
        lemma_ident_end(b, i + 1);
    }
}

pub proof fn lemma_digits_end(b: Seq<u8>, i: nat)
    requires
        i <= b.len(),
    ensures
        i <= digits_end(b, i) <= b.len(),
        forall|k: int| i <= k < digits_end(b, i) ==> is_digit_or_sep(b[k]),
    decreases b.len() - i,
{
    if i < b.len() && is_digit_or_sep(b[i as int]) {
        lemma_digits_end(b, i + 1);
    }
}

pub proof fn lemma_string_end(b: Seq<u8>, i: nat)
    requires
        i <= b.len(),
    ensures
        string_end(b, i) matches Some(e) ==> i <= e < b.len() && b[e as int] == 34,
    decreases b.len() - i,
{
    if i < b.len() && b[i as int] != 34 {
        if b[i as int] == 92 && i + 1 < b.len() && b[i + 1int] == 34 {
            lemma_string_end(b, i + 2);
        } else {
            lemma_string_end(b, i + 1);
        }
    }
}

/// A step that yields a token moves forward and stays within the input.
pub proof fn lemma_step_advances(b: Seq<u8>, p: nat)
    requires
        p <= b.len(),
        b.len() <= usize::MAX,
    ensures
        lex_step(b, p) matches Step::Tok(t, q) ==> p < q <= b.len() && p <= t.1.lo <= t.1.hi <= q,
{
    let q = skip_trivia(b, p, false);
    lemma_skip_trivia(b, p, false);
    if q < b.len() {
        lemma_ident_end(b, (q + 1) as nat);
        lemma_digits_end(b, (q + 1) as nat);
        lemma_string_end(b, (q + 1) as nat);
        let e = digits_end(b, q + 1);
        if e < b.len() {
            lemma_digits_end(b, e + 1);
        }
    }
}


/// What every token of the lexer satisfies: its span lies within the
/// input, an integer is a run of digits and separators that starts with a
/// digit, and a string's span lies between two quotes.
pub open spec fn token_ok(b: Seq<u8>, t: Token) -> bool {
    &&& t.1.lo <= t.1.hi <= b.len()
    &&& t.0 == TokenType::Integer ==> {
        &&& t.1.lo < t.1.hi
        &&& is_decimal(b[t.1.lo as int])
        &&& forall|k: int| t.1.lo <= k < t.1.hi ==> is_digit_or_sep(#[trigger] b[k])
    }
    &&& t.0 == TokenType::String ==> {
        &&& 0 < t.1.lo
        &&& b[t.1.lo - 1] == 34
        &&& t.1.hi < b.len()
        &&& b[t.1.hi as int] == 34
        &&& string_end(b, t.1.lo as nat) == Some(t.1.hi as nat)
    }
}

pub proof fn lemma_step_ok(b: Seq<u8>, p: nat)
    requires
        p <= b.len(),
        b.len() <= usize::MAX,
    ensures
        lex_step(b, p) matches Step::Tok(t, q) ==> token_ok(b, t),
{
    let q = skip_trivia(b, p, false);
    lemma_skip_trivia(b, p, false);
    if q < b.len() {
        lemma_ident_end(b, q + 1);
        lemma_digits_end(b, q + 1);
        lemma_string_end(b, q + 1);
        let e = digits_end(b, q + 1);
        if e < b.len() {
            lemma_digits_end(b, e + 1);
        }
        if is_decimal(b[q as int]) {
            assert forall|k: int| q <= k < e implies is_digit_or_sep(#[trigger] b[k]) by {
                if k > q {
                    assert(q + 1 <= k < digits_end(b, q + 1));
                }
            }
        }
    }
}

/// Every token that the lexer produces from `p` meets [`token_ok`].
pub proof fn lemma_lex_from_ok(b: Seq<u8>, p: nat)
    requires
        p <= b.len(),
        b.len() <= usize::MAX,
    ensures
        forall|k: int| 0 <= k < lex_from(b, p).0.len() ==> token_ok(b, #[trigger] lex_from(b, p).0[k]),
    decreases b.len() - p,
{
    lemma_step_ok(b, p);
    lemma_step_advances(b, p);
    if let Step::Tok(t, q) = lex_step(b, p) {
        lemma_lex_from_ok(b, q);
        let rest = lex_from(b, q);
        assert forall|k: int| 0 <= k < lex_from(b, p).0.len() implies token_ok(b, #[trigger] lex_from(b, p).0[k]) by {
            if k > 0 {
                assert(lex_from(b, p).0[k] == rest.0[k - 1]);
            }
        }
    }
}

/// Whether the bytes `b[lo..hi]` are `w`.
pub fn text_is(b: &[u8], lo: usize, hi: usize, w: &[u8]) -> (r: bool)
    requires
        lo <= hi <= b@.len(),
    ensures
        r == (b@.subrange(lo as int, hi as int) == w@),
{
    let ghost word = b@.subrange(lo as int, hi as int);
    if hi - lo != w.len() {
        return false;
    }
    let mut i: usize = 0;
    while i < w.len()
        invariant
            i <= w@.len() == word.len(),
            lo + w@.len() == hi <= b@.len(),
            word == b@.subrange(lo as int, hi as int),
            forall|k: int| 0 <= k < i ==> word[k] == w@[k],
        decreases w@.len() - i,
    {
        if b[lo + i] != w[i] {
            assert(word[i as int] != w@[i as int]);
            return false;
        }
        i = i + 1;
    }
    assert(word =~= w@);
    true
}

/// A single forward pass over a source buffer that produces its tokens one
/// at a time, skipping whitespace and `#` comments.
#[derive(Debug, Clone)]
pub struct Lexer<'input> {
    input: &'input str,
    bytes: &'input [u8],
    start_pos: usize,
    pos: usize,
}

/// The tokens of a lexer, handed out one at a time; it cannot be restarted.
#[derive(Debug)]
pub struct TokenStream<'lexer> {
    lexer: Lexer<'lexer>,
}

pub fn is_digit(c: u8) -> (r: bool)
    ensures
        r == is_digit_or_sep(c),
{
    (48 <= c && c <= 57) || c == 95
}

pub fn is_identifier(c: u8) -> (r: bool)
    ensures
        r == is_letter(c),
{
    (65 <= c && c <= 90) || (97 <= c && c <= 122) || c == 95
}

fn single(c: u8) -> (r: Option<TokenType>)
    ensures
        r == single_kind(c),
{
    if c == 33 {
        Some(TokenType::Bang)
    } else if c == 43 {
        Some(TokenType::Plus)
    } else if c == 45 {
        Some(TokenType::Minus)
    } else if c == 42 {
        Some(TokenType::Star)
    } else if c == 47 {
        Some(TokenType::Slash)
    } else if c == 58 {
        Some(TokenType::Colon)
    } else if c == 59 {
        Some(TokenType::Semicolon)
    } else if c == 44 {
        Some(TokenType::Comma)
    } else if c == 46 {
        Some(TokenType::Dot)
    } else if c == 40 {
        Some(TokenType::LeftParen)
    } else if c == 41 {
        Some(TokenType::RightParen)
    } else if c == 123 {
        Some(TokenType::LeftCurly)
    } else if c == 125 {
        Some(TokenType::RightCurly)
    } else if c == 61 {
        Some(TokenType::Equal)
    } else if c == 60 {
        Some(TokenType::Less)
    } else if c == 62 {
        Some(TokenType::Greater)
    } else {
        None
    }
}

fn double(c: u8, d: u8) -> (r: Option<TokenType>)
    ensures
        r == double_kind(c, d),
{
    if c == 33 && d == 61 {
        Some(TokenType::NotEqual)
    } else if c == 42 && d == 42 {
        Some(TokenType::StarStar)
    } else if c == 61 && d == 61 {
        Some(TokenType::EqualEqual)
    } else if c == 60 && d == 61 {
        Some(TokenType::LessEqual)
    } else if c == 62 && d == 61 {
        Some(TokenType::GreaterEqual)
    } else {
        None
    }
}

impl<'input> Lexer<'input> {
    /// The bytes being lexed.
    pub closed spec fn source_bytes(&self) -> Seq<u8> {
        self.bytes@
    }

    /// Everything this lexer has still to produce.
    pub closed spec fn remaining(&self) -> (Seq<Token>, Option<LexError>) {
        lex_from(self.bytes@, self.pos as nat)
    }

    pub closed spec fn wf(&self) -> bool {
        &&& self.pos <= self.bytes@.len()
        &&& self.bytes@ == self.input.spec_bytes()
    }

    pub fn new(source: &'input str) -> (r: Lexer<'input>)
        ensures
            r.wf(),
            r.source_bytes() == source.spec_bytes(),
            r.remaining() == lex_source(source@),
    {
        Lexer { input: source, bytes: source.as_bytes(), start_pos: 0, pos: 0 }
    }

    /// The source text this lexer reads.
    pub fn source(&self) -> (r: &'input str)
        requires
            self.wf(),
        ensures
            r.spec_bytes() == self.source_bytes(),
    {
        self.input
    }

    fn peek(&self) -> (r: Option<u8>)
        ensures
            self.pos < self.bytes@.len() ==> r == Some(self.bytes@[self.pos as int]),
            self.pos >= self.bytes@.len() ==> r is None,
    {
        if self.pos < self.bytes.len() {
            Some(self.bytes[self.pos])
        } else {
            None
        }
    }

    fn next(&mut self) -> (r: Option<u8>)
        requires
            old(self).pos <= old(self).bytes@.len(),
        ensures
            final(self).input == old(self).input,
            final(self).bytes == old(self).bytes,
            final(self).start_pos == old(self).start_pos,
            old(self).pos < old(self).bytes@.len() ==> r == Some(old(self).bytes@[old(self).pos as int])
                && final(self).pos == old(self).pos + 1,
            old(self).pos >= old(self).bytes@.len() ==> r is None && final(self).pos == old(self).pos,
    {
        if self.pos < self.bytes.len() {
            let c = self.bytes[self.pos];
            self.pos = self.pos + 1;
            Some(c)
        } else {
            None
        }
    }

    fn token(&self, ty: TokenType) -> (r: Token)
        requires
            self.start_pos <= self.pos,
        ensures
            r == Spanned(ty, Span { lo: self.start_pos, hi: self.pos }),
    {
        let span = Span::new(self.start_pos, self.pos);
        span.span(ty)
    }

    /// Moves past whitespace and comments.
    fn skip_trivia(&mut self)
        requires
            old(self).wf(),
        ensures
            final(self).wf(),
            final(self).input == old(self).input,
            final(self).bytes == old(self).bytes,
            final(self).pos == skip_trivia(old(self).bytes@, old(self).pos as nat, false),
    {
        let ghost b = self.bytes@;
        let ghost from = self.pos as nat;
        let mut in_comment = false;
        loop
            invariant
                self.wf(),
                self.input == old(self).input,
                self.bytes == old(self).bytes,
                b == self.bytes@,
                skip_trivia(b, self.pos as nat, in_comment) == skip_trivia(b, from, false),
            ensures
                self.pos == skip_trivia(b, from, false),
            decreases self.bytes@.len() - self.pos,
        {
            if self.pos >= self.bytes.len() {
                break;
            }
            let c = self.bytes[self.pos];
            if in_comment {
                in_comment = c != 10;
                self.pos = self.pos + 1;
            } else {
                let w = self.space_width();
                if w > 0 {
                    self.pos = self.pos + w;
                } else if c == 35 {
                    in_comment = true;
                    self.pos = self.pos + 1;
                } else {
                    break;
                }
            }
        }
    }

    /// The number of bytes of the whitespace character at the current
    /// position, or 0 when there is none.
    fn space_width(&self) -> (r: usize)
        requires
            self.wf(),
        ensures
            r == space_width(self.bytes@, self.pos as nat),
    {
        let n = self.bytes.len();
        let p = self.pos;
        if p >= n {
            return 0;
        }
        let c = self.bytes[p];
        if c == 32 || (9 <= c && c <= 13) {
            1
        } else if c == 0xC2 && n - p > 1 && (self.bytes[p + 1] == 0x85 || self.bytes[p + 1] == 0xA0) {
            2
        } else if n - p > 2 {
            let y = self.bytes[p + 1];
            let z = self.bytes[p + 2];
            if (c == 0xE1 && y == 0x9A && z == 0x80) || (c == 0xE2 && y == 0x80 && ((0x80 <= z && z
                <= 0x8A) || z == 0xA8 || z == 0xA9 || z == 0xAF)) || (c == 0xE2 && y == 0x81 && z
                == 0x9F) || (c == 0xE3 && y == 0x80 && z == 0x80) {
                3
            } else {
                0
            }
        } else {
            0
        }
    }

    /// Moves past the rest of an identifier and returns its token.
    fn identifier(&mut self) -> (r: Token)
        requires
            old(self).wf(),
            old(self).start_pos < old(self).pos,
        ensures
            final(self).wf(),
            final(self).input == old(self).input,
            final(self).bytes == old(self).bytes,
            final(self).pos == ident_end(old(self).bytes@, old(self).pos as nat),
            r == Spanned(
                keyword_kind(old(self).bytes@.subrange(old(self).start_pos as int, final(self).pos as int)),
                Span { lo: old(self).start_pos, hi: final(self).pos },
            ),
    {
        let ghost b = self.bytes@;
        let ghost from = self.pos as nat;
        while self.pos < self.bytes.len() && is_identifier(self.bytes[self.pos])
            invariant
                self.wf(),
                self.input == old(self).input,
                self.bytes == old(self).bytes,
                self.start_pos == old(self).start_pos,
                old(self).pos <= self.pos,
                b == self.bytes@,
                ident_end(b, self.pos as nat) == ident_end(b, from),
            decreases self.bytes@.len() - self.pos,
        {
            self.pos = self.pos + 1;
        }
        self.keyword_or_ident()
    }

    /// Whether the current word is `w`.
    fn word_is(&self, w: &[u8]) -> (r: bool)
        requires
            self.start_pos <= self.pos <= self.bytes@.len(),
        ensures
            r == (self.bytes@.subrange(self.start_pos as int, self.pos as int) == w@),
    {
        text_is(self.bytes, self.start_pos, self.pos, w)
    }

    fn keyword_or_ident(&self) -> (r: Token)
        requires
            self.start_pos <= self.pos <= self.bytes@.len(),
        ensures
            r == Spanned(
                keyword_kind(self.bytes@.subrange(self.start_pos as int, self.pos as int)),
                Span { lo: self.start_pos, hi: self.pos },
            ),
    {
        let ghost word = self.bytes@.subrange(self.start_pos as int, self.pos as int);
        let kind = if self.word_is(&[100u8, 101, 102]) {
            TokenType::Def
        } else if self.word_is(&[108u8, 101, 116]) {
            TokenType::Let
        } else if self.word_is(&[108u8, 111, 111, 112]) {
            TokenType::Loop
        } else if self.word_is(&[119u8, 104, 105, 108, 101]) {
            TokenType::While
        } else if self.word_is(&[105u8, 102]) {
            TokenType::If
        } else if self.word_is(&[101u8, 108, 115, 101]) {
            TokenType::Else
        } else if self.word_is(&[98u8, 114, 101, 97, 107]) {
            TokenType::Break
        } else if self.word_is(&[99u8, 111, 110, 116, 105, 110, 117, 101]) {
            TokenType::Continue
        } else if self.word_is(&[116u8, 114, 117, 101]) || self.word_is(&[102u8, 97, 108, 115, 101]) {
            TokenType::Bool
        } else {
            TokenType::Identifier
        };
        self.token(kind)
    }

    /// Moves past a run of digits and separators.
    fn digits(&mut self)
        requires
            old(self).wf(),
        ensures
            final(self).wf(),
            final(self).input == old(self).input,
            final(self).bytes == old(self).bytes,
            final(self).start_pos == old(self).start_pos,
            final(self).pos == digits_end(old(self).bytes@, old(self).pos as nat),
    {
        let ghost b = self.bytes@;
        let ghost from = self.pos as nat;
        while self.pos < self.bytes.len() && is_digit(self.bytes[self.pos])
            invariant
                self.wf(),
                self.input == old(self).input,
                self.bytes == old(self).bytes,
                self.start_pos == old(self).start_pos,
                b == self.bytes@,
                digits_end(b, self.pos as nat) == digits_end(b, from),
            decreases self.bytes@.len() - self.pos,
        {
            self.pos = self.pos + 1;
        }
    }

    /// Moves past the rest of a number and returns its token: an integer,
    /// or a float where a `.` follows the first run of digits.
    fn number(&mut self) -> (r: Token)
        requires
            old(self).wf(),
            old(self).start_pos < old(self).pos,
        ensures
            final(self).wf(),
            final(self).input == old(self).input,
            final(self).bytes == old(self).bytes,
            ({
                let b = old(self).bytes@;
                let e = digits_end(b, old(self).pos as nat);
                if e < b.len() && b[e as int] == 46 {
                    let f = digits_end(b, e + 1);
                    final(self).pos == f && r == Spanned(TokenType::Float, Span { lo: old(self).start_pos, hi: f as usize })
                } else {
                    final(self).pos == e && r == Spanned(TokenType::Integer, Span { lo: old(self).start_pos, hi: e as usize })
                }
            }),
    {
        proof {
            lemma_digits_end(self.bytes@, self.pos as nat);
        }
        self.digits();
        if self.peek() == Some(46u8) {
            self.next();
            proof {
                lemma_digits_end(self.bytes@, self.pos as nat);
            }
            self.digits();
            return self.token(TokenType::Float);
        }
        self.token(TokenType::Integer)
    }

    /// Moves past the contents of a string and its closing quote, and
    /// returns a token whose span excludes both quotes. A backslash
    /// followed by a quote does not close the string.
    fn string(&mut self) -> (r: Result<Token, LexError>)
        requires
            old(self).wf(),
            old(self).start_pos < old(self).pos,
        ensures
            final(self).wf(),
            final(self).input == old(self).input,
            final(self).bytes == old(self).bytes,
            ({
                let b = old(self).bytes@;
                match string_end(b, old(self).pos as nat) {
                    Some(e) => final(self).pos == e + 1 && r == Ok::<Token, LexError>(
                        Spanned(TokenType::String, Span { lo: old(self).pos, hi: e as usize }),
                    ),
                    None => r == Err::<Token, LexError>(
                        LexError::UnterminatedString { span: Span { lo: b.len() as usize, hi: b.len() as usize } },
                    ),
                }
            }),
    {
        let ghost b = self.bytes@;
        let ghost from = self.pos as nat;
        let lo = self.pos;
        while self.pos < self.bytes.len() && self.bytes[self.pos] != 34
            invariant
                self.wf(),
                self.input == old(self).input,
                self.bytes == old(self).bytes,
                b == self.bytes@,
                lo == from,
                lo <= self.pos,
                string_end(b, self.pos as nat) == string_end(b, from),
            decreases self.bytes@.len() - self.pos,
        {
            let c = self.bytes[self.pos];
            self.pos = self.pos + 1;
            if c == 92 && self.peek() == Some(34u8) {
                self.pos = self.pos + 1;
            }
        }
        if self.pos >= self.bytes.len() {
            let end = self.bytes.len();
            return Err(LexError::UnterminatedString { span: Span::new(end, end) });
        }
        let hi = self.pos;
        self.pos = self.pos + 1;
        Ok(Span::new(lo, hi).span(TokenType::String))
    }

    /// The token at the current position, which is neither whitespace nor
    /// a comment.
    fn scan(&mut self) -> (r: Result<Token, LexError>)
        requires
            old(self).wf(),
            old(self).start_pos == old(self).pos,
            old(self).pos < old(self).bytes@.len(),
        ensures
            final(self).wf(),
            final(self).input == old(self).input,
            final(self).bytes == old(self).bytes,
            match scan_at(old(self).bytes@, old(self).pos as nat) {
                Step::Tok(t, q) => r == Ok::<Token, LexError>(t) && final(self).pos == q,
                Step::Fail(e) => r == Err::<Token, LexError>(e),
                Step::End => false,
            },
    {
        let ghost b = self.bytes@;
        let q = self.pos;
        proof {
            lemma_ident_end(b, (q + 1) as nat);
            lemma_digits_end(b, (q + 1) as nat);
        }
        let c = self.bytes[q];
        if q + 1 < self.bytes.len() {
            if let Some(kind) = double(c, self.bytes[q + 1]) {
                self.pos = q + 2;
                return Ok(self.token(kind));
            }
        }
        if let Some(kind) = single(c) {
            self.pos = q + 1;
            return Ok(self.token(kind));
        }
        self.pos = q + 1;
        if c == 34 {
            proof {
                lemma_string_end(b, (q + 1) as nat);
            }
            self.string()
        } else if is_identifier(c) {
            Ok(self.identifier())
        } else if 48 <= c && c <= 57 {
            Ok(self.number())
        } else {
            let w: usize = if c < 128 {
                1
            } else if c >= 240 {
                4
            } else if c >= 224 {
                3
            } else {
                2
            };
            let hi = if w <= self.bytes.len() - q { q + w } else { self.bytes.len() };
            self.pos = q;
            Err(LexError::UnknownCharacter { span: Span::new(q, hi) })
        }
    }

    /// The next token, or the lexical error that ends the input, or `None`
    /// once the input is used up. After an error the lexer is used up.
    pub fn next_token(&mut self) -> (r: Option<Result<Token, LexError>>)
        requires
            old(self).wf(),
        ensures
            final(self).wf(),
            final(self).source_bytes() == old(self).source_bytes(),
            ({
                let (ts, err) = old(self).remaining();
                let (ts2, err2) = final(self).remaining();
                if ts.len() > 0 {
                    r == Some(Ok::<Token, LexError>(ts[0])) && ts2 == ts.drop_first() && err2 == err
                } else if err is Some {
                    r == Some(Err::<Token, LexError>(err->0)) && ts2.len() == 0 && err2 is None
                } else {
                    r is None && ts2.len() == 0 && err2 is None
                }
            }),
    {
        let ghost b = self.bytes@;
        let ghost p = self.pos as nat;
        let n = self.bytes.len();
        proof {
            lemma_skip_trivia(b, p, false);
            lemma_step_advances(b, p);
        }
        self.skip_trivia();
        self.start_pos = self.pos;
        if self.pos >= self.bytes.len() {
            proof {
                assert(lex_step(b, self.pos as nat) is End);
            }
            return None;
        }
        match self.scan() {
            Ok(t) => {
                proof {
                    let rest = lex_from(b, self.pos as nat);
                    assert(lex_from(b, p) == (seq![t] + rest.0, rest.1));
                    assert((seq![t] + rest.0).drop_first() =~= rest.0);
                }
                Some(Ok(t))
            },
            Err(e) => {
                self.pos = self.bytes.len();
                proof {
                    assert(lex_step(b, self.pos as nat) is End);
                }
                Some(Err(e))
            },
        }
    }

    pub fn into_iter(self) -> (r: TokenStream<'input>)
        ensures
            r.lexer() == self,
    {
        TokenStream { lexer: self }
    }
}

impl<'lexer> TokenStream<'lexer> {
    pub closed spec fn lexer(&self) -> Lexer<'lexer> {
        self.lexer
    }

    /// The next item of the lexer: see [`Lexer::next_token`].
    pub fn next(&mut self) -> (r: Option<Result<Token, LexError>>)
        requires
            old(self).lexer().wf(),
        ensures
            final(self).lexer().wf(),
            final(self).lexer().source_bytes() == old(self).lexer().source_bytes(),
            ({
                let (ts, err) = old(self).lexer().remaining();
                let (ts2, err2) = final(self).lexer().remaining();
                if ts.len() > 0 {
                    r == Some(Ok::<Token, LexError>(ts[0])) && ts2 == ts.drop_first() && err2 == err
                } else if err is Some {
                    r == Some(Err::<Token, LexError>(err->0)) && ts2.len() == 0 && err2 is None
                } else {
                    r is None && ts2.len() == 0 && err2 is None
                }
            }),
    {
        self.lexer.next_token()
    }
}

/// All the tokens of `source`, or the first lexical error in it.
pub fn tokenize(source: &str) -> (r: Result<Vec<Token>, LexError>)
    ensures
        match lex_source(source@).1 {
            Some(e) => r == Err::<Vec<Token>, LexError>(e),
            None => r matches Ok(v) && v@ == lex_source(source@).0,
        },
{
    let mut lexer = Lexer::new(source);
    let mut tokens: Vec<Token> = Vec::new();
    loop
        invariant
            lexer.wf(),
            tokens@ + lexer.remaining().0 == lex_source(source@).0,
            lexer.remaining().1 == lex_source(source@).1,
        decreases lexer.remaining().0.len(),
    {
        let ghost before = lexer.remaining();
        match lexer.next_token() {
            Some(Ok(t)) => {
                proof {
                    assert(tokens@.push(t) + lexer.remaining().0 =~= tokens@ + before.0);
                }
                tokens.push(t);
            },
            Some(Err(e)) => {
                return Err(e);
            },
            None => {
                assert(tokens@ =~= lex_source(source@).0);
                return Ok(tokens);
            },
        }
    }
}

} // verus!
