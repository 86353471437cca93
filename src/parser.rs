use crate::ast::{
    binary_op_of, op_level, tree_of, tree_span, unary_op_of, BinaryOperation, Expr, ExprKind,
    ValueModel, Literal, Tree, UnaryOperation,
};
use crate::diagnostic::{reports, syntax_label, syntax_message, syntax_span, Diagnostic};
use crate::lexer::{
    is_decimal, is_digit_or_sep, lemma_lex_from_ok, lex_from, lex_source, text_is, token_ok,
    LexError, Lexer,
};
use crate::span::{lemma_ascii_boundary, merge_spec, Span};
use crate::token::{Token, TokenType};
use codespan::FileId;
use vstd::prelude::*;
use vstd::string::*;
use vstd::utf8::*;

verus! {

/// Why an expression could not be parsed. Each error carries the span of
/// the offending token, or of the place where a token was missing.
#[derive(Debug, Clone, Copy, PartialEq, Eq, Structural)]
pub enum SyntaxError {
    /// A token of kind `expected` was needed and `found` came instead.
    Expected { expected: TokenType, found: TokenType, span: Span },
    /// An operand was needed and `found` came instead; an operand starts
    /// with `(`, an integer, a string or a boolean.
    ExpectedOneOf { found: TokenType, span: Span },
    /// The input ended where an operand was needed.
    ExpectedExpr { span: Span },
    /// An integer literal whose value does not fit in 64 signed bits. This
    /// is the one way a run of digits and separators can fail to be read.
    InvalidInteger { span: Span },
    /// The input ended where a token of kind `expected` was needed.
    UnexpectedEof { expected: TokenType, span: Span },
    /// The lexer stopped on an error.
    Lexical(LexError),
}

/// The token kinds that an error says were expected.
pub open spec fn expected_kinds_of(e: SyntaxError) -> Seq<TokenType> {
    match e {
        SyntaxError::Expected { expected, .. } => seq![expected],
        SyntaxError::UnexpectedEof { expected, .. } => seq![expected],
        SyntaxError::ExpectedOneOf { .. } => seq![
            TokenType::LeftParen,
            TokenType::Integer,
            TokenType::String,
            TokenType::Bool,
        ],
        _ => seq![],
    }
}

impl SyntaxError {
    /// The token kinds this error says were expected: the one kind for
    /// `Expected` and `UnexpectedEof`, the kinds that start an operand for
    /// `ExpectedOneOf`, and none for the others.
    pub fn expected_kinds(&self) -> (r: Vec<TokenType>)
        ensures
            r@ == expected_kinds_of(*self),
    {
        let mut r: Vec<TokenType> = Vec::new();
        match *self {
            SyntaxError::Expected { expected, .. } => r.push(expected),
            SyntaxError::UnexpectedEof { expected, .. } => r.push(expected),
            SyntaxError::ExpectedOneOf { .. } => {
                r.push(TokenType::LeftParen);
                r.push(TokenType::Integer);
                r.push(TokenType::String);
                r.push(TokenType::Bool);
            },
            _ => {},
        }
        proof {
            assert(r@ =~= expected_kinds_of(*self));
        }
        r
    }
}

/// What a parser reads: the tokens of a source, the lexical error that
/// ended them (if any), and the source's bytes.
pub struct Stream {
    pub tokens: Seq<Token>,
    pub error: Option<LexError>,
    pub bytes: Seq<u8>,
}

/// The stream of a source text.
pub open spec fn stream_of(source: Seq<char>) -> Stream {
    Stream {
        tokens: lex_source(source).0,
        error: lex_source(source).1,
        bytes: encode_utf8(source),
    }
}

/// What the parser sees at token index `i`.
pub open spec fn look(s: Stream, i: nat) -> Option<Result<Token, LexError>> {
    if i < s.tokens.len() {
        Some(Ok(s.tokens[i as int]))
    } else if s.error is Some {
        Some(Err(s.error->0))
    } else {
        None
    }
}

/// The span of the last token before index `i`, or the empty span at the
/// start when there is none.
pub open spec fn last_span(s: Stream, i: nat) -> Span {
    if 0 < i <= s.tokens.len() {
        s.tokens[i - 1].1
    } else {
        Span { lo: 0, hi: 0 }
    }
}

/// The bytes of a token.
pub open spec fn text(s: Stream, t: Token) -> Seq<u8> {
    s.bytes.subrange(t.1.lo as int, t.1.hi as int)
}

/// A run of digits and separators with the separators `_` taken out.
pub open spec fn strip_separators(w: Seq<u8>) -> Seq<u8>
    decreases w.len(),
{
    if w.len() == 0 {
        w
    } else if w.last() == 95 {
        strip_separators(w.drop_last())
    } else {
        strip_separators(w.drop_last()).push(w.last())
    }
}

pub open spec fn all_decimal(w: Seq<u8>) -> bool {
    forall|k: int| 0 <= k < w.len() ==> is_decimal(#[trigger] w[k])
}

/// The number that a run of decimal digits denotes.
pub open spec fn decimal_value(w: Seq<u8>) -> nat
    decreases w.len(),
{
    if w.len() == 0 {
        0
    } else {
        decimal_value(w.drop_last()) * 10 + (w.last() - 48) as nat
    }
}

/// The value of an integer literal: its digits, without separators, read
/// in base ten; none when that does not fit in 64 signed bits.
pub open spec fn int_literal(w: Seq<u8>) -> Option<i64> {
    let v = decimal_value(strip_separators(w));
    if v <= i64::MAX {
        Some(v as i64)
    } else {
        None
    }
}

pub open spec fn true_text() -> Seq<u8> {
    seq![116u8, 114, 117, 101]
}

/// The outcome of parsing: a tree and the index of the first token after
/// it, or an error.
pub type Parse = Result<(Tree, nat), SyntaxError>;

pub open spec fn guard_error() -> SyntaxError {
    SyntaxError::ExpectedExpr { span: Span { lo: 0, hi: 0 } }
}

/// The grammar, one level per precedence, loosest first: 0 equality
/// (`!=`, `==`), 1 comparison (`>`, `>=`, `<`, `<=`), 2 addition (`+`,
/// `-`), 3 multiplication (`*`, `/`), 4 prefix operators (`!`, `-`) and 5
/// operands (literals and parenthesised expressions). Parses at level
/// `lvl` from token index `i`.
pub open spec fn parse_at(s: Stream, lvl: nat, i: nat) -> Parse
    decreases s.tokens.len() - i, 6 - lvl,
{
    if i > s.tokens.len() || lvl > 5 {
        Err(guard_error())
    } else if lvl < 4 {
        match parse_at(s, lvl + 1, i) {
            Err(e) => Err(e),
            Ok((l, j)) => if i < j <= s.tokens.len() {
                parse_rest(s, lvl, l, j)
            } else {
                Err(guard_error())
            },
        }
    } else if lvl == 4 {
        match look(s, i) {
            Some(Err(e)) => Err(SyntaxError::Lexical(e)),
            Some(Ok(t)) => match unary_op_of(t.0) {
                Some(op) => match parse_at(s, 4, i + 1) {
                    Err(e) => Err(e),
                    Ok((r, j)) => Ok(
                        (Tree::Unary(op, Box::new(r), merge_spec(t.1, tree_span(r))), j),
                    ),
                },
                None => parse_at(s, 5, i),
            },
            None => parse_at(s, 5, i),
        }
    } else {
        match look(s, i) {
            None => Err(SyntaxError::ExpectedExpr { span: last_span(s, i) }),
            Some(Err(e)) => Err(SyntaxError::Lexical(e)),
            Some(Ok(t)) => match t.0 {
                TokenType::String => Ok(
                    (Tree::Lit(ValueModel::Str(decode_utf8(text(s, t))), t.1), i + 1),
                ),
                TokenType::Integer => match int_literal(text(s, t)) {
                    Some(v) => Ok((Tree::Lit(ValueModel::Int(v), t.1), i + 1)),
                    None => Err(SyntaxError::InvalidInteger { span: t.1 }),
                },
                TokenType::Bool => Ok(
                    (Tree::Lit(ValueModel::Bool(text(s, t) == true_text()), t.1), i + 1),
                ),
                TokenType::LeftParen => match parse_at(s, 0, i + 1) {
                    Err(e) => Err(e),
                    Ok((inner, j)) => match look(s, j) {
                        Some(Ok(c)) => if c.0 == TokenType::RightParen {
                            Ok((Tree::Grouping(Box::new(inner), merge_spec(t.1, c.1)), j + 1))
                        } else {
                            Err(
                                SyntaxError::Expected {
                                    expected: TokenType::RightParen,
                                    found: c.0,
                                    span: c.1,
                                },
                            )
                        },
                        Some(Err(e)) => Err(SyntaxError::Lexical(e)),
                        None => Err(
                            SyntaxError::UnexpectedEof {
                                expected: TokenType::RightParen,
                                span: Span { lo: last_span(s, j).hi, hi: last_span(s, j).hi },
                            },
                        ),
                    },
                },
                _ => Err(SyntaxError::ExpectedOneOf { found: t.0, span: t.1 }),
            },
        }
    }
}

/// The rest of a binary level `lvl` after its operands so far, folded into
/// `left`, end before token index `j`: while an operator of this level
/// follows, fold it and the next operand into a left-nested tree.
pub open spec fn parse_rest(s: Stream, lvl: nat, left: Tree, j: nat) -> Parse
    decreases s.tokens.len() - j, 0int,
{
    if j > s.tokens.len() || lvl > 3 {
        Err(guard_error())
    } else {
        match look(s, j) {
            Some(Err(e)) => Err(SyntaxError::Lexical(e)),
            Some(Ok(t)) => match binary_op_of(t.0) {
                Some(op) => if op_level(op) == lvl {
                    match parse_at(s, lvl + 1, j + 1) {
                        Err(e) => Err(e),
                        Ok((r, k)) => if j < k <= s.tokens.len() {
                            parse_rest(
                                s,
                                lvl,
                                Tree::Binary(
                                    Box::new(left),
                                    op,
                                    Box::new(r),
                                    merge_spec(tree_span(left), tree_span(r)),
                                ),
                                k,
                            )
                        } else {
                            Err(guard_error())
                        },
                    }
                } else {
                    Ok((left, j))
                },
                None => Ok((left, j)),
            },
            None => Ok((left, j)),
        }
    }
}

/// Whether a token kind is where statement-level recovery stops: a
/// statement terminator or a keyword that starts a statement.
pub open spec fn is_sync_point(t: TokenType) -> bool {
    t == TokenType::Semicolon || t == TokenType::Def || t == TokenType::Let || t == TokenType::Loop
        || t == TokenType::While || t == TokenType::If
}

/// The first index at or after `i` whose token is a recovery point, or the
/// end of the tokens.
pub open spec fn sync_from(s: Stream, i: nat) -> nat
    decreases s.tokens.len() - i,
{
    if i >= s.tokens.len() {
        i
    } else if is_sync_point(s.tokens[i as int].0) {
        i
    } else {
        sync_from(s, i + 1)
    }
}

/// Where recovery from an error at index `i` resumes: one token is
/// skipped, then every token up to the next recovery point.
pub open spec fn synchronized(s: Stream, i: nat) -> nat {
    if i < s.tokens.len() {
        sync_from(s, i + 1)
    } else {
        i
    }
}

/// An expression parsed from token index `i`.
pub open spec fn parse_expr(s: Stream, i: nat) -> Parse {
    parse_at(s, 0, i)
}

/// A successful parse moves forward and stays within the tokens.
pub proof fn lemma_parse_advances(s: Stream, lvl: nat, i: nat)
    ensures
        parse_at(s, lvl, i) matches Ok((t, j)) ==> i < j <= s.tokens.len(),
    decreases s.tokens.len() - i, 6 - lvl,
{
    if i <= s.tokens.len() && lvl <= 5 {
        if lvl < 4 {
            lemma_parse_advances(s, lvl + 1, i);
            if let Ok((l, j)) = parse_at(s, lvl + 1, i) {
                if i < j <= s.tokens.len() {
                    lemma_rest_advances(s, lvl, l, j);
                }
            }
        } else if lvl == 4 {
            if let Some(Ok(t)) = look(s, i) {
                if unary_op_of(t.0) is Some {
                    lemma_parse_advances(s, 4, i + 1);
                } else {
                    lemma_parse_advances(s, 5, i);
                }
            } else {
                lemma_parse_advances(s, 5, i);
            }
        } else {
            if let Some(Ok(t)) = look(s, i) {
                if t.0 == TokenType::LeftParen {
                    lemma_parse_advances(s, 0, i + 1);
                }
            }
        }
    }
}

pub proof fn lemma_rest_advances(s: Stream, lvl: nat, left: Tree, j: nat)
    ensures
        parse_rest(s, lvl, left, j) matches Ok((t, k)) ==> j <= k <= s.tokens.len(),
    decreases s.tokens.len() - j, 0int,
{
    if j <= s.tokens.len() && lvl <= 3 {
        if let Some(Ok(t)) = look(s, j) {
            if let Some(op) = binary_op_of(t.0) {
                if op_level(op) == lvl {
                    lemma_parse_advances(s, lvl + 1, j + 1);
                    if let Ok((r, k)) = parse_at(s, lvl + 1, j + 1) {
                        if j < k <= s.tokens.len() {
                            lemma_rest_advances(
                                s,
                                lvl,
                                Tree::Binary(
                                    Box::new(left),
                                    op,
                                    Box::new(r),
                                    merge_spec(tree_span(left), tree_span(r)),
                                ),
                                k,
                            );
                        }
                    }
                }
            }
        }
    }
}


/// Whether an exec parse result agrees with a parse of the grammar, with
/// the parser left at `pos` on success.
pub open spec fn agrees(r: Result<Expr, SyntaxError>, p: Parse, pos: nat) -> bool {
    match p {
        Ok((t, j)) => r matches Ok(e) && tree_of(e) == t && pos == j,
        Err(e) => r == Err::<Expr, SyntaxError>(e),
    }
}

/// Relies on lexical::parse::<i64, _>: a non-empty run of decimal digits
/// gives the number it denotes when that fits in an i64, and an error
/// otherwise; empty input gives an error.
#[verifier::external_body]
fn parse_i64(digits: &[u8]) -> (r: Result<i64, lexical::Error>)
    ensures
        digits@.len() > 0 && all_decimal(digits@) ==> {
            &&& (r is Ok <==> decimal_value(digits@) <= i64::MAX)
            &&& r matches Ok(v) ==> v == decimal_value(digits@)
        },
        digits@.len() == 0 ==> r is Err,
{
    lexical::parse::<i64, _>(digits)
}

fn is_sync_kind(t: TokenType) -> (r: bool)
    ensures
        r == is_sync_point(t),
{
    match t {
        TokenType::Semicolon | TokenType::Def | TokenType::Let | TokenType::Loop
        | TokenType::While | TokenType::If => true,
        _ => false,
    }
}

/// A recursive-descent parser over the tokens of one source text.
#[derive(Debug)]
pub struct Parser<'input> {
    file: FileId,
    source: &'input str,
    tokens: Vec<Token>,
    error: Option<LexError>,
    pos: usize,
}

impl<'input> Parser<'input> {
    /// What this parser reads.
    pub closed spec fn stream(&self) -> Stream {
        Stream { tokens: self.tokens@, error: self.error, bytes: self.source.spec_bytes() }
    }

    /// The index of the next token to read.
    pub closed spec fn position(&self) -> nat {
        self.pos as nat
    }

    pub closed spec fn file_spec(&self) -> FileId {
        self.file
    }

    pub closed spec fn wf(&self) -> bool {
        &&& self.pos <= self.tokens@.len()
        &&& (self.tokens@, self.error) == lex_from(self.source.spec_bytes(), 0)
        &&& self.source.spec_bytes().len() <= usize::MAX
        &&& forall|k: int|
            0 <= k < self.tokens@.len() ==> token_ok(self.source.spec_bytes(), #[trigger] self.tokens@[k])
    }

    /// A parser at the start of `source`, the text of file `file`.
    pub fn new(source: &'input str, file: FileId) -> (r: Parser<'input>)
        ensures
            r.wf(),
            r.stream() == stream_of(source@),
            r.position() == 0,
            r.file_spec() == file,
    {
        let mut lexer = Lexer::new(source);
        let mut tokens: Vec<Token> = Vec::new();
        let n = source.as_bytes().len();
        let mut error: Option<LexError> = None;
        loop
            invariant_except_break
                tokens@ + lexer.remaining().0 == lex_source(source@).0,
                lexer.remaining().1 == lex_source(source@).1,
                error is None,
            invariant
                lexer.wf(),
                lexer.source_bytes() == source.spec_bytes(),
            ensures
                tokens@ == lex_source(source@).0,
                error == lex_source(source@).1,
            decreases lexer.remaining().0.len(),
        {
            let ghost before = lexer.remaining();
            match lexer.next_token() {
                Some(Ok(t)) => {
                    proof {
                        assert(tokens@.push(t) + lexer.remaining().0 =~= tokens@ + before.0);
                    }
                    tokens.push(t);
                },
                Some(Err(e)) => {
                    assert(tokens@ =~= lex_source(source@).0);
                    error = Some(e);
                    break;
                },
                None => {
                    assert(tokens@ =~= lex_source(source@).0);
                    break;
                },
            }
        }
        proof {
            lemma_lex_from_ok(source.spec_bytes(), 0);
        }
        Parser { file, source, tokens, error, pos: 0 }
    }

    /// Recovers after an error: skips one token, then every token up to a
    /// statement terminator or a keyword that starts a statement, which is
    /// left as the next token.
    pub fn synchronize(&mut self)
        requires
            old(self).wf(),
        ensures
            final(self).wf(),
            final(self).stream() == old(self).stream(),
            final(self).file_spec() == old(self).file_spec(),
            final(self).position() == synchronized(old(self).stream(), old(self).position()),
    {
        let ghost s = self.stream();
        if self.pos >= self.tokens.len() {
            return;
        }
        self.next();
        while self.pos < self.tokens.len() && !is_sync_kind(self.tokens[self.pos].0)
            invariant
                self.wf(),
                self.stream() == s,
                s == old(self).stream(),
                self.file_spec() == old(self).file_spec(),
                sync_from(s, self.position()) == synchronized(s, old(self).position()),
            decreases s.tokens.len() - self.position(),
        {
            self.next();
        }
    }

    /// The report of `err` against the file this parser reads.
    pub fn make_diagnostic(&self, err: &SyntaxError) -> (r: Diagnostic)
        ensures
            reports(r, syntax_message(*err), self.file_spec(), syntax_span(*err), syntax_label(*err)),
    {
        err.to_diagnostic(self.file)
    }

    /// The file this parser reads.
    pub fn file(&self) -> (r: FileId)
        ensures
            r == self.file_spec(),
    {
        self.file
    }

    /// The next token, the lexical error that ended the tokens, or `None`
    /// at the end of the input.
    fn peek(&self) -> (r: Option<Result<Token, LexError>>)
        requires
            self.wf(),
        ensures
            r == look(self.stream(), self.position()),
    {
        if self.pos < self.tokens.len() {
            Some(Ok(self.tokens[self.pos]))
        } else {
            match self.error {
                Some(e) => Some(Err(e)),
                None => None,
            }
        }
    }

    /// Consumes the next token, which must be there.
    fn next(&mut self) -> (r: Token)
        requires
            old(self).wf(),
            old(self).position() < old(self).stream().tokens.len(),
        ensures
            final(self).wf(),
            final(self).stream() == old(self).stream(),
            final(self).file_spec() == old(self).file_spec(),
            final(self).position() == old(self).position() + 1,
            r == old(self).stream().tokens[old(self).position() as int],
    {
        let t = self.tokens[self.pos];
        let _n = self.tokens.len();
        self.pos = self.pos + 1;
        t
    }

    fn last_span(&self) -> (r: Span)
        requires
            self.wf(),
        ensures
            r == last_span(self.stream(), self.position()),
    {
        if self.pos > 0 {
            self.tokens[self.pos - 1].1
        } else {
            Span::new(0, 0)
        }
    }

    /// Parses one expression.
    pub fn next_expression(&mut self) -> (r: Result<Expr, SyntaxError>)
        requires
            old(self).wf(),
        ensures
            final(self).wf(),
            final(self).stream() == old(self).stream(),
            final(self).file_spec() == old(self).file_spec(),
            agrees(r, parse_expr(old(self).stream(), old(self).position()), final(self).position()),
    {
        self.next_binary(0)
    }

    /// Parses a binary level `lvl` (0 to 3): operands of the next tighter
    /// level joined, left to right, by this level's operators.
    fn next_binary(&mut self, lvl: u8) -> (r: Result<Expr, SyntaxError>)
        requires
            old(self).wf(),
            lvl < 4,
        ensures
            final(self).wf(),
            final(self).stream() == old(self).stream(),
            final(self).file_spec() == old(self).file_spec(),
            agrees(r, parse_at(old(self).stream(), lvl as nat, old(self).position()), final(self).position()),
        decreases old(self).stream().tokens.len() - old(self).position(), 6 - lvl, 0int,
    {
        let ghost s = self.stream();
        let ghost i = self.position();
        proof {
            lemma_parse_advances(s, (lvl + 1) as nat, i);
        }
        let first = self.next_operand(lvl + 1);
        let mut expr = match first {
            Ok(e) => e,
            Err(e) => return Err(e),
        };
        loop
            invariant
                self.wf(),
                self.stream() == s,
                s == old(self).stream(),
                i == old(self).position(),
                self.file_spec() == old(self).file_spec(),
                i < self.position(),
                lvl < 4,
                parse_at(s, lvl as nat, i) == parse_rest(s, lvl as nat, tree_of(expr), self.position()),
            decreases s.tokens.len() - self.position(),
        {
            let ghost j = self.position();
            let op = match self.peek() {
                Some(Err(e)) => return Err(SyntaxError::Lexical(e)),
                Some(Ok(t)) => match BinaryOperation::from_token(t.0) {
                    Some(op) => if op.level() == lvl {
                        op
                    } else {
                        return Ok(expr);
                    },
                    None => return Ok(expr),
                },
                None => return Ok(expr),
            };
            self.next();
            proof {
                lemma_parse_advances(s, (lvl + 1) as nat, j + 1);
            }
            let right = match self.next_operand(lvl + 1) {
                Ok(e) => e,
                Err(e) => return Err(e),
            };
            let span = expr.1.merge(right.1);
            expr = span.span(ExprKind::Binary { left: Box::new(expr), op, right: Box::new(right) });
        }
    }

    /// Parses at level `lvl` (1 to 4): a binary level, or prefix operators.
    fn next_operand(&mut self, lvl: u8) -> (r: Result<Expr, SyntaxError>)
        requires
            old(self).wf(),
            1 <= lvl <= 4,
        ensures
            final(self).wf(),
            final(self).stream() == old(self).stream(),
            final(self).file_spec() == old(self).file_spec(),
            agrees(r, parse_at(old(self).stream(), lvl as nat, old(self).position()), final(self).position()),
        decreases old(self).stream().tokens.len() - old(self).position(), 6 - lvl, 1int,
    {
        if lvl < 4 {
            self.next_binary(lvl)
        } else {
            self.next_unary()
        }
    }

    /// Parses prefix operators, right-recursively, then an operand.
    fn next_unary(&mut self) -> (r: Result<Expr, SyntaxError>)
        requires
            old(self).wf(),
        ensures
            final(self).wf(),
            final(self).stream() == old(self).stream(),
            final(self).file_spec() == old(self).file_spec(),
            agrees(r, parse_at(old(self).stream(), 4, old(self).position()), final(self).position()),
        decreases old(self).stream().tokens.len() - old(self).position(), 2int, 0int,
    {
        match self.peek() {
            Some(Err(e)) => Err(SyntaxError::Lexical(e)),
            Some(Ok(t)) => match UnaryOperation::from_token(t.0) {
                Some(op) => {
                    let token = self.next();
                    let right = match self.next_unary() {
                        Ok(e) => e,
                        Err(e) => return Err(e),
                    };
                    let span = token.1.merge(right.1);
                    Ok(span.span(ExprKind::Unary { op, expr: Box::new(right) }))
                },
                None => self.next_primary(),
            },
            None => self.next_primary(),
        }
    }

    /// Parses an operand: a literal or a parenthesised expression.
    fn next_primary(&mut self) -> (r: Result<Expr, SyntaxError>)
        requires
            old(self).wf(),
        ensures
            final(self).wf(),
            final(self).stream() == old(self).stream(),
            final(self).file_spec() == old(self).file_spec(),
            agrees(r, parse_at(old(self).stream(), 5, old(self).position()), final(self).position()),
        decreases old(self).stream().tokens.len() - old(self).position(), 1int, 0int,
    {
        let token = match self.peek() {
            None => return Err(SyntaxError::ExpectedExpr { span: self.last_span() }),
            Some(Err(e)) => return Err(SyntaxError::Lexical(e)),
            Some(Ok(t)) => t,
        };
        self.next();
        match token.0 {
            TokenType::String => Ok(self.next_string(token)),
            TokenType::Integer => self.next_integer(token),
            TokenType::Bool => Ok(self.next_bool(token)),
            TokenType::LeftParen => {
                let inner = match self.next_binary(0) {
                    Ok(e) => e,
                    Err(e) => return Err(e),
                };
                let close = match self.peek() {
                    Some(Ok(c)) => c,
                    Some(Err(e)) => return Err(SyntaxError::Lexical(e)),
                    None => {
                        let end = self.last_span().hi;
                        return Err(
                            SyntaxError::UnexpectedEof {
                                expected: TokenType::RightParen,
                                span: Span::new(end, end),
                            },
                        );
                    },
                };
                if close.0 != TokenType::RightParen {
                    return Err(
                        SyntaxError::Expected {
                            expected: TokenType::RightParen,
                            found: close.0,
                            span: close.1,
                        },
                    );
                }
                self.next();
                let span = token.1.merge(close.1);
                Ok(span.span(ExprKind::Grouping(Box::new(inner))))
            },
            other => Err(SyntaxError::ExpectedOneOf { found: other, span: token.1 }),
        }
    }

    /// A string literal: the text between the quotes, copied out.
    fn next_string(&self, token: Token) -> (r: Expr)
        requires
            self.wf(),
            token.0 == TokenType::String,
            token_ok(self.stream().bytes, token),
        ensures
            tree_of(r) == Tree::Lit(ValueModel::Str(decode_utf8(text(self.stream(), token))), token.1),
    {
        let ghost b = self.source.spec_bytes();
        proof {
            broadcast use encode_utf8_valid_utf8, encode_utf8_decode_utf8;

            lemma_ascii_boundary(b, token.1.lo - 1);
            lemma_ascii_boundary(b, token.1.hi as int);
        }
        let slice = token.1.index(self.source);
        let string = slice.to_owned();
        proof {
            broadcast use encode_utf8_decode_utf8;

            assert(decode_utf8(text(self.stream(), token)) == decode_utf8(encode_utf8(slice@)));
        }
        token.1.span(ExprKind::Literal(Literal::String(string)))
    }

    /// An integer literal: its digits without separators, read by `lexical`.
    fn next_integer(&self, token: Token) -> (r: Result<Expr, SyntaxError>)
        requires
            self.wf(),
            token.0 == TokenType::Integer,
            token_ok(self.stream().bytes, token),
        ensures
            match int_literal(text(self.stream(), token)) {
                Some(v) => r matches Ok(e) && tree_of(e) == Tree::Lit(ValueModel::Int(v), token.1),
                None => r == Err::<Expr, SyntaxError>(SyntaxError::InvalidInteger { span: token.1 }),
            },
    {
        let bytes = self.source.as_bytes();
        let ghost b = bytes@;
        let lo = token.1.lo;
        let hi = token.1.hi;
        let mut digits: Vec<u8> = Vec::new();
        let mut i = lo;
        while i < hi
            invariant
                lo <= i <= hi <= b.len(),
                b == bytes@,
                lo < hi,
                is_decimal(b[lo as int]),
                forall|k: int| lo <= k < hi ==> is_digit_or_sep(#[trigger] b[k]),
                digits@ == strip_separators(b.subrange(lo as int, i as int)),
                all_decimal(digits@),
                i > lo ==> digits@.len() > 0,
            decreases hi - i,
        {
            let c = bytes[i];
            proof {
                let w = b.subrange(lo as int, i + 1);
                assert(w.drop_last() =~= b.subrange(lo as int, i as int));
                assert(w.last() == c);
            }
            if c != 95 {
                digits.push(c);
            }
            i = i + 1;
        }
        match parse_i64(digits.as_slice()) {
            Ok(v) => Ok(token.1.span(ExprKind::Literal(Literal::Int(v)))),
            Err(_) => Err(SyntaxError::InvalidInteger { span: token.1 }),
        }
    }

    /// A boolean literal: `true` or `false`.
    fn next_bool(&self, token: Token) -> (r: Expr)
        requires
            self.wf(),
            token_ok(self.stream().bytes, token),
        ensures
            tree_of(r) == Tree::Lit(ValueModel::Bool(text(self.stream(), token) == true_text()), token.1),
    {
        let bytes = self.source.as_bytes();
        let value = text_is(bytes, token.1.lo, token.1.hi, &[116u8, 114, 117, 101]);
        proof {
            assert(seq![116u8, 114, 117, 101] =~= true_text());
        }
        token.1.span(ExprKind::Literal(Literal::Bool(value)))
    }
}

} // verus!
