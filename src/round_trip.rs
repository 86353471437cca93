//! The round-trip law of the parser and the printer, and the facts about
//! the grammar and the lexer that it rests on.

use crate::ast::{binary_op_of, op_level, unary_op_of, BinaryOperation, Tree, UnaryOperation, ValueModel};
use crate::lexer::{
    digits_end, ident_end, is_decimal, is_digit_or_sep, is_letter, keyword_kind, lex_from,
    lex_step, string_end, token_ok,
};
use crate::parser::{
    decimal_value, look, parse_at, parse_expr, parse_rest, stream_of, strip_separators,
    text, true_text, Stream,
};
use crate::printer::{binary_text, decimal_bytes, print_bytes, unary_text};
use crate::token::{Token, TokenType};
use vstd::prelude::*;
use vstd::utf8::*;

verus! {

/// A tree without its spans.
pub enum Shape {
    Lit(ValueModel),
    Binary(Box<Shape>, BinaryOperation, Box<Shape>),
    Unary(UnaryOperation, Box<Shape>),
    Grouping(Box<Shape>),
    Call,
    Variable,
}

pub open spec fn erase(t: Tree) -> Shape
    decreases t,
{
    match t {
        Tree::Lit(v, _) => Shape::Lit(v),
        Tree::Binary(l, op, r, _) => Shape::Binary(Box::new(erase(*l)), op, Box::new(erase(*r))),
        Tree::Unary(op, e, _) => Shape::Unary(op, Box::new(erase(*e))),
        Tree::Grouping(e, _) => Shape::Grouping(Box::new(erase(*e))),
        Tree::Call(_) => Shape::Call,
        Tree::Variable(_) => Shape::Variable,
    }
}

pub open spec fn size(t: Tree) -> nat
    decreases t,
{
    match t {
        Tree::Binary(l, _, r, _) => 1 + size(*l) + size(*r),
        Tree::Unary(_, e, _) => 1 + size(*e),
        Tree::Grouping(e, _) => 1 + size(*e),
        _ => 1,
    }
}

/// Whether the bytes `w`, written between double quotes, lex as one string
/// whose contents are exactly `w`.
pub open spec fn safe_str(w: Seq<u8>) -> bool {
    string_end(w.push(34u8), 0) == Some(w.len())
}

/// Whether a tree is one that the grammar produces at level `lvl`: each
/// binary node sits at the level of its operator with a right operand one
/// level tighter, integer literals are not negative, strings read back as
/// themselves, and there are no calls or variables.
pub open spec fn fits(t: Tree, lvl: nat) -> bool
    decreases t, 6 - lvl,
{
    if lvl > 5 {
        false
    } else if lvl < 4 {
        match t {
            Tree::Binary(l, op, r, _) => if op_level(op) == lvl {
                fits(*l, lvl) && fits(*r, lvl + 1)
            } else {
                fits(t, lvl + 1)
            },
            _ => fits(t, lvl + 1),
        }
    } else if lvl == 4 {
        match t {
            Tree::Unary(_, e, _) => fits(*e, 4),
            _ => fits(t, 5),
        }
    } else {
        match t {
            Tree::Lit(ValueModel::Int(v), _) => v >= 0,
            Tree::Lit(ValueModel::Str(cs), _) => safe_str(encode_utf8(cs)),
            Tree::Lit(ValueModel::Bool(_), _) => true,
            Tree::Grouping(e, _) => fits(*e, 0),
            _ => false,
        }
    }
}

/// The leftmost operand of the chain of level-`lvl` operators at the top
/// of `t`.
pub open spec fn leftmost(t: Tree, lvl: nat) -> Tree
    decreases t,
{
    match t {
        Tree::Binary(l, op, _, _) => if op_level(op) == lvl {
            leftmost(*l, lvl)
        } else {
            t
        },
        _ => t,
    }
}

pub open spec fn is_level_binary(t: Tree, lvl: nat) -> bool {
    t matches Tree::Binary(_, op, _, _) && op_level(op) == lvl
}

pub open spec fn op_kind(op: BinaryOperation) -> TokenType {
    match op {
        BinaryOperation::Plus => TokenType::Plus,
        BinaryOperation::Minus => TokenType::Minus,
        BinaryOperation::Mul => TokenType::Star,
        BinaryOperation::Div => TokenType::Slash,
        BinaryOperation::NotEqual => TokenType::NotEqual,
        BinaryOperation::EqualEqual => TokenType::EqualEqual,
        BinaryOperation::Less => TokenType::Less,
        BinaryOperation::LessEqual => TokenType::LessEqual,
        BinaryOperation::Greater => TokenType::Greater,
        BinaryOperation::GreaterEqual => TokenType::GreaterEqual,
    }
}

pub open spec fn unary_kind(op: UnaryOperation) -> TokenType {
    match op {
        UnaryOperation::Not => TokenType::Bang,
        UnaryOperation::Negate => TokenType::Minus,
    }
}

pub open spec fn bool_text(b: bool) -> Seq<u8> {
    if b {
        seq![116u8, 114, 117, 101]
    } else {
        seq![102u8, 97, 108, 115, 101]
    }
}

/// The tokens of the printed form of a tree: each token's kind and text.
pub open spec fn toks(t: Tree) -> Seq<(TokenType, Seq<u8>)>
    decreases t,
{
    match t {
        Tree::Lit(ValueModel::Int(v), _) => seq![(TokenType::Integer, decimal_bytes(v as nat))],
        Tree::Lit(ValueModel::Str(cs), _) => seq![(TokenType::String, encode_utf8(cs))],
        Tree::Lit(ValueModel::Bool(b), _) => seq![(TokenType::Bool, bool_text(b))],
        Tree::Binary(l, op, r, _) => toks(*l) + seq![(op_kind(op), binary_text(op))] + toks(*r),
        Tree::Unary(op, e, _) => seq![(unary_kind(op), seq![unary_text(op)])] + toks(*e),
        Tree::Grouping(e, _) => seq![(TokenType::LeftParen, seq![40u8])] + toks(*e) + seq![
            (TokenType::RightParen, seq![41u8]),
        ],
        _ => seq![],
    }
}

/// Whether the tokens `ts` from index `i` have the kinds and texts `d`.
pub open spec fn shows_in(b: Seq<u8>, ts: Seq<Token>, i: nat, d: Seq<(TokenType, Seq<u8>)>) -> bool {
    &&& i + d.len() <= ts.len()
    &&& forall|k: int|
        0 <= k < d.len() ==> {
            &&& (#[trigger] ts[i + k]).0 == d[k].0
            &&& b.subrange(ts[i + k].1.lo as int, ts[i + k].1.hi as int) == d[k].1
        }
}

pub open spec fn shows(s: Stream, i: nat, d: Seq<(TokenType, Seq<u8>)>) -> bool {
    shows_in(s.bytes, s.tokens, i, d)
}

/// Whether what comes at index `k` ends an expression parsed at level
/// `lvl`: the end of the input, or a token that is no binary operator of
/// level `lvl` or tighter.
pub open spec fn ends_level(s: Stream, k: nat, lvl: nat) -> bool {
    match look(s, k) {
        None => true,
        Some(Err(_)) => false,
        Some(Ok(t)) => !(binary_op_of(t.0) matches Some(op) && op_level(op) >= lvl),
    }
}

/// Whether `source` is one whole expression: it lexes without error and
/// the expression parsed from its start uses every token.
pub open spec fn accepted(source: Seq<char>) -> bool {
    let s = stream_of(source);
    &&& s.error is None
    &&& parse_expr(s, 0) matches Ok((t, j))
    &&& j == s.tokens.len()
}


pub proof fn lemma_shows_split(b: Seq<u8>, ts: Seq<Token>, i: nat, d1: Seq<(TokenType, Seq<u8>)>, d2: Seq<(TokenType, Seq<u8>)>)
    requires
        shows_in(b, ts, i, d1 + d2),
    ensures
        shows_in(b, ts, i, d1),
        shows_in(b, ts, i + d1.len(), d2),
{
    let d = d1 + d2;
    assert forall|k: int| 0 <= k < d1.len() implies {
        &&& (#[trigger] ts[i + k]).0 == d1[k].0
        &&& b.subrange(ts[i + k].1.lo as int, ts[i + k].1.hi as int) == d1[k].1
    } by {
        assert(d[k] == d1[k]);
    }
    assert forall|k: int| 0 <= k < d2.len() implies {
        &&& (#[trigger] ts[(i + d1.len()) + k]).0 == d2[k].0
        &&& b.subrange(ts[(i + d1.len()) + k].1.lo as int, ts[(i + d1.len()) + k].1.hi as int) == d2[k].1
    } by {
        assert(d[d1.len() + k] == d2[k]);
        assert(ts[i + (d1.len() + k)] == ts[(i + d1.len()) + k]);
    }
}

pub proof fn lemma_decimal(v: nat)
    ensures
        strip_separators(decimal_bytes(v)) == decimal_bytes(v),
        decimal_value(decimal_bytes(v)) == v,
        decimal_bytes(v).len() >= 1,
        forall|k: int| 0 <= k < decimal_bytes(v).len() ==> is_decimal(#[trigger] decimal_bytes(v)[k]),
    decreases v,
{
    let w = decimal_bytes(v);
    if v < 10 {
        assert(w.drop_last() =~= Seq::<u8>::empty());
        assert(strip_separators(w.drop_last()) =~= Seq::<u8>::empty());
        assert(strip_separators(w) =~= w);
        assert(decimal_value(w.drop_last()) == 0);
        assert(w.last() == (48 + v) as u8);
        assert(decimal_value(w) == v);
    } else {
        lemma_decimal(v / 10);
        let p = decimal_bytes(v / 10);
        assert(w.drop_last() =~= p);
        assert(w.last() == (48 + v % 10) as u8);
        assert(decimal_value(w) == decimal_value(p) * 10 + v % 10);
        assert(v == (v / 10) * 10 + v % 10) by (nonlinear_arith);
        assert(decimal_value(w) == v);
        assert forall|k: int| 0 <= k < w.len() implies is_decimal(#[trigger] w[k]) by {
            if k < p.len() {
                assert(w[k] == p[k]);
            }
        }
    }
}

pub proof fn lemma_leftmost(t: Tree, lvl: nat)
    requires
        lvl <= 3,
        fits(t, lvl),
    ensures
        fits(leftmost(t, lvl), lvl + 1),
        size(leftmost(t, lvl)) <= size(t),
        toks(leftmost(t, lvl)).len() <= toks(t).len(),
        toks(t).subrange(0, toks(leftmost(t, lvl)).len() as int) == toks(leftmost(t, lvl)),
        is_level_binary(t, lvl) ==> {
            &&& toks(leftmost(t, lvl)).len() < toks(t).len()
            &&& binary_op_of(toks(t)[toks(leftmost(t, lvl)).len() as int].0) matches Some(op)
            &&& op_level(op) == lvl
        },
        !is_level_binary(t, lvl) ==> leftmost(t, lvl) == t,
    decreases t,
{
    match t {
        Tree::Binary(l, op, r, _) => {
            if op_level(op) == lvl {
                lemma_leftmost(*l, lvl);
                let lm = leftmost(*l, lvl);
                let tl = toks(*l);
                assert(toks(t) == tl + seq![(op_kind(op), binary_text(op))] + toks(*r));
                assert(toks(t).subrange(0, toks(lm).len() as int) =~= tl.subrange(0, toks(lm).len() as int));
                if is_level_binary(*l, lvl) {
                    assert(toks(t)[toks(lm).len() as int] == tl[toks(lm).len() as int]);
                } else {
                    assert(toks(t)[tl.len() as int] == (op_kind(op), binary_text(op)));
                }
            } else {
                assert(toks(t).subrange(0, toks(t).len() as int) =~= toks(t));
            }
        },
        _ => {
            assert(toks(t).subrange(0, toks(t).len() as int) =~= toks(t));
        },
    }
}

pub proof fn lemma_toks_nonempty(t: Tree, lvl: nat)
    requires
        fits(t, lvl),
    ensures
        toks(t).len() >= 1,
    decreases t, 6 - lvl,
{
    if lvl < 4 {
        if let Tree::Binary(l, op, r, _) = t {
            if op_level(op) == lvl {
                lemma_toks_nonempty(*l, lvl);
            } else {
                lemma_toks_nonempty(t, lvl + 1);
            }
        } else {
            lemma_toks_nonempty(t, lvl + 1);
        }
    } else if lvl == 4 {
        if let Tree::Unary(_, e, _) = t {
        } else {
            lemma_toks_nonempty(t, 5);
        }
    }
}

/// Parsing the tokens of a tree that fits level `lvl`, followed by what
/// ends that level, gives the tree back.
pub proof fn lemma_parse_back(s: Stream, lvl: nat, t: Tree, i: nat)
    requires
        lvl <= 5,
        fits(t, lvl),
        shows(s, i, toks(t)),
        ends_level(s, i + toks(t).len(), lvl),
    ensures
        parse_at(s, lvl, i) matches Ok((t2, j)) && erase(t2) == erase(t) && j == i + toks(t).len(),
    decreases size(t), 6 - lvl, 1int,
{
    broadcast use encode_utf8_decode_utf8;

    let n = toks(t).len();
    lemma_toks_nonempty(t, lvl);
    if lvl < 4 {
        lemma_leftmost(t, lvl);
        let lm = leftmost(t, lvl);
        let nl = toks(lm).len();
        assert(toks(t) =~= toks(lm) + toks(t).subrange(nl as int, n as int));
        lemma_shows_split(s.bytes, s.tokens, i, toks(lm), toks(t).subrange(nl as int, n as int));
        if is_level_binary(t, lvl) {
            assert(look(s, i + nl) == Some(Ok::<Token, crate::lexer::LexError>(s.tokens[i + nl as int])));
            assert(s.tokens[i + nl as int].0 == toks(t)[nl as int].0);
        }
        lemma_parse_back(s, lvl + 1, lm, i);
        let (lm2, j) = parse_at(s, lvl + 1, i)->Ok_0;
        lemma_toks_nonempty(lm, lvl + 1);
        let t2 = lemma_rest_back(s, lvl, t, i, lm2);
        assert(parse_at(s, lvl, i) == parse_rest(s, lvl, lm2, j));
        assert(parse_rest(s, lvl, t2, i + n) == Ok::<(Tree, nat), crate::parser::SyntaxError>((t2, i + n)));
    } else if lvl == 4 {
        if let Tree::Unary(op, e, sp) = t {
            assert(toks(t) == seq![(unary_kind(op), seq![unary_text(op)])] + toks(*e));
            lemma_shows_split(s.bytes, s.tokens, i, seq![(unary_kind(op), seq![unary_text(op)])], toks(*e));
            assert(s.tokens[i + 0int].0 == unary_kind(op));
            lemma_parse_back(s, 4, *e, i + 1);
        } else {
            assert(s.tokens[i + 0int].0 == toks(t)[0].0);
            lemma_parse_back(s, 5, t, i);
        }
    } else {
        assert(s.tokens[i + 0int].0 == toks(t)[0].0);
        let tok = s.tokens[i as int];
        assert(text(s, tok) == toks(t)[0].1);
        match t {
            Tree::Lit(ValueModel::Int(v), _) => {
                lemma_decimal(v as nat);
            },
            Tree::Lit(ValueModel::Bool(b), _) => {
                assert(bool_text(b) == true_text() <==> b) by {
                    if !b {
                        assert(bool_text(b).len() != true_text().len());
                    }
                }
            },
            Tree::Grouping(e, _) => {
                let open = seq![(TokenType::LeftParen, seq![40u8])];
                let close = seq![(TokenType::RightParen, seq![41u8])];
                assert(toks(t) == open + toks(*e) + close);
                lemma_shows_split(s.bytes, s.tokens, i, open + toks(*e), close);
                lemma_shows_split(s.bytes, s.tokens, i, open, toks(*e));
                let j = i + 1 + toks(*e).len();
                assert(s.tokens[j + 0int].0 == TokenType::RightParen);
                lemma_parse_back(s, 0, *e, i + 1);
            },
            _ => {},
        }
    }
}

/// Running the loop of binary level `lvl` over the operators of a tree's
/// top chain, from its leftmost operand `acc`, reaches the whole tree.
pub proof fn lemma_rest_back(s: Stream, lvl: nat, t: Tree, i: nat, acc: Tree) -> (t2: Tree)
    requires
        lvl <= 3,
        fits(t, lvl),
        shows(s, i, toks(t)),
        ends_level(s, i + toks(t).len(), lvl + 1),
        erase(acc) == erase(leftmost(t, lvl)),
    ensures
        erase(t2) == erase(t),
        parse_rest(s, lvl, acc, i + toks(leftmost(t, lvl)).len()) == parse_rest(s, lvl, t2, i + toks(t).len()),
    decreases size(t), 6 - lvl, 0int,
{
    if let Tree::Binary(l, op, r, sp) = t {
        if op_level(op) == lvl {
            let tl = toks(*l);
            let mid = seq![(op_kind(op), binary_text(op))];
            assert(toks(t) == tl + mid + toks(*r));
            lemma_shows_split(s.bytes, s.tokens, i, tl + mid, toks(*r));
            lemma_shows_split(s.bytes, s.tokens, i, tl, mid);
            let j = i + tl.len();
            assert(s.tokens[j + 0int].0 == op_kind(op));
            assert(look(s, j) == Some(Ok::<Token, crate::lexer::LexError>(s.tokens[j as int])));
            let l2 = lemma_rest_back(s, lvl, *l, i, acc);
            lemma_parse_back(s, lvl + 1, *r, j + 1);
            let (r2, k) = parse_at(s, lvl + 1, j + 1)->Ok_0;
            let t2 = Tree::Binary(
                Box::new(l2),
                op,
                Box::new(r2),
                crate::span::merge_spec(crate::ast::tree_span(l2), crate::ast::tree_span(r2)),
            );
            assert(parse_rest(s, lvl, l2, j) == parse_rest(s, lvl, t2, k));
            return t2;
        }
    }
    acc
}


/// A string scan depends only on the bytes it reads.
pub proof fn lemma_string_window(x: Seq<u8>, i: nat, y: Seq<u8>, j: nat, e: nat)
    requires
        i <= x.len(),
        string_end(x, i) == Some(e),
        j + (e - i) < y.len(),
        forall|k: int| 0 <= k <= e - i ==> y[j + k] == #[trigger] x[i + k],
    ensures
        string_end(y, j) == Some((j + (e - i)) as nat),
    decreases e - i,
{
    crate::lexer::lemma_string_end(x, i);
    assert(y[j + 0int] == x[i + 0int]);
    if x[i as int] == 34 {
    } else if x[i as int] == 92 && i + 1 < x.len() && x[i + 1int] == 34 {
        crate::lexer::lemma_string_end(x, i + 2);
        assert(y[j + 1int] == x[i + 1int]);
        assert forall|k: int| 0 <= k <= e - (i + 2) implies y[(j + 2) + k] == #[trigger] x[(i + 2) + k] by {
            assert(y[j + (k + 2)] == x[i + (k + 2)]);
        }
        lemma_string_window(x, i + 2, y, j + 2, e);
    } else {
        crate::lexer::lemma_string_end(x, i + 1);
        assert(i + 1 <= e);
        if x[i as int] == 92 {
            assert(y[j + 1int] == x[i + 1int]);
        }
        assert forall|k: int| 0 <= k <= e - (i + 1) implies y[(j + 1) + k] == #[trigger] x[(i + 1) + k] by {
            assert(y[j + (k + 1)] == x[i + (k + 1)]);
        }
        lemma_string_window(x, i + 1, y, j + 1, e);
    }
}

pub proof fn lemma_binary_not_tighter(t: Tree, m: nat)
    requires
        t matches Tree::Binary(_, op, _, _) && op_level(op) < m,
    ensures
        !fits(t, m),
    decreases 6 - m,
{
    if m < 4 {
        lemma_binary_not_tighter(t, m + 1);
    } else if m == 4 {
        lemma_binary_not_tighter(t, 5);
    }
}

pub proof fn lemma_fits_up(t: Tree, lvl: nat)
    requires
        lvl <= 3,
        fits(t, lvl + 1),
    ensures
        fits(t, lvl),
{
    if let Tree::Binary(_, op, _, _) = t {
        if op_level(op) == lvl {
            lemma_binary_not_tighter(t, lvl + 1);
        }
    }
}

pub open spec fn tokens_ok(s: Stream) -> bool {
    &&& valid_utf8(s.bytes)
    &&& forall|k: int| 0 <= k < s.tokens.len() ==> token_ok(s.bytes, #[trigger] s.tokens[k])
}

pub proof fn lemma_string_literal_fits(s: Stream, tok: Token)
    requires
        tokens_ok(s),
        token_ok(s.bytes, tok),
        tok.0 == TokenType::String,
    ensures
        safe_str(encode_utf8(decode_utf8(text(s, tok)))),
{
    broadcast use decode_utf8_encode_utf8;

    let b = s.bytes;
    let lo = tok.1.lo as int;
    let hi = tok.1.hi as int;
    let w = text(s, tok);
    crate::span::lemma_ascii_boundary(b, lo - 1);
    crate::span::lemma_ascii_boundary(b, hi);
    crate::span::lemma_boundary_shift(b, lo, hi);
    let tail = b.subrange(lo, b.len() as int);
    valid_utf8_split(b, lo);
    valid_utf8_split(tail, hi - lo);
    assert(tail.subrange(0, hi - lo) =~= w);
    let y = w.push(34u8);
    assert forall|k: int| 0 <= k <= hi - lo implies y[0 + k] == #[trigger] b[lo + k] by {
        if k < hi - lo {
            assert(y[k] == w[k]);
        }
    }
    lemma_string_window(b, lo as nat, y, 0, hi as nat);
}

/// What the parser produces at level `lvl` fits that level: operators of
/// one level chain to the left, each right operand is of a tighter level,
/// and prefix operators nest to the right.
pub proof fn lemma_parse_fits(s: Stream, lvl: nat, i: nat)
    requires
        lvl <= 5,
        tokens_ok(s),
    ensures
        parse_at(s, lvl, i) matches Ok((t, j)) ==> fits(t, lvl),
    decreases s.tokens.len() - i, 6 - lvl,
{
    if i <= s.tokens.len() {
        if lvl < 4 {
            lemma_parse_fits(s, lvl + 1, i);
            crate::parser::lemma_parse_advances(s, lvl + 1, i);
            if let Ok((l, j)) = parse_at(s, lvl + 1, i) {
                lemma_fits_up(l, lvl);
                lemma_rest_fits(s, lvl, l, j);
            }
        } else if lvl == 4 {
            lemma_parse_fits(s, 5, i);
            if let Some(Ok(t)) = look(s, i) {
                if unary_op_of(t.0) is Some {
                    lemma_parse_fits(s, 4, i + 1);
                }
            }
        } else {
            if let Some(Ok(t)) = look(s, i) {
                assert(token_ok(s.bytes, s.tokens[i as int]));
                if t.0 == TokenType::LeftParen {
                    lemma_parse_fits(s, 0, i + 1);
                } else if t.0 == TokenType::String {
                    lemma_string_literal_fits(s, t);
                }
            }
        }
    }
}

pub proof fn lemma_rest_fits(s: Stream, lvl: nat, left: Tree, j: nat)
    requires
        lvl <= 3,
        tokens_ok(s),
        fits(left, lvl),
    ensures
        parse_rest(s, lvl, left, j) matches Ok((t, k)) ==> fits(t, lvl),
    decreases s.tokens.len() - j, 0int,
{
    if j <= s.tokens.len() {
        if let Some(Ok(t)) = look(s, j) {
            if let Some(op) = binary_op_of(t.0) {
                if op_level(op) == lvl {
                    lemma_parse_fits(s, lvl + 1, j + 1);
                    if let Ok((r, k)) = parse_at(s, lvl + 1, j + 1) {
                        if j < k <= s.tokens.len() {
                            lemma_rest_fits(
                                s,
                                lvl,
                                Tree::Binary(
                                    Box::new(left),
                                    op,
                                    Box::new(r),
                                    crate::span::merge_spec(crate::ast::tree_span(left), crate::ast::tree_span(r)),
                                ),
                                k,
                            );
                        }
                    }
                }
            }
        }
    }
}


/// Whether a tree can be printed and read back: integers are not negative,
/// strings read back as themselves, and there are no calls or variables.
pub open spec fn printable(t: Tree) -> bool
    decreases t,
{
    match t {
        Tree::Lit(ValueModel::Int(v), _) => v >= 0,
        Tree::Lit(ValueModel::Str(cs), _) => safe_str(encode_utf8(cs)),
        Tree::Lit(ValueModel::Bool(_), _) => true,
        Tree::Binary(l, _, r, _) => printable(*l) && printable(*r),
        Tree::Unary(_, e, _) => printable(*e),
        Tree::Grouping(e, _) => printable(*e),
        _ => false,
    }
}

pub open spec fn starts_operand(c: u8) -> bool {
    is_decimal(c) || c == 34 || c == 116 || c == 102 || c == 33 || c == 45 || c == 40
}

pub proof fn lemma_fits_printable(t: Tree, lvl: nat)
    requires
        fits(t, lvl),
    ensures
        printable(t),
    decreases t, 6 - lvl,
{
    if lvl < 4 {
        if let Tree::Binary(l, op, r, _) = t {
            if op_level(op) == lvl {
                lemma_fits_printable(*l, lvl);
                lemma_fits_printable(*r, lvl + 1);
            } else {
                lemma_fits_printable(t, lvl + 1);
            }
        } else {
            lemma_fits_printable(t, lvl + 1);
        }
    } else if lvl == 4 {
        if let Tree::Unary(_, e, _) = t {
            lemma_fits_printable(*e, 4);
        } else {
            lemma_fits_printable(t, 5);
        }
    } else if let Tree::Grouping(e, _) = t {
        lemma_fits_printable(*e, 0);
    }
}

pub proof fn lemma_print_start(t: Tree)
    requires
        printable(t),
    ensures
        print_bytes(t).len() >= 1,
        starts_operand(print_bytes(t)[0]),
    decreases t,
{
    match t {
        Tree::Lit(ValueModel::Int(v), _) => {
            lemma_decimal(v as nat);
        },
        Tree::Binary(l, op, r, _) => {
            lemma_print_start(*l);
            let pl = print_bytes(*l);
            assert(print_bytes(t) == pl + seq![32u8] + binary_text(op) + seq![32u8] + print_bytes(*r));
            assert(print_bytes(t)[0] == pl[0]);
        },
        _ => {},
    }
}

pub proof fn lemma_shows_concat(b: Seq<u8>, x: Seq<Token>, d1: Seq<(TokenType, Seq<u8>)>, y: Seq<Token>, d2: Seq<(TokenType, Seq<u8>)>)
    requires
        shows_in(b, x, 0, d1),
        x.len() == d1.len(),
        shows_in(b, y, 0, d2),
        y.len() == d2.len(),
    ensures
        shows_in(b, x + y, 0, d1 + d2),
{
    let xy = x + y;
    let d = d1 + d2;
    assert forall|k: int| 0 <= k < d.len() implies {
        &&& (#[trigger] xy[0 + k]).0 == d[k].0
        &&& b.subrange(xy[0 + k].1.lo as int, xy[0 + k].1.hi as int) == d[k].1
    } by {
        if k < d1.len() {
            assert(xy[k] == x[0 + k]);
        } else {
            assert(xy[k] == y[0 + (k - d1.len())]);
        }
    }
}

pub proof fn lemma_lex_token(b: Seq<u8>, p: nat)
    requires
        p <= b.len() <= usize::MAX,
        lex_step(b, p) is Tok,
    ensures
        ({
            let (tok, q) = (lex_step(b, p)->Tok_0, lex_step(b, p)->Tok_1);
            lex_from(b, p) == (seq![tok] + lex_from(b, q).0, lex_from(b, q).1)
        }),
{
    crate::lexer::lemma_step_advances(b, p);
}

pub proof fn lemma_space(b: Seq<u8>, q: nat)
    requires
        q < b.len() <= usize::MAX,
        b[q as int] == 32,
    ensures
        lex_from(b, q) == lex_from(b, q + 1),
{
    crate::lexer::lemma_step_advances(b, q + 1);
    assert(lex_step(b, q) == lex_step(b, q + 1));
}

pub proof fn lemma_digits_run(b: Seq<u8>, k: nat, e: nat)
    requires
        k <= e <= b.len(),
        forall|m: int| k <= m < e ==> is_digit_or_sep(#[trigger] b[m]),
        e == b.len() || !is_digit_or_sep(b[e as int]),
    ensures
        digits_end(b, k) == e,
    decreases e - k,
{
    if k < e {
        lemma_digits_run(b, k + 1, e);
    }
}

pub proof fn lemma_ident_run(b: Seq<u8>, k: nat, e: nat)
    requires
        k <= e <= b.len(),
        forall|m: int| k <= m < e ==> is_letter(#[trigger] b[m]),
        e == b.len() || !is_letter(b[e as int]),
    ensures
        ident_end(b, k) == e,
    decreases e - k,
{
    if k < e {
        lemma_ident_run(b, k + 1, e);
    }
}

pub open spec fn printed_at(b: Seq<u8>, p: nat, t: Tree) -> bool {
    &&& printable(t)
    &&& b.len() <= usize::MAX
    &&& p + print_bytes(t).len() <= b.len()
    &&& b.subrange(p as int, p + print_bytes(t).len() as int) == print_bytes(t)
    &&& (p + print_bytes(t).len() == b.len() || b[p + print_bytes(t).len() as int] == 32
        || b[p + print_bytes(t).len() as int] == 41)
}

pub open spec fn lexes_as(b: Seq<u8>, p: nat, t: Tree, x: Seq<Token>) -> bool {
    &&& lex_from(b, p).0 == x + lex_from(b, p + print_bytes(t).len()).0
    &&& lex_from(b, p).1 == lex_from(b, p + print_bytes(t).len()).1
    &&& x.len() == toks(t).len()
    &&& shows_in(b, x, 0, toks(t))
}

pub proof fn lemma_lex_int(b: Seq<u8>, p: nat, t: Tree) -> (x: Seq<Token>)
    requires
        printed_at(b, p, t),
        t matches Tree::Lit(ValueModel::Int(_), _),
    ensures
        lexes_as(b, p, t, x),
    decreases t, 0int,
{
    let pt = print_bytes(t);
    let len = pt.len();
    let end = p + len;
    lemma_print_start(t);
    assert(b[p as int] == pt[0]);
    if let Tree::Lit(ValueModel::Int(v), sp) = t {
        lemma_decimal(v as nat);
        assert forall|m: int| p + 1 <= m < end implies is_digit_or_sep(#[trigger] b[m]) by {
            assert(b[m] == pt[m - p]);
        }
        lemma_digits_run(b, p + 1, end);
        lemma_lex_token(b, p);
        let tok = lex_step(b, p)->Tok_0;
        assert(b.subrange(tok.1.lo as int, tok.1.hi as int) == pt);
        let x = seq![tok];
        assert(x[0 + 0int] == tok);
        x
    } else {
        seq![]
    }
}

pub proof fn lemma_lex_bool(b: Seq<u8>, p: nat, t: Tree) -> (x: Seq<Token>)
    requires
        printed_at(b, p, t),
        t matches Tree::Lit(ValueModel::Bool(_), _),
    ensures
        lexes_as(b, p, t, x),
    decreases t, 0int,
{
    let pt = print_bytes(t);
    let len = pt.len();
    let end = p + len;
    lemma_print_start(t);
    assert(b[p as int] == pt[0]);
    if let Tree::Lit(ValueModel::Bool(v), sp) = t {
        assert forall|m: int| p + 1 <= m < end implies is_letter(#[trigger] b[m]) by {
            assert(b[m] == pt[m - p]);
        }
        lemma_ident_run(b, p + 1, end);
        assert(b.subrange(p as int, end as int) == bool_text(v));
        assert(keyword_kind(bool_text(v)) == TokenType::Bool) by {
            if v {
                assert(bool_text(v) =~= seq![116u8, 114, 117, 101]);
                assert(bool_text(v)[0] != 108 && bool_text(v)[0] != 101);
            } else {
                assert(bool_text(v) =~= seq![102u8, 97, 108, 115, 101]);
                assert(bool_text(v)[0] != 119 && bool_text(v)[0] != 98);
            }
        }
        lemma_lex_token(b, p);
        let tok = lex_step(b, p)->Tok_0;
        let x = seq![tok];
        assert(x[0 + 0int] == tok);
        x
    } else {
        seq![]
    }
}

pub proof fn lemma_lex_str(b: Seq<u8>, p: nat, t: Tree) -> (x: Seq<Token>)
    requires
        printed_at(b, p, t),
        t matches Tree::Lit(ValueModel::Str(_), _),
    ensures
        lexes_as(b, p, t, x),
    decreases t, 0int,
{
    let pt = print_bytes(t);
    let len = pt.len();
    let end = p + len;
    lemma_print_start(t);
    assert(b[p as int] == pt[0]);
    if let Tree::Lit(ValueModel::Str(cs), sp) = t {
        let w = encode_utf8(cs);
        let y = w.push(34u8);
        assert forall|k: int| 0 <= k <= w.len() implies b[(p + 1) + k] == #[trigger] y[0 + k] by {
            assert(b[(p + 1) + k] == pt[1 + k]);
            if k < w.len() {
                assert(pt[1 + k] == w[k]);
            }
        }
        lemma_string_window(y, 0, b, p + 1, w.len());
        lemma_lex_token(b, p);
        let tok = lex_step(b, p)->Tok_0;
        assert(b.subrange(tok.1.lo as int, tok.1.hi as int) =~= w) by {
            assert forall|k: int| 0 <= k < w.len() implies b.subrange(tok.1.lo as int, tok.1.hi as int)[k] == w[k] by {
                assert(b[(p + 1) + k] == y[0 + k]);
            }
        }
        let x = seq![tok];
        assert(x[0 + 0int] == tok);
        x
    } else {
        seq![]
    }
}

/// A window of a printed text within the bytes.
pub proof fn lemma_window(b: Seq<u8>, p: nat, pt: Seq<u8>, off: nat, part: Seq<u8>)
    requires
        p + pt.len() <= b.len(),
        b.subrange(p as int, p + pt.len() as int) == pt,
        off + part.len() <= pt.len(),
        pt.subrange(off as int, off + part.len() as int) == part,
    ensures
        b.subrange(p + off as int, p + off + part.len() as int) == part,
        forall|k: int| 0 <= k < part.len() ==> b[p + off + k] == #[trigger] part[k],
{
    assert forall|k: int| 0 <= k < part.len() implies b[p + off + k] == #[trigger] part[k] by {
        assert(b.subrange(p as int, p + pt.len() as int)[off + k] == b[p + off + k]);
        assert(pt.subrange(off as int, off + part.len() as int)[k] == pt[off + k]);
    }
    assert(b.subrange(p + off as int, p + off + part.len() as int) =~= part);
}

/// The text of a binary operator, followed by a space, lexes as one token.
pub proof fn lemma_lex_op(b: Seq<u8>, q: nat, op: BinaryOperation) -> (tok: Token)
    requires
        b.len() <= usize::MAX,
        q + binary_text(op).len() < b.len(),
        b.subrange(q as int, q + binary_text(op).len() as int) == binary_text(op),
        b[q + binary_text(op).len() as int] == 32,
    ensures
        lex_from(b, q) == (seq![tok] + lex_from(b, q + binary_text(op).len()).0, lex_from(b, q + binary_text(op).len()).1),
        tok.0 == op_kind(op),
        b.subrange(tok.1.lo as int, tok.1.hi as int) == binary_text(op),
{
    let tx = binary_text(op);
    assert(b[q as int] == b.subrange(q as int, q + tx.len() as int)[0]);
    if tx.len() == 2 {
        assert(b[q + 1int] == b.subrange(q as int, q + tx.len() as int)[1]);
    }
    lemma_lex_token(b, q);
    lex_step(b, q)->Tok_0
}

#[verifier::rlimit(50)]
pub proof fn lemma_lex_binary(b: Seq<u8>, p: nat, t: Tree) -> (x: Seq<Token>)
    requires
        printed_at(b, p, t),
        t matches Tree::Binary(..),
    ensures
        lexes_as(b, p, t, x),
    decreases t, 0int,
{
    let pt = print_bytes(t);
    let end = p + pt.len();
    if let Tree::Binary(l, op, r, sp) = t {
        let pl = print_bytes(*l);
        let tx = binary_text(op);
        let pr = print_bytes(*r);
        assert(pt == pl + seq![32u8] + tx + seq![32u8] + pr);
        let a = p + pl.len();
        let q = a + 1;
        let rs = q + tx.len() + 1;
        assert(pt.subrange(0, pl.len() as int) =~= pl);
        lemma_window(b, p, pt, 0, pl);
        assert(pt.subrange(pl.len() as int, pl.len() + 1int) =~= seq![32u8]);
        lemma_window(b, p, pt, pl.len(), seq![32u8]);
        assert(pt.subrange(pl.len() + 1int, pl.len() + 1 + tx.len() as int) =~= tx);
        lemma_window(b, p, pt, pl.len() + 1, tx);
        assert(pt.subrange(pl.len() + 1 + tx.len() as int, pl.len() + 2 + tx.len() as int) =~= seq![32u8]);
        lemma_window(b, p, pt, pl.len() + 1 + tx.len(), seq![32u8]);
        assert(pt.subrange(pl.len() + 2 + tx.len() as int, pt.len() as int) =~= pr);
        lemma_window(b, p, pt, pl.len() + 2 + tx.len(), pr);
        assert(b[a as int] == 32) by {
            assert(b[p + pl.len() + 0int] == seq![32u8][0]);
        }
        assert(b[q + tx.len() as int] == 32) by {
            assert(b[p + (pl.len() + 1 + tx.len()) + 0int] == seq![32u8][0]);
        }
        let xl = lemma_lex_printed(b, p, *l);
        lemma_space(b, a);
        let tok = lemma_lex_op(b, q, op);
        lemma_space(b, q + tx.len());
        let xr = lemma_lex_printed(b, rs, *r);
        let xm = seq![tok];
        assert(xm[0 + 0int] == tok);
        lemma_shows_concat(b, xl, toks(*l), xm, seq![(op_kind(op), tx)]);
        lemma_shows_concat(b, xl + xm, toks(*l) + seq![(op_kind(op), tx)], xr, toks(*r));
        assert(lex_from(b, p).0 =~= (xl + xm + xr) + lex_from(b, end).0);
        xl + xm + xr
    } else {
        seq![]
    }
}

pub proof fn lemma_lex_unary(b: Seq<u8>, p: nat, t: Tree) -> (x: Seq<Token>)
    requires
        printed_at(b, p, t),
        t matches Tree::Unary(..),
    ensures
        lexes_as(b, p, t, x),
    decreases t, 0int,
{
    let pt = print_bytes(t);
    let len = pt.len();
    let end = p + len;
    lemma_print_start(t);
    assert(b[p as int] == pt[0]);
    if let Tree::Unary(op, e, sp) = t {
        let pe = print_bytes(*e);
        assert(pt == seq![unary_text(op)] + pe);
        lemma_print_start(*e);
        assert(b[p + 1int] == pt[1]);
        assert(b.subrange(p + 1int, end as int) =~= pe) by {
            assert forall|k: int| 0 <= k < pe.len() implies b.subrange(p + 1int, end as int)[k] == pe[k] by {
                assert(b[(p + 1) + k] == pt[1 + k]);
            }
        }
        lemma_lex_token(b, p);
        let tok = lex_step(b, p)->Tok_0;
        assert(b.subrange(tok.1.lo as int, tok.1.hi as int) =~= seq![unary_text(op)]);
        let xe = lemma_lex_printed(b, p + 1, *e);
        let xm = seq![tok];
        assert(xm[0 + 0int] == tok);
        lemma_shows_concat(b, xm, seq![(unary_kind(op), seq![unary_text(op)])], xe, toks(*e));
        assert(lex_from(b, p).0 =~= (xm + xe) + lex_from(b, end).0);
        xm + xe
    } else {
        seq![]
    }
}

#[verifier::rlimit(50)]
pub proof fn lemma_lex_grouping(b: Seq<u8>, p: nat, t: Tree) -> (x: Seq<Token>)
    requires
        printed_at(b, p, t),
        t matches Tree::Grouping(..),
    ensures
        lexes_as(b, p, t, x),
    decreases t, 0int,
{
    let pt = print_bytes(t);
    let end = p + pt.len();
    if let Tree::Grouping(e, sp) = t {
        let pe = print_bytes(*e);
        assert(pt == seq![40u8] + pe + seq![41u8]);
        let c = p + 1 + pe.len();
        assert(pt.subrange(0, 1) =~= seq![40u8]);
        lemma_window(b, p, pt, 0, seq![40u8]);
        assert(pt.subrange(1, 1 + pe.len() as int) =~= pe);
        lemma_window(b, p, pt, 1, pe);
        assert(pt.subrange(1 + pe.len() as int, pt.len() as int) =~= seq![41u8]);
        lemma_window(b, p, pt, 1 + pe.len(), seq![41u8]);
        assert(b[p as int] == 40) by {
            assert(b[p + 0 + 0int] == seq![40u8][0]);
        }
        assert(b[c as int] == 41) by {
            assert(b[p + (1 + pe.len()) + 0int] == seq![41u8][0]);
        }
        lemma_lex_token(b, p);
        let open = lex_step(b, p)->Tok_0;
        assert(b.subrange(open.1.lo as int, open.1.hi as int) =~= seq![40u8]);
        let xe = lemma_lex_printed(b, p + 1, *e);
        lemma_lex_token(b, c);
        let close = lex_step(b, c)->Tok_0;
        assert(b.subrange(close.1.lo as int, close.1.hi as int) =~= seq![41u8]);
        let xo = seq![open];
        let xc = seq![close];
        assert(xo[0 + 0int] == open);
        assert(xc[0 + 0int] == close);
        lemma_shows_concat(b, xo, seq![(TokenType::LeftParen, seq![40u8])], xe, toks(*e));
        lemma_shows_concat(
            b,
            xo + xe,
            seq![(TokenType::LeftParen, seq![40u8])] + toks(*e),
            xc,
            seq![(TokenType::RightParen, seq![41u8])],
        );
        assert(lex_from(b, p).0 =~= (xo + xe + xc) + lex_from(b, end).0);
        xo + xe + xc
    } else {
        seq![]
    }
}

/// Lexing the printed form of a tree, followed by a space, a `)` or the
/// end, gives the tree's tokens and then what follows.
pub proof fn lemma_lex_printed(b: Seq<u8>, p: nat, t: Tree) -> (x: Seq<Token>)
    requires
        printed_at(b, p, t),
    ensures
        lexes_as(b, p, t, x),
    decreases t, 1int,
{
    match t {
        Tree::Lit(ValueModel::Int(_), _) => lemma_lex_int(b, p, t),
        Tree::Lit(ValueModel::Bool(_), _) => lemma_lex_bool(b, p, t),
        Tree::Lit(ValueModel::Str(_), _) => lemma_lex_str(b, p, t),
        Tree::Binary(..) => lemma_lex_binary(b, p, t),
        Tree::Unary(..) => lemma_lex_unary(b, p, t),
        Tree::Grouping(..) => lemma_lex_grouping(b, p, t),
        _ => seq![],
    }
}


/// The tree of an accepted source text.
pub open spec fn tree_of_source(source: Seq<char>) -> Tree {
    (parse_expr(stream_of(source), 0)->Ok_0).0
}

/// Round trip: print the tree of an accepted expression, parse the printed
/// text, and the same tree comes back, up to spans. The texts are ones that
/// fit in memory.
pub proof fn lemma_print_parse_round_trip(source: Seq<char>, printed: Seq<char>)
    requires
        accepted(source),
        encode_utf8(source).len() <= usize::MAX,
        encode_utf8(printed).len() <= usize::MAX,
        encode_utf8(printed) == print_bytes(tree_of_source(source)),
    ensures
        accepted(printed),
        erase(tree_of_source(printed)) == erase(tree_of_source(source)),
{
    broadcast use encode_utf8_valid_utf8;

    let s = stream_of(source);
    let t = tree_of_source(source);
    crate::lexer::lemma_lex_from_ok(encode_utf8(source), 0);
    assert(tokens_ok(s));
    lemma_parse_fits(s, 0, 0);
    lemma_fits_printable(t, 0);
    let b2 = encode_utf8(printed);
    let s2 = stream_of(printed);
    assert(b2.subrange(0, b2.len() as int) =~= b2);
    let x = lemma_lex_printed(b2, 0, t);
    assert(lex_step(b2, b2.len()) is End);
    assert(lex_from(b2, b2.len()) == (Seq::<Token>::empty(), None::<crate::lexer::LexError>));
    assert(s2.tokens =~= x);
    assert(s2.error is None);
    lemma_parse_back(s2, 0, t, 0);
}

} // verus!
