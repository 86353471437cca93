use crate::ast::{tree_of, BinaryOperation, Expr, ExprKind, Literal, Tree, UnaryOperation, ValueModel};
use vstd::prelude::*;
use vstd::string::*;
use vstd::utf8::*;

verus! {

broadcast use is_ascii_chars_encode_utf8;

/// The decimal digits of `v`, most significant first, as ASCII bytes.
pub open spec fn decimal_bytes(v: nat) -> Seq<u8>
    decreases v,
{
    if v < 10 {
        seq![(48 + v) as u8]
    } else {
        decimal_bytes(v / 10).push((48 + v % 10) as u8)
    }
}

pub open spec fn binary_text(op: BinaryOperation) -> Seq<u8> {
    match op {
        BinaryOperation::Plus => seq![43u8],
        BinaryOperation::Minus => seq![45u8],
        BinaryOperation::Mul => seq![42u8],
        BinaryOperation::Div => seq![47u8],
        BinaryOperation::NotEqual => seq![33u8, 61],
        BinaryOperation::EqualEqual => seq![61u8, 61],
        BinaryOperation::Less => seq![60u8],
        BinaryOperation::LessEqual => seq![60u8, 61],
        BinaryOperation::Greater => seq![62u8],
        BinaryOperation::GreaterEqual => seq![62u8, 61],
    }
}

pub open spec fn unary_text(op: UnaryOperation) -> u8 {
    match op {
        UnaryOperation::Not => 33u8,
        UnaryOperation::Negate => 45u8,
    }
}

/// The UTF-8 text of an expression: binary operators between single
/// spaces, prefix operators and parentheses written tight, strings between
/// double quotes as they are held, and `?` for a call or a variable, whose
/// names live in an interner.
pub open spec fn print_bytes(t: Tree) -> Seq<u8>
    decreases t,
{
    match t {
        Tree::Lit(ValueModel::Int(v), _) => if v >= 0 {
            decimal_bytes(v as nat)
        } else {
            seq![45u8] + decimal_bytes((-v) as nat)
        },
        Tree::Lit(ValueModel::Str(cs), _) => seq![34u8] + encode_utf8(cs) + seq![34u8],
        Tree::Lit(ValueModel::Bool(b), _) => if b {
            seq![116u8, 114, 117, 101]
        } else {
            seq![102u8, 97, 108, 115, 101]
        },
        Tree::Binary(l, op, r, _) => print_bytes(*l) + seq![32u8] + binary_text(op) + seq![32u8]
            + print_bytes(*r),
        Tree::Unary(op, e, _) => seq![unary_text(op)] + print_bytes(*e),
        Tree::Grouping(e, _) => seq![40u8] + print_bytes(*e) + seq![41u8],
        Tree::Call(_) => seq![63u8],
        Tree::Variable(_) => seq![63u8],
    }
}

pub proof fn lemma_encode_append(a: Seq<char>, b: Seq<char>)
    ensures
        encode_utf8(a + b) == encode_utf8(a) + encode_utf8(b),
    decreases a.len(),
{
    if a.len() == 0 {
        assert(a + b =~= b);
    } else {
        lemma_encode_append(a.drop_first(), b);
        assert((a + b).drop_first() =~= a.drop_first() + b);
        assert((a + b)[0] == a[0]);
    }
}

/// Appends ASCII text, and keeps track of the bytes.
fn append_ascii(out: &mut String, piece: &str)
    requires
        is_ascii_chars(piece@),
    ensures
        final(out)@ == old(out)@ + piece@,
        encode_utf8(final(out)@) == encode_utf8(old(out)@) + piece@.map_values(|c: char| c as u8),
{
    out.append(piece);
    proof {
        lemma_encode_append(old(out)@, piece@);
        assert(encode_utf8(piece@) =~= piece@.map_values(|c: char| c as u8));
    }
}

fn digit_text(d: u64) -> (r: &'static str)
    requires
        d < 10,
    ensures
        is_ascii_chars(r@),
        r@.map_values(|c: char| c as u8) == seq![(48 + d) as u8],
{
    let r = if d == 0 {
        "0"
    } else if d == 1 {
        "1"
    } else if d == 2 {
        "2"
    } else if d == 3 {
        "3"
    } else if d == 4 {
        "4"
    } else if d == 5 {
        "5"
    } else if d == 6 {
        "6"
    } else if d == 7 {
        "7"
    } else if d == 8 {
        "8"
    } else {
        "9"
    };
    proof {
        reveal_strlit("0");
        reveal_strlit("1");
        reveal_strlit("2");
        reveal_strlit("3");
        reveal_strlit("4");
        reveal_strlit("5");
        reveal_strlit("6");
        reveal_strlit("7");
        reveal_strlit("8");
        reveal_strlit("9");
        assert(r@.map_values(|c: char| c as u8) =~= seq![(48 + d) as u8]);
    }
    r
}

/// Appends the decimal digits of `v`.
fn append_decimal(out: &mut String, v: u64)
    ensures
        encode_utf8(final(out)@) == encode_utf8(old(out)@) + decimal_bytes(v as nat),
    decreases v,
{
    if v >= 10 {
        append_decimal(out, v / 10);
    }
    let piece = digit_text(v % 10);
    append_ascii(out, piece);
    proof {
        if v >= 10 {
            assert(encode_utf8(out@) =~= encode_utf8(old(out)@) + decimal_bytes(v as nat));
        } else {
            assert(encode_utf8(out@) =~= encode_utf8(old(out)@) + decimal_bytes(v as nat));
        }
    }
}


fn binary_piece(op: BinaryOperation) -> (r: &'static str)
    ensures
        is_ascii_chars(r@),
        r@.map_values(|c: char| c as u8) == seq![32u8] + binary_text(op) + seq![32u8],
{
    let r = match op {
        BinaryOperation::Plus => " + ",
        BinaryOperation::Minus => " - ",
        BinaryOperation::Mul => " * ",
        BinaryOperation::Div => " / ",
        BinaryOperation::NotEqual => " != ",
        BinaryOperation::EqualEqual => " == ",
        BinaryOperation::Less => " < ",
        BinaryOperation::LessEqual => " <= ",
        BinaryOperation::Greater => " > ",
        BinaryOperation::GreaterEqual => " >= ",
    };
    proof {
        reveal_strlit(" + ");
        reveal_strlit(" - ");
        reveal_strlit(" * ");
        reveal_strlit(" / ");
        reveal_strlit(" != ");
        reveal_strlit(" == ");
        reveal_strlit(" < ");
        reveal_strlit(" <= ");
        reveal_strlit(" > ");
        reveal_strlit(" >= ");
        assert(r@.map_values(|c: char| c as u8) =~= seq![32u8] + binary_text(op) + seq![32u8]);
    }
    r
}

/// One of the fixed ASCII pieces of the printed form, chosen by `which`:
/// `!`, `-`, a double quote, `(`, `)`, `true`, `false` or `?`.
fn ascii_piece(which: u8) -> (r: &'static str)
    requires
        which < 8,
    ensures
        is_ascii_chars(r@),
        r@.map_values(|c: char| c as u8) == (if which == 0 {
            seq![33u8]
        } else if which == 1 {
            seq![45u8]
        } else if which == 2 {
            seq![34u8]
        } else if which == 3 {
            seq![40u8]
        } else if which == 4 {
            seq![41u8]
        } else if which == 5 {
            seq![116u8, 114, 117, 101]
        } else if which == 6 {
            seq![102u8, 97, 108, 115, 101]
        } else {
            seq![63u8]
        }),
{
    let r = if which == 0 {
        "!"
    } else if which == 1 {
        "-"
    } else if which == 2 {
        "\""
    } else if which == 3 {
        "("
    } else if which == 4 {
        ")"
    } else if which == 5 {
        "true"
    } else if which == 6 {
        "false"
    } else {
        "?"
    };
    proof {
        reveal_strlit("!");
        reveal_strlit("-");
        reveal_strlit("\"");
        reveal_strlit("(");
        reveal_strlit(")");
        reveal_strlit("true");
        reveal_strlit("false");
        reveal_strlit("?");
        assert(r@.map_values(|c: char| c as u8) =~= (if which == 0 {
            seq![33u8]
        } else if which == 1 {
            seq![45u8]
        } else if which == 2 {
            seq![34u8]
        } else if which == 3 {
            seq![40u8]
        } else if which == 4 {
            seq![41u8]
        } else if which == 5 {
            seq![116u8, 114, 117, 101]
        } else if which == 6 {
            seq![102u8, 97, 108, 115, 101]
        } else {
            seq![63u8]
        }));
    }
    r
}

/// Appends the text of `e`.
fn write_expr(out: &mut String, e: &Expr)
    ensures
        encode_utf8(final(out)@) == encode_utf8(old(out)@) + print_bytes(tree_of(*e)),
    decreases e,
{
    let ghost start = encode_utf8(out@);
    match &e.0 {
        ExprKind::Literal(Literal::Int(v)) => {
            if *v >= 0 {
                append_decimal(out, *v as u64);
            } else {
                append_ascii(out, ascii_piece(1));
                let magnitude: u64 = (-(*v + 1)) as u64 + 1;
                append_decimal(out, magnitude);
            }
            proof {
                assert(encode_utf8(out@) =~= start + print_bytes(tree_of(*e)));
            }
        },
        ExprKind::Literal(Literal::String(s)) => {
            append_ascii(out, ascii_piece(2));
            let ghost mid = out@;
            out.append(s.as_str());
            proof {
                lemma_encode_append(mid, s@);
            }
            append_ascii(out, ascii_piece(2));
            proof {
                assert(encode_utf8(out@) =~= start + print_bytes(tree_of(*e)));
            }
        },
        ExprKind::Literal(Literal::Bool(b)) => {
            append_ascii(out, ascii_piece(if *b { 5 } else { 6 }));
            proof {
                assert(encode_utf8(out@) =~= start + print_bytes(tree_of(*e)));
            }
        },
        ExprKind::Binary { left, op, right } => {
            write_expr(out, left);
            append_ascii(out, binary_piece(*op));
            write_expr(out, right);
            proof {
                assert(encode_utf8(out@) =~= start + print_bytes(tree_of(*e)));
            }
        },
        ExprKind::Unary { op, expr } => {
            append_ascii(out, ascii_piece(if *op == UnaryOperation::Not { 0 } else { 1 }));
            write_expr(out, expr);
            proof {
                assert(encode_utf8(out@) =~= start + print_bytes(tree_of(*e)));
            }
        },
        ExprKind::Grouping(inner) => {
            append_ascii(out, ascii_piece(3));
            write_expr(out, inner);
            append_ascii(out, ascii_piece(4));
            proof {
                assert(encode_utf8(out@) =~= start + print_bytes(tree_of(*e)));
            }
        },
        ExprKind::Call { .. } | ExprKind::Variable(_) => {
            append_ascii(out, ascii_piece(7));
            proof {
                assert(encode_utf8(out@) =~= start + print_bytes(tree_of(*e)));
            }
        },
    }
}

/// The text of an expression; see [`print_bytes`] for its form. For
/// what the parser produces, parsing this text gives back the same tree
/// (see the round-trip law of the parser).
pub fn print_expr(e: &Expr) -> (r: String)
    ensures
        encode_utf8(r@) == print_bytes(tree_of(*e)),
{
    let mut out = String::new();
    write_expr(&mut out, e);
    proof {
        assert(encode_utf8(Seq::<char>::empty()) =~= Seq::<u8>::empty());
        assert(encode_utf8(out@) =~= print_bytes(tree_of(*e)));
    }
    out
}

} // verus!
