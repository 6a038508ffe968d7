//! How the analyser's messages show types, paths, literals and operators:
//! the notation that `{:?}` gives for them, and equality of labels, paths
//! and types.

use vstd::prelude::*;
use crate::text::{push_text, push_debug_quoted, str_debug, push_decimal, signed_dec, dec,
    signed_decimal_string, same_text};
use crate::parser::ir::{BinOp, Ident, Label, LiteralV, Literal, Path, PrimType, Type, TypeV,
    ident_values, digit_values};

verus! {

/// `Bool`, `I32`, `I64`, `U32` or `F64`.
pub open spec fn prim_name(p: PrimType) -> Seq<char> {
    match p {
        PrimType::Bool => "Bool"@,
        PrimType::I32 => "I32"@,
        PrimType::I64 => "I64"@,
        PrimType::U32 => "U32"@,
        PrimType::F64 => "F64"@,
    }
}

fn prim_text(p: PrimType) -> (s: &'static str)
    ensures
        s@ == prim_name(p),
{
    match p {
        PrimType::Bool => "Bool",
        PrimType::I32 => "I32",
        PrimType::I64 => "I64",
        PrimType::U32 => "U32",
        PrimType::F64 => "F64",
    }
}

/// `Ident { string: "name" }`
pub open spec fn debug_ident(s: Seq<char>) -> Seq<char> {
    "Ident { string: "@ + str_debug(s) + " }"@
}

/// The identifiers of a path, separated by `, `.
pub open spec fn debug_ident_list(ids: Seq<Seq<char>>) -> Seq<char>
    decreases ids.len(),
{
    if ids.len() == 0 {
        Seq::empty()
    } else if ids.len() == 1 {
        debug_ident(ids[0])
    } else {
        debug_ident_list(ids.drop_last()) + ", "@ + debug_ident(ids.last())
    }
}

/// `Path { ident: [Ident { string: "A" }, ...] }`
pub open spec fn debug_path(p: Seq<Seq<char>>) -> Seq<char> {
    "Path { ident: ["@ + debug_ident_list(p) + "] }"@
}

/// `PrimType(I32)`, `Path(Path { ... })` or `Ptr(...)`.
pub open spec fn debug_type(t: TypeV) -> Seq<char>
    decreases t,
{
    match t {
        TypeV::Prim(p) => "PrimType("@ + prim_name(p) + ")"@,
        TypeV::Path(p) => "Path("@ + debug_path(p) + ")"@,
        TypeV::Ptr(inner) => "Ptr("@ + debug_type(*inner) + ")"@,
    }
}

/// `IntegerLiteral(42)`, `FloatLiteral(1.5)`, `True`, `False` or `Null`
/// (a float literal shows its text).
pub open spec fn debug_literal(l: LiteralV) -> Seq<char> {
    match l {
        LiteralV::Int(i) => "IntegerLiteral("@ + signed_dec(i as int) + ")"@,
        LiteralV::Float(f) => "FloatLiteral("@ + f + ")"@,
        LiteralV::True => "True"@,
        LiteralV::False => "False"@,
        LiteralV::Null => "Null"@,
    }
}

/// The name of a binary operator.
pub open spec fn binop_name(op: BinOp) -> Seq<char> {
    match op {
        BinOp::Add => "Add"@,
        BinOp::Sub => "Sub"@,
        BinOp::Mul => "Mul"@,
        BinOp::Div => "Div"@,
        BinOp::Mod => "Mod"@,
        BinOp::Eq => "Eq"@,
        BinOp::Ne => "Ne"@,
        BinOp::Lt => "Lt"@,
        BinOp::Le => "Le"@,
        BinOp::Gt => "Gt"@,
        BinOp::Ge => "Ge"@,
        BinOp::And => "And"@,
        BinOp::Or => "Or"@,
    }
}

/// The name of a binary operator.
pub fn binop_text(op: BinOp) -> (s: &'static str)
    ensures
        s@ == binop_name(op),
{
    match op {
        BinOp::Add => "Add",
        BinOp::Sub => "Sub",
        BinOp::Mul => "Mul",
        BinOp::Div => "Div",
        BinOp::Mod => "Mod",
        BinOp::Eq => "Eq",
        BinOp::Ne => "Ne",
        BinOp::Lt => "Lt",
        BinOp::Le => "Le",
        BinOp::Gt => "Gt",
        BinOp::Ge => "Ge",
        BinOp::And => "And",
        BinOp::Or => "Or",
    }
}

/// Appends the notation of a path.
pub fn push_debug_path(s: &mut String, p: &Path)
    ensures
        final(s)@ == old(s)@ + debug_path(p@),
{
    push_text(s, "Path { ident: [");
    let ghost start = s@;
    let ghost ids = p@;
    let mut i: usize = 0;
    while i < p.ident.len()
        invariant
            ids == p@,
            ids == ident_values(p.ident@),
            i <= p.ident@.len(),
            s@ == start + debug_ident_list(ids.take(i as int)),
        decreases p.ident@.len() - i,
    {
        if i > 0 {
            push_text(s, ", ");
        }
        push_text(s, "Ident { string: ");
        push_debug_quoted(s, &p.ident[i].string);
        push_text(s, " }");
        proof {
            assert(ids[i as int] == p.ident@[i as int].string@);
            assert(ids.take(i + 1).drop_last() =~= ids.take(i as int));
            if i == 0 {
                assert(s@ =~= start + debug_ident_list(ids.take(i + 1)));
            } else {
                assert(s@ =~= start + debug_ident_list(ids.take(i + 1)));
            }
        }
        i = i + 1;
    }
    proof {
        assert(ids.take(i as int) =~= ids);
    }
    push_text(s, "] }");
    proof {
        assert(final(s)@ =~= old(s)@ + debug_path(p@));
    }
}

/// Appends the notation of a type.
pub fn push_debug_type(s: &mut String, t: &Type)
    ensures
        final(s)@ == old(s)@ + debug_type(t@),
    decreases t,
{
    match t {
        Type::PrimType(p) => {
            push_text(s, "PrimType(");
            push_text(s, prim_text(*p));
            push_text(s, ")");
        },
        Type::Path(p) => {
            push_text(s, "Path(");
            push_debug_path(s, p);
            push_text(s, ")");
        },
        Type::Ptr(inner) => {
            push_text(s, "Ptr(");
            push_debug_type(s, inner);
            push_text(s, ")");
        },
    }
    proof {
        assert(final(s)@ =~= old(s)@ + debug_type(t@));
    }
}

/// Appends the notation of a literal.
pub fn push_debug_literal(s: &mut String, l: &Literal)
    ensures
        final(s)@ == old(s)@ + debug_literal(l@),
{
    match l {
        Literal::IntegerLiteral(i) => {
            push_text(s, "IntegerLiteral(");
            let digits = signed_decimal_string(*i);
            push_text(s, digits.as_str());
            push_text(s, ")");
        },
        Literal::FloatLiteral(f) => {
            push_text(s, "FloatLiteral(");
            push_text(s, f.as_str());
            push_text(s, ")");
        },
        Literal::True => push_text(s, "True"),
        Literal::False => push_text(s, "False"),
        Literal::Null => push_text(s, "Null"),
    }
    proof {
        assert(final(s)@ =~= old(s)@ + debug_literal(l@));
    }
}

/// `bb` followed by the digits of a label.
pub open spec fn label_text(ds: Seq<u32>) -> Seq<char>
    decreases ds.len(),
{
    if ds.len() == 0 {
        "bb"@
    } else {
        label_text(ds.drop_last()) + dec(ds.last() as nat)
    }
}

/// Appends the text of a label: `bb` and its digits.
pub fn push_label(s: &mut String, l: &Label)
    ensures
        final(s)@ == old(s)@ + label_text(l@),
{
    let ghost start = old(s)@;
    push_text(s, "bb");
    let ghost ds = l@;
    let mut i: usize = 0;
    while i < l.digits.len()
        invariant
            ds == l@,
            ds == digit_values(l.digits@),
            i <= l.digits@.len(),
            s@ == start + label_text(ds.take(i as int)),
        decreases l.digits@.len() - i,
    {
        push_decimal(s, l.digits[i].digit as u64);
        proof {
            assert(ds.take(i + 1).drop_last() =~= ds.take(i as int));
            assert(s@ =~= start + label_text(ds.take(i + 1)));
        }
        i = i + 1;
    }
    proof {
        assert(ds.take(i as int) =~= ds);
    }
}

/// Whether two labels have the same digits.
pub fn label_eq(a: &Label, b: &Label) -> (r: bool)
    ensures
        r == (a@ == b@),
{
    if a.digits.len() != b.digits.len() {
        assert(a@.len() != b@.len());
        return false;
    }
    let mut i: usize = 0;
    while i < a.digits.len()
        invariant
            a.digits@.len() == b.digits@.len(),
            i <= a.digits@.len(),
            forall|k: int| 0 <= k < i ==> a@[k] == b@[k],
        decreases a.digits@.len() - i,
    {
        if a.digits[i].digit != b.digits[i].digit {
            assert(a@[i as int] != b@[i as int]);
            return false;
        }
        i = i + 1;
    }
    assert(a@ =~= b@);
    true
}

/// Whether two paths have the same identifiers.
pub fn path_eq(a: &Path, b: &Path) -> (r: bool)
    ensures
        r == (a@ == b@),
{
    if a.ident.len() != b.ident.len() {
        assert(a@.len() != b@.len());
        return false;
    }
    let mut i: usize = 0;
    while i < a.ident.len()
        invariant
            a.ident@.len() == b.ident@.len(),
            i <= a.ident@.len(),
            forall|k: int| 0 <= k < i ==> a@[k] == b@[k],
        decreases a.ident@.len() - i,
    {
        if !same_text(&a.ident[i].string, &b.ident[i].string) {
            proof {
                assert(a@[i as int] != b@[i as int]);
            }
            return false;
        }
        i = i + 1;
    }
    assert(a@ =~= b@);
    true
}

/// Whether two types are the same.
pub fn type_eq(a: &Type, b: &Type) -> (r: bool)
    ensures
        r == (a@ == b@),
    decreases a,
{
    match (a, b) {
        (Type::PrimType(p), Type::PrimType(q)) => *p == *q,
        (Type::Path(p), Type::Path(q)) => path_eq(p, q),
        (Type::Ptr(x), Type::Ptr(y)) => type_eq(x, y),
        _ => false,
    }
}

} // verus!
