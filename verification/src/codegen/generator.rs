//! The C code generator: one C function with a `goto` per jump, the
//! `#include`s that the program's types and calls need, and nothing for
//! blocks found unreachable.

use vstd::prelude::*;
use crate::text::{push_text, push_char, signed_decimal_string, signed_dec};
use crate::parser::ir::{BinOp, Block, BlockV, DeclV, Function, FunctionV, Literal, LiteralV, Local, Path,
    PrimType, Program, ProgramV, RetType, RetTypeV, Rhs, RhsV, Stmt, StmtV, Term, TermV, Type, TypeV, UnOp,
    block_values, stmt_values, local_values, ident_values, param_values, local_decl_values};
use crate::semantic::debug_text::{label_text, push_label, label_eq, path_eq};
use crate::semantic::rules::{pointee, written_types};
use crate::semantic::analyser_core::{collect_written_types, innermost_type, type_ref_values};

verus! {

// ============================== the C text ==============================

/// The items joined in order, with `sep` before each item that follows a
/// non-empty text so far.
pub open spec fn join_after_text(items: Seq<Seq<char>>, sep: Seq<char>) -> Seq<char>
    decreases items.len(),
{
    if items.len() == 0 {
        Seq::empty()
    } else {
        let acc = join_after_text(items.drop_last(), sep);
        (if acc.len() > 0 { acc + sep } else { acc }) + items.last()
    }
}

/// A path in C: its identifiers joined by `_`.
pub open spec fn path_c(p: Seq<Seq<char>>) -> Seq<char> {
    join_after_text(p, seq!['_'])
}

/// A type in C.
pub open spec fn type_c(t: TypeV) -> Seq<char>
    decreases t,
{
    match t {
        TypeV::Prim(PrimType::I32) => "int32_t"@,
        TypeV::Prim(PrimType::I64) => "int64_t"@,
        TypeV::Prim(PrimType::U32) => "uint32_t"@,
        TypeV::Prim(PrimType::F64) => "double"@,
        TypeV::Prim(PrimType::Bool) => "bool"@,
        TypeV::Path(p) => path_c(p),
        TypeV::Ptr(inner) => type_c(*inner) + " *"@,
    }
}

/// A declaration in C: the type, then the name (after a space, unless the
/// type is a pointer, whose text ends with `*`).
pub open spec fn decl_c(d: DeclV) -> Seq<char> {
    match d.typ {
        TypeV::Ptr(_) => type_c(d.typ) + d.name,
        _ => type_c(d.typ) + " "@ + d.name,
    }
}

/// The parameter list in C: the declarations joined by `, `, or `void`.
pub open spec fn params_c(f: FunctionV) -> Seq<char> {
    let ps = match f.params {
        Some(ps) => ps,
        None => Seq::empty(),
    };
    let joined = join_after_text(ps.map_values(|d: DeclV| decl_c(d)), ", "@);
    if joined.len() == 0 { "void"@ } else { joined }
}

/// The declarations of the locals, one per line, each indented by four spaces.
pub open spec fn locals_c(ls: Seq<DeclV>) -> Seq<char>
    decreases ls.len(),
{
    if ls.len() == 0 {
        Seq::empty()
    } else {
        locals_c(ls.drop_last()) + "    "@ + decl_c(ls.last()) + ";\n"@
    }
}

/// A literal in C.
pub open spec fn literal_c(l: LiteralV) -> Seq<char> {
    match l {
        LiteralV::Int(i) => signed_dec(i as int),
        LiteralV::Float(f) => f,
        LiteralV::True => "true"@,
        LiteralV::False => "false"@,
        LiteralV::Null => "NULL"@,
    }
}

/// The C operator of a binary operator.
pub open spec fn binop_c(op: BinOp) -> Seq<char> {
    match op {
        BinOp::Add => "+"@,
        BinOp::Sub => "-"@,
        BinOp::Mul => "*"@,
        BinOp::Div => "/"@,
        BinOp::Mod => "%"@,
        BinOp::Eq => "=="@,
        BinOp::Ne => "!="@,
        BinOp::Lt => "<"@,
        BinOp::Le => "<="@,
        BinOp::Gt => ">"@,
        BinOp::Ge => ">="@,
        BinOp::And => "&&"@,
        BinOp::Or => "||"@,
    }
}

/// A statement in C.
pub open spec fn stmt_c(s: StmtV) -> Seq<char> {
    let lhs = match s.local {
        Some(l) => l,
        None => Seq::empty(),
    };
    match s.rhs {
        RhsV::Use(l) => lhs + " = "@ + l + ";"@,
        RhsV::Const(lit) => lhs + " = "@ + literal_c(lit) + ";"@,
        RhsV::Cast(l, t) => lhs + " = ("@ + type_c(t) + ")"@ + l + ";"@,
        RhsV::Un(UnOp::Neg, l) => lhs + " = -"@ + l + ";"@,
        RhsV::Un(UnOp::Not, l) => lhs + " = !"@ + l + ";"@,
        RhsV::Bin(op, a, b) => lhs + " = "@ + a + " "@ + binop_c(op) + " "@ + b + ";"@,
        RhsV::Call(path, args) => {
            let joined = join_after_text(
                match args {
                    Some(a) => a,
                    None => Seq::empty(),
                },
                ", "@,
            );
            match s.local {
                Some(_) => lhs + " = "@ + path_c(path) + "("@ + joined + ");"@,
                None => path_c(path) + "("@ + joined + ");"@,
            }
        },
        RhsV::AddrOf(l) => lhs + " = &"@ + l + ";"@,
        RhsV::MemberPtr(l, field) => lhs + " = &"@ + l + "->"@ + field + ";"@,
        RhsV::Load(l) => lhs + " = *"@ + l + ";"@,
        RhsV::Store(a, b) => "*"@ + a + " = "@ + b + ";"@,
    }
}

/// A terminator in C.
pub open spec fn term_c(t: TermV) -> Seq<char> {
    match t {
        TermV::Jump(l) => "goto "@ + label_text(l) + ";"@,
        TermV::CJump(c, a, b) => "if ("@ + c + ") goto "@ + label_text(a) + "; else goto "@ + label_text(b) + ";"@,
        TermV::Return(Some(l)) => "return "@ + l + ";"@,
        TermV::Return(None) => "return;"@,
    }
}

/// The statements of a block in C, one per line, each after four spaces.
pub open spec fn stmts_c(ss: Seq<StmtV>) -> Seq<char>
    decreases ss.len(),
{
    if ss.len() == 0 {
        Seq::empty()
    } else {
        stmts_c(ss.drop_last()) + "    "@ + stmt_c(ss.last()) + "\n"@
    }
}

/// A block in C: a blank line, its label, its statements and its terminator.
pub open spec fn block_c(b: BlockV) -> Seq<char> {
    "\n"@ + label_text(b.label) + ":\n"@ + stmts_c(b.stmts) + "    "@ + term_c(b.term) + "\n"@
}

/// The label is among the given ones.
pub open spec fn is_listed(labels: Seq<Seq<u32>>, l: Seq<u32>) -> bool {
    exists|k: int| 0 <= k < labels.len() && labels[k] == l
}

/// The blocks in C, leaving out those whose labels are listed.
pub open spec fn blocks_c(bs: Seq<BlockV>, skipped: Seq<Seq<u32>>) -> Seq<char>
    decreases bs.len(),
{
    if bs.len() == 0 {
        Seq::empty()
    } else {
        blocks_c(bs.drop_last(), skipped) + if is_listed(skipped, bs.last().label) {
            Seq::empty()
        } else {
            block_c(bs.last())
        }
    }
}

/// Some written type is, under its pointers, an integer type.
pub open spec fn needs_stdint(p: ProgramV) -> bool {
    exists|k: int| 0 <= k < written_types(p).len() && {
        let t = pointee(#[trigger] written_types(p)[k]);
        t == TypeV::Prim(PrimType::I32) || t == TypeV::Prim(PrimType::I64) || t == TypeV::Prim(PrimType::U32)
    }
}

/// Some written type is, under its pointers, `bool`.
pub open spec fn needs_stdbool(p: ProgramV) -> bool {
    exists|k: int| 0 <= k < written_types(p).len() && pointee(#[trigger] written_types(p)[k]) == TypeV::Prim(PrimType::Bool)
}

/// Some statement assigns `null`.
pub open spec fn needs_stddef(p: ProgramV) -> bool {
    exists|b: int, s: int|
        0 <= b < p.function.blocks.len() && 0 <= s < p.function.blocks[b].stmts.len()
            && (#[trigger] p.function.blocks[b].stmts[s]).rhs == RhsV::Const(LiteralV::Null)
}

/// The program declares extern types, writes a custom type, or calls a
/// function other than itself.
pub open spec fn needs_header(p: ProgramV) -> bool {
    ||| exists|k: int| 0 <= k < written_types(p).len() && pointee(#[trigger] written_types(p)[k]) is Path
    ||| p.externtypes.len() > 0
    ||| exists|b: int, s: int|
        0 <= b < p.function.blocks.len() && 0 <= s < p.function.blocks[b].stmts.len() && {
            let r = (#[trigger] p.function.blocks[b].stmts[s]).rhs;
            r is Call && r->Call_0 != p.function.path
        }
}

/// The `#include` lines the program needs, in a fixed order.
pub open spec fn includes_c(p: ProgramV, header: Seq<char>) -> Seq<char> {
    (if needs_stdint(p) { "#include <stdint.h>\n"@ } else { Seq::empty() })
        + (if needs_stdbool(p) { "#include <stdbool.h>\n"@ } else { Seq::empty() })
        + (if needs_stddef(p) { "#include <stddef.h>\n"@ } else { Seq::empty() })
        + (if needs_header(p) { "#include \""@ + header + "\"\n"@ } else { Seq::empty() })
}

/// The return type in C.
pub open spec fn rettype_c(r: RetTypeV) -> Seq<char> {
    match r {
        RetTypeV::Void => "void"@,
        RetTypeV::Type(t) => type_c(t),
    }
}

/// What comes before the blocks: the `#include`s, the signature, the
/// locals and the `goto` to the entry block.
pub open spec fn c_head(p: ProgramV, header: Seq<char>) -> Seq<char> {
    let f = p.function;
    includes_c(p, header) + "\n"@ + rettype_c(f.rettype) + " "@ + path_c(f.path) + "("@ + params_c(f) + ") {\n"@
        + locals_c(f.locals) + "    goto "@ + label_text(f.entry) + ";"@ + "\n"@
}

/// The whole C file for a program, leaving out the blocks whose labels are
/// listed as unreachable.
pub open spec fn c_program(p: ProgramV, header: Seq<char>, unreachable: Seq<Seq<u32>>) -> Seq<char> {
    c_head(p, header) + blocks_c(p.function.blocks, unreachable) + "}\n"@
}

/// Two lists that agree on which labels of `bs` they hold leave out the
/// same blocks.
proof fn lemma_blocks_c_agree(bs: Seq<BlockV>, u1: Seq<Seq<u32>>, u2: Seq<Seq<u32>>)
    requires
        forall|k: int| 0 <= k < bs.len() ==> is_listed(u1, (#[trigger] bs[k]).label) == is_listed(u2, bs[k].label),
    ensures
        blocks_c(bs, u1) == blocks_c(bs, u2),
    decreases bs.len(),
{
    if bs.len() > 0 {
        let rest = bs.drop_last();
        assert forall|k: int| 0 <= k < rest.len() implies
            is_listed(u1, (#[trigger] rest[k]).label) == is_listed(u2, rest[k].label) by {
            assert(rest[k] == bs[k]);
        }
        lemma_blocks_c_agree(rest, u1, u2);
        assert(bs.last() == bs[bs.len() - 1]);
    }
}

/// Which blocks the C file holds depends only on the listed labels: the
/// part before the blocks does not read the list; block `k` is written, in
/// block order, exactly when its label is not listed; and two lists that
/// agree on the labels of the blocks give the same file.
pub proof fn law_only_listed_blocks_are_left_out(
    p: ProgramV,
    header: Seq<char>,
    u1: Seq<Seq<u32>>,
    u2: Seq<Seq<u32>>,
)
    ensures
        c_program(p, header, u1) == c_head(p, header) + blocks_c(p.function.blocks, u1) + "}\n"@,
        forall|k: int| 0 <= k < p.function.blocks.len() ==>
            #[trigger] blocks_c(p.function.blocks.take(k + 1), u1) == blocks_c(p.function.blocks.take(k), u1)
                + if is_listed(u1, p.function.blocks[k].label) {
                    Seq::<char>::empty()
                } else {
                    block_c(p.function.blocks[k])
                },
        (forall|k: int| 0 <= k < p.function.blocks.len() ==>
            is_listed(u1, (#[trigger] p.function.blocks[k]).label) == is_listed(u2, p.function.blocks[k].label))
            ==> c_program(p, header, u1) == c_program(p, header, u2),
{
    let bs = p.function.blocks;
    assert forall|k: int| 0 <= k < bs.len() implies
        #[trigger] blocks_c(bs.take(k + 1), u1) == blocks_c(bs.take(k), u1)
            + if is_listed(u1, bs[k].label) { Seq::<char>::empty() } else { block_c(bs[k]) } by {
        assert(bs.take(k + 1).drop_last() =~= bs.take(k));
        assert(bs.take(k + 1).last() == bs[k]);
    }
    if forall|k: int| 0 <= k < bs.len() ==> is_listed(u1, (#[trigger] bs[k]).label) == is_listed(u2, bs[k].label) {
        lemma_blocks_c_agree(bs, u1, u2);
    }
}

// ============================== building it ==============================

/// Appends `sep` if the text is not empty, then `item`.
fn push_after_text(s: &mut String, sep: &str, item: &str)
    ensures
        final(s)@ == (if old(s)@.len() > 0 { old(s)@ + sep@ } else { old(s)@ }) + item@,
{
    if !s.as_str().is_empty() {
        push_text(s, sep);
    }
    push_text(s, item);
}

/// A path in C: its identifiers joined by `_` (`A::B` gives `A_B`).
fn pathsepto_(path: &Path) -> (s: String)
    ensures
        s@ == path_c(path@),
{
    let ghost ids = path@;
    let mut catenated_idents = String::new();
    let mut i: usize = 0;
    while i < path.ident.len()
        invariant
            ids == path@,
            ids == ident_values(path.ident@),
            i <= path.ident@.len(),
            catenated_idents@ == join_after_text(ids.take(i as int), seq!['_']),
        decreases path.ident@.len() - i,
    {
        push_after_text(&mut catenated_idents, "_", path.ident[i].string.as_str());
        proof {
            reveal_strlit("_");
            assert(ids.take(i + 1).drop_last() =~= ids.take(i as int));
            assert("_"@ =~= seq!['_']);
        }
        i = i + 1;
    }
    proof {
        assert(ids.take(i as int) =~= ids);
    }
    catenated_idents
}

/// Appends a type in C.
fn push_type_c(s: &mut String, t: &Type)
    ensures
        final(s)@ == old(s)@ + type_c(t@),
    decreases t,
{
    match t {
        Type::PrimType(PrimType::I32) => push_text(s, "int32_t"),
        Type::PrimType(PrimType::I64) => push_text(s, "int64_t"),
        Type::PrimType(PrimType::U32) => push_text(s, "uint32_t"),
        Type::PrimType(PrimType::F64) => push_text(s, "double"),
        Type::PrimType(PrimType::Bool) => push_text(s, "bool"),
        Type::Path(path) => {
            let p = pathsepto_(path);
            push_text(s, p.as_str());
        },
        Type::Ptr(inner) => {
            push_type_c(s, inner);
            push_text(s, " *");
            proof {
                assert(final(s)@ =~= old(s)@ + type_c(t@));
            }
        },
    }
}

/// A type in C: `int32_t`, `int64_t`, `uint32_t`, `double`, `bool`, a path
/// with `_` for `::`, or the pointed-to type followed by ` *`.
fn type_to_c(typealt: &Type) -> (s: String)
    ensures
        s@ == type_c(typealt@),
{
    let mut s = String::new();
    push_type_c(&mut s, typealt);
    s
}

/// Appends a declaration in C.
fn push_decl_c(s: &mut String, local: &Local, typealt: &Type)
    ensures
        final(s)@ == old(s)@ + decl_c(DeclV { name: local@, typ: typealt@ }),
{
    push_type_c(s, typealt);
    match typealt {
        Type::Ptr(_) => {},
        _ => push_text(s, " "),
    }
    push_text(s, local.ident.string.as_str());
    proof {
        assert(final(s)@ =~= old(s)@ + decl_c(DeclV { name: local@, typ: typealt@ }));
    }
}

/// A literal in C.
fn push_literal_c(s: &mut String, literal: &Literal)
    ensures
        final(s)@ == old(s)@ + literal_c(literal@),
{
    match literal {
        Literal::IntegerLiteral(value_int) => {
            let value = signed_decimal_string(*value_int);
            push_text(s, value.as_str());
        },
        Literal::FloatLiteral(float) => push_text(s, float.as_str()),
        Literal::True => push_text(s, "true"),
        Literal::False => push_text(s, "false"),
        Literal::Null => push_text(s, "NULL"),
    }
}

/// The C operator of a binary operator.
fn binop_to_c(op: BinOp) -> (s: &'static str)
    ensures
        s@ == binop_c(op),
{
    match op {
        BinOp::Add => "+",
        BinOp::Sub => "-",
        BinOp::Mul => "*",
        BinOp::Div => "/",
        BinOp::Mod => "%",
        BinOp::Eq => "==",
        BinOp::Ne => "!=",
        BinOp::Lt => "<",
        BinOp::Le => "<=",
        BinOp::Gt => ">",
        BinOp::Ge => ">=",
        BinOp::And => "&&",
        BinOp::Or => "||",
    }
}

/// A statement in C (`lhs = ...;`, a call, or `*p = v;` for a store).
fn convert_ops(stmt: &Stmt) -> (s: String)
    ensures
        s@ == stmt_c(stmt@),
{
    let mut c = String::new();
    match &stmt.local {
        Some(local) => push_text(&mut c, local.ident.string.as_str()),
        None => {},
    }
    let ghost lhs = c@;
    proof {
        assert(lhs == match stmt@.local {
            Some(l) => l,
            None => Seq::<char>::empty(),
        });
    }
    match &stmt.rhs {
        Rhs::Use(local) => {
            push_text(&mut c, " = ");
            push_text(&mut c, local.ident.string.as_str());
            push_text(&mut c, ";");
        },
        Rhs::Const(literal) => {
            push_text(&mut c, " = ");
            push_literal_c(&mut c, literal);
            push_text(&mut c, ";");
        },
        Rhs::Cast(local, typealt) => {
            push_text(&mut c, " = (");
            push_type_c(&mut c, typealt);
            push_text(&mut c, ")");
            push_text(&mut c, local.ident.string.as_str());
            push_text(&mut c, ";");
        },
        Rhs::Un(unop, local) => {
            match unop {
                UnOp::Neg => push_text(&mut c, " = -"),
                UnOp::Not => push_text(&mut c, " = !"),
            }
            push_text(&mut c, local.ident.string.as_str());
            push_text(&mut c, ";");
        },
        Rhs::Bin(binop, local_left, local_right) => {
            push_text(&mut c, " = ");
            push_text(&mut c, local_left.ident.string.as_str());
            push_text(&mut c, " ");
            push_text(&mut c, binop_to_c(*binop));
            push_text(&mut c, " ");
            push_text(&mut c, local_right.ident.string.as_str());
            push_text(&mut c, ";");
        },
        Rhs::Call(path, args) => {
            let mut catenated_args = String::new();
            let ghost names = match args {
                Some(a) => local_values(a.locals@),
                None => Seq::<Seq<char>>::empty(),
            };
            if let Some(args) = args {
                let mut i: usize = 0;
                while i < args.locals.len()
                    invariant
                        names == local_values(args.locals@),
                        i <= args.locals@.len(),
                        catenated_args@ == join_after_text(names.take(i as int), ", "@),
                    decreases args.locals@.len() - i,
                {
                    push_after_text(&mut catenated_args, ", ", args.locals[i].ident.string.as_str());
                    proof {
                        assert(names.take(i + 1).drop_last() =~= names.take(i as int));
                    }
                    i = i + 1;
                }
                proof {
                    assert(names.take(i as int) =~= names);
                }
            } else {
                proof {
                    assert(catenated_args@ =~= join_after_text(names, ", "@));
                }
            }
            let function_name = pathsepto_(path);
            match &stmt.local {
                Some(_) => {
                    push_text(&mut c, " = ");
                },
                None => {},
            }
            push_text(&mut c, function_name.as_str());
            push_text(&mut c, "(");
            push_text(&mut c, catenated_args.as_str());
            push_text(&mut c, ");");
        },
        Rhs::Addr_of(local) => {
            push_text(&mut c, " = &");
            push_text(&mut c, local.ident.string.as_str());
            push_text(&mut c, ";");
        },
        Rhs::Member_ptr(local, ident) => {
            push_text(&mut c, " = &");
            push_text(&mut c, local.ident.string.as_str());
            push_text(&mut c, "->");
            push_text(&mut c, ident.string.as_str());
            push_text(&mut c, ";");
        },
        Rhs::Load(local) => {
            push_text(&mut c, " = *");
            push_text(&mut c, local.ident.string.as_str());
            push_text(&mut c, ";");
        },
        Rhs::Store(local_one, local_two) => {
            c = String::new();
            push_text(&mut c, "*");
            push_text(&mut c, local_one.ident.string.as_str());
            push_text(&mut c, " = ");
            push_text(&mut c, local_two.ident.string.as_str());
            push_text(&mut c, ";");
        },
    }
    proof {
        assert(c@ =~= stmt_c(stmt@));
    }
    c
}

/// A terminator in C: `goto`, `if (c) goto ...; else goto ...;` or `return`.
fn convert_terminators(term: &Term) -> (s: String)
    ensures
        s@ == term_c(term@),
{
    let mut c = String::new();
    match term {
        Term::Jump(label) => {
            push_text(&mut c, "goto ");
            push_label(&mut c, label);
            push_text(&mut c, ";");
        },
        Term::CJump(condition, label_one, label_two) => {
            push_text(&mut c, "if (");
            push_text(&mut c, condition.ident.string.as_str());
            push_text(&mut c, ") goto ");
            push_label(&mut c, label_one);
            push_text(&mut c, "; else goto ");
            push_label(&mut c, label_two);
            push_text(&mut c, ";");
        },
        Term::Return(local) => match local {
            Some(local) => {
                push_text(&mut c, "return ");
                push_text(&mut c, local.ident.string.as_str());
                push_text(&mut c, ";");
            },
            None => push_text(&mut c, "return;"),
        },
    }
    proof {
        assert(c@ =~= term_c(term@));
    }
    c
}

/// Some statement of the first `b` blocks, or of block `b` before
/// statement `s`, satisfies `pred`.
pub open spec fn some_stmt_before(p: ProgramV, b: int, s: int, pred: spec_fn(RhsV) -> bool) -> bool {
    exists|bb: int, ss: int|
        0 <= bb < p.function.blocks.len() && 0 <= ss < p.function.blocks[bb].stmts.len() && (bb < b || (bb == b
            && ss < s)) && pred((#[trigger] p.function.blocks[bb].stmts[ss]).rhs)
}

/// Whether some statement's right-hand side satisfies `pred` (`is_null` or
/// `calls_other`).
fn any_stmt(program: &Program, pred_null: bool) -> (r: bool)
    ensures
        pred_null ==> r == needs_stddef(program@),
        !pred_null ==> r == (exists|b: int, s: int|
            0 <= b < program@.function.blocks.len() && 0 <= s < program@.function.blocks[b].stmts.len() && {
                let x = (#[trigger] program@.function.blocks[b].stmts[s]).rhs;
                x is Call && x->Call_0 != program@.function.path
            }),
{
    let ghost p = program@;
    let ghost pred = if pred_null {
        |x: RhsV| x == RhsV::Const(LiteralV::Null)
    } else {
        |x: RhsV| x is Call && x->Call_0 != p.function.path
    };
    let mut found = false;
    let mut b: usize = 0;
    while b < program.function.blocks.len()
        invariant
            p == program@,
            b <= program.function.blocks@.len(),
            p.function.blocks.len() == program.function.blocks@.len(),
            forall|x: RhsV| #[trigger] pred(x) == (if pred_null {
                x == RhsV::Const(LiteralV::Null)
            } else {
                x is Call && x->Call_0 != p.function.path
            }),
            found == some_stmt_before(p, b as int, 0, pred),
        decreases program.function.blocks@.len() - b,
    {
        let block = &program.function.blocks[b];
        proof {
            assert(p.function.blocks[b as int] == block@);
        }
        let mut s: usize = 0;
        while s < block.stmt.len()
            invariant
                p == program@,
                b < program.function.blocks@.len(),
                p.function.blocks.len() == program.function.blocks@.len(),
                p.function.blocks[b as int] == block@,
                forall|x: RhsV| #[trigger] pred(x) == (if pred_null {
                    x == RhsV::Const(LiteralV::Null)
                } else {
                    x is Call && x->Call_0 != p.function.path
                }),
                s <= block.stmt@.len(),
                found == some_stmt_before(p, b as int, s as int, pred),
            decreases block.stmt@.len() - s,
        {
            let rhs = &block.stmt[s].rhs;
            let hit = if pred_null {
                match rhs {
                    Rhs::Const(Literal::Null) => true,
                    _ => false,
                }
            } else {
                match rhs {
                    Rhs::Call(path, _) => !path_eq(path, &program.function.path),
                    _ => false,
                }
            };
            proof {
                assert(p.function.blocks[b as int].stmts[s as int] == block.stmt@[s as int]@);
                assert(hit == pred(block.stmt@[s as int]@.rhs));
                if hit {
                    assert(some_stmt_before(p, b as int, s + 1, pred));
                }
                if some_stmt_before(p, b as int, s + 1, pred) && !hit {
                    let (bb, ss) = choose|bb: int, ss: int|
                        0 <= bb < p.function.blocks.len() && 0 <= ss < p.function.blocks[bb].stmts.len()
                            && (bb < b || (bb == b && ss < s + 1)) && pred(
                            (#[trigger] p.function.blocks[bb].stmts[ss]).rhs,
                        );
                    assert(some_stmt_before(p, b as int, s as int, pred));
                }
            }
            found = found || hit;
            s = s + 1;
        }
        proof {
            if some_stmt_before(p, b + 1, 0, pred) {
                let (bb, ss) = choose|bb: int, ss: int|
                    0 <= bb < p.function.blocks.len() && 0 <= ss < p.function.blocks[bb].stmts.len()
                        && (bb < b + 1 || (bb == b + 1 && ss < 0)) && pred(
                        (#[trigger] p.function.blocks[bb].stmts[ss]).rhs,
                    );
                assert(some_stmt_before(p, b as int, s as int, pred));
            }
            if some_stmt_before(p, b as int, s as int, pred) {
                let (bb, ss) = choose|bb: int, ss: int|
                    0 <= bb < p.function.blocks.len() && 0 <= ss < p.function.blocks[bb].stmts.len()
                        && (bb < b || (bb == b && ss < s)) && pred(
                        (#[trigger] p.function.blocks[bb].stmts[ss]).rhs,
                    );
                assert(some_stmt_before(p, b + 1, 0, pred));
            }
        }
        b = b + 1;
    }
    proof {
        if found {
            let (bb, ss) = choose|bb: int, ss: int|
                0 <= bb < p.function.blocks.len() && 0 <= ss < p.function.blocks[bb].stmts.len()
                    && (bb < b || (bb == b && ss < 0)) && pred((#[trigger] p.function.blocks[bb].stmts[ss]).rhs);
        }
    }
    found
}

/// The `#include` lines: `<stdint.h>` for integer types, `<stdbool.h>` for
/// `bool`, `<stddef.h>` for `null`, and the given header for extern types,
/// custom types and calls of other functions.
fn include_includes(program: &Program, header_name: &str) -> (s: String)
    ensures
        s@ == includes_c(program@, header_name@),
{
    let types_to_check = collect_written_types(program);
    let ghost types = type_ref_values(types_to_check@);
    let mut needs_stdint = false;
    let mut needs_stdbool = false;
    let mut needs_custom = false;
    let mut k: usize = 0;
    while k < types_to_check.len()
        invariant
            types == type_ref_values(types_to_check@),
            types == written_types(program@),
            k <= types_to_check@.len(),
            needs_stdint == exists|j: int| 0 <= j < k && {
                let t = pointee(#[trigger] types[j]);
                t == TypeV::Prim(PrimType::I32) || t == TypeV::Prim(PrimType::I64) || t == TypeV::Prim(PrimType::U32)
            },
            needs_stdbool == exists|j: int| 0 <= j < k && pointee(#[trigger] types[j]) == TypeV::Prim(PrimType::Bool),
            needs_custom == exists|j: int| 0 <= j < k && pointee(#[trigger] types[j]) is Path,
        decreases types_to_check@.len() - k,
    {
        let type_to_check = innermost_type(types_to_check[k]);
        proof {
            assert(types[k as int] == types_to_check@[k as int]@);
        }
        match type_to_check {
            Type::PrimType(PrimType::I32) | Type::PrimType(PrimType::I64) | Type::PrimType(PrimType::U32) => {
                needs_stdint = true;
            },
            Type::PrimType(PrimType::Bool) => {
                needs_stdbool = true;
            },
            Type::Path(_) => {
                needs_custom = true;
            },
            _ => {},
        }
        k = k + 1;
    }
    let needs_stddef = any_stmt(program, true);
    if program.externtypes.len() > 0 {
        needs_custom = true;
    }
    if any_stmt(program, false) {
        needs_custom = true;
    }
    proof {
        assert(program@.externtypes.len() == program.externtypes@.len());
    }
    let mut to_print = String::new();
    if needs_stdint {
        push_text(&mut to_print, "#include <stdint.h>\n");
    }
    if needs_stdbool {
        push_text(&mut to_print, "#include <stdbool.h>\n");
    }
    if needs_stddef {
        push_text(&mut to_print, "#include <stddef.h>\n");
    }
    if needs_custom {
        push_text(&mut to_print, "#include \"");
        push_text(&mut to_print, header_name);
        push_text(&mut to_print, "\"\n");
    }
    proof {
        assert(to_print@ =~= includes_c(program@, header_name@));
    }
    to_print
}

/// The labels of a list of blocks.
pub open spec fn block_labels(bs: Seq<Block>) -> Seq<Seq<u32>> {
    bs.map_values(|b: Block| b.label@)
}

/// The parameter list in C.
fn convert_params(function: &Function) -> (s: String)
    ensures
        s@ == params_c(function@),
{
    let ghost f = function@;
    let mut params_string = String::new();
    let ghost decls = match f.params {
        Some(ps) => ps,
        None => Seq::<DeclV>::empty(),
    };
    let ghost items = decls.map_values(|d: DeclV| decl_c(d));
    if let Some(params) = &function.params {
        let mut i: usize = 0;
        while i < params.params.len()
            invariant
                decls == param_values(params.params@),
                items == decls.map_values(|d: DeclV| decl_c(d)),
                i <= params.params@.len(),
                params_string@ == join_after_text(items.take(i as int), ", "@),
            decreases params.params@.len() - i,
        {
            let p = &params.params[i];
            let mut item = String::new();
            push_decl_c(&mut item, &p.local, &p.typealt);
            push_after_text(&mut params_string, ", ", item.as_str());
            proof {
                assert(items.take(i + 1).drop_last() =~= items.take(i as int));
                assert(items[i as int] == decl_c(DeclV { name: p.local@, typ: p.typealt@ }));
            }
            i = i + 1;
        }
        proof {
            assert(items.take(i as int) =~= items);
        }
    } else {
        proof {
            assert(items =~= Seq::<Seq<char>>::empty());
            assert(params_string@ =~= join_after_text(items, ", "@));
        }
    }
    if params_string.as_str().is_empty() {
        push_text(&mut params_string, "void");
    }
    params_string
}

/// The declarations of the locals in C.
fn convert_locals(function: &Function) -> (s: String)
    ensures
        s@ == locals_c(function@.locals),
{
    let ghost f = function@;
    let mut locals_string = String::new();
    let mut l: usize = 0;
    while l < function.locals.len()
        invariant
            f == function@,
            l <= function.locals@.len(),
            locals_string@ == locals_c(f.locals.take(l as int)),
        decreases function.locals@.len() - l,
    {
        let (local, typealt) = &function.locals[l];
        push_text(&mut locals_string, "    ");
        push_decl_c(&mut locals_string, local, typealt);
        push_text(&mut locals_string, ";\n");
        proof {
            assert(f.locals.take(l + 1).drop_last() =~= f.locals.take(l as int));
            assert(f.locals.take(l + 1).last() == DeclV { name: local@, typ: typealt@ });
            assert(locals_string@ =~= locals_c(f.locals.take(l + 1)));
        }
        l = l + 1;
    }
    proof {
        assert(f.locals.take(l as int) =~= f.locals);
    }
    locals_string
}

/// Whether a block with the label is among the given blocks.
fn label_listed(blocks: &Vec<Block>, label: &crate::parser::ir::Label) -> (r: bool)
    ensures
        r == is_listed(block_labels(blocks@), label@),
{
    let ghost listed = block_labels(blocks@);
    let mut found = false;
    let mut u: usize = 0;
    while u < blocks.len()
        invariant
            listed == block_labels(blocks@),
            u <= blocks@.len(),
            found == exists|k: int| 0 <= k < u && listed[k] == label@,
        decreases blocks@.len() - u,
    {
        proof {
            assert(listed[u as int] == blocks@[u as int].label@);
        }
        if label_eq(&blocks[u].label, label) {
            found = true;
        }
        u = u + 1;
    }
    found
}

/// A block in C.
fn convert_block(block: &Block) -> (s: String)
    ensures
        s@ == block_c(block@),
{
    let mut c = String::new();
    push_text(&mut c, "\n");
    push_label(&mut c, &block.label);
    push_text(&mut c, ":\n");
    let ghost stmts_start = c@;
    let ghost ss = stmt_values(block.stmt@);
    let mut s: usize = 0;
    while s < block.stmt.len()
        invariant
            ss == stmt_values(block.stmt@),
            s <= block.stmt@.len(),
            c@ == stmts_start + stmts_c(ss.take(s as int)),
        decreases block.stmt@.len() - s,
    {
        let stmt_string = convert_ops(&block.stmt[s]);
        push_text(&mut c, "    ");
        push_text(&mut c, stmt_string.as_str());
        push_text(&mut c, "\n");
        proof {
            assert(ss.take(s + 1).drop_last() =~= ss.take(s as int));
            assert(ss.take(s + 1).last() == block.stmt@[s as int]@);
            assert(c@ =~= stmts_start + stmts_c(ss.take(s + 1)));
        }
        s = s + 1;
    }
    proof {
        assert(ss.take(s as int) =~= ss);
    }
    let final_string = convert_terminators(&block.term);
    push_text(&mut c, "    ");
    push_text(&mut c, final_string.as_str());
    push_text(&mut c, "\n");
    proof {
        assert(c@ =~= block_c(block@));
    }
    c
}

/// The C file for a program: the `#include`s, then the function with its
/// locals, a `goto` to the entry block, and each block that is not among
/// `unreachable_blocks` (matched by label) as a label with its statements.
pub fn generate_c(program: &Program, header_name: &str, unreachable_blocks: &Vec<Block>) -> (c: String)
    ensures
        c@ == c_program(program@, header_name@, block_labels(unreachable_blocks@)),
{
    let function = &program.function;
    let ghost f = function@;
    let mut c = String::new();

    let includes = include_includes(program, header_name);
    let rettype = match &function.rettype {
        RetType::Void => {
            let mut v = String::new();
            push_text(&mut v, "void");
            v
        },
        RetType::typealt(t) => type_to_c(t),
    };
    let function_name = pathsepto_(&function.path);
    let params_string = convert_params(function);
    let locals_string = convert_locals(function);

    let mut entry_string = String::new();
    push_text(&mut entry_string, "    goto ");
    push_label(&mut entry_string, &function.entry);
    push_text(&mut entry_string, ";");

    let ghost skipped = block_labels(unreachable_blocks@);
    let mut blocks_string = String::new();
    let mut b: usize = 0;
    while b < function.blocks.len()
        invariant
            f == function@,
            skipped == block_labels(unreachable_blocks@),
            b <= function.blocks@.len(),
            blocks_string@ == blocks_c(f.blocks.take(b as int), skipped),
        decreases function.blocks@.len() - b,
    {
        let block = &function.blocks[b];
        let ghost before = blocks_string@;
        proof {
            assert(f.blocks.take(b + 1).drop_last() =~= f.blocks.take(b as int));
            assert(f.blocks.take(b + 1).last() == block@);
        }
        if !label_listed(unreachable_blocks, &block.label) {
            let block_string = convert_block(block);
            push_text(&mut blocks_string, block_string.as_str());
        }
        proof {
            assert(blocks_string@ =~= blocks_c(f.blocks.take(b + 1), skipped));
        }
        b = b + 1;
    }
    proof {
        assert(f.blocks.take(b as int) =~= f.blocks);
    }

    push_text(&mut c, includes.as_str());
    push_char(&mut c, '\n');
    push_text(&mut c, rettype.as_str());
    push_text(&mut c, " ");
    push_text(&mut c, function_name.as_str());
    push_text(&mut c, "(");
    push_text(&mut c, params_string.as_str());
    push_text(&mut c, ") {\n");
    push_text(&mut c, locals_string.as_str());
    push_text(&mut c, entry_string.as_str());
    push_char(&mut c, '\n');
    push_text(&mut c, blocks_string.as_str());
    push_text(&mut c, "}\n");
    proof {
        reveal_strlit("\n");
        assert(c@ =~= c_program(program@, header_name@, skipped));
    }
    c
}

/// Where a written type is, under its pointers, a primitive type that C
/// names `int32_t`, `int64_t` or `uint32_t`, the C file begins with
/// `#include <stdint.h>`.
pub proof fn law_stdint_names_bring_the_include(p: ProgramV, header: Seq<char>, unreachable: Seq<Seq<u32>>, k: int)
    requires
        0 <= k < written_types(p).len(),
        pointee(written_types(p)[k]) is Prim,
        type_c(pointee(written_types(p)[k])) == "int32_t"@
            || type_c(pointee(written_types(p)[k])) == "int64_t"@
            || type_c(pointee(written_types(p)[k])) == "uint32_t"@,
    ensures
        "#include <stdint.h>\n"@.is_prefix_of(c_program(p, header, unreachable)),
{
    reveal_strlit("int32_t");
    reveal_strlit("int64_t");
    reveal_strlit("uint32_t");
    reveal_strlit("double");
    reveal_strlit("bool");
    let t = pointee(written_types(p)[k]);
    assert(t == TypeV::Prim(PrimType::I32) || t == TypeV::Prim(PrimType::I64) || t == TypeV::Prim(PrimType::U32)) by {
        if t == TypeV::Prim(PrimType::Bool) {
            assert(type_c(t).len() == 4);
        } else if t == TypeV::Prim(PrimType::F64) {
            assert(type_c(t).len() == 6);
        }
    }
    assert(needs_stdint(p));
    let prefix = "#include <stdint.h>\n"@;
    let rest = includes_c(p, header).skip(prefix.len() as int);
    assert(includes_c(p, header) =~= prefix + rest);
    let whole = c_program(p, header, unreachable);
    let after = whole.skip(includes_c(p, header).len() as int);
    assert(whole =~= includes_c(p, header) + after);
    assert(whole.subrange(0, prefix.len() as int) =~= prefix);
}

/// `1` for true and `0` for false, as C's comparisons give.
pub open spec fn c_truth(b: bool) -> int {
    if b { 1 } else { 0 }
}

/// Integer division that rounds toward zero, as C's `/` does.
pub open spec fn div_toward_zero(a: int, b: int) -> int {
    let q = (if a < 0 { -a } else { a }) / (if b < 0 { -b } else { b });
    if (a < 0) != (b < 0) { -q } else { q }
}

/// What C computes for `a OP b` on integer operands, for each binary
/// operator text `OP` that the generator writes (division by zero has no
/// value).
pub open spec fn c_binary_value(text: Seq<char>, a: int, b: int) -> Option<int> {
    if text == "+"@ {
        Some(a + b)
    } else if text == "-"@ {
        Some(a - b)
    } else if text == "*"@ {
        Some(a * b)
    } else if text == "/"@ {
        if b == 0 { None } else { Some(div_toward_zero(a, b)) }
    } else if text == "%"@ {
        if b == 0 { None } else { Some(a - b * div_toward_zero(a, b)) }
    } else if text == "=="@ {
        Some(c_truth(a == b))
    } else if text == "!="@ {
        Some(c_truth(a != b))
    } else if text == "<"@ {
        Some(c_truth(a < b))
    } else if text == "<="@ {
        Some(c_truth(a <= b))
    } else if text == ">"@ {
        Some(c_truth(a > b))
    } else if text == ">="@ {
        Some(c_truth(a >= b))
    } else if text == "&&"@ {
        Some(c_truth(a != 0 && b != 0))
    } else if text == "||"@ {
        Some(c_truth(a != 0 || b != 0))
    } else {
        None
    }
}

/// What each binary operator of ResIR computes on integer operands: the
/// arithmetic (dividing toward zero), the comparisons (`ge` is greater or
/// equal), and `and` and `or` on truth values, with 1 for true and 0 for
/// false.
pub open spec fn binop_value(op: BinOp, a: int, b: int) -> Option<int> {
    match op {
        BinOp::Add => Some(a + b),
        BinOp::Sub => Some(a - b),
        BinOp::Mul => Some(a * b),
        BinOp::Div => if b == 0 { None } else { Some(div_toward_zero(a, b)) },
        BinOp::Mod => if b == 0 { None } else { Some(a - b * div_toward_zero(a, b)) },
        BinOp::Eq => Some(c_truth(a == b)),
        BinOp::Ne => Some(c_truth(a != b)),
        BinOp::Lt => Some(c_truth(a < b)),
        BinOp::Le => Some(c_truth(a <= b)),
        BinOp::Gt => Some(c_truth(a > b)),
        BinOp::Ge => Some(c_truth(a >= b)),
        BinOp::And => Some(c_truth(a != 0 && b != 0)),
        BinOp::Or => Some(c_truth(a != 0 || b != 0)),
    }
}

/// The C operator written for a binary operator means what the operator
/// does, on all integer operands; and different operators are written
/// differently.
pub proof fn law_c_operators_keep_their_meaning(op: BinOp, other: BinOp, a: int, b: int)
    ensures
        c_binary_value(binop_c(op), a, b) == binop_value(op, a, b),
        op != other ==> binop_c(op) != binop_c(other),
{
    reveal_strlit("+");
    reveal_strlit("-");
    reveal_strlit("*");
    reveal_strlit("/");
    reveal_strlit("%");
    reveal_strlit("==");
    reveal_strlit("!=");
    reveal_strlit("<");
    reveal_strlit("<=");
    reveal_strlit(">");
    reveal_strlit(">=");
    reveal_strlit("&&");
    reveal_strlit("||");
    assert("+"@.len() == 1 && "+"@[0] == '+');
    assert("-"@.len() == 1 && "-"@[0] == '-');
    assert("*"@.len() == 1 && "*"@[0] == '*');
    assert("/"@.len() == 1 && "/"@[0] == '/');
    assert("%"@.len() == 1 && "%"@[0] == '%');
    assert("=="@.len() == 2 && "=="@[0] == '=' && "=="@[1] == '=');
    assert("!="@.len() == 2 && "!="@[0] == '!' && "!="@[1] == '=');
    assert("<"@.len() == 1 && "<"@[0] == '<');
    assert("<="@.len() == 2 && "<="@[0] == '<' && "<="@[1] == '=');
    assert(">"@.len() == 1 && ">"@[0] == '>');
    assert(">="@.len() == 2 && ">="@[0] == '>' && ">="@[1] == '=');
    assert("&&"@.len() == 2 && "&&"@[0] == '&' && "&&"@[1] == '&');
    assert("||"@.len() == 2 && "||"@[0] == '|' && "||"@[1] == '|');
}

/// Where a written type is, under its pointers, `bool`, the C file's
/// includes hold `#include <stdbool.h>`, right after the `<stdint.h>` one
/// if there is that.
pub proof fn law_bool_brings_stdbool(p: ProgramV, header: Seq<char>, unreachable: Seq<Seq<u32>>, k: int)
    requires
        0 <= k < written_types(p).len(),
        pointee(written_types(p)[k]) == TypeV::Prim(PrimType::Bool),
    ensures
        exists|i: int| 0 <= i && i + 21 <= c_program(p, header, unreachable).len()
            && #[trigger] c_program(p, header, unreachable).subrange(i, i + 21) == "#include <stdbool.h>\n"@,
{
    reveal_strlit("#include <stdint.h>\n");
    reveal_strlit("#include <stdbool.h>\n");
    assert(needs_stdbool(p));
    let first = if needs_stdint(p) { "#include <stdint.h>\n"@ } else { Seq::<char>::empty() };
    let line = "#include <stdbool.h>\n"@;
    let inc = includes_c(p, header);
    let i = first.len() as int;
    assert(line.len() == 21);
    let inc_rest = inc.skip(i + 21);
    assert(inc =~= (first + line) + inc_rest);
    assert(inc.subrange(i, i + 21) =~= line);
    let whole = c_program(p, header, unreachable);
    let tail = whole.skip(inc.len() as int);
    assert(whole =~= inc + tail);
    assert(whole.subrange(i, i + 21) =~= inc.subrange(i, i + 21));
}

} // verus!
