//! The static semantics of ResIR: each check of the analyser as a function
//! from the program's value to the first error it finds (`None` when the
//! program passes it), in the order in which the analyser looks.

use vstd::prelude::*;
use crate::parser::ir::{BinOp, BlockV, DeclV, ExternTypeV, FunctionV, LiteralV, PrimType, ProgramV,
    RetTypeV, RhsV, StmtV, TermV, TypeV, UnOp};
use crate::parser::cfg::CfgV;
use super::symbols::{first_error, look_up, undeclared_message, symbols};
use super::debug_text::{binop_name, debug_literal, debug_path, debug_type, label_text};

verus! {

// ---------------------------- declared locals ----------------------------

/// The locals a right-hand side reads, in order.
pub open spec fn rhs_locals(r: RhsV) -> Seq<Seq<char>> {
    match r {
        RhsV::Use(l) => seq![l],
        RhsV::Const(_) => Seq::empty(),
        RhsV::Cast(l, _) => seq![l],
        RhsV::Un(_, l) => seq![l],
        RhsV::Bin(_, a, b) => seq![a, b],
        RhsV::AddrOf(l) => seq![l],
        RhsV::MemberPtr(l, _) => seq![l],
        RhsV::Load(l) => seq![l],
        RhsV::Store(a, b) => seq![a, b],
        RhsV::Call(_, args) => match args {
            Some(a) => a,
            None => Seq::empty(),
        },
    }
}

/// The locals a statement names: its destination, then what it reads.
pub open spec fn stmt_locals(s: StmtV) -> Seq<Seq<char>> {
    (match s.local {
        Some(l) => seq![l],
        None => Seq::empty(),
    }) + rhs_locals(s.rhs)
}

/// The locals a terminator reads.
pub open spec fn term_locals(t: TermV) -> Seq<Seq<char>> {
    match t {
        TermV::Jump(_) => Seq::empty(),
        TermV::CJump(c, _, _) => seq![c],
        TermV::Return(Some(l)) => seq![l],
        TermV::Return(None) => Seq::empty(),
    }
}

/// A name must be declared.
pub open spec fn declared_check(table: Map<Seq<char>, TypeV>) -> spec_fn(Seq<char>) -> Option<Seq<char>> {
    |n: Seq<char>| if table.dom().contains(n) { None } else { Some(undeclared_message(n)) }
}

/// The locals of a statement must be declared.
pub open spec fn stmt_locals_check(table: Map<Seq<char>, TypeV>) -> spec_fn(StmtV) -> Option<Seq<char>> {
    |s: StmtV| first_error(stmt_locals(s), declared_check(table))
}

/// The locals of a block's statements, then of its terminator, must be declared.
pub open spec fn block_locals_check(table: Map<Seq<char>, TypeV>) -> spec_fn(BlockV) -> Option<Seq<char>> {
    |b: BlockV| match first_error(b.stmts, stmt_locals_check(table)) {
        Some(e) => Some(e),
        None => first_error(term_locals(b.term), declared_check(table)),
    }
}

/// Every local that a block uses is declared.
pub open spec fn locals_declared_error(f: FunctionV, table: Map<Seq<char>, TypeV>) -> Option<Seq<char>> {
    first_error(f.blocks, block_locals_check(table))
}

// ---------------------------- labels and edges ----------------------------

/// The first label from position `i` on that an earlier block already has.
pub open spec fn duplicate_label_from(blocks: Seq<BlockV>, i: int) -> Option<Seq<char>>
    decreases blocks.len() - i,
{
    if i < 0 || i >= blocks.len() {
        None
    } else if exists|j: int| 0 <= j < i && blocks[j].label == blocks[i].label {
        Some("duplicate block label "@ + label_text(blocks[i].label))
    } else {
        duplicate_label_from(blocks, i + 1)
    }
}

/// No two blocks share a label.
pub open spec fn labels_unique_error(c: CfgV) -> Option<Seq<char>> {
    duplicate_label_from(c.blocks, 0)
}

/// Some block has the label.
pub open spec fn has_block(blocks: Seq<BlockV>, label: Seq<u32>) -> bool {
    exists|k: int| 0 <= k < blocks.len() && (#[trigger] blocks[k]).label == label
}

/// The entry label names a block.
pub open spec fn entry_error(c: CfgV) -> Option<Seq<char>> {
    if has_block(c.blocks, c.entry) { None } else { Some("Entry block does not exist!"@) }
}

/// The target of an edge names a block.
pub open spec fn target_check(blocks: Seq<BlockV>) -> spec_fn((Seq<u32>, Seq<u32>)) -> Option<Seq<char>> {
    |e: (Seq<u32>, Seq<u32>)| if has_block(blocks, e.1) { None } else { Some("Jump or Cjump targets dont exist!"@) }
}

/// Every jump and cjump target names a block.
pub open spec fn targets_error(c: CfgV) -> Option<Seq<char>> {
    first_error(c.edges, target_check(c.blocks))
}

// ---------------------------- statement types ----------------------------

/// What checking a right-hand side gives: its type, that the statement is
/// done (nothing more to compare), or an error.
pub enum RhsCheck {
    Typed(TypeV),
    Done,
    Fail(Seq<char>),
}

/// The integer types.
pub open spec fn is_integer(t: TypeV) -> bool {
    t == TypeV::Prim(PrimType::I32) || t == TypeV::Prim(PrimType::I64) || t == TypeV::Prim(PrimType::U32)
}

/// The numeric types: the integers and `f64`.
pub open spec fn is_numeric(t: TypeV) -> bool {
    is_integer(t) || t == TypeV::Prim(PrimType::F64)
}

/// A literal fits a type: integers the integer types, floats `f64`,
/// `true` and `false` `bool`, `null` the pointers.
pub open spec fn literal_fits(l: LiteralV, t: TypeV) -> bool {
    match l {
        LiteralV::Int(_) => is_integer(t),
        LiteralV::Float(_) => t == TypeV::Prim(PrimType::F64),
        LiteralV::True | LiteralV::False => t == TypeV::Prim(PrimType::Bool),
        LiteralV::Null => t is Ptr,
    }
}

/// `{op:?} {what}, but got {left:?} and {right:?}`
pub open spec fn operands_message(op: BinOp, what: Seq<char>, l: TypeV, r: TypeV) -> Seq<char> {
    binop_name(op) + what + debug_type(l) + " and "@ + debug_type(r)
}

/// The type of a binary operation on operands of the given types.
pub open spec fn bin_check(op: BinOp, l: TypeV, r: TypeV) -> RhsCheck {
    match op {
        BinOp::Add | BinOp::Sub | BinOp::Mul | BinOp::Div => if is_numeric(l) && l == r {
            RhsCheck::Typed(l)
        } else {
            RhsCheck::Fail(operands_message(op, " expects matching numeric operands, but got "@, l, r))
        },
        BinOp::Mod => if is_integer(l) && l == r {
            RhsCheck::Typed(l)
        } else {
            RhsCheck::Fail(operands_message(op, " expects matching integer operands for mod, but got "@, l, r))
        },
        BinOp::Eq | BinOp::Ne => if l == r {
            RhsCheck::Typed(TypeV::Prim(PrimType::Bool))
        } else {
            RhsCheck::Fail(operands_message(op, " expects matching operands, but got "@, l, r))
        },
        BinOp::Lt | BinOp::Le | BinOp::Gt | BinOp::Ge => if is_numeric(l) && l == r {
            RhsCheck::Typed(TypeV::Prim(PrimType::Bool))
        } else {
            RhsCheck::Fail(operands_message(op, " expects matching numeric operands, but got "@, l, r))
        },
        BinOp::And | BinOp::Or => if l == TypeV::Prim(PrimType::Bool) && r == TypeV::Prim(PrimType::Bool) {
            RhsCheck::Typed(TypeV::Prim(PrimType::Bool))
        } else {
            RhsCheck::Fail(operands_message(op, " expects bool operands, but got "@, l, r))
        },
    }
}

/// The last extern type declared with the given path.
pub open spec fn find_extern(xs: Seq<ExternTypeV>, path: Seq<Seq<char>>) -> Option<ExternTypeV>
    decreases xs.len(),
{
    if xs.len() == 0 {
        None
    } else if xs.last().path == path {
        Some(xs.last())
    } else {
        find_extern(xs.drop_last(), path)
    }
}

/// The type of the last field with the given name.
pub open spec fn find_field(fields: Seq<DeclV>, name: Seq<char>) -> Option<TypeV>
    decreases fields.len(),
{
    if fields.len() == 0 {
        None
    } else if fields.last().name == name {
        Some(fields.last().typ)
    } else {
        find_field(fields.drop_last(), name)
    }
}

/// The type of `member_ptr %operand, field`: the operand must point to a
/// declared extern type that has the field; the result points to the field.
pub open spec fn member_ptr_check(p: ProgramV, operand: TypeV, field: Seq<char>) -> RhsCheck {
    match operand {
        TypeV::Ptr(inner) => match *inner {
            TypeV::Path(path) => match find_extern(p.externtypes, path) {
                None => RhsCheck::Fail(debug_path(path) + " is not declared as an extern type"@),
                Some(x) => match find_field(x.fields, field) {
                    None => RhsCheck::Fail("field "@ + field + " does not exist on "@ + debug_path(path)),
                    Some(ft) => RhsCheck::Typed(TypeV::Ptr(Box::new(ft))),
                },
            },
            other => RhsCheck::Fail("member_ptr expects ptr<Struct>, got ptr<"@ + debug_type(other) + ">"@),
        },
        other => RhsCheck::Fail("member_ptr expects a pointer, got "@ + debug_type(other)),
    }
}

/// Checks a right-hand side; `dest` is the type of the destination, if any.
pub open spec fn rhs_check(p: ProgramV, table: Map<Seq<char>, TypeV>, r: RhsV, dest: Option<TypeV>) -> RhsCheck {
    match r {
        RhsV::Use(l) => match look_up(table, l) {
            Ok(t) => RhsCheck::Typed(t),
            Err(m) => RhsCheck::Fail(m),
        },
        RhsV::Const(lit) => match dest {
            None => RhsCheck::Fail("const needs a destination local"@),
            Some(d) => if literal_fits(lit, d) {
                RhsCheck::Done
            } else {
                RhsCheck::Fail("literal "@ + debug_literal(lit) + " is not compatible with "@ + debug_type(d))
            },
        },
        RhsV::Cast(_, t) => RhsCheck::Typed(t),
        RhsV::Un(op, l) => match look_up(table, l) {
            Err(m) => RhsCheck::Fail(m),
            Ok(t) => match op {
                UnOp::Neg => if is_numeric(t) {
                    RhsCheck::Typed(t)
                } else {
                    RhsCheck::Fail("neg expects a numeric type,but got "@ + debug_type(t))
                },
                UnOp::Not => if t == TypeV::Prim(PrimType::Bool) {
                    RhsCheck::Typed(TypeV::Prim(PrimType::Bool))
                } else {
                    RhsCheck::Fail("not expects bool, but got "@ + debug_type(t))
                },
            },
        },
        RhsV::Bin(op, a, b) => match look_up(table, a) {
            Err(m) => RhsCheck::Fail(m),
            Ok(l) => match look_up(table, b) {
                Err(m) => RhsCheck::Fail(m),
                Ok(r) => bin_check(op, l, r),
            },
        },
        RhsV::AddrOf(l) => match look_up(table, l) {
            Ok(t) => RhsCheck::Typed(TypeV::Ptr(Box::new(t))),
            Err(m) => RhsCheck::Fail(m),
        },
        RhsV::MemberPtr(l, field) => match look_up(table, l) {
            Err(m) => RhsCheck::Fail(m),
            Ok(t) => member_ptr_check(p, t, field),
        },
        RhsV::Load(l) => match look_up(table, l) {
            Err(m) => RhsCheck::Fail(m),
            Ok(t) => match t {
                TypeV::Ptr(inner) => RhsCheck::Typed(*inner),
                _ => RhsCheck::Fail("load expects a pointer, but got "@ + debug_type(t)),
            },
        },
        RhsV::Store(a, b) => if dest is Some {
            RhsCheck::Fail("store does not have a destination local"@)
        } else {
            match look_up(table, a) {
                Err(m) => RhsCheck::Fail(m),
                Ok(pt) => match look_up(table, b) {
                    Err(m) => RhsCheck::Fail(m),
                    Ok(vt) => match pt {
                        TypeV::Ptr(inner) => if *inner == vt {
                            RhsCheck::Done
                        } else {
                            RhsCheck::Fail(
                                "store cannot put "@ + debug_type(vt) + " into pointer "@ + debug_type(*inner),
                            )
                        },
                        _ => RhsCheck::Fail("store destination must be a pointer, got "@ + debug_type(pt)),
                    },
                },
            }
        },
        RhsV::Call(_, _) => RhsCheck::Done,
    }
}

/// Checks a statement: its destination is looked up first, then its
/// right-hand side is checked, and a typed right-hand side must have the
/// destination's type.
pub open spec fn stmt_check(p: ProgramV, table: Map<Seq<char>, TypeV>) -> spec_fn(StmtV) -> Option<Seq<char>> {
    |s: StmtV| {
        let dest: Result<Option<TypeV>, Seq<char>> = match s.local {
            Some(l) => match look_up(table, l) {
                Ok(t) => Ok(Some(t)),
                Err(m) => Err(m),
            },
            None => Ok(None),
        };
        match dest {
            Err(m) => Some(m),
            Ok(d) => match rhs_check(p, table, s.rhs, d) {
                RhsCheck::Fail(m) => Some(m),
                RhsCheck::Done => None,
                RhsCheck::Typed(t) => match d {
                    None => Some("statement is missing a destination local"@),
                    Some(lt) => if lt == t {
                        None
                    } else {
                        Some("LHS type "@ + debug_type(lt) + " does not match RHS type "@ + debug_type(t))
                    },
                },
            },
        }
    }
}

/// Checks the statements of a block.
pub open spec fn block_stmts_check(p: ProgramV, table: Map<Seq<char>, TypeV>) -> spec_fn(BlockV) -> Option<Seq<char>> {
    |b: BlockV| first_error(b.stmts, stmt_check(p, table))
}

/// Every statement is well typed.
pub open spec fn statements_error(p: ProgramV, table: Map<Seq<char>, TypeV>) -> Option<Seq<char>> {
    first_error(p.function.blocks, block_stmts_check(p, table))
}

// ---------------------------- terminators ----------------------------

/// A `return` gives a value of the function's return type, and none from a
/// `void` function.
pub open spec fn return_check(f: FunctionV, table: Map<Seq<char>, TypeV>) -> spec_fn(BlockV) -> Option<Seq<char>> {
    |b: BlockV| match b.term {
        TermV::Return(rl) => match f.rettype {
            RetTypeV::Type(ft) => match rl {
                Some(l) => match look_up(table, l) {
                    Err(m) => Some(m),
                    Ok(rt) => if rt != ft {
                        Some("return type is incorrect. received "@ + debug_type(rt) + " instead of "@ + debug_type(ft))
                    } else {
                        None
                    },
                },
                None => Some("Function which was supposed to return a value returned none."@),
            },
            RetTypeV::Void => if rl is Some { Some("A void function returned a value!"@) } else { None },
        },
        _ => None,
    }
}

/// Every `return` matches the return type.
pub open spec fn returns_error(f: FunctionV, table: Map<Seq<char>, TypeV>) -> Option<Seq<char>> {
    first_error(f.blocks, return_check(f, table))
}

/// The condition of a `cjump` is a `bool`.
pub open spec fn cjump_check(table: Map<Seq<char>, TypeV>) -> spec_fn(BlockV) -> Option<Seq<char>> {
    |b: BlockV| match b.term {
        TermV::CJump(c, _, _) => match look_up(table, c) {
            Err(m) => Some(m),
            Ok(t) => if t != TypeV::Prim(PrimType::Bool) {
                Some("Cjump's condition type must be a boolean. Got "@ + debug_type(t) + " instead."@)
            } else {
                None
            },
        },
        _ => None,
    }
}

/// Every `cjump` condition is a `bool`.
pub open spec fn cjump_error(f: FunctionV, table: Map<Seq<char>, TypeV>) -> Option<Seq<char>> {
    first_error(f.blocks, cjump_check(table))
}

// ---------------------------- custom types ----------------------------

/// The type under all pointer layers.
pub open spec fn pointee(t: TypeV) -> TypeV
    decreases t,
{
    match t {
        TypeV::Ptr(inner) => pointee(*inner),
        _ => t,
    }
}

/// Some extern type is declared with the path.
pub open spec fn extern_declared(xs: Seq<ExternTypeV>, path: Seq<Seq<char>>) -> bool {
    exists|k: int| 0 <= k < xs.len() && (#[trigger] xs[k]).path == path
}

/// A type that names a path (under any pointers) names a declared extern type.
pub open spec fn custom_type_check(p: ProgramV) -> spec_fn(TypeV) -> Option<Seq<char>> {
    |t: TypeV| match pointee(t) {
        TypeV::Path(path) => if extern_declared(p.externtypes, path) {
            None
        } else {
            Some("custom type "@ + debug_path(path) + " is referenced but not declared"@)
        },
        _ => None,
    }
}

/// The types of a list of declarations.
pub open spec fn decl_types(ds: Seq<DeclV>) -> Seq<TypeV> {
    ds.map_values(|d: DeclV| d.typ)
}

/// The types of the fields of the extern types, in order.
pub open spec fn field_types(xs: Seq<ExternTypeV>) -> Seq<TypeV>
    decreases xs.len(),
{
    if xs.len() == 0 {
        Seq::empty()
    } else {
        field_types(xs.drop_last()) + decl_types(xs.last().fields)
    }
}

/// The target types of the casts among statements, in order.
pub open spec fn stmt_cast_types(ss: Seq<StmtV>) -> Seq<TypeV>
    decreases ss.len(),
{
    if ss.len() == 0 {
        Seq::empty()
    } else {
        stmt_cast_types(ss.drop_last()) + match ss.last().rhs {
            RhsV::Cast(_, t) => seq![t],
            _ => Seq::empty(),
        }
    }
}

/// The target types of the casts in the blocks, in order.
pub open spec fn cast_types(bs: Seq<BlockV>) -> Seq<TypeV>
    decreases bs.len(),
{
    if bs.len() == 0 {
        Seq::empty()
    } else {
        cast_types(bs.drop_last()) + stmt_cast_types(bs.last().stmts)
    }
}

/// Every type written in the program, in the order the analyser visits
/// them: fields, parameters, the return type, locals, then cast targets.
pub open spec fn written_types(p: ProgramV) -> Seq<TypeV> {
    let f = p.function;
    field_types(p.externtypes) + decl_types(match f.params {
        Some(ps) => ps,
        None => Seq::empty(),
    }) + (match f.rettype {
        RetTypeV::Type(t) => seq![t],
        RetTypeV::Void => Seq::empty(),
    }) + decl_types(f.locals) + cast_types(f.blocks)
}

/// Every custom type written in the program is declared.
pub open spec fn custom_types_error(p: ProgramV) -> Option<Seq<char>> {
    first_error(written_types(p), custom_type_check(p))
}

// ---------------------------- all checks ----------------------------

/// The first error of the checks in order, or `None` when all pass.
pub open spec fn analysis(p: ProgramV, c: CfgV) -> Option<Seq<char>> {
    let table = symbols(p.function);
    let f = p.function;
    if locals_declared_error(f, table) is Some {
        locals_declared_error(f, table)
    } else if labels_unique_error(c) is Some {
        labels_unique_error(c)
    } else if entry_error(c) is Some {
        entry_error(c)
    } else if targets_error(c) is Some {
        targets_error(c)
    } else if statements_error(p, table) is Some {
        statements_error(p, table)
    } else if returns_error(f, table) is Some {
        returns_error(f, table)
    } else if cjump_error(f, table) is Some {
        cjump_error(f, table)
    } else {
        custom_types_error(p)
    }
}

/// Arithmetic on two operands of one numeric type (`i32`, `i64`, `u32` or
/// `f64`) is well typed and has that type; so is a statement that assigns
/// it to a local of that type.
pub proof fn law_arithmetic_on_numbers_type_checks(
    p: ProgramV,
    table: Map<Seq<char>, TypeV>,
    op: BinOp,
    prim: PrimType,
    dest: Seq<char>,
    a: Seq<char>,
    b: Seq<char>,
)
    requires
        op == BinOp::Add || op == BinOp::Sub || op == BinOp::Mul || op == BinOp::Div,
        prim == PrimType::I32 || prim == PrimType::I64 || prim == PrimType::U32 || prim == PrimType::F64,
        table.dom().contains(dest) && table[dest] == TypeV::Prim(prim),
        table.dom().contains(a) && table[a] == TypeV::Prim(prim),
        table.dom().contains(b) && table[b] == TypeV::Prim(prim),
    ensures
        bin_check(op, TypeV::Prim(prim), TypeV::Prim(prim)) == RhsCheck::Typed(TypeV::Prim(prim)),
        stmt_check(p, table)(StmtV { local: Some(dest), rhs: RhsV::Bin(op, a, b) }) is None,
{
}

/// The other binary operators on well-typed operands: a comparison of two
/// operands of one numeric type gives `bool`; `mod` accepts two operands of
/// one integer type and gives that type, but not `f64`; `eq` and `ne`
/// accept any two operands of one type and give `bool`; `and` and `or`
/// accept two `bool`s. Operands of different types are always rejected.
pub proof fn law_binary_operand_rules(op: BinOp, prim: PrimType, l: TypeV, r: TypeV)
    ensures
        (op == BinOp::Lt || op == BinOp::Le || op == BinOp::Gt || op == BinOp::Ge)
            && (prim == PrimType::I32 || prim == PrimType::I64 || prim == PrimType::U32 || prim == PrimType::F64)
            ==> bin_check(op, TypeV::Prim(prim), TypeV::Prim(prim)) == RhsCheck::Typed(TypeV::Prim(PrimType::Bool)),
        op == BinOp::Mod && (prim == PrimType::I32 || prim == PrimType::I64 || prim == PrimType::U32)
            ==> bin_check(op, TypeV::Prim(prim), TypeV::Prim(prim)) == RhsCheck::Typed(TypeV::Prim(prim)),
        op == BinOp::Mod ==> bin_check(op, TypeV::Prim(PrimType::F64), TypeV::Prim(PrimType::F64)) is Fail,
        (op == BinOp::Eq || op == BinOp::Ne) ==> bin_check(op, l, l) == RhsCheck::Typed(TypeV::Prim(PrimType::Bool)),
        (op == BinOp::And || op == BinOp::Or)
            ==> bin_check(op, TypeV::Prim(PrimType::Bool), TypeV::Prim(PrimType::Bool))
                == RhsCheck::Typed(TypeV::Prim(PrimType::Bool)),
        l != r ==> bin_check(op, l, r) is Fail,
{
}

} // verus!
