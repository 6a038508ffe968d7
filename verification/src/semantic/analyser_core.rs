//! The semantic analyser: it builds the symbol table of the function, then
//! runs its checks in order and reports the first error. Each check follows
//! the function of the same kind in `rules`.

use vstd::prelude::*;
use crate::parser::ir::{Block, ExternType, Function, Literal, Local, Path, PrimType, Program, RetType,
    Rhs, Stmt, Term, Type, TypeV, UnOp, BinOp, Label, local_values, block_values, stmt_values};
use crate::parser::cfg::Cfg;
use crate::text::push_text;
use super::symbols::{SymbolTable, first_error, look_up, symbols, declare_all, lemma_first_error_step,
    lemma_first_error_ends, lemma_first_error_concat, lemma_first_error_one, lemma_first_error_two,
    lemma_first_error_none};
use super::rules::{rhs_locals, stmt_locals, term_locals, declared_check, stmt_locals_check,
    block_locals_check, locals_declared_error, duplicate_label_from, labels_unique_error, has_block,
    entry_error, target_check, targets_error};
use super::debug_text::{label_eq, push_label, label_text, push_debug_type, push_debug_literal,
    push_debug_path, debug_type, debug_literal, debug_path, binop_text, binop_name, type_eq, path_eq};
use super::rules::{RhsCheck, is_integer, is_numeric, literal_fits, operands_message, bin_check,
    find_extern, find_field, member_ptr_check, rhs_check, stmt_check, block_stmts_check, statements_error,
    return_check, returns_error, cjump_check, cjump_error, pointee, extern_declared, custom_type_check,
    decl_types, field_types, stmt_cast_types, cast_types, written_types, custom_types_error, analysis};
use crate::parser::ir::{RetTypeV, RhsV, param_values, local_decl_values, Param};
use crate::parser::ir::{ExternTypeV, DeclV, extern_values, field_values, ProgramV};
use crate::parser::cfg::{CfgV, edge_values};

verus! {

/// An executable check agrees with the first error a rule finds.
pub open spec fn reports(r: Result<(), String>, o: Option<Seq<char>>) -> bool {
    match o {
        None => r is Ok,
        Some(m) => r matches Err(e) && e@ == m,
    }
}

/// Checks that a local is declared.
fn check_declared(symboltable: &SymbolTable, local: &Local) -> (r: Result<(), String>)
    ensures
        reports(r, declared_check(symboltable@)(local@)),
{
    symboltable.lookup(local)?;
    Ok(())
}

/// Checks that the locals of a list are declared, in order.
fn check_all_declared(symboltable: &SymbolTable, locals: &Vec<Local>) -> (r: Result<(), String>)
    ensures
        reports(r, first_error(local_values(locals@), declared_check(symboltable@))),
{
    let ghost names = local_values(locals@);
    let ghost f = declared_check(symboltable@);
    proof {
        lemma_first_error_ends(names, f);
    }
    let mut i: usize = 0;
    while i < locals.len()
        invariant
            names == local_values(locals@),
            f == declared_check(symboltable@),
            i <= locals@.len(),
            first_error(names, f) == first_error(names.skip(i as int), f),
        decreases locals@.len() - i,
    {
        proof {
            lemma_first_error_step(names, i as int, f);
        }
        check_declared(symboltable, &locals[i])?;
        i = i + 1;
    }
    proof {
        lemma_first_error_ends(names, f);
    }
    Ok(())
}

/// Checks that the locals of a statement are declared: its destination,
/// then what its right-hand side reads.
fn check_stmt_locals(symboltable: &SymbolTable, stmt: &Stmt) -> (r: Result<(), String>)
    ensures
        reports(r, stmt_locals_check(symboltable@)(stmt@)),
{
    let ghost f = declared_check(symboltable@);
    let ghost lhs = match stmt@.local {
        Some(l) => seq![l],
        None => Seq::<Seq<char>>::empty(),
    };
    proof {
        lemma_first_error_concat(lhs, rhs_locals(stmt@.rhs), f);
        match stmt@.local {
            Some(l) => lemma_first_error_one(l, f),
            None => lemma_first_error_none(f),
        }
    }
    if let Some(lhs_local) = &stmt.local {
        check_declared(symboltable, lhs_local)?;
    }
    match &stmt.rhs {
        Rhs::Use(local) => {
            proof { lemma_first_error_one(local@, f); }
            check_declared(symboltable, local)?;
        },
        Rhs::Cast(local, _) => {
            proof { lemma_first_error_one(local@, f); }
            check_declared(symboltable, local)?;
        },
        Rhs::Un(_, local) => {
            proof { lemma_first_error_one(local@, f); }
            check_declared(symboltable, local)?;
        },
        Rhs::Bin(_, local_one, local_two) => {
            proof { lemma_first_error_two(local_one@, local_two@, f); }
            check_declared(symboltable, local_one)?;
            check_declared(symboltable, local_two)?;
        },
        Rhs::Addr_of(local) => {
            proof { lemma_first_error_one(local@, f); }
            check_declared(symboltable, local)?;
        },
        Rhs::Member_ptr(local, _) => {
            proof { lemma_first_error_one(local@, f); }
            check_declared(symboltable, local)?;
        },
        Rhs::Load(local) => {
            proof { lemma_first_error_one(local@, f); }
            check_declared(symboltable, local)?;
        },
        Rhs::Store(local_one, local_two) => {
            proof { lemma_first_error_two(local_one@, local_two@, f); }
            check_declared(symboltable, local_one)?;
            check_declared(symboltable, local_two)?;
        },
        Rhs::Call(_, args) => match args {
            Some(args) => {
                check_all_declared(symboltable, &args.locals)?;
            },
            None => {
                proof { lemma_first_error_none(f); }
            },
        },
        Rhs::Const(_) => {
            proof { lemma_first_error_none(f); }
        },
    }
    Ok(())
}

/// Checks that every local that the blocks use is declared: in each block,
/// the statements' locals in order, then the terminator's.
fn check_locals_declared(function: &Function, symboltable: &SymbolTable) -> (r: Result<(), String>)
    ensures
        reports(r, locals_declared_error(function@, symboltable@)),
{
    let ghost blocks = block_values(function.blocks@);
    let ghost fb = block_locals_check(symboltable@);
    let ghost fs = stmt_locals_check(symboltable@);
    let ghost fl = declared_check(symboltable@);
    proof {
        lemma_first_error_ends(blocks, fb);
    }
    let mut b: usize = 0;
    while b < function.blocks.len()
        invariant
            blocks == block_values(function.blocks@),
            fb == block_locals_check(symboltable@),
            fs == stmt_locals_check(symboltable@),
            fl == declared_check(symboltable@),
            b <= function.blocks@.len(),
            first_error(blocks, fb) == first_error(blocks.skip(b as int), fb),
        decreases function.blocks@.len() - b,
    {
        let block = &function.blocks[b];
        proof {
            lemma_first_error_step(blocks, b as int, fb);
            assert(blocks[b as int] == block@);
        }
        let ghost stmts = stmt_values(block.stmt@);
        proof {
            lemma_first_error_ends(stmts, fs);
        }
        let mut s: usize = 0;
        while s < block.stmt.len()
            invariant
                stmts == stmt_values(block.stmt@),
                fs == stmt_locals_check(symboltable@),
                blocks == block_values(function.blocks@),
                fb == block_locals_check(symboltable@),
                b < function.blocks@.len(),
                blocks[b as int] == block@,
                first_error(blocks, fb) == match fb(blocks[b as int]) {
                    Some(e) => Some(e),
                    None => first_error(blocks.skip(b + 1), fb),
                },
                s <= block.stmt@.len(),
                first_error(stmts, fs) == first_error(stmts.skip(s as int), fs),
            decreases block.stmt@.len() - s,
        {
            proof {
                lemma_first_error_step(stmts, s as int, fs);
            }
            check_stmt_locals(symboltable, &block.stmt[s])?;
            s = s + 1;
        }
        proof {
            lemma_first_error_ends(stmts, fs);
        }
        match &block.term {
            Term::Jump(_) => {
                proof { lemma_first_error_none(fl); }
            },
            Term::CJump(local, _, _) => {
                proof { lemma_first_error_one(local@, fl); }
                check_declared(symboltable, local)?;
            },
            Term::Return(local) => match local {
                Some(local) => {
                    proof { lemma_first_error_one(local@, fl); }
                    check_declared(symboltable, local)?;
                },
                None => {
                    proof { lemma_first_error_none(fl); }
                },
            },
        }
        b = b + 1;
    }
    proof {
        lemma_first_error_ends(blocks, fb);
    }
    Ok(())
}

/// The labels of a list of labels.
pub open spec fn label_values(s: Seq<Label>) -> Seq<Seq<u32>> {
    s.map_values(|l: Label| l@)
}

/// Whether a list of labels holds a label.
pub(crate) fn contains_label(labels: &Vec<Label>, label: &Label) -> (r: bool)
    ensures
        r == exists|k: int| 0 <= k < labels@.len() && (#[trigger] labels@[k])@ == label@,
{
    let mut i: usize = 0;
    while i < labels.len()
        invariant
            i <= labels@.len(),
            forall|k: int| 0 <= k < i ==> (#[trigger] labels@[k])@ != label@,
        decreases labels@.len() - i,
    {
        if label_eq(&labels[i], label) {
            return true;
        }
        i = i + 1;
    }
    false
}

/// Checks that no two blocks of the graph share a label.
fn check_labels_unique(cfg: &Cfg) -> (r: Result<(), String>)
    ensures
        reports(r, labels_unique_error(cfg@)),
{
    let ghost blocks = cfg@.blocks;
    let mut checked_labels: Vec<Label> = Vec::new();
    let mut i: usize = 0;
    while i < cfg.blocks.len()
        invariant
            blocks == cfg@.blocks,
            blocks == block_values(cfg.blocks@),
            i <= cfg.blocks@.len(),
            checked_labels@.len() == i,
            forall|k: int| 0 <= k < i ==> (#[trigger] checked_labels@[k])@ == blocks[k].label,
            duplicate_label_from(blocks, 0) == duplicate_label_from(blocks, i as int),
        decreases cfg.blocks@.len() - i,
    {
        let block = &cfg.blocks[i];
        proof {
            assert(blocks[i as int] == block@);
        }
        let mut label = String::new();
        push_label(&mut label, &block.label);
        if contains_label(&checked_labels, &block.label) {
            let mut message = String::new();
            push_text(&mut message, "duplicate block label ");
            push_text(&mut message, label.as_str());
            proof {
                let k = choose|k: int| 0 <= k < checked_labels@.len() && (#[trigger] checked_labels@[k])@ == block.label@;
                assert(0 <= k < i && blocks[k].label == blocks[i as int].label);
                assert(message@ =~= "duplicate block label "@ + label_text(blocks[i as int].label));
            }
            return Err(message);
        } else {
            proof {
                assert forall|j: int| 0 <= j < i implies blocks[j].label != blocks[i as int].label by {
                    assert(checked_labels@[j]@ == blocks[j].label);
                }
            }
            checked_labels.push(block.label.copy());
        }
        i = i + 1;
    }
    Ok(())
}

/// Checks that the entry label names a block.
fn check_entry_exists(cfg: &Cfg) -> (r: Result<(), String>)
    ensures
        reports(r, entry_error(cfg@)),
{
    let mut found_entry = false;
    let mut i: usize = 0;
    while i < cfg.blocks.len()
        invariant
            i <= cfg.blocks@.len(),
            found_entry == exists|k: int| 0 <= k < i && (#[trigger] cfg@.blocks[k]).label == cfg@.entry,
        decreases cfg.blocks@.len() - i,
    {
        if label_eq(&cfg.blocks[i].label, &cfg.entry) {
            found_entry = true;
        }
        proof {
            assert(cfg@.blocks[i as int] == cfg.blocks@[i as int]@);
        }
        i = i + 1;
    }
    if !found_entry {
        let mut message = String::new();
        push_text(&mut message, "Entry block does not exist!");
        return Err(message);
    }
    Ok(())
}

/// Checks that the target of every edge names a block.
fn check_targets_exist(cfg: &Cfg) -> (r: Result<(), String>)
    ensures
        reports(r, targets_error(cfg@)),
{
    let ghost edges = cfg@.edges;
    let ghost f = target_check(cfg@.blocks);
    proof {
        lemma_first_error_ends(edges, f);
    }
    let mut e: usize = 0;
    while e < cfg.edges.len()
        invariant
            edges == cfg@.edges,
            edges == edge_values(cfg.edges@),
            f == target_check(cfg@.blocks),
            e <= cfg.edges@.len(),
            first_error(edges, f) == first_error(edges.skip(e as int), f),
        decreases cfg.edges@.len() - e,
    {
        proof {
            lemma_first_error_step(edges, e as int, f);
        }
        let target = &cfg.edges[e].1;
        let mut target_exists = false;
        let mut i: usize = 0;
        while i < cfg.blocks.len()
            invariant
                i <= cfg.blocks@.len(),
                target_exists == exists|k: int| 0 <= k < i && (#[trigger] cfg@.blocks[k]).label == target@,
            decreases cfg.blocks@.len() - i,
        {
            if label_eq(&cfg.blocks[i].label, target) {
                target_exists = true;
            }
            proof {
                assert(cfg@.blocks[i as int] == cfg.blocks@[i as int]@);
            }
            i = i + 1;
        }
        proof {
            assert(edges[e as int].1 == target@);
        }
        if !target_exists {
            let mut message = String::new();
            push_text(&mut message, "Jump or Cjump targets dont exist!");
            return Err(message);
        }
        e = e + 1;
    }
    proof {
        lemma_first_error_ends(edges, f);
    }
    Ok(())
}

/// `{prefix}{t:?}`
fn message_with_type(prefix: &str, t: &Type) -> (m: String)
    ensures
        m@ == prefix@ + debug_type(t@),
{
    let mut m = String::new();
    push_text(&mut m, prefix);
    push_debug_type(&mut m, t);
    m
}

/// `{prefix}{a:?}{middle}{b:?}`
fn message_with_types(prefix: &str, a: &Type, middle: &str, b: &Type) -> (m: String)
    ensures
        m@ == prefix@ + debug_type(a@) + middle@ + debug_type(b@),
{
    let mut m = String::new();
    push_text(&mut m, prefix);
    push_debug_type(&mut m, a);
    push_text(&mut m, middle);
    push_debug_type(&mut m, b);
    m
}

/// `{op:?}{what}{l:?} and {r:?}`
fn operands_error(op: BinOp, what: &str, l: &Type, r: &Type) -> (m: String)
    ensures
        m@ == operands_message(op, what@, l@, r@),
{
    let mut m = String::new();
    push_text(&mut m, binop_text(op));
    push_text(&mut m, what);
    push_debug_type(&mut m, l);
    push_text(&mut m, " and ");
    push_debug_type(&mut m, r);
    proof {
        assert(m@ =~= operands_message(op, what@, l@, r@));
    }
    m
}

/// The integer types.
fn is_integer_type(t: &Type) -> (r: bool)
    ensures
        r == is_integer(t@),
{
    match t {
        Type::PrimType(PrimType::I32) => true,
        Type::PrimType(PrimType::I64) => true,
        Type::PrimType(PrimType::U32) => true,
        _ => false,
    }
}

/// The numeric types.
fn is_numeric_type(t: &Type) -> (r: bool)
    ensures
        r == is_numeric(t@),
{
    match t {
        Type::PrimType(PrimType::I32) => true,
        Type::PrimType(PrimType::I64) => true,
        Type::PrimType(PrimType::U32) => true,
        Type::PrimType(PrimType::F64) => true,
        _ => false,
    }
}

/// Whether the type is `bool`.
fn is_bool_type(t: &Type) -> (r: bool)
    ensures
        r == (t@ == TypeV::Prim(PrimType::Bool)),
{
    match t {
        Type::PrimType(PrimType::Bool) => true,
        _ => false,
    }
}

/// The type that a binary operation gives, or its error.
fn check_bin(binop: BinOp, left_type: Type, right_type: Type) -> (r: Result<Type, String>)
    ensures
        match bin_check(binop, left_type@, right_type@) {
            RhsCheck::Typed(t) => r matches Ok(x) && x@ == t,
            RhsCheck::Fail(m) => r matches Err(e) && e@ == m,
            RhsCheck::Done => false,
        },
{
    match binop {
        BinOp::Add | BinOp::Sub | BinOp::Mul | BinOp::Div => {
            let numeric = is_numeric_type(&left_type);
            if numeric && type_eq(&left_type, &right_type) {
                Ok(left_type)
            } else {
                Err(operands_error(binop, " expects matching numeric operands, but got ", &left_type, &right_type))
            }
        },
        BinOp::Mod => {
            let integer = is_integer_type(&left_type);
            if integer && type_eq(&left_type, &right_type) {
                Ok(left_type)
            } else {
                Err(operands_error(binop, " expects matching integer operands for mod, but got ", &left_type, &right_type))
            }
        },
        BinOp::Eq | BinOp::Ne => {
            if type_eq(&left_type, &right_type) {
                Ok(Type::PrimType(PrimType::Bool))
            } else {
                Err(operands_error(binop, " expects matching operands, but got ", &left_type, &right_type))
            }
        },
        BinOp::Lt | BinOp::Le | BinOp::Gt | BinOp::Ge => {
            let numeric = is_numeric_type(&left_type);
            if numeric && type_eq(&left_type, &right_type) {
                Ok(Type::PrimType(PrimType::Bool))
            } else {
                Err(operands_error(binop, " expects matching numeric operands, but got ", &left_type, &right_type))
            }
        },
        BinOp::And | BinOp::Or => {
            let left_bool = is_bool_type(&left_type);
            let right_bool = is_bool_type(&right_type);
            if left_bool && right_bool {
                Ok(Type::PrimType(PrimType::Bool))
            } else {
                Err(operands_error(binop, " expects bool operands, but got ", &left_type, &right_type))
            }
        },
    }
}

/// The last extern type declared with the path.
fn find_extern_type<'a>(externtypes: &'a Vec<ExternType>, path: &Path) -> (r: Option<&'a ExternType>)
    ensures
        match find_extern(extern_values(externtypes@), path@) {
            Some(x) => r matches Some(e) && e@ == x,
            None => r is None,
        },
{
    let ghost xs = extern_values(externtypes@);
    let mut declared_struct: Option<&ExternType> = None;
    let mut i: usize = 0;
    while i < externtypes.len()
        invariant
            xs == extern_values(externtypes@),
            i <= externtypes@.len(),
            match find_extern(xs.take(i as int), path@) {
                Some(x) => declared_struct matches Some(e) && e@ == x,
                None => declared_struct is None,
            },
        decreases externtypes@.len() - i,
    {
        proof {
            assert(xs.take(i + 1).drop_last() =~= xs.take(i as int));
            assert(xs.take(i + 1).last() == externtypes@[i as int]@);
        }
        if path_eq(&externtypes[i].path, path) {
            declared_struct = Some(&externtypes[i]);
        }
        i = i + 1;
    }
    proof {
        assert(xs.take(i as int) =~= xs);
    }
    declared_struct
}

/// The type of the last field declared with the name.
fn find_field_type(fields: &Vec<crate::parser::ir::Field>, name: &String) -> (r: Option<Type>)
    ensures
        match find_field(field_values(fields@), name@) {
            Some(t) => r matches Some(x) && x@ == t,
            None => r is None,
        },
{
    let ghost fs = field_values(fields@);
    let mut field_type: Option<Type> = None;
    let mut i: usize = 0;
    while i < fields.len()
        invariant
            fs == field_values(fields@),
            i <= fields@.len(),
            match find_field(fs.take(i as int), name@) {
                Some(t) => field_type matches Some(x) && x@ == t,
                None => field_type is None,
            },
        decreases fields@.len() - i,
    {
        proof {
            assert(fs.take(i + 1).drop_last() =~= fs.take(i as int));
            assert(fs.take(i + 1).last() == fields@[i as int]@);
        }
        if crate::text::same_text(&fields[i].ident.string, name) {
            field_type = Some(fields[i].typealt.copy());
        }
        i = i + 1;
    }
    proof {
        assert(fs.take(i as int) =~= fs);
    }
    field_type
}

/// The type of `member_ptr` on an operand of the given type, or its error.
fn check_member_ptr(program: &Program, operand_type: Type, field: &crate::parser::ir::Ident) -> (r: Result<Type, String>)
    ensures
        match member_ptr_check(program@, operand_type@, field@) {
            RhsCheck::Typed(t) => r matches Ok(x) && x@ == t,
            RhsCheck::Fail(m) => r matches Err(e) && e@ == m,
            RhsCheck::Done => false,
        },
{
    let ghost ot = operand_type@;
    let pointed_at = match operand_type {
        Type::Ptr(inner) => *inner,
        other => return Err(message_with_type("member_ptr expects a pointer, got ", &other)),
    };
    let ghost pa = pointed_at@;
    proof {
        assert(ot == TypeV::Ptr(Box::new(pa)));
    }
    let path = match pointed_at {
        Type::Path(path) => path,
        other => {
            let mut m = String::new();
            push_text(&mut m, "member_ptr expects ptr<Struct>, got ptr<");
            push_debug_type(&mut m, &other);
            push_text(&mut m, ">");
            return Err(m);
        },
    };
    proof {
        assert(pa == TypeV::Path(path@));
        assert(ot == TypeV::Ptr(Box::new(TypeV::Path(path@))));
    }
    let declared_struct = match find_extern_type(&program.externtypes, &path) {
        Some(extern_type_block) => extern_type_block,
        None => {
            let mut m = String::new();
            push_debug_path(&mut m, &path);
            push_text(&mut m, " is not declared as an extern type");
            proof {
                assert(m@ =~= debug_path(path@) + " is not declared as an extern type"@);
            }
            return Err(m);
        },
    };
    let field_type = match find_field_type(&declared_struct.fields, &field.string) {
        Some(typealt) => typealt,
        None => {
            let mut m = String::new();
            push_text(&mut m, "field ");
            push_text(&mut m, field.string.as_str());
            push_text(&mut m, " does not exist on ");
            push_debug_path(&mut m, &path);
            proof {
                assert(m@ =~= "field "@ + field@ + " does not exist on "@ + debug_path(path@));
            }
            return Err(m);
        },
    };
    Ok(Type::Ptr(Box::new(field_type)))
}

/// Whether a literal fits a type.
fn literal_compatible(literal: &Literal, dest_type: &Type) -> (r: bool)
    ensures
        r == literal_fits(literal@, dest_type@),
{
    match literal {
        Literal::IntegerLiteral(_) => is_integer_type(dest_type),
        Literal::FloatLiteral(_) => match dest_type {
            Type::PrimType(PrimType::F64) => true,
            _ => false,
        },
        Literal::True | Literal::False => is_bool_type(dest_type),
        Literal::Null => match dest_type {
            Type::Ptr(_) => true,
            _ => false,
        },
    }
}

/// The text of a fixed message.
fn message(text: &str) -> (m: String)
    ensures
        m@ == text@,
{
    let mut m = String::new();
    push_text(&mut m, text);
    m
}

/// Checks one statement: its destination is looked up, its right-hand side
/// is checked, and a typed right-hand side must match the destination.
fn check_stmt(program: &Program, symboltable: &SymbolTable, stmt: &Stmt) -> (r: Result<(), String>)
    ensures
        reports(r, stmt_check(program@, symboltable@)(stmt@)),
{
    let lhs_type: Option<Type> = match &stmt.local {
        Some(local) => Some(symboltable.lookup(local)?),
        None => None,
    };
    let ghost dest: Option<TypeV> = match &lhs_type {
        Some(t) => Some(t@),
        None => None,
    };
    let ghost outcome = rhs_check(program@, symboltable@, stmt@.rhs, dest);
    let rhs_type: Type = match &stmt.rhs {
        Rhs::Use(local) => symboltable.lookup(local)?,
        Rhs::Const(literal) => {
            let dest_type = match &lhs_type {
                Some(lhs_type) => lhs_type,
                None => return Err(message("const needs a destination local")),
            };
            if !literal_compatible(literal, dest_type) {
                let mut m = String::new();
                push_text(&mut m, "literal ");
                push_debug_literal(&mut m, literal);
                push_text(&mut m, " is not compatible with ");
                push_debug_type(&mut m, dest_type);
                proof {
                    assert(m@ =~= "literal "@ + debug_literal(literal@) + " is not compatible with "@ + debug_type(dest_type@));
                }
                return Err(m);
            }
            return Ok(());
        },
        Rhs::Cast(_, typealt) => typealt.copy(),
        Rhs::Un(unop, local) => {
            let operand_type = symboltable.lookup(local)?;
            match unop {
                UnOp::Neg => {
                    if !is_numeric_type(&operand_type) {
                        return Err(message_with_type("neg expects a numeric type,but got ", &operand_type));
                    }
                    operand_type
                },
                UnOp::Not => {
                    if !is_bool_type(&operand_type) {
                        return Err(message_with_type("not expects bool, but got ", &operand_type));
                    }
                    Type::PrimType(PrimType::Bool)
                },
            }
        },
        Rhs::Bin(binop, left, right) => {
            let left_type = symboltable.lookup(left)?;
            let right_type = symboltable.lookup(right)?;
            check_bin(*binop, left_type, right_type)?
        },
        Rhs::Addr_of(local) => {
            let local_type = symboltable.lookup(local)?;
            Type::Ptr(Box::new(local_type))
        },
        Rhs::Member_ptr(operand, field) => {
            let operand_type = symboltable.lookup(operand)?;
            check_member_ptr(program, operand_type, field)?
        },
        Rhs::Load(local) => {
            let local_type = symboltable.lookup(local)?;
            match local_type {
                Type::Ptr(inner_type) => *inner_type,
                _ => return Err(message_with_type("load expects a pointer, but got ", &local_type)),
            }
        },
        Rhs::Store(ptr_local, val_local) => {
            if lhs_type.is_some() {
                return Err(message("store does not have a destination local"));
            }
            let ptr_type = symboltable.lookup(ptr_local)?;
            let val_type = symboltable.lookup(val_local)?;
            match &ptr_type {
                Type::Ptr(inner_type) => {
                    if !type_eq(inner_type, &val_type) {
                        return Err(message_with_types("store cannot put ", &val_type, " into pointer ", inner_type));
                    }
                    return Ok(());
                },
                _ => {
                    return Err(message_with_type("store destination must be a pointer, got ", &ptr_type));
                },
            }
        },
        Rhs::Call(_, _) => return Ok(()),
    };
    proof {
        assert(outcome == RhsCheck::Typed(rhs_type@));
    }
    let lhs_type = match lhs_type {
        Some(lhs_type) => lhs_type,
        None => return Err(message("statement is missing a destination local")),
    };
    if !type_eq(&lhs_type, &rhs_type) {
        return Err(message_with_types("LHS type ", &lhs_type, " does not match RHS type ", &rhs_type));
    }
    Ok(())
}

/// Checks that every statement of every block is well typed.
fn check_statements(program: &Program, symboltable: &SymbolTable) -> (r: Result<(), String>)
    ensures
        reports(r, statements_error(program@, symboltable@)),
{
    let ghost blocks = program@.function.blocks;
    let ghost fb = block_stmts_check(program@, symboltable@);
    let ghost fs = stmt_check(program@, symboltable@);
    proof {
        lemma_first_error_ends(blocks, fb);
    }
    let mut b: usize = 0;
    while b < program.function.blocks.len()
        invariant
            blocks == program@.function.blocks,
            blocks == block_values(program.function.blocks@),
            fb == block_stmts_check(program@, symboltable@),
            fs == stmt_check(program@, symboltable@),
            b <= program.function.blocks@.len(),
            first_error(blocks, fb) == first_error(blocks.skip(b as int), fb),
        decreases program.function.blocks@.len() - b,
    {
        let block = &program.function.blocks[b];
        proof {
            lemma_first_error_step(blocks, b as int, fb);
            assert(blocks[b as int] == block@);
        }
        let ghost stmts = stmt_values(block.stmt@);
        proof {
            lemma_first_error_ends(stmts, fs);
        }
        let mut s: usize = 0;
        while s < block.stmt.len()
            invariant
                stmts == stmt_values(block.stmt@),
                fs == stmt_check(program@, symboltable@),
                fb == block_stmts_check(program@, symboltable@),
                blocks == block_values(program.function.blocks@),
                b < program.function.blocks@.len(),
                blocks[b as int] == block@,
                first_error(blocks, fb) == match fb(blocks[b as int]) {
                    Some(e) => Some(e),
                    None => first_error(blocks.skip(b + 1), fb),
                },
                s <= block.stmt@.len(),
                first_error(stmts, fs) == first_error(stmts.skip(s as int), fs),
            decreases block.stmt@.len() - s,
        {
            proof {
                lemma_first_error_step(stmts, s as int, fs);
            }
            check_stmt(program, symboltable, &block.stmt[s])?;
            s = s + 1;
        }
        proof {
            lemma_first_error_ends(stmts, fs);
        }
        b = b + 1;
    }
    proof {
        lemma_first_error_ends(blocks, fb);
    }
    Ok(())
}

/// Checks that every `return` matches the function's return type.
fn check_returns_match(function: &Function, symboltable: &SymbolTable) -> (r: Result<(), String>)
    ensures
        reports(r, returns_error(function@, symboltable@)),
{
    let ghost blocks = function@.blocks;
    let ghost fb = return_check(function@, symboltable@);
    proof {
        lemma_first_error_ends(blocks, fb);
    }
    let mut b: usize = 0;
    while b < function.blocks.len()
        invariant
            blocks == function@.blocks,
            blocks == block_values(function.blocks@),
            fb == return_check(function@, symboltable@),
            b <= function.blocks@.len(),
            first_error(blocks, fb) == first_error(blocks.skip(b as int), fb),
        decreases function.blocks@.len() - b,
    {
        let block = &function.blocks[b];
        proof {
            lemma_first_error_step(blocks, b as int, fb);
            assert(blocks[b as int] == block@);
        }
        if let Term::Return(return_local) = &block.term {
            match &function.rettype {
                RetType::typealt(function_type) => {
                    match return_local {
                        Some(local) => {
                            let return_type = symboltable.lookup(local)?;
                            if !type_eq(&return_type, function_type) {
                                return Err(message_with_types(
                                    "return type is incorrect. received ",
                                    &return_type,
                                    " instead of ",
                                    function_type,
                                ));
                            }
                        },
                        None => {
                            return Err(message("Function which was supposed to return a value returned none."));
                        },
                    }
                },
                RetType::Void => {
                    if return_local.is_some() {
                        return Err(message("A void function returned a value!"));
                    }
                },
            }
        }
        b = b + 1;
    }
    proof {
        lemma_first_error_ends(blocks, fb);
    }
    Ok(())
}

/// Checks that the condition of every `cjump` is a `bool`.
fn check_cjump_is_bool(function: &Function, symboltable: &SymbolTable) -> (r: Result<(), String>)
    ensures
        reports(r, cjump_error(function@, symboltable@)),
{
    let ghost blocks = function@.blocks;
    let ghost fb = cjump_check(symboltable@);
    proof {
        lemma_first_error_ends(blocks, fb);
    }
    let mut b: usize = 0;
    while b < function.blocks.len()
        invariant
            blocks == function@.blocks,
            blocks == block_values(function.blocks@),
            fb == cjump_check(symboltable@),
            b <= function.blocks@.len(),
            first_error(blocks, fb) == first_error(blocks.skip(b as int), fb),
        decreases function.blocks@.len() - b,
    {
        let block = &function.blocks[b];
        proof {
            lemma_first_error_step(blocks, b as int, fb);
            assert(blocks[b as int] == block@);
        }
        if let Term::CJump(condition, _, _) = &block.term {
            let condition_type = symboltable.lookup(condition)?;
            if !is_bool_type(&condition_type) {
                return Err(message_with_types_end(
                    "Cjump's condition type must be a boolean. Got ",
                    &condition_type,
                    " instead.",
                ));
            }
        }
        b = b + 1;
    }
    proof {
        lemma_first_error_ends(blocks, fb);
    }
    Ok(())
}

/// `{prefix}{t:?}{suffix}`
fn message_with_types_end(prefix: &str, t: &Type, suffix: &str) -> (m: String)
    ensures
        m@ == prefix@ + debug_type(t@) + suffix@,
{
    let mut m = String::new();
    push_text(&mut m, prefix);
    push_debug_type(&mut m, t);
    push_text(&mut m, suffix);
    m
}

/// The type under all the pointer layers of a type.
pub(crate) fn innermost_type(t: &Type) -> (r: &Type)
    ensures
        r@ == pointee(t@),
        !(r@ is Ptr),
    decreases t,
{
    match t {
        Type::Ptr(pointer_type) => innermost_type(pointer_type),
        _ => t,
    }
}

/// The values of a list of type references.
pub open spec fn type_ref_values(s: Seq<&Type>) -> Seq<TypeV> {
    s.map_values(|t: &Type| t@)
}

/// Appends references to the types of a list of declarations.
fn push_decl_types<'a>(types: &mut Vec<&'a Type>, fields: &'a Vec<crate::parser::ir::Field>)
    ensures
        type_ref_values(final(types)@) == type_ref_values(old(types)@) + decl_types(field_values(fields@)),
{
    let ghost start = type_ref_values(types@);
    let mut i: usize = 0;
    while i < fields.len()
        invariant
            i <= fields@.len(),
            type_ref_values(types@) == start + decl_types(field_values(fields@.take(i as int))),
        decreases fields@.len() - i,
    {
        let ghost before = types@;
        types.push(&fields[i].typealt);
        proof {
            assert(type_ref_values(types@) =~= type_ref_values(before).push(fields@[i as int].typealt@));
            assert(decl_types(field_values(fields@.take(i + 1))) =~= decl_types(field_values(fields@.take(i as int))).push(fields@[i as int].typealt@));
        }
        i = i + 1;
    }
    proof {
        assert(fields@.take(i as int) =~= fields@);
    }
}

/// References to every type written in the program, in order: field types,
/// parameter types, the return type, local types and cast targets.
pub fn collect_written_types<'a>(program: &'a Program) -> (types_to_check: Vec<&'a Type>)
    ensures
        type_ref_values(types_to_check@) == written_types(program@),
{
    let mut types_to_check: Vec<&Type> = Vec::new();
    let function = &program.function;
    let ghost p = program@;

    // fields
    let mut x: usize = 0;
    while x < program.externtypes.len()
        invariant
            p == program@,
            x <= program.externtypes@.len(),
            type_ref_values(types_to_check@) == field_types(extern_values(program.externtypes@).take(x as int)),
        decreases program.externtypes@.len() - x,
    {
        push_decl_types(&mut types_to_check, &program.externtypes[x].fields);
        proof {
            let xs = extern_values(program.externtypes@);
            assert(xs.take(x + 1).drop_last() =~= xs.take(x as int));
            assert(xs.take(x + 1).last() == program.externtypes@[x as int]@);
        }
        x = x + 1;
    }
    proof {
        assert(extern_values(program.externtypes@).take(x as int) =~= p.externtypes);
    }
    let ghost after_fields = type_ref_values(types_to_check@);

    // parameters
    if let Some(params) = &function.params {
        let mut i: usize = 0;
        while i < params.params.len()
            invariant
                i <= params.params@.len(),
                type_ref_values(types_to_check@) == after_fields + decl_types(param_values(params.params@.take(i as int))),
            decreases params.params@.len() - i,
        {
            let ghost before = types_to_check@;
            types_to_check.push(&params.params[i].typealt);
            proof {
                assert(type_ref_values(types_to_check@) =~= type_ref_values(before).push(params.params@[i as int].typealt@));
                assert(decl_types(param_values(params.params@.take(i + 1))) =~= decl_types(param_values(params.params@.take(i as int))).push(params.params@[i as int].typealt@));
            }
            i = i + 1;
        }
        proof {
            assert(params.params@.take(i as int) =~= params.params@);
        }
    } else {
        proof {
            assert(type_ref_values(types_to_check@) =~= after_fields + decl_types(Seq::<DeclV>::empty()));
        }
    }
    let ghost after_params = type_ref_values(types_to_check@);

    // return type
    match &function.rettype {
        RetType::typealt(typealt) => {
            types_to_check.push(typealt);
        },
        RetType::Void => {},
    }
    let ghost after_rettype = type_ref_values(types_to_check@);
    proof {
        assert(after_rettype =~= after_params + match p.function.rettype {
            RetTypeV::Type(t) => seq![t],
            RetTypeV::Void => Seq::<TypeV>::empty(),
        });
    }

    // locals
    let mut l: usize = 0;
    while l < function.locals.len()
        invariant
            l <= function.locals@.len(),
            type_ref_values(types_to_check@) == after_rettype + decl_types(local_decl_values(function.locals@.take(l as int))),
        decreases function.locals@.len() - l,
    {
        let ghost before = types_to_check@;
        types_to_check.push(&function.locals[l].1);
        proof {
            assert(type_ref_values(types_to_check@) =~= type_ref_values(before).push(function.locals@[l as int].1@));
            assert(decl_types(local_decl_values(function.locals@.take(l + 1))) =~= decl_types(local_decl_values(function.locals@.take(l as int))).push(function.locals@[l as int].1@));
        }
        l = l + 1;
    }
    proof {
        assert(function.locals@.take(l as int) =~= function.locals@);
    }
    let ghost after_locals = type_ref_values(types_to_check@);

    // cast targets
    let mut b: usize = 0;
    while b < function.blocks.len()
        invariant
            b <= function.blocks@.len(),
            type_ref_values(types_to_check@) == after_locals + cast_types(block_values(function.blocks@).take(b as int)),
        decreases function.blocks@.len() - b,
    {
        let block = &function.blocks[b];
        let ghost block_start = type_ref_values(types_to_check@);
        let mut s: usize = 0;
        while s < block.stmt.len()
            invariant
                s <= block.stmt@.len(),
                type_ref_values(types_to_check@) == block_start + stmt_cast_types(stmt_values(block.stmt@).take(s as int)),
            decreases block.stmt@.len() - s,
        {
            let ghost before = types_to_check@;
            if let Rhs::Cast(_, target_type) = &block.stmt[s].rhs {
                types_to_check.push(target_type);
                proof {
                    assert(type_ref_values(types_to_check@) =~= type_ref_values(before).push(target_type@));
                    assert(block.stmt@[s as int]@.rhs == RhsV::Cast(block.stmt@[s as int]@.rhs->Cast_0, target_type@));
                }
            } else {
                proof {
                    assert(type_ref_values(types_to_check@) =~= type_ref_values(before));
                    assert(!(block.stmt@[s as int]@.rhs is Cast));
                }
            }
            proof {
                let ss = stmt_values(block.stmt@);
                assert(ss.take(s + 1).drop_last() =~= ss.take(s as int));
                assert(ss.take(s + 1).last() == block.stmt@[s as int]@);
                assert(type_ref_values(types_to_check@) =~= block_start + stmt_cast_types(ss.take(s + 1)));
            }
            s = s + 1;
        }
        proof {
            let bs = block_values(function.blocks@);
            assert(stmt_values(block.stmt@).take(s as int) =~= stmt_values(block.stmt@));
            assert(bs.take(b + 1).drop_last() =~= bs.take(b as int));
            assert(bs.take(b + 1).last() == block@);
            assert(type_ref_values(types_to_check@) =~= after_locals + cast_types(bs.take(b + 1)));
        }
        b = b + 1;
    }
    proof {
        assert(block_values(function.blocks@).take(b as int) =~= p.function.blocks);
        assert(type_ref_values(types_to_check@) =~= written_types(p));
    }
    types_to_check
}

/// Checks that every custom type written in the program (under any
/// pointers) is declared by an extern type: field types, parameter types,
/// the return type, local types and cast targets, in that order.
fn check_custom_types_declared(program: &Program) -> (r: Result<(), String>)
    ensures
        reports(r, custom_types_error(program@)),
{
    let ghost p = program@;
    let types_to_check = collect_written_types(program);
    // check every collected type, under its pointers
    let ghost types = type_ref_values(types_to_check@);
    let ghost f = custom_type_check(p);
    proof {
        lemma_first_error_ends(types, f);
    }
    let mut k: usize = 0;
    while k < types_to_check.len()
        invariant
            p == program@,
            types == type_ref_values(types_to_check@),
            types == written_types(p),
            f == custom_type_check(p),
            k <= types_to_check@.len(),
            first_error(types, f) == first_error(types.skip(k as int), f),
        decreases types_to_check@.len() - k,
    {
        proof {
            lemma_first_error_step(types, k as int, f);
        }
        let type_to_check = innermost_type(types_to_check[k]);
        match type_to_check {
            Type::Path(path) => {
                let mut declared = false;
                let mut e: usize = 0;
                while e < program.externtypes.len()
                    invariant
                        p == program@,
                        e <= program.externtypes@.len(),
                        declared == exists|j: int| 0 <= j < e && (#[trigger] p.externtypes[j]).path == path@,
                    decreases program.externtypes@.len() - e,
                {
                    if path_eq(path, &program.externtypes[e].path) {
                        declared = true;
                    }
                    proof {
                        assert(p.externtypes[e as int] == program.externtypes@[e as int]@);
                    }
                    e = e + 1;
                }
                if !declared {
                    let mut m = String::new();
                    push_text(&mut m, "custom type ");
                    push_debug_path(&mut m, path);
                    push_text(&mut m, " is referenced but not declared");
                    proof {
                        assert(m@ =~= "custom type "@ + debug_path(path@) + " is referenced but not declared"@);
                    }
                    return Err(m);
                }
            },
            _ => {},
        }
        k = k + 1;
    }
    proof {
        lemma_first_error_ends(types, f);
    }
    Ok(())
}

/// Checks the program against its control-flow graph: every local used is
/// declared, block labels are unique, the entry block and every jump target
/// exist, statements are well typed, returns match the return type, cjump
/// conditions are `bool`, and custom types are declared. Returns `Ok(true)`
/// when every check passes, else the first error found, checks in that order.
pub fn analyse(program: &Program, cfg: &Cfg) -> (r: Result<bool, String>)
    ensures
        match analysis(program@, cfg@) {
            None => r == Ok::<bool, String>(true),
            Some(m) => r matches Err(e) && e@ == m,
        },
{
    let function = &program.function;
    let ghost f = function@;
    let mut symboltable = SymbolTable::new();
    let ghost param_decls = match f.params {
        Some(ps) => ps,
        None => Seq::<DeclV>::empty(),
    };
    if let Some(params) = &function.params {
        let mut i: usize = 0;
        while i < params.params.len()
            invariant
                i <= params.params@.len(),
                symboltable@ == declare_all(Map::empty(), param_values(params.params@).take(i as int)),
            decreases params.params@.len() - i,
        {
            let param = &params.params[i];
            symboltable.insert(param.local.ident.string.as_str(), param.typealt.copy());
            proof {
                let ps = param_values(params.params@);
                assert(ps.take(i + 1).drop_last() =~= ps.take(i as int));
                assert(ps.take(i + 1).last() == param@);
            }
            i = i + 1;
        }
        proof {
            assert(param_values(params.params@).take(i as int) =~= param_decls);
        }
    } else {
        proof {
            assert(declare_all(Map::empty(), param_decls) == Map::<Seq<char>, TypeV>::empty());
        }
    }
    let ghost after_params = symboltable@;
    let mut l: usize = 0;
    while l < function.locals.len()
        invariant
            l <= function.locals@.len(),
            symboltable@ == declare_all(after_params, local_decl_values(function.locals@).take(l as int)),
        decreases function.locals@.len() - l,
    {
        let (local, typealt) = &function.locals[l];
        symboltable.insert(local.ident.string.as_str(), typealt.copy());
        proof {
            let ls = local_decl_values(function.locals@);
            assert(ls.take(l + 1).drop_last() =~= ls.take(l as int));
            assert(ls.take(l + 1).last() == crate::parser::ir::DeclV { name: local@, typ: typealt@ });
        }
        l = l + 1;
    }
    proof {
        assert(local_decl_values(function.locals@).take(l as int) =~= f.locals);
        assert(symboltable@ == symbols(f));
    }

    check_locals_declared(function, &symboltable)?;
    check_labels_unique(cfg)?;
    check_entry_exists(cfg)?;
    check_targets_exist(cfg)?;
    check_statements(program, &symboltable)?;
    check_returns_match(function, &symboltable)?;
    check_cjump_is_bool(function, &symboltable)?;
    check_custom_types_declared(program)?;
    Ok(true)
}

} // verus!
