use resir::lexer::lexer_core::produce_tokens;
use resir::parser::cfg::build_cfg;
use resir::parser::ir::{Ident, Local, PrimType, Program, Type};
use resir::parser::parser_core::Parser;
use resir::semantic::analyser_core::{analyse, collect_written_types};
use resir::semantic::symbols::SymbolTable;

fn parse(input: &str) -> Program {
    let tokens = produce_tokens(input).unwrap();
    let mut parser = Parser::new(tokens);
    parser.parse_program().unwrap()
}

fn check(input: &str) -> Result<bool, String> {
    let program = parse(input);
    let cfg = build_cfg(&program.function);
    analyse(&program, &cfg)
}

fn local(name: &str) -> Local {
    Local { ident: Ident { string: name.to_string() } }
}

const ABS_DIFF: &str = "
function Math::abs_diff(%a: i32, %b: i32) -> i32 {
    locals { %zero: i32; %d: i32; %is_neg: bool; %r: i32; }
    entry bb0;
    bb0:
        %zero   = const 0;
        %d      = bin sub %a, %b;
        %is_neg = bin lt %d, %zero;
        cjump %is_neg, bb1, bb2;
    bb1:
        %r = un neg %d;
        return %r;
    bb2:
        return %d;
}
";

const POINT_X: &str = "
extern type Custom::Struct::Point {
    x : i32;
    y : i32;
}
function Geom::point_x(%p: ptr<Custom::Struct::Point>) -> i32 {
    locals {
        %fp : ptr<i32>;
        %v  : i32;
    }
    entry bb0;

    bb0:
        %fp = member_ptr %p, x;
        %v = load %fp;
        return %v;
}
";

#[test]
fn well_typed_programs_pass() {
    assert_eq!(check(ABS_DIFF), Ok(true));
    assert_eq!(check(POINT_X), Ok(true));
}

#[test]
fn undeclared_local_is_reported() {
    let src = "
function Test::undeclared_local(%a: i32) -> i32 {
    locals { }
    entry bb0;
    bb0:
        %x = const 1;
        return %a;
}
";
    assert_eq!(
        check(src),
        Err("%x is used in your code, but has no type! Consider declering it.".to_string())
    );
}

#[test]
fn duplicate_labels_are_reported() {
    let src = "
function Test::duplicate_labels(%a: i32) -> i32 {
    locals { }
    entry bb0;
    bb0:
        return %a;
    bb0:
        return %a;
}
";
    assert_eq!(check(src), Err("duplicate block label bb0".to_string()));
}

#[test]
fn missing_entry_block_is_reported() {
    let src = "
function Test::missing_entry_block(%a: i32) -> i32 {
    locals { }
    entry bb9;
    bb0:
        return %a;
}
";
    assert_eq!(check(src), Err("Entry block does not exist!".to_string()));
}

#[test]
fn missing_jump_target_is_reported() {
    let src = "
function Test::missing_jump_target() -> void {
    locals { }
    entry bb0;
    bb0:
        jump bb9;
}
";
    assert_eq!(check(src), Err("Jump or Cjump targets dont exist!".to_string()));
}

#[test]
fn cjump_condition_must_be_bool() {
    let src = "
function Test::bad_cjump(%a: i32) -> i32 {
    locals { }
    entry bb0;
    bb0:
        cjump %a, bb1, bb2;
    bb1:
        return %a;
    bb2:
        return %a;
}
";
    assert_eq!(
        check(src),
        Err("Cjump's condition type must be a boolean. Got PrimType(I32) instead.".to_string())
    );
}

#[test]
fn return_type_must_match() {
    let src = "
function Test::bad_return(%a: i32) -> i32 {
    locals { %b : bool; }
    entry bb0;
    bb0:
        %b = const true;
        return %b;
}
";
    assert_eq!(
        check(src),
        Err("return type is incorrect. received PrimType(Bool) instead of PrimType(I32)".to_string())
    );
    let void_returns_value = "
function T::f(%a: i32) -> void {
    locals { }
    entry bb0;
    bb0:
        return %a;
}
";
    assert_eq!(check(void_returns_value), Err("A void function returned a value!".to_string()));
    let value_returns_none = "
function T::f(%a: i32) -> i32 {
    locals { }
    entry bb0;
    bb0:
        return;
}
";
    assert_eq!(
        check(value_returns_none),
        Err("Function which was supposed to return a value returned none.".to_string())
    );
}

#[test]
fn binary_operands_must_match() {
    let src = "
function Test::bad_bin(%a: i32, %b: bool) -> i32 {
    locals { %r : i32; }
    entry bb0;
    bb0:
        %r = bin add %a, %b;
        return %r;
}
";
    assert_eq!(
        check(src),
        Err("Add expects matching numeric operands, but got PrimType(I32) and PrimType(Bool)".to_string())
    );
}

#[test]
fn load_needs_a_pointer() {
    let src = "
function Test::bad_load(%p: i32) -> i32 {
    locals { %x : i32; }
    entry bb0;
    bb0:
        %x = load %p;
        return %x;
}
";
    assert_eq!(check(src), Err("load expects a pointer, but got PrimType(I32)".to_string()));
}

#[test]
fn store_value_must_fit_the_pointer() {
    let src = "
function Test::bad_store(%p: ptr<i32>, %b: bool) -> void {
    locals { }
    entry bb0;
    bb0:
        store %p, %b;
        return;
}
";
    assert_eq!(
        check(src),
        Err("store cannot put PrimType(Bool) into pointer PrimType(I32)".to_string())
    );
}

#[test]
fn member_ptr_field_must_exist() {
    let src = "
extern type Custom::Struct::Point {
    x : i32;
}
function Test::bad_member_ptr(%p: ptr<Custom::Struct::Point>) -> void {
    locals { %fp : ptr<i32>; }
    entry bb0;
    bb0:
        %fp = member_ptr %p, y;
        return;
}
";
    assert_eq!(
        check(src),
        Err("field y does not exist on Path { ident: [Ident { string: \"Custom\" }, Ident { string: \"Struct\" }, Ident { string: \"Point\" }] }".to_string())
    );
}

#[test]
fn custom_types_must_be_declared() {
    let src = "
function Test::undeclared_custom_type() -> void {
    locals { %p : ptr<Custom::Nope>; }
    entry bb0;
    bb0:
        return;
}
";
    assert_eq!(
        check(src),
        Err("custom type Path { ident: [Ident { string: \"Custom\" }, Ident { string: \"Nope\" }] } is referenced but not declared".to_string())
    );
}

#[test]
fn literal_must_fit_its_destination() {
    let src = "
function T::f() -> void {
    locals { %b : bool; }
    entry bb0;
    bb0:
        %b = const 5;
        return;
}
";
    assert_eq!(check(src), Err("literal IntegerLiteral(5) is not compatible with PrimType(Bool)".to_string()));
    let src = src.replace("const 5", "const null");
    assert_eq!(check(&src), Err("literal Null is not compatible with PrimType(Bool)".to_string()));
}

#[test]
fn unary_and_logical_operators_are_checked() {
    let src = "
function T::f(%a: bool, %b: i32) -> void {
    locals { %c : bool; %d : i32; }
    entry bb0;
    bb0:
        %d = un neg %a;
        return;
}
";
    assert_eq!(check(src), Err("neg expects a numeric type,but got PrimType(Bool)".to_string()));
    let src2 = src.replace("%d = un neg %a", "%c = un not %b");
    assert_eq!(check(&src2), Err("not expects bool, but got PrimType(I32)".to_string()));
    let src3 = src.replace("%d = un neg %a", "%c = bin and %a, %b");
    assert_eq!(
        check(&src3),
        Err("And expects bool operands, but got PrimType(Bool) and PrimType(I32)".to_string())
    );
    let src4 = src.replace("%d = un neg %a", "%d = bin mod %b, %a");
    assert_eq!(
        check(&src4),
        Err("Mod expects matching integer operands for mod, but got PrimType(I32) and PrimType(Bool)".to_string())
    );
    let src5 = src.replace("%d = un neg %a", "%c = bin eq %b, %a");
    assert_eq!(
        check(&src5),
        Err("Eq expects matching operands, but got PrimType(I32) and PrimType(Bool)".to_string())
    );
    let src6 = src.replace("%d = un neg %a", "%c = bin lt %b, %b");
    assert_eq!(check(&src6), Ok(true));
}

#[test]
fn assignments_must_match_their_destination() {
    let src = "
function T::f(%a: i32) -> void {
    locals { %c : bool; }
    entry bb0;
    bb0:
        %c = %a;
        return;
}
";
    assert_eq!(
        check(src),
        Err("LHS type PrimType(Bool) does not match RHS type PrimType(I32)".to_string())
    );
    let src2 = src.replace("%c = %a", "%c = addr_of %a");
    assert_eq!(
        check(&src2),
        Err("LHS type PrimType(Bool) does not match RHS type Ptr(PrimType(I32))".to_string())
    );
    let src3 = src.replace("%c = %a", "%c = member_ptr %a, x");
    assert_eq!(check(&src3), Err("member_ptr expects a pointer, got PrimType(I32)".to_string()));
}

#[test]
fn first_failing_check_wins() {
    let src = "
function T::f(%a: i32) -> void {
    locals { }
    entry bb3;
    bb0:
        jump bb7;
    bb0:
        return %zz;
}
";
    assert_eq!(
        check(src),
        Err("%zz is used in your code, but has no type! Consider declering it.".to_string())
    );
    let src = src.replace("%zz", "%a");
    assert_eq!(check(&src), Err("duplicate block label bb0".to_string()));
}

#[test]
fn symbol_table_lookup_after_insert() {
    let mut table = SymbolTable::new();
    assert_eq!(
        table.lookup(&local("a")).unwrap_err(),
        "%a is used in your code, but has no type! Consider declering it."
    );
    table.insert("a", Type::PrimType(PrimType::I32));
    table.insert("b", Type::PrimType(PrimType::Bool));
    assert!(matches!(table.lookup(&local("a")), Ok(Type::PrimType(PrimType::I32))));
    table.insert("a", Type::Ptr(Box::new(Type::PrimType(PrimType::I64))));
    match table.lookup(&local("a")) {
        Ok(Type::Ptr(inner)) => assert!(matches!(*inner, Type::PrimType(PrimType::I64))),
        _ => panic!("expected the later declaration"),
    }
    assert!(matches!(table.lookup(&local("b")), Ok(Type::PrimType(PrimType::Bool))));
}

#[test]
fn written_types_are_collected_in_order() {
    let program = parse(POINT_X);
    let types = collect_written_types(&program);
    assert_eq!(types.len(), 6);
    assert!(matches!(types[0], Type::PrimType(PrimType::I32)));
    assert!(matches!(types[2], Type::Ptr(_)));
    assert!(matches!(types[3], Type::PrimType(PrimType::I32)));
}

#[test]
fn path_names_in_messages_are_written_as_debug_strings() {
    let src = "
function Test::undeclared_custom_type() -> void {
    locals { %p : ptr<Custom::Nope>; }
    entry bb0;
    bb0:
        return;
}
";
    let mut program = parse(src);
    let odd = "No\u{7}pe\"\u{301}".to_string();
    if let Type::Ptr(inner) = &mut program.function.locals[0].1 {
        if let Type::Path(path) = inner.as_mut() {
            path.ident[1].string = odd.clone();
        }
    }
    let cfg = build_cfg(&program.function);
    let expected = format!(
        "custom type Path {{ ident: [Ident {{ string: \"Custom\" }}, Ident {{ string: {:?} }}] }} is referenced but not declared",
        odd.as_str()
    );
    assert_eq!(analyse(&program, &cfg), Err(expected));
}
