use resir::lexer::lexer_core::produce_tokens;
use resir::lexer::tokens::{Token, TokenAttribute, TokenKind};
use resir::parser::ir::{BinOp, Literal, PrimType, Program, RetType, Rhs, Term, Type, UnOp};
use resir::parser::literals::{is_float_literal, parse_i64};
use resir::parser::parser_core::Parser;
use resir::text::{decimal_string, signed_decimal_string};

const EXAMPLE_ASSIGNMENT_1: &str = "
function Math::abs_diff(%a: i32, %b: i32) -> i32 {
\tlocals {
\t\t%zero\t: i32;
\t\t%d\t\t: i32;
\t\t%is_neg : bool;
\t\t%r\t\t: i32;
\t}
\tentry bb0;
\tbb0:
\t\t%zero   = const 0;
\t\t%d  \t= bin sub %a, %b;
\t\t%is_neg = bin lt %d, %zero;
\t    cjump %is_neg, bb1, bb2;

\tbb1:
\t\t%r = un neg %d;
\t\treturn %r;

\tbb2:
\t\treturn %d;
}
";

const EXAMPLE_ASSIGNMENT_2: &str = "
function Client::sum_abs_diffs(%a: i32, %b: i32,
                               %c: i32, %d: i32) -> i32 {
    locals {
        %dx : i32;
        %dy : i32;
        %r  : i32;
    }
    entry bb0;

    bb0:
        %dx = call Math::abs_diff(%a, %b);
        %dy = call Math::abs_diff(%c, %d);
        %r  = bin add %dx, %dy;
        return %r;
}

";

const EXAMPLE_ASSIGNMENT_3: &str = "
extern type Custom::Struct::Point {
    x : i32;
    y : i32;
}
function Geom::point_x(%p: ptr<Custom::Struct::Point>) -> i32 {
\tlocals {
\t\t%fp : ptr<i32>;
        %v  : i32;
    }
    entry bb0;

    bb0:
        %fp = member_ptr %p, x;
        %v = load %fp;
        return %v;
}

";

const CONST_ASSIGNMENT: &str = "
function Test::const_only(%a: i32) -> i32 {
    locals { %x : i32; }
    entry bb0;
    bb0:
        %x = const 42;
        return %x;
}
";

const BIN_OP: &str = "
function Test::add_numbers(%a: i32, %b: i32) -> i32 {
    locals { %r : i32; }
    entry bb0;
    bb0:
        %r = bin add %a, %b;
        return %r;
}
";

const FUNCTION_CALL: &str = "
function Test::funccall(%a: i32, %b: i32) -> i32 {
    locals { %r : i32; }
    entry bb0;
    bb0:
        %r = call Math::abs_diff(%a, %b);
        return %r;
}
";

const MEMBER_PTR: &str = "
function Test::member(%p: ptr<Custom::Struct::Point>) -> i32 {
    locals { %x : ptr<i32>; }
    entry bb0;
    bb0:
        %x = member_ptr %p, x;
        return %x;
}
";

const CJUMP: &str = "
function Test::branch(%a: i32) -> i32 {
    locals { %r : i32; }
    entry bb0;
    bb0:
        cjump %a, bb1, bb2;
    bb1:
        return %a;
    bb2:
        return %a;
}
";

const INVALID_NO_SEMICOLON: &str = "
function Math::abs_diff(%a: i32, %b: i32) -> i32 {
    locals {
        %x : i32
    }
    entry bb0;
    bb0:
        %x = const 0
        return %x;
}
";

const INVALID_MISSING_ENTRY: &str = "
function Math::abs_diff(%a: i32, %b: i32) -> i32 {
    locals {
        %x : i32;
    }

    bb0:
        %x = const 0;
        return %x;
}
";

const INVALID_BAD_SYNTAX: &str = "
bla bla nonsense !!! @function $$$
";

fn parse(input: &str) -> Result<Program, String> {
    let tokens = produce_tokens(input)?;
    let mut parser = Parser::new(tokens);
    parser.parse_program()
}

#[test]
fn parser_passes_assignment_examples() {
    assert!(parse(EXAMPLE_ASSIGNMENT_1).is_ok());
    assert!(parse(EXAMPLE_ASSIGNMENT_2).is_ok());
    assert!(parse(EXAMPLE_ASSIGNMENT_3).is_ok());
}

#[test]
fn const_assignment_parses() {
    let p = parse(CONST_ASSIGNMENT).expect("program should parse");
    let block = &p.function.blocks[0];

    assert!(!block.stmt.is_empty());

    let stmt = &block.stmt[0];

    match &stmt.rhs {
        Rhs::Const(_) => {}
        _ => panic!("expected const rhs"),
    }

    match &block.term {
        Term::Return(_) => {}
        _ => panic!("expected return terminator"),
    }
}

#[test]
fn binary_operation_parses() {
    let p = parse(BIN_OP).expect("program should parse");
    let stmts = &p.function.blocks[0].stmt;

    assert!(matches!(stmts[0].rhs, Rhs::Bin(_, _, _)));
}

#[test]
fn function_call_parses() {
    let p = parse(FUNCTION_CALL).expect("program should parse");
    let stmts = &p.function.blocks[0].stmt;

    assert!(matches!(stmts[0].rhs, Rhs::Call(_, _)));
}

#[test]
fn member_ptr_parses() {
    let p = parse(MEMBER_PTR).expect("program should parse");
    let stmts = &p.function.blocks[0].stmt;

    assert!(matches!(stmts[0].rhs, Rhs::Member_ptr(_, _)));
}

#[test]
fn cjump_parses() {
    let p = parse(CJUMP).expect("program should parse");
    let term = &p.function.blocks[0].term;

    assert!(matches!(term, Term::CJump(_, _, _)));
}

#[test]
fn no_semicolon_doesnt_parse() {
    let result = parse(INVALID_NO_SEMICOLON);
    assert!(result.is_err());
}

#[test]
fn missing_entry_doesnt_parse() {
    let result = parse(INVALID_MISSING_ENTRY);
    assert!(result.is_err());
}

#[test]
fn bad_syntax_doesnt_parse() {
    let result = parse(INVALID_BAD_SYNTAX);
    assert!(result.is_err());
}

#[test]
fn syntax_errors_name_the_token_where_they_stop() {
    assert_eq!(
        parse(INVALID_NO_SEMICOLON).unwrap_err(),
        "Syntax Error: expected ; after specifying type! at Line: 5, Col: 5"
    );
    assert_eq!(
        parse(INVALID_MISSING_ENTRY).unwrap_err(),
        "Syntax Error: expected 'entry'  at Line: 7, Col: 5"
    );
    assert_eq!(parse("").unwrap_err(), "Syntax Error: expected 'function' at Line: 1, Col: 1");
}

#[test]
fn nothing_may_follow_the_function() {
    let text = format!("{}bb0", CONST_ASSIGNMENT);
    assert_eq!(
        parse(&text).unwrap_err(),
        "Syntax Error: nothing should be written after function at Line: 9, Col: 1"
    );
}

#[test]
fn abs_diff_parses_to_its_tree() {
    let p = parse(EXAMPLE_ASSIGNMENT_1).unwrap();
    let f = &p.function;
    assert!(p.externtypes.is_empty());
    let names: Vec<&str> = f.path.ident.iter().map(|i| i.string.as_str()).collect();
    assert_eq!(names, vec!["Math", "abs_diff"]);
    let params = f.params.as_ref().unwrap();
    assert_eq!(params.params.len(), 2);
    assert_eq!(params.params[0].local.ident.string, "a");
    assert!(matches!(params.params[1].typealt, Type::PrimType(PrimType::I32)));
    assert!(matches!(f.rettype, RetType::typealt(Type::PrimType(PrimType::I32))));
    let locals: Vec<&str> = f.locals.iter().map(|(l, _)| l.ident.string.as_str()).collect();
    assert_eq!(locals, vec!["zero", "d", "is_neg", "r"]);
    assert!(matches!(f.locals[2].1, Type::PrimType(PrimType::Bool)));
    assert_eq!(f.entry.digits.len(), 1);
    assert_eq!(f.entry.digits[0].digit, 0);
    assert_eq!(f.blocks.len(), 3);
    let b0 = &f.blocks[0];
    assert_eq!(b0.stmt.len(), 3);
    assert!(matches!(b0.stmt[0].rhs, Rhs::Const(Literal::IntegerLiteral(0))));
    assert!(matches!(b0.stmt[1].rhs, Rhs::Bin(BinOp::Sub, _, _)));
    assert!(matches!(b0.stmt[2].rhs, Rhs::Bin(BinOp::Lt, _, _)));
    match &b0.term {
        Term::CJump(c, t, e) => {
            assert_eq!(c.ident.string, "is_neg");
            assert_eq!(t.digits[0].digit, 1);
            assert_eq!(e.digits[0].digit, 2);
        }
        _ => panic!("expected cjump"),
    }
    assert!(matches!(f.blocks[1].stmt[0].rhs, Rhs::Un(UnOp::Neg, _)));
    assert!(matches!(f.blocks[2].term, Term::Return(Some(_))));
}

#[test]
fn extern_types_and_pointers_parse() {
    let p = parse(EXAMPLE_ASSIGNMENT_3).unwrap();
    assert_eq!(p.externtypes.len(), 1);
    let et = &p.externtypes[0];
    assert_eq!(et.path.ident.len(), 3);
    assert_eq!(et.fields.len(), 2);
    assert_eq!(et.fields[1].ident.string, "y");
    let param = &p.function.params.as_ref().unwrap().params[0];
    match &param.typealt {
        Type::Ptr(inner) => assert!(matches!(**inner, Type::Path(_))),
        _ => panic!("expected a pointer"),
    }
    assert!(matches!(p.function.blocks[0].stmt[1].rhs, Rhs::Load(_)));
}

#[test]
fn every_statement_form_parses() {
    let text = "
function T::all(%a: i64, %p: ptr<i64>) -> void {
    locals { %b : i64; %c : bool; %q : ptr<i64>; %f : f64; %n : ptr<bool>; }
    entry bb10;
    bb10:
        %b = %a;
        %b = cast %a to i64;
        %c = un not %c;
        %q = addr_of %b;
        store %p, %b;
        call T::all(%a, %p);
        call T::none();
        %f = const 2.5;
        %c = const true;
        %c = const false;
        %n = const null;
        jump bb10;
}
";
    let p = parse(text).unwrap();
    let f = &p.function;
    assert!(matches!(f.rettype, RetType::Void));
    assert_eq!(f.entry.digits.len(), 2);
    let s = &f.blocks[0].stmt;
    assert_eq!(s.len(), 11);
    assert!(matches!(s[0].rhs, Rhs::Use(_)));
    assert!(matches!(s[1].rhs, Rhs::Cast(_, Type::PrimType(PrimType::I64))));
    assert!(matches!(s[2].rhs, Rhs::Un(UnOp::Not, _)));
    assert!(matches!(s[3].rhs, Rhs::Addr_of(_)));
    assert!(matches!(s[4].rhs, Rhs::Store(_, _)));
    assert!(s[4].local.is_none());
    assert!(matches!(s[5].rhs, Rhs::Call(_, Some(_))));
    assert!(matches!(s[6].rhs, Rhs::Call(_, None)));
    match &s[7].rhs {
        Rhs::Const(Literal::FloatLiteral(text)) => assert_eq!(text, "2.5"),
        _ => panic!("expected a float literal"),
    }
    assert!(matches!(s[8].rhs, Rhs::Const(Literal::True)));
    assert!(matches!(s[9].rhs, Rhs::Const(Literal::False)));
    assert!(matches!(s[10].rhs, Rhs::Const(Literal::Null)));
    assert!(matches!(f.blocks[0].term, Term::Jump(_)));
}

#[test]
fn unknown_operators_are_syntax_errors() {
    let text = "
function T::f(%a: i32) -> i32 {
    locals { %r : i32; }
    entry bb0;
    bb0:
        %r = bin pow %a, %a;
        return %r;
}
";
    assert_eq!(
        parse(text).unwrap_err(),
        "Syntax Error: unknown binary operator 'pow' at Line: 6, Col: 18"
    );
    let text = text.replace("bin pow %a, %a", "un abs %a");
    assert_eq!(
        parse(&text).unwrap_err(),
        "Syntax Error: unknown unary operator 'abs' at Line: 6, Col: 17"
    );
}

#[test]
fn readable_token_lists() {
    let tokens = produce_tokens(CJUMP).unwrap();
    assert!(Parser::new(tokens).is_readable());
    assert!(!Parser::new(Vec::new()).is_readable());
    let no_end = vec![Token {
        token_kind: TokenKind::Function,
        token_attribute: TokenAttribute { line: 1, col: 1, lexeme: "function".to_string() },
    }];
    assert!(!Parser::new(no_end).is_readable());
}

#[test]
fn integer_text_reads_as_i64() {
    assert_eq!(parse_i64("42"), Some(42));
    assert_eq!(parse_i64("-7"), Some(-7));
    assert_eq!(parse_i64("+7"), Some(7));
    assert_eq!(parse_i64("007"), Some(7));
    assert_eq!(parse_i64("9223372036854775807"), Some(i64::MAX));
    assert_eq!(parse_i64("-9223372036854775808"), Some(i64::MIN));
    assert_eq!(parse_i64("9223372036854775808"), None);
    assert_eq!(parse_i64(""), None);
    assert_eq!(parse_i64("-"), None);
    assert_eq!(parse_i64("1a"), None);
    for v in [0i64, 1, -1, 1234567, i64::MAX, i64::MIN] {
        let text = signed_decimal_string(v);
        assert_eq!(text, v.to_string());
        assert_eq!(parse_i64(&text), Some(v));
    }
    assert_eq!(decimal_string(0), "0");
    assert_eq!(decimal_string(u64::MAX), "18446744073709551615");
}

#[test]
fn float_text_is_recognised() {
    for ok in ["2.5", "1", "1.", ".5", "-0.25", "+3", "1e3", "1.5E-2", "inf", "-Infinity", "NaN"] {
        assert!(is_float_literal(ok), "{}", ok);
        assert!(ok.parse::<f64>().is_ok());
    }
    for bad in ["", ".", "e3", "1e", "1.2.3", "abc", "--1", "0x10"] {
        assert!(!is_float_literal(bad), "{}", bad);
        assert!(bad.parse::<f64>().is_err());
    }
}
