use resir::codegen::generator::generate_c;
use resir::datalog::datalog_analyser::get_unreachables;
use resir::lexer::lexer_core::produce_tokens;
use resir::parser::cfg::build_cfg;
use resir::parser::ir::{Block, Program};
use resir::parser::parser_core::Parser;
use resir::semantic::analyser_core::analyse;

fn parse(input: &str) -> Program {
    let tokens = produce_tokens(input).unwrap();
    let mut parser = Parser::new(tokens);
    parser.parse_program().unwrap()
}

fn compile(input: &str, header: &str) -> String {
    let program = parse(input);
    let cfg = build_cfg(&program.function);
    assert_eq!(analyse(&program, &cfg), Ok(true));
    let dead = get_unreachables(&cfg);
    generate_c(&program, header, &dead)
}

const ABS_DIFF: &str = "
function Math::abs_diff(%a: i32, %b: i32) -> i32 {
    locals { %zero: i32; %d: i32; %is_neg: bool; %r: i32; }
    entry bb0;
    bb0:
        %zero   = const 0;
        %d      = bin sub %a, %b;
        %is_neg = bin lt %d, %zero;
        cjump %is_neg, bb1, bb2;
    bb1:
        %r = un neg %d;
        return %r;
    bb2:
        return %d;
}
";

const ABS_DIFF_C: &str = "#include <stdint.h>
#include <stdbool.h>

int32_t Math_abs_diff(int32_t a, int32_t b) {
    int32_t zero;
    int32_t d;
    bool is_neg;
    int32_t r;
    goto bb0;

bb0:
    zero = 0;
    d = a - b;
    is_neg = d < zero;
    if (is_neg) goto bb1; else goto bb2;

bb1:
    r = -d;
    return r;

bb2:
    return d;
}
";

#[test]
fn abs_diff_compiles_to_the_documented_c() {
    assert_eq!(compile(ABS_DIFF, "custom_header.h"), ABS_DIFF_C);
}

#[test]
fn calls_and_extern_types_include_the_header() {
    let src = "
function Client::sum_abs_diffs(%a: i32, %b: i32,
                               %c: i32, %d: i32) -> i32 {
    locals {
        %dx : i32;
        %dy : i32;
        %r  : i32;
    }
    entry bb0;

    bb0:
        %dx = call Math::abs_diff(%a, %b);
        %dy = call Math::abs_diff(%c, %d);
        %r  = bin add %dx, %dy;
        return %r;
}
";
    let expected = "#include <stdint.h>
#include \"math.h\"

int32_t Client_sum_abs_diffs(int32_t a, int32_t b, int32_t c, int32_t d) {
    int32_t dx;
    int32_t dy;
    int32_t r;
    goto bb0;

bb0:
    dx = Math_abs_diff(a, b);
    dy = Math_abs_diff(c, d);
    r = dx + dy;
    return r;
}
";
    assert_eq!(compile(src, "math.h"), expected);

    let src = "
extern type Custom::Struct::Point {
    x : i32;
    y : i32;
}
function Geom::point_x(%p: ptr<Custom::Struct::Point>) -> i32 {
    locals {
        %fp : ptr<i32>;
        %v  : i32;
    }
    entry bb0;

    bb0:
        %fp = member_ptr %p, x;
        %v = load %fp;
        return %v;
}
";
    let expected = "#include <stdint.h>
#include \"custom_header.h\"

int32_t Geom_point_x(Custom_Struct_Point *p) {
    int32_t *fp;
    int32_t v;
    goto bb0;

bb0:
    fp = &p->x;
    v = *fp;
    return v;
}
";
    assert_eq!(compile(src, "custom_header.h"), expected);
}

#[test]
fn unreachable_blocks_are_left_out() {
    let src = "
function T::f() -> void {
    locals { }
    entry bb1;
    bb0:
        jump bb1;
    bb1:
        return;
}
";
    let expected = "
void T_f(void) {
    goto bb1;

bb1:
    return;
}
";
    assert_eq!(compile(src, "h.h"), expected);
}

#[test]
fn every_statement_form_compiles() {
    let src = "
function T::all(%a: i64, %p: ptr<i64>) -> void {
    locals { %b : i64; %c : bool; %q : ptr<i64>; %f : f64; %n : ptr<bool>; %u : u32; }
    entry bb10;
    bb10:
        %b = %a;
        %u = cast %a to u32;
        %c = un not %c;
        %q = addr_of %b;
        store %p, %b;
        call T::all(%a, %p);
        %f = const 2.5;
        %c = const true;
        %c = const false;
        %n = const null;
        %b = bin mod %a, %b;
        %c = bin ne %a, %b;
        %c = bin or %c, %c;
        jump bb11;
    bb11:
        return;
}
";
    let expected = "#include <stdint.h>
#include <stdbool.h>
#include <stddef.h>

void T_all(int64_t a, int64_t *p) {
    int64_t b;
    bool c;
    int64_t *q;
    double f;
    bool *n;
    uint32_t u;
    goto bb10;

bb10:
    b = a;
    u = (uint32_t)a;
    c = !c;
    q = &b;
    *p = b;
    T_all(a, p);
    f = 2.5;
    c = true;
    c = false;
    n = NULL;
    b = a % b;
    c = a != b;
    c = c || c;
    goto bb11;

bb11:
    return;
}
";
    assert_eq!(compile(src, "h.h"), expected);
}

#[test]
fn listed_blocks_are_skipped_by_label() {
    let program = parse(ABS_DIFF);
    let skip: Vec<Block> = vec![program.function.blocks[1].clone()];
    let c = generate_c(&program, "x.h", &skip);
    assert!(!c.contains("bb1:"));
    assert!(c.contains("bb2:"));
    assert!(c.contains("if (is_neg) goto bb1; else goto bb2;"));
}

#[test]
fn every_goto_names_an_emitted_label() {
    let src = "
function T::g(%c: bool) -> void {
    locals { }
    entry bb2;
    bb0:
        jump bb1;
    bb1:
        return;
    bb2:
        cjump %c, bb3, bb1;
    bb3:
        jump bb2;
    bb4:
        jump bb0;
}
";
    let c = compile(src, "h.h");
    for label in ["bb1:", "bb2:", "bb3:"] {
        assert!(c.contains(label), "{}", label);
    }
    for label in ["bb0:", "bb4:"] {
        assert!(!c.contains(label), "{}", label);
    }
    for piece in c.split("goto ").skip(1) {
        let target: String = piece.chars().take_while(|ch| ch.is_ascii_alphanumeric()).collect();
        assert!(c.contains(&format!("\n{}:\n", target)), "{}", target);
    }
}
