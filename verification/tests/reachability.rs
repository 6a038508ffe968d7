use resir::datalog::datalog_analyser::get_unreachables;
use resir::lexer::lexer_core::produce_tokens;
use resir::parser::cfg::build_cfg;
use resir::parser::ir::{Block, Program, Term};
use resir::parser::parser_core::Parser;

fn parse(input: &str) -> Program {
    let tokens = produce_tokens(input).unwrap();
    let mut parser = Parser::new(tokens);
    parser.parse_program().unwrap()
}

fn label_number(block: &Block) -> u32 {
    block.label.digits.iter().fold(0, |n, d| n * 10 + d.digit)
}

fn dead_labels(input: &str) -> Vec<u32> {
    let program = parse(input);
    let cfg = build_cfg(&program.function);
    get_unreachables(&cfg).iter().map(label_number).collect()
}

#[test]
fn graph_edges_follow_terminators() {
    let program = parse(
        "
function T::f(%c: bool) -> void {
    locals { }
    entry bb0;
    bb0:
        cjump %c, bb1, bb2;
    bb1:
        jump bb2;
    bb2:
        return;
}
",
    );
    let cfg = build_cfg(&program.function);
    assert_eq!(cfg.blocks.len(), 3);
    let edges: Vec<(u32, u32)> = cfg
        .edges
        .iter()
        .map(|(a, b)| (a.digits[0].digit, b.digits[0].digit))
        .collect();
    assert_eq!(edges, vec![(0, 1), (0, 2), (1, 2)]);
    assert_eq!(cfg.entry.digits[0].digit, 0);
    assert!(matches!(cfg.blocks[2].term, Term::Return(None)));
}

#[test]
fn blocks_off_every_path_are_unreachable() {
    let src = "
function T::f(%c: bool) -> void {
    locals { }
    entry bb0;
    bb0:
        cjump %c, bb1, bb0;
    bb1:
        jump bb0;
    bb2:
        jump bb3;
    bb3:
        jump bb2;
    bb4:
        return;
}
";
    assert_eq!(dead_labels(src), vec![2, 3, 4]);
}

#[test]
fn everything_reachable_gives_nothing() {
    let src = "
function T::f(%c: bool) -> void {
    locals { }
    entry bb5;
    bb0:
        return;
    bb5:
        cjump %c, bb7, bb0;
    bb7:
        jump bb0;
}
";
    assert!(dead_labels(src).is_empty());
}

#[test]
fn entry_block_is_never_unreachable() {
    let src = "
function T::f() -> void {
    locals { }
    entry bb12;
    bb3:
        jump bb12;
    bb12:
        return;
}
";
    assert_eq!(dead_labels(src), vec![3]);
}

#[test]
fn targets_without_blocks_do_not_stop_the_search() {
    let src = "
function T::f(%c: bool) -> void {
    locals { }
    entry bb0;
    bb0:
        cjump %c, bb9, bb1;
    bb1:
        return;
    bb2:
        return;
}
";
    assert_eq!(dead_labels(src), vec![2]);
}
