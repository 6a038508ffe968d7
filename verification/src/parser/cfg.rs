//! The control-flow graph of a function: its blocks are the nodes, and each
//! `jump` or `cjump` gives edges from its block to its targets.

use vstd::prelude::*;
use super::ir::{Block, BlockV, Function, FunctionV, Label, Term, TermV, block_values};

verus! {

/// The control-flow graph of one function.
#[derive(Debug)]
pub struct Cfg {
    pub blocks: Vec<Block>,
    pub edges: Vec<(Label, Label)>,
    pub entry: Label,
}

/// The value of a control-flow graph.
pub struct CfgV {
    pub blocks: Seq<BlockV>,
    pub edges: Seq<(Seq<u32>, Seq<u32>)>,
    pub entry: Seq<u32>,
}

/// The values of a sequence of edges.
pub open spec fn edge_values(s: Seq<(Label, Label)>) -> Seq<(Seq<u32>, Seq<u32>)> {
    s.map_values(|e: (Label, Label)| (e.0@, e.1@))
}

impl View for Cfg {
    type V = CfgV;

    open spec fn view(&self) -> CfgV {
        CfgV { blocks: block_values(self.blocks@), entry: self.entry@, edges: edge_values(self.edges@) }
    }
}

/// The edges that leave a block: one to a `jump`'s target, two to a
/// `cjump`'s targets (true target first), none for a `return`.
pub open spec fn block_edges(b: BlockV) -> Seq<(Seq<u32>, Seq<u32>)> {
    match b.term {
        TermV::Jump(l) => seq![(b.label, l)],
        TermV::CJump(_, l1, l2) => seq![(b.label, l1), (b.label, l2)],
        TermV::Return(_) => Seq::empty(),
    }
}

/// The edges of the first `n` blocks, block by block.
pub open spec fn edges_of(blocks: Seq<BlockV>, n: int) -> Seq<(Seq<u32>, Seq<u32>)>
    decreases n,
{
    if n <= 0 {
        Seq::empty()
    } else {
        edges_of(blocks, n - 1) + block_edges(blocks[n - 1])
    }
}

/// The control-flow graph of a function: its blocks, their edges in block
/// order, and its entry label.
pub open spec fn cfg_of(f: FunctionV) -> CfgV {
    CfgV { blocks: f.blocks, edges: edges_of(f.blocks, f.blocks.len() as int), entry: f.entry }
}

impl Block {
    /// A copy of this block.
    pub fn copy(&self) -> (r: Block)
        ensures
            r@ == self@,
    {
        Block { label: self.label.copy(), stmt: crate::parser::ir::copy_stmts(&self.stmt), term: self.term.copy() }
    }
}

/// Builds the control-flow graph of a function.
pub fn build_cfg(function: &Function) -> (cfg: Cfg)
    ensures
        cfg@ == cfg_of(function@),
{
    let mut blocks: Vec<Block> = Vec::new();
    let mut edges: Vec<(Label, Label)> = Vec::new();
    let entry = function.entry.copy();
    let ghost fb = block_values(function.blocks@);
    let mut i: usize = 0;
    while i < function.blocks.len()
        invariant
            fb == block_values(function.blocks@),
            i <= function.blocks@.len(),
            block_values(blocks@) == fb.take(i as int),
            edge_values(edges@) == edges_of(fb, i as int),
        decreases function.blocks@.len() - i,
    {
        let block = &function.blocks[i];
        let ghost before_edges = edges@;
        match &block.term {
            Term::Jump(label) => {
                edges.push((block.label.copy(), label.copy()));
            },
            Term::CJump(_, label_one, label_two) => {
                edges.push((block.label.copy(), label_one.copy()));
                edges.push((block.label.copy(), label_two.copy()));
            },
            Term::Return(_) => {},
        }
        proof {
            assert(fb[i as int] == block@);
            assert(edge_values(edges@) =~= edge_values(before_edges) + block_edges(block@));
        }
        let ghost before_blocks = blocks@;
        blocks.push(block.copy());
        proof {
            assert(block_values(blocks@) =~= block_values(before_blocks).push(fb[i as int]));
            assert(fb.take(i + 1) =~= fb.take(i as int).push(fb[i as int]));
        }
        i = i + 1;
    }
    proof {
        assert(fb.take(i as int) =~= fb);
    }
    Cfg { blocks, edges, entry }
}

} // verus!
