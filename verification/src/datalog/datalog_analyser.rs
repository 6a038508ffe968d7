//! Dead-block detection. A block is reachable when its label can be
//! derived from two rules: the entry label is reachable, and the target of
//! an edge whose source is reachable is reachable. The blocks whose labels
//! cannot be derived are the unreachable ones.

use vstd::prelude::*;
use crate::parser::cfg::{Cfg, CfgV, block_edges, cfg_of, edges_of};
use crate::parser::ir::{Block, BlockV, Label, ProgramV, block_values};
use crate::semantic::rules::{analysis, entry_error, has_block, target_check, targets_error};
use crate::semantic::symbols::lemma_first_error_none_each;
use crate::semantic::debug_text::label_eq;
use crate::semantic::analyser_core::{contains_label, label_values};

verus! {

/// The blocks whose labels are not `reached`, in order.
pub open spec fn blocks_not_reached(blocks: Seq<BlockV>, reached: spec_fn(Seq<u32>) -> bool) -> Seq<BlockV>
    decreases blocks.len(),
{
    if blocks.len() == 0 {
        Seq::empty()
    } else {
        blocks_not_reached(blocks.drop_last(), reached) + if reached(blocks.last().label) {
            Seq::empty()
        } else {
            seq![blocks.last()]
        }
    }
}

/// The label `l` is derived within `n` rounds of the two rules: in round
/// zero only the entry label; in each later round also every target of an
/// edge whose source was derived in the round before.
pub open spec fn reachable_within(edges: Seq<(Seq<u32>, Seq<u32>)>, entry: Seq<u32>, n: nat, l: Seq<u32>) -> bool
    decreases n,
{
    if n == 0 {
        l == entry
    } else {
        reachable_within(edges, entry, (n - 1) as nat, l)
            || exists|k: int| 0 <= k < edges.len() && (#[trigger] edges[k]).1 == l
                && reachable_within(edges, entry, (n - 1) as nat, edges[k].0)
    }
}

/// The label `l` is reachable from the entry of the graph.
pub open spec fn reachable(cfg: CfgV, l: Seq<u32>) -> bool {
    exists|n: nat| reachable_within(cfg.edges, cfg.entry, n, l)
}

/// The blocks of the graph, in order, whose labels are not among `reachable`.
fn select_unreachable(cfg: &Cfg, reachable: &Vec<Label>) -> (r: Vec<Block>)
    ensures
        block_values(r@) == blocks_not_reached(cfg@.blocks, |l: Seq<u32>| label_values(reachable@).contains(l)),
{
    let ghost blocks = cfg@.blocks;
    let ghost reach = label_values(reachable@);
    let ghost reached = |l: Seq<u32>| label_values(reachable@).contains(l);
    let mut unreachable_blocks: Vec<Block> = Vec::new();
    let mut i: usize = 0;
    while i < cfg.blocks.len()
        invariant
            blocks == cfg@.blocks,
            blocks == block_values(cfg.blocks@),
            reach == label_values(reachable@),
            i <= cfg.blocks@.len(),
            reached == (|l: Seq<u32>| label_values(reachable@).contains(l)),
            block_values(unreachable_blocks@) == blocks_not_reached(blocks.take(i as int), reached),
        decreases cfg.blocks@.len() - i,
    {
        let block = &cfg.blocks[i];
        let mut in_reachable = false;
        let mut k: usize = 0;
        while k < reachable.len()
            invariant
                reach == label_values(reachable@),
                k <= reachable@.len(),
                in_reachable == exists|j: int| 0 <= j < k && reach[j] == block@.label,
            decreases reachable@.len() - k,
        {
            proof {
                assert(reach[k as int] == reachable@[k as int]@);
            }
            if label_eq(&reachable[k], &block.label) {
                in_reachable = true;
            }
            k = k + 1;
        }
        let ghost before = unreachable_blocks@;
        if !in_reachable {
            unreachable_blocks.push(block.copy());
        }
        proof {
            assert(blocks.take(i + 1).drop_last() =~= blocks.take(i as int));
            assert(blocks.take(i + 1).last() == block@);
            if in_reachable {
                let j = choose|j: int| 0 <= j < k && reach[j] == block@.label;
                assert(reach.contains(block@.label));
                assert(block_values(unreachable_blocks@) =~= blocks_not_reached(blocks.take(i + 1), reached));
            } else {
                assert(!reach.contains(block@.label));
                assert(block_values(unreachable_blocks@) =~= block_values(before).push(block@));
                assert(block_values(unreachable_blocks@) =~= blocks_not_reached(blocks.take(i + 1), reached));
            }
        }
        i = i + 1;
    }
    proof {
        assert(blocks.take(i as int) =~= blocks);
    }
    unreachable_blocks
}

/// Every node that the targets of `edges` and `entry` name: the entry
/// first, then the target of each edge in order.
spec fn nodes(edges: Seq<(Seq<u32>, Seq<u32>)>, entry: Seq<u32>) -> Seq<Seq<u32>> {
    seq![entry] + edges.map_values(|e: (Seq<u32>, Seq<u32>)| e.1)
}

/// A list of labels that holds the entry and, with the source of each
/// edge, its target, holds every reachable label.
proof fn lemma_closed_holds_reachable(
    edges: Seq<(Seq<u32>, Seq<u32>)>,
    entry: Seq<u32>,
    r: Seq<Seq<u32>>,
    n: nat,
    l: Seq<u32>,
)
    requires
        r.contains(entry),
        forall|j: int| 0 <= j < edges.len() && r.contains((#[trigger] edges[j]).0) ==> r.contains(edges[j].1),
        reachable_within(edges, entry, n, l),
    ensures
        r.contains(l),
    decreases n,
{
    if n > 0 {
        if reachable_within(edges, entry, (n - 1) as nat, l) {
            lemma_closed_holds_reachable(edges, entry, r, (n - 1) as nat, l);
        } else {
            let k = choose|k: int| 0 <= k < edges.len() && (#[trigger] edges[k]).1 == l
                && reachable_within(edges, entry, (n - 1) as nat, edges[k].0);
            lemma_closed_holds_reachable(edges, entry, r, (n - 1) as nat, edges[k].0);
        }
    }
}

/// A list without repetitions drawn from `ns` is no longer than `ns`.
proof fn lemma_distinct_drawn_from(r: Seq<Seq<u32>>, ns: Seq<Seq<u32>>)
    requires
        r.no_duplicates(),
        forall|j: int| 0 <= j < r.len() ==> ns.contains(#[trigger] r[j]),
    ensures
        r.len() <= ns.len(),
{
    broadcast use vstd::seq_lib::seq_to_set_is_finite;
    r.unique_seq_to_set();
    ns.lemma_cardinality_of_set();
    assert forall|x: Seq<u32>| r.to_set().contains(x) implies ns.to_set().contains(x) by {
        let j = choose|j: int| 0 <= j < r.len() && r[j] == x;
        assert(ns.contains(r[j]));
    }
    vstd::set_lib::lemma_len_subset(r.to_set(), ns.to_set());
}

/// The labels reachable from the entry of the graph, each once: the two
/// rules are applied round after round until a round derives nothing new.
fn reachable_labels(cfg: &Cfg) -> (r: Vec<Label>)
    ensures
        forall|l: Seq<u32>| label_values(r@).contains(l) <==> reachable(cfg@, l),
{
    let ghost edges = cfg@.edges;
    let ghost entry = cfg@.entry;
    let ghost ns = nodes(edges, entry);
    let mut reached: Vec<Label> = Vec::new();
    reached.push(cfg.entry.copy());
    proof {
        assert(label_values(reached@)[0] == entry);
        assert(ns[0] == entry);
        assert(reachable_within(edges, entry, 0, entry));
        assert(reachable(cfg@, entry));
    }
    let mut changed = true;
    while changed
        invariant
            edges == cfg@.edges,
            entry == cfg@.entry,
            ns == nodes(edges, entry),
            label_values(reached@).no_duplicates(),
            label_values(reached@).contains(entry),
            reached@.len() <= ns.len(),
            forall|j: int| 0 <= j < reached@.len() ==> ns.contains(#[trigger] label_values(reached@)[j]),
            forall|j: int| 0 <= j < reached@.len() ==> reachable(cfg@, #[trigger] label_values(reached@)[j]),
            !changed ==> forall|j: int| 0 <= j < edges.len() && label_values(reached@).contains((#[trigger] edges[j]).0)
                ==> label_values(reached@).contains(edges[j].1),
        decreases 2 * (ns.len() - reached@.len()) + if changed { 1int } else { 0int },
    {
        let start_len = reached.len();
        changed = false;
        let mut k: usize = 0;
        while k < cfg.edges.len()
            invariant
                edges == cfg@.edges,
                entry == cfg@.entry,
                ns == nodes(edges, entry),
                k <= edges.len(),
                start_len <= reached@.len(),
                changed == (reached@.len() > start_len),
                label_values(reached@).no_duplicates(),
                label_values(reached@).contains(entry),
                reached@.len() <= ns.len(),
                forall|j: int| 0 <= j < reached@.len() ==> ns.contains(#[trigger] label_values(reached@)[j]),
                forall|j: int| 0 <= j < reached@.len() ==> reachable(cfg@, #[trigger] label_values(reached@)[j]),
                !changed ==> forall|j: int| 0 <= j < k && label_values(reached@).contains((#[trigger] edges[j]).0)
                    ==> label_values(reached@).contains(edges[j].1),
            decreases edges.len() - k,
        {
            let ghost before = label_values(reached@);
            proof {
                assert(edges[k as int] == (cfg.edges@[k as int].0@, cfg.edges@[k as int].1@));
            }
            let has_from = contains_label(&reached, &cfg.edges[k].0);
            let has_to = contains_label(&reached, &cfg.edges[k].1);
            proof {
                if has_from {
                    let i = choose|i: int| 0 <= i < reached@.len() && (#[trigger] reached@[i])@ == edges[k as int].0;
                    assert(before[i] == edges[k as int].0);
                }
                if has_to {
                    let i = choose|i: int| 0 <= i < reached@.len() && (#[trigger] reached@[i])@ == edges[k as int].1;
                    assert(before[i] == edges[k as int].1);
                }
                if before.contains(edges[k as int].1) {
                    let i = choose|i: int| 0 <= i < before.len() && before[i] == edges[k as int].1;
                    assert(reached@[i]@ == edges[k as int].1);
                }
                if before.contains(edges[k as int].0) {
                    let i = choose|i: int| 0 <= i < before.len() && before[i] == edges[k as int].0;
                    assert(reached@[i]@ == edges[k as int].0);
                }
            }
            if has_from && !has_to {
                reached.push(cfg.edges[k].1.copy());
                changed = true;
                proof {
                    let after = label_values(reached@);
                    let to = edges[k as int].1;
                    assert(after == before.push(to));
                    assert(ns[k + 1] == to);
                    assert forall|a: int, b: int| 0 <= a < b < after.len() implies after[a] != after[b] by {
                        if b == after.len() - 1 {
                            assert(before[a] == after[a]);
                        }
                    }
                    assert(after.contains(entry)) by {
                        let i = choose|i: int| 0 <= i < before.len() && before[i] == entry;
                        assert(after[i] == entry);
                    }
                    let i = choose|i: int| 0 <= i < before.len() && before[i] == edges[k as int].0;
                    assert(reachable(cfg@, before[i]));
                    let n = choose|n: nat| reachable_within(edges, entry, n, before[i]);
                    assert(reachable_within(edges, entry, n + 1, to));
                    assert(reachable(cfg@, to));
                    assert forall|j: int| 0 <= j < after.len() implies reachable(cfg@, #[trigger] after[j]) by {
                        if j < before.len() {
                            assert(after[j] == before[j]);
                        }
                    }
                    assert forall|j: int| 0 <= j < after.len() implies ns.contains(#[trigger] after[j]) by {
                        if j < before.len() {
                            assert(after[j] == before[j]);
                        }
                    }
                    lemma_distinct_drawn_from(after, ns);
                }
            }
            k = k + 1;
        }
    }
    proof {
        let r = label_values(reached@);
        assert forall|l: Seq<u32>| r.contains(l) <==> reachable(cfg@, l) by {
            if r.contains(l) {
                let j = choose|j: int| 0 <= j < r.len() && r[j] == l;
                assert(reachable(cfg@, r[j]));
            }
            if reachable(cfg@, l) {
                let n = choose|n: nat| reachable_within(cfg@.edges, cfg@.entry, n, l);
                lemma_closed_holds_reachable(edges, entry, r, n, l);
            }
        }
    }
    reached
}

/// The blocks of a graph, in order, whose labels are not reachable from its
/// entry.
pub open spec fn unreachable_blocks(cfg: CfgV) -> Seq<BlockV> {
    blocks_not_reached(cfg.blocks, |l: Seq<u32>| reachable(cfg, l))
}

/// The blocks of the graph, in order, whose labels are not reachable from
/// its entry.
pub fn get_unreachables(cfg: &Cfg) -> (r: Vec<Block>)
    ensures
        block_values(r@) == unreachable_blocks(cfg@),
{
    let reached = reachable_labels(cfg);
    let r = select_unreachable(cfg, &reached);
    proof {
        assert((|l: Seq<u32>| label_values(reached@).contains(l)) =~= (|l: Seq<u32>| reachable(cfg@, l)));
    }
    r
}

/// A block is among those not reached exactly when it is a block of the
/// list whose label is not reached.
proof fn lemma_not_reached_members(blocks: Seq<BlockV>, reached: spec_fn(Seq<u32>) -> bool, b: BlockV)
    ensures
        blocks_not_reached(blocks, reached).contains(b) <==> (blocks.contains(b) && !reached(b.label)),
    decreases blocks.len(),
{
    if blocks.len() > 0 {
        let rest = blocks.drop_last();
        lemma_not_reached_members(rest, reached, b);
        let tail = if reached(blocks.last().label) { Seq::<BlockV>::empty() } else { seq![blocks.last()] };
        let r = blocks_not_reached(blocks, reached);
        assert(r == blocks_not_reached(rest, reached) + tail);
        if blocks.contains(b) && !reached(b.label) {
            let k = choose|k: int| 0 <= k < blocks.len() && blocks[k] == b;
            if k < blocks.len() - 1 {
                assert(rest[k] == b);
                let i = choose|i: int| 0 <= i < blocks_not_reached(rest, reached).len()
                    && blocks_not_reached(rest, reached)[i] == b;
                assert(r[i] == b);
            } else {
                assert(tail[0] == b);
                assert(r[r.len() - 1] == b);
            }
        }
        if r.contains(b) {
            let i = choose|i: int| 0 <= i < r.len() && r[i] == b;
            if i < blocks_not_reached(rest, reached).len() {
                assert(blocks_not_reached(rest, reached)[i] == b);
                let k = choose|k: int| 0 <= k < rest.len() && rest[k] == b;
                assert(blocks[k] == b);
            } else {
                assert(tail[i - blocks_not_reached(rest, reached).len()] == b);
                assert(blocks[blocks.len() - 1] == b);
            }
        }
    }
}

/// The blocks reported unreachable are exactly the blocks of the graph
/// whose labels cannot be reached from its entry.
pub proof fn law_unreachable_blocks_exactly(cfg: CfgV, b: BlockV)
    ensures
        unreachable_blocks(cfg).contains(b) <==> (cfg.blocks.contains(b) && !reachable(cfg, b.label)),
{
    lemma_not_reached_members(cfg.blocks, |l: Seq<u32>| reachable(cfg, l), b);
}

/// The entry is reachable, so the entry block is never reported
/// unreachable.
pub proof fn law_entry_reachable(cfg: CfgV)
    ensures
        reachable(cfg, cfg.entry),
        forall|b: BlockV| #[trigger] unreachable_blocks(cfg).contains(b) ==> b.label != cfg.entry,
{
    assert(reachable_within(cfg.edges, cfg.entry, 0, cfg.entry));
    assert forall|b: BlockV| #[trigger] unreachable_blocks(cfg).contains(b) implies b.label != cfg.entry by {
        lemma_not_reached_members(cfg.blocks, |l: Seq<u32>| reachable(cfg, l), b);
    }
}

/// Once the analysis accepts a program, every label that can be reached
/// from the entry of its control-flow graph names one of its blocks.
pub proof fn law_accepted_reachable_labels_name_blocks(p: ProgramV, l: Seq<u32>)
    requires
        analysis(p, cfg_of(p.function)) is None,
        reachable(cfg_of(p.function), l),
    ensures
        has_block(p.function.blocks, l),
{
    let c = cfg_of(p.function);
    assert(entry_error(c) is None);
    assert(targets_error(c) is None);
    lemma_first_error_none_each(c.edges, target_check(c.blocks));
    let n = choose|n: nat| reachable_within(c.edges, c.entry, n, l);
    lemma_reachable_names_block(c, n, l);
}

/// In a graph whose entry and edge targets all name blocks, every label
/// derived within `n` rounds names a block.
proof fn lemma_reachable_names_block(c: CfgV, n: nat, l: Seq<u32>)
    requires
        has_block(c.blocks, c.entry),
        forall|k: int| 0 <= k < c.edges.len() ==> (#[trigger] target_check(c.blocks)(c.edges[k])) is None,
        reachable_within(c.edges, c.entry, n, l),
    ensures
        has_block(c.blocks, l),
    decreases n,
{
    if n > 0 {
        if reachable_within(c.edges, c.entry, (n - 1) as nat, l) {
            lemma_reachable_names_block(c, (n - 1) as nat, l);
        } else {
            let k = choose|k: int| 0 <= k < c.edges.len() && (#[trigger] c.edges[k]).1 == l
                && reachable_within(c.edges, c.entry, (n - 1) as nat, c.edges[k].0);
            assert(target_check(c.blocks)(c.edges[k]) is None);
        }
    }
}

/// Each edge of a block is among the edges of the graph.
proof fn lemma_edges_of_holds(blocks: Seq<BlockV>, n: int, k: int, j: int)
    requires
        0 <= k < n <= blocks.len(),
        0 <= j < block_edges(blocks[k]).len(),
    ensures
        edges_of(blocks, n).contains(block_edges(blocks[k])[j]),
    decreases n,
{
    let before = edges_of(blocks, n - 1);
    let here = block_edges(blocks[n - 1]);
    assert(edges_of(blocks, n) == before + here);
    if k == n - 1 {
        assert((before + here)[before.len() + j] == here[j]);
    } else {
        lemma_edges_of_holds(blocks, n - 1, k, j);
        let i = choose|i: int| 0 <= i < before.len() && before[i] == block_edges(blocks[k])[j];
        assert((before + here)[i] == before[i]);
    }
}

/// In a program that the analysis accepts, the C code jumps only to blocks
/// that it writes out: the entry and every target of a block that is not
/// reported unreachable name a block, and that block is not reported
/// unreachable either.
pub proof fn law_accepted_jumps_land_on_emitted_blocks(p: ProgramV, k: int, j: int)
    requires
        analysis(p, cfg_of(p.function)) is None,
        0 <= k < p.function.blocks.len(),
        !unreachable_blocks(cfg_of(p.function)).contains(p.function.blocks[k]),
        0 <= j < block_edges(p.function.blocks[k]).len(),
    ensures
        has_block(p.function.blocks, p.function.entry),
        forall|b: BlockV| #[trigger] unreachable_blocks(cfg_of(p.function)).contains(b)
            ==> b.label != p.function.entry,
        has_block(p.function.blocks, block_edges(p.function.blocks[k])[j].1),
        forall|b: BlockV| #[trigger] unreachable_blocks(cfg_of(p.function)).contains(b)
            ==> b.label != block_edges(p.function.blocks[k])[j].1,
{
    let c = cfg_of(p.function);
    let blocks = p.function.blocks;
    let from = blocks[k];
    let edge = block_edges(from)[j];
    law_entry_reachable(c);
    law_accepted_reachable_labels_name_blocks(p, c.entry);
    assert(blocks.contains(from));
    law_unreachable_blocks_exactly(c, from);
    assert(reachable(c, from.label));
    assert(edge.0 == from.label);
    lemma_edges_of_holds(blocks, blocks.len() as int, k, j);
    let e = choose|e: int| 0 <= e < c.edges.len() && c.edges[e] == edge;
    let n = choose|n: nat| reachable_within(c.edges, c.entry, n, from.label);
    assert(c.edges[e].1 == edge.1 && reachable_within(c.edges, c.entry, n, c.edges[e].0));
    assert(reachable_within(c.edges, c.entry, n + 1, edge.1));
    assert(reachable(c, edge.1));
    law_accepted_reachable_labels_name_blocks(p, edge.1);
    assert forall|b: BlockV| #[trigger] unreachable_blocks(c).contains(b) implies b.label != edge.1 by {
        law_unreachable_blocks_exactly(c, b);
    }
}

} // verus!
