//! Rendering of an account listing as plain text lines, and the driver
//! that turns listing responses into those lines.
//!
//! Each container prints as a block: a blank line, the container name, a
//! separator of as many dashes as the name has characters, then one line
//! per stored blob, in the order the enumeration yielded them.

use vstd::prelude::*;
use vstd::string::*;
use crate::blobs::{BlobEntry, leaf_names, leaf_names_spec};
use crate::pager::{PageResult, collected_items, enumerate};

verus! {

/// A line of n dashes.
pub open spec fn dashes_spec(n: nat) -> Seq<char> {
    Seq::new(n, |i: int| '-')
}

/// Builds a separator line of exactly n dashes.
pub fn dash_line(n: usize) -> (s: String)
    ensures
        s@ == dashes_spec(n as nat),
{
    let mut s = String::new();
    let mut i: usize = 0;
    while i < n
        invariant
            i <= n,
            s@ == dashes_spec(i as nat),
        decreases n - i,
    {
        s.append("-");
        i = i + 1;
        proof {
            reveal_strlit("-");
            assert(s@ =~= dashes_spec(i as nat));
        }
    }
    s
}

/// The lines one container block prints: a blank line, the name, a
/// separator of as many dashes as the name has characters, then the given
/// blob name lines in order.
pub open spec fn block_spec(name: Seq<char>, blob_lines: Seq<Seq<char>>) -> Seq<Seq<char>> {
    seq![Seq::<char>::empty(), name, dashes_spec(name.len())] + blob_lines
}

/// Renders one container's block from its name and its already-filtered
/// blob names.
pub fn container_block(name: &String, blobs: Vec<String>) -> (lines: Vec<String>)
    ensures
        lines@.map_values(|s: String| s@) == block_spec(
            name@,
            blobs@.map_values(|s: String| s@),
        ),
{
    let mut lines: Vec<String> = Vec::new();
    lines.push(String::new());
    lines.push(name.clone());
    lines.push(dash_line(name.as_str().unicode_len()));
    proof {
        assert(lines@.map_values(|s: String| s@) =~= seq![
            Seq::<char>::empty(),
            name@,
            dashes_spec(name@.len()),
        ]);
    }
    let ghost header = lines@.map_values(|s: String| s@);
    let mut rest = blobs;
    let ghost all = rest@.map_values(|s: String| s@);
    while rest.len() > 0
        invariant
            header + all == lines@.map_values(|s: String| s@) + rest@.map_values(|s: String| s@),
        decreases rest@.len(),
    {
        let ghost lines_before = lines@;
        let ghost rest_before = rest@;
        let b = rest.remove(0);
        lines.push(b);
        proof {
            assert(lines@.map_values(|s: String| s@) =~= lines_before.map_values(|s: String| s@)
                + seq![rest_before[0]@]);
            assert(rest_before.map_values(|s: String| s@) =~= seq![rest_before[0]@]
                + rest@.map_values(|s: String| s@));
            assert(header + all =~= lines@.map_values(|s: String| s@) + rest@.map_values(
                |s: String| s@,
            ));
        }
    }
    proof {
        assert(rest@.map_values(|s: String| s@) =~= Seq::<Seq<char>>::empty());
        assert(lines@.map_values(|s: String| s@) =~= header + all);
        assert(block_spec(name@, all) =~= header + all);
    }
    lines
}

/// One container together with the responses its blob listing got: what
/// one run of the driver consumes.
pub struct ContainerRun {
    pub name: String,
    pub responses: Vec<PageResult<BlobEntry>>,
}

/// The block one container's run prints: its header lines, then the names
/// of the stored blobs its enumeration yielded — whatever pages arrived
/// before the stream ended or a failure truncated it.
pub open spec fn run_block_spec(run: ContainerRun) -> Seq<Seq<char>> {
    block_spec(run.name@, leaf_names_spec(collected_items(run.responses@)))
}

/// The whole listing: every container's block, in the order the
/// containers were yielded.
pub open spec fn runs_lines_spec(runs: Seq<ContainerRun>) -> Seq<Seq<char>>
    decreases runs.len(),
{
    if runs.len() == 0 {
        Seq::empty()
    } else {
        run_block_spec(runs[0]) + runs_lines_spec(runs.drop_first())
    }
}

/// Drives the whole listing over pre-supplied responses: for each
/// container in order, enumerates its blob pages, filters the prefix
/// entries out, and renders its block. A failure inside one container's
/// run truncates that block alone; every other container still prints in
/// full.
pub fn render_runs(runs: Vec<ContainerRun>) -> (lines: Vec<String>)
    ensures
        lines@.map_values(|s: String| s@) == runs_lines_spec(runs@),
{
    let ghost all = runs@;
    let mut lines: Vec<String> = Vec::new();
    let mut rest = runs;
    while rest.len() > 0
        invariant
            runs_lines_spec(all) == lines@.map_values(|s: String| s@) + runs_lines_spec(rest@),
        decreases rest@.len(),
    {
        let ghost lines_before = lines@;
        let ghost rest_before = rest@;
        let run = rest.remove(0);
        proof {
            assert(rest@ =~= rest_before.drop_first());
        }
        let (lister, _requests) = enumerate(run.responses);
        let names = leaf_names(lister.items);
        let mut block = container_block(&run.name, names);
        let ghost block_view = block@.map_values(|s: String| s@);
        proof {
            assert(block_view == run_block_spec(rest_before[0]));
        }
        lines.append(&mut block);
        proof {
            assert(lines@.map_values(|s: String| s@) =~= lines_before.map_values(|s: String| s@)
                + block_view);
            assert(lines_before.map_values(|s: String| s@) + (block_view + runs_lines_spec(rest@))
                =~= (lines_before.map_values(|s: String| s@) + block_view) + runs_lines_spec(
                rest@,
            ));
        }
    }
    proof {
        assert(runs_lines_spec(rest@) == Seq::<Seq<char>>::empty());
        assert(lines@.map_values(|s: String| s@) + runs_lines_spec(rest@) =~= lines@.map_values(
            |s: String| s@,
        ));
    }
    lines
}

/// Independence: in a two-container listing, the second container's block
/// is decided by its own name and responses alone. In particular a page
/// failure that truncates the first container's run leaves the second
/// container's block exactly as it would otherwise have been.
pub proof fn lemma_container_independence(a: ContainerRun, b: ContainerRun, c: ContainerRun)
    ensures
        runs_lines_spec(seq![a, c]).skip(run_block_spec(a).len() as int) == runs_lines_spec(
            seq![b, c],
        ).skip(run_block_spec(b).len() as int),
{
    let tail = seq![a, c].drop_first();
    assert(tail =~= seq![c]);
    assert(seq![b, c].drop_first() =~= seq![c]);
    assert(seq![c].drop_first() =~= Seq::<ContainerRun>::empty());
    assert(runs_lines_spec(Seq::<ContainerRun>::empty()) == Seq::<Seq<char>>::empty());
    assert(runs_lines_spec(seq![c]) =~= run_block_spec(c));
    assert(runs_lines_spec(seq![a, c]).skip(run_block_spec(a).len() as int) =~= run_block_spec(c));
    assert(runs_lines_spec(seq![b, c]).skip(run_block_spec(b).len() as int) =~= run_block_spec(c));
}

} // verus!
