//! Run lengths of a line of cells.
use vstd::prelude::*;

verus! {

/// The number of filled cells at the end of `line`, back to the nearest
/// empty cell or to the start of the line.
pub open spec fn trailing_run(line: Seq<bool>) -> nat
    decreases line.len(),
{
    if line.len() == 0 || !line.last() {
        0
    } else {
        1 + trailing_run(line.drop_last())
    }
}

/// The lengths, in order, of the maximal runs of filled cells in `line`
/// that an empty cell has already ended.
pub open spec fn closed_runs(line: Seq<bool>) -> Seq<nat>
    decreases line.len(),
{
    if line.len() == 0 {
        Seq::empty()
    } else if line.last() {
        closed_runs(line.drop_last())
    } else {
        runs_after(closed_runs(line.drop_last()), trailing_run(line.drop_last()))
    }
}

/// `closed` followed by the run of length `open`, where there is such a run.
pub open spec fn runs_after(closed: Seq<nat>, open: nat) -> Seq<nat> {
    if open > 0 {
        closed.push(open)
    } else {
        closed
    }
}

/// The lengths, in order, of the maximal runs of filled cells in `line`.
pub open spec fn runs(line: Seq<bool>) -> Seq<nat> {
    runs_after(closed_runs(line), trailing_run(line))
}

/// Machine-sized run lengths as natural numbers.
pub open spec fn as_lengths(v: Seq<usize>) -> Seq<nat> {
    v.map_values(|x: usize| x as nat)
}

/// A run cannot be longer than the line that holds it.
pub proof fn lemma_trailing_run_bound(line: Seq<bool>)
    ensures
        trailing_run(line) <= line.len(),
    decreases line.len(),
{
    if line.len() > 0 && line.last() {
        lemma_trailing_run_bound(line.drop_last());
    }
}

/// A line without a filled cell has no run.
pub proof fn lemma_runs_of_empty_line(line: Seq<bool>)
    requires
        forall|i: int| 0 <= i < line.len() ==> !line[i],
    ensures
        runs(line) == Seq::<nat>::empty(),
    decreases line.len(),
{
    if line.len() > 0 {
        lemma_runs_of_empty_line(line.drop_last());
    }
}

/// A line of filled cells only is one open run, as long as the line.
pub proof fn lemma_full_line_is_open(line: Seq<bool>)
    requires
        forall|i: int| 0 <= i < line.len() ==> line[i],
    ensures
        trailing_run(line) == line.len(),
        closed_runs(line) == Seq::<nat>::empty(),
    decreases line.len(),
{
    if line.len() > 0 {
        lemma_full_line_is_open(line.drop_last());
    }
}

/// A line of filled cells only, with at least one cell, has one run: the
/// whole line.
pub proof fn lemma_runs_of_full_line(line: Seq<bool>)
    requires
        line.len() >= 1,
        forall|i: int| 0 <= i < line.len() ==> line[i],
    ensures
        runs(line) == seq![line.len()],
{
    lemma_full_line_is_open(line);
    assert(runs(line) =~= seq![line.len()]);
}

/// Every run holds at least one cell.
pub proof fn lemma_runs_are_positive(line: Seq<bool>)
    ensures
        forall|k: int| 0 <= k < runs(line).len() ==> #[trigger] runs(line)[k] >= 1,
{
    lemma_closed_runs_are_positive(line);
    assert forall|k: int| 0 <= k < runs(line).len() implies #[trigger] runs(line)[k] >= 1 by {
        if k < closed_runs(line).len() {
            assert(runs(line)[k] == closed_runs(line)[k]);
        }
    }
}

/// Every run that an empty cell has ended holds at least one cell.
pub proof fn lemma_closed_runs_are_positive(line: Seq<bool>)
    ensures
        forall|k: int| 0 <= k < closed_runs(line).len() ==> #[trigger] closed_runs(line)[k] >= 1,
    decreases line.len(),
{
    if line.len() > 0 {
        let head = line.drop_last();
        lemma_closed_runs_are_positive(head);
        assert forall|k: int| 0 <= k < closed_runs(line).len() implies #[trigger] closed_runs(
            line,
        )[k] >= 1 by {
            if k < closed_runs(head).len() {
                assert(closed_runs(line)[k] == closed_runs(head)[k]);
            }
        }
    }
}

/// `count` cells that are all filled, or all empty.
pub open spec fn block(filled: bool, count: nat) -> Seq<bool> {
    Seq::new(count, |i: int| filled)
}

/// The line drawn from run lengths and the gaps before them: for each run in
/// turn, `gaps[k]` empty cells, then `lengths[k]` filled ones.
pub open spec fn painted(gaps: Seq<nat>, lengths: Seq<nat>) -> Seq<bool>
    decreases lengths.len(),
{
    if lengths.len() == 0 || gaps.len() == 0 {
        Seq::empty()
    } else {
        painted(gaps.drop_last(), lengths.drop_last()) + block(false, gaps.last()) + block(
            true,
            lengths.last(),
        )
    }
}

/// Whether `lengths` and `gaps` describe a line: a gap for each run, no run
/// without a cell, and at least one empty cell between two runs.
pub open spec fn is_clue(gaps: Seq<nat>, lengths: Seq<nat>) -> bool {
    &&& gaps.len() == lengths.len()
    &&& forall|k: int| 0 <= k < lengths.len() ==> #[trigger] lengths[k] >= 1
    &&& forall|k: int| 1 <= k < gaps.len() ==> #[trigger] gaps[k] >= 1
}

/// Empty cells after a line add no run and end the open one.
pub proof fn lemma_runs_before_gap(line: Seq<bool>, gap: nat)
    ensures
        runs(line + block(false, gap)) == runs(line),
        gap >= 1 ==> trailing_run(line + block(false, gap)) == 0,
    decreases gap,
{
    let longer = line + block(false, gap);
    if gap == 0 {
        assert(longer =~= line);
    } else {
        assert(longer.drop_last() =~= line + block(false, (gap - 1) as nat));
        lemma_runs_before_gap(line, (gap - 1) as nat);
    }
}

/// Filled cells after a line lengthen its open run and end none.
pub proof fn lemma_runs_before_fill(line: Seq<bool>, count: nat)
    ensures
        trailing_run(line + block(true, count)) == trailing_run(line) + count,
        closed_runs(line + block(true, count)) == closed_runs(line),
    decreases count,
{
    let longer = line + block(true, count);
    if count == 0 {
        assert(longer =~= line);
    } else {
        assert(longer.drop_last() =~= line + block(true, (count - 1) as nat));
        lemma_runs_before_fill(line, (count - 1) as nat);
    }
}

/// The runs of a line drawn from a clue are the clue's run lengths, however
/// many empty cells follow the last run.
pub proof fn lemma_runs_of_painted_line(gaps: Seq<nat>, lengths: Seq<nat>, tail: nat)
    requires
        is_clue(gaps, lengths),
    ensures
        runs(painted(gaps, lengths) + block(false, tail)) == lengths,
    decreases lengths.len(),
{
    let line = painted(gaps, lengths);
    lemma_runs_before_gap(line, tail);
    if lengths.len() == 0 {
        assert(runs(line) =~= lengths);
    } else {
        let before = painted(gaps.drop_last(), lengths.drop_last());
        let gapped = before + block(false, gaps.last());
        lemma_runs_of_painted_line(gaps.drop_last(), lengths.drop_last(), gaps.last());
        lemma_runs_before_gap(before, gaps.last());
        lemma_runs_before_fill(gapped, lengths.last());
        if lengths.len() == 1 {
            assert(before =~= Seq::<bool>::empty());
        }
        assert(trailing_run(gapped) == 0);
        assert(closed_runs(gapped) == runs(gapped));
        assert(runs(line) =~= lengths.drop_last().push(lengths.last()));
        assert(lengths.drop_last().push(lengths.last()) =~= lengths);
    }
}

/// The number of empty cells at the end of `line`, back to the nearest
/// filled cell or to the start of the line.
pub open spec fn trailing_gap(line: Seq<bool>) -> nat
    decreases line.len(),
{
    if line.len() == 0 || line.last() {
        0
    } else {
        1 + trailing_gap(line.drop_last())
    }
}

/// For each run of `line`, in order, the number of empty cells between it
/// and the run before it, or the start of the line.
pub open spec fn gaps(line: Seq<bool>) -> Seq<nat>
    decreases line.len(),
{
    if line.len() == 0 {
        Seq::empty()
    } else if !line.last() || trailing_run(line.drop_last()) > 0 {
        gaps(line.drop_last())
    } else {
        gaps(line.drop_last()).push(trailing_gap(line.drop_last()))
    }
}

/// Every line is drawn from its own runs: the runs of `line`, with the gaps
/// of `line` before them and its trailing gap behind, give `line` back.
pub proof fn lemma_line_is_painted_from_its_runs(line: Seq<bool>)
    ensures
        is_clue(gaps(line), runs(line)),
        line == painted(gaps(line), runs(line)) + block(false, trailing_gap(line)),
    decreases line.len(),
{
    let drawn = painted(gaps(line), runs(line)) + block(false, trailing_gap(line));
    lemma_runs_are_positive(line);
    if line.len() == 0 {
        assert(drawn =~= line);
    } else {
        let head = line.drop_last();
        lemma_line_is_painted_from_its_runs(head);
        let before = painted(gaps(head), runs(head));
        assert(line =~= head.push(line.last()));
        if !line.last() {
            assert(runs(line) == runs(head));
            assert(drawn =~= (before + block(false, trailing_gap(head))).push(false));
        } else if trailing_run(head) > 0 {
            let closed = closed_runs(head);
            let open = trailing_run(head);
            assert(head.last());
            assert(trailing_gap(head) == 0);
            assert(runs(head) == closed.push(open));
            assert(runs(line) == closed.push(open + 1));
            assert(runs(head).drop_last() =~= closed);
            assert(runs(line).drop_last() =~= closed);
            assert(block(true, open + 1) =~= block(true, open).push(true));
            assert(block(false, 0) =~= Seq::<bool>::empty());
            assert(drawn =~= before.push(true));
            assert(head =~= before);
        } else {
            assert(runs(head) == closed_runs(head));
            assert(runs(line) == runs(head).push(1));
            assert(runs(line).drop_last() =~= runs(head));
            assert(gaps(line).drop_last() =~= gaps(head));
            assert(block(true, 1) =~= seq![true]);
            assert(block(false, 0) =~= Seq::<bool>::empty());
            assert(drawn =~= (before + block(false, trailing_gap(head))).push(true));
            assert forall|k: int| 1 <= k < gaps(line).len() implies #[trigger] gaps(line)[k]
                >= 1 by {
                if k == gaps(head).len() {
                    lemma_closed_line_ends_in_gap(head);
                }
            }
        }
    }
}

/// A line without an open run, but with a run, ends in an empty cell.
proof fn lemma_closed_line_ends_in_gap(line: Seq<bool>)
    requires
        trailing_run(line) == 0,
        runs(line).len() > 0,
    ensures
        trailing_gap(line) >= 1,
{
}

/// The run lengths of `line`.
pub fn line_runs(line: &Vec<bool>) -> (out: Vec<usize>)
    ensures
        as_lengths(out@) == runs(line@),
{
    let mut out: Vec<usize> = Vec::new();
    let mut acc: usize = 0;
    let mut i: usize = 0;
    while i < line.len()
        invariant
            i <= line@.len(),
            acc == trailing_run(line@.take(i as int)),
            as_lengths(out@) =~= closed_runs(line@.take(i as int)),
        decreases line@.len() - i,
    {
        proof {
            let next = line@.take(i + 1);
            assert(next.drop_last() =~= line@.take(i as int));
            assert(next.last() == line@[i as int]);
            lemma_trailing_run_bound(next);
        }
        if line[i] {
            acc = acc + 1;
        } else {
            if acc > 0 {
                out.push(acc);
            }
            acc = 0;
        }
        i = i + 1;
    }
    proof {
        assert(line@.take(i as int) =~= line@);
    }
    if acc > 0 {
        out.push(acc);
    }
    assert(as_lengths(out@) =~= runs(line@));
    out
}

} // verus!
