//! Line diff by longest common subsequence.

use vstd::prelude::*;
use crate::grid::Grid;

verus! {

/// Length of a longest common subsequence of the first `i` lines of `a` and
/// the first `j` lines of `b`.
pub open spec fn lcs_len(a: Seq<String>, b: Seq<String>, i: nat, j: nat) -> nat
    decreases i + j,
{
    if i == 0 || j == 0 {
        0
    } else if a[i - 1]@ == b[j - 1]@ {
        lcs_len(a, b, (i - 1) as nat, (j - 1) as nat) + 1
    } else {
        let up = lcs_len(a, b, (i - 1) as nat, j);
        let left = lcs_len(a, b, i, (j - 1) as nat);
        if up >= left {
            up
        } else {
            left
        }
    }
}

/// A common subsequence of `i` and `j` lines is no longer than either.
pub proof fn lemma_lcs_len_bounded(a: Seq<String>, b: Seq<String>, i: nat, j: nat)
    ensures
        lcs_len(a, b, i, j) <= i,
        lcs_len(a, b, i, j) <= j,
    decreases i + j,
{
    if i > 0 && j > 0 {
        lemma_lcs_len_bounded(a, b, (i - 1) as nat, (j - 1) as nat);
        lemma_lcs_len_bounded(a, b, (i - 1) as nat, j);
        lemma_lcs_len_bounded(a, b, i, (j - 1) as nat);
    }
}

/// The table of longest-common-subsequence lengths of every pair of
/// prefixes: row `i`, column `j` holds that of the first `i` lines of `seq1`
/// and the first `j` lines of `seq2`.
pub fn lcs(seq1: &Vec<String>, seq2: &Vec<String>) -> (res: Grid)
    requires
        seq1.len() < usize::MAX,
        seq2.len() < usize::MAX,
    ensures
        res.wf(),
        res.spec_rows() == seq1.len() + 1,
        res.spec_cols() == seq2.len() + 1,
        forall|i: int, j: int|
            0 <= i <= seq1.len() && 0 <= j <= seq2.len() ==> #[trigger] res.cell(i, j) == lcs_len(
                seq1@,
                seq2@,
                i as nat,
                j as nat,
            ),
{
    let n = seq1.len();
    let m = seq2.len();
    let mut res = Grid::new(n + 1, m + 1);
    res.clear();
    for i in 0..n
        invariant
            n == seq1.len(),
            m == seq2.len(),
            res.wf(),
            res.spec_rows() == n + 1,
            res.spec_cols() == m + 1,
            forall|r: int, c: int|
                0 <= r <= i && 0 <= c <= m ==> #[trigger] res.cell(r, c) == lcs_len(
                    seq1@,
                    seq2@,
                    r as nat,
                    c as nat,
                ),
            forall|r: int| 0 <= r <= n ==> #[trigger] res.cell(r, 0) == 0,
    {
        for j in 0..m
            invariant
                n == seq1.len(),
                m == seq2.len(),
                i < n,
                res.wf(),
                res.spec_rows() == n + 1,
                res.spec_cols() == m + 1,
                forall|r: int, c: int|
                    0 <= r <= i && 0 <= c <= m ==> #[trigger] res.cell(r, c) == lcs_len(
                        seq1@,
                        seq2@,
                        r as nat,
                        c as nat,
                    ),
                forall|c: int|
                    0 <= c <= j ==> #[trigger] res.cell(i + 1, c) == lcs_len(
                        seq1@,
                        seq2@,
                        (i + 1) as nat,
                        c as nat,
                    ),
                forall|r: int| 0 <= r <= n ==> #[trigger] res.cell(r, 0) == 0,
        {
            proof {
                lemma_lcs_len_bounded(seq1@, seq2@, i as nat, j as nat);
            }
            if seq1[i] == seq2[j] {
                let diag = res.get(i, j).unwrap();
                let _ = res.set(i + 1, j + 1, diag + 1);
            } else {
                let left = res.get(i + 1, j).unwrap();
                let up = res.get(i, j + 1).unwrap();
                let best = if up >= left {
                    up
                } else {
                    left
                };
                let _ = res.set(i + 1, j + 1, best);
            }
            assert(res.cell(i + 1, j + 1) == lcs_len(seq1@, seq2@, (i + 1) as nat, (j + 1) as nat));
        }
    }
    res
}


/// One line of a diff, by index into the line lists it was computed from.
#[derive(Debug, Clone, Copy, PartialEq, Eq, Structural)]
pub enum DiffLine {
    /// Line `i` of the first list, equal to line `j` of the second.
    Common(usize, usize),
    /// Line `j` of the second list, absent from the first.
    Added(usize),
    /// Line `i` of the first list, absent from the second.
    Removed(usize),
}

/// The diff of the first `i` lines of `a` against the first `j` lines of `b`,
/// read off the table `t` of common-subsequence lengths: a line common to
/// both ends where both prefixes end; otherwise an added line is preferred
/// where it keeps the longest common subsequence.
pub open spec fn diff_of(t: Grid, a: Seq<String>, b: Seq<String>, i: nat, j: nat) -> Seq<DiffLine>
    decreases i + j,
{
    if i > 0 && j > 0 && a[i - 1]@ == b[j - 1]@ {
        diff_of(t, a, b, (i - 1) as nat, (j - 1) as nat).push(
            DiffLine::Common((i - 1) as usize, (j - 1) as usize),
        )
    } else if j > 0 && (i == 0 || t.cell(i as int, j - 1) >= t.cell(i - 1, j as int)) {
        diff_of(t, a, b, i, (j - 1) as nat).push(DiffLine::Added((j - 1) as usize))
    } else if i > 0 {
        diff_of(t, a, b, (i - 1) as nat, j).push(DiffLine::Removed((i - 1) as usize))
    } else {
        Seq::empty()
    }
}

/// The indices into the first list that a diff mentions (common and
/// removed lines), in order.
pub open spec fn first_side(d: Seq<DiffLine>) -> Seq<usize>
    decreases d.len(),
{
    if d.len() == 0 {
        Seq::empty()
    } else {
        let pre = first_side(d.drop_last());
        match d.last() {
            DiffLine::Common(i, _) => pre.push(i),
            DiffLine::Removed(i) => pre.push(i),
            DiffLine::Added(_) => pre,
        }
    }
}

/// The indices into the second list that a diff mentions (common and added
/// lines), in order.
pub open spec fn second_side(d: Seq<DiffLine>) -> Seq<usize>
    decreases d.len(),
{
    if d.len() == 0 {
        Seq::empty()
    } else {
        let pre = second_side(d.drop_last());
        match d.last() {
            DiffLine::Common(_, j) => pre.push(j),
            DiffLine::Added(j) => pre.push(j),
            DiffLine::Removed(_) => pre,
        }
    }
}

/// The number of common lines in a diff.
pub open spec fn common_count(d: Seq<DiffLine>) -> nat
    decreases d.len(),
{
    if d.len() == 0 {
        0
    } else {
        common_count(d.drop_last()) + if d.last() is Common {
            1nat
        } else {
            0nat
        }
    }
}

/// `0, 1, ..., k - 1`.
pub open spec fn indices(k: nat) -> Seq<usize> {
    Seq::new(k, |x: int| x as usize)
}

/// `t` is the table that [`lcs`] builds for `a` and `b`.
pub open spec fn is_lcs_table(t: Grid, a: Seq<String>, b: Seq<String>) -> bool {
    forall|i: int, j: int|
        0 <= i <= a.len() && 0 <= j <= b.len() ==> #[trigger] t.cell(i, j) == lcs_len(a, b, i as nat, j as nat)
}

/// A diff lists every line of the first list once, in order, and every line
/// of the second list once, in order; read off the table of [`lcs`], its
/// common lines are as many as the longest common subsequence is long.
pub proof fn lemma_diff_sides(t: Grid, a: Seq<String>, b: Seq<String>, i: nat, j: nat)
    requires
        i <= a.len(),
        j <= b.len(),
    ensures
        first_side(diff_of(t, a, b, i, j)) == indices(i),
        second_side(diff_of(t, a, b, i, j)) == indices(j),
        is_lcs_table(t, a, b) ==> common_count(diff_of(t, a, b, i, j)) == lcs_len(a, b, i, j),
    decreases i + j,
{
    let d = diff_of(t, a, b, i, j);
    if i > 0 && j > 0 && a[i - 1]@ == b[j - 1]@ {
        lemma_diff_sides(t, a, b, (i - 1) as nat, (j - 1) as nat);
        assert(d.drop_last() =~= diff_of(t, a, b, (i - 1) as nat, (j - 1) as nat));
    } else if j > 0 && (i == 0 || t.cell(i as int, j - 1) >= t.cell(i - 1, j as int)) {
        lemma_diff_sides(t, a, b, i, (j - 1) as nat);
        assert(d.drop_last() =~= diff_of(t, a, b, i, (j - 1) as nat));
    } else if i > 0 {
        lemma_diff_sides(t, a, b, (i - 1) as nat, j);
        assert(d.drop_last() =~= diff_of(t, a, b, (i - 1) as nat, j));
    }
    assert(first_side(d) =~= indices(i));
    assert(second_side(d) =~= indices(j));
}

fn diff_from(
    lcs_table: &Grid,
    lines1: &Vec<String>,
    lines2: &Vec<String>,
    i: usize,
    j: usize,
    out: &mut Vec<DiffLine>,
)
    requires
        lcs_table.wf(),
        i <= lines1.len(),
        j <= lines2.len(),
        lcs_table.spec_rows() == lines1.len() + 1,
        lcs_table.spec_cols() == lines2.len() + 1,
    ensures
        final(out)@ == old(out)@ + diff_of(*lcs_table, lines1@, lines2@, i as nat, j as nat),
    decreases i + j,
{
    if i > 0 && j > 0 && lines1[i - 1] == lines2[j - 1] {
        diff_from(lcs_table, lines1, lines2, i - 1, j - 1, out);
        out.push(DiffLine::Common(i - 1, j - 1));
    } else if j > 0 && (i == 0 || lcs_table.get(i, j - 1).unwrap() >= lcs_table.get(
        i - 1,
        j,
    ).unwrap()) {
        diff_from(lcs_table, lines1, lines2, i, j - 1, out);
        out.push(DiffLine::Added(j - 1));
    } else if i > 0 {
        diff_from(lcs_table, lines1, lines2, i - 1, j, out);
        out.push(DiffLine::Removed(i - 1));
    }
    proof {
        let d = diff_of(*lcs_table, lines1@, lines2@, i as nat, j as nat);
        assert(final(out)@ =~= old(out)@ + d);
    }
}

/// The diff of `lines1` against `lines2`, in order, given their table from
/// [`lcs`].
pub fn diff_lines(lcs_table: &Grid, lines1: &Vec<String>, lines2: &Vec<String>) -> (r: Vec<
    DiffLine,
>)
    requires
        lcs_table.wf(),
        lcs_table.spec_rows() == lines1.len() + 1,
        lcs_table.spec_cols() == lines2.len() + 1,
    ensures
        r@ == diff_of(*lcs_table, lines1@, lines2@, lines1.len() as nat, lines2.len() as nat),
        first_side(r@) == indices(lines1.len() as nat),
        second_side(r@) == indices(lines2.len() as nat),
        is_lcs_table(*lcs_table, lines1@, lines2@) ==> common_count(r@) == lcs_len(
            lines1@,
            lines2@,
            lines1.len() as nat,
            lines2.len() as nat,
        ),
{
    proof {
        lemma_diff_sides(*lcs_table, lines1@, lines2@, lines1.len() as nat, lines2.len() as nat);
    }
    let mut out: Vec<DiffLine> = Vec::new();
    diff_from(lcs_table, lines1, lines2, lines1.len(), lines2.len(), &mut out);
    assert(out@ =~= diff_of(*lcs_table, lines1@, lines2@, lines1.len() as nat, lines2.len() as nat));
    out
}

} // verus!
