use vstd::prelude::*;
use vstd::math::max;

verus! {

/// Traceback direction of a cell of the alignment matrix.
#[derive(Debug, Clone, Copy, Eq, PartialEq, Structural)]
pub enum Direction {
    /// Go diagonally, left and up: the two heads are aligned.
    Match,
    Left,
    Up,
    Undefined,
}

/// One cell of the alignment matrix: the best score of the prefix pair and
/// the direction the traceback takes from here.
#[derive(Debug, Clone, Copy, Eq, PartialEq, Structural)]
pub struct ResultEntry {
    pub score: i64,
    pub direction: Direction,
}

impl ResultEntry {
    pub fn new(s: i64, d: Direction) -> (r: ResultEntry)
        ensures
            r.score == s,
            r.direction == d,
    {
        ResultEntry { score: s, direction: d }
    }
}

/// A deterministic similarity oracle over element pairs, with an
/// executable scorer agreeing with its specification.
pub trait Similarity<T>: Sized {
    /// The score of a pair, at the specification level.
    spec fn sim_spec(&self, a: T, b: T) -> int;

    /// Executable scorer.
    fn sim(&self, a: &T, b: &T) -> (r: i64)
        ensures
            r as int == self.sim_spec(*a, *b),
    ;
}

/// The usual two-level similarity: one score for equal elements, another
/// for unequal ones.
pub struct EqSimilarity {
    pub matched: i64,
    pub mismatched: i64,
}

impl Similarity<char> for EqSimilarity {
    open spec fn sim_spec(&self, a: char, b: char) -> int {
        if a == b {
            self.matched as int
        } else {
            self.mismatched as int
        }
    }

    fn sim(&self, a: &char, b: &char) -> (r: i64) {
        if *a == *b {
            self.matched
        } else {
            self.mismatched
        }
    }
}

/// The dynamic-programming score of aligning the length-`i` prefix of `s1`
/// with the length-`j` prefix of `s2`: the border rows prepay one unit per
/// skipped element, and an interior cell takes the best of a diagonal
/// match, a gap in `s2` (up) and a gap in `s1` (left).
pub open spec fn nw_score<T, S: Similarity<T>>(
    s1: Seq<T>,
    s2: Seq<T>,
    sim: S,
    gap: int,
    i: int,
    j: int,
) -> int
    decreases i + j,
{
    if i <= 0 && j <= 0 {
        0
    } else if i <= 0 {
        -j
    } else if j <= 0 {
        -i
    } else {
        let m = nw_score(s1, s2, sim, gap, i - 1, j - 1) + sim.sim_spec(s1[i - 1], s2[j - 1]);
        let u = nw_score(s1, s2, sim, gap, i - 1, j) + gap;
        let l = nw_score(s1, s2, sim, gap, i, j - 1) + gap;
        if m >= u && m >= l {
            m
        } else if u >= l {
            u
        } else {
            l
        }
    }
}

/// Direction recorded at an interior cell: a diagonal match wins ties,
/// then the up step.
pub open spec fn nw_direction<T, S: Similarity<T>>(
    s1: Seq<T>,
    s2: Seq<T>,
    sim: S,
    gap: int,
    i: int,
    j: int,
) -> Direction {
    let m = nw_score(s1, s2, sim, gap, i - 1, j - 1) + sim.sim_spec(s1[i - 1], s2[j - 1]);
    let u = nw_score(s1, s2, sim, gap, i - 1, j) + gap;
    let l = nw_score(s1, s2, sim, gap, i, j - 1) + gap;
    if m >= u && m >= l {
        Direction::Match
    } else if u >= l {
        Direction::Up
    } else {
        Direction::Left
    }
}

/// Direction of any cell of the filled matrix: interior cells follow
/// `nw_direction`, the border columns walk back to the origin, and the
/// origin stops the traceback.
pub open spec fn nw_cell_direction<T, S: Similarity<T>>(
    s1: Seq<T>,
    s2: Seq<T>,
    sim: S,
    gap: int,
    i: int,
    j: int,
) -> Direction {
    if i >= 1 && j >= 1 {
        nw_direction(s1, s2, sim, gap, i, j)
    } else if i >= 1 {
        Direction::Up
    } else if j >= 1 {
        Direction::Left
    } else {
        Direction::Undefined
    }
}

/// The three sums an interior cell computes all fit in `i64`.
pub open spec fn nw_step_fits<T, S: Similarity<T>>(
    s1: Seq<T>,
    s2: Seq<T>,
    sim: S,
    gap: int,
    i: int,
    j: int,
) -> bool {
    &&& i64::MIN <= nw_score(s1, s2, sim, gap, i - 1, j - 1) + sim.sim_spec(s1[i - 1], s2[j - 1])
        <= i64::MAX
    &&& i64::MIN <= nw_score(s1, s2, sim, gap, i - 1, j) + gap <= i64::MAX
    &&& i64::MIN <= nw_score(s1, s2, sim, gap, i, j - 1) + gap <= i64::MAX
}

/// The cell holds the dynamic-programming score of `(i, j)` and the
/// direction it was reached from.
pub open spec fn cell_ok<T, S: Similarity<T>>(
    e: ResultEntry,
    s1: Seq<T>,
    s2: Seq<T>,
    sim: S,
    gap: int,
    i: int,
    j: int,
) -> bool {
    e.score as int == nw_score(s1, s2, sim, gap, i, j) && e.direction == nw_direction(
        s1,
        s2,
        sim,
        gap,
        i,
        j,
    )
}

/// The pair of gapped sequences the traceback emits, walking from cell
/// `(i, j)` back to the origin.
pub open spec fn nw_trace<T, S: Similarity<T>>(
    s1: Seq<T>,
    s2: Seq<T>,
    sim: S,
    gap: int,
    i: int,
    j: int,
) -> (Seq<Option<T>>, Seq<Option<T>>)
    decreases max(i, 0) + max(j, 0),
{
    let d = nw_cell_direction(s1, s2, sim, gap, i, j);
    if i <= 0 && j <= 0 {
        (Seq::empty(), Seq::empty())
    } else if d == Direction::Match {
        let t = nw_trace(s1, s2, sim, gap, i - 1, j - 1);
        (t.0.push(Some(s1[i - 1])), t.1.push(Some(s2[j - 1])))
    } else if d == Direction::Up {
        let t = nw_trace(s1, s2, sim, gap, i - 1, j);
        (t.0.push(Some(s1[i - 1])), t.1.push(None))
    } else {
        let t = nw_trace(s1, s2, sim, gap, i, j - 1);
        (t.0.push(None), t.1.push(Some(s2[j - 1])))
    }
}

/// Builds the bordered alignment matrix: the origin is the stop cell, the
/// first row walks left, the first column walks up, and every interior
/// cell starts undefined with score zero.
pub fn init_align_matrix(len1: usize, len2: usize) -> (mat: Vec<Vec<ResultEntry>>)
    requires
        len1 < usize::MAX,
        len2 < usize::MAX,
        len1 as int <= i64::MAX,
        len2 as int <= i64::MAX,
    ensures
        mat@.len() == len1 + 1,
        forall|i: int| 0 <= i <= len1 ==> #[trigger] mat@[i]@.len() == len2 + 1,
        mat@[0]@[0] == (ResultEntry { score: 0, direction: Direction::Undefined }),
        forall|j: int|
            1 <= j <= len2 ==> #[trigger] mat@[0]@[j] == (ResultEntry {
                score: (-j) as i64,
                direction: Direction::Left,
            }),
        forall|i: int|
            1 <= i <= len1 ==> #[trigger] mat@[i]@[0] == (ResultEntry {
                score: (-i) as i64,
                direction: Direction::Up,
            }),
        forall|i: int, j: int|
            1 <= i <= len1 && 1 <= j <= len2 ==> #[trigger] mat@[i]@[j] == (ResultEntry {
                score: 0,
                direction: Direction::Undefined,
            }),
{
    let mut mat: Vec<Vec<ResultEntry>> = Vec::new();
    let mut row0: Vec<ResultEntry> = Vec::new();
    row0.push(ResultEntry::new(0, Direction::Undefined));
    let mut j: usize = 1;
    while j <= len2
        invariant
            len2 < usize::MAX,
            len2 as int <= i64::MAX,
            1 <= j <= len2 + 1,
            row0@.len() == j,
            row0@[0] == (ResultEntry { score: 0, direction: Direction::Undefined }),
            forall|j2: int|
                1 <= j2 < j ==> #[trigger] row0@[j2] == (ResultEntry {
                    score: (-j2) as i64,
                    direction: Direction::Left,
                }),
        decreases len2 + 1 - j,
    {
        row0.push(ResultEntry::new(-(j as i64), Direction::Left));
        j = j + 1;
    }
    mat.push(row0);
    let mut i: usize = 1;
    while i <= len1
        invariant
            len1 < usize::MAX,
            len2 < usize::MAX,
            len1 as int <= i64::MAX,
            len2 as int <= i64::MAX,
            1 <= i <= len1 + 1,
            mat@.len() == i,
            forall|i2: int| 0 <= i2 < i ==> #[trigger] mat@[i2]@.len() == len2 + 1,
            mat@[0]@[0] == (ResultEntry { score: 0, direction: Direction::Undefined }),
            forall|j2: int|
                1 <= j2 <= len2 ==> #[trigger] mat@[0]@[j2] == (ResultEntry {
                    score: (-j2) as i64,
                    direction: Direction::Left,
                }),
            forall|i2: int|
                1 <= i2 < i ==> #[trigger] mat@[i2]@[0] == (ResultEntry {
                    score: (-i2) as i64,
                    direction: Direction::Up,
                }),
            forall|i2: int, j2: int|
                1 <= i2 < i && 1 <= j2 <= len2 ==> #[trigger] mat@[i2]@[j2] == (ResultEntry {
                    score: 0,
                    direction: Direction::Undefined,
                }),
        decreases len1 + 1 - i,
    {
        let mut row: Vec<ResultEntry> = Vec::new();
        row.push(ResultEntry::new(-(i as i64), Direction::Up));
        let mut j2: usize = 1;
        while j2 <= len2
            invariant
                1 <= j2 <= len2 + 1,
                len2 < usize::MAX,
                1 <= i,
                i as int <= i64::MAX,
                row@.len() == j2,
                row@[0] == (ResultEntry { score: (-(i as int)) as i64, direction: Direction::Up }),
                forall|j3: int|
                    1 <= j3 < j2 ==> #[trigger] row@[j3] == (ResultEntry {
                        score: 0,
                        direction: Direction::Undefined,
                    }),
            decreases len2 + 1 - j2,
        {
            row.push(ResultEntry::new(0, Direction::Undefined));
            j2 = j2 + 1;
        }
        mat.push(row);
        i = i + 1;
    }
    mat
}

/// Fills every interior cell of a freshly initialized matrix with the
/// dynamic-programming score and the direction it was reached from,
/// leaving the border untouched.
pub fn fill_align_matrix<T: Copy, S: Similarity<T>>(
    mat: &mut Vec<Vec<ResultEntry>>,
    vec1: &Vec<T>,
    vec2: &Vec<T>,
    similarity: &S,
    gap_penalty: i64,
)
    requires
        vec1@.len() < usize::MAX,
        vec2@.len() < usize::MAX,
        old(mat)@.len() == vec1@.len() + 1,
        forall|i: int| 0 <= i < old(mat)@.len() ==> #[trigger] old(mat)@[i]@.len() == vec2@.len()
            + 1,
        forall|i: int|
            0 <= i < old(mat)@.len() ==> #[trigger] old(mat)@[i]@[0].score as int == -i,
        forall|j: int|
            0 <= j < old(mat)@[0]@.len() ==> #[trigger] old(mat)@[0]@[j].score as int == -j,
        forall|i: int, j: int|
            1 <= i <= vec1@.len() && 1 <= j <= vec2@.len() ==> nw_step_fits(
                vec1@,
                vec2@,
                *similarity,
                gap_penalty as int,
                i,
                j,
            ),
    ensures
        final(mat)@.len() == old(mat)@.len(),
        forall|i: int|
            0 <= i < final(mat)@.len() ==> #[trigger] final(mat)@[i]@.len() == old(mat)@[i]@.len(),
        forall|i: int|
            0 <= i < final(mat)@.len() ==> #[trigger] final(mat)@[i]@[0] == old(mat)@[i]@[0],
        forall|j: int|
            0 <= j < old(mat)@[0]@.len() ==> #[trigger] final(mat)@[0]@[j] == old(mat)@[0]@[j],
        forall|i: int, j: int|
            1 <= i <= vec1@.len() && 1 <= j <= vec2@.len() ==> cell_ok(
                #[trigger] final(mat)@[i]@[j],
                vec1@,
                vec2@,
                *similarity,
                gap_penalty as int,
                i,
                j,
            ),
{
    let len1 = vec1.len();
    let len2 = vec2.len();
    let mut i: usize = 1;
    while i <= len1
        invariant
            len1 == vec1@.len(),
            len2 == vec2@.len(),
            len1 < usize::MAX,
            len2 < usize::MAX,
            1 <= i <= len1 + 1,
            mat@.len() == old(mat)@.len(),
            mat@[0] == old(mat)@[0],
            old(mat)@.len() == len1 + 1,
            forall|i2: int| 0 <= i2 < old(mat)@.len() ==> #[trigger] old(mat)@[i2]@.len() == len2
                + 1,
            forall|i2: int|
                0 <= i2 < old(mat)@.len() ==> #[trigger] old(mat)@[i2]@[0].score as int == -i2,
            forall|j2: int|
                0 <= j2 < old(mat)@[0]@.len() ==> #[trigger] old(mat)@[0]@[j2].score as int == -j2,
            forall|i2: int, j2: int|
                1 <= i2 <= len1 && 1 <= j2 <= len2 ==> nw_step_fits(
                    vec1@,
                    vec2@,
                    *similarity,
                    gap_penalty as int,
                    i2,
                    j2,
                ),
            forall|i2: int| 0 <= i2 < mat@.len() ==> #[trigger] mat@[i2]@.len() == len2 + 1,
            forall|i2: int| 0 <= i2 < mat@.len() ==> #[trigger] mat@[i2]@[0] == old(mat)@[i2]@[0],
            forall|i2: int| i <= i2 < mat@.len() ==> #[trigger] mat@[i2] == old(mat)@[i2],
            forall|i2: int, j2: int|
                1 <= i2 < i && 1 <= j2 <= len2 ==> cell_ok(
                    #[trigger] mat@[i2]@[j2],
                    vec1@,
                    vec2@,
                    *similarity,
                    gap_penalty as int,
                    i2,
                    j2,
                ),
        decreases len1 + 1 - i,
    {
        let mut row: Vec<ResultEntry> = Vec::new();
        row.push(ResultEntry::new(mat[i][0].score, mat[i][0].direction));
        let mut j: usize = 1;
        while j <= len2
            invariant
                len1 == vec1@.len(),
                len2 == vec2@.len(),
                len2 < usize::MAX,
                1 <= i <= len1,
                1 <= j <= len2 + 1,
                mat@.len() == len1 + 1,
                mat@[0] == old(mat)@[0],
                forall|i2: int| 0 <= i2 < mat@.len() ==> #[trigger] mat@[i2]@.len() == len2 + 1,
                forall|i2: int| 0 <= i2 < mat@.len() ==> #[trigger] mat@[i2]@[0].score as int
                    == -i2,
                forall|j2: int| 0 <= j2 < mat@[0]@.len() ==> #[trigger] mat@[0]@[j2].score as int
                    == -j2,
                forall|i2: int, j2: int|
                    1 <= i2 <= len1 && 1 <= j2 <= len2 ==> nw_step_fits(
                        vec1@,
                        vec2@,
                        *similarity,
                        gap_penalty as int,
                        i2,
                        j2,
                    ),
                forall|i2: int, j2: int|
                    1 <= i2 < i && 1 <= j2 <= len2 ==> cell_ok(
                        #[trigger] mat@[i2]@[j2],
                        vec1@,
                        vec2@,
                        *similarity,
                        gap_penalty as int,
                        i2,
                        j2,
                    ),
                row@.len() == j,
                row@[0] == mat@[i as int]@[0],
                forall|j2: int|
                    1 <= j2 < j ==> cell_ok(
                        #[trigger] row@[j2],
                        vec1@,
                        vec2@,
                        *similarity,
                        gap_penalty as int,
                        i as int,
                        j2,
                    ),
            decreases len2 + 1 - j,
        {
            let up_left = mat[i - 1][j - 1].score;
            let up = mat[i - 1][j].score;
            let left = row[j - 1].score;
            let s = similarity.sim(&vec1[i - 1], &vec2[j - 1]);
            proof {
                let g = gap_penalty as int;
                assert(nw_step_fits(vec1@, vec2@, *similarity, g, i as int, j as int));
                assert(up_left as int == nw_score(vec1@, vec2@, *similarity, g, i as int - 1, j as int - 1));
                assert(up as int == nw_score(vec1@, vec2@, *similarity, g, i as int - 1, j as int));
                assert(left as int == nw_score(vec1@, vec2@, *similarity, g, i as int, j as int - 1));
            }
            let match_score = up_left + s;
            let up_score = up + gap_penalty;
            let left_score = left + gap_penalty;
            if match_score >= up_score && match_score >= left_score {
                row.push(ResultEntry::new(match_score, Direction::Match));
            } else if up_score >= left_score {
                row.push(ResultEntry::new(up_score, Direction::Up));
            } else {
                row.push(ResultEntry::new(left_score, Direction::Left));
            }
            proof {
                assert(cell_ok(
                    row@[j as int],
                    vec1@,
                    vec2@,
                    *similarity,
                    gap_penalty as int,
                    i as int,
                    j as int,
                ));
            }
            j = j + 1;
        }
        let ghost pre = mat@;
        mat[i] = row;
        proof {
            assert forall|i2: int| i + 1 <= i2 < mat@.len() implies #[trigger] mat@[i2] == old(mat)@[i2] by {
                assert(mat@[i2] == pre[i2]);
            }
        }
        i = i + 1;
    }
}

/// Global alignment of two sequences in the Needleman-Wunsch style.
pub trait NeedlemanWunsch<T, S: Similarity<T>>: Sized {
    /// The sequence of elements the aligned value holds.
    spec fn seq_of(&self) -> Seq<T>;

    /// Aligns `self` against `vec`: fills the scoring matrix and walks it
    /// back, emitting the two gapped rows of the alignment. Neither input
    /// is changed.
    fn align(&mut self, vec: &mut Vec<T>, similarity: &S, gap_penalty: i64) -> (r: (
        Vec<Option<T>>,
        Vec<Option<T>>,
    ))
        requires
            old(self).seq_of().len() < usize::MAX,
            old(vec)@.len() < usize::MAX,
            old(self).seq_of().len() <= i64::MAX as usize,
            old(vec)@.len() <= i64::MAX as usize,
            forall|i: int, j: int|
                1 <= i <= old(self).seq_of().len() && 1 <= j <= old(vec)@.len() ==> nw_step_fits(
                    old(self).seq_of(),
                    old(vec)@,
                    *similarity,
                    gap_penalty as int,
                    i,
                    j,
                ),
        ensures
            final(self).seq_of() == old(self).seq_of(),
            final(vec)@ == old(vec)@,
            (r.0@, r.1@) == nw_trace(
                old(self).seq_of(),
                old(vec)@,
                *similarity,
                gap_penalty as int,
                old(self).seq_of().len() as int,
                old(vec)@.len() as int,
            ),
    ;
}

impl<T: Copy, S: Similarity<T>> NeedlemanWunsch<T, S> for Vec<T> {
    open spec fn seq_of(&self) -> Seq<T> {
        self@
    }

    fn align(&mut self, vec: &mut Vec<T>, similarity: &S, gap_penalty: i64) -> (r: (
        Vec<Option<T>>,
        Vec<Option<T>>,
    )) {
        let ghost s1 = self@;
        let ghost s2 = vec@;
        let ghost gap = gap_penalty as int;
        let len1 = self.len();
        let len2 = vec.len();
        let mut mat = init_align_matrix(len1, len2);
        fill_align_matrix(&mut mat, &*self, &*vec, similarity, gap_penalty);
        let mut out1: Vec<Option<T>> = Vec::new();
        let mut out2: Vec<Option<T>> = Vec::new();
        let mut i: usize = len1;
        let mut j: usize = len2;
        loop
            invariant
                len1 == s1.len(),
                len2 == s2.len(),
                self@ == s1,
                vec@ == s2,
                i <= len1,
                j <= len2,
                mat@.len() == len1 + 1,
                forall|i2: int| 0 <= i2 < mat@.len() ==> #[trigger] mat@[i2]@.len() == len2 + 1,
                forall|i2: int|
                    0 <= i2 < mat@.len() ==> #[trigger] mat@[i2]@[0].direction == (if i2 == 0 {
                        Direction::Undefined
                    } else {
                        Direction::Up
                    }),
                forall|j2: int|
                    0 <= j2 < mat@[0]@.len() ==> #[trigger] mat@[0]@[j2].direction == (if j2 == 0 {
                        Direction::Undefined
                    } else {
                        Direction::Left
                    }),
                forall|i2: int, j2: int|
                    1 <= i2 <= len1 && 1 <= j2 <= len2 ==> cell_ok(
                        #[trigger] mat@[i2]@[j2],
                        s1,
                        s2,
                        *similarity,
                        gap,
                        i2,
                        j2,
                    ),
                nw_trace(s1, s2, *similarity, gap, len1 as int, len2 as int).0 == nw_trace(
                    s1,
                    s2,
                    *similarity,
                    gap,
                    i as int,
                    j as int,
                ).0 + out1@,
                nw_trace(s1, s2, *similarity, gap, len1 as int, len2 as int).1 == nw_trace(
                    s1,
                    s2,
                    *similarity,
                    gap,
                    i as int,
                    j as int,
                ).1 + out2@,
            ensures
                self@ == s1,
                vec@ == s2,
                i == 0,
                j == 0,
                nw_trace(s1, s2, *similarity, gap, len1 as int, len2 as int).0 == nw_trace(
                    s1,
                    s2,
                    *similarity,
                    gap,
                    0,
                    0,
                ).0 + out1@,
                nw_trace(s1, s2, *similarity, gap, len1 as int, len2 as int).1 == nw_trace(
                    s1,
                    s2,
                    *similarity,
                    gap,
                    0,
                    0,
                ).1 + out2@,
            decreases i + j,
        {
            let d = mat[i][j].direction;
            proof {
                assert(d == nw_cell_direction(s1, s2, *similarity, gap, i as int, j as int));
            }
            match d {
                Direction::Undefined => {
                    break ;
                },
                Direction::Match => {
                    proof {
                        assert(nw_trace(s1, s2, *similarity, gap, i as int, j as int).0
                            == nw_trace(s1, s2, *similarity, gap, i as int - 1, j as int - 1).0.push(
                            Some(s1[i as int - 1]),
                        ));
                        assert(nw_trace(s1, s2, *similarity, gap, i as int - 1, j as int - 1).0.push(
                            Some(s1[i as int - 1]),
                        ) + out1@ =~= nw_trace(s1, s2, *similarity, gap, i as int - 1, j as int
                            - 1).0 + (seq![Some(s1[i as int - 1])] + out1@));
                        assert(nw_trace(s1, s2, *similarity, gap, i as int - 1, j as int - 1).1.push(
                            Some(s2[j as int - 1]),
                        ) + out2@ =~= nw_trace(s1, s2, *similarity, gap, i as int - 1, j as int
                            - 1).1 + (seq![Some(s2[j as int - 1])] + out2@));
                    }
                    let ghost o1 = out1@;
                    let ghost o2 = out2@;
                    out1.insert(0, Some(self[i - 1]));
                    out2.insert(0, Some(vec[j - 1]));
                    proof {
                        assert(out1@ =~= seq![Some(s1[i as int - 1])] + o1);
                        assert(out2@ =~= seq![Some(s2[j as int - 1])] + o2);
                    }
                    i = i - 1;
                    j = j - 1;
                },
                Direction::Up => {
                    proof {
                        assert(nw_trace(s1, s2, *similarity, gap, i as int, j as int).0
                            == nw_trace(s1, s2, *similarity, gap, i as int - 1, j as int).0.push(
                            Some(s1[i as int - 1]),
                        ));
                        assert(nw_trace(s1, s2, *similarity, gap, i as int - 1, j as int).0.push(
                            Some(s1[i as int - 1]),
                        ) + out1@ =~= nw_trace(s1, s2, *similarity, gap, i as int - 1, j as int).0
                            + (seq![Some(s1[i as int - 1])] + out1@));
                        assert(nw_trace(s1, s2, *similarity, gap, i as int - 1, j as int).1.push(
                            None,
                        ) + out2@ =~= nw_trace(s1, s2, *similarity, gap, i as int - 1, j as int).1
                            + (seq![None::<T>] + out2@));
                    }
                    let ghost o1 = out1@;
                    let ghost o2 = out2@;
                    out1.insert(0, Some(self[i - 1]));
                    out2.insert(0, None);
                    proof {
                        assert(out1@ =~= seq![Some(s1[i as int - 1])] + o1);
                        assert(out2@ =~= seq![None::<T>] + o2);
                    }
                    i = i - 1;
                },
                Direction::Left => {
                    proof {
                        assert(nw_trace(s1, s2, *similarity, gap, i as int, j as int).0
                            == nw_trace(s1, s2, *similarity, gap, i as int, j as int - 1).0.push(
                            None,
                        ));
                        assert(nw_trace(s1, s2, *similarity, gap, i as int, j as int - 1).0.push(
                            None,
                        ) + out1@ =~= nw_trace(s1, s2, *similarity, gap, i as int, j as int - 1).0
                            + (seq![None::<T>] + out1@));
                        assert(nw_trace(s1, s2, *similarity, gap, i as int, j as int - 1).1.push(
                            Some(s2[j as int - 1]),
                        ) + out2@ =~= nw_trace(s1, s2, *similarity, gap, i as int, j as int - 1).1
                            + (seq![Some(s2[j as int - 1])] + out2@));
                    }
                    let ghost o1 = out1@;
                    let ghost o2 = out2@;
                    out1.insert(0, None);
                    out2.insert(0, Some(vec[j - 1]));
                    proof {
                        assert(out1@ =~= seq![None::<T>] + o1);
                        assert(out2@ =~= seq![Some(s2[j as int - 1])] + o2);
                    }
                    j = j - 1;
                },
            }
        }
        proof {
            assert(nw_trace(s1, s2, *similarity, gap, 0, 0).0 =~= Seq::<Option<T>>::empty());
            assert(nw_trace(s1, s2, *similarity, gap, 0, 0).0 + out1@ =~= out1@);
            assert(nw_trace(s1, s2, *similarity, gap, 0, 0).1 + out2@ =~= out2@);
        }
        (out1, out2)
    }
}

} // verus!
