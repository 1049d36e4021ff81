use vstd::prelude::*;
use vstd::set_lib::{set_int_range, lemma_int_range, lemma_len_subset};

verus! {

/// A square of a board, by row and column.
#[derive(Debug, Clone, Copy, PartialEq, Eq, Hash, Structural)]
pub struct Position {
    pub row: u8,
    pub col: u8,
}

/// The Xiangqi board has 10 rows and 9 columns.
pub open spec fn on_xiangqi_board(p: Position) -> bool {
    p.row < 10 && p.col < 9
}

/// The Junqi board has 12 rows and 5 columns.
pub open spec fn on_junqi_board(p: Position) -> bool {
    p.row < 12 && p.col < 5
}

impl Position {
    pub fn new(row: u8, col: u8) -> (p: Self)
        ensures
            p.row == row,
            p.col == col,
    {
        Self { row, col }
    }

    /// Whether the position lies on the Xiangqi board.
    pub fn is_valid_xiangqi(&self) -> (b: bool)
        ensures
            b == on_xiangqi_board(*self),
    {
        self.row < 10 && self.col < 9
    }

    /// Whether the position lies on the Junqi board.
    pub fn is_valid_junqi(&self) -> (b: bool)
        ensures
            b == on_junqi_board(*self),
    {
        self.row < 12 && self.col < 5
    }
}

/// A list without repeats has as many entries as the set of what it holds.
pub proof fn lemma_list_len(v: Seq<Position>, s: Set<Position>)
    requires
        v.no_duplicates(),
        forall|t: Position| v.contains(t) <==> s.contains(t),
    ensures
        v.len() == s.len(),
        s.finite(),
{
    assert(v.to_set() =~= s);
    v.unique_seq_to_set();
}

/// Distinct squares of a `rows` by `cols` board are at most `rows * cols` in number.
pub proof fn lemma_distinct_squares_bounded(s: Seq<Position>, rows: int, cols: int)
    requires
        s.no_duplicates(),
        0 < cols,
        0 <= rows,
        forall|i: int| 0 <= i < s.len() ==> (#[trigger] s[i]).row < rows && s[i].col < cols,
    ensures
        s.len() <= rows * cols,
{
    let t = s.map_values(|p: Position| p.row * cols + p.col);
    assert(t.no_duplicates()) by {
        assert forall|i: int, j: int| 0 <= i < t.len() && 0 <= j < t.len() && i != j implies t[i] != t[j] by {
            let a = s[i];
            let b = s[j];
            assert(a != b);
            let (ar, ac, br, bc) = (a.row as int, a.col as int, b.row as int, b.col as int);
            assert(ar * cols + ac != br * cols + bc) by (nonlinear_arith)
                requires
                    0 <= ac < cols,
                    0 <= bc < cols,
                    ar >= 0,
                    br >= 0,
                    ar != br || ac != bc,
            {
                if ar < br {
                    assert(ar * cols + cols <= br * cols);
                } else if br < ar {
                    assert(br * cols + cols <= ar * cols);
                }
            }
        }
    }
    t.unique_seq_to_set();
    assert(0 <= rows * cols) by (nonlinear_arith)
        requires
            0 <= rows,
            0 < cols,
    ;
    lemma_int_range(0, rows * cols);
    assert(t.to_set().subset_of(set_int_range(0, rows * cols))) by {
        assert forall|x: int| t.to_set().contains(x) implies set_int_range(0, rows * cols).contains(x) by {
            let i = choose|i: int| 0 <= i < t.len() && t[i] == x;
            let (r, c) = (s[i].row as int, s[i].col as int);
            assert(0 <= r * cols + c < rows * cols) by (nonlinear_arith)
                requires
                    0 <= r < rows,
                    0 <= c < cols,
            {
                assert(r * cols + cols <= rows * cols);
            }
        }
    }
    lemma_len_subset(t.to_set(), set_int_range(0, rows * cols));
}

} // verus!
