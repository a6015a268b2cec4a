//! Row-major matrices in 16.16 fixed point, with the named constructors of
//! the camera pipeline.
//!
//! The inverse runs Gauss-Jordan elimination on an augmented matrix with a
//! defined fallback for a zero pivot: the quotient is zero, never an
//! undefined value, so a singular input yields a garbage matrix but cannot
//! corrupt anything else.

use vstd::prelude::*;
use crate::dimensional::Vector;
use crate::fixed::FX_ONE;
use crate::fixed::fx_add;
use crate::fixed::fx_div;
use crate::fixed::fx_mul;
use crate::fixed::fx_sub;
use crate::fixed::spec_fx_add;
use crate::fixed::spec_fx_div;
use crate::fixed::spec_fx_mul;
use crate::fixed::spec_fx_sub;

verus! {

pub struct Matrix {
    pub matrix: Vec<Vec<i64>>,
    pub rows: usize,
    pub col: usize,
}

/// The first `k` products of row `i` of `a` against column `j` of `b`,
/// accumulated left to right.
pub open spec fn spec_mul_acc(a: Seq<Seq<i64>>, b: Seq<Seq<i64>>, i: int, j: int, k: nat) -> int
    decreases k,
{
    if k == 0 {
        0
    } else {
        spec_fx_add(
            spec_mul_acc(a, b, i, j, (k - 1) as nat),
            spec_fx_mul(a[i][k - 1] as int, b[k - 1][j] as int),
        )
    }
}

/// What the identity matrix holds at `(i, j)`.
pub open spec fn spec_ident_entry(i: int, j: int) -> int {
    if i == j {
        FX_ONE as int
    } else {
        0
    }
}

/// The viewport matrix as a grid.
pub open spec fn spec_view_port_grid(x: i64, y: i64, width: i64, height: i64) -> Seq<Seq<i64>> {
    Seq::new(
        4,
        |i: int|
            Seq::new(
                4,
                |j: int|
                    if i == 0 && j == 3 {
                        spec_fx_div(spec_fx_add(x as int, width as int), 2 * FX_ONE) as i64
                    } else if i == 1 && j == 3 {
                        spec_fx_div(spec_fx_add(y as int, height as int), 2 * FX_ONE) as i64
                    } else if i == 2 && j == 3 {
                        FX_ONE
                    } else if i == 0 && j == 0 {
                        spec_fx_div(width as int, 2 * FX_ONE) as i64
                    } else if i == 1 && j == 1 {
                        spec_fx_div(height as int, 2 * FX_ONE) as i64
                    } else {
                        spec_ident_entry(i, j) as i64
                    },
            ),
    )
}

/// The whole product grid: `inner` products accumulated per entry.
pub open spec fn spec_mat_mul(
    a: Seq<Seq<i64>>,
    b: Seq<Seq<i64>>,
    inner: nat,
    bcols: nat,
) -> Seq<Seq<i64>> {
    Seq::new(
        a.len(),
        |i: int| Seq::new(bcols, |j: int| spec_mul_acc(a, b, i, j, inner) as i64),
    )
}

/// The matrix beside an identity block: `n` columns of `a`, then column
/// `n + i` holding one in row `i`.
pub open spec fn spec_augmented(a: Seq<Seq<i64>>, n: int) -> Seq<Seq<i64>> {
    Seq::new(
        n as nat,
        |i: int|
            Seq::new(
                (2 * n) as nat,
                |j: int|
                    if j < n {
                        a[i][j]
                    } else if j == n + i {
                        FX_ONE
                    } else {
                        0
                    },
            ),
    )
}

/// Row `i` scaled by its own pivot.  A zero pivot zeroes the row: the
/// defined fallback for a singular matrix, never an undefined quotient.
pub open spec fn spec_pivot_row(m: Seq<Seq<i64>>, i: int, n2: int) -> Seq<Seq<i64>> {
    let d = m[i][i] as int;
    m.update(
        i,
        Seq::new(
            n2 as nat,
            |j: int|
                if j > i {
                    spec_fx_div(m[i][j] as int, d) as i64
                } else if j == i {
                    spec_fx_div(d, d) as i64
                } else if d == 0 {
                    0
                } else {
                    m[i][j]
                },
        ),
    )
}

/// Row `dst` minus row `src` scaled by the entry of `dst` in the pivot
/// column.
pub open spec fn spec_elim_row(
    m: Seq<Seq<i64>>,
    src: int,
    dst: int,
    piv_col: int,
    n2: int,
) -> Seq<Seq<i64>> {
    let coeff = m[dst][piv_col] as int;
    m.update(
        dst,
        Seq::new(
            n2 as nat,
            |k: int| spec_fx_sub(m[dst][k] as int, spec_fx_mul(m[src][k] as int, coeff)) as i64,
        ),
    )
}

/// Rows `i + 1 .. j` eliminated below pivot row `i`.
pub open spec fn spec_elim_below(m: Seq<Seq<i64>>, i: int, j: int, n2: int) -> Seq<Seq<i64>>
    decreases j - i,
{
    if j <= i + 1 {
        m
    } else {
        spec_elim_row(spec_elim_below(m, i, j - 1, n2), i, j - 1, i, n2)
    }
}

/// The first `k` forward-elimination steps: each scales its pivot row and
/// clears the column below it.
pub open spec fn spec_forward(m: Seq<Seq<i64>>, k: int, n: int, n2: int) -> Seq<Seq<i64>>
    decreases k,
{
    if k <= 0 {
        m
    } else {
        spec_elim_below(spec_pivot_row(spec_forward(m, k - 1, n, n2), k - 1, n2), k - 1, n, n2)
    }
}

/// The right half of the last row scaled by the last pivot.
pub open spec fn spec_last_norm(m: Seq<Seq<i64>>, n: int, n2: int) -> Seq<Seq<i64>> {
    let d = m[n - 1][n - 1] as int;
    m.update(
        n - 1,
        Seq::new(
            n2 as nat,
            |j: int|
                if j >= n {
                    spec_fx_div(m[n - 1][j] as int, d) as i64
                } else {
                    m[n - 1][j]
                },
        ),
    )
}

/// The first `k` rows above pivot row `n - i` eliminated.
pub open spec fn spec_back_inner(m: Seq<Seq<i64>>, i: int, k: int, n: int, n2: int) -> Seq<
    Seq<i64>,
>
    decreases k,
{
    if k <= 0 {
        m
    } else {
        spec_elim_row(spec_back_inner(m, i, k - 1, n, n2), n - i, k - 1, n - i, n2)
    }
}

/// The first `c` back-substitution sweeps, clearing columns right to left
/// above their pivots.
pub open spec fn spec_back(m: Seq<Seq<i64>>, c: int, n: int, n2: int) -> Seq<Seq<i64>>
    decreases c,
{
    if c <= 0 {
        m
    } else {
        spec_back_inner(spec_back(m, c - 1, n, n2), c, n - c, n, n2)
    }
}

/// The right half of an augmented grid.
pub open spec fn spec_truncate_right(m: Seq<Seq<i64>>, n: int) -> Seq<Seq<i64>> {
    Seq::new(n as nat, |i: int| Seq::new(n as nat, |j: int| m[i][j + n]))
}

/// Gauss-Jordan elimination on the matrix beside an identity block: what
/// `inverse` computes.  On a singular matrix the zero-pivot fallback keeps
/// every step defined, and the result is a garbage matrix of the right
/// shape.
pub open spec fn spec_inverse(a: Seq<Seq<i64>>, n: int) -> Seq<Seq<i64>> {
    spec_truncate_right(
        spec_back(
            spec_last_norm(spec_forward(spec_augmented(a, n), n - 1, n, 2 * n), n, 2 * n),
            n - 1,
            n,
            2 * n,
        ),
        n,
    )
}

/// Scales row `i` by its own pivot, with the zero-pivot fallback.
fn pivot_row(m: &mut Matrix, i: usize)
    requires
        old(m).wf(),
        i < old(m).rows,
        i < old(m).col,
    ensures
        final(m).wf(),
        final(m).rows == old(m).rows,
        final(m).col == old(m).col,
        final(m).grid() == spec_pivot_row(old(m).grid(), i as int, old(m).col as int),
{
    let n2: usize = m.col;
    let d: i64 = m.matrix[i][i];
    let mut row: Vec<i64> = Vec::new();
    let mut j: usize = 0;
    while j < n2
        invariant
            j <= n2,
            m == old(m),
            m.wf(),
            i < m.rows,
            i < m.col,
            n2 == m.col,
            d == m.grid()[i as int][i as int],
            row@.len() == j,
            forall|q: int|
                0 <= q < j ==> row@[q] == (if q > i {
                    spec_fx_div(m.grid()[i as int][q] as int, d as int) as i64
                } else if q == i {
                    spec_fx_div(d as int, d as int) as i64
                } else if d == 0 {
                    0
                } else {
                    m.grid()[i as int][q]
                }),
        decreases n2 - j,
    {
        if j > i {
            row.push(fx_div(m.matrix[i][j], d));
        } else if j == i {
            row.push(fx_div(d, d));
        } else if d == 0 {
            row.push(0);
        } else {
            row.push(m.matrix[i][j]);
        }
        j = j + 1;
    }
    proof {
        assert(row@ =~= spec_pivot_row(m.grid(), i as int, m.col as int)[i as int]);
    }
    m.matrix[i] = row;
    proof {
        assert(final(m).grid() =~~= spec_pivot_row(old(m).grid(), i as int, old(m).col as int));
    }
}

/// Subtracts row `src` scaled by the pivot-column entry of row `dst` from
/// row `dst`.
fn elim_row(m: &mut Matrix, src: usize, dst: usize, piv_col: usize)
    requires
        old(m).wf(),
        src < old(m).rows,
        dst < old(m).rows,
        piv_col < old(m).col,
    ensures
        final(m).wf(),
        final(m).rows == old(m).rows,
        final(m).col == old(m).col,
        final(m).grid() == spec_elim_row(
            old(m).grid(),
            src as int,
            dst as int,
            piv_col as int,
            old(m).col as int,
        ),
{
    let n2: usize = m.col;
    let coeff: i64 = m.matrix[dst][piv_col];
    let mut row: Vec<i64> = Vec::new();
    let mut k: usize = 0;
    while k < n2
        invariant
            k <= n2,
            m == old(m),
            m.wf(),
            src < m.rows,
            dst < m.rows,
            piv_col < m.col,
            n2 == m.col,
            coeff == m.grid()[dst as int][piv_col as int],
            row@.len() == k,
            forall|q: int|
                0 <= q < k ==> row@[q] == (spec_fx_sub(
                    m.grid()[dst as int][q] as int,
                    spec_fx_mul(m.grid()[src as int][q] as int, coeff as int),
                ) as i64),
        decreases n2 - k,
    {
        row.push(fx_sub(m.matrix[dst][k], fx_mul(m.matrix[src][k], coeff)));
        k = k + 1;
    }
    proof {
        assert(row@ =~= spec_elim_row(
            m.grid(),
            src as int,
            dst as int,
            piv_col as int,
            m.col as int,
        )[dst as int]);
    }
    m.matrix[dst] = row;
    proof {
        assert(final(m).grid() =~~= spec_elim_row(
            old(m).grid(),
            src as int,
            dst as int,
            piv_col as int,
            old(m).col as int,
        ));
    }
}

/// Scales the right half of the last row by the last pivot.
fn last_norm(m: &mut Matrix)
    requires
        old(m).wf(),
        old(m).rows >= 1,
        old(m).col == 2 * old(m).rows,
    ensures
        final(m).wf(),
        final(m).rows == old(m).rows,
        final(m).col == old(m).col,
        final(m).grid() == spec_last_norm(old(m).grid(), old(m).rows as int, old(m).col as int),
{
    let n: usize = m.rows;
    let n2: usize = m.col;
    let d: i64 = m.matrix[n - 1][n - 1];
    let mut row: Vec<i64> = Vec::new();
    let mut j: usize = 0;
    while j < n2
        invariant
            j <= n2,
            m == old(m),
            m.wf(),
            n == m.rows,
            n >= 1,
            n2 == m.col,
            n2 == 2 * n,
            d == m.grid()[n - 1][n - 1],
            row@.len() == j,
            forall|q: int|
                0 <= q < j ==> row@[q] == (if q >= n {
                    spec_fx_div(m.grid()[n - 1][q] as int, d as int) as i64
                } else {
                    m.grid()[n - 1][q]
                }),
        decreases n2 - j,
    {
        if j >= n {
            row.push(fx_div(m.matrix[n - 1][j], d));
        } else {
            row.push(m.matrix[n - 1][j]);
        }
        j = j + 1;
    }
    proof {
        assert(row@ =~= spec_last_norm(m.grid(), n as int, n2 as int)[n - 1]);
    }
    m.matrix[n - 1] = row;
    proof {
        assert(final(m).grid() =~~= spec_last_norm(old(m).grid(), n as int, n2 as int));
    }
}

impl Matrix {
    /// The entries as a sequence of rows.
    pub open spec fn grid(&self) -> Seq<Seq<i64>> {
        self.matrix@.map_values(|r: Vec<i64>| r@)
    }

    /// Every row exists and has the declared number of columns.
    pub open spec fn wf(&self) -> bool {
        &&& self.matrix@.len() == self.rows
        &&& self.grid().len() == self.rows
        &&& (forall|i: int| 0 <= i < self.rows ==> (#[trigger] self.matrix@[i])@.len() == self.col)
        &&& (forall|i: int| 0 <= i < self.rows ==> (#[trigger] self.grid()[i]) == self.matrix@[i]@)
    }

    /// An all-zero matrix of the given shape.
    pub fn new(rows: usize, col: usize) -> (r: Matrix)
        ensures
            r.wf(),
            r.rows == rows,
            r.col == col,
            forall|i: int, j: int| 0 <= i < rows && 0 <= j < col ==> r.grid()[i][j] == 0,
    {
        let mut matrix: Vec<Vec<i64>> = Vec::new();
        let mut i: usize = 0;
        while i < rows
            invariant
                i <= rows,
                matrix@.len() == i,
                forall|p: int|
                    0 <= p < i ==> (#[trigger] matrix@[p])@.len() == col && forall|q: int|
                        0 <= q < col ==> matrix@[p]@[q] == 0,
            decreases rows - i,
        {
            let mut vec: Vec<i64> = Vec::new();
            let mut j: usize = 0;
            while j < col
                invariant
                    j <= col,
                    vec@.len() == j,
                    forall|q: int| 0 <= q < j ==> vec@[q] == 0,
                decreases col - j,
            {
                vec.push(0);
                j = j + 1;
            }
            matrix.push(vec);
            i = i + 1;
        }
        Matrix { matrix, rows, col }
    }

    /// Entry at row `i`, column `j`.
    pub fn get(&self, i: usize, j: usize) -> (r: i64)
        requires
            self.wf(),
            i < self.rows,
            j < self.col,
        ensures
            r == self.grid()[i as int][j as int],
    {
        self.matrix[i][j]
    }

    /// Writes the entry at row `i`, column `j`.
    pub fn set_entry(&mut self, i: usize, j: usize, v: i64)
        requires
            old(self).wf(),
            i < old(self).rows,
            j < old(self).col,
        ensures
            final(self).wf(),
            final(self).rows == old(self).rows,
            final(self).col == old(self).col,
            final(self).grid() == old(self).grid().update(
                i as int,
                old(self).grid()[i as int].update(j as int, v),
            ),
    {
        self.matrix[i][j] = v;
        proof {
            assert(final(self).grid() =~~= old(self).grid().update(
                i as int,
                old(self).grid()[i as int].update(j as int, v),
            ));
        }
    }

    /// Matrix product: entry `(i, j)` is the accumulated sum of the products
    /// of row `i` against column `j`.
    pub fn multiply(&self, other: &Matrix) -> (r: Matrix)
        requires
            self.wf(),
            other.wf(),
            self.col == other.rows,
        ensures
            r.wf(),
            r.rows == self.rows,
            r.col == other.col,
            forall|i: int, j: int|
                0 <= i < self.rows && 0 <= j < other.col ==> #[trigger] r.grid()[i][j] == spec_mul_acc(
                    self.grid(),
                    other.grid(),
                    i,
                    j,
                    self.col as nat,
                ),
            r.grid() == spec_mat_mul(
                self.grid(),
                other.grid(),
                self.col as nat,
                other.col as nat,
            ),
    {
        let mut out: Vec<Vec<i64>> = Vec::new();
        let mut i: usize = 0;
        while i < self.rows
            invariant
                i <= self.rows,
                self.wf(),
                other.wf(),
                self.col == other.rows,
                out@.len() == i,
                forall|p: int|
                    0 <= p < i ==> (#[trigger] out@[p])@.len() == other.col && forall|q: int|
                        0 <= q < other.col ==> out@[p]@[q] == spec_mul_acc(
                            self.grid(),
                            other.grid(),
                            p,
                            q,
                            self.col as nat,
                        ),
            decreases self.rows - i,
        {
            let mut row: Vec<i64> = Vec::new();
            let mut j: usize = 0;
            while j < other.col
                invariant
                    j <= other.col,
                    i < self.rows,
                    self.wf(),
                    other.wf(),
                    self.col == other.rows,
                    row@.len() == j,
                    forall|q: int|
                        0 <= q < j ==> row@[q] == spec_mul_acc(
                            self.grid(),
                            other.grid(),
                            i as int,
                            q,
                            self.col as nat,
                        ),
                decreases other.col - j,
            {
                let mut acc: i64 = 0;
                let mut k: usize = 0;
                while k < self.col
                    invariant
                        k <= self.col,
                        i < self.rows,
                        j < other.col,
                        self.wf(),
                        other.wf(),
                        self.col == other.rows,
                        acc == spec_mul_acc(self.grid(), other.grid(), i as int, j as int, k as nat),
                    decreases self.col - k,
                {
                    acc = fx_add(acc, fx_mul(self.matrix[i][k], other.matrix[k][j]));
                    k = k + 1;
                }
                row.push(acc);
                j = j + 1;
            }
            out.push(row);
            i = i + 1;
        }
        let r = Matrix { matrix: out, rows: self.rows, col: other.col };
        proof {
            assert(r.grid() =~~= spec_mat_mul(
                self.grid(),
                other.grid(),
                self.col as nat,
                other.col as nat,
            ));
        }
        r
    }

    /// The transposed matrix.
    pub fn transpose(&self) -> (r: Matrix)
        requires
            self.wf(),
        ensures
            r.wf(),
            r.rows == self.col,
            r.col == self.rows,
            forall|i: int, j: int|
                0 <= i < self.col && 0 <= j < self.rows ==> #[trigger] r.grid()[i][j] == self.grid()[j][i],
    {
        let mut out: Vec<Vec<i64>> = Vec::new();
        let mut i: usize = 0;
        while i < self.col
            invariant
                i <= self.col,
                self.wf(),
                out@.len() == i,
                forall|p: int|
                    0 <= p < i ==> (#[trigger] out@[p])@.len() == self.rows && forall|q: int|
                        0 <= q < self.rows ==> out@[p]@[q] == self.grid()[q][p],
            decreases self.col - i,
        {
            let mut row: Vec<i64> = Vec::new();
            let mut j: usize = 0;
            while j < self.rows
                invariant
                    j <= self.rows,
                    i < self.col,
                    self.wf(),
                    row@.len() == j,
                    forall|q: int| 0 <= q < j ==> row@[q] == self.grid()[q][i as int],
                decreases self.rows - j,
            {
                row.push(self.matrix[j][i]);
                j = j + 1;
            }
            out.push(row);
            i = i + 1;
        }
        Matrix { matrix: out, rows: self.col, col: self.rows }
    }

    /// The inverse by Gauss-Jordan elimination on an augmented matrix:
    /// forward elimination with row scaling, a final scaling of the last
    /// row's right half, then back substitution, keeping the right block.
    /// A zero pivot is treated as a zero quotient, so a singular matrix
    /// yields a garbage result of the right shape and nothing more.
    pub fn inverse(&self) -> (r: Matrix)
        requires
            self.wf(),
            self.rows == self.col,
            1 <= self.rows <= 0x7fff_ffff,
        ensures
            r.wf(),
            r.rows == self.rows,
            r.col == self.col,
            r.grid() == spec_inverse(self.grid(), self.rows as int),
    {
        let n: usize = self.rows;
        let n2: usize = 2 * n;
        let mut rows_vec: Vec<Vec<i64>> = Vec::new();
        let mut i: usize = 0;
        while i < n
            invariant
                i <= n,
                self.wf(),
                self.rows == n,
                self.col == n,
                n2 == 2 * n,
                rows_vec@.len() == i,
                forall|p: int|
                    0 <= p < i ==> #[trigger] rows_vec@[p]@ =~= spec_augmented(
                        self.grid(),
                        n as int,
                    )[p],
            decreases n - i,
        {
            let mut row: Vec<i64> = Vec::new();
            let mut j: usize = 0;
            while j < n2
                invariant
                    j <= n2,
                    i < n,
                    self.wf(),
                    self.rows == n,
                    self.col == n,
                    n2 == 2 * n,
                    row@.len() == j,
                    forall|q: int|
                        0 <= q < j ==> row@[q] == (if q < n {
                            self.grid()[i as int][q]
                        } else if q == n + i {
                            FX_ONE
                        } else {
                            0
                        }),
                decreases n2 - j,
            {
                if j < n {
                    row.push(self.matrix[i][j]);
                } else if j == n + i {
                    row.push(FX_ONE);
                } else {
                    row.push(0);
                }
                j = j + 1;
            }
            proof {
                assert(row@ =~= spec_augmented(self.grid(), n as int)[i as int]);
            }
            rows_vec.push(row);
            i = i + 1;
        }
        let mut result = Matrix { matrix: rows_vec, rows: n, col: n2 };
        proof {
            assert(result.grid() =~= spec_augmented(self.grid(), n as int));
        }
        let ghost aug = spec_augmented(self.grid(), n as int);
        let mut i: usize = 0;
        while i < n - 1
            invariant
                i <= n - 1 || i == 0,
                n >= 1,
                n2 == 2 * n,
                result.wf(),
                result.rows == n,
                result.col == n2,
                result.grid() == spec_forward(aug, i as int, n as int, n2 as int),
            decreases n - i,
        {
            pivot_row(&mut result, i);
            let ghost pivoted = result.grid();
            let mut j: usize = i + 1;
            while j < n
                invariant
                    i + 1 <= j,
                    j <= n || j == i + 1,
                    i < n,
                    n2 == 2 * n,
                    result.wf(),
                    result.rows == n,
                    result.col == n2,
                    pivoted == spec_pivot_row(
                        spec_forward(aug, i as int, n as int, n2 as int),
                        i as int,
                        n2 as int,
                    ),
                    result.grid() == spec_elim_below(pivoted, i as int, j as int, n2 as int),
                decreases n - j,
            {
                elim_row(&mut result, i, j, i);
                j = j + 1;
            }
            proof {
                assert(result.grid() == spec_forward(aug, i + 1, n as int, n2 as int));
            }
            i = i + 1;
        }
        proof {
            assert(result.grid() == spec_forward(aug, n - 1, n as int, n2 as int));
        }
        last_norm(&mut result);
        let ghost normed = result.grid();
        let mut i: usize = 1;
        while i < n
            invariant
                1 <= i,
                i <= n || i == 1,
                n2 == 2 * n,
                result.wf(),
                result.rows == n,
                result.col == n2,
                normed == spec_last_norm(
                    spec_forward(aug, n - 1, n as int, n2 as int),
                    n as int,
                    n2 as int,
                ),
                result.grid() == spec_back(normed, i - 1, n as int, n2 as int),
            decreases n - i,
        {
            let ghost swept = result.grid();
            let mut k: usize = 0;
            while k < n - i
                invariant
                    k <= n - i,
                    1 <= i < n,
                    n2 == 2 * n,
                    result.wf(),
                    result.rows == n,
                    result.col == n2,
                    swept == spec_back(normed, i - 1, n as int, n2 as int),
                    result.grid() == spec_back_inner(swept, i as int, k as int, n as int, n2 as int),
                decreases n - i - k,
            {
                elim_row(&mut result, n - i, k, n - i);
                k = k + 1;
            }
            proof {
                assert(result.grid() == spec_back(normed, i as int, n as int, n2 as int));
            }
            i = i + 1;
        }
        proof {
            assert(result.grid() == spec_back(normed, n - 1, n as int, n2 as int));
        }
        let mut trunc_rows: Vec<Vec<i64>> = Vec::new();
        let mut i: usize = 0;
        while i < n
            invariant
                i <= n,
                n2 == 2 * n,
                result.wf(),
                result.rows == n,
                result.col == n2,
                trunc_rows@.len() == i,
                forall|p: int|
                    0 <= p < i ==> #[trigger] trunc_rows@[p]@ =~= spec_truncate_right(
                        result.grid(),
                        n as int,
                    )[p],
            decreases n - i,
        {
            let mut row: Vec<i64> = Vec::new();
            let mut j: usize = 0;
            while j < n
                invariant
                    j <= n,
                    i < n,
                    n2 == 2 * n,
                    result.wf(),
                    result.rows == n,
                    result.col == n2,
                    row@.len() == j,
                    forall|q: int| 0 <= q < j ==> row@[q] == result.grid()[i as int][q + n],
                decreases n - j,
            {
                row.push(result.matrix[i][j + n]);
                j = j + 1;
            }
            proof {
                assert(row@ =~= spec_truncate_right(result.grid(), n as int)[i as int]);
            }
            trunc_rows.push(row);
            i = i + 1;
        }
        let truncate = Matrix { matrix: trunc_rows, rows: n, col: n };
        proof {
            assert(truncate.grid() =~= spec_truncate_right(result.grid(), n as int));
        }
        truncate
    }

    /// A homogeneous column turned back into a point: each coordinate is
    /// divided by the `w` row, the one perspective correction of the
    /// pipeline.  A zero `w` gives the zero point instead of an undefined
    /// quotient.
    pub fn to_vector(&self) -> (v: Vector)
        requires
            self.wf(),
            self.rows >= 4,
            self.col >= 1,
        ensures
            v == (Vector {
                x: spec_fx_div(self.grid()[0][0] as int, self.grid()[3][0] as int) as i64,
                y: spec_fx_div(self.grid()[1][0] as int, self.grid()[3][0] as int) as i64,
                z: spec_fx_div(self.grid()[2][0] as int, self.grid()[3][0] as int) as i64,
            }),
    {
        let w: i64 = self.matrix[3][0];
        Vector {
            x: fx_div(self.matrix[0][0], w),
            y: fx_div(self.matrix[1][0], w),
            z: fx_div(self.matrix[2][0], w),
        }
    }

    /// The homogeneous 4-by-1 column of a point, with `w` one.
    pub fn from_vector(vector: &Vector) -> (r: Matrix)
        ensures
            r.wf(),
            r.rows == 4,
            r.col == 1,
            r.grid()[0][0] == vector.x,
            r.grid()[1][0] == vector.y,
            r.grid()[2][0] == vector.z,
            r.grid()[3][0] == FX_ONE,
    {
        let mut matrix: Vec<Vec<i64>> = Vec::new();
        let mut r0: Vec<i64> = Vec::new();
        r0.push(vector.x);
        let mut r1: Vec<i64> = Vec::new();
        r1.push(vector.y);
        let mut r2: Vec<i64> = Vec::new();
        r2.push(vector.z);
        let mut r3: Vec<i64> = Vec::new();
        r3.push(FX_ONE);
        matrix.push(r0);
        matrix.push(r1);
        matrix.push(r2);
        matrix.push(r3);
        Matrix { matrix, rows: 4, col: 1 }
    }

    /// The identity: ones down the diagonal.
    pub fn ident(size: usize) -> (r: Matrix)
        ensures
            r.wf(),
            r.rows == size,
            r.col == size,
            forall|i: int, j: int|
                0 <= i < size && 0 <= j < size ==> #[trigger] r.grid()[i][j] == spec_ident_entry(i, j),
    {
        let mut matrix: Vec<Vec<i64>> = Vec::new();
        let mut i: usize = 0;
        while i < size
            invariant
                i <= size,
                matrix@.len() == i,
                forall|p: int|
                    0 <= p < i ==> (#[trigger] matrix@[p])@.len() == size && forall|q: int|
                        0 <= q < size ==> matrix@[p]@[q] == spec_ident_entry(p, q),
            decreases size - i,
        {
            let mut vec: Vec<i64> = Vec::new();
            let mut j: usize = 0;
            while j < size
                invariant
                    j <= size,
                    vec@.len() == j,
                    forall|q: int| 0 <= q < j ==> vec@[q] == spec_ident_entry(i as int, q),
                decreases size - j,
            {
                if i == j {
                    vec.push(FX_ONE);
                } else {
                    vec.push(0);
                }
                j = j + 1;
            }
            matrix.push(vec);
            i = i + 1;
        }
        Matrix { matrix, rows: size, col: size }
    }

    /// Uniform scaling: the zoom factor down the space diagonal.
    pub fn zoom(zoom: i64) -> (r: Matrix)
        ensures
            r.wf(),
            r.rows == 4,
            r.col == 4,
            forall|i: int, j: int|
                0 <= i < 4 && 0 <= j < 4 ==> #[trigger] r.grid()[i][j] == (if i == j && i < 3 {
                    zoom as int
                } else {
                    spec_ident_entry(i, j)
                }),
    {
        let mut matrix = Matrix::ident(4);
        matrix.set_entry(0, 0, zoom);
        matrix.set_entry(1, 1, zoom);
        matrix.set_entry(2, 2, zoom);
        matrix
    }

    /// Rotation about the `y` axis from a cosine and sine pair.
    pub fn rotate_y(cos: i64, sin: i64) -> (r: Matrix)
        requires
            sin > i64::MIN,
        ensures
            r.wf(),
            r.rows == 4,
            r.col == 4,
            forall|i: int, j: int|
                0 <= i < 4 && 0 <= j < 4 ==> #[trigger] r.grid()[i][j] == (if i == 1 && j == 1 {
                    cos as int
                } else if i == 2 && j == 2 {
                    cos as int
                } else if i == 1 && j == 2 {
                    -sin as int
                } else if i == 2 && j == 1 {
                    sin as int
                } else {
                    spec_ident_entry(i, j)
                }),
    {
        let mut matrix = Matrix::ident(4);
        matrix.set_entry(1, 1, cos);
        matrix.set_entry(2, 2, cos);
        matrix.set_entry(1, 2, -sin);
        matrix.set_entry(2, 1, sin);
        matrix
    }

    /// Rotation about the `x` axis from a cosine and sine pair.
    pub fn rotate_x(cos: i64, sin: i64) -> (r: Matrix)
        requires
            sin > i64::MIN,
        ensures
            r.wf(),
            r.rows == 4,
            r.col == 4,
            forall|i: int, j: int|
                0 <= i < 4 && 0 <= j < 4 ==> #[trigger] r.grid()[i][j] == (if i == 0 && j == 0 {
                    cos as int
                } else if i == 2 && j == 2 {
                    cos as int
                } else if i == 0 && j == 2 {
                    -sin as int
                } else if i == 2 && j == 0 {
                    sin as int
                } else {
                    spec_ident_entry(i, j)
                }),
    {
        let mut matrix = Matrix::ident(4);
        matrix.set_entry(0, 0, cos);
        matrix.set_entry(2, 2, cos);
        matrix.set_entry(0, 2, -sin);
        matrix.set_entry(2, 0, sin);
        matrix
    }

    /// Rotation about the `z` axis from a cosine and sine pair.
    pub fn rotate_z(cos: i64, sin: i64) -> (r: Matrix)
        requires
            sin > i64::MIN,
        ensures
            r.wf(),
            r.rows == 4,
            r.col == 4,
            forall|i: int, j: int|
                0 <= i < 4 && 0 <= j < 4 ==> #[trigger] r.grid()[i][j] == (if i == 0 && j == 0 {
                    cos as int
                } else if i == 1 && j == 1 {
                    cos as int
                } else if i == 0 && j == 1 {
                    -sin as int
                } else if i == 1 && j == 0 {
                    sin as int
                } else {
                    spec_ident_entry(i, j)
                }),
    {
        let mut matrix = Matrix::ident(4);
        matrix.set_entry(1, 1, cos);
        matrix.set_entry(0, 0, cos);
        matrix.set_entry(0, 1, -sin);
        matrix.set_entry(1, 0, sin);
        matrix
    }

    /// Translation by a vector, in the last column.
    pub fn translation(vector: &Vector) -> (r: Matrix)
        ensures
            r.wf(),
            r.rows == 4,
            r.col == 4,
            forall|i: int, j: int|
                0 <= i < 4 && 0 <= j < 4 ==> #[trigger] r.grid()[i][j] == (if i == 0 && j == 3 {
                    vector.x as int
                } else if i == 1 && j == 3 {
                    vector.y as int
                } else if i == 2 && j == 3 {
                    vector.z as int
                } else {
                    spec_ident_entry(i, j)
                }),
    {
        let mut matrix = Matrix::ident(4);
        matrix.set_entry(0, 3, vector.x);
        matrix.set_entry(1, 3, vector.y);
        matrix.set_entry(2, 3, vector.z);
        matrix
    }

    /// Viewport mapping: scale into half the extent on the diagonal and
    /// translate by half the offset plus extent in the last column.
    pub fn view_port(x: i64, y: i64, width: i64, height: i64) -> (r: Matrix)
        ensures
            r.wf(),
            r.rows == 4,
            r.col == 4,
            forall|i: int, j: int|
                0 <= i < 4 && 0 <= j < 4 ==> #[trigger] r.grid()[i][j] == (if i == 0 && j == 3 {
                    spec_fx_div(spec_fx_add(x as int, width as int), 2 * FX_ONE)
                } else if i == 1 && j == 3 {
                    spec_fx_div(spec_fx_add(y as int, height as int), 2 * FX_ONE)
                } else if i == 2 && j == 3 {
                    FX_ONE as int
                } else if i == 0 && j == 0 {
                    spec_fx_div(width as int, 2 * FX_ONE)
                } else if i == 1 && j == 1 {
                    spec_fx_div(height as int, 2 * FX_ONE)
                } else {
                    spec_ident_entry(i, j)
                }),
            r.grid() == spec_view_port_grid(x, y, width, height),
    {
        let two: i64 = 2 * FX_ONE;
        let mut matrix = Matrix::ident(4);
        matrix.set_entry(0, 3, fx_div(fx_add(x, width), two));
        matrix.set_entry(1, 3, fx_div(fx_add(y, height), two));
        matrix.set_entry(2, 3, FX_ONE);
        matrix.set_entry(0, 0, fx_div(width, two));
        matrix.set_entry(1, 1, fx_div(height, two));
        proof {
            assert(matrix.grid() =~~= spec_view_port_grid(x, y, width, height));
        }
        matrix
    }
}

} // verus!
