use vstd::prelude::*;
use crate::scalar::{deterministic, outcome, run, total, ScalarOp};

verus! {

/// A dense matrix stored row-major: cell `(r, c)` is `data[r * cols + c]`.
///
/// The element type is left open; the arithmetic on elements is handed in by
/// the caller of the operations that need it.
#[derive(Clone, Debug)]
pub struct Matrix<T> {
    pub rows: usize,
    pub cols: usize,
    pub data: Vec<T>,
}

/// Why a matrix could not be built or two matrices could not be combined.
#[derive(Clone, Copy, Debug, PartialEq, Eq, Structural)]
pub enum MatrixError {
    /// The data held `found` cells where the dimensions ask for another count.
    DimensionMismatch { rows: usize, cols: usize, found: usize },
    /// The operands' shapes do not fit the operation.
    ShapeMismatch { left_rows: usize, left_cols: usize, right_rows: usize, right_cols: usize },
}

/// Row-major offset of cell `(r, c)` in a matrix `width` columns wide.
pub open spec fn offset(width: int, r: int, c: int) -> int {
    r * width + c
}

/// Rows `r < b` of a `width`-wide layout end before row `b` starts.
pub proof fn lemma_offset_before(width: int, r: int, b: int, c: int)
    requires
        0 <= c < width,
        0 <= r < b,
    ensures
        0 <= offset(width, r, c) < b * width,
{
    assert(0 <= r * width + c < b * width) by (nonlinear_arith)
        requires
            0 <= c < width,
            0 <= r < b,
    ;
}

/// Row `r` of the row-major cells of a matrix `cols` wide.
pub open spec fn row_of<T>(cells: Seq<T>, cols: int, r: int) -> Seq<T> {
    Seq::new(cols as nat, |c: int| cells[offset(cols, r, c)])
}

/// Column `c` of the row-major cells of a `rows` by `cols` matrix.
pub open spec fn column_of<T>(cells: Seq<T>, rows: int, cols: int, c: int) -> Seq<T> {
    Seq::new(rows as nat, |r: int| cells[offset(cols, r, c)])
}

/// `op` applied cell by cell to two sequences of cells.
pub open spec fn combined_cells<T, F: Fn(ScalarOp, T, T) -> T>(f: F, op: ScalarOp, a: Seq<T>, b: Seq<T>) -> Seq<T> {
    Seq::new(a.len(), |k: int| outcome(f, op, a[k], b[k]))
}

/// The unary `op` applied to each cell.
pub open spec fn mapped_cells<T, F: Fn(ScalarOp, T, T) -> T>(f: F, op: ScalarOp, a: Seq<T>) -> Seq<T> {
    Seq::new(a.len(), |k: int| outcome(f, op, a[k], a[k]))
}

/// Each cell multiplied by `c` (as `c * x`).
pub open spec fn scaled_cells<T, F: Fn(ScalarOp, T, T) -> T>(f: F, c: T, a: Seq<T>) -> Seq<T> {
    Seq::new(a.len(), |k: int| outcome(f, ScalarOp::Multiply, c, a[k]))
}

/// The sum of the pairwise products of `a` and `b`, added left to right
/// onto `zero`.
pub open spec fn inner<T, F: Fn(ScalarOp, T, T) -> T>(f: F, zero: T, a: Seq<T>, b: Seq<T>) -> T
    decreases a.len(),
{
    if a.len() == 0 {
        zero
    } else {
        outcome(
            f,
            ScalarOp::Add,
            inner(f, zero, a.drop_last(), b.drop_last()),
            outcome(f, ScalarOp::Multiply, a.last(), b.last()),
        )
    }
}

/// The cells of the product of the column `a` and the row `b`.
pub open spec fn outer_cells<T, F: Fn(ScalarOp, T, T) -> T>(f: F, zero: T, a: Seq<T>, b: Seq<T>) -> Seq<T> {
    Seq::new(
        a.len() * b.len(),
        |k: int| inner(f, zero, seq![a[k / (b.len() as int)]], seq![b[k % (b.len() as int)]]),
    )
}

/// Each cell of a row-major `rows` by `cols` layout lies in one row and one
/// column.
pub proof fn lemma_cell_index(k: int, rows: int, cols: int)
    requires
        0 <= rows,
        0 <= cols,
        0 <= k < rows * cols,
    ensures
        0 < cols,
        0 <= k / cols < rows,
        0 <= k % cols < cols,
        k == offset(cols, k / cols, k % cols),
{
    if cols == 0 {
        assert(rows * cols == 0) by (nonlinear_arith)
            requires
                cols == 0,
        ;
    }
    vstd::arithmetic::div_mod::lemma_fundamental_div_mod(k, cols);
    vstd::arithmetic::div_mod::lemma_mod_pos_bound(k, cols);
    let q = k / cols;
    let m = k % cols;
    assert(k == q * cols + m) by (nonlinear_arith)
        requires
            k == cols * q + m,
    ;
    assert(0 <= q < rows) by (nonlinear_arith)
        requires
            k == q * cols + m,
            0 <= m < cols,
            0 <= k < rows * cols,
    ;
}

impl<T> Matrix<T> {
    /// The data holds exactly one cell per row and column.
    pub open spec fn wf(&self) -> bool {
        self.data@.len() == self.rows * self.cols
    }

    /// The value in row `r`, column `c`.
    pub open spec fn at(&self, r: int, c: int) -> T {
        self.data@[offset(self.cols as int, r, c)]
    }

    /// Row `r`, left to right.
    pub open spec fn row(&self, r: int) -> Seq<T> {
        row_of(self.data@, self.cols as int, r)
    }

    /// Column `c`, top to bottom.
    pub open spec fn column(&self, c: int) -> Seq<T> {
        column_of(self.data@, self.rows as int, self.cols as int, c)
    }

    /// Two matrices with the same shape and cells.
    pub open spec fn same_as(&self, other: &Matrix<T>) -> bool {
        &&& self.rows == other.rows
        &&& self.cols == other.cols
        &&& self.data@ == other.data@
    }

    pub open spec fn same_shape(&self, other: &Matrix<T>) -> bool {
        self.rows == other.rows && self.cols == other.cols
    }

    /// A `rows` by `cols` matrix over `data`, which must hold `rows * cols`
    /// values in row-major order.
    pub fn new(rows: usize, cols: usize, data: Vec<T>) -> (r: Result<Matrix<T>, MatrixError>)
        ensures
            r is Ok <==> data@.len() == rows * cols,
            r matches Ok(m) ==> m.rows == rows && m.cols == cols && m.data@ == data@ && m.wf(),
            r matches Err(e) ==> e == (MatrixError::DimensionMismatch {
                rows,
                cols,
                found: data@.len() as usize,
            }),
    {
        let found = data.len();
        match rows.checked_mul(cols) {
            Some(n) => {
                if n == found {
                    Ok(Matrix { rows, cols, data })
                } else {
                    Err(MatrixError::DimensionMismatch { rows, cols, found })
                }
            },
            None => Err(MatrixError::DimensionMismatch { rows, cols, found }),
        }
    }

    /// A column vector: one row per value, one column.
    pub fn column_of(data: Vec<T>) -> (r: Matrix<T>)
        ensures
            r.rows == data@.len(),
            r.cols == 1,
            r.data@ == data@,
            r.wf(),
    {
        let rows = data.len();
        Matrix { rows, cols: 1, data }
    }
}

/// A matrix of one column holds its cells top to bottom.
pub proof fn lemma_single_column<T>(m: Matrix<T>)
    requires
        m.wf(),
        m.cols == 1,
    ensures
        m.column(0) == m.data@,
        forall|r: int| 0 <= r < m.rows ==> #[trigger] m.at(r, 0) == m.data@[r],
{
    assert forall|r: int| 0 <= r < m.rows implies #[trigger] m.at(r, 0) == m.data@[r] by {
        assert(r * 1 + 0 == r);
    }
    assert(m.data@.len() == m.rows) by {
        assert(m.rows * 1 == m.rows);
    }
    assert(m.column(0) =~= m.data@);
}

impl<T: Copy> Matrix<T> {
    /// A `rows` by `cols` matrix whose cells, row by row, are successive
    /// values of `draw`.
    pub fn generate<F: Fn() -> T>(rows: usize, cols: usize, draw: &F) -> (r: Matrix<T>)
        requires
            rows * cols <= usize::MAX,
            draw.requires(()),
        ensures
            r.wf(),
            r.rows == rows,
            r.cols == cols,
            forall|k: int| 0 <= k < r.data@.len() ==> draw.ensures((), #[trigger] r.data@[k]),
    {
        let n = rows * cols;
        let mut out: Vec<T> = Vec::new();
        let mut k: usize = 0;
        while k < n
            invariant
                k <= n,
                out@.len() == k,
                draw.requires(()),
                forall|q: int| 0 <= q < k ==> draw.ensures((), #[trigger] out@[q]),
            decreases n - k,
        {
            let v = draw();
            out.push(v);
            k = k + 1;
        }
        Matrix { rows, cols, data: out }
    }

    /// A copy with the same shape and cells.
    pub fn deep_copy(&self) -> (r: Matrix<T>)
        ensures
            r.same_as(self),
    {
        Matrix { rows: self.rows, cols: self.cols, data: copy_values(&self.data) }
    }

    /// The transpose: rows become columns.
    pub fn transpose(&self) -> (r: Matrix<T>)
        requires
            self.wf(),
        ensures
            r.wf(),
            r.rows == self.cols,
            r.cols == self.rows,
            forall|i: int, j: int|
                0 <= i < self.rows && 0 <= j < self.cols ==> #[trigger] r.at(j, i) == self.at(i, j),
    {
        let rows = self.rows;
        let cols = self.cols;
        let total = self.data.len();
        let mut out: Vec<T> = Vec::new();
        let mut j: usize = 0;
        while j < cols
            invariant
                self.wf(),
                rows == self.rows,
                cols == self.cols,
                total == self.data@.len(),
                j <= cols,
                out@.len() == j * rows,
                forall|jj: int, ii: int|
                    0 <= jj < j && 0 <= ii < rows ==> out@[#[trigger] offset(rows as int, jj, ii)]
                        == self.at(ii, jj),
            decreases cols - j,
        {
            let mut i: usize = 0;
            while i < rows
                invariant
                    self.wf(),
                    rows == self.rows,
                    cols == self.cols,
                    total == self.data@.len(),
                    j < cols,
                    i <= rows,
                    out@.len() == j * rows + i,
                    forall|jj: int, ii: int|
                        0 <= jj < j && 0 <= ii < rows ==> out@[#[trigger] offset(rows as int, jj, ii)]
                            == self.at(ii, jj),
                    forall|ii: int|
                        0 <= ii < i ==> out@[#[trigger] offset(rows as int, j as int, ii)] == self.at(
                            ii,
                            j as int,
                        ),
                decreases rows - i,
            {
                proof {
                    lemma_offset_before(cols as int, i as int, rows as int, j as int);
                    assert(i * cols + j < total);
                    assert(0 <= i * cols <= i * cols + j) by (nonlinear_arith)
                        requires
                            0 <= j,
                            0 <= i,
                            0 <= cols,
                    ;
                }
                let v = self.data[i * cols + j];
                out.push(v);
                proof {
                    assert forall|jj: int, ii: int|
                        0 <= jj < j && 0 <= ii < rows implies out@[#[trigger] offset(
                            rows as int,
                            jj,
                            ii,
                        )] == self.at(ii, jj) by {
                        lemma_offset_before(rows as int, jj, j as int, ii);
                        assert(j * rows <= j * rows + i);
                    }
                }
                i = i + 1;
            }
            proof {
                assert((j + 1) * rows == j * rows + rows) by (nonlinear_arith);
                assert forall|jj: int, ii: int|
                    0 <= jj < j + 1 && 0 <= ii < rows implies out@[#[trigger] offset(
                        rows as int,
                        jj,
                        ii,
                    )] == self.at(ii, jj) by {
                    if jj < j {
                    } else {
                        assert(jj == j);
                    }
                }
            }
            j = j + 1;
        }
        proof {
            assert(cols * rows == rows * cols) by (nonlinear_arith);
        }
        Matrix { rows: cols, cols: rows, data: out }
    }

    /// Applies `f` to every cell, keeping the shape.
    pub fn map<U, F: Fn(T) -> U>(&self, f: F) -> (r: Matrix<U>)
        requires
            self.wf(),
            forall|k: int| 0 <= k < self.data@.len() ==> f.requires((self.data@[k],)),
        ensures
            r.wf(),
            r.rows == self.rows,
            r.cols == self.cols,
            forall|k: int| 0 <= k < self.data@.len() ==> f.ensures((self.data@[k],), #[trigger] r.data@[k]),
    {
        let n = self.data.len();
        let mut out: Vec<U> = Vec::new();
        let mut k: usize = 0;
        while k < n
            invariant
                n == self.data@.len(),
                k <= n,
                out@.len() == k,
                forall|q: int| 0 <= q < n ==> f.requires((self.data@[q],)),
                forall|q: int| 0 <= q < k ==> f.ensures((self.data@[q],), #[trigger] out@[q]),
            decreases n - k,
        {
            let v = f(self.data[k]);
            out.push(v);
            k = k + 1;
        }
        Matrix { rows: self.rows, cols: self.cols, data: out }
    }

    /// `op` applied cell by cell to two matrices of one shape.
    pub fn combine<F: Fn(ScalarOp, T, T) -> T>(&self, other: &Matrix<T>, f: &F, op: ScalarOp) -> (r: Result<Matrix<T>, MatrixError>)
        requires
            self.wf(),
            other.wf(),
            total(*f),
        ensures
            r is Ok <==> self.same_shape(other),
            r matches Err(e) ==> e == (MatrixError::ShapeMismatch {
                left_rows: self.rows,
                left_cols: self.cols,
                right_rows: other.rows,
                right_cols: other.cols,
            }),
            r matches Ok(m) ==> {
                &&& m.wf()
                &&& m.rows == self.rows
                &&& m.cols == self.cols
                &&& deterministic(*f) ==> m.data@ == combined_cells(*f, op, self.data@, other.data@)
            },
    {
        if self.rows != other.rows || self.cols != other.cols {
            return Err(MatrixError::ShapeMismatch {
                left_rows: self.rows,
                left_cols: self.cols,
                right_rows: other.rows,
                right_cols: other.cols,
            });
        }
        let n = self.data.len();
        let mut out: Vec<T> = Vec::new();
        let mut k: usize = 0;
        while k < n
            invariant
                n == self.data@.len(),
                n == other.data@.len(),
                total(*f),
                k <= n,
                out@.len() == k,
                deterministic(*f) ==> forall|q: int|
                    0 <= q < k ==> #[trigger] out@[q] == outcome(*f, op, self.data@[q], other.data@[q]),
            decreases n - k,
        {
            let v = run(f, op, self.data[k], other.data[k]);
            out.push(v);
            k = k + 1;
        }
        proof {
            if deterministic(*f) {
                assert(out@ =~= combined_cells(*f, op, self.data@, other.data@));
            }
        }
        Ok(Matrix { rows: self.rows, cols: self.cols, data: out })
    }

    /// The unary `op` applied to every cell.
    pub fn apply_op<F: Fn(ScalarOp, T, T) -> T>(&self, f: &F, op: ScalarOp) -> (r: Matrix<T>)
        requires
            self.wf(),
            total(*f),
        ensures
            r.wf(),
            r.rows == self.rows,
            r.cols == self.cols,
            deterministic(*f) ==> r.data@ == mapped_cells(*f, op, self.data@),
    {
        let n = self.data.len();
        let mut out: Vec<T> = Vec::new();
        let mut k: usize = 0;
        while k < n
            invariant
                n == self.data@.len(),
                total(*f),
                k <= n,
                out@.len() == k,
                deterministic(*f) ==> forall|q: int|
                    0 <= q < k ==> #[trigger] out@[q] == outcome(*f, op, self.data@[q], self.data@[q]),
            decreases n - k,
        {
            let x = self.data[k];
            let v = run(f, op, x, x);
            out.push(v);
            k = k + 1;
        }
        proof {
            if deterministic(*f) {
                assert(out@ =~= mapped_cells(*f, op, self.data@));
            }
        }
        Matrix { rows: self.rows, cols: self.cols, data: out }
    }

    /// Every cell multiplied by `c`.
    pub fn scale<F: Fn(ScalarOp, T, T) -> T>(&self, f: &F, c: T) -> (r: Matrix<T>)
        requires
            self.wf(),
            total(*f),
        ensures
            r.wf(),
            r.rows == self.rows,
            r.cols == self.cols,
            deterministic(*f) ==> r.data@ == scaled_cells(*f, c, self.data@),
    {
        let n = self.data.len();
        let mut out: Vec<T> = Vec::new();
        let mut k: usize = 0;
        while k < n
            invariant
                n == self.data@.len(),
                total(*f),
                k <= n,
                out@.len() == k,
                deterministic(*f) ==> forall|q: int|
                    0 <= q < k ==> #[trigger] out@[q] == outcome(*f, ScalarOp::Multiply, c, self.data@[q]),
            decreases n - k,
        {
            let v = run(f, ScalarOp::Multiply, c, self.data[k]);
            out.push(v);
            k = k + 1;
        }
        proof {
            if deterministic(*f) {
                assert(out@ =~= scaled_cells(*f, c, self.data@));
            }
        }
        Matrix { rows: self.rows, cols: self.cols, data: out }
    }

    /// The inner product of row `i` of `self` and column `j` of `other`.
    fn inner_at<F: Fn(ScalarOp, T, T) -> T>(&self, other: &Matrix<T>, f: &F, zero: T, i: usize, j: usize) -> (r: T)
        requires
            self.wf(),
            other.wf(),
            self.cols == other.rows,
            i < self.rows,
            j < other.cols,
            total(*f),
        ensures
            deterministic(*f) ==> r == inner(*f, zero, self.row(i as int), other.column(j as int)),
    {
        let ghost a = self.row(i as int);
        let ghost b = other.column(j as int);
        let total_a = self.data.len();
        let total_b = other.data.len();
        let mut acc = zero;
        let mut k: usize = 0;
        while k < self.cols
            invariant
                self.wf(),
                other.wf(),
                self.cols == other.rows,
                i < self.rows,
                j < other.cols,
                total(*f),
                total_a == self.data@.len(),
                total_b == other.data@.len(),
                a == self.row(i as int),
                b == other.column(j as int),
                k <= self.cols,
                deterministic(*f) ==> acc == inner(*f, zero, a.take(k as int), b.take(k as int)),
            decreases self.cols - k,
        {
            proof {
                lemma_offset_before(self.cols as int, i as int, self.rows as int, k as int);
                lemma_offset_before(other.cols as int, k as int, other.rows as int, j as int);
                assert(0 <= i * self.cols <= i * self.cols + k) by (nonlinear_arith)
                    requires
                        0 <= k,
                        0 <= i,
                        0 <= self.cols,
                ;
                assert(0 <= k * other.cols <= k * other.cols + j) by (nonlinear_arith)
                    requires
                        0 <= k,
                        0 <= j,
                        0 <= other.cols,
                ;
            }
            let x = self.data[i * self.cols + k];
            let y = other.data[k * other.cols + j];
            let p = run(f, ScalarOp::Multiply, x, y);
            acc = run(f, ScalarOp::Add, acc, p);
            proof {
                let a1 = a.take(k + 1);
                let b1 = b.take(k + 1);
                assert(a1.drop_last() =~= a.take(k as int));
                assert(b1.drop_last() =~= b.take(k as int));
                assert(a1.last() == x);
                assert(b1.last() == y);
            }
            k = k + 1;
        }
        proof {
            assert(a.take(self.cols as int) =~= a);
            assert(b.take(self.cols as int) =~= b);
        }
        acc
    }

    /// The matrix product: cell `(i, j)` is the inner product of row `i` of
    /// `self` and column `j` of `other`, which must be as long as each other.
    pub fn product<F: Fn(ScalarOp, T, T) -> T>(&self, other: &Matrix<T>, f: &F, zero: T) -> (r: Result<Matrix<T>, MatrixError>)
        requires
            self.wf(),
            other.wf(),
            total(*f),
        ensures
            r is Ok <==> self.cols == other.rows,
            r matches Err(e) ==> e == (MatrixError::ShapeMismatch {
                left_rows: self.rows,
                left_cols: self.cols,
                right_rows: other.rows,
                right_cols: other.cols,
            }),
            r matches Ok(m) ==> {
                &&& m.wf()
                &&& m.rows == self.rows
                &&& m.cols == other.cols
                &&& deterministic(*f) ==> forall|i: int, j: int|
                    0 <= i < self.rows && 0 <= j < other.cols ==> #[trigger] m.at(i, j) == inner(
                        *f,
                        zero,
                        self.row(i),
                        other.column(j),
                    )
            },
    {
        if self.cols != other.rows {
            return Err(MatrixError::ShapeMismatch {
                left_rows: self.rows,
                left_cols: self.cols,
                right_rows: other.rows,
                right_cols: other.cols,
            });
        }
        let rows = self.rows;
        let width = other.cols;
        let mut out: Vec<T> = Vec::new();
        let mut i: usize = 0;
        while i < rows
            invariant
                self.wf(),
                other.wf(),
                self.cols == other.rows,
                rows == self.rows,
                width == other.cols,
                total(*f),
                i <= rows,
                out@.len() == i * width,
                deterministic(*f) ==> forall|ii: int, jj: int|
                    0 <= ii < i && 0 <= jj < width ==> out@[#[trigger] offset(width as int, ii, jj)] == inner(
                        *f,
                        zero,
                        self.row(ii),
                        other.column(jj),
                    ),
            decreases rows - i,
        {
            let mut j: usize = 0;
            while j < width
                invariant
                    self.wf(),
                    other.wf(),
                    self.cols == other.rows,
                    rows == self.rows,
                    width == other.cols,
                    total(*f),
                    i < rows,
                    j <= width,
                    out@.len() == i * width + j,
                    deterministic(*f) ==> forall|ii: int, jj: int|
                        0 <= ii < i && 0 <= jj < width ==> out@[#[trigger] offset(width as int, ii, jj)]
                            == inner(*f, zero, self.row(ii), other.column(jj)),
                    deterministic(*f) ==> forall|jj: int|
                        0 <= jj < j ==> out@[#[trigger] offset(width as int, i as int, jj)] == inner(
                            *f,
                            zero,
                            self.row(i as int),
                            other.column(jj),
                        ),
                decreases width - j,
            {
                let v = self.inner_at(other, f, zero, i, j);
                out.push(v);
                proof {
                    if deterministic(*f) {
                        assert forall|ii: int, jj: int|
                            0 <= ii < i && 0 <= jj < width implies out@[#[trigger] offset(
                                width as int,
                                ii,
                                jj,
                            )] == inner(*f, zero, self.row(ii), other.column(jj)) by {
                            lemma_offset_before(width as int, ii, i as int, jj);
                            assert(i * width <= i * width + j);
                        }
                    }
                }
                j = j + 1;
            }
            proof {
                assert((i + 1) * width == i * width + width) by (nonlinear_arith);
                if deterministic(*f) {
                    assert forall|ii: int, jj: int|
                        0 <= ii < i + 1 && 0 <= jj < width implies out@[#[trigger] offset(
                            width as int,
                            ii,
                            jj,
                        )] == inner(*f, zero, self.row(ii), other.column(jj)) by {
                        if ii < i {
                        } else {
                            assert(ii == i);
                        }
                    }
                }
            }
            i = i + 1;
        }
        Ok(Matrix { rows, cols: width, data: out })
    }

}

/// A copy of a vector of plain values.
pub(crate) fn copy_values<T: Copy>(v: &Vec<T>) -> (r: Vec<T>)
    ensures
        r@ == v@,
{
    let n = v.len();
    let mut out: Vec<T> = Vec::new();
    let mut k: usize = 0;
    while k < n
        invariant
            n == v@.len(),
            k <= n,
            out@ == v@.subrange(0, k as int),
        decreases n - k,
    {
        out.push(v[k]);
        assert(out@ == v@.subrange(0, k + 1));
        k = k + 1;
    }
    assert(v@.subrange(0, n as int) =~= v@);
    out
}

/// A vector becomes a column matrix.
impl<T> From<Vec<T>> for Matrix<T> {
    fn from(data: Vec<T>) -> (r: Matrix<T>) {
        let rows = data.len();
        Matrix { rows, cols: 1, data }
    }
}

impl<T> vstd::std_specs::convert::FromSpecImpl<Vec<T>> for Matrix<T> {
    open spec fn obeys_from_spec() -> bool {
        true
    }

    open spec fn from_spec(data: Vec<T>) -> Matrix<T> {
        Matrix { rows: data@.len() as usize, cols: 1, data }
    }
}

} // verus!
