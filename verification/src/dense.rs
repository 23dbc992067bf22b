//! Dense grids of cells: the values that tensors stand for.
//!
//! A [`Dense`] is a value and nothing else. The values and the gradients of
//! the nodes of a graph are of this type, and all arithmetic on cells is
//! done here. Its view is the [`Matrix`] that it holds.

use vstd::prelude::*;
use vstd::string::*;
use crate::matrix::Matrix;
use crate::scalar::{zero, Scalar};

verus! {

/// A dense matrix of cells.
#[derive(Debug)]
pub struct Dense<S: Scalar> {
    data: Vec<Vec<S>>,
    size: (usize, usize),
}

impl<S: Scalar> View for Dense<S> {
    type V = Matrix<S>;

    closed spec fn view(&self) -> Matrix<S> {
        Matrix {
            rows: self.size.0 as nat,
            cols: self.size.1 as nat,
            cells: Seq::new(self.size.0 as nat, |i: int| self.data[i]@),
        }
    }
}

/// The rows of a nested vector as a sequence of sequences.
pub open spec fn rows_of<S>(data: Vec<Vec<S>>) -> Seq<Seq<S>> {
    Seq::new(data.len() as nat, |i: int| data[i]@)
}

/// The rows of a nested slice as a sequence of sequences.
pub open spec fn rows_of_slices<S>(array: &[&[S]]) -> Seq<Seq<S>> {
    Seq::new(array@.len(), |i: int| array@[i]@)
}

impl<S: Scalar> Dense<S> {
    #[verifier::type_invariant]
    spec fn inv(self) -> bool {
        &&& self.data.len() == self.size.0
        &&& forall|i: int| 0 <= i < self.size.0 ==> (#[trigger] self.data[i]).len() == self.size.1
    }

    /// Builds the grid of the given shape whose cell at `(i, j)` is
    /// `fun(i, j)`.
    pub(crate) fn generate<F: Fn(usize, usize) -> S>(rows: usize, cols: usize, fun: F) -> (r: Dense<
        S,
    >)
        requires
            forall|i: usize, j: usize| i < rows && j < cols ==> call_requires(fun, (i, j)),
        ensures
            r@.wf(),
            r@.rows == rows,
            r@.cols == cols,
            forall|i: int, j: int|
                0 <= i < rows && 0 <= j < cols ==> call_ensures(
                    fun,
                    (i as usize, j as usize),
                    #[trigger] r@.at(i, j),
                ),
    {
        let mut data: Vec<Vec<S>> = Vec::new();
        let mut i: usize = 0;
        while i < rows
            invariant
                i <= rows,
                data.len() == i,
                forall|k: int| 0 <= k < i ==> (#[trigger] data[k]).len() == cols,
                forall|a: usize, b: usize| a < rows && b < cols ==> call_requires(fun, (a, b)),
                forall|a: int, b: int|
                    0 <= a < i && 0 <= b < cols ==> call_ensures(
                        fun,
                        (a as usize, b as usize),
                        #[trigger] data[a][b],
                    ),
            decreases rows - i,
        {
            let mut row: Vec<S> = Vec::new();
            let mut j: usize = 0;
            while j < cols
                invariant
                    i < rows,
                    j <= cols,
                    row.len() == j,
                    forall|a: usize, b: usize| a < rows && b < cols ==> call_requires(fun, (a, b)),
                    forall|b: int|
                        0 <= b < j ==> call_ensures(fun, (i, b as usize), #[trigger] row[b]),
                decreases cols - j,
            {
                let cell = fun(i, j);
                row.push(cell);
                j = j + 1;
            }
            data.push(row);
            i = i + 1;
        }
        let r = Dense { data, size: (rows, cols) };
        assert forall|a: int, b: int| 0 <= a < rows && 0 <= b < cols implies call_ensures(
            fun,
            (a as usize, b as usize),
            #[trigger] r@.at(a, b),
        ) by {
            assert(r@.at(a, b) == data[a][b]);
        }
        r
    }

    /// The shape: rows, then columns.
    pub fn size(&self) -> (r: (usize, usize))
        ensures
            r.0 == self@.rows,
            r.1 == self@.cols,
            self@.wf(),
    {
        proof {
            use_type_invariant(self);
        }
        self.size
    }

    /// The cells form a well-formed grid. Calling this costs nothing at run
    /// time; it hands the fact to a proof.
    pub fn well_formed(&self)
        ensures
            self@.wf(),
            self@.rows <= usize::MAX,
            self@.cols <= usize::MAX,
    {
        proof {
            use_type_invariant(self);
        }
    }

    /// The cell in row `i`, column `j`.
    pub fn get(&self, i: usize, j: usize) -> (r: S)
        requires
            i < self@.rows,
            j < self@.cols,
        ensures
            r == self@.at(i as int, j as int),
    {
        proof {
            use_type_invariant(self);
        }
        self.data[i][j]
    }

    /// Row `i`.
    pub fn index(&self, i: usize) -> (r: &Vec<S>)
        requires
            i < self@.rows,
        ensures
            r@ == self@.cells[i as int],
    {
        proof {
            use_type_invariant(self);
        }
        &self.data[i]
    }

    /// Replaces the cell in row `i`, column `j` by `value`.
    pub fn set(&mut self, i: usize, j: usize, value: S)
        requires
            i < old(self)@.rows,
            j < old(self)@.cols,
        ensures
            final(self)@ == (Matrix {
                cells: old(self)@.cells.update(
                    i as int,
                    old(self)@.cells[i as int].update(j as int, value),
                ),
                ..old(self)@
            }),
    {
        proof {
            use_type_invariant(&*self);
        }
        let mut taken = Self::filled(0, 0, value);
        core::mem::swap(self, &mut taken);
        proof {
            use_type_invariant(&taken);
        }
        let ghost before = taken@;
        let Dense { mut data, size } = taken;
        let mut row: Vec<S> = Vec::new();
        core::mem::swap(&mut data[i], &mut row);
        row.set(j, value);
        core::mem::swap(&mut data[i], &mut row);
        let rebuilt = Dense { data, size };
        assert(rebuilt@.cells =~= before.cells.update(
            i as int,
            before.cells[i as int].update(j as int, value),
        ));
        *self = rebuilt;
    }

    /// The grid read from a list of rows. Without a first row, or with an
    /// empty one, there are no cells and the shape is `(0, 0)`.
    pub fn from_vector(data: Vec<Vec<S>>) -> (r: Dense<S>)
        requires
            Matrix::<S>::rectangular(rows_of(data)),
        ensures
            r@ == Matrix::<S>::from_rows(rows_of(data)),
    {
        if data.len() == 0 || data[0].len() == 0 {
            let r = Dense { data: Vec::new(), size: (0, 0) };
            assert(r@.cells =~= Seq::empty());
            r
        } else {
            let rows = data.len();
            let cols = data[0].len();
            assert forall|i: int| 0 <= i < rows implies (#[trigger] data[i]).len() == cols by {
                assert(rows_of(data)[i].len() == rows_of(data)[0].len());
            }
            let r = Dense { data, size: (rows, cols) };
            assert(r@.cells =~= rows_of(data));
            r
        }
    }

    /// The grid read from a list of row slices, as [`Dense::from_vector`]
    /// reads it from vectors.
    pub fn from_array(array: &[&[S]]) -> (r: Dense<S>)
        requires
            Matrix::<S>::rectangular(rows_of_slices(array)),
        ensures
            r@ == Matrix::<S>::from_rows(rows_of_slices(array)),
    {
        let mut data: Vec<Vec<S>> = Vec::new();
        let mut i: usize = 0;
        while i < array.len()
            invariant
                i <= array@.len(),
                data.len() == i,
                forall|k: int| 0 <= k < i ==> (#[trigger] data[k])@ == array@[k]@,
            decreases array@.len() - i,
        {
            let source = array[i];
            let mut row: Vec<S> = Vec::new();
            let mut j: usize = 0;
            while j < source.len()
                invariant
                    j <= source@.len(),
                    row.len() == j,
                    forall|k: int| 0 <= k < j ==> #[trigger] row[k] == source@[k],
                decreases source@.len() - j,
            {
                row.push(source[j]);
                j = j + 1;
            }
            assert(row@ =~= source@);
            data.push(row);
            i = i + 1;
        }
        assert(rows_of(data) =~= rows_of_slices(array));
        Self::from_vector(data)
    }

    /// The grid of one row without cells.
    pub fn empty() -> (r: Dense<S>)
        ensures
            r@ == Matrix::<S>::zeros(1, 0),
    {
        let mut data: Vec<Vec<S>> = Vec::new();
        data.push(Vec::new());
        let r = Dense { data, size: (1, 0) };
        assert(r@ =~~= Matrix::<S>::zeros(1, 0));
        r
    }

    /// The one-by-one grid that holds `value`.
    pub fn singleton(value: S) -> (r: Dense<S>)
        ensures
            r@ == Matrix::<S>::fill(1, 1, value),
    {
        Self::fill(1, 1, value)
    }

    /// The grid of `m` rows and `n` columns with `value` in every cell. If
    /// either number is zero there are no cells and the shape is `(0, 0)`.
    pub fn fill(m: usize, n: usize, value: S) -> (r: Dense<S>)
        ensures
            r@ == (if m == 0 || n == 0 {
                Matrix::<S>::fill(0, 0, value)
            } else {
                Matrix::<S>::fill(m as nat, n as nat, value)
            }),
    {
        if m == 0 || n == 0 {
            Self::filled(0, 0, value)
        } else {
            Self::filled(m, n, value)
        }
    }

    /// The grid of exactly the given shape with `value` in every cell.
    pub(crate) fn filled(rows: usize, cols: usize, value: S) -> (r: Dense<S>)
        ensures
            r@ == Matrix::<S>::fill(rows as nat, cols as nat, value),
    {
        let cell = |i: usize, j: usize| -> (c: S)
            ensures
                c == value,
            {
                value
            };
        let r = Self::generate(rows, cols, cell);
        proof {
            r@.lemma_build_eq(|i: int, j: int| value);
        }
        r
    }

    /// As [`Dense::fill`], with zero in every cell.
    pub fn zeros(m: usize, n: usize) -> (r: Dense<S>)
        ensures
            r@ == (if m == 0 || n == 0 {
                Matrix::<S>::zeros(0, 0)
            } else {
                Matrix::<S>::zeros(m as nat, n as nat)
            }),
    {
        Self::fill(m, n, S::from_int(0))
    }

    /// As [`Dense::fill`], with one in every cell.
    pub fn ones(m: usize, n: usize) -> (r: Dense<S>)
        ensures
            r@ == (if m == 0 || n == 0 {
                Matrix::<S>::ones(0, 0)
            } else {
                Matrix::<S>::ones(m as nat, n as nat)
            }),
    {
        Self::fill(m, n, S::from_int(1))
    }

    /// The number of cells.
    pub fn num_elements(&self) -> (r: usize)
        requires
            self@.count() <= usize::MAX,
        ensures
            r == self@.count(),
    {
        let (m, n) = self.size;
        m * n
    }

    /// The only cell of a one-by-one grid.
    pub fn item(&self) -> (r: S)
        requires
            self@.rows == 1,
            self@.cols == 1,
        ensures
            r == self@.at(0, 0),
    {
        self.get(0, 0)
    }

    /// The grid flipped over its diagonal.
    pub fn transpose(&self) -> (r: Dense<S>)
        ensures
            r@ == self@.transposed(),
    {
        let (m, n) = self.size();
        let cell = |i: usize, j: usize| -> (c: S)
            requires
                i < self@.cols,
                j < self@.rows,
            ensures
                c == self@.at(j as int, i as int),
            {
                self.get(j, i)
            };
        let r = Self::generate(n, m, cell);
        proof {
            r@.lemma_build_eq(|i: int, j: int| self@.at(j, i));
        }
        r
    }

    /// The grid of the same shape whose cell at `(i, j)` is what
    /// `fun(i, j, self)` returns.
    pub fn apply<F: Fn(usize, usize, &Dense<S>) -> S>(&self, fun: F) -> (r: Dense<S>)
        requires
            forall|i: usize, j: usize|
                i < self@.rows && j < self@.cols ==> call_requires(fun, (i, j, self)),
        ensures
            r@.wf(),
            r@.same_shape(self@),
            forall|i: int, j: int|
                0 <= i < self@.rows && 0 <= j < self@.cols ==> call_ensures(
                    fun,
                    (i as usize, j as usize, self),
                    #[trigger] r@.at(i, j),
                ),
    {
        let (m, n) = self.size();
        let fun = &fun;
        let cell = |i: usize, j: usize| -> (c: S)
            requires
                call_requires(fun, (i, j, self)),
            ensures
                call_ensures(fun, (i, j, self), c),
            {
                fun(i, j, self)
            };
        Self::generate(m, n, cell)
    }

    /// The rows of `x` appended under the rows of this grid.
    pub fn concat(&self, x: &Dense<S>) -> (r: Dense<S>)
        requires
            self@.cols == x@.cols,
            self@.rows + x@.rows <= usize::MAX,
        ensures
            r@ == self@.stacked(x@),
    {
        let (m, n) = self.size();
        let (below, _) = x.size();
        let cell = |i: usize, j: usize| -> (c: S)
            requires
                i < self@.rows + x@.rows,
                j < self@.cols,
                self@.cols == x@.cols,
            ensures
                c == (if i < self@.rows {
                    self@.at(i as int, j as int)
                } else {
                    x@.at(i - self@.rows, j as int)
                }),
            {
                let (top, _) = self.size();
                if i < top {
                    self.get(i, j)
                } else {
                    x.get(i - top, j)
                }
            };
        let r = Self::generate(m + below, n, cell);
        proof {
            r@.lemma_build_eq(
                |i: int, j: int|
                    if i < self@.rows {
                        self@.at(i, j)
                    } else {
                        x@.at(i - self@.rows, j)
                    },
            );
        }
        r
    }

    /// Every cell negated.
    pub fn negated(&self) -> (r: Dense<S>)
        ensures
            r@ == self@.negated(),
    {
        let (m, n) = self.size();
        let cell = |i: usize, j: usize| -> (c: S)
            requires
                i < self@.rows,
                j < self@.cols,
            ensures
                c == self@.at(i as int, j as int).neg_spec(),
            {
                self.get(i, j).neg()
            };
        let r = Self::generate(m, n, cell);
        proof {
            r@.lemma_build_eq(|i: int, j: int| self@.at(i, j).neg_spec());
        }
        r
    }

    /// The cell-by-cell sum of two grids of the same shape.
    pub fn plus(&self, right: &Dense<S>) -> (r: Dense<S>)
        requires
            self@.same_shape(right@),
        ensures
            r@ == self@.plus(right@),
    {
        let (m, n) = self.size();
        let cell = |i: usize, j: usize| -> (c: S)
            requires
                i < self@.rows,
                j < self@.cols,
                self@.same_shape(right@),
            ensures
                c == self@.at(i as int, j as int).add_spec(right@.at(i as int, j as int)),
            {
                self.get(i, j).add(&right.get(i, j))
            };
        let r = Self::generate(m, n, cell);
        proof {
            r@.lemma_build_eq(|i: int, j: int| self@.at(i, j).add_spec(right@.at(i, j)));
        }
        r
    }

    /// The cell-by-cell difference of two grids of the same shape.
    pub fn minus(&self, right: &Dense<S>) -> (r: Dense<S>)
        requires
            self@.same_shape(right@),
        ensures
            r@ == self@.minus(right@),
    {
        let (m, n) = self.size();
        let cell = |i: usize, j: usize| -> (c: S)
            requires
                i < self@.rows,
                j < self@.cols,
                self@.same_shape(right@),
            ensures
                c == self@.at(i as int, j as int).sub_spec(right@.at(i as int, j as int)),
            {
                self.get(i, j).sub(&right.get(i, j))
            };
        let r = Self::generate(m, n, cell);
        proof {
            r@.lemma_build_eq(|i: int, j: int| self@.at(i, j).sub_spec(right@.at(i, j)));
        }
        r
    }

    /// Every cell multiplied by `factor`.
    pub fn scaled(&self, factor: S) -> (r: Dense<S>)
        ensures
            r@ == self@.scaled(factor),
    {
        let (m, n) = self.size();
        let cell = |i: usize, j: usize| -> (c: S)
            requires
                i < self@.rows,
                j < self@.cols,
            ensures
                c == self@.at(i as int, j as int).mul_spec(factor),
            {
                self.get(i, j).mul(&factor)
            };
        let r = Self::generate(m, n, cell);
        proof {
            r@.lemma_build_eq(|i: int, j: int| self@.at(i, j).mul_spec(factor));
        }
        r
    }

    /// Every cell raised to the power `exp`.
    pub fn powered(&self, exp: i32) -> (r: Dense<S>)
        ensures
            r@ == self@.powered(exp),
    {
        let (m, n) = self.size();
        let cell = |i: usize, j: usize| -> (c: S)
            requires
                i < self@.rows,
                j < self@.cols,
            ensures
                c == self@.at(i as int, j as int).powi_spec(exp),
            {
                self.get(i, j).powi(exp)
            };
        let r = Self::generate(m, n, cell);
        proof {
            r@.lemma_build_eq(|i: int, j: int| self@.at(i, j).powi_spec(exp));
        }
        r
    }

    /// Every cell below zero replaced by zero.
    pub fn rectified(&self) -> (r: Dense<S>)
        ensures
            r@ == self@.rectified(),
    {
        let (m, n) = self.size();
        let cell = |i: usize, j: usize| -> (c: S)
            requires
                i < self@.rows,
                j < self@.cols,
            ensures
                c == (if self@.at(i as int, j as int).nonnegative_spec() {
                    self@.at(i as int, j as int)
                } else {
                    zero::<S>()
                }),
            {
                let x = self.get(i, j);
                if x.nonnegative() {
                    x
                } else {
                    S::from_int(0)
                }
            };
        let r = Self::generate(m, n, cell);
        proof {
            r@.lemma_build_eq(
                |i: int, j: int|
                    if self@.at(i, j).nonnegative_spec() {
                        self@.at(i, j)
                    } else {
                        zero::<S>()
                    },
            );
        }
        r
    }

    /// This grid where the cell of `signal` is at least zero, zero
    /// elsewhere.
    pub fn gated(&self, signal: &Dense<S>) -> (r: Dense<S>)
        requires
            self@.same_shape(signal@),
        ensures
            r@ == self@.gated(signal@),
    {
        let (m, n) = signal.size();
        let cell = |i: usize, j: usize| -> (c: S)
            requires
                i < signal@.rows,
                j < signal@.cols,
                self@.same_shape(signal@),
            ensures
                c == (if signal@.at(i as int, j as int).nonnegative_spec() {
                    self@.at(i as int, j as int)
                } else {
                    zero::<S>()
                }),
            {
                if signal.get(i, j).nonnegative() {
                    self.get(i, j)
                } else {
                    S::from_int(0)
                }
            };
        let r = Self::generate(m, n, cell);
        proof {
            r@.lemma_build_eq(
                |i: int, j: int|
                    if signal@.at(i, j).nonnegative_spec() {
                        self@.at(i, j)
                    } else {
                        zero::<S>()
                    },
            );
        }
        r
    }

    /// The derivative of `powered(exp)` at this grid, times `flow`.
    pub fn power_slope(&self, exp: i32, flow: &Dense<S>) -> (r: Dense<S>)
        requires
            self@.same_shape(flow@),
            exp > i32::MIN,
        ensures
            r@ == self@.power_slope(exp, flow@),
    {
        let (m, n) = self.size();
        let cell = |i: usize, j: usize| -> (c: S)
            requires
                i < self@.rows,
                j < self@.cols,
                self@.same_shape(flow@),
                exp > i32::MIN,
            ensures
                c == S::from_int_spec(exp).mul_spec(
                    self@.at(i as int, j as int).powi_spec((exp - 1) as i32),
                ).mul_spec(flow@.at(i as int, j as int)),
            {
                S::from_int(exp).mul(&self.get(i, j).powi(exp - 1)).mul(&flow.get(i, j))
            };
        let r = Self::generate(m, n, cell);
        proof {
            r@.lemma_build_eq(
                |i: int, j: int|
                    S::from_int_spec(exp).mul_spec(self@.at(i, j).powi_spec((exp - 1) as i32)).mul_spec(
                        flow@.at(i, j),
                    ),
            );
        }
        r
    }

    /// The inner product of row `i` of this grid with column `j` of
    /// `right`.
    fn dot(&self, right: &Dense<S>, i: usize, j: usize) -> (r: S)
        requires
            self@.cols == right@.rows,
            i < self@.rows,
            j < right@.cols,
        ensures
            r == self@.dot(right@, i as int, j as int, self@.cols),
    {
        let (_, n) = self.size();
        let mut acc = S::from_int(0);
        let mut k: usize = 0;
        while k < n
            invariant
                n == self@.cols,
                self@.cols == right@.rows,
                i < self@.rows,
                j < right@.cols,
                k <= n,
                acc == self@.dot(right@, i as int, j as int, k as nat),
            decreases n - k,
        {
            acc = acc.add(&self.get(i, k).mul(&right.get(k, j)));
            k = k + 1;
        }
        acc
    }

    /// The matrix product of an `m` by `k` and a `k` by `p` grid.
    pub fn times(&self, right: &Dense<S>) -> (r: Dense<S>)
        requires
            self@.cols == right@.rows,
        ensures
            r@ == self@.times(right@),
    {
        let (m, _) = self.size();
        let (_, p) = right.size();
        let cell = |i: usize, j: usize| -> (c: S)
            requires
                i < self@.rows,
                j < right@.cols,
                self@.cols == right@.rows,
            ensures
                c == self@.dot(right@, i as int, j as int, self@.cols),
            {
                self.dot(right, i, j)
            };
        let r = Self::generate(m, p, cell);
        proof {
            r@.lemma_build_eq(|i: int, j: int| self@.dot(right@, i, j, self@.cols));
        }
        r
    }

    /// The sum of all cells, added up from zero in row-major order.
    pub fn total(&self) -> (r: S)
        ensures
            r == self@.total(),
    {
        let (m, n) = self.size();
        let mut acc = S::from_int(0);
        let mut i: usize = 0;
        while i < m
            invariant
                m == self@.rows,
                n == self@.cols,
                i <= m,
                acc == self@.sum_before(i as nat, 0),
            decreases m - i,
        {
            let mut j: usize = 0;
            while j < n
                invariant
                    m == self@.rows,
                n == self@.cols,
                    i < m,
                    j <= n,
                    acc == self@.sum_before(i as nat, j as nat),
                decreases n - j,
            {
                acc = acc.add(&self.get(i, j));
                j = j + 1;
            }
            i = i + 1;
        }
        acc
    }

    /// The one-by-one grid that holds the mean of all cells.
    pub fn averaged(&self) -> (r: Dense<S>)
        requires
            self@.count() <= usize::MAX,
        ensures
            r@ == self@.averaged(),
    {
        let count = self.num_elements();
        Self::filled(1, 1, self.total().div(&S::from_count(count)))
    }

    /// The only cell of this grid divided by `rows * cols`, in every cell
    /// of a grid of that shape.
    pub fn spread(&self, rows: usize, cols: usize) -> (r: Dense<S>)
        requires
            self@.rows == 1,
            self@.cols == 1,
            rows * cols <= usize::MAX,
        ensures
            r@ == self@.spread(rows as nat, cols as nat),
    {
        let count = rows * cols;
        Self::filled(rows, cols, self.item().div(&S::from_count(count)))
    }

    /// Adds `right` to this grid, cell by cell.
    pub fn add_assign(&mut self, right: &Dense<S>)
        requires
            old(self)@.same_shape(right@),
        ensures
            final(self)@ == old(self)@.plus(right@),
    {
        let sum = self.plus(right);
        *self = sum;
    }

    /// Subtracts `right` from this grid, cell by cell.
    pub fn sub_assign(&mut self, right: &Dense<S>)
        requires
            old(self)@.same_shape(right@),
        ensures
            final(self)@ == old(self)@.minus(right@),
    {
        let difference = self.minus(right);
        *self = difference;
    }

    /// Shape first, then cell by cell.
    pub fn equals(&self, other: &Dense<S>) -> (r: bool)
        ensures
            r == self@.equals(other@),
    {
        let (m, n) = self.size();
        let (m_2, n_2) = other.size();
        if m != m_2 || n != n_2 {
            return false;
        }
        let mut i: usize = 0;
        while i < m
            invariant
                m == self@.rows,
                n == self@.cols,
                self@.same_shape(other@),
                i <= m,
                forall|a: int, b: int|
                    0 <= a < i && 0 <= b < n ==> (#[trigger] self@.at(a, b)).eq_spec(other@.at(a, b)),
            decreases m - i,
        {
            let mut j: usize = 0;
            while j < n
                invariant
                    m == self@.rows,
                n == self@.cols,
                    self@.same_shape(other@),
                    i < m,
                    j <= n,
                    forall|a: int, b: int|
                        0 <= a < i && 0 <= b < n ==> (#[trigger] self@.at(a, b)).eq_spec(
                            other@.at(a, b),
                        ),
                    forall|b: int|
                        0 <= b < j ==> (#[trigger] self@.at(i as int, b)).eq_spec(
                            other@.at(i as int, b),
                        ),
                decreases n - j,
            {
                if !self.get(i, j).eq(&other.get(i, j)) {
                    assert(!self@.at(i as int, j as int).eq_spec(other@.at(i as int, j as int)));
                    return false;
                }
                j = j + 1;
            }
            i = i + 1;
        }
        true
    }
}

impl<S: Scalar> Dense<S> {
    /// Appends row `i` as text, in square brackets.
    fn append_row(&self, i: usize, out: &mut String)
        requires
            i < self@.rows,
        ensures
            final(out)@ == old(out)@ + self@.bracketed_row(i as int),
    {
        proof {
            reveal_strlit("[");
            reveal_strlit("]");
            reveal_strlit(" ");
        }
        let (_, n) = self.size();
        let ghost cells = self@.cells[i as int];
        out.append("[");
        let ghost opened = out@;
        let mut j: usize = 0;
        while j < n
            invariant
                i < self@.rows,
                n == self@.cols,
                j <= n,
                cells == self@.cells[i as int],
                out@ == opened + Matrix::<S>::row_text(cells, j as nat),
            decreases n - j,
        {
            let ghost before = out@;
            if j > 0 {
                out.append(" ");
            }
            let cell = self.get(i, j).to_text();
            out.append(cell.as_str());
            proof {
                reveal_strlit(" ");
                assert(" "@ =~= seq![' ']);
                assert(cells[j as int] == self@.at(i as int, j as int));
                assert(cell@ == cells[j as int].text_spec()@);
                if j == 0 {
                    assert(Matrix::<S>::row_text(cells, 0) =~= Seq::<char>::empty());
                    assert(out@ =~= opened + cell@);
                } else {
                    assert(out@ =~= before + seq![' '] + cell@);
                    assert(Matrix::<S>::row_text(cells, (j + 1) as nat) == Matrix::<S>::row_text(
                        cells,
                        j as nat,
                    ) + seq![' '] + cells[j as int].text_spec()@);
                }
                assert(out@ =~= opened + Matrix::<S>::row_text(cells, (j + 1) as nat));
            }
            j = j + 1;
        }
        out.append("]");
        proof {
            assert(out@ =~= old(out)@ + self@.bracketed_row(i as int));
        }
    }

    /// The grid as text: `[[1 2] [3 4]]` for two rows and two columns.
    pub fn to_string(&self) -> (r: String)
        ensures
            r@ == self@.text(),
    {
        proof {
            reveal_strlit("[");
            reveal_strlit("]");
            reveal_strlit(" ");
        }
        let (m, _) = self.size();
        let mut r = String::new();
        r.append("[");
        let ghost opened = r@;
        let mut i: usize = 0;
        while i < m
            invariant
                m == self@.rows,
                i <= m,
                r@ == opened + self@.rows_text(i as nat),
            decreases m - i,
        {
            let ghost before = r@;
            if i > 0 {
                r.append(" ");
            }
            self.append_row(i, &mut r);
            proof {
                reveal_strlit(" ");
                assert(" "@ =~= seq![' ']);
                if i == 0 {
                    assert(self@.rows_text(0) =~= Seq::<char>::empty());
                    assert(r@ =~= opened + self@.bracketed_row(0));
                } else {
                    assert(r@ =~= before + seq![' '] + self@.bracketed_row(i as int));
                    assert(self@.rows_text((i + 1) as nat) == self@.rows_text(i as nat) + seq![' ']
                        + self@.bracketed_row(i as int));
                }
                assert(r@ =~= opened + self@.rows_text((i + 1) as nat));
            }
            i = i + 1;
        }
        r.append("]");
        proof {
            assert(r@ =~= self@.text());
        }
        r
    }
}

impl<S: Scalar> Default for Dense<S> {
    /// The one-by-one grid that holds zero.
    fn default() -> (r: Self)
        ensures
            r@ == Matrix::<S>::zeros(1, 1),
    {
        Self::filled(1, 1, S::from_int(0))
    }
}

impl<S: Scalar> Clone for Dense<S> {
    /// The copy holds the same cells.
    fn clone(&self) -> (r: Self)
        ensures
            r@ == self@,
    {
        let (m, n) = self.size();
        let cell = |i: usize, j: usize| -> (c: S)
            requires
                i < self@.rows,
                j < self@.cols,
            ensures
                c == self@.at(i as int, j as int),
            {
                self.get(i, j)
            };
        let r = Self::generate(m, n, cell);
        proof {
            r@.lemma_build_eq(|i: int, j: int| self@.at(i, j));
            self@.lemma_build_eq(|i: int, j: int| self@.at(i, j));
        }
        r
    }
}

impl<S: Scalar> PartialEq for Dense<S> {
    /// Equality looks at the cells only: shape first, then cell by cell.
    fn eq(&self, other: &Self) -> (r: bool) {
        self.equals(other)
    }
}

impl<S: Scalar> vstd::std_specs::cmp::PartialEqSpecImpl for Dense<S> {
    open spec fn obeys_eq_spec() -> bool {
        true
    }

    open spec fn eq_spec(&self, other: &Self) -> bool {
        self@.equals(other@)
    }
}

} // verus!
