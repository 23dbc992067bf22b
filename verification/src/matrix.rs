//! The mathematical model of a value: a grid of cells with a shape.
//!
//! Every contract in this crate that speaks of values is stated over
//! [`Matrix`]. Cell arithmetic is taken from [`Scalar`], in the order in
//! which the executable code performs it, so the model is exact even where
//! cell arithmetic is not associative.

use vstd::prelude::*;
use crate::scalar::{one, zero, ExactScalar, RingScalar, Scalar};

verus! {

/// A grid of `rows` by `cols` cells, stored row by row.
#[verifier::ext_equal]
pub struct Matrix<S> {
    pub rows: nat,
    pub cols: nat,
    pub cells: Seq<Seq<S>>,
}

impl<S: Scalar> Matrix<S> {
    /// The grid holds exactly `rows` rows of `cols` cells each.
    pub open spec fn wf(self) -> bool {
        &&& self.cells.len() == self.rows
        &&& forall|i: int| 0 <= i < self.rows ==> (#[trigger] self.cells[i]).len() == self.cols
    }

    /// The cell in row `i`, column `j`.
    pub open spec fn at(self, i: int, j: int) -> S {
        self.cells[i][j]
    }

    /// The grid of the given shape whose cell at `(i, j)` is `f(i, j)`.
    pub open spec fn build(rows: nat, cols: nat, f: spec_fn(int, int) -> S) -> Self {
        Matrix { rows, cols, cells: Seq::new(rows, |i: int| Seq::new(cols, |j: int| f(i, j))) }
    }

    /// The grid of the given shape with `value` in every cell.
    pub open spec fn fill(rows: nat, cols: nat, value: S) -> Self {
        Self::build(rows, cols, |i: int, j: int| value)
    }

    /// The grid of the given shape with zero in every cell.
    pub open spec fn zeros(rows: nat, cols: nat) -> Self {
        Self::fill(rows, cols, zero::<S>())
    }

    /// The grid of the given shape with one in every cell.
    pub open spec fn ones(rows: nat, cols: nat) -> Self {
        Self::fill(rows, cols, one::<S>())
    }

    /// The grid read from a list of rows of equal length. Without a first row,
    /// or with an empty one, there are no cells and the shape is `(0, 0)`.
    pub open spec fn from_rows(rows: Seq<Seq<S>>) -> Self {
        if rows.len() == 0 || rows[0].len() == 0 {
            Matrix { rows: 0, cols: 0, cells: Seq::empty() }
        } else {
            Matrix { rows: rows.len(), cols: rows[0].len(), cells: rows }
        }
    }

    /// Every row of the list is as long as the first.
    pub open spec fn rectangular(rows: Seq<Seq<S>>) -> bool {
        forall|i: int| 0 <= i < rows.len() ==> (#[trigger] rows[i]).len() == rows[0].len()
    }

    /// Both grids have the same number of rows and of columns.
    pub open spec fn same_shape(self, other: Self) -> bool {
        self.rows == other.rows && self.cols == other.cols
    }

    /// The number of cells.
    pub open spec fn count(self) -> nat {
        self.rows * self.cols
    }

    /// Shape first, then every pair of cells compares equal.
    pub open spec fn equals(self, other: Self) -> bool {
        &&& self.same_shape(other)
        &&& forall|i: int, j: int|
            0 <= i < self.rows && 0 <= j < self.cols ==> (#[trigger] self.at(i, j)).eq_spec(
                other.at(i, j),
            )
    }

    /// The grid flipped over its diagonal.
    pub open spec fn transposed(self) -> Self {
        Self::build(self.cols, self.rows, |i: int, j: int| self.at(j, i))
    }

    /// The rows of `below` appended under the rows of this grid.
    pub open spec fn stacked(self, below: Self) -> Self {
        Self::build(
            self.rows + below.rows,
            self.cols,
            |i: int, j: int|
                if i < self.rows {
                    self.at(i, j)
                } else {
                    below.at(i - self.rows, j)
                },
        )
    }

    /// Every cell negated.
    pub open spec fn negated(self) -> Self {
        Self::build(self.rows, self.cols, |i: int, j: int| self.at(i, j).neg_spec())
    }

    /// The cell-by-cell sum.
    pub open spec fn plus(self, rhs: Self) -> Self {
        Self::build(self.rows, self.cols, |i: int, j: int| self.at(i, j).add_spec(rhs.at(i, j)))
    }

    /// The cell-by-cell difference.
    pub open spec fn minus(self, rhs: Self) -> Self {
        Self::build(self.rows, self.cols, |i: int, j: int| self.at(i, j).sub_spec(rhs.at(i, j)))
    }

    /// Every cell multiplied by `factor`.
    pub open spec fn scaled(self, factor: S) -> Self {
        Self::build(self.rows, self.cols, |i: int, j: int| self.at(i, j).mul_spec(factor))
    }

    /// Every cell raised to the power `exp`.
    pub open spec fn powered(self, exp: i32) -> Self {
        Self::build(self.rows, self.cols, |i: int, j: int| self.at(i, j).powi_spec(exp))
    }

    /// Every cell below zero replaced by zero.
    pub open spec fn rectified(self) -> Self {
        Self::build(
            self.rows,
            self.cols,
            |i: int, j: int|
                if self.at(i, j).nonnegative_spec() {
                    self.at(i, j)
                } else {
                    zero::<S>()
                },
        )
    }

    /// This grid where the cell of `signal` is at least zero, zero elsewhere.
    pub open spec fn gated(self, signal: Self) -> Self {
        Self::build(
            signal.rows,
            signal.cols,
            |i: int, j: int|
                if signal.at(i, j).nonnegative_spec() {
                    self.at(i, j)
                } else {
                    zero::<S>()
                },
        )
    }

    /// The derivative of `powered(exp)` at this grid, times `flow`:
    /// `exp * cell^(exp - 1) * flow`, cell by cell.
    pub open spec fn power_slope(self, exp: i32, flow: Self) -> Self {
        Self::build(
            self.rows,
            self.cols,
            |i: int, j: int|
                S::from_int_spec(exp).mul_spec(self.at(i, j).powi_spec((exp - 1) as i32)).mul_spec(
                    flow.at(i, j),
                ),
        )
    }

    /// The first `k` terms of the inner product of row `i` of this grid with
    /// column `j` of `rhs`, added up from zero in order.
    pub open spec fn dot(self, rhs: Self, i: int, j: int, k: nat) -> S
        decreases k,
    {
        if k == 0 {
            zero::<S>()
        } else {
            self.dot(rhs, i, j, (k - 1) as nat).add_spec(
                self.at(i, k - 1).mul_spec(rhs.at(k - 1, j)),
            )
        }
    }

    /// The matrix product.
    pub open spec fn times(self, rhs: Self) -> Self {
        Self::build(self.rows, rhs.cols, |i: int, j: int| self.dot(rhs, i, j, self.cols))
    }

    /// The sum of the cells that come before `(i, j)` in row-major order,
    /// added up from zero in that order.
    pub open spec fn sum_before(self, i: nat, j: nat) -> S
        decreases i, j,
    {
        if j > 0 {
            self.sum_before(i, (j - 1) as nat).add_spec(self.at(i as int, j - 1))
        } else if i > 0 {
            self.sum_before((i - 1) as nat, self.cols)
        } else {
            zero::<S>()
        }
    }

    /// The sum of all cells, added up from zero in row-major order.
    pub open spec fn total(self) -> S {
        self.sum_before(self.rows, 0)
    }

    /// The one-by-one grid that holds the mean of all cells: their total
    /// divided by their number.
    pub open spec fn averaged(self) -> Self {
        Self::fill(1, 1, self.total().div_spec(S::from_count_spec(self.count() as usize)))
    }

    /// The top-left cell of this grid divided by the number of cells of a
    /// `rows` by `cols` grid, in every cell of such a grid.
    pub open spec fn spread(self, rows: nat, cols: nat) -> Self {
        Self::fill(rows, cols, self.at(0, 0).div_spec(S::from_count_spec((rows * cols) as usize)))
    }

    /// A well-formed grid is the grid built from its own cells.
    pub proof fn lemma_build_eq(self, f: spec_fn(int, int) -> S)
        requires
            self.wf(),
            forall|i: int, j: int|
                0 <= i < self.rows && 0 <= j < self.cols ==> #[trigger] self.at(i, j) == f(i, j),
        ensures
            self == Self::build(self.rows, self.cols, f),
    {
        let want = Self::build(self.rows, self.cols, f);
        assert forall|i: int| 0 <= i < self.rows implies #[trigger] self.cells[i] =~= want.cells[i] by {
            assert forall|j: int| 0 <= j < self.cols implies self.cells[i][j] == want.cells[i][j] by {
                assert(self.at(i, j) == f(i, j));
            }
        }
        assert(self =~~= want);
    }

    /// Transposing twice gives the grid back, whatever its shape.
    pub proof fn lemma_transpose_involution(self)
        requires
            self.wf(),
        ensures
            self.transposed().transposed() == self,
    {
        let twice = self.transposed().transposed();
        assert forall|i: int| 0 <= i < self.rows implies #[trigger] twice.cells[i] =~= self.cells[i] by {
            assert forall|j: int| 0 <= j < self.cols implies twice.cells[i][j] == self.cells[i][j] by {
                assert(self.transposed().at(j, i) == self.at(i, j));
            }
        }
        assert(twice =~~= self);
    }
}

impl<S: ExactScalar> Matrix<S> {
    /// In exact arithmetic, equal grids are the same grid.
    pub proof fn lemma_equals_is_identity(self, other: Self)
        requires
            self.wf(),
            other.wf(),
        ensures
            self.equals(other) <==> self == other,
    {
        if self.equals(other) {
            assert forall|i: int| 0 <= i < self.rows implies #[trigger] self.cells[i] =~= other.cells[i] by {
                assert forall|j: int| 0 <= j < self.cols implies self.cells[i][j]
                    == other.cells[i][j] by {
                    S::lemma_eq_is_identity(self.at(i, j), other.at(i, j));
                }
            }
            assert(self =~~= other);
        }
        if self == other {
            assert forall|i: int, j: int| 0 <= i < self.rows && 0 <= j < self.cols implies (
            #[trigger] self.at(i, j)).eq_spec(other.at(i, j)) by {
                S::lemma_eq_is_identity(self.at(i, j), other.at(i, j));
            }
        }
    }

    /// In exact arithmetic, adding a grid of the same shape and subtracting it
    /// again gives the first grid back, cell for cell.
    pub proof fn lemma_add_then_sub(self, other: Self)
        requires
            self.wf(),
            other.wf(),
            self.same_shape(other),
        ensures
            self.plus(other).minus(other) == self,
            self.plus(other).minus(other).equals(self),
    {
        let back = self.plus(other).minus(other);
        assert forall|i: int| 0 <= i < self.rows implies #[trigger] back.cells[i] =~= self.cells[i] by {
            assert forall|j: int| 0 <= j < self.cols implies back.cells[i][j] == self.cells[i][j] by {
                assert(self.plus(other).at(i, j) == self.at(i, j).add_spec(other.at(i, j)));
                S::lemma_add_then_sub(self.at(i, j), other.at(i, j));
            }
        }
        assert(back =~~= self);
        self.lemma_equals_is_identity(self);
    }
}

/// The first `n` values of `f`, added up from zero in order.
pub open spec fn sum<S: Scalar>(f: spec_fn(int) -> S, n: nat) -> S
    decreases n,
{
    if n == 0 {
        zero::<S>()
    } else {
        sum(f, (n - 1) as nat).add_spec(f(n - 1))
    }
}

/// Sums of terms that agree are equal.
proof fn lemma_sum_of_equal_terms<S: Scalar>(f: spec_fn(int) -> S, g: spec_fn(int) -> S, n: nat)
    requires
        forall|s: int| 0 <= s < n ==> #[trigger] f(s) == g(s),
    ensures
        sum(f, n) == sum(g, n),
    decreases n,
{
    if n > 0 {
        lemma_sum_of_equal_terms(f, g, (n - 1) as nat);
        assert(f(n - 1) == g(n - 1));
    }
}

/// A sum of zeros is zero.
proof fn lemma_sum_of_zeros<S: RingScalar>(f: spec_fn(int) -> S, n: nat)
    requires
        forall|s: int| 0 <= s < n ==> #[trigger] f(s) == zero::<S>(),
    ensures
        sum(f, n) == zero::<S>(),
    decreases n,
{
    if n > 0 {
        lemma_sum_of_zeros(f, (n - 1) as nat);
        assert(f(n - 1) == zero::<S>());
        S::lemma_add_zero(zero::<S>());
    }
}

/// The sum of sums, term by term, is the sum of the two sums.
proof fn lemma_sum_of_sums<S: RingScalar>(
    f: spec_fn(int) -> S,
    g: spec_fn(int) -> S,
    both: spec_fn(int) -> S,
    n: nat,
)
    requires
        forall|s: int| 0 <= s < n ==> #[trigger] both(s) == f(s).add_spec(g(s)),
    ensures
        sum(both, n) == sum(f, n).add_spec(sum(g, n)),
    decreases n,
{
    if n == 0 {
        S::lemma_add_zero(zero::<S>());
    } else {
        lemma_sum_of_sums(f, g, both, (n - 1) as nat);
        let ff = sum(f, (n - 1) as nat);
        let gg = sum(g, (n - 1) as nat);
        let x = f(n - 1);
        let y = g(n - 1);
        assert(both(n - 1) == x.add_spec(y));
        // (ff + gg) + (x + y) == (ff + x) + (gg + y)
        S::lemma_add_associates(ff, gg, x.add_spec(y));
        S::lemma_add_associates(gg, x, y);
        S::lemma_add_commutes(gg, x);
        S::lemma_add_associates(x, gg, y);
        S::lemma_add_associates(ff, x, gg.add_spec(y));
    }
}

/// A factor on the right can be moved out of a sum.
proof fn lemma_sum_times_right<S: RingScalar>(
    f: spec_fn(int) -> S,
    scaled: spec_fn(int) -> S,
    factor: S,
    n: nat,
)
    requires
        forall|s: int| 0 <= s < n ==> #[trigger] scaled(s) == f(s).mul_spec(factor),
    ensures
        sum(scaled, n) == sum(f, n).mul_spec(factor),
    decreases n,
{
    if n == 0 {
        S::lemma_mul_zero(factor);
    } else {
        lemma_sum_times_right(f, scaled, factor, (n - 1) as nat);
        assert(scaled(n - 1) == f(n - 1).mul_spec(factor));
        S::lemma_mul_distributes(sum(f, (n - 1) as nat), f(n - 1), factor);
    }
}

/// A factor on the left can be moved out of a sum.
proof fn lemma_sum_times_left<S: RingScalar>(
    f: spec_fn(int) -> S,
    scaled: spec_fn(int) -> S,
    factor: S,
    n: nat,
)
    requires
        forall|s: int| 0 <= s < n ==> #[trigger] scaled(s) == factor.mul_spec(f(s)),
    ensures
        sum(scaled, n) == factor.mul_spec(sum(f, n)),
    decreases n,
{
    if n == 0 {
        S::lemma_mul_zero(factor);
    } else {
        lemma_sum_times_left(f, scaled, factor, (n - 1) as nat);
        assert(scaled(n - 1) == factor.mul_spec(f(n - 1)));
        S::lemma_mul_distributes(factor, sum(f, (n - 1) as nat), f(n - 1));
    }
}

/// The sum of `f(s, t)` over `s < k` for a fixed `t`.
pub open spec fn sum_over_first<S: Scalar>(f: spec_fn(int, int) -> S, k: nat, t: int) -> S {
    sum(|s: int| f(s, t), k)
}

/// The sum of `f(s, t)` over `t < l` for a fixed `s`.
pub open spec fn sum_over_second<S: Scalar>(f: spec_fn(int, int) -> S, l: nat, s: int) -> S {
    sum(|t: int| f(s, t), l)
}

/// A double sum can be taken in either order.
proof fn lemma_sum_exchange<S: RingScalar>(f: spec_fn(int, int) -> S, k: nat, l: nat)
    ensures
        sum(|t: int| sum_over_first(f, k, t), l) == sum(|s: int| sum_over_second(f, l, s), k),
    decreases l,
{
    let outer_t = |t: int| sum_over_first(f, k, t);
    let outer_s = |s: int| sum_over_second(f, l, s);
    if l == 0 {
        assert forall|s: int| 0 <= s < k implies #[trigger] outer_s(s) == zero::<S>() by {}
        lemma_sum_of_zeros(outer_s, k);
    } else {
        let before = (l - 1) as nat;
        let outer_s_before = |s: int| sum_over_second(f, before, s);
        let last_column = |s: int| f(s, l - 1);
        lemma_sum_exchange(f, k, before);
        assert(sum(|t: int| sum_over_first(f, k, t), before) == sum(outer_s_before, k));
        assert forall|s: int| 0 <= s < k implies #[trigger] outer_s(s) == outer_s_before(
            s,
        ).add_spec(last_column(s)) by {
            let inner = |t: int| f(s, t);
            assert(sum(inner, l) == sum(inner, before).add_spec(inner(l - 1)));
        }
        lemma_sum_of_sums(outer_s_before, last_column, outer_s, k);
        lemma_sum_of_equal_terms(
            |t: int| sum_over_first(f, k, t),
            outer_t,
            before,
        );
        assert(outer_t(l - 1) == sum(last_column, k));
    }
}

impl<S: RingScalar> Matrix<S> {
    /// An inner product is a sum of products.
    pub proof fn lemma_dot_is_sum(self, rhs: Self, i: int, j: int, k: nat)
        ensures
            self.dot(rhs, i, j, k) == sum(|s: int| self.at(i, s).mul_spec(rhs.at(s, j)), k),
        decreases k,
    {
        if k > 0 {
            self.lemma_dot_is_sum(rhs, i, j, (k - 1) as nat);
        }
    }

    /// In a commutative ring the matrix product is associative: for grids
    /// whose shapes fit, `(a * b) * c` and `a * (b * c)` are the same grid.
    pub proof fn lemma_times_associates(self, b: Self, c: Self)
        requires
            self.wf(),
            b.wf(),
            c.wf(),
            self.cols == b.rows,
            b.cols == c.rows,
        ensures
            self.times(b).times(c) == self.times(b.times(c)),
    {
        let a = self;
        let k = a.cols;
        let l = b.cols;
        let ab = a.times(b);
        let bc = b.times(c);
        let left = ab.times(c);
        let right = a.times(bc);
        assert forall|i: int, j: int| 0 <= i < a.rows && 0 <= j < c.cols implies left.at(i, j)
            == right.at(i, j) by {
            let f = |s: int, t: int| a.at(i, s).mul_spec(b.at(s, t)).mul_spec(c.at(t, j));
            // the left cell, a sum over t of sums over s
            let left_terms = |t: int| ab.at(i, t).mul_spec(c.at(t, j));
            ab.lemma_dot_is_sum(c, i, j, l);
            assert forall|t: int| 0 <= t < l implies #[trigger] left_terms(t) == sum_over_first(
                f,
                k,
                t,
            ) by {
                let products = |s: int| a.at(i, s).mul_spec(b.at(s, t));
                a.lemma_dot_is_sum(b, i, t, k);
                assert(ab.at(i, t) == a.dot(b, i, t, k));
                lemma_sum_times_right(products, |s: int| f(s, t), c.at(t, j), k);
            }
            lemma_sum_of_equal_terms(left_terms, |t: int| sum_over_first(f, k, t), l);
            assert(left.at(i, j) == ab.dot(c, i, j, l));
            // the right cell, a sum over s of sums over t
            let right_terms = |s: int| a.at(i, s).mul_spec(bc.at(s, j));
            a.lemma_dot_is_sum(bc, i, j, k);
            assert forall|s: int| 0 <= s < k implies #[trigger] right_terms(s) == sum_over_second(
                f,
                l,
                s,
            ) by {
                let products = |t: int| b.at(s, t).mul_spec(c.at(t, j));
                let grouped = |t: int| a.at(i, s).mul_spec(products(t));
                b.lemma_dot_is_sum(c, s, j, l);
                assert(bc.at(s, j) == b.dot(c, s, j, l));
                lemma_sum_times_left(products, grouped, a.at(i, s), l);
                assert forall|t: int| 0 <= t < l implies #[trigger] grouped(t) == f(s, t) by {
                    S::lemma_mul_associates(a.at(i, s), b.at(s, t), c.at(t, j));
                }
                lemma_sum_of_equal_terms(grouped, |t: int| f(s, t), l);
            }
            lemma_sum_of_equal_terms(right_terms, |s: int| sum_over_second(f, l, s), k);
            assert(right.at(i, j) == a.dot(bc, i, j, k));
            lemma_sum_exchange(f, k, l);
        }
        assert forall|i: int| 0 <= i < left.rows implies #[trigger] left.cells[i] =~= right.cells[i] by {
            assert forall|j: int| 0 <= j < left.cols implies left.cells[i][j] == right.cells[i][j] by {
                assert(left.at(i, j) == right.at(i, j));
            }
        }
        assert(left =~~= right);
    }
}

impl<S: Scalar> Matrix<S> {
    /// The first `k` cells of a row as text, with a blank between
    /// neighbours.
    pub open spec fn row_text(cells: Seq<S>, k: nat) -> Seq<char>
        decreases k,
    {
        if k == 0 {
            Seq::empty()
        } else if k == 1 {
            cells[0].text_spec()@
        } else {
            Self::row_text(cells, (k - 1) as nat) + seq![' '] + cells[k - 1].text_spec()@
        }
    }

    /// Row `i` as text, in square brackets.
    pub open spec fn bracketed_row(self, i: int) -> Seq<char> {
        seq!['['] + Self::row_text(self.cells[i], self.cols) + seq![']']
    }

    /// The first `k` rows as text, with a blank between neighbours.
    pub open spec fn rows_text(self, k: nat) -> Seq<char>
        decreases k,
    {
        if k == 0 {
            Seq::empty()
        } else if k == 1 {
            self.bracketed_row(0)
        } else {
            self.rows_text((k - 1) as nat) + seq![' '] + self.bracketed_row(k - 1)
        }
    }

    /// The grid as text: every row in square brackets, its cells separated by
    /// blanks, the rows separated by blanks, and square brackets around the
    /// whole. A grid of two rows and two columns reads `[[1 2] [3 4]]`.
    pub open spec fn text(self) -> Seq<char> {
        seq!['['] + self.rows_text(self.rows) + seq![']']
    }
}

} // verus!
