//! Tensors: the handles through which values in a graph are made, read and
//! combined.
//!
//! A [`Tensor`] names one node of a [`Graph`]. The node holds the value;
//! the tensor holds the index of the node and a name of its own. A copy of a
//! tensor names the same node, so whatever is done to the node through one
//! copy is seen through every other.

use vstd::prelude::*;
use vstd::string::*;
use crate::dense::{rows_of, rows_of_slices, Dense};
use crate::matrix::Matrix;
use crate::operations::{held, inserted, GradientView, Graph};
use crate::scalar::{Scalar};

verus! {

/// The handle of one node of a graph.
#[derive(Debug)]
pub struct Tensor {
    /// A name for the tensor; empty if it was given none.
    pub name: String,
    /// The index of the node that holds the value of the tensor.
    pub gradient: usize,
}

impl Tensor {
    /// The same tensor under a new name.
    pub fn named(self, name: String) -> (r: Self)
        ensures
            r.gradient == self.gradient,
            r.name == name,
    {
        Tensor { name, gradient: self.gradient }
    }

    /// The index of the node that holds the value of this tensor.
    pub fn metadata(&self) -> (r: usize)
        ensures
            r == self.gradient,
    {
        self.gradient
    }

    /// The tensor that stands for `value`: a new leaf of the graph, without
    /// gradient.
    pub fn from_dense<S: Scalar>(value: Dense<S>, graph: &mut Graph<S>) -> (r: Tensor)
        ensures
            final(graph)@ == inserted(old(graph)@, value@),
            r.gradient == old(graph)@.len(),
            r.name@ == Seq::<char>::empty(),
    {
        let id = graph.insert(value);
        Tensor { name: String::new(), gradient: id }
    }

    /// The tensor read from a list of rows, a new leaf of the graph. Without
    /// a first row, or with an empty one, there are no cells and the shape is
    /// `(0, 0)`.
    pub fn from_vector<S: Scalar>(data: Vec<Vec<S>>, graph: &mut Graph<S>) -> (r: Tensor)
        requires
            Matrix::<S>::rectangular(rows_of(data)),
        ensures
            final(graph)@ == inserted(old(graph)@, Matrix::<S>::from_rows(rows_of(data))),
            r.gradient == old(graph)@.len(),
            r.name@ == Seq::<char>::empty(),
    {
        Self::from_dense(Dense::from_vector(data), graph)
    }

    /// The tensor read from a list of row slices, as [`Tensor::from_vector`]
    /// reads it from vectors.
    pub fn from_array<S: Scalar>(array: &[&[S]], graph: &mut Graph<S>) -> (r: Tensor)
        requires
            Matrix::<S>::rectangular(rows_of_slices(array)),
        ensures
            final(graph)@ == inserted(old(graph)@, Matrix::<S>::from_rows(rows_of_slices(array))),
            r.gradient == old(graph)@.len(),
            r.name@ == Seq::<char>::empty(),
    {
        Self::from_dense(Dense::from_array(array), graph)
    }

    /// The tensor of one row without cells, a new leaf of the graph.
    pub fn empty<S: Scalar>(graph: &mut Graph<S>) -> (r: Tensor)
        ensures
            final(graph)@ == inserted(old(graph)@, Matrix::<S>::zeros(1, 0)),
            r.gradient == old(graph)@.len(),
            r.name@ == Seq::<char>::empty(),
    {
        Self::from_dense(Dense::empty(), graph)
    }

    /// The one-by-one tensor that holds `value`, a new leaf of the graph.
    pub fn singleton<S: Scalar>(value: S, graph: &mut Graph<S>) -> (r: Tensor)
        ensures
            final(graph)@ == inserted(old(graph)@, Matrix::<S>::fill(1, 1, value)),
            r.gradient == old(graph)@.len(),
            r.name@ == Seq::<char>::empty(),
    {
        Self::from_dense(Dense::singleton(value), graph)
    }

    /// The tensor of `m` rows and `n` columns with `value` in every cell, a
    /// new leaf of the graph. If either number is zero there are no cells and
    /// the shape is `(0, 0)`.
    pub fn fill<S: Scalar>(m: usize, n: usize, value: S, graph: &mut Graph<S>) -> (r: Tensor)
        ensures
            final(graph)@ == inserted(
                old(graph)@,
                if m == 0 || n == 0 {
                    Matrix::<S>::fill(0, 0, value)
                } else {
                    Matrix::<S>::fill(m as nat, n as nat, value)
                },
            ),
            r.gradient == old(graph)@.len(),
            r.name@ == Seq::<char>::empty(),
    {
        Self::from_dense(Dense::fill(m, n, value), graph)
    }

    /// As [`Tensor::fill`], with zero in every cell.
    pub fn zeros<S: Scalar>(m: usize, n: usize, graph: &mut Graph<S>) -> (r: Tensor)
        ensures
            final(graph)@ == inserted(
                old(graph)@,
                if m == 0 || n == 0 {
                    Matrix::<S>::zeros(0, 0)
                } else {
                    Matrix::<S>::zeros(m as nat, n as nat)
                },
            ),
            r.gradient == old(graph)@.len(),
            r.name@ == Seq::<char>::empty(),
    {
        Self::from_dense(Dense::zeros(m, n), graph)
    }

    /// As [`Tensor::fill`], with one in every cell.
    pub fn ones<S: Scalar>(m: usize, n: usize, graph: &mut Graph<S>) -> (r: Tensor)
        ensures
            final(graph)@ == inserted(
                old(graph)@,
                if m == 0 || n == 0 {
                    Matrix::<S>::ones(0, 0)
                } else {
                    Matrix::<S>::ones(m as nat, n as nat)
                },
            ),
            r.gradient == old(graph)@.len(),
            r.name@ == Seq::<char>::empty(),
    {
        Self::from_dense(Dense::ones(m, n), graph)
    }

    /// The shape of this tensor: rows, then columns.
    pub fn size<S: Scalar>(&self, graph: &Graph<S>) -> (r: (usize, usize))
        requires
            held(graph@, self.gradient),
        ensures
            r.0 == graph.value_of(self).rows,
            r.1 == graph.value_of(self).cols,
    {
        graph.node(self.gradient).last.size()
    }

    /// The number of cells of this tensor.
    pub fn num_elements<S: Scalar>(&self, graph: &Graph<S>) -> (r: usize)
        requires
            held(graph@, self.gradient),
            graph.value_of(self).count() <= usize::MAX,
        ensures
            r == graph.value_of(self).count(),
    {
        graph.node(self.gradient).last.num_elements()
    }

    /// The only cell of a one-by-one tensor.
    pub fn item<S: Scalar>(&self, graph: &Graph<S>) -> (r: S)
        requires
            held(graph@, self.gradient),
            graph.value_of(self).rows == 1,
            graph.value_of(self).cols == 1,
        ensures
            r == graph.value_of(self).at(0, 0),
    {
        graph.node(self.gradient).last.item()
    }

    /// The cell in row `i`, column `j`.
    pub fn get<S: Scalar>(&self, i: usize, j: usize, graph: &Graph<S>) -> (r: S)
        requires
            held(graph@, self.gradient),
            i < graph.value_of(self).rows,
            j < graph.value_of(self).cols,
        ensures
            r == graph.value_of(self).at(i as int, j as int),
    {
        graph.node(self.gradient).last.get(i, j)
    }

    /// Row `i`.
    pub fn index<'a, S: Scalar>(&self, i: usize, graph: &'a Graph<S>) -> (r: &'a Vec<S>)
        requires
            held(graph@, self.gradient),
            i < graph.value_of(self).rows,
        ensures
            r@ == graph.value_of(self).cells[i as int],
    {
        graph.node(self.gradient).last.index(i)
    }

    /// Replaces the cell in row `i`, column `j` of this tensor by `value`.
    pub fn set<S: Scalar>(&self, i: usize, j: usize, value: S, graph: &mut Graph<S>)
        requires
            held(old(graph)@, self.gradient),
            i < old(graph).value_of(self).rows,
            j < old(graph).value_of(self).cols,
        ensures
            final(graph)@ == old(graph)@.update(
                self.gradient as int,
                old(graph)@[self.gradient as int].with_last(
                    (Matrix {
                        cells: old(graph).value_of(self).cells.update(
                            i as int,
                            old(graph).value_of(self).cells[i as int].update(j as int, value),
                        ),
                        ..old(graph).value_of(self)
                    }),
                ),
            ),
    {
        let mut cells = graph.node(self.gradient).last.clone();
        cells.set(i, j, value);
        graph.set_last(self.gradient, cells);
    }

    /// Adds `right` to the value of this tensor, cell by cell, in place.
    /// Nothing is recorded.
    pub fn add_assign<S: Scalar>(&self, right: &Dense<S>, graph: &mut Graph<S>)
        requires
            held(old(graph)@, self.gradient),
            old(graph).value_of(self).same_shape(right@),
        ensures
            final(graph)@ == old(graph)@.update(
                self.gradient as int,
                old(graph)@[self.gradient as int].with_last(old(graph).value_of(self).plus(right@)),
            ),
    {
        let sum = graph.node(self.gradient).last.plus(right);
        graph.set_last(self.gradient, sum);
    }

    /// Subtracts `right` from the value of this tensor, cell by cell, in
    /// place. Nothing is recorded.
    pub fn sub_assign<S: Scalar>(&self, right: &Dense<S>, graph: &mut Graph<S>)
        requires
            held(old(graph)@, self.gradient),
            old(graph).value_of(self).same_shape(right@),
        ensures
            final(graph)@ == old(graph)@.update(
                self.gradient as int,
                old(graph)@[self.gradient as int].with_last(old(graph).value_of(self).minus(right@)),
            ),
    {
        let difference = graph.node(self.gradient).last.minus(right);
        graph.set_last(self.gradient, difference);
    }

    /// The transpose of this tensor, a new leaf of the graph.
    pub fn transpose<S: Scalar>(&self, graph: &mut Graph<S>) -> (r: Tensor)
        requires
            held(old(graph)@, self.gradient),
        ensures
            final(graph)@ == inserted(old(graph)@, old(graph).value_of(self).transposed()),
            r.gradient == old(graph)@.len(),
            r.name@ == Seq::<char>::empty(),
    {
        let value = graph.node(self.gradient).last.transpose();
        Self::from_dense(value, graph)
    }

    /// The tensor of the same shape whose cell at `(i, j)` is what
    /// `fun(i, j, value)` returns for the value of this tensor, a new leaf of
    /// the graph.
    pub fn apply<S: Scalar, F: Fn(usize, usize, &Dense<S>) -> S>(
        &self,
        fun: F,
        graph: &mut Graph<S>,
    ) -> (r: Tensor)
        requires
            held(old(graph)@, self.gradient),
            forall|i: usize, j: usize|
                i < old(graph).value_of(self).rows && j < old(graph).value_of(self).cols
                    ==> call_requires(fun, (i, j, &old(graph).cells_of(self.gradient))),
        ensures
            final(graph)@.len() == old(graph)@.len() + 1,
            final(graph)@.drop_last() == old(graph)@,
            final(graph)@.last().operation == crate::operations::GradientOperation::Leaf,
            final(graph)@.last().value is None,
            final(graph)@.last().last.wf(),
            final(graph)@.last().last.same_shape(old(graph).value_of(self)),
            forall|i: int, j: int|
                0 <= i < old(graph).value_of(self).rows && 0 <= j < old(graph).value_of(self).cols
                    ==> call_ensures(
                    fun,
                    (i as usize, j as usize, &old(graph).cells_of(self.gradient)),
                    #[trigger] final(graph)@.last().last.at(i, j),
                ),
            r.gradient == old(graph)@.len(),
            r.name@ == Seq::<char>::empty(),
    {
        let ghost before = graph@;
        let value = graph.cells(self.gradient).apply(fun);
        let r = Self::from_dense(value, graph);
        proof {
            assert(graph@.drop_last() =~= before);
        }
        r
    }

    /// The rows of `x` appended under the rows of this tensor, a new leaf of
    /// the graph.
    pub fn concat<S: Scalar>(&self, x: &Tensor, graph: &mut Graph<S>) -> (r: Tensor)
        requires
            held(old(graph)@, self.gradient),
            held(old(graph)@, x.gradient),
            old(graph).value_of(self).cols == old(graph).value_of(x).cols,
            old(graph).value_of(self).rows + old(graph).value_of(x).rows <= usize::MAX,
        ensures
            final(graph)@ == inserted(
                old(graph)@,
                old(graph).value_of(self).stacked(old(graph).value_of(x)),
            ),
            r.gradient == old(graph)@.len(),
            r.name@ == Seq::<char>::empty(),
    {
        let value = graph.node(self.gradient).last.concat(&graph.node(x.gradient).last);
        Self::from_dense(value, graph)
    }

    /// Compares the values of two tensors: shape first, then cell by cell.
    /// Names and places in the graph play no part.
    pub fn equals<S: Scalar>(&self, other: &Tensor, graph: &Graph<S>) -> (r: bool)
        requires
            held(graph@, self.gradient),
            held(graph@, other.gradient),
        ensures
            r == graph.value_of(self).equals(graph.value_of(other)),
    {
        graph.node(self.gradient).last.equals(&graph.node(other.gradient).last)
    }

    /// The value of this tensor as text: `[[1 2] [3 4]]` for two rows and two
    /// columns.
    pub fn to_string<S: Scalar>(&self, graph: &Graph<S>) -> (r: String)
        requires
            held(graph@, self.gradient),
        ensures
            r@ == graph.value_of(self).text(),
    {
        graph.node(self.gradient).last.to_string()
    }
}

impl Clone for Tensor {
    /// The copy has the same name and names the same node.
    fn clone(&self) -> (r: Self)
        ensures
            r == *self,
    {
        Tensor { name: self.name.clone(), gradient: self.gradient }
    }
}

} // verus!
