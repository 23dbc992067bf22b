//! The computation graph and the differentiable operations that extend it.
//!
//! A [`Graph`] is an arena of [`Gradient`] records. Each record holds the
//! value of one tensor, the gradient accumulated for it so far, and the
//! operation that produced it, whose operands are named by their index in
//! the arena. A record only ever refers to records that were there before
//! it, so the arena is a directed acyclic graph in construction order, and
//! one node may be the operand of many later ones. Nodes are never removed
//! or moved: an index names the same node for as long as the graph lives.
//!
//! A [`Tensor`] is the index of its record. Every tensor gets its node when
//! it is made, and every copy of a tensor names the same node.

use vstd::prelude::*;
use vstd::string::*;
use crate::backward::{propagate, propagated};
use crate::dense::Dense;
use crate::matrix::Matrix;
use crate::scalar::{decimal_text, signed_decimal, Scalar};
use crate::tensor::Tensor;

verus! {

/// The operation that produced a node, with the indices of its operands.
#[derive(Clone, Copy, Debug, PartialEq, Eq, Structural)]
pub enum GradientOperation {
    /// No operation: the node is a parameter or an input.
    Leaf,
    /// The negation of a node.
    Neg(usize),
    /// The rectifier applied to a node.
    ReLU(usize),
    /// A node raised to an integer power.
    Pow(usize, i32),
    /// The mean of all cells of a node.
    Mean(usize),
    /// The sum of two nodes.
    Add(usize, usize),
    /// The difference of two nodes.
    Sub(usize, usize),
    /// The matrix product of two nodes.
    Mul(usize, usize),
}

/// The nodes that an operation takes its operands from.
#[derive(Clone, Copy, Debug, PartialEq, Eq, Structural)]
pub enum Parents {
    /// No operand: the node is a leaf.
    Leaf,
    /// One operand.
    Unary(usize),
    /// Two operands, first and second.
    Binary(usize, usize),
}

impl GradientOperation {
    /// The operands of this operation.
    pub open spec fn parents_spec(self) -> Parents {
        match (self.first(), self.second()) {
            (Some(a), Some(b)) => Parents::Binary(a, b),
            (Some(a), None) => Parents::Unary(a),
            _ => Parents::Leaf,
        }
    }

    /// The operands of this operation.
    #[verifier::when_used_as_spec(parents_spec)]
    pub fn parents(self) -> (r: Parents)
        ensures
            r == self.parents(),
    {
        match self {
            GradientOperation::Leaf => Parents::Leaf,
            GradientOperation::Neg(a) => Parents::Unary(a),
            GradientOperation::ReLU(a) => Parents::Unary(a),
            GradientOperation::Pow(a, _) => Parents::Unary(a),
            GradientOperation::Mean(a) => Parents::Unary(a),
            GradientOperation::Add(a, b) => Parents::Binary(a, b),
            GradientOperation::Sub(a, b) => Parents::Binary(a, b),
            GradientOperation::Mul(a, b) => Parents::Binary(a, b),
        }
    }

    /// The first operand, if there is one.
    pub open spec fn first(self) -> Option<usize> {
        match self {
            GradientOperation::Leaf => None,
            GradientOperation::Neg(a) => Some(a),
            GradientOperation::ReLU(a) => Some(a),
            GradientOperation::Pow(a, _) => Some(a),
            GradientOperation::Mean(a) => Some(a),
            GradientOperation::Add(a, _) => Some(a),
            GradientOperation::Sub(a, _) => Some(a),
            GradientOperation::Mul(a, _) => Some(a),
        }
    }

    /// The second operand, if there is one.
    pub open spec fn second(self) -> Option<usize> {
        match self {
            GradientOperation::Add(_, b) => Some(b),
            GradientOperation::Sub(_, b) => Some(b),
            GradientOperation::Mul(_, b) => Some(b),
            _ => None,
        }
    }

    /// Node `p` is an operand.
    pub open spec fn has_operand(self, p: int) -> bool {
        ||| (self.first() is Some && self.first().unwrap() == p)
        ||| (self.second() is Some && self.second().unwrap() == p)
    }
}

/// A node of the graph.
#[derive(Debug)]
pub struct Gradient<S: Scalar> {
    /// The operation that produced the node.
    pub operation: GradientOperation,
    /// The current value of the node.
    pub last: Dense<S>,
    /// The gradient accumulated so far; `None` while gradients are not
    /// enabled for the node.
    pub value: Option<Dense<S>>,
}

/// The mathematical content of a node.
#[verifier::ext_equal]
pub struct GradientView<S> {
    pub operation: GradientOperation,
    pub last: Matrix<S>,
    pub value: Option<Matrix<S>>,
}

impl<S: Scalar> View for Gradient<S> {
    type V = GradientView<S>;

    open spec fn view(&self) -> GradientView<S> {
        GradientView {
            operation: self.operation,
            last: self.last@,
            value: match self.value {
                Some(g) => Some(g@),
                None => None,
            },
        }
    }
}

impl<S: Scalar> Default for Gradient<S> {
    /// A leaf without gradient that holds the one-by-one grid of zero.
    fn default() -> (r: Self)
        ensures
            r@ == GradientView::leaf(Matrix::<S>::zeros(1, 1)),
    {
        Gradient { operation: GradientOperation::Leaf, last: Dense::default(), value: None }
    }
}

impl<S: Scalar> GradientView<S> {
    /// A leaf without gradient that holds `value`.
    pub open spec fn leaf(value: Matrix<S>) -> Self {
        GradientView { operation: GradientOperation::Leaf, last: value, value: None }
    }

    /// The same node with another gradient.
    pub open spec fn with_value(self, value: Option<Matrix<S>>) -> Self {
        GradientView { value, ..self }
    }

    /// The same node with another value.
    pub open spec fn with_last(self, last: Matrix<S>) -> Self {
        GradientView { last, ..self }
    }

    /// The same node with zeros of the shape of its value for a gradient.
    pub open spec fn with_zeros(self) -> Self {
        self.with_value(Some(Matrix::<S>::zeros(self.last.rows, self.last.cols)))
    }
}

/// The content of a list of nodes.
pub open spec fn nodes_view<S: Scalar>(nodes: Vec<Gradient<S>>) -> Seq<GradientView<S>> {
    Seq::new(nodes.len() as nat, |i: int| nodes[i]@)
}

/// Node `i` is consistent with the nodes before it: its value is a
/// well-formed grid, its gradient has the shape of its value, its operands
/// come before it, and their shapes are those that its operation needs.
pub open spec fn node_wf<S: Scalar>(nodes: Seq<GradientView<S>>, i: int) -> bool {
    let node = nodes[i];
    &&& node.last.wf()
    &&& match node.value {
        Some(g) => g.wf() && g.same_shape(node.last),
        None => true,
    }
    &&& match node.operation {
        GradientOperation::Leaf => true,
        GradientOperation::Neg(a) => a < i && nodes[a as int].last.same_shape(node.last),
        GradientOperation::ReLU(a) => a < i && nodes[a as int].last.same_shape(node.last),
        GradientOperation::Pow(a, exp) => {
            &&& a < i
            &&& nodes[a as int].last.same_shape(node.last)
            &&& exp > i32::MIN
        },
        GradientOperation::Mean(a) => {
            &&& a < i
            &&& node.last.rows == 1
            &&& node.last.cols == 1
            &&& nodes[a as int].last.count() <= usize::MAX
        },
        GradientOperation::Add(a, b) => {
            &&& a < i
            &&& b < i
            &&& nodes[a as int].last.same_shape(node.last)
            &&& nodes[b as int].last.same_shape(node.last)
        },
        GradientOperation::Sub(a, b) => {
            &&& a < i
            &&& b < i
            &&& nodes[a as int].last.same_shape(node.last)
            &&& nodes[b as int].last.same_shape(node.last)
        },
        GradientOperation::Mul(a, b) => {
            &&& a < i
            &&& b < i
            &&& nodes[a as int].last.cols == nodes[b as int].last.rows
            &&& node.last.rows == nodes[a as int].last.rows
            &&& node.last.cols == nodes[b as int].last.cols
        },
    }
}

/// Every node is consistent with the nodes before it.
pub open spec fn graph_wf<S: Scalar>(nodes: Seq<GradientView<S>>) -> bool {
    forall|i: int| 0 <= i < nodes.len() ==> #[trigger] node_wf(nodes, i)
}

/// The index names a node of the list.
pub open spec fn held<S: Scalar>(nodes: Seq<GradientView<S>>, id: usize) -> bool {
    id < nodes.len()
}

/// The index names a node of the list that has a gradient.
pub open spec fn watched<S: Scalar>(nodes: Seq<GradientView<S>>, id: usize) -> bool {
    held(nodes, id) && nodes[id as int].value is Some
}

/// The list with one more node: a leaf without gradient that holds `value`.
pub open spec fn inserted<S: Scalar>(nodes: Seq<GradientView<S>>, value: Matrix<S>) -> Seq<
    GradientView<S>,
> {
    nodes.push(GradientView::leaf(value))
}

/// The list with one more node: the result `last` of `operation`, with a
/// gradient of zeros.
pub open spec fn recorded<S: Scalar>(
    nodes: Seq<GradientView<S>>,
    operation: GradientOperation,
    last: Matrix<S>,
) -> Seq<GradientView<S>> {
    nodes.push(
        GradientView { operation, last, value: Some(Matrix::<S>::zeros(last.rows, last.cols)) },
    )
}

/// The list after gradients were enabled for node `id`: a node that has a
/// gradient keeps it, one that has none gets zeros.
pub open spec fn enabled<S: Scalar>(nodes: Seq<GradientView<S>>, id: usize) -> Seq<
    GradientView<S>,
> {
    if nodes[id as int].value is Some {
        nodes
    } else {
        nodes.update(id as int, nodes[id as int].with_zeros())
    }
}

/// The name under which a tensor appears in the names of results: its own
/// name, or the text of its value if it has none.
pub open spec fn format_name<S: Scalar>(
    nodes: Seq<GradientView<S>>,
    handle: usize,
    label: Seq<char>,
) -> Seq<char> {
    if label.len() == 0 {
        nodes[handle as int].last.text()
    } else {
        label
    }
}

/// The name of the result of an operation on one tensor: `(op a)`.
pub open spec fn unary_label(operation: Seq<char>, name: Seq<char>) -> Seq<char> {
    "("@ + operation + " "@ + name + ")"@
}

/// The name of the result of an operation on two tensors: `(a op b)`.
pub open spec fn binary_label(left: Seq<char>, operation: Seq<char>, right: Seq<char>) -> Seq<
    char,
> {
    "("@ + left + " "@ + operation + " "@ + right + ")"@
}

/// The name of a power: `(a^exp)`.
pub open spec fn power_label(name: Seq<char>, exp: i32) -> Seq<char> {
    "("@ + name + "^"@ + signed_decimal(exp as int) + ")"@
}

/// An arena of nodes in construction order.
pub struct Graph<S: Scalar> {
    nodes: Vec<Gradient<S>>,
}

impl<S: Scalar> View for Graph<S> {
    type V = Seq<GradientView<S>>;

    closed spec fn view(&self) -> Seq<GradientView<S>> {
        nodes_view(self.nodes)
    }
}

/// Appends a node to a list of nodes.
fn push_node<S: Scalar>(nodes: &mut Vec<Gradient<S>>, node: Gradient<S>)
    requires
        graph_wf(nodes_view(*old(nodes))),
        node_wf(nodes_view(*old(nodes)).push(node@), old(nodes).len() as int),
    ensures
        nodes_view(*final(nodes)) == nodes_view(*old(nodes)).push(node@),
        final(nodes).len() == old(nodes).len() + 1,
        graph_wf(nodes_view(*final(nodes))),
{
    let ghost before = nodes_view(*nodes);
    nodes.push(node);
    proof {
        let after = nodes_view(*nodes);
        assert(after =~= before.push(node@));
        assert forall|i: int| 0 <= i < after.len() implies #[trigger] node_wf(after, i) by {
            if i < before.len() {
                assert(node_wf(before, i));
            }
        }
    }
}

/// Appends the result of an operation to a list of nodes, with a gradient
/// of zeros, and returns its index.
fn record<S: Scalar>(nodes: &mut Vec<Gradient<S>>, operation: GradientOperation, result: Dense<S>) -> (id:
    usize)
    requires
        graph_wf(nodes_view(*old(nodes))),
        node_wf(
            recorded(nodes_view(*old(nodes)), operation, result@),
            old(nodes).len() as int,
        ),
    ensures
        nodes_view(*final(nodes)) == recorded(nodes_view(*old(nodes)), operation, result@),
        graph_wf(nodes_view(*final(nodes))),
        id == old(nodes).len(),
{
    let id = nodes.len();
    let (m, n) = result.size();
    let node = Gradient { operation, last: result, value: Some(Dense::filled(m, n, S::from_int(0))) };
    push_node(nodes, node);
    id
}

/// Replaces the gradient of node `id`.
fn put_value<S: Scalar>(nodes: &mut Vec<Gradient<S>>, id: usize, value: Option<Dense<S>>)
    requires
        graph_wf(nodes_view(*old(nodes))),
        id < old(nodes).len(),
        value is Some ==> value.unwrap()@.same_shape(nodes_view(*old(nodes))[id as int].last),
    ensures
        nodes_view(*final(nodes)) == nodes_view(*old(nodes)).update(
            id as int,
            nodes_view(*old(nodes))[id as int].with_value(
                match value {
                    Some(g) => Some(g@),
                    None => None,
                },
            ),
        ),
        final(nodes).len() == old(nodes).len(),
        graph_wf(nodes_view(*final(nodes))),
{
    let ghost before = nodes_view(*nodes);
    if value.is_some() {
        value.as_ref().unwrap().well_formed();
    }
    nodes[id].value = value;
    proof {
        let after = nodes_view(*nodes);
        assert(after =~= before.update(id as int, after[id as int]));
        assert(after[id as int] == before[id as int].with_value(after[id as int].value));
        assert forall|i: int| 0 <= i < after.len() implies #[trigger] node_wf(after, i) by {
            assert(node_wf(before, i));
        }
    }
}

/// Replaces the value of node `id` by one of the same shape.
fn put_last<S: Scalar>(nodes: &mut Vec<Gradient<S>>, id: usize, last: Dense<S>)
    requires
        graph_wf(nodes_view(*old(nodes))),
        id < old(nodes).len(),
        last@.same_shape(nodes_view(*old(nodes))[id as int].last),
    ensures
        nodes_view(*final(nodes)) == nodes_view(*old(nodes)).update(
            id as int,
            nodes_view(*old(nodes))[id as int].with_last(last@),
        ),
        final(nodes).len() == old(nodes).len(),
        graph_wf(nodes_view(*final(nodes))),
{
    let ghost before = nodes_view(*nodes);
    last.well_formed();
    nodes[id].last = last;
    proof {
        let after = nodes_view(*nodes);
        assert(after =~= before.update(id as int, after[id as int]));
        assert(after[id as int] == before[id as int].with_last(last@));
        assert forall|i: int| 0 <= i < after.len() implies #[trigger] node_wf(after, i) by {
            assert(node_wf(before, i));
        }
    }
}

impl<S: Scalar> Graph<S> {
    #[verifier::type_invariant]
    spec fn inv(self) -> bool {
        graph_wf(nodes_view(self.nodes))
    }

    /// The index of `tensor` names a node of this graph.
    pub open spec fn holds_spec(&self, tensor: &Tensor) -> bool {
        held(self@, tensor.gradient)
    }

    /// The index of `tensor` names a node of this graph that has a gradient.
    pub open spec fn tracks_spec(&self, tensor: &Tensor) -> bool {
        watched(self@, tensor.gradient)
    }

    /// The value of `tensor` in this graph.
    pub open spec fn value_of(&self, tensor: &Tensor) -> Matrix<S> {
        self@[tensor.gradient as int].last
    }

    /// The grid in which node `id` holds its value.
    pub closed spec fn cells_of(&self, id: usize) -> Dense<S> {
        self.nodes[id as int].last
    }

    /// The grid in which a node holds its value is the value of the node.
    pub proof fn lemma_cells_are_value(&self, id: usize)
        requires
            held(self@, id),
        ensures
            self.cells_of(id)@ == self@[id as int].last,
    {
    }

    /// The graph without nodes.
    pub fn new() -> (r: Graph<S>)
        ensures
            r@ == Seq::<GradientView<S>>::empty(),
    {
        let r = Graph { nodes: Vec::new() };
        assert(r@ =~= Seq::empty());
        r
    }

    /// The number of nodes.
    pub fn len(&self) -> (r: usize)
        ensures
            r == self@.len(),
            graph_wf(self@),
    {
        proof {
            use_type_invariant(self);
        }
        self.nodes.len()
    }

    /// Every node of a graph is consistent with the nodes before it. Calling
    /// this costs nothing at run time; it hands the fact to a proof.
    pub fn well_formed(&self)
        ensures
            graph_wf(self@),
            self@.len() <= usize::MAX,
    {
        proof {
            use_type_invariant(self);
        }
        assert(self@.len() == self.nodes.len());
    }

    /// Tests whether the index of `tensor` names a node of this graph.
    #[verifier::when_used_as_spec(holds_spec)]
    pub fn holds(&self, tensor: &Tensor) -> (r: bool)
        ensures
            r == self.holds(tensor),
    {
        tensor.gradient < self.nodes.len()
    }

    /// Tests whether the index of `tensor` names a node of this graph that
    /// has a gradient.
    #[verifier::when_used_as_spec(tracks_spec)]
    pub fn tracks(&self, tensor: &Tensor) -> (r: bool)
        ensures
            r == self.tracks(tensor),
    {
        tensor.gradient < self.nodes.len() && self.nodes[tensor.gradient].value.is_some()
    }

    /// The node with index `id`.
    pub fn node(&self, id: usize) -> (r: &Gradient<S>)
        requires
            id < self@.len(),
        ensures
            r@ == self@[id as int],
    {
        &self.nodes[id]
    }

    /// The grid in which node `id` holds its value.
    pub fn cells(&self, id: usize) -> (r: &Dense<S>)
        requires
            id < self@.len(),
        ensures
            *r == self.cells_of(id),
            r@ == self@[id as int].last,
    {
        &self.nodes[id].last
    }

    /// Takes the nodes out and leaves the graph empty.
    fn take_nodes(&mut self) -> (nodes: Vec<Gradient<S>>)
        ensures
            nodes_view(nodes) == old(self)@,
            graph_wf(nodes_view(nodes)),
    {
        let mut taken = Graph { nodes: Vec::new() };
        core::mem::swap(self, &mut taken);
        proof {
            use_type_invariant(&taken);
        }
        taken.nodes
    }

    /// Appends a leaf without gradient that holds `value`, and returns its
    /// index.
    pub fn insert(&mut self, value: Dense<S>) -> (id: usize)
        ensures
            final(self)@ == inserted(old(self)@, value@),
            id == old(self)@.len(),
    {
        let mut nodes = self.take_nodes();
        let id = nodes.len();
        value.well_formed();
        push_node(&mut nodes, Gradient { operation: GradientOperation::Leaf, last: value, value: None });
        *self = Graph { nodes };
        id
    }

    /// Appends the result of an operation, with a gradient of zeros, and
    /// returns its index.
    fn record(&mut self, operation: GradientOperation, result: Dense<S>) -> (id: usize)
        requires
            node_wf(recorded(old(self)@, operation, result@), old(self)@.len() as int),
        ensures
            final(self)@ == recorded(old(self)@, operation, result@),
            id == old(self)@.len(),
    {
        let mut nodes = self.take_nodes();
        let id = record(&mut nodes, operation, result);
        *self = Graph { nodes };
        id
    }

    /// Replaces the gradient of node `id`.
    pub fn set_value(&mut self, id: usize, grad: Dense<S>)
        requires
            id < old(self)@.len(),
            grad@.same_shape(old(self)@[id as int].last),
        ensures
            final(self)@ == old(self)@.update(
                id as int,
                old(self)@[id as int].with_value(Some(grad@)),
            ),
    {
        let mut nodes = self.take_nodes();
        put_value(&mut nodes, id, Some(grad));
        *self = Graph { nodes };
    }

    /// Replaces the value of node `id` by one of the same shape.
    pub fn set_last(&mut self, id: usize, value: Dense<S>)
        requires
            id < old(self)@.len(),
            value@.same_shape(old(self)@[id as int].last),
        ensures
            final(self)@ == old(self)@.update(id as int, old(self)@[id as int].with_last(value@)),
    {
        let mut nodes = self.take_nodes();
        put_last(&mut nodes, id, value);
        *self = Graph { nodes };
    }

    /// Runs the backward pass from node `id`.
    pub fn propagate(&mut self, id: usize)
        requires
            id < old(self)@.len(),
        ensures
            final(self)@ == propagated(old(self)@, id as int),
            final(self)@.len() == old(self)@.len(),
    {
        let mut nodes = self.take_nodes();
        propagate(&mut nodes, id);
        *self = Graph { nodes };
    }
}

/// The name under which a tensor appears in the names of results.
fn name_of<S: Scalar>(tensor: &Tensor, graph: &Graph<S>) -> (r: String)
    requires
        held(graph@, tensor.gradient),
    ensures
        r@ == format_name(graph@, tensor.gradient, tensor.name@),
{
    if tensor.name.as_str().is_empty() {
        graph.cells(tensor.gradient).to_string()
    } else {
        tensor.name.clone()
    }
}

/// Builds the name `(op a)`.
fn unary_name(operation: &str, name: &String) -> (r: String)
    ensures
        r@ == unary_label(operation@, name@),
{
    let mut r = String::from_str("(");
    r.append(operation);
    r.append(" ");
    r.append(name.as_str());
    r.append(")");
    r
}

/// Builds the name `(a op b)`.
fn binary_name(left: &String, operation: &str, right: &String) -> (r: String)
    ensures
        r@ == binary_label(left@, operation@, right@),
{
    let mut r = String::from_str("(");
    r.append(left.as_str());
    r.append(" ");
    r.append(operation);
    r.append(" ");
    r.append(right.as_str());
    r.append(")");
    r
}

/// Builds the name `(a^exp)`.
fn power_name(name: &String, exp: i32) -> (r: String)
    ensures
        r@ == power_label(name@, exp),
{
    let mut r = String::from_str("(");
    r.append(name.as_str());
    r.append("^");
    r.append(decimal_text(exp as i64).as_str());
    r.append(")");
    r
}

/// What a tensor can do in a computation graph.
pub trait Differentiable<S: Scalar>: Sized {
    /// The index of the graph node that stands for this tensor.
    spec fn handle(&self) -> usize;

    /// The name of this tensor; empty if it has none.
    spec fn label(&self) -> Seq<char>;

    /// The gradient accumulated for this tensor.
    fn grad(&self, graph: &Graph<S>) -> (r: Dense<S>)
        requires
            watched(graph@, self.handle()),
        ensures
            r@ == graph@[self.handle() as int].value.unwrap(),
    ;

    /// Enables gradients for the node of this tensor, and so for every copy
    /// of it: a node without gradient gets zeros of the shape of its value.
    /// A node that has a gradient keeps it, and the graph stays as it is.
    fn with_grad(self, graph: &mut Graph<S>) -> (r: Self)
        requires
            held(old(graph)@, self.handle()),
        ensures
            final(graph)@ == enabled(old(graph)@, self.handle()),
            r == self,
    ;

    /// Replaces the gradient of this tensor's node.
    fn set_grad(&self, graph: &mut Graph<S>, grad: Dense<S>)
        requires
            held(old(graph)@, self.handle()),
            grad@.same_shape(old(graph)@[self.handle() as int].last),
        ensures
            final(graph)@ == old(graph)@.update(
                self.handle() as int,
                old(graph)@[self.handle() as int].with_value(Some(grad@)),
            ),
    ;

    /// Sets the gradient of this tensor's node to zeros.
    fn reset_grad(&self, graph: &mut Graph<S>)
        requires
            held(old(graph)@, self.handle()),
        ensures
            final(graph)@ == old(graph)@.update(
                self.handle() as int,
                old(graph)@[self.handle() as int].with_zeros(),
            ),
    ;

    /// Adds `grad` to the gradient of this tensor's node. A node without
    /// gradient stays as it is.
    fn add_grad(&self, graph: &mut Graph<S>, grad: Dense<S>)
        requires
            held(old(graph)@, self.handle()),
            watched(old(graph)@, self.handle()) ==> grad@.same_shape(
                old(graph)@[self.handle() as int].last,
            ),
        ensures
            final(graph)@ == (if watched(old(graph)@, self.handle()) {
                old(graph)@.update(
                    self.handle() as int,
                    old(graph)@[self.handle() as int].with_value(
                        Some(old(graph)@[self.handle() as int].value.unwrap().plus(grad@)),
                    ),
                )
            } else {
                old(graph)@
            }),
    ;

    /// The current value of this tensor's node.
    fn last(&self, graph: &Graph<S>) -> (r: Dense<S>)
        requires
            watched(graph@, self.handle()),
        ensures
            r@ == graph@[self.handle() as int].last,
    ;

    /// Replaces the value of this tensor by one of the same shape.
    fn set_last(&self, graph: &mut Graph<S>, value: Dense<S>)
        requires
            held(old(graph)@, self.handle()),
            value@.same_shape(old(graph)@[self.handle() as int].last),
        ensures
            final(graph)@ == old(graph)@.update(
                self.handle() as int,
                old(graph)@[self.handle() as int].with_last(value@),
            ),
    ;

    /// Runs the backward pass from this tensor's node, which must have a
    /// gradient: every node on which it depends adds to its gradient what
    /// the chain rule gives it. Values and operations stay as they are.
    fn backward(&self, graph: &mut Graph<S>)
        requires
            watched(old(graph)@, self.handle()),
        ensures
            final(graph)@ == propagated(old(graph)@, self.handle() as int),
            final(graph)@.len() == old(graph)@.len(),
    ;

    /// Records the rectifier of this tensor: every cell below zero becomes
    /// zero.
    fn relu(&self, graph: &mut Graph<S>) -> (r: Tensor)
        requires
            held(old(graph)@, self.handle()),
        ensures
            final(graph)@ == recorded(
                old(graph)@,
                GradientOperation::ReLU(self.handle()),
                old(graph)@[self.handle() as int].last.rectified(),
            ),
            r.gradient == old(graph)@.len(),
            r.name@ == unary_label("ReLU"@, format_name(old(graph)@, self.handle(), self.label())),
    ;

    /// Records the mean of all cells of this tensor, a one-by-one tensor.
    fn mean(&self, graph: &mut Graph<S>) -> (r: Tensor)
        requires
            held(old(graph)@, self.handle()),
            old(graph)@[self.handle() as int].last.count() <= usize::MAX,
        ensures
            final(graph)@ == recorded(
                old(graph)@,
                GradientOperation::Mean(self.handle()),
                old(graph)@[self.handle() as int].last.averaged(),
            ),
            r.gradient == old(graph)@.len(),
            r.name@ == unary_label("Mean"@, format_name(old(graph)@, self.handle(), self.label())),
    ;

    /// Records this tensor with every cell raised to the power `exp`.
    fn pow(&self, exp: i32, graph: &mut Graph<S>) -> (r: Tensor)
        requires
            held(old(graph)@, self.handle()),
            exp > i32::MIN,
        ensures
            final(graph)@ == recorded(
                old(graph)@,
                GradientOperation::Pow(self.handle(), exp),
                old(graph)@[self.handle() as int].last.powered(exp),
            ),
            r.gradient == old(graph)@.len(),
            r.name@ == power_label(format_name(old(graph)@, self.handle(), self.label()), exp),
    ;
}

impl<S: Scalar> Differentiable<S> for Tensor {
    open spec fn handle(&self) -> usize {
        self.gradient
    }

    open spec fn label(&self) -> Seq<char> {
        self.name@
    }

    fn grad(&self, graph: &Graph<S>) -> (r: Dense<S>) {
        graph.nodes[self.gradient].value.as_ref().unwrap().clone()
    }

    fn with_grad(self, graph: &mut Graph<S>) -> (r: Self) {
        if graph.nodes[self.gradient].value.is_none() {
            let mut nodes = graph.take_nodes();
            let (m, n) = nodes[self.gradient].last.size();
            put_value(&mut nodes, self.gradient, Some(Dense::filled(m, n, S::from_int(0))));
            *graph = Graph { nodes };
        }
        self
    }

    fn set_grad(&self, graph: &mut Graph<S>, grad: Dense<S>) {
        graph.set_value(self.gradient, grad);
    }

    fn reset_grad(&self, graph: &mut Graph<S>) {
        let (m, n) = graph.nodes[self.gradient].last.size();
        graph.set_value(self.gradient, Dense::filled(m, n, S::from_int(0)));
    }

    fn add_grad(&self, graph: &mut Graph<S>, grad: Dense<S>) {
        if graph.tracks(self) {
            graph.well_formed();
            assert(node_wf(graph@, self.gradient as int));
            let sum = graph.nodes[self.gradient].value.as_ref().unwrap().plus(&grad);
            graph.set_value(self.gradient, sum);
        }
    }

    fn last(&self, graph: &Graph<S>) -> (r: Dense<S>) {
        graph.nodes[self.gradient].last.clone()
    }

    fn set_last(&self, graph: &mut Graph<S>, value: Dense<S>) {
        graph.set_last(self.gradient, value);
    }

    fn backward(&self, graph: &mut Graph<S>) {
        graph.propagate(self.gradient);
    }

    fn relu(&self, graph: &mut Graph<S>) -> (r: Tensor) {
        graph.well_formed();
        let name = unary_name("ReLU", &name_of(self, graph));
        let value = graph.nodes[self.gradient].last.rectified();
        let id = graph.record(GradientOperation::ReLU(self.gradient), value);
        Tensor { name, gradient: id }
    }

    fn mean(&self, graph: &mut Graph<S>) -> (r: Tensor) {
        graph.well_formed();
        let name = unary_name("Mean", &name_of(self, graph));
        let value = graph.nodes[self.gradient].last.averaged();
        let id = graph.record(GradientOperation::Mean(self.gradient), value);
        Tensor { name, gradient: id }
    }

    fn pow(&self, exp: i32, graph: &mut Graph<S>) -> (r: Tensor) {
        graph.well_formed();
        let name = power_name(&name_of(self, graph), exp);
        let value = graph.nodes[self.gradient].last.powered(exp);
        let id = graph.record(GradientOperation::Pow(self.gradient, exp), value);
        Tensor { name, gradient: id }
    }
}

impl Tensor {
    /// Records the negation of this tensor.
    pub fn neg<S: Scalar>(&self, graph: &mut Graph<S>) -> (r: Tensor)
        requires
            held(old(graph)@, self.gradient),
        ensures
            final(graph)@ == recorded(
                old(graph)@,
                GradientOperation::Neg(self.gradient),
                old(graph)@[self.gradient as int].last.negated(),
            ),
            r.gradient == old(graph)@.len(),
            r.name@ == unary_label("-"@, format_name(old(graph)@, self.gradient, self.name@)),
    {
        graph.well_formed();
        let name = unary_name("-", &name_of(self, graph));
        let value = graph.nodes[self.gradient].last.negated();
        let id = graph.record(GradientOperation::Neg(self.gradient), value);
        Tensor { name, gradient: id }
    }

    /// Records the cell-by-cell sum of this tensor and `right`, which must
    /// have the same shape.
    pub fn add<S: Scalar>(&self, right: &Tensor, graph: &mut Graph<S>) -> (r: Tensor)
        requires
            held(old(graph)@, self.gradient),
            held(old(graph)@, right.gradient),
            old(graph)@[self.gradient as int].last.same_shape(
                old(graph)@[right.gradient as int].last,
            ),
        ensures
            final(graph)@ == recorded(
                old(graph)@,
                GradientOperation::Add(self.gradient, right.gradient),
                old(graph)@[self.gradient as int].last.plus(old(graph)@[right.gradient as int].last),
            ),
            r.gradient == old(graph)@.len(),
            r.name@ == binary_label(
                format_name(old(graph)@, self.gradient, self.name@),
                "+"@,
                format_name(old(graph)@, right.gradient, right.name@),
            ),
    {
        graph.well_formed();
        let name = binary_name(&name_of(self, graph), "+", &name_of(right, graph));
        let value = graph.nodes[self.gradient].last.plus(&graph.nodes[right.gradient].last);
        let id = graph.record(GradientOperation::Add(self.gradient, right.gradient), value);
        Tensor { name, gradient: id }
    }

    /// Records the cell-by-cell difference of this tensor and `right`, which
    /// must have the same shape.
    pub fn sub<S: Scalar>(&self, right: &Tensor, graph: &mut Graph<S>) -> (r: Tensor)
        requires
            held(old(graph)@, self.gradient),
            held(old(graph)@, right.gradient),
            old(graph)@[self.gradient as int].last.same_shape(
                old(graph)@[right.gradient as int].last,
            ),
        ensures
            final(graph)@ == recorded(
                old(graph)@,
                GradientOperation::Sub(self.gradient, right.gradient),
                old(graph)@[self.gradient as int].last.minus(old(graph)@[right.gradient as int].last),
            ),
            r.gradient == old(graph)@.len(),
            r.name@ == binary_label(
                format_name(old(graph)@, self.gradient, self.name@),
                "-"@,
                format_name(old(graph)@, right.gradient, right.name@),
            ),
    {
        graph.well_formed();
        let name = binary_name(&name_of(self, graph), "-", &name_of(right, graph));
        let value = graph.nodes[self.gradient].last.minus(&graph.nodes[right.gradient].last);
        let id = graph.record(GradientOperation::Sub(self.gradient, right.gradient), value);
        Tensor { name, gradient: id }
    }

    /// Records the matrix product of this tensor and `right`: this tensor
    /// must have as many columns as `right` has rows.
    pub fn mul<S: Scalar>(&self, right: &Tensor, graph: &mut Graph<S>) -> (r: Tensor)
        requires
            held(old(graph)@, self.gradient),
            held(old(graph)@, right.gradient),
            old(graph)@[self.gradient as int].last.cols == old(graph)@[right.gradient as int].last.rows,
        ensures
            final(graph)@ == recorded(
                old(graph)@,
                GradientOperation::Mul(self.gradient, right.gradient),
                old(graph)@[self.gradient as int].last.times(old(graph)@[right.gradient as int].last),
            ),
            r.gradient == old(graph)@.len(),
            r.name@ == binary_label(
                format_name(old(graph)@, self.gradient, self.name@),
                "*"@,
                format_name(old(graph)@, right.gradient, right.name@),
            ),
    {
        graph.well_formed();
        let name = binary_name(&name_of(self, graph), "*", &name_of(right, graph));
        let value = graph.nodes[self.gradient].last.times(&graph.nodes[right.gradient].last);
        let id = graph.record(GradientOperation::Mul(self.gradient, right.gradient), value);
        Tensor { name, gradient: id }
    }
}

impl<S: Scalar> Gradient<S> {
    /// Tests whether this node can be appended to `graph`: its gradient has
    /// the shape of its value, its operands are nodes of the graph, and their
    /// shapes are those that its operation needs.
    pub fn fits(&self, graph: &Graph<S>) -> (r: bool)
        ensures
            r == node_wf(graph@.push(self@), graph@.len() as int),
    {
        let len = graph.len();
        let ghost after = graph@.push(self@);
        let (m, n) = self.last.size();
        let gradient_fits = match &self.value {
            Some(g) => {
                let (g_m, g_n) = g.size();
                g_m == m && g_n == n
            },
            None => true,
        };
        if !gradient_fits {
            return false;
        }
        match self.operation {
            GradientOperation::Leaf => true,
            GradientOperation::Neg(a) | GradientOperation::ReLU(a) => {
                if a >= len {
                    return false;
                }
                assert(after[a as int] == graph@[a as int]);
                let (a_m, a_n) = graph.nodes[a].last.size();
                a_m == m && a_n == n
            },
            GradientOperation::Pow(a, exp) => {
                if a >= len {
                    return false;
                }
                assert(after[a as int] == graph@[a as int]);
                let (a_m, a_n) = graph.nodes[a].last.size();
                a_m == m && a_n == n && exp > i32::MIN
            },
            GradientOperation::Mean(a) => {
                if a >= len {
                    return false;
                }
                assert(after[a as int] == graph@[a as int]);
                let (a_m, a_n) = graph.nodes[a].last.size();
                m == 1 && n == 1 && a_m.checked_mul(a_n).is_some()
            },
            GradientOperation::Add(a, b) | GradientOperation::Sub(a, b) => {
                if a >= len || b >= len {
                    return false;
                }
                assert(after[a as int] == graph@[a as int]);
                assert(after[b as int] == graph@[b as int]);
                let (a_m, a_n) = graph.nodes[a].last.size();
                let (b_m, b_n) = graph.nodes[b].last.size();
                a_m == m && a_n == n && b_m == m && b_n == n
            },
            GradientOperation::Mul(a, b) => {
                if a >= len || b >= len {
                    return false;
                }
                assert(after[a as int] == graph@[a as int]);
                assert(after[b as int] == graph@[b as int]);
                let (a_m, a_n) = graph.nodes[a].last.size();
                let (b_m, b_n) = graph.nodes[b].last.size();
                a_n == b_m && m == a_m && n == b_n
            },
        }
    }

    /// Appends this node to `graph` and returns its index, if it fits. A node
    /// that does not fit is dropped, and the graph stays as it is.
    pub fn wrap(self, graph: &mut Graph<S>) -> (r: Option<usize>)
        ensures
            node_wf(old(graph)@.push(self@), old(graph)@.len() as int) ==> {
                &&& r == Some(old(graph)@.len() as usize)
                &&& final(graph)@ == old(graph)@.push(self@)
            },
            !node_wf(old(graph)@.push(self@), old(graph)@.len() as int) ==> {
                &&& r is None
                &&& final(graph)@ == old(graph)@
            },
    {
        if self.fits(graph) {
            let mut nodes = graph.take_nodes();
            let id = nodes.len();
            push_node(&mut nodes, self);
            *graph = Graph { nodes };
            Some(id)
        } else {
            None
        }
    }
}

} // verus!
