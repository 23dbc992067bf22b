//! Layers built from differentiable operations.
//!
//! A [`Module`] turns an input tensor into an output tensor by recording
//! operations in a graph. What it records is named by its specification
//! function [`Module::forwarded`], so that a chain of modules, whatever they
//! are, has an exact contract. [`Linear`] and [`ReLU`] are the layers
//! provided; [`Model`] runs a list of modules one after the other and is a
//! module itself.

use vstd::prelude::*;
use crate::backward::propagated;
use crate::dense::Dense;
use crate::matrix::Matrix;
use crate::operations::{held, inserted, recorded, Differentiable, GradientOperation, GradientView, Graph};
use crate::scalar::Scalar;
use crate::tensor::Tensor;

verus! {

/// The outcome of a forward pass: the nodes of the graph after it, and the
/// index of the node that holds what came out.
#[verifier::ext_equal]
pub struct Forward<S> {
    pub nodes: Seq<GradientView<S>>,
    pub handle: int,
}

/// One of the tensors names node `i`.
pub open spec fn names(params: Seq<Tensor>, i: int) -> bool {
    exists|k: int| 0 <= k < params.len() && (#[trigger] params[k]).gradient == i
}

/// Every tensor names a node of the list.
pub open spec fn all_held<S: Scalar>(nodes: Seq<GradientView<S>>, params: Seq<Tensor>) -> bool {
    forall|k: int| 0 <= k < params.len() ==> held(nodes, (#[trigger] params[k]).gradient)
}

/// The list of nodes with zeros for the gradient of every node that one of
/// the tensors names.
pub open spec fn zeroed<S: Scalar>(nodes: Seq<GradientView<S>>, params: Seq<Tensor>) -> Seq<
    GradientView<S>,
> {
    Seq::new(
        nodes.len(),
        |i: int|
            if names(params, i) {
                nodes[i].with_zeros()
            } else {
                nodes[i]
            },
    )
}

/// The list of nodes with ones for the gradient of node `id`.
pub open spec fn seeded<S: Scalar>(nodes: Seq<GradientView<S>>, id: int) -> Seq<GradientView<S>> {
    nodes.update(
        id,
        nodes[id].with_value(Some(Matrix::<S>::ones(nodes[id].last.rows, nodes[id].last.cols))),
    )
}

/// Sets the gradient of every tensor in the list to zeros.
pub fn reset_all<S: Scalar>(params: &Vec<Tensor>, graph: &mut Graph<S>)
    requires
        all_held(old(graph)@, params@),
    ensures
        final(graph)@ == zeroed(old(graph)@, params@),
{
    let ghost start = graph@;
    let mut k: usize = 0;
    proof {
        assert(graph@ =~= zeroed(start, params@.take(0)));
    }
    while k < params.len()
        invariant
            k <= params.len(),
            all_held(start, params@),
            graph@ == zeroed(start, params@.take(k as int)),
        decreases params.len() - k,
    {
        assert(held(start, params@[k as int].gradient));
        params[k].reset_grad(graph);
        proof {
            let id = params@[k as int].gradient as int;
            let done = params@.take(k as int);
            let more = params@.take(k + 1);
            assert forall|i: int| 0 <= i < start.len() implies #[trigger] graph@[i] == zeroed(
                start,
                more,
            )[i] by {
                if names(done, i) {
                    let w = choose|w: int| 0 <= w < done.len() && (#[trigger] done[w]).gradient == i;
                    assert(more[w].gradient == i);
                }
                if i == id {
                    assert(more[k as int].gradient == i);
                }
                if names(more, i) {
                    let w = choose|w: int| 0 <= w < more.len() && (#[trigger] more[w]).gradient == i;
                    if w < k {
                        assert(done[w].gradient == i);
                    }
                }
            }
            assert(graph@ =~= zeroed(start, more));
        }
        k = k + 1;
    }
    proof {
        assert(params@.take(params.len() as int) =~= params@);
    }
}

/// A unit that records differentiable operations.
pub trait Module<S: Scalar> {
    /// The parameters of this module, in order.
    spec fn parameter_list(&self) -> Seq<Tensor>;

    /// Whether this module can take node `input` of a graph with the given
    /// nodes as its input.
    spec fn ready(&self, nodes: Seq<GradientView<S>>, input: int) -> bool;

    /// What the forward pass does with that input in that graph.
    spec fn forwarded(&self, nodes: Seq<GradientView<S>>, input: int) -> Forward<S>;

    /// Runs the module on `input` and records in `graph` what it does.
    fn forward(&self, input: Tensor, graph: &mut Graph<S>) -> (r: Tensor)
        requires
            self.ready(old(graph)@, input.gradient as int),
        ensures
            final(graph)@ == self.forwarded(old(graph)@, input.gradient as int).nodes,
            r.gradient == self.forwarded(old(graph)@, input.gradient as int).handle,
    ;

    /// Seeds the gradient of the loss with ones and runs the backward pass
    /// from it.
    fn backward(&self, loss: Tensor, graph: &mut Graph<S>)
        requires
            held(old(graph)@, loss.gradient),
        ensures
            final(graph)@ == propagated(
                seeded(old(graph)@, loss.gradient as int),
                loss.gradient as int,
            ),
    {
        let id = loss.metadata();
        let (m, n) = graph.node(id).last.size();
        graph.set_value(id, Dense::filled(m, n, S::from_int(1)));
        graph.propagate(id);
    }

    /// Sets the gradient of every parameter to zeros.
    fn reset_grad(&self, graph: &mut Graph<S>)
        requires
            all_held(old(graph)@, self.parameter_list()),
        ensures
            final(graph)@ == zeroed(old(graph)@, self.parameter_list()),
    ;

    /// The parameters of this module, in order: copies of its tensors, which
    /// name the same nodes.
    fn parameters(&self) -> (r: Vec<Tensor>)
        ensures
            r@ == self.parameter_list(),
    ;
}

/// A fully connected layer: `input * weights + bias`, the one row of the
/// bias added to every row of the product.
pub struct Linear {
    /// The number of input and of output columns.
    pub size: (usize, usize),
    /// The weights, `size_in` by `size_out`.
    pub weights: Tensor,
    /// The bias, one row of `size_out` cells.
    pub bias: Tensor,
}

impl Linear {
    /// A layer from `size_in` to `size_out` columns. Its weights and its bias
    /// start as ones and enter the graph as two new leaves with gradients of
    /// zeros.
    pub fn new<S: Scalar>(size_in: usize, size_out: usize, graph: &mut Graph<S>) -> (r: Linear)
        ensures
            r.size == (size_in, size_out),
            r.weights.gradient == old(graph)@.len(),
            r.bias.gradient == old(graph)@.len() + 1,
            r.weights.name@ == Seq::<char>::empty(),
            r.bias.name@ == Seq::<char>::empty(),
            final(graph)@ == recorded(
                recorded(
                    old(graph)@,
                    GradientOperation::Leaf,
                    Matrix::<S>::ones(size_in as nat, size_out as nat),
                ),
                GradientOperation::Leaf,
                Matrix::<S>::ones(1, size_out as nat),
            ),
    {
        graph.well_formed();
        let weights = Tensor::from_dense(Dense::filled(size_in, size_out, S::from_int(1)), graph);
        let weights = weights.with_grad(graph);
        graph.well_formed();
        proof {
            assert(graph@ =~= recorded(
                old(graph)@,
                GradientOperation::Leaf,
                Matrix::<S>::ones(size_in as nat, size_out as nat),
            ));
        }
        let ghost middle = graph@;
        let bias = Tensor::from_dense(Dense::filled(1, size_out, S::from_int(1)), graph);
        let bias = bias.with_grad(graph);
        proof {
            assert(graph@ =~= recorded(
                middle,
                GradientOperation::Leaf,
                Matrix::<S>::ones(1, size_out as nat),
            ));
        }
        Linear { size: (size_in, size_out), weights, bias }
    }
}

impl<S: Scalar> Module<S> for Linear {
    open spec fn parameter_list(&self) -> Seq<Tensor> {
        seq![self.weights, self.bias]
    }

    /// Input, weights and bias are nodes of the graph, weights and bias have
    /// the shapes that the layer was made for, and the input has as many
    /// columns as the weights have rows.
    open spec fn ready(&self, nodes: Seq<GradientView<S>>, input: int) -> bool {
        &&& 0 <= input < nodes.len()
        &&& held(nodes, self.weights.gradient)
        &&& held(nodes, self.bias.gradient)
        &&& nodes[self.weights.gradient as int].last.rows == self.size.0
        &&& nodes[self.weights.gradient as int].last.cols == self.size.1
        &&& nodes[self.bias.gradient as int].last.rows == 1
        &&& nodes[self.bias.gradient as int].last.cols == self.size.1
        &&& nodes[input].last.cols == self.size.0
    }

    /// Four nodes are appended: the product of input and weights, a column
    /// of ones with a cell for every row of the input, the product of that
    /// column and the bias, which repeats the bias for every row, and the sum
    /// of the two products.
    open spec fn forwarded(&self, nodes: Seq<GradientView<S>>, input: int) -> Forward<S> {
        let n = nodes.len();
        let weights = nodes[self.weights.gradient as int].last;
        let bias = nodes[self.bias.gradient as int].last;
        let product = nodes[input].last.times(weights);
        let column = Matrix::<S>::ones(product.rows, 1);
        let spread = column.times(bias);
        let with_product = recorded(
            nodes,
            GradientOperation::Mul(input as usize, self.weights.gradient),
            product,
        );
        let with_column = inserted(with_product, column);
        let with_spread = recorded(
            with_column,
            GradientOperation::Mul((n + 1) as usize, self.bias.gradient),
            spread,
        );
        Forward {
            nodes: recorded(
                with_spread,
                GradientOperation::Add(n as usize, (n + 2) as usize),
                product.plus(spread),
            ),
            handle: (n + 3) as int,
        }
    }

    fn forward(&self, input: Tensor, graph: &mut Graph<S>) -> (r: Tensor)
        ensures
            final(graph).value_of(&r) == old(graph).value_of(&input).times(
                old(graph).value_of(&self.weights),
            ).plus(
                Matrix::<S>::ones(old(graph).value_of(&input).rows, 1).times(
                    old(graph).value_of(&self.bias),
                ),
            ),
    {
        graph.well_formed();
        let product = input.mul(&self.weights, graph);
        let (batch, _) = product.size(graph);
        let column = Tensor::from_dense(Dense::filled(batch, 1, S::from_int(1)), graph);
        let spread = column.mul(&self.bias, graph);
        product.add(&spread, graph)
    }

    fn reset_grad(&self, graph: &mut Graph<S>) {
        let params = Module::<S>::parameters(self);
        reset_all(&params, graph);
    }

    fn parameters(&self) -> (r: Vec<Tensor>) {
        let mut r: Vec<Tensor> = Vec::new();
        r.push(self.weights.clone());
        r.push(self.bias.clone());
        assert(r@ =~= seq![self.weights, self.bias]);
        r
    }
}

/// The rectifier layer: it has no parameters.
pub struct ReLU {}

impl<S: Scalar> Module<S> for ReLU {
    open spec fn parameter_list(&self) -> Seq<Tensor> {
        Seq::empty()
    }

    open spec fn ready(&self, nodes: Seq<GradientView<S>>, input: int) -> bool {
        0 <= input < nodes.len()
    }

    open spec fn forwarded(&self, nodes: Seq<GradientView<S>>, input: int) -> Forward<S> {
        Forward {
            nodes: recorded(
                nodes,
                GradientOperation::ReLU(input as usize),
                nodes[input].last.rectified(),
            ),
            handle: nodes.len() as int,
        }
    }

    fn forward(&self, input: Tensor, graph: &mut Graph<S>) -> (r: Tensor) {
        graph.well_formed();
        input.relu(graph)
    }

    fn reset_grad(&self, graph: &mut Graph<S>) {
        assert(graph@ =~= zeroed(graph@, Seq::<Tensor>::empty()));
    }

    fn parameters(&self) -> (r: Vec<Tensor>) {
        Vec::new()
    }
}

/// The parameters of the first `k` modules of a list, in order.
pub open spec fn gathered<S: Scalar>(layers: Seq<Box<dyn Module<S>>>, k: nat) -> Seq<Tensor>
    decreases k,
{
    if k == 0 {
        Seq::empty()
    } else {
        gathered(layers, (k - 1) as nat) + layers[k - 1].parameter_list()
    }
}

/// The outcome of running the first `k` modules of a list one after the
/// other, each on what the one before it gave.
pub open spec fn run<S: Scalar>(layers: Seq<Box<dyn Module<S>>>, start: Forward<S>, k: nat) -> Forward<
    S,
>
    decreases k,
{
    if k == 0 {
        start
    } else {
        let before = run(layers, start, (k - 1) as nat);
        layers[k - 1].forwarded(before.nodes, before.handle)
    }
}

/// Every module of the list can take what the modules before it give.
pub open spec fn chain_ready<S: Scalar>(layers: Seq<Box<dyn Module<S>>>, start: Forward<S>) -> bool {
    forall|k: int|
        0 <= k < layers.len() ==> (#[trigger] layers[k]).ready(
            run(layers, start, k as nat).nodes,
            run(layers, start, k as nat).handle,
        )
}

/// Zeroing for one list of tensors and then for another is zeroing for both.
pub proof fn lemma_zeroed_twice<S: Scalar>(nodes: Seq<GradientView<S>>, a: Seq<Tensor>, b: Seq<Tensor>)
    ensures
        zeroed(zeroed(nodes, a), b) == zeroed(nodes, a + b),
{
    assert forall|i: int| names(a + b, i) == (names(a, i) || names(b, i)) by {
        if names(a, i) {
            let w = choose|w: int| 0 <= w < a.len() && (#[trigger] a[w]).gradient == i;
            assert((a + b)[w].gradient == i);
        }
        if names(b, i) {
            let w = choose|w: int| 0 <= w < b.len() && (#[trigger] b[w]).gradient == i;
            assert((a + b)[a.len() + w].gradient == i);
        }
        if names(a + b, i) {
            let w = choose|w: int| 0 <= w < (a + b).len() && (#[trigger] (a + b)[w]).gradient == i;
            if w < a.len() {
                assert(a[w].gradient == i);
            } else {
                assert(b[w - a.len()].gradient == i);
            }
        }
    }
    assert(zeroed(zeroed(nodes, a), b) =~= zeroed(nodes, a + b));
}

/// What holds of all parameters of a list of modules holds of those of each
/// module.
pub proof fn lemma_gathered_held<S: Scalar>(
    nodes: Seq<GradientView<S>>,
    layers: Seq<Box<dyn Module<S>>>,
    n: nat,
    k: int,
)
    requires
        0 <= k < n,
        all_held(nodes, gathered(layers, n)),
    ensures
        all_held(nodes, layers[k].parameter_list()),
        all_held(nodes, gathered(layers, k as nat)),
    decreases n,
{
    let before = gathered(layers, (n - 1) as nat);
    let own = layers[n - 1].parameter_list();
    assert forall|j: int| 0 <= j < before.len() implies held(nodes, (#[trigger] before[j]).gradient) by {
        assert((before + own)[j] == before[j]);
    }
    assert forall|j: int| 0 <= j < own.len() implies held(nodes, (#[trigger] own[j]).gradient) by {
        assert((before + own)[before.len() + j] == own[j]);
    }
    if k < n - 1 {
        lemma_gathered_held(nodes, layers, (n - 1) as nat, k);
    }
}

/// A list of modules that run one after the other.
#[verifier::reject_recursive_types(S)]
pub struct Model<S: Scalar> {
    /// The modules, first to last.
    pub layers: Vec<Box<dyn Module<S>>>,
}

impl<S: Scalar> Model<S> {
    /// The model that runs `layers` in order.
    pub fn new(layers: Vec<Box<dyn Module<S>>>) -> (r: Model<S>)
        ensures
            r.layers == layers,
    {
        Model { layers }
    }
}

impl<S: Scalar> Module<S> for Model<S> {
    open spec fn parameter_list(&self) -> Seq<Tensor> {
        gathered(self.layers@, self.layers@.len())
    }

    open spec fn ready(&self, nodes: Seq<GradientView<S>>, input: int) -> bool {
        chain_ready(self.layers@, Forward { nodes, handle: input })
    }

    open spec fn forwarded(&self, nodes: Seq<GradientView<S>>, input: int) -> Forward<S> {
        run(self.layers@, Forward { nodes, handle: input }, self.layers@.len())
    }

    fn forward(&self, input: Tensor, graph: &mut Graph<S>) -> (r: Tensor) {
        let ghost start = Forward { nodes: graph@, handle: input.gradient as int };
        let mut last_value = input;
        let mut k: usize = 0;
        while k < self.layers.len()
            invariant
                k <= self.layers.len(),
                chain_ready(self.layers@, start),
                graph@ == run(self.layers@, start, k as nat).nodes,
                last_value.gradient == run(self.layers@, start, k as nat).handle,
            decreases self.layers.len() - k,
        {
            assert(self.layers@[k as int].ready(
                run(self.layers@, start, k as nat).nodes,
                run(self.layers@, start, k as nat).handle,
            ));
            last_value = self.layers[k].forward(last_value, graph);
            k = k + 1;
        }
        last_value
    }

    fn reset_grad(&self, graph: &mut Graph<S>) {
        let ghost start = graph@;
        let ghost n = self.layers@.len();
        let mut k: usize = 0;
        proof {
            assert(graph@ =~= zeroed(start, gathered(self.layers@, 0)));
        }
        while k < self.layers.len()
            invariant
                k <= self.layers.len(),
                n == self.layers@.len(),
                all_held(start, gathered(self.layers@, n)),
                graph@ == zeroed(start, gathered(self.layers@, k as nat)),
            decreases self.layers.len() - k,
        {
            proof {
                lemma_gathered_held(start, self.layers@, n, k as int);
                let own = self.layers@[k as int].parameter_list();
                assert forall|j: int| 0 <= j < own.len() implies held(
                    graph@,
                    (#[trigger] own[j]).gradient,
                ) by {
                    assert(held(start, own[j].gradient));
                }
                lemma_zeroed_twice(start, gathered(self.layers@, k as nat), own);
            }
            self.layers[k].reset_grad(graph);
            k = k + 1;
        }
    }

    fn parameters(&self) -> (r: Vec<Tensor>) {
        let mut r: Vec<Tensor> = Vec::new();
        let mut k: usize = 0;
        while k < self.layers.len()
            invariant
                k <= self.layers.len(),
                r@ == gathered(self.layers@, k as nat),
            decreases self.layers.len() - k,
        {
            let mut more = self.layers[k].parameters();
            r.append(&mut more);
            k = k + 1;
        }
        r
    }
}

} // verus!
