//! Optimizers: they change parameter values by what the gradients say.

use vstd::prelude::*;
use crate::operations::{node_wf, watched, Differentiable, GradientView, Graph};
use crate::scalar::Scalar;
use crate::tensor::Tensor;

verus! {

/// A rule that updates the parameters of a graph in place.
pub trait Optimizer<S: Scalar> {
    /// Whether the optimizer can take a step in a graph with these nodes.
    spec fn ready(&self, nodes: Seq<GradientView<S>>) -> bool;

    /// The nodes after one step.
    spec fn stepped(&self, nodes: Seq<GradientView<S>>) -> Seq<GradientView<S>>;

    /// Takes one step.
    fn step(&self, graph: &mut Graph<S>)
        requires
            self.ready(old(graph)@),
        ensures
            final(graph)@ == self.stepped(old(graph)@),
    ;
}

/// The nodes after one parameter took a step of gradient descent: the value
/// of node `id` less `rate` times its gradient. Gradients stay as they are.
pub open spec fn descend_one<S: Scalar>(nodes: Seq<GradientView<S>>, id: int, rate: S) -> Seq<
    GradientView<S>,
> {
    nodes.update(
        id,
        nodes[id].with_last(nodes[id].last.minus(nodes[id].value.unwrap().scaled(rate))),
    )
}

/// The nodes after the first `k` parameters of a list took their step, one
/// after the other. A parameter that is listed twice steps twice.
pub open spec fn descended<S: Scalar>(
    nodes: Seq<GradientView<S>>,
    params: Seq<Tensor>,
    rate: S,
    k: nat,
) -> Seq<GradientView<S>>
    decreases k,
{
    if k == 0 {
        nodes
    } else {
        descend_one(
            descended(nodes, params, rate, (k - 1) as nat),
            params[k - 1].gradient as int,
            rate,
        )
    }
}

/// Every parameter of the list has a node with a gradient.
pub open spec fn all_watched<S: Scalar>(nodes: Seq<GradientView<S>>, params: Seq<Tensor>) -> bool {
    forall|k: int| 0 <= k < params.len() ==> watched(nodes, (#[trigger] params[k]).gradient)
}

/// Plain gradient descent with a fixed learning rate.
pub struct StochasticGradientDescent<S: Scalar> {
    learning_rate: S,
    parameters: Vec<Tensor>,
}

impl<S: Scalar> StochasticGradientDescent<S> {
    /// The learning rate.
    pub closed spec fn rate(&self) -> S {
        self.learning_rate
    }

    /// The parameters that a step updates.
    pub closed spec fn targets(&self) -> Seq<Tensor> {
        self.parameters@
    }

    /// The optimizer that updates `parameters` with steps of `learning_rate`
    /// times the gradient.
    pub fn new(learning_rate: S, parameters: Vec<Tensor>) -> (r: StochasticGradientDescent<S>)
        ensures
            r.rate() == learning_rate,
            r.targets() == parameters@,
    {
        StochasticGradientDescent { learning_rate, parameters }
    }
}

impl<S: Scalar> Optimizer<S> for StochasticGradientDescent<S> {
    open spec fn ready(&self, nodes: Seq<GradientView<S>>) -> bool {
        all_watched(nodes, self.targets())
    }

    open spec fn stepped(&self, nodes: Seq<GradientView<S>>) -> Seq<GradientView<S>> {
        descended(nodes, self.targets(), self.rate(), self.targets().len())
    }

    /// Every parameter, in the order of the list, becomes its value less the
    /// learning rate times its gradient. Gradients stay as they are, so a
    /// second step without a backward pass in between applies them again.
    fn step(&self, graph: &mut Graph<S>)
        ensures
            final(graph)@.len() == old(graph)@.len(),
            forall|i: int|
                0 <= i < old(graph)@.len() ==> (#[trigger] final(graph)@[i]).value == old(
                    graph,
                )@[i].value,
    {
        let ghost start = graph@;
        let mut k: usize = 0;
        while k < self.parameters.len()
            invariant
                k <= self.parameters.len(),
                all_watched(start, self.parameters@),
                graph@ == descended(start, self.parameters@, self.learning_rate, k as nat),
                graph@.len() == start.len(),
                forall|i: int| 0 <= i < start.len() ==> (#[trigger] graph@[i]).value == start[i].value,
            decreases self.parameters.len() - k,
        {
            let parameter = &self.parameters[k];
            let ghost id = parameter.gradient as int;
            proof {
                assert(watched(start, self.parameters@[k as int].gradient));
                assert(graph@[id].value == start[id].value);
            }
            graph.well_formed();
            proof {
                assert(node_wf(graph@, id));
            }
            let weight_update = parameter.grad(graph).scaled(self.learning_rate);
            let ghost before = graph@;
            parameter.sub_assign(&weight_update, graph);
            proof {
                assert(graph@ == descend_one(before, id, self.learning_rate));
                assert forall|i: int| 0 <= i < start.len() implies (#[trigger] graph@[i]).value
                    == start[i].value by {
                    assert(before[i].value == start[i].value);
                }
            }
            k = k + 1;
        }
    }
}

} // verus!
