//! The backward pass: gradients flow from an output node to its ancestors.
//!
//! The pass walks the arena once, from the output node down to the first
//! node. Operands always come before the node that uses them, so when the
//! walk arrives at a node, every later node that uses it has already added
//! its share: the gradient found there is final, and it is passed on to the
//! node's own operands exactly once. Nodes that the output does not depend
//! on, and nodes without a gradient, pass nothing on.

use vstd::prelude::*;
use crate::matrix::Matrix;
use crate::operations::{graph_wf, node_wf, nodes_view, Gradient, GradientOperation, GradientView};
use crate::scalar::Scalar;
use crate::dense::Dense;

verus! {

/// What node `c` adds to the gradient of its first operand when its own
/// gradient is `flow`.
pub open spec fn first_partial<S: Scalar>(
    nodes: Seq<GradientView<S>>,
    c: int,
    flow: Matrix<S>,
) -> Matrix<S> {
    match nodes[c].operation {
        GradientOperation::Leaf => flow,
        GradientOperation::Neg(_) => flow.negated(),
        GradientOperation::ReLU(a) => flow.gated(nodes[a as int].last),
        GradientOperation::Pow(a, exp) => nodes[a as int].last.power_slope(exp, flow),
        GradientOperation::Mean(a) => flow.spread(
            nodes[a as int].last.rows,
            nodes[a as int].last.cols,
        ),
        GradientOperation::Add(_, _) => flow,
        GradientOperation::Sub(_, _) => flow,
        GradientOperation::Mul(_, b) => flow.times(nodes[b as int].last.transposed()),
    }
}

/// What node `c` adds to the gradient of its second operand when its own
/// gradient is `flow`.
pub open spec fn second_partial<S: Scalar>(
    nodes: Seq<GradientView<S>>,
    c: int,
    flow: Matrix<S>,
) -> Matrix<S> {
    match nodes[c].operation {
        GradientOperation::Sub(_, _) => flow.negated(),
        GradientOperation::Mul(a, _) => nodes[a as int].last.transposed().times(flow),
        _ => flow,
    }
}

/// The gradient of node `p` after node `c`, whose gradient is `flow`, has
/// passed it on: `acc` with the partial of each operand place that `p`
/// fills, the first place before the second.
pub open spec fn pushed<S: Scalar>(
    nodes: Seq<GradientView<S>>,
    c: int,
    p: int,
    flow: Matrix<S>,
    acc: Matrix<S>,
) -> Matrix<S> {
    let operation = nodes[c].operation;
    let once = if operation.first() is Some && operation.first().unwrap() == p {
        acc.plus(first_partial(nodes, c, flow))
    } else {
        acc
    };
    if operation.second() is Some && operation.second().unwrap() == p {
        once.plus(second_partial(nodes, c, flow))
    } else {
        once
    }
}

/// Whether the pass from `out` has found node `c` once the nodes from `lo`
/// up have passed their gradients on: `c` is the output itself, or an
/// operand of one of those nodes that was found and has a gradient.
pub open spec fn reached<S: Scalar>(nodes: Seq<GradientView<S>>, out: int, c: int, lo: int) -> bool
    decreases out + 1 - lo,
{
    if lo > out {
        c == out
    } else {
        ||| reached(nodes, out, c, lo + 1)
        ||| {
            &&& nodes[lo].operation.has_operand(c)
            &&& reached(nodes, out, lo, lo + 1)
            &&& accumulated(nodes, out, lo, lo + 1) is Some
        }
    }
}

/// The gradient of node `p` once the nodes from `lo` up have passed their
/// gradients on, the later node first. A node passes its gradient on if the
/// pass has found it and it has a gradient; a node without a gradient
/// receives nothing.
pub open spec fn accumulated<S: Scalar>(
    nodes: Seq<GradientView<S>>,
    out: int,
    p: int,
    lo: int,
) -> Option<Matrix<S>>
    decreases out + 1 - lo,
{
    if lo > out {
        nodes[p].value
    } else {
        match accumulated(nodes, out, p, lo + 1) {
            Some(acc) => {
                if reached(nodes, out, lo, lo + 1) && accumulated(nodes, out, lo, lo + 1) is Some {
                    Some(pushed(nodes, lo, p, accumulated(nodes, out, lo, lo + 1).unwrap(), acc))
                } else {
                    Some(acc)
                }
            },
            None => None,
        }
    }
}

/// Whether the output `out` depends on node `c` through nodes that have a
/// gradient.
pub open spec fn contributes<S: Scalar>(nodes: Seq<GradientView<S>>, out: int, c: int) -> bool {
    reached(nodes, out, c, c + 1) && accumulated(nodes, out, c, c + 1) is Some
}

/// The gradient of node `p` after the backward pass from `out`.
pub open spec fn settled<S: Scalar>(nodes: Seq<GradientView<S>>, out: int, p: int) -> Option<
    Matrix<S>,
> {
    accumulated(nodes, out, p, 0)
}

/// The graph after the backward pass from `out`: every node keeps its value
/// and its operation and holds its settled gradient.
pub open spec fn propagated<S: Scalar>(nodes: Seq<GradientView<S>>, out: int) -> Seq<
    GradientView<S>,
> {
    Seq::new(nodes.len(), |p: int| nodes[p].with_value(settled(nodes, out, p)))
}

/// The partials that node `c` hands to its operands, each with the index of
/// the operand that receives it.
fn partials<S: Scalar>(nodes: &Vec<Gradient<S>>, c: usize, flow: &Dense<S>) -> (r: (
    Option<(usize, Dense<S>)>,
    Option<(usize, Dense<S>)>,
))
    requires
        graph_wf(nodes_view(*nodes)),
        c < nodes.len(),
        flow@.wf(),
        flow@.same_shape(nodes_view(*nodes)[c as int].last),
    ensures
        ({
            let view = nodes_view(*nodes);
            let operation = view[c as int].operation;
            &&& r.0 is Some <==> operation.first() is Some
            &&& r.0 is Some ==> {
                &&& r.0.unwrap().0 == operation.first().unwrap()
                &&& r.0.unwrap().0 < c
                &&& r.0.unwrap().1@ == first_partial(view, c as int, flow@)
                &&& r.0.unwrap().1@.same_shape(view[r.0.unwrap().0 as int].last)
            }
            &&& r.1 is Some <==> operation.second() is Some
            &&& r.1 is Some ==> {
                &&& r.1.unwrap().0 == operation.second().unwrap()
                &&& r.1.unwrap().0 < c
                &&& r.1.unwrap().1@ == second_partial(view, c as int, flow@)
                &&& r.1.unwrap().1@.same_shape(view[r.1.unwrap().0 as int].last)
            }
        }),
{
    proof {
        assert(node_wf(nodes_view(*nodes), c as int));
    }
    match nodes[c].operation {
        GradientOperation::Leaf => (None, None),
        GradientOperation::Neg(a) => (Some((a, flow.negated())), None),
        GradientOperation::ReLU(a) => (Some((a, flow.gated(&nodes[a].last))), None),
        GradientOperation::Pow(a, exp) => (Some((a, nodes[a].last.power_slope(exp, flow))), None),
        GradientOperation::Mean(a) => {
            let (m, n) = nodes[a].last.size();
            (Some((a, flow.spread(m, n))), None)
        },
        GradientOperation::Add(a, b) => (Some((a, flow.clone())), Some((b, flow.clone()))),
        GradientOperation::Sub(a, b) => (Some((a, flow.clone())), Some((b, flow.negated()))),
        GradientOperation::Mul(a, b) => {
            let left = flow.times(&nodes[b].last.transpose());
            let right = nodes[a].last.transpose().times(flow);
            (Some((a, left)), Some((b, right)))
        },
    }
}

/// Adds `partial` to the gradient of node `p`, if it has one.
fn add_into<S: Scalar>(nodes: &mut Vec<Gradient<S>>, p: usize, partial: &Dense<S>)
    requires
        graph_wf(nodes_view(*old(nodes))),
        p < old(nodes).len(),
        partial@.same_shape(nodes_view(*old(nodes))[p as int].last),
    ensures
        final(nodes).len() == old(nodes).len(),
        graph_wf(nodes_view(*final(nodes))),
        nodes_view(*final(nodes)) == nodes_view(*old(nodes)).update(
            p as int,
            nodes_view(*old(nodes))[p as int].with_value(
                match nodes_view(*old(nodes))[p as int].value {
                    Some(acc) => Some(acc.plus(partial@)),
                    None => None,
                },
            ),
        ),
{
    let ghost before = nodes_view(*nodes);
    proof {
        assert(node_wf(before, p as int));
    }
    if nodes[p].value.is_some() {
        let sum = nodes[p].value.as_ref().unwrap().plus(partial);
        nodes[p].value = Some(sum);
        proof {
            let after = nodes_view(*nodes);
            assert(after =~= before.update(p as int, after[p as int]));
            assert(after[p as int] == before[p as int].with_value(Some(sum@)));
            assert forall|i: int| 0 <= i < after.len() implies #[trigger] node_wf(after, i) by {
                assert(node_wf(before, i));
            }
        }
    } else {
        proof {
            assert(before =~= before.update(p as int, before[p as int]));
            assert(before[p as int] == before[p as int].with_value(None));
        }
    }
}

/// Runs the backward pass from node `out` over a list of nodes.
pub(crate) fn propagate<S: Scalar>(nodes: &mut Vec<Gradient<S>>, out: usize)
    requires
        graph_wf(nodes_view(*old(nodes))),
        out < old(nodes).len(),
    ensures
        graph_wf(nodes_view(*final(nodes))),
        nodes_view(*final(nodes)) == propagated(nodes_view(*old(nodes)), out as int),
{
    let ghost start = nodes_view(*nodes);
    let mut marks: Vec<bool> = vec![false; out + 1];
    marks.set(out, true);
    let mut i: usize = out + 1;
    while i > 0
        invariant
            i <= out + 1,
            out < nodes.len(),
            marks.len() == out + 1,
            nodes.len() == start.len(),
            graph_wf(nodes_view(*nodes)),
            graph_wf(start),
            forall|p: int|
                0 <= p < start.len() ==> #[trigger] nodes_view(*nodes)[p] == start[p].with_value(
                    accumulated(start, out as int, p, i as int),
                ),
            forall|c: int| 0 <= c <= out ==> #[trigger] marks[c] == reached(start, out as int, c, i as int),
        decreases i,
    {
        i = i - 1;
        let ghost before = nodes_view(*nodes);
        let ghost marks_before = marks@;
        proof {
            assert(before[i as int] == start[i as int].with_value(
                accumulated(start, out as int, i as int, i + 1),
            ));
            assert(node_wf(before, i as int));
            assert(node_wf(start, i as int));
        }
        if marks[i] && nodes[i].value.is_some() {
            let flow = nodes[i].value.as_ref().unwrap().clone();
            flow.well_formed();
            let (first, second) = partials(nodes, i, &flow);
            proof {
                assert forall|p: int| 0 <= p < start.len() implies #[trigger] before[p].last
                    == start[p].last && before[p].operation == start[p].operation by {
                    assert(before[p] == start[p].with_value(
                        accumulated(start, out as int, p, i + 1),
                    ));
                }
                lemma_partials_depend_on_values(before, start, i as int, flow@);
            }
            match first {
                Some((a, partial)) => {
                    add_into(nodes, a, &partial);
                    marks.set(a, true);
                },
                None => {},
            }
            let ghost middle = nodes_view(*nodes);
            match second {
                Some((b, partial)) => {
                    proof {
                        assert(middle[b as int].last == before[b as int].last);
                    }
                    add_into(nodes, b, &partial);
                    marks.set(b, true);
                },
                None => {},
            }
        }
        proof {
            let after = nodes_view(*nodes);
            assert forall|p: int| 0 <= p < start.len() implies #[trigger] after[p]
                == start[p].with_value(accumulated(start, out as int, p, i as int)) by {
                assert(before[p] == start[p].with_value(accumulated(start, out as int, p, i + 1)));
            }
            assert forall|c: int| 0 <= c <= out implies #[trigger] marks[c] == reached(
                start,
                out as int,
                c,
                i as int,
            ) by {
                assert(marks_before[c] == reached(start, out as int, c, i + 1));
            }
        }
    }
    proof {
        assert(nodes_view(*nodes) =~= propagated(start, out as int));
    }
}

/// The partials of a node depend on the values and operations of the graph
/// only, not on its gradients.
proof fn lemma_partials_depend_on_values<S: Scalar>(
    now: Seq<GradientView<S>>,
    start: Seq<GradientView<S>>,
    c: int,
    flow: Matrix<S>,
)
    requires
        now.len() == start.len(),
        0 <= c < start.len(),
        node_wf(start, c),
        forall|p: int|
            0 <= p < start.len() ==> #[trigger] now[p].last == start[p].last && now[p].operation
                == start[p].operation,
    ensures
        first_partial(now, c, flow) == first_partial(start, c, flow),
        second_partial(now, c, flow) == second_partial(start, c, flow),
{
    assert(now[c].last == start[c].last);
    match start[c].operation {
        GradientOperation::Leaf => {},
        GradientOperation::Neg(a) => {},
        GradientOperation::ReLU(a) => {
            assert(now[a as int].last == start[a as int].last);
        },
        GradientOperation::Pow(a, _) => {
            assert(now[a as int].last == start[a as int].last);
        },
        GradientOperation::Mean(a) => {
            assert(now[a as int].last == start[a as int].last);
        },
        GradientOperation::Add(a, b) => {},
        GradientOperation::Sub(a, b) => {},
        GradientOperation::Mul(a, b) => {
            assert(now[a as int].last == start[a as int].last);
            assert(now[b as int].last == start[b as int].last);
        },
    }
}

/// A stretch of nodes none of which uses node `p` leaves the gradient of
/// `p` as it is.
pub proof fn lemma_unused_keeps_gradient<S: Scalar>(
    nodes: Seq<GradientView<S>>,
    out: int,
    p: int,
    lo: int,
    hi: int,
)
    requires
        0 <= lo <= hi <= out + 1,
        forall|d: int| lo <= d < hi ==> !(#[trigger] nodes[d]).operation.has_operand(p),
    ensures
        accumulated(nodes, out, p, lo) == accumulated(nodes, out, p, hi),
    decreases hi - lo,
{
    if lo < hi {
        lemma_unused_keeps_gradient(nodes, out, p, lo + 1, hi);
        assert(!nodes[lo].operation.has_operand(p));
    }
}

/// A node has a gradient during the pass exactly if it had one before.
pub proof fn lemma_gradient_stays<S: Scalar>(
    nodes: Seq<GradientView<S>>,
    out: int,
    p: int,
    lo: int,
)
    requires
        0 <= lo <= out + 1,
    ensures
        accumulated(nodes, out, p, lo) is Some <==> nodes[p].value is Some,
    decreases out + 1 - lo,
{
    if lo <= out {
        lemma_gradient_stays(nodes, out, p, lo + 1);
    }
}

/// The gradient of a node is final once the pass arrives at it: the nodes
/// before it, and the node itself, add nothing to it.
pub proof fn lemma_settled_on_arrival<S: Scalar>(nodes: Seq<GradientView<S>>, out: int, c: int)
    requires
        graph_wf(nodes),
        0 <= c <= out < nodes.len(),
    ensures
        settled(nodes, out, c) == accumulated(nodes, out, c, c + 1),
{
    assert forall|d: int| 0 <= d < c + 1 implies !(#[trigger] nodes[d]).operation.has_operand(c) by {
        assert(node_wf(nodes, d));
    }
    lemma_unused_keeps_gradient(nodes, out, c, 0, c + 1);
}

/// The node from which the pass starts keeps the gradient it was seeded
/// with.
pub proof fn lemma_output_keeps_seed<S: Scalar>(nodes: Seq<GradientView<S>>, out: int)
    requires
        graph_wf(nodes),
        0 <= out < nodes.len(),
    ensures
        settled(nodes, out, out) == nodes[out].value,
{
    lemma_settled_on_arrival(nodes, out, out);
}

/// A node that no node up to the output uses keeps its gradient.
pub proof fn lemma_unused_node_untouched<S: Scalar>(nodes: Seq<GradientView<S>>, out: int, p: int)
    requires
        0 <= out,
        forall|d: int| 0 <= d <= out ==> !(#[trigger] nodes[d]).operation.has_operand(p),
    ensures
        settled(nodes, out, p) == nodes[p].value,
{
    lemma_unused_keeps_gradient(nodes, out, p, 0, out + 1);
}

/// What the pass has found stays found.
pub proof fn lemma_reached_stays<S: Scalar>(
    nodes: Seq<GradientView<S>>,
    out: int,
    c: int,
    lo: int,
    hi: int,
)
    requires
        0 <= lo <= hi <= out + 1,
        reached(nodes, out, c, hi),
    ensures
        reached(nodes, out, c, lo),
    decreases hi - lo,
{
    if lo < hi {
        lemma_reached_stays(nodes, out, c, lo + 1, hi);
    }
}

/// The output passes its gradient on if it has one.
pub proof fn lemma_output_contributes<S: Scalar>(nodes: Seq<GradientView<S>>, out: int)
    requires
        0 <= out,
        nodes[out].value is Some,
    ensures
        contributes(nodes, out, out),
{
}

/// A node passes its gradient on if it has one and is an operand of a later
/// node that passes its gradient on.
pub proof fn lemma_operand_contributes<S: Scalar>(
    nodes: Seq<GradientView<S>>,
    out: int,
    c: int,
    p: int,
)
    requires
        0 <= p < c <= out,
        contributes(nodes, out, c),
        nodes[c].operation.has_operand(p),
        nodes[p].value is Some,
    ensures
        contributes(nodes, out, p),
{
    assert(reached(nodes, out, p, c));
    lemma_reached_stays(nodes, out, p, p + 1, c);
    lemma_gradient_stays(nodes, out, p, p + 1);
}

/// The pass keeps the number of nodes, their values and their operations,
/// and a node has a gradient after it exactly if it had one before.
pub proof fn lemma_propagated_keeps_nodes<S: Scalar>(nodes: Seq<GradientView<S>>, out: int)
    requires
        0 <= out,
    ensures
        propagated(nodes, out).len() == nodes.len(),
        forall|p: int|
            0 <= p < nodes.len() ==> {
                &&& (#[trigger] propagated(nodes, out)[p]).last == nodes[p].last
                &&& propagated(nodes, out)[p].operation == nodes[p].operation
                &&& propagated(nodes, out)[p].value == settled(nodes, out, p)
                &&& (propagated(nodes, out)[p].value is Some <==> nodes[p].value is Some)
            },
{
    assert forall|p: int| 0 <= p < nodes.len() implies (#[trigger] propagated(
        nodes,
        out,
    )[p]).value is Some <==> nodes[p].value is Some by {
        lemma_gradient_stays(nodes, out, p, 0);
    }
}

/// A node that feeds one operation `c` on which the output depends, and no
/// other node up to the output, ends with its old gradient plus what `c`
/// hands it.
pub proof fn lemma_one_consumer<S: Scalar>(nodes: Seq<GradientView<S>>, out: int, p: int, c: int)
    requires
        graph_wf(nodes),
        0 <= p < c <= out < nodes.len(),
        nodes[p].value is Some,
        nodes[c].operation.has_operand(p),
        contributes(nodes, out, c),
        forall|d: int| 0 <= d <= out && d != c ==> !(#[trigger] nodes[d]).operation.has_operand(p),
    ensures
        settled(nodes, out, c) is Some,
        settled(nodes, out, p) == Some(
            pushed(nodes, c, p, settled(nodes, out, c).unwrap(), nodes[p].value.unwrap()),
        ),
{
    lemma_settled_on_arrival(nodes, out, c);
    lemma_unused_keeps_gradient(nodes, out, p, 0, c);
    lemma_unused_keeps_gradient(nodes, out, p, c + 1, out + 1);
    lemma_gradient_stays(nodes, out, p, c + 1);
    assert(accumulated(nodes, out, p, out + 1) == nodes[p].value);
    assert(accumulated(nodes, out, p, c) == Some(
        pushed(
            nodes,
            c,
            p,
            accumulated(nodes, out, c, c + 1).unwrap(),
            accumulated(nodes, out, p, c + 1).unwrap(),
        ),
    ));
}

/// Fan-out: a node that feeds two operations `near` and `far`, both of which
/// the output depends on, and no other node up to the output, ends with its
/// old gradient plus the partial that `far` hands it plus the partial that
/// `near` hands it. Neither path replaces the other.
pub proof fn lemma_two_consumers<S: Scalar>(
    nodes: Seq<GradientView<S>>,
    out: int,
    p: int,
    near: int,
    far: int,
)
    requires
        graph_wf(nodes),
        0 <= p < near < far <= out < nodes.len(),
        nodes[p].value is Some,
        nodes[near].operation.has_operand(p),
        nodes[far].operation.has_operand(p),
        contributes(nodes, out, near),
        contributes(nodes, out, far),
        forall|d: int|
            0 <= d <= out && d != near && d != far ==> !(#[trigger] nodes[d]).operation.has_operand(
                p,
            ),
    ensures
        settled(nodes, out, near) is Some,
        settled(nodes, out, far) is Some,
        settled(nodes, out, p) == Some(
            pushed(
                nodes,
                near,
                p,
                settled(nodes, out, near).unwrap(),
                pushed(nodes, far, p, settled(nodes, out, far).unwrap(), nodes[p].value.unwrap()),
            ),
        ),
{
    lemma_settled_on_arrival(nodes, out, near);
    lemma_settled_on_arrival(nodes, out, far);
    lemma_unused_keeps_gradient(nodes, out, p, 0, near);
    lemma_unused_keeps_gradient(nodes, out, p, near + 1, far);
    lemma_unused_keeps_gradient(nodes, out, p, far + 1, out + 1);
    lemma_gradient_stays(nodes, out, p, far + 1);
    lemma_gradient_stays(nodes, out, p, near + 1);
    assert(accumulated(nodes, out, p, out + 1) == nodes[p].value);
    assert(accumulated(nodes, out, p, far) == Some(
        pushed(
            nodes,
            far,
            p,
            accumulated(nodes, out, far, far + 1).unwrap(),
            accumulated(nodes, out, p, far + 1).unwrap(),
        ),
    ));
    assert(accumulated(nodes, out, p, near) == Some(
        pushed(
            nodes,
            near,
            p,
            accumulated(nodes, out, near, near + 1).unwrap(),
            accumulated(nodes, out, p, near + 1).unwrap(),
        ),
    ));
}

} // verus!
