use llm_rs::dense::Dense;
use llm_rs::nn::{Linear, Model, Module, ReLU};
use llm_rs::operations::{Differentiable, Gradient, GradientOperation, Graph, Parents};
use llm_rs::optimizer::{Optimizer, StochasticGradientDescent};
use llm_rs::scalar::Scalar;
use llm_rs::tensor::Tensor;

/// The grid with the given rows.
fn grid(values: &[&[i64]]) -> Dense<i64> {
    Dense::from_vector(values.iter().map(|row| row.to_vec()).collect())
}

/// The tensor with the given rows.
fn rows(values: &[&[i64]], graph: &mut Graph<i64>) -> Tensor {
    Tensor::from_dense(grid(values), graph)
}

/// The cells of a grid, row by row.
fn cells(value: &Dense<i64>) -> Vec<Vec<i64>> {
    let (m, _) = value.size();
    (0..m).map(|i| value.index(i).clone()).collect()
}

/// The cells of the value of a tensor, row by row.
fn value(tensor: &Tensor, graph: &Graph<i64>) -> Vec<Vec<i64>> {
    cells(graph.cells(tensor.gradient))
}

/// The cells of the gradient of a tensor, row by row.
fn gradient(tensor: &Tensor, graph: &Graph<i64>) -> Vec<Vec<i64>> {
    cells(&tensor.grad(graph))
}

#[test]
fn adding_then_subtracting_gives_the_first_tensor_back() {
    let a = grid(&[&[1, -2, i64::MAX], &[i64::MIN, 0, 7]]);
    let b = grid(&[&[5, 9, 1], &[-1, i64::MAX, i64::MIN]]);
    assert_eq!(a.plus(&b).minus(&b), a);
    assert_eq!(cells(&a.plus(&b).minus(&b)), cells(&a));

    let mut graph = Graph::new();
    let a = Tensor::from_dense(a, &mut graph);
    let b = Tensor::from_dense(b, &mut graph);
    let sum = a.add(&b, &mut graph);
    let back = sum.sub(&b, &mut graph);
    assert!(back.equals(&a, &graph));
    assert_eq!(value(&back, &graph), value(&a, &graph));
}

#[test]
fn transposing_twice_gives_the_tensor_back() {
    let a = grid(&[&[1, 2, 3], &[4, 5, 6]]);
    assert_eq!(a.transpose().transpose(), a);
    assert_eq!(a.transpose().size(), (3, 2));

    let one_empty_row: Dense<i64> = Dense::empty();
    assert_eq!(one_empty_row.size(), (1, 0));
    assert_eq!(one_empty_row.transpose().size(), (0, 1));
    assert_eq!(one_empty_row.transpose().transpose().size(), (1, 0));
    assert_eq!(one_empty_row.transpose().transpose(), one_empty_row);

    let nothing: Dense<i64> = Dense::from_vector(vec![]);
    assert_eq!(nothing.transpose().transpose(), nothing);

    let mut graph = Graph::new();
    let t = rows(&[&[1, 2, 3], &[4, 5, 6]], &mut graph);
    let back = t.transpose(&mut graph).transpose(&mut graph);
    assert!(back.equals(&t, &graph));
    assert_ne!(back.metadata(), t.metadata());
}

#[test]
fn matrix_product_is_associative_on_integers() {
    let a = grid(&[&[1, 2], &[3, 4], &[5, 6]]);
    let b = grid(&[&[7, 8, 9, 10], &[11, 12, 13, 14]]);
    let c = grid(&[&[1], &[-2], &[3], &[-4]]);
    let left = a.times(&b).times(&c);
    let right = a.times(&b.times(&c));
    assert_eq!(left, right);
    assert_eq!(cells(&left), vec![vec![-82], vec![-186], vec![-290]]);

    let mut graph = Graph::new();
    let (a, b, c) = (
        Tensor::from_dense(a, &mut graph),
        Tensor::from_dense(b, &mut graph),
        Tensor::from_dense(c, &mut graph),
    );
    let left = a.mul(&b, &mut graph).mul(&c, &mut graph);
    let inner = b.mul(&c, &mut graph);
    let right = a.mul(&inner, &mut graph);
    assert_eq!(left.size(&graph), (3, 1));
    assert_eq!(right.size(&graph), (3, 1));
    assert!(left.equals(&right, &graph));
}

#[test]
fn matrix_product_adds_up_inner_products() {
    let a = grid(&[&[1, 2, 3], &[4, 5, 6]]);
    let b = grid(&[&[7, 8], &[9, 10], &[11, 12]]);
    assert_eq!(cells(&a.times(&b)), vec![vec![58, 64], vec![139, 154]]);
    assert_eq!(a.times(&b).size(), (2, 2));
    let empty_inner: Dense<i64> = Dense::empty();
    let product = empty_inner.times(&empty_inner.transpose());
    assert_eq!(cells(&product), vec![vec![0]]);
}

#[test]
fn every_tensor_has_its_node_from_the_start_and_copies_share_it() {
    let mut graph = Graph::new();
    let x = Tensor::singleton(3i64, &mut graph);
    assert_eq!(graph.len(), 1);
    assert_eq!(x.metadata(), 0);
    assert!(graph.holds(&x));
    assert!(!graph.tracks(&x));
    assert_eq!(graph.node(0).operation, GradientOperation::Leaf);
    let copy = x.clone();
    let named = x.clone().named("x".to_string());
    let y = x.neg(&mut graph);
    assert_eq!(graph.node(1).operation, GradientOperation::Neg(0));
    let enabled = x.with_grad(&mut graph);
    assert_eq!(graph.len(), 2);
    assert_eq!(enabled.metadata(), copy.metadata());
    assert_eq!(named.metadata(), copy.metadata());
    assert_eq!(named.name, "x");
    assert_eq!(copy.name, "");
    assert!(graph.tracks(&copy));
    assert_eq!(gradient(&copy, &graph), vec![vec![0]]);
    y.set_grad(&mut graph, Dense::singleton(1));
    y.backward(&mut graph);
    assert_eq!(gradient(&enabled, &graph), vec![vec![-1]]);
    assert_eq!(gradient(&copy, &graph), vec![vec![-1]]);
}

#[test]
fn the_rectifier_layer_tags_its_result_with_the_node_of_the_input() {
    let mut graph = Graph::new();
    let input = rows(&[&[-1, 2]], &mut graph);
    let copy = input.clone();
    let layer = ReLU {};
    let y = Module::<i64>::forward(&layer, input, &mut graph);
    assert_eq!(value(&y, &graph), vec![vec![0, 2]]);
    assert_eq!(graph.len(), 2);
    assert_eq!(graph.node(y.metadata()).operation, GradientOperation::ReLU(copy.metadata()));
    let copy = copy.with_grad(&mut graph);
    y.set_grad(&mut graph, grid(&[&[5, 7]]));
    y.backward(&mut graph);
    assert_eq!(gradient(&copy, &graph), vec![vec![0, 7]]);
    assert_eq!(Module::<i64>::parameters(&layer).len(), 0);
    Module::<i64>::reset_grad(&layer, &mut graph);
    assert_eq!(graph.len(), 2);
    assert_eq!(gradient(&copy, &graph), vec![vec![0, 7]]);
}

#[test]
fn a_node_that_feeds_two_operations_gets_both_partials() {
    let mut graph = Graph::new();
    let a = Tensor::singleton(3i64, &mut graph).with_grad(&mut graph);
    let b = a.neg(&mut graph);
    let c = a.pow(2, &mut graph);
    let d = b.add(&c, &mut graph);
    assert_eq!(d.item(&graph), 6);
    d.set_grad(&mut graph, Dense::singleton(1));
    d.backward(&mut graph);
    assert_eq!(b.grad(&graph).item(), 1);
    assert_eq!(c.grad(&graph).item(), 1);
    // -1 from the negation, 2 * 3 from the square
    assert_eq!(a.grad(&graph).item(), 5);
}

#[test]
fn a_node_that_fills_both_places_of_a_product_gets_both_partials() {
    let mut graph = Graph::new();
    let a = Tensor::singleton(5i64, &mut graph).with_grad(&mut graph);
    let y = a.mul(&a, &mut graph);
    assert_eq!(y.item(&graph), 25);
    y.set_grad(&mut graph, Dense::singleton(1));
    y.backward(&mut graph);
    assert_eq!(a.grad(&graph).item(), 10);
}

#[test]
fn a_shared_intermediate_node_passes_its_whole_gradient_on_once() {
    let mut graph = Graph::new();
    let a = Tensor::singleton(3i64, &mut graph).with_grad(&mut graph);
    let b = a.add(&a, &mut graph);
    let c = b.mul(&b, &mut graph);
    let d = c.add(&b, &mut graph);
    // d = 4 a^2 + 2 a
    assert_eq!(d.item(&graph), 42);
    d.set_grad(&mut graph, Dense::singleton(1));
    d.backward(&mut graph);
    // dd/db = 2 b + 1 = 13
    assert_eq!(b.grad(&graph).item(), 13);
    // dd/da = 8 a + 2 = 26
    assert_eq!(a.grad(&graph).item(), 26);
}

#[test]
fn backward_of_a_matrix_product_follows_the_transpose_convention() {
    let mut graph = Graph::new();
    let a = rows(&[&[1, 2, 3], &[4, 5, 6]], &mut graph).with_grad(&mut graph);
    let b = rows(&[&[7, 8], &[9, 10], &[11, 12]], &mut graph).with_grad(&mut graph);
    let y = a.mul(&b, &mut graph);
    let seed = grid(&[&[1, 2], &[3, 4]]);
    y.set_grad(&mut graph, seed.clone());
    y.backward(&mut graph);
    // dy * b^T
    assert_eq!(gradient(&a, &graph), vec![vec![23, 29, 35], vec![53, 67, 81]]);
    assert_eq!(a.grad(&graph), seed.times(&b.last(&graph).transpose()));
    // a^T * dy
    assert_eq!(gradient(&b, &graph), vec![vec![13, 18], vec![17, 24], vec![21, 30]]);
    assert_eq!(b.grad(&graph), a.last(&graph).transpose().times(&seed));
    assert_eq!(y.grad(&graph), seed);
}

#[test]
fn backward_of_negation_and_subtraction() {
    let mut graph = Graph::new();
    let a = rows(&[&[1, 2]], &mut graph).with_grad(&mut graph);
    let b = rows(&[&[5, 7]], &mut graph).with_grad(&mut graph);
    let n = a.neg(&mut graph);
    assert_eq!(value(&n, &graph), vec![vec![-1, -2]]);
    let d = n.sub(&b, &mut graph);
    assert_eq!(value(&d, &graph), vec![vec![-6, -9]]);
    d.set_grad(&mut graph, grid(&[&[3, 4]]));
    d.backward(&mut graph);
    assert_eq!(gradient(&n, &graph), vec![vec![3, 4]]);
    assert_eq!(gradient(&b, &graph), vec![vec![-3, -4]]);
    assert_eq!(gradient(&a, &graph), vec![vec![-3, -4]]);
}

#[test]
fn backward_of_a_power_multiplies_slope_and_incoming_gradient() {
    let mut graph = Graph::new();
    let a = rows(&[&[3, -2]], &mut graph).with_grad(&mut graph);
    let y = a.pow(3, &mut graph);
    assert_eq!(value(&y, &graph), vec![vec![27, -8]]);
    y.set_grad(&mut graph, grid(&[&[5, 7]]));
    y.backward(&mut graph);
    // 3 * 3^2 * 5 and 3 * (-2)^2 * 7
    assert_eq!(gradient(&a, &graph), vec![vec![135, 84]]);
}

#[test]
fn mean_takes_the_total_over_the_count_and_spreads_the_gradient() {
    let mut graph = Graph::new();
    let a = rows(&[&[1, 2], &[3, 6]], &mut graph).with_grad(&mut graph);
    let y = a.mean(&mut graph);
    assert_eq!(y.size(&graph), (1, 1));
    assert_eq!(y.item(&graph), 3);
    assert_eq!(a.last(&graph).total(), 12);
    assert_eq!(a.num_elements(&graph), 4);
    y.set_grad(&mut graph, Dense::singleton(8));
    y.backward(&mut graph);
    assert_eq!(gradient(&a, &graph), vec![vec![2, 2], vec![2, 2]]);
}

#[test]
fn rectifier_passes_the_gradient_where_the_input_is_not_negative() {
    let mut graph = Graph::new();
    let a = rows(&[&[2, -3, 0]], &mut graph).with_grad(&mut graph);
    let y = a.relu(&mut graph);
    assert_eq!(value(&y, &graph), vec![vec![2, 0, 0]]);
    y.set_grad(&mut graph, grid(&[&[5, 6, 7]]));
    y.backward(&mut graph);
    assert_eq!(gradient(&a, &graph), vec![vec![5, 0, 7]]);
}

#[test]
fn backward_adds_to_what_is_there_and_keeps_values() {
    let mut graph = Graph::new();
    let a = Tensor::singleton(4i64, &mut graph).with_grad(&mut graph);
    a.set_grad(&mut graph, Dense::singleton(100));
    let y = a.neg(&mut graph);
    y.set_grad(&mut graph, Dense::singleton(1));
    y.backward(&mut graph);
    assert_eq!(a.grad(&graph).item(), 99);
    y.backward(&mut graph);
    assert_eq!(a.grad(&graph).item(), 98);
    assert_eq!(a.last(&graph).item(), 4);
    assert_eq!(y.last(&graph).item(), -4);
    assert_eq!(graph.len(), 2);
}

#[test]
fn nodes_outside_the_history_of_the_output_are_left_alone() {
    let mut graph = Graph::new();
    let a = Tensor::singleton(4i64, &mut graph).with_grad(&mut graph);
    let other = Tensor::singleton(9i64, &mut graph).with_grad(&mut graph);
    let stale = other.neg(&mut graph);
    stale.set_grad(&mut graph, Dense::singleton(50));
    let y = a.pow(2, &mut graph);
    y.set_grad(&mut graph, Dense::singleton(1));
    y.backward(&mut graph);
    assert_eq!(a.grad(&graph).item(), 8);
    assert_eq!(other.grad(&graph).item(), 0);
    assert_eq!(stale.grad(&graph).item(), 50);
}

#[test]
fn a_leaf_without_gradient_receives_nothing() {
    let mut graph = Graph::new();
    let a = Tensor::singleton(4i64, &mut graph);
    let b = Tensor::singleton(6i64, &mut graph).with_grad(&mut graph);
    let y = a.mul(&b, &mut graph);
    assert_eq!(graph.len(), 3);
    assert_eq!(graph.node(2).operation, GradientOperation::Mul(0, 1));
    assert_eq!(y.metadata(), 2);
    y.set_grad(&mut graph, Dense::singleton(1));
    y.backward(&mut graph);
    assert_eq!(b.grad(&graph).item(), 4);
    assert!(graph.node(0).value.is_none());
    assert!(!graph.tracks(&a));
}

#[test]
fn enabling_gradients_twice_changes_nothing() {
    let mut graph = Graph::new();
    let a = Tensor::singleton(4i64, &mut graph).with_grad(&mut graph);
    a.set_grad(&mut graph, Dense::singleton(3));
    let again = a.clone().with_grad(&mut graph);
    assert_eq!(graph.len(), 1);
    assert_eq!(again.metadata(), a.metadata());
    assert_eq!(again.grad(&graph).item(), 3);
    assert!(graph.tracks(&again));
}

#[test]
fn gradients_can_be_added_set_and_reset() {
    let mut graph = Graph::new();
    let a = rows(&[&[1, 2]], &mut graph).with_grad(&mut graph);
    assert_eq!(gradient(&a, &graph), vec![vec![0, 0]]);
    a.add_grad(&mut graph, grid(&[&[5, 6]]));
    a.add_grad(&mut graph, grid(&[&[1, 1]]));
    assert_eq!(gradient(&a, &graph), vec![vec![6, 7]]);
    a.set_grad(&mut graph, grid(&[&[9, 9]]));
    assert_eq!(gradient(&a, &graph), vec![vec![9, 9]]);
    a.reset_grad(&mut graph);
    assert_eq!(gradient(&a, &graph), vec![vec![0, 0]]);

    let plain = rows(&[&[1, 2]], &mut graph);
    plain.add_grad(&mut graph, grid(&[&[5, 6]]));
    assert!(!graph.tracks(&plain));
    plain.reset_grad(&mut graph);
    assert_eq!(gradient(&plain, &graph), vec![vec![0, 0]]);
}

#[test]
fn a_tensor_shows_the_current_value_of_its_node() {
    let mut graph = Graph::new();
    let a = rows(&[&[1, 2]], &mut graph).with_grad(&mut graph);
    let copy = a.clone();
    a.set_last(&mut graph, grid(&[&[10, 20]]));
    assert_eq!(cells(&a.last(&graph)), vec![vec![10, 20]]);
    assert_eq!(copy.get(0, 1, &graph), 20);
    assert_eq!(copy.index(0, &graph), &vec![10, 20]);
    assert_eq!(copy.to_string(&graph), "[[10 20]]");
    a.sub_assign(&grid(&[&[1, 1]]), &mut graph);
    assert_eq!(value(&copy, &graph), vec![vec![9, 19]]);
    a.add_assign(&grid(&[&[2, 2]]), &mut graph);
    assert_eq!(value(&copy, &graph), vec![vec![11, 21]]);
    a.set(0, 0, 7, &mut graph);
    assert_eq!(value(&copy, &graph), vec![vec![7, 21]]);
    let y = copy.neg(&mut graph);
    assert_eq!(value(&y, &graph), vec![vec![-7, -21]]);
    assert_eq!(gradient(&a, &graph), vec![vec![0, 0]]);
}

#[test]
fn a_node_is_appended_only_if_it_fits() {
    let mut graph: Graph<i64> = Graph::new();
    let leaf = Gradient {
        operation: GradientOperation::Leaf,
        last: grid(&[&[1, 2]]),
        value: Some(grid(&[&[0, 0]])),
    };
    assert!(leaf.fits(&graph));
    assert_eq!(leaf.wrap(&mut graph), Some(0));

    let wrong_gradient = Gradient {
        operation: GradientOperation::Leaf,
        last: grid(&[&[1, 2]]),
        value: Some(grid(&[&[0]])),
    };
    assert!(!wrong_gradient.fits(&graph));
    assert_eq!(wrong_gradient.wrap(&mut graph), None);

    let no_such_operand = Gradient {
        operation: GradientOperation::Neg(1),
        last: grid(&[&[1, 2]]),
        value: None,
    };
    assert_eq!(no_such_operand.wrap(&mut graph), None);

    let wrong_shape = Gradient {
        operation: GradientOperation::Neg(0),
        last: grid(&[&[1]]),
        value: None,
    };
    assert_eq!(wrong_shape.wrap(&mut graph), None);

    let negation = Gradient {
        operation: GradientOperation::Neg(0),
        last: grid(&[&[-1, -2]]),
        value: Some(grid(&[&[1, 1]])),
    };
    assert_eq!(negation.wrap(&mut graph), Some(1));
    assert_eq!(graph.len(), 2);

    let product = Gradient {
        operation: GradientOperation::Mul(0, 1),
        last: grid(&[&[0]]),
        value: None,
    };
    // one row of two columns times one row of two columns
    assert_eq!(product.wrap(&mut graph), None);

    let mean = Gradient {
        operation: GradientOperation::Mean(1),
        last: grid(&[&[0]]),
        value: None,
    };
    assert_eq!(mean.wrap(&mut graph), Some(2));

    graph.propagate(1);
    assert_eq!(cells(graph.node(0).value.as_ref().unwrap()), vec![vec![-1, -1]]);
    graph.set_value(0, grid(&[&[4, 4]]));
    assert_eq!(cells(graph.node(0).value.as_ref().unwrap()), vec![vec![4, 4]]);
    assert_eq!(graph.insert(grid(&[&[8]])), 3);
    assert!(graph.node(3).value.is_none());

    let start: Gradient<i64> = Gradient::default();
    assert_eq!(start.operation, GradientOperation::Leaf);
    assert!(start.value.is_none());
    assert_eq!(start.last.size(), (1, 1));
    assert_eq!(start.last.item(), 0);
}

#[test]
fn constructors_give_the_shapes_they_promise() {
    assert_eq!(Dense::fill(2, 3, 7i64).size(), (2, 3));
    assert_eq!(cells(&Dense::fill(2, 3, 7i64)), vec![vec![7, 7, 7], vec![7, 7, 7]]);
    assert_eq!(Dense::fill(0, 3, 7i64).size(), (0, 0));
    assert_eq!(Dense::fill(3, 0, 7i64).size(), (0, 0));
    assert_eq!(cells(&Dense::<i64>::zeros(1, 2)), vec![vec![0, 0]]);
    assert_eq!(cells(&Dense::<i64>::ones(2, 1)), vec![vec![1], vec![1]]);
    assert_eq!(Dense::singleton(9i64).size(), (1, 1));
    assert_eq!(Dense::singleton(9i64).item(), 9);
    assert_eq!(Dense::<i64>::from_vector(vec![]).size(), (0, 0));
    assert_eq!(Dense::<i64>::from_vector(vec![vec![], vec![]]).size(), (0, 0));
    assert_eq!(Dense::from_vector(vec![vec![1i64], vec![2]]).size(), (2, 1));
    assert_eq!(Dense::from_array(&[&[1i64, 2][..], &[3, 4][..]]).size(), (2, 2));
    assert_eq!(Dense::<i64>::empty().size(), (1, 0));
    assert_eq!(Dense::<i64>::empty().num_elements(), 0);
    assert_eq!(Dense::<i64>::default().size(), (1, 1));
    assert_eq!(Dense::<i64>::default().item(), 0);
    assert_eq!(Dense::fill(2, 3, 7i64).num_elements(), 6);

    let mut graph: Graph<i64> = Graph::new();
    let made = vec![
        (Tensor::fill(2, 3, 7, &mut graph), (2, 3)),
        (Tensor::fill(0, 3, 7, &mut graph), (0, 0)),
        (Tensor::zeros(1, 2, &mut graph), (1, 2)),
        (Tensor::ones(2, 1, &mut graph), (2, 1)),
        (Tensor::singleton(9, &mut graph), (1, 1)),
        (Tensor::from_vector(vec![], &mut graph), (0, 0)),
        (Tensor::from_vector(vec![vec![1], vec![2]], &mut graph), (2, 1)),
        (Tensor::from_array(&[&[1, 2][..], &[3, 4][..]], &mut graph), (2, 2)),
        (Tensor::empty(&mut graph), (1, 0)),
    ];
    assert_eq!(graph.len(), made.len());
    for (index, (tensor, size)) in made.iter().enumerate() {
        assert_eq!(tensor.metadata(), index);
        assert_eq!(tensor.size(&graph), *size);
        assert_eq!(tensor.name, "");
        assert!(!graph.tracks(tensor));
        assert_eq!(graph.node(index).operation, GradientOperation::Leaf);
    }
    assert_eq!(value(&made[0].0, &graph), vec![vec![7, 7, 7], vec![7, 7, 7]]);
    assert_eq!(value(&made[2].0, &graph), vec![vec![0, 0]]);
    assert_eq!(value(&made[3].0, &graph), vec![vec![1], vec![1]]);
    assert_eq!(made[4].0.item(&graph), 9);
    assert_eq!(value(&made[7].0, &graph), vec![vec![1, 2], vec![3, 4]]);
    assert_eq!(made[0].0.num_elements(&graph), 6);
}

#[test]
fn rows_are_stacked_by_concat() {
    let a = grid(&[&[1, 2], &[3, 4]]);
    let b = grid(&[&[5, 6]]);
    let stacked = a.concat(&b);
    assert_eq!(stacked.size(), (3, 2));
    assert_eq!(cells(&stacked), vec![vec![1, 2], vec![3, 4], vec![5, 6]]);
    assert_eq!(cells(&b.concat(&a)), vec![vec![5, 6], vec![1, 2], vec![3, 4]]);

    let mut graph = Graph::new();
    let (a, b) = (Tensor::from_dense(a, &mut graph), Tensor::from_dense(b, &mut graph));
    let stacked = a.concat(&b, &mut graph);
    assert_eq!(value(&stacked, &graph), vec![vec![1, 2], vec![3, 4], vec![5, 6]]);
    assert_eq!(graph.node(stacked.metadata()).operation, GradientOperation::Leaf);
}

#[test]
fn equality_looks_at_shape_and_cells_only() {
    let mut graph = Graph::new();
    let a = rows(&[&[1, 2]], &mut graph);
    let named = rows(&[&[1, 2]], &mut graph).named("w".to_string()).with_grad(&mut graph);
    assert!(a.equals(&named, &graph));
    let tall = rows(&[&[1], &[2]], &mut graph);
    let other = rows(&[&[1, 3]], &mut graph);
    assert!(!a.equals(&tall, &graph));
    assert!(!a.equals(&other, &graph));
    assert_ne!(Dense::<i64>::empty(), Dense::<i64>::from_vector(vec![]));
    assert_eq!(grid(&[&[1, 2]]), grid(&[&[1, 2]]));
    assert_ne!(grid(&[&[1, 2]]), grid(&[&[1, 3]]));
    let copy = named.clone();
    assert_eq!(copy.metadata(), named.metadata());
    assert_eq!(copy.name, "w");
}

#[test]
fn cells_can_be_read_written_and_mapped() {
    let mut a = grid(&[&[1, 2], &[3, 4]]);
    a.set(1, 0, 30);
    assert_eq!(cells(&a), vec![vec![1, 2], vec![30, 4]]);
    assert_eq!(a.get(1, 0), 30);
    assert_eq!(a.index(1), &vec![30, 4]);
    let mapped = a.apply(|i, j, t: &Dense<i64>| t.get(i, j) * 10 + (i as i64) - (j as i64));
    assert_eq!(cells(&mapped), vec![vec![10, 19], vec![301, 40]]);

    let mut graph = Graph::new();
    let t = Tensor::from_dense(a, &mut graph);
    let mapped = t.apply(|i, j, t: &Dense<i64>| t.get(i, j) + (i as i64) * (j as i64), &mut graph);
    assert_eq!(value(&mapped, &graph), vec![vec![1, 2], vec![30, 5]]);
    assert_eq!(value(&t, &graph), vec![vec![1, 2], vec![30, 4]]);
}

#[test]
fn arithmetic_on_values_records_nothing() {
    let a = grid(&[&[1, -2], &[3, 4]]);
    let b = grid(&[&[10, 20], &[30, 40]]);
    assert_eq!(cells(&a.negated()), vec![vec![-1, 2], vec![-3, -4]]);
    assert_eq!(cells(&a.plus(&b)), vec![vec![11, 18], vec![33, 44]]);
    assert_eq!(cells(&a.minus(&b)), vec![vec![-9, -22], vec![-27, -36]]);
    assert_eq!(cells(&a.scaled(3)), vec![vec![3, -6], vec![9, 12]]);
    assert_eq!(cells(&a.powered(2)), vec![vec![1, 4], vec![9, 16]]);
    assert_eq!(cells(&a.rectified()), vec![vec![1, 0], vec![3, 4]]);
    assert_eq!(cells(&b.gated(&a)), vec![vec![10, 0], vec![30, 40]]);
    assert_eq!(cells(&a.power_slope(2, &b)), vec![vec![20, -80], vec![180, 320]]);
    assert_eq!(cells(&a.averaged()), vec![vec![1]]);
    assert_eq!(cells(&Dense::singleton(12i64).spread(2, 3)), vec![vec![2, 2, 2], vec![2, 2, 2]]);
    let mut c = a.clone();
    c.add_assign(&b);
    assert_eq!(cells(&c), vec![vec![11, 18], vec![33, 44]]);
    c.sub_assign(&a);
    assert_eq!(c, b);
}

#[test]
fn tensors_are_written_out_with_brackets_and_blanks() {
    assert_eq!(grid(&[&[1, -2], &[3, 4]]).to_string(), "[[1 -2] [3 4]]");
    assert_eq!(grid(&[&[7]]).to_string(), "[[7]]");
    assert_eq!(Dense::<i64>::empty().to_string(), "[[]]");
    assert_eq!(Dense::<i64>::from_vector(vec![]).to_string(), "[]");
    let mut graph = Graph::new();
    assert_eq!(rows(&[&[1, -2], &[3, 4]], &mut graph).to_string(&graph), "[[1 -2] [3 4]]");
}

#[test]
fn integers_are_written_out_in_decimal() {
    assert_eq!(0i64.to_text(), "0");
    assert_eq!(7i64.to_text(), "7");
    assert_eq!(10i64.to_text(), "10");
    assert_eq!((-305i64).to_text(), "-305");
    assert_eq!(i64::MAX.to_text(), "9223372036854775807");
    assert_eq!(i64::MIN.to_text(), "-9223372036854775808");
}

#[test]
fn integer_cells_wrap_around_and_divide_totally() {
    assert_eq!(Scalar::add(&i64::MAX, &1), i64::MIN);
    assert_eq!(Scalar::sub(&i64::MIN, &1), i64::MAX);
    assert_eq!(Scalar::mul(&i64::MAX, &2), -2);
    assert_eq!(Scalar::neg(&5i64), -5);
    assert_eq!(Scalar::neg(&i64::MIN), i64::MIN);
    assert_eq!(Scalar::div(&7i64, &2), 3);
    assert_eq!(Scalar::div(&-7i64, &2), -3);
    assert_eq!(Scalar::div(&7i64, &0), 0);
    assert_eq!(Scalar::div(&i64::MIN, &-1), i64::MIN);
    assert_eq!(Scalar::powi(&3i64, 4), 81);
    assert_eq!(Scalar::powi(&3i64, 0), 1);
    assert_eq!(Scalar::powi(&2i64, 64), 0);
    assert_eq!(Scalar::powi(&2i64, -1), 0);
    assert_eq!(Scalar::powi(&1i64, -3), 1);
    assert_eq!(Scalar::powi(&-1i64, -3), -1);
    assert_eq!(Scalar::powi(&0i64, -1), 0);
    assert!(Scalar::nonnegative(&0i64));
    assert!(!Scalar::nonnegative(&-1i64));
    assert!(Scalar::eq(&4i64, &4));
    assert!(!Scalar::eq(&4i64, &5));
    assert_eq!(<i64 as Scalar>::from_int(-9), -9);
    assert_eq!(<i64 as Scalar>::from_count(12), 12);
    assert_eq!(<i64 as Scalar>::from_count(usize::MAX), (usize::MAX as u64) as i64);
}

#[test]
fn a_linear_layer_adds_its_bias_to_every_row() {
    let mut graph: Graph<i64> = Graph::new();
    let layer = Linear::new(2, 3, &mut graph);
    assert_eq!(layer.size, (2, 3));
    assert_eq!(graph.len(), 2);
    assert_eq!(value(&layer.weights, &graph), vec![vec![1, 1, 1], vec![1, 1, 1]]);
    assert_eq!(value(&layer.bias, &graph), vec![vec![1, 1, 1]]);
    assert!(graph.tracks(&layer.weights));
    assert!(graph.tracks(&layer.bias));
    layer.weights.set_last(&mut graph, grid(&[&[1, 2, 3], &[4, 5, 6]]));
    layer.bias.set_last(&mut graph, grid(&[&[10, 20, 30]]));

    let x = rows(&[&[1, 1], &[2, 0]], &mut graph).with_grad(&mut graph);
    let y = layer.forward(x.clone(), &mut graph);
    assert_eq!(value(&y, &graph), vec![vec![15, 27, 39], vec![12, 24, 36]]);
    assert_eq!(graph.len(), 7);

    layer.backward(y, &mut graph);
    // the sum over the rows of a gradient of ones
    assert_eq!(gradient(&layer.bias, &graph), vec![vec![2, 2, 2]]);
    // x^T times a gradient of ones
    assert_eq!(gradient(&layer.weights, &graph), vec![vec![3, 3, 3], vec![1, 1, 1]]);
    // a gradient of ones times w^T
    assert_eq!(gradient(&x, &graph), vec![vec![6, 15], vec![6, 15]]);

    layer.reset_grad(&mut graph);
    assert_eq!(gradient(&layer.bias, &graph), vec![vec![0, 0, 0]]);
    assert_eq!(gradient(&layer.weights, &graph), vec![vec![0, 0, 0], vec![0, 0, 0]]);
    assert_eq!(gradient(&x, &graph), vec![vec![6, 15], vec![6, 15]]);

    let parameters = Module::<i64>::parameters(&layer);
    assert_eq!(parameters.len(), 2);
    assert_eq!(parameters[0].metadata(), 0);
    assert_eq!(parameters[1].metadata(), 1);
}

#[test]
fn a_model_runs_its_modules_in_order() {
    let mut graph: Graph<i64> = Graph::new();
    let first = Linear::new(1, 2, &mut graph);
    let second = Linear::new(2, 1, &mut graph);
    first.weights.set_last(&mut graph, grid(&[&[1, -1]]));
    first.bias.set_last(&mut graph, grid(&[&[0, 0]]));
    second.weights.set_last(&mut graph, grid(&[&[2], &[3]]));
    second.bias.set_last(&mut graph, grid(&[&[5]]));
    let inner = Model::new(vec![Box::new(first), Box::new(ReLU {})]);
    let model = Model::new(vec![Box::new(inner), Box::new(second)]);

    let parameters = model.parameters();
    let handles: Vec<usize> = parameters.iter().map(|p| p.metadata()).collect();
    assert_eq!(handles, vec![0, 1, 2, 3]);

    // 4 -> (4, -4) -> (4, 0) -> 8 + 5
    let input = Tensor::singleton(4, &mut graph);
    let y = model.forward(input, &mut graph);
    assert_eq!(y.item(&graph), 13);
    model.backward(y, &mut graph);
    assert_eq!(gradient(&parameters[3], &graph), vec![vec![1]]);
    assert_eq!(gradient(&parameters[2], &graph), vec![vec![4], vec![0]]);
    assert_eq!(gradient(&parameters[1], &graph), vec![vec![2, 0]]);
    assert_eq!(gradient(&parameters[0], &graph), vec![vec![8, 0]]);

    model.reset_grad(&mut graph);
    for parameter in parameters.iter() {
        let (m, n) = parameter.size(&graph);
        assert_eq!(parameter.grad(&graph), Dense::fill(m, n, 0));
    }

    let nothing: Model<i64> = Model::new(vec![]);
    let before = graph.len();
    let input = Tensor::singleton(4, &mut graph);
    let same = nothing.forward(input.clone(), &mut graph);
    assert_eq!(same.item(&graph), 4);
    assert_eq!(same.metadata(), input.metadata());
    assert_eq!(graph.len(), before + 1);
    assert_eq!(nothing.parameters().len(), 0);
}

#[test]
fn the_backward_pass_of_a_module_seeds_the_loss_with_ones() {
    let mut graph = Graph::new();
    let a = rows(&[&[3, 4]], &mut graph).with_grad(&mut graph);
    let loss = a.pow(2, &mut graph);
    let layer = ReLU {};
    Module::<i64>::backward(&layer, loss.clone(), &mut graph);
    assert_eq!(gradient(&loss, &graph), vec![vec![1, 1]]);
    assert_eq!(gradient(&a, &graph), vec![vec![6, 8]]);
}

#[test]
fn a_step_of_gradient_descent_takes_rate_times_gradient_away() {
    let mut graph = Graph::new();
    let w = rows(&[&[10, 20]], &mut graph).with_grad(&mut graph);
    let b = Tensor::singleton(7i64, &mut graph).with_grad(&mut graph);
    w.set_grad(&mut graph, grid(&[&[4, -1]]));
    b.set_grad(&mut graph, Dense::singleton(3));
    let optimizer = StochasticGradientDescent::new(2, vec![w.clone(), b.clone()]);
    optimizer.step(&mut graph);
    // the tensors themselves show the new values
    assert_eq!(value(&w, &graph), vec![vec![2, 22]]);
    assert_eq!(b.item(&graph), 1);
    // gradients stay, so a second step applies them again
    assert_eq!(gradient(&w, &graph), vec![vec![4, -1]]);
    optimizer.step(&mut graph);
    assert_eq!(value(&w, &graph), vec![vec![-6, 24]]);
    assert_eq!(b.item(&graph), -5);

    let twice = StochasticGradientDescent::new(1, vec![b.clone(), b.clone()]);
    twice.step(&mut graph);
    assert_eq!(b.item(&graph), -11);
}

#[test]
fn results_are_named_after_their_operands() {
    let mut graph = Graph::new();
    let a = Tensor::singleton(3i64, &mut graph).named("a".to_string());
    let b = rows(&[&[4]], &mut graph).named("b".to_string());
    let plain = rows(&[&[1, -2]], &mut graph);
    assert_eq!(a.neg(&mut graph).name, "(- a)");
    assert_eq!(a.relu(&mut graph).name, "(ReLU a)");
    assert_eq!(a.mean(&mut graph).name, "(Mean a)");
    assert_eq!(a.pow(2, &mut graph).name, "(a^2)");
    assert_eq!(a.pow(-3, &mut graph).name, "(a^-3)");
    assert_eq!(a.add(&b, &mut graph).name, "(a + b)");
    assert_eq!(a.sub(&b, &mut graph).name, "(a - b)");
    let product = a.mul(&b, &mut graph);
    assert_eq!(product.name, "(a * b)");
    assert_eq!(product.neg(&mut graph).name, "(- (a * b))");
    assert_eq!(plain.neg(&mut graph).name, "(- [[1 -2]])");
    assert_eq!(plain.add(&plain, &mut graph).name, "([[1 -2]] + [[1 -2]])");
    assert_eq!(plain.transpose(&mut graph).name, "");
}

#[test]
fn an_operation_names_its_operands() {
    assert_eq!(GradientOperation::Leaf.parents(), Parents::Leaf);
    assert_eq!(GradientOperation::Neg(3).parents(), Parents::Unary(3));
    assert_eq!(GradientOperation::ReLU(4).parents(), Parents::Unary(4));
    assert_eq!(GradientOperation::Pow(5, 2).parents(), Parents::Unary(5));
    assert_eq!(GradientOperation::Mean(6).parents(), Parents::Unary(6));
    assert_eq!(GradientOperation::Add(1, 2).parents(), Parents::Binary(1, 2));
    assert_eq!(GradientOperation::Sub(2, 1).parents(), Parents::Binary(2, 1));
    assert_eq!(GradientOperation::Mul(7, 7).parents(), Parents::Binary(7, 7));
    let mut graph = Graph::new();
    let a = Tensor::singleton(3i64, &mut graph);
    let b = Tensor::singleton(4i64, &mut graph);
    let y = b.sub(&a, &mut graph);
    assert_eq!(graph.node(y.metadata()).operation.parents(), Parents::Binary(1, 0));
}
