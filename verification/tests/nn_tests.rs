use llm_rs::data::TestData;
use llm_rs::dense::Dense;
use llm_rs::nn::{Linear, Model, Module, ReLU};
use llm_rs::operations::{Differentiable, Graph};
use llm_rs::optimizer::{Optimizer, StochasticGradientDescent};
use llm_rs::scalar::Scalar;
use llm_rs::tensor::Tensor;

/// A 64-bit floating-point cell.
#[derive(Clone, Copy, Debug, PartialEq)]
struct Real(f64);

impl Scalar for Real {
    fn from_int_spec(n: i32) -> Self {
        Real(n as f64)
    }

    fn from_count_spec(n: usize) -> Self {
        Real(n as f64)
    }

    fn add_spec(self, rhs: Self) -> Self {
        Real(self.0 + rhs.0)
    }

    fn sub_spec(self, rhs: Self) -> Self {
        Real(self.0 - rhs.0)
    }

    fn mul_spec(self, rhs: Self) -> Self {
        Real(self.0 * rhs.0)
    }

    fn div_spec(self, rhs: Self) -> Self {
        Real(self.0 / rhs.0)
    }

    fn neg_spec(self) -> Self {
        Real(-self.0)
    }

    fn powi_spec(self, exp: i32) -> Self {
        Real(self.0.powi(exp))
    }

    fn nonnegative_spec(self) -> bool {
        self.0 >= 0.0
    }

    fn eq_spec(self, rhs: Self) -> bool {
        self.0 == rhs.0
    }

    fn text_spec(self) -> String {
        format!("{}", self.0)
    }

    fn from_int(n: i32) -> Self {
        Real(n as f64)
    }

    fn from_count(n: usize) -> Self {
        Real(n as f64)
    }

    fn add(&self, rhs: &Self) -> Self {
        Real(self.0 + rhs.0)
    }

    fn sub(&self, rhs: &Self) -> Self {
        Real(self.0 - rhs.0)
    }

    fn mul(&self, rhs: &Self) -> Self {
        Real(self.0 * rhs.0)
    }

    fn div(&self, rhs: &Self) -> Self {
        Real(self.0 / rhs.0)
    }

    fn neg(&self) -> Self {
        Real(-self.0)
    }

    fn powi(&self, exp: i32) -> Self {
        Real(self.0.powi(exp))
    }

    fn nonnegative(&self) -> bool {
        self.0 >= 0.0
    }

    fn eq(&self, rhs: &Self) -> bool {
        self.0 == rhs.0
    }

    fn to_text(&self) -> String {
        format!("{}", self.0)
    }
}

/// The tensor with the given rows.
#[allow(dead_code)]
fn rows(values: &[&[f64]], graph: &mut Graph<Real>) -> Tensor {
    Tensor::from_vector(
        values.iter().map(|row| row.iter().map(|&x| Real(x)).collect()).collect(),
        graph,
    )
}

/// The tensor of the given shape with `value` in every cell.
#[allow(dead_code)]
fn filled(m: usize, n: usize, value: f64, graph: &mut Graph<Real>) -> Tensor {
    Tensor::fill(m, n, Real(value), graph)
}

/// The value of a tensor.
#[allow(dead_code)]
fn value(tensor: &Tensor, graph: &Graph<Real>) -> Dense<Real> {
    graph.cells(tensor.gradient).clone()
}

/// The one-by-one grid that holds `x`.
#[allow(dead_code)]
fn one_cell(x: f64) -> Dense<Real> {
    Dense::singleton(Real(x))
}

/// Whether `value` is within `max_relative` of `expected`, relative to the
/// larger of the two.
fn relative_eq(value: f64, expected: f64, max_relative: f64) -> bool {
    if value == expected {
        return true;
    }
    let difference = (value - expected).abs();
    let largest = value.abs().max(expected.abs());
    difference <= largest * max_relative
}

#[test]
fn nn_tests_learn_linear_equation() {
    let mut graph = Graph::new();
    let m = -3.0;
    let b = 13.0;
    let range = 1..10;
    let train: Vec<TestData> = range
        .map(|x| {
            let x = x as f64;
            TestData {
                input: Tensor::singleton(Real(x), &mut graph).with_grad(&mut graph),
                output: Tensor::singleton(Real(m * x + b), &mut graph).with_grad(&mut graph),
            }
        })
        .collect();
    let learning_rate = 0.01;

    let layer = Linear::new(1, 1, &mut graph);
    let (weights, bias) = (layer.weights.clone(), layer.bias.clone());
    let model = Model::new(vec![Box::new(layer)]);
    let optimizer = StochasticGradientDescent::new(Real(learning_rate), model.parameters());

    let num_epochs = 500;
    for _ in 0..num_epochs {
        for sample in train.clone().into_iter() {
            model.reset_grad(&mut graph);
            // Forward pass
            let (x, y) = (sample.input, sample.output);
            let y_pred = model.forward(x, &mut graph);

            // Backward pass
            let loss = y_pred.sub(&y.clone(), &mut graph).pow(2, &mut graph);
            model.backward(loss, &mut graph);

            // Weight update rule
            optimizer.step(&mut graph);
        }
    }

    println!("y = {}x + {}", weights.item(&graph).0, bias.item(&graph).0);

    assert!(relative_eq(weights.item(&graph).0, m, 1e-5));
    assert!(relative_eq(bias.item(&graph).0, b, 1e-5));
}

fn create_data(x_1: i8, x_2: i8, y: i8, graph: &mut Graph<Real>) -> TestData {
    TestData {
        input: Tensor::from_vector(vec![vec![Real(x_1.into()), Real(x_2.into())]], graph),
        output: Tensor::singleton(Real(y.into()), graph),
    }
}

#[test]
fn learn_xor() {
    let mut graph = Graph::new();
    let train: Vec<TestData> = vec![
        create_data(0, 0, 0, &mut graph),
        create_data(0, 1, 1, &mut graph),
        create_data(1, 0, 1, &mut graph),
        create_data(1, 1, 0, &mut graph),
    ];
    let learning_rate = 0.01;

    let model = Model::new(vec![
        Box::new(Linear::new(2, 4, &mut graph)),
        Box::new(ReLU {}),
        Box::new(Linear::new(4, 1, &mut graph)),
        Box::new(ReLU {}),
    ]);
    let optimizer = StochasticGradientDescent::new(Real(learning_rate), model.parameters());

    let num_epochs = 500;
    for _ in 0..num_epochs {
        for sample in train.clone().into_iter() {
            model.reset_grad(&mut graph);
            // Forward pass
            let (x, y) = (sample.input, sample.output);
            let y_pred = model.forward(x, &mut graph);

            // Backward pass
            let loss = y_pred.sub(&y.clone(), &mut graph).pow(2, &mut graph);
            println!("Loss: {}", loss.clone().to_string(&graph));
            model.backward(loss, &mut graph);

            // Weight update rule
            optimizer.step(&mut graph);
        }
    }

    for sample in train.clone().into_iter() {
        let (x, y) = (sample.input, sample.output);
        let prediction = model.forward(x, &mut graph);
        let (p, y) = (prediction.item(&graph).0, y.item(&graph).0);
        println!("pred: {}, actual: {}", p, y)
    }
}

#[test]
fn a_linear_layer_learns_a_line_in_a_thousand_epochs() {
    let mut graph = Graph::new();
    let m = -3.0;
    let b = 13.0;
    let layer = Linear::new(1, 1, &mut graph);
    let optimizer = StochasticGradientDescent::new(Real(0.01), Module::<Real>::parameters(&layer));
    let train: Vec<TestData> = (1..10)
        .map(|x| {
            let x = x as f64;
            TestData {
                input: Tensor::singleton(Real(x), &mut graph),
                output: Tensor::singleton(Real(m * x + b), &mut graph),
            }
        })
        .collect();

    for _ in 0..1000 {
        for sample in train.iter() {
            layer.reset_grad(&mut graph);
            let y_pred = layer.forward(sample.input.clone(), &mut graph);
            let loss = y_pred.sub(&sample.output, &mut graph).pow(2, &mut graph);
            layer.backward(loss, &mut graph);
            optimizer.step(&mut graph);
        }
    }

    assert!(relative_eq(layer.weights.item(&graph).0, m, 1e-5));
    assert!(relative_eq(layer.bias.item(&graph).0, b, 1e-5));
}
