use matrix_net::error::MatrixError;
use matrix_net::img::{Img, CLASSES};
use matrix_net::matrix::Matrix2d;
use matrix_net::network::{sigmoid, sigmoid_prime, softmax, Network};
use matrix_net::scalar::{Test, Unreadable};
use num::{Float, NumCast, ToPrimitive};

#[derive(Debug, Clone, Copy, PartialEq)]
struct Real(f64);

impl Test for Real {
    fn zero() -> Self {
        Real(0.0)
    }

    fn one() -> Self {
        Real(1.0)
    }

    fn nan() -> Self {
        Real(<f64 as Float>::nan())
    }

    fn min_value() -> Self {
        Real(<f64 as Float>::min_value())
    }

    fn add(self, rhs: Self) -> Self {
        Real(self.0 + rhs.0)
    }

    fn sub(self, rhs: Self) -> Self {
        Real(self.0 - rhs.0)
    }

    fn mul(self, rhs: Self) -> Self {
        Real(self.0 * rhs.0)
    }

    fn div(self, rhs: Self) -> Self {
        Real(self.0 / rhs.0)
    }

    fn neg(self) -> Self {
        Real(-self.0)
    }

    fn exp(self) -> Self {
        Real(Float::exp(self.0))
    }

    fn ceil(self) -> Self {
        Real(Float::ceil(self.0))
    }

    fn gt(self, other: Self) -> bool {
        self.0 > other.0
    }

    fn from_usize(n: usize) -> Option<Self> {
        <f64 as NumCast>::from(n).map(Real)
    }

    fn to_usize(self) -> Option<usize> {
        ToPrimitive::to_usize(&self.0)
    }

    fn to_text(self) -> Vec<u8> {
        self.0.to_string().into_bytes()
    }

    fn parse(text: &[u8]) -> Result<Self, Unreadable> {
        let text = std::str::from_utf8(text).map_err(|_| Unreadable::Malformed)?;
        let number = text.trim().parse::<f64>().map_err(|_| Unreadable::Malformed)?;
        <f64 as NumCast>::from(number).map(Real).ok_or(Unreadable::OutOfRange)
    }
}

fn matrix(rows: usize, columns: usize, values: &[f64]) -> Matrix2d<Real> {
    assert_eq!(values.len(), rows * columns);
    let mut m = Matrix2d::<Real>::new(rows, columns);
    for r in 0..rows {
        for c in 0..columns {
            m.set(r, c, Real(values[r * columns + c]));
        }
    }
    m
}

fn values(m: &Matrix2d<Real>) -> Vec<f64> {
    let mut out = Vec::new();
    for r in 0..m.rows() {
        for c in 0..m.columns() {
            out.push(m.get(r, c).0);
        }
    }
    out
}

fn shape(m: &Matrix2d<Real>) -> (usize, usize) {
    (m.rows(), m.columns())
}

fn sig(x: f64) -> f64 {
    1. / (1. + (-1. * x).exp())
}

fn network(hidden: &[f64], output: &[f64], sizes: (usize, usize, usize), rate: f64) -> Network<Real> {
    Network {
        input: sizes.0,
        hidden: sizes.1,
        output: sizes.2,
        learning_rate: Real(rate),
        hidden_weights: matrix(sizes.1, sizes.0, hidden),
        output_weights: matrix(sizes.2, sizes.1, output),
    }
}

fn sample(pixels: &[f64], rows: usize, columns: usize, label: u32) -> Img<Real> {
    Img { matrix: matrix(rows, columns, pixels), label }
}

#[test]
fn sigmoid_of_known_values() {
    assert_eq!(sigmoid(&Real(0.)), Real(0.5));
    assert_eq!(sigmoid(&Real(2.)), Real(1. / (1. + (-2f64).exp())));
    assert_eq!(sigmoid(&Real(-700.)), Real(1. / (1. + 700f64.exp())));
    assert_eq!(sigmoid(&Real(800.)), Real(1.));
    assert_eq!(sigmoid(&Real(-800.)), Real(0.));
}

#[test]
fn sigmoid_prime_multiplies_by_the_complement() {
    let d = sigmoid_prime(matrix(2, 2, &[0.5, 0.25, 1., 0.]));
    assert_eq!(shape(&d), (2, 2));
    assert_eq!(values(&d), vec![0.25, 0.1875, 0., 0.]);
}

#[test]
fn softmax_divides_by_the_sum_of_the_exponentials() {
    let s = softmax(matrix(1, 1, &[0.]));
    assert_eq!(values(&s), vec![0.]);
    let s = softmax(matrix(2, 1, &[0., 0.]));
    assert_eq!(values(&s), vec![0., 0.]);
    let (a, b, c) = (0.5f64, 1.5f64, -2f64);
    let total = ((0. + a.exp()) + b.exp()) + c.exp();
    let s = softmax(matrix(3, 1, &[a, b, c]));
    assert_eq!(shape(&s), (3, 1));
    assert_eq!(values(&s), vec![a / total, b / total, c / total]);
    let s = softmax(matrix(1, 3, &[a, b, c]));
    assert_eq!(shape(&s), (1, 3));
    assert_eq!(values(&s), vec![a / total, b / total, c / total]);
    assert_eq!(shape(&softmax(Matrix2d::<Real>::new(0, 4))), (0, 4));
}

#[test]
fn a_new_network_has_weights_of_the_right_shape_and_range() {
    let net = Network::<Real>::new(5, 4, 2, Real(0.1)).unwrap();
    assert_eq!((net.input, net.hidden, net.output), (5, 4, 2));
    assert_eq!(net.learning_rate, Real(0.1));
    assert_eq!(shape(&net.hidden_weights), (4, 5));
    assert_eq!(shape(&net.output_weights), (2, 4));
    assert!(values(&net.hidden_weights).iter().all(|w| -0.25 <= *w && *w < 0.25));
    assert!(values(&net.output_weights).iter().all(|w| -0.5 <= *w && *w < 0.5));
}

#[test]
fn a_layer_too_wide_for_the_resolution_cannot_be_drawn() {
    // with 30000 inputs the range is narrower than one step
    assert_eq!(
        Network::<Real>::new(1, 30_000, 1, Real(0.1)).err(),
        Some(MatrixError::NumericConversionFailure)
    );
    assert_eq!(
        Network::<Real>::new(1, 1, 30_000, Real(0.1)).err(),
        Some(MatrixError::NumericConversionFailure)
    );
}

#[test]
fn a_network_without_units_has_no_weights_to_draw() {
    let net = Network::<Real>::new(3, 0, 2, Real(0.1)).unwrap();
    assert_eq!(shape(&net.hidden_weights), (0, 3));
    assert_eq!(shape(&net.output_weights), (2, 0));
}

#[test]
fn prediction_of_an_untrained_network_is_the_forward_pass() {
    for _ in 0..20 {
        let mut net = Network::<Real>::new(1, 1, 1, Real(0.3)).unwrap();
        let hidden_weight = net.hidden_weights.get(0, 0).0;
        let output_weight = net.output_weights.get(0, 0).0;
        net.train_batch_imgs(&Vec::new()).unwrap();
        assert_eq!(net.hidden_weights.get(0, 0).0, hidden_weight);
        assert_eq!(net.output_weights.get(0, 0).0, output_weight);

        let input = matrix(1, 1, &[0.75]);
        let predicted = net.predict(&input).unwrap();
        assert_eq!(shape(&predicted), (1, 1));

        // the forward pass with the operations of the library
        let hidden = net.hidden_weights.dot(&input).unwrap().apply(&sigmoid::<Real>);
        let last = net.output_weights.dot(&hidden).unwrap().apply(&sigmoid::<Real>);
        assert_eq!(values(&predicted), values(&softmax(last)));

        // and written out
        let hidden = sig(0. + hidden_weight * 0.75);
        let last = sig(0. + output_weight * hidden);
        assert_eq!(values(&predicted), vec![last / (0. + last.exp())]);

        // predicting changes nothing
        assert_eq!(net.hidden_weights.get(0, 0).0, hidden_weight);
        assert_eq!(net.output_weights.get(0, 0).0, output_weight);
        assert_eq!(values(&net.predict(&input).unwrap()), values(&predicted));
    }
}

#[test]
fn one_training_step_on_the_smallest_network() {
    let (hw, ow, rate, x, target) = (0.5f64, -0.25f64, 0.1f64, 0.8f64, 1f64);
    let mut net = network(&[hw], &[ow], (1, 1, 1), rate);
    assert_eq!(net.train(&matrix(1, 1, &[x]), &matrix(1, 1, &[target])), Ok(()));

    let hidden = sig(0. + hw * x);
    let last = sig(0. + ow * hidden);
    let error = target - last;
    let hidden_error = 0. + ow * error;
    let gradient = error * (last * (1. - last));
    let new_ow = (0. + gradient * hidden) * rate + ow;
    let hidden_gradient = hidden_error * (hidden * (1. - hidden));
    let new_hw = (0. + hidden_gradient * x) * rate + hw;

    assert_eq!(values(&net.output_weights), vec![new_ow]);
    assert_eq!(values(&net.hidden_weights), vec![new_hw]);
    assert_eq!((net.input, net.hidden, net.output), (1, 1, 1));
    assert_eq!(net.learning_rate, Real(rate));
    // the error was positive, so the output weight moved towards the target
    assert!(error > 0. && gradient > 0. && new_ow > ow);
}

#[test]
fn one_training_step_on_a_two_three_two_network() {
    let hw = [0.1, -0.2, 0.3, 0.4, -0.5, 0.6];
    let ow = [0.7, -0.8, 0.9, -1., 1.1, -1.2];
    let (rate, x, target) = (0.25, [0.5, -1.5], [1., 0.]);
    let mut net = network(&hw, &ow, (2, 3, 2), rate);
    assert_eq!(net.train(&matrix(2, 1, &x), &matrix(2, 1, &target)), Ok(()));

    let mut hidden = [0.; 3];
    for h in 0..3 {
        hidden[h] = sig((0. + hw[h * 2] * x[0]) + hw[h * 2 + 1] * x[1]);
    }
    let mut last = [0.; 2];
    for o in 0..2 {
        last[o] = sig(((0. + ow[o * 3] * hidden[0]) + ow[o * 3 + 1] * hidden[1]) + ow[o * 3 + 2] * hidden[2]);
    }
    let error = [target[0] - last[0], target[1] - last[1]];
    let mut expected_ow = [0.; 6];
    for o in 0..2 {
        let gradient = error[o] * (last[o] * (1. - last[o]));
        for h in 0..3 {
            expected_ow[o * 3 + h] = (0. + gradient * hidden[h]) * rate + ow[o * 3 + h];
        }
    }
    let mut expected_hw = [0.; 6];
    for h in 0..3 {
        let hidden_error = (0. + ow[h] * error[0]) + ow[3 + h] * error[1];
        let gradient = hidden_error * (hidden[h] * (1. - hidden[h]));
        for i in 0..2 {
            expected_hw[h * 2 + i] = (0. + gradient * x[i]) * rate + hw[h * 2 + i];
        }
    }
    assert_eq!(shape(&net.output_weights), (2, 3));
    assert_eq!(values(&net.output_weights), expected_ow.to_vec());
    assert_eq!(shape(&net.hidden_weights), (3, 2));
    assert_eq!(values(&net.hidden_weights), expected_hw.to_vec());
}

#[test]
fn training_reduces_the_error() {
    let mut net = network(&[0.5, -0.5], &[0.3, 0.3], (1, 2, 1), 0.5);
    let input = matrix(1, 1, &[1.]);
    let target = matrix(1, 1, &[1.]);
    let forward = |net: &Network<Real>| {
        let hidden = net.hidden_weights.dot(&input).unwrap().apply(&sigmoid::<Real>);
        net.output_weights.dot(&hidden).unwrap().apply(&sigmoid::<Real>).get(0, 0).0
    };
    let before = forward(&net);
    for _ in 0..100 {
        net.train(&input, &target).unwrap();
    }
    let after = forward(&net);
    assert!(before < after && after < 1.);
}

#[test]
fn a_training_step_that_does_not_fit_changes_nothing() {
    let inputs = [
        (matrix(3, 1, &[1., 2., 3.]), matrix(2, 1, &[1., 0.])),
        (matrix(2, 1, &[1., 2.]), matrix(3, 1, &[1., 0., 0.])),
        (matrix(2, 1, &[1., 2.]), matrix(1, 2, &[1., 0.])),
        (matrix(1, 2, &[1., 2.]), matrix(2, 1, &[1., 0.])),
        (matrix(2, 2, &[1., 2., 3., 4.]), matrix(2, 1, &[1., 0.])),
    ];
    for (input, target) in inputs.iter() {
        let mut net = network(&[0.1, 0.2, 0.3, 0.4, 0.5, 0.6], &[1., 2., 3., 4., 5., 6.], (2, 3, 2), 0.1);
        assert_eq!(net.train(input, target), Err(MatrixError::DimensionMismatch));
        assert_eq!(values(&net.hidden_weights), vec![0.1, 0.2, 0.3, 0.4, 0.5, 0.6]);
        assert_eq!(values(&net.output_weights), vec![1., 2., 3., 4., 5., 6.]);
    }
    // weights that do not fit one another
    let mut net = network(&[0.1, 0.2], &[1.], (2, 1, 1), 0.1);
    net.output_weights = matrix(1, 2, &[1., 2.]);
    assert_eq!(
        net.train(&matrix(2, 1, &[1., 2.]), &matrix(1, 1, &[1.])),
        Err(MatrixError::DimensionMismatch)
    );
    assert_eq!(
        net.predict(&matrix(2, 1, &[1., 2.])).err(),
        Some(MatrixError::DimensionMismatch)
    );
}

#[test]
fn a_training_step_takes_several_columns_at_once() {
    let mut net = network(&[0.5], &[0.5], (1, 1, 1), 0.1);
    assert_eq!(net.train(&matrix(1, 2, &[1., 2.]), &matrix(1, 2, &[1., 0.])), Ok(()));
    assert_eq!(shape(&net.hidden_weights), (1, 1));
    assert_eq!(shape(&net.output_weights), (1, 1));
}

#[test]
fn prediction_is_the_normalized_forward_pass() {
    let net = network(&[0.1, -0.2, 0.3, 0.4], &[0.5, -0.6], (2, 2, 1), 0.1);
    let predicted = net.predict(&matrix(2, 1, &[1., 2.])).unwrap();
    let h0 = sig((0. + 0.1 * 1.) + -0.2 * 2.);
    let h1 = sig((0. + 0.3 * 1.) + 0.4 * 2.);
    let last = sig((0. + 0.5 * h0) + -0.6 * h1);
    assert_eq!(shape(&predicted), (1, 1));
    assert_eq!(values(&predicted), vec![last / (0. + last.exp())]);
    assert_eq!(
        net.predict(&matrix(3, 1, &[1., 2., 3.])).err(),
        Some(MatrixError::DimensionMismatch)
    );
}

fn ten_class_network() -> Network<Real> {
    let mut hidden = Vec::new();
    for i in 0..(3 * 4) {
        hidden.push(((i * 7 % 5) as f64 - 2.) / 10.);
    }
    let mut output = Vec::new();
    for i in 0..(CLASSES * 3) {
        output.push(((i * 3 % 7) as f64 - 3.) / 10.);
    }
    network(&hidden, &output, (4, 3, CLASSES), 0.2)
}

#[test]
fn a_batch_is_one_training_step_per_sample_in_order() {
    assert_eq!(CLASSES, 10);
    let imgs = vec![
        sample(&[0.1, 0.2, 0.3, 0.4], 2, 2, 3),
        sample(&[0.9, 0.8, 0.7, 0.6], 2, 2, 0),
        sample(&[0.5, 0.5, 0.1, 0.0], 2, 2, 9),
    ];
    let mut batch = ten_class_network();
    assert_eq!(batch.train_batch_imgs(&imgs), Ok(()));

    let mut steps = ten_class_network();
    for img in imgs.iter() {
        let input = matrix(4, 1, &values(&img.matrix));
        let mut target = [0.; 10];
        target[img.label as usize] = 1.;
        assert_eq!(steps.train(&input, &matrix(10, 1, &target)), Ok(()));
    }
    assert_eq!(values(&batch.hidden_weights), values(&steps.hidden_weights));
    assert_eq!(values(&batch.output_weights), values(&steps.output_weights));

    // the order of the samples matters
    let mut reversed = ten_class_network();
    let mut backwards = imgs;
    backwards.reverse();
    assert_eq!(reversed.train_batch_imgs(&backwards), Ok(()));
    assert_ne!(values(&reversed.output_weights), values(&steps.output_weights));
}

#[test]
fn a_batch_stops_at_the_first_sample_that_does_not_fit() {
    let imgs = vec![
        sample(&[0.1, 0.2, 0.3, 0.4], 2, 2, 3),
        sample(&[0.9, 0.8, 0.7], 1, 3, 0),
        sample(&[0.5, 0.5, 0.1, 0.0], 2, 2, 9),
    ];
    let mut batch = ten_class_network();
    assert_eq!(batch.train_batch_imgs(&imgs), Err(MatrixError::DimensionMismatch));
    let mut first_only = ten_class_network();
    assert_eq!(first_only.train_batch_imgs(&imgs[..1].to_vec_of_samples()), Ok(()));
    assert_eq!(values(&batch.hidden_weights), values(&first_only.hidden_weights));
    assert_eq!(values(&batch.output_weights), values(&first_only.output_weights));
}

trait CopySamples {
    fn to_vec_of_samples(&self) -> Vec<Img<Real>>;
}

impl CopySamples for [Img<Real>] {
    fn to_vec_of_samples(&self) -> Vec<Img<Real>> {
        self.iter().map(|img| Img { matrix: img.matrix.clone(), label: img.label }).collect()
    }
}

#[test]
fn predicting_a_sample_flattens_it_to_a_column() {
    let net = ten_class_network();
    let img = sample(&[0.1, 0.2, 0.3, 0.4], 2, 2, 3);
    let predicted = net.predict_img(&img).unwrap();
    assert_eq!(shape(&predicted), (10, 1));
    assert_eq!(
        values(&predicted),
        values(&net.predict(&matrix(4, 1, &[0.1, 0.2, 0.3, 0.4])).unwrap())
    );
    let wide = sample(&[0.1, 0.2, 0.3, 0.4], 1, 4, 3);
    assert_eq!(values(&net.predict_img(&wide).unwrap()), values(&predicted));
    let short = sample(&[0.1, 0.2, 0.3], 1, 3, 3);
    assert_eq!(net.predict_img(&short).err(), Some(MatrixError::DimensionMismatch));
}

#[test]
fn correct_guesses_are_counted() {
    let net = ten_class_network();
    let pixels = [[0.1, 0.2, 0.3, 0.4], [0.9, 0.8, 0.7, 0.6], [0.5, 0.5, 0.1, 0.0]];
    let mut guesses = Vec::new();
    for p in pixels.iter() {
        guesses.push(net.predict_img(&sample(p, 2, 2, 0)).unwrap().argmax().unwrap() as u32);
    }
    let right: Vec<Img<Real>> = (0..3).map(|i| sample(&pixels[i], 2, 2, guesses[i])).collect();
    assert_eq!(net.predict_imgs(&right), Ok(3));
    let mut one_wrong = right;
    one_wrong[1].label = (guesses[1] + 1) % 10;
    assert_eq!(net.predict_imgs(&one_wrong), Ok(2));
    assert_eq!(net.predict_imgs(&Vec::new()), Ok(0));
    let mut misfit = one_wrong;
    misfit.push(sample(&[0.1], 1, 1, 0));
    assert_eq!(net.predict_imgs(&misfit), Err(MatrixError::DimensionMismatch));
}

#[test]
fn a_new_sample_is_unwritten_and_labeled_zero() {
    let img = Img::<Real>::new(28, 28);
    assert_eq!(shape(&img.matrix), (28, 28));
    assert_eq!(img.label, 0);
    assert!(values(&img.matrix).iter().all(|v| v.is_nan()));
}
