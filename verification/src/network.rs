use vstd::prelude::*;
use vstd::slice::slice_subrange;
use crate::error::MatrixError;
use crate::grid::{lemma_flat_index, Grid};
use crate::img::{Img, CLASSES};
use crate::matrix::{Axis, Matrix2d};
use crate::persist::{decode, encode};
use crate::sampler::{can_draw, draws_never_fail, init_range};
use crate::scalar::Test;
use crate::text::{
    decimal, format_usize, join, lemma_parse_decimal, lemma_split_of_join, lines, parse_usize, parse_usize_spec,
    split_lines, NEWLINE,
};

verus! {

/// The logistic function `1 / (1 + e^-x)`, written with the operations of the
/// element type in the order in which they are carried out.
pub open spec fn sigmoid_spec<T: Test>(x: T) -> T {
    T::one_spec().div_spec(T::one_spec().add_spec(T::one_spec().neg_spec().mul_spec(x).exp_spec()))
}

/// The logistic function applied to every cell.
pub open spec fn activate<T: Test>(g: Grid<T>) -> Grid<T> {
    g.map(|x: T| sigmoid_spec(x))
}

/// The derivative of the logistic function, from activations that are already
/// known: `m ⊙ (1 - m)`.
pub open spec fn sigmoid_prime_spec<T: Test>(g: Grid<T>) -> Grid<T> {
    g.times(Grid::filled(g.rows, g.columns, T::one_spec()).minus(g))
}

/// The sum of the exponentials of the first `k` cells, added up from zero in
/// row-major order.
pub open spec fn exp_total<T: Test>(cells: Seq<T>, k: nat) -> T
    decreases k,
{
    if k == 0 {
        T::zero_spec()
    } else {
        exp_total(cells, (k - 1) as nat).add_spec(cells[k - 1].exp_spec())
    }
}

/// Every cell divided by the sum of the exponentials of all cells.
pub open spec fn softmax_spec<T: Test>(g: Grid<T>) -> Grid<T> {
    g.map(|x: T| x.div_spec(exp_total(g.cells, g.cells.len())))
}

/// The activations of the hidden layer for `input`.
pub open spec fn hidden_outputs<T: Test>(hidden_weights: Grid<T>, input: Grid<T>) -> Grid<T> {
    activate(hidden_weights.dot(input))
}

/// The activations of the output layer for `input`.
pub open spec fn final_outputs<T: Test>(
    hidden_weights: Grid<T>,
    output_weights: Grid<T>,
    input: Grid<T>,
) -> Grid<T> {
    activate(output_weights.dot(hidden_outputs(hidden_weights, input)))
}

/// What the network predicts for `input`: the activations of the output
/// layer, normalized.
pub open spec fn prediction<T: Test>(
    hidden_weights: Grid<T>,
    output_weights: Grid<T>,
    input: Grid<T>,
) -> Grid<T> {
    softmax_spec(final_outputs(hidden_weights, output_weights, input))
}

/// The shapes fit for a forward pass: the input has one row per column of the
/// hidden weights, and the output weights one column per hidden unit.
pub open spec fn predictable<T>(hidden_weights: Grid<T>, output_weights: Grid<T>, input: Grid<T>) -> bool {
    hidden_weights.columns == input.rows && output_weights.columns == hidden_weights.rows
}

/// The shapes fit for a training step: a forward pass is possible, and the
/// target has the shape of its result.
pub open spec fn trainable<T>(
    hidden_weights: Grid<T>,
    output_weights: Grid<T>,
    input: Grid<T>,
    target: Grid<T>,
) -> bool {
    &&& predictable(hidden_weights, output_weights, input)
    &&& target.rows == output_weights.rows
    &&& target.columns == input.columns
}

/// `target - final_outputs`.
pub open spec fn output_errors<T: Test>(
    hidden_weights: Grid<T>,
    output_weights: Grid<T>,
    input: Grid<T>,
    target: Grid<T>,
) -> Grid<T> {
    target.minus(final_outputs(hidden_weights, output_weights, input))
}

/// The output weights after one training step:
/// `output_weights + rate · ((errors ⊙ σ'(final)) · hiddenᵀ)`, the scaled
/// product standing on the left of the sum.
pub open spec fn trained_output<T: Test>(
    hidden_weights: Grid<T>,
    output_weights: Grid<T>,
    rate: T,
    input: Grid<T>,
    target: Grid<T>,
) -> Grid<T> {
    let hidden = hidden_outputs(hidden_weights, input);
    let last = final_outputs(hidden_weights, output_weights, input);
    let errors = output_errors(hidden_weights, output_weights, input, target);
    errors.times(sigmoid_prime_spec(last)).dot(hidden.transpose()).scale(rate).plus(output_weights)
}

/// The hidden weights after one training step:
/// `hidden_weights + rate · ((hidden_errors ⊙ σ'(hidden)) · inputᵀ)`, where
/// `hidden_errors` is the output error carried back through the output
/// weights as they were before the step.
pub open spec fn trained_hidden<T: Test>(
    hidden_weights: Grid<T>,
    output_weights: Grid<T>,
    rate: T,
    input: Grid<T>,
    target: Grid<T>,
) -> Grid<T> {
    let hidden = hidden_outputs(hidden_weights, input);
    let errors = output_errors(hidden_weights, output_weights, input, target);
    let hidden_errors = output_weights.transpose().dot(errors);
    hidden_errors.times(sigmoid_prime_spec(hidden)).dot(input.transpose()).scale(rate).plus(hidden_weights)
}

/// The two weight matrices of a network, as mathematical values.
pub struct Weights<T> {
    pub hidden: Grid<T>,
    pub output: Grid<T>,
}

/// The column of `classes` cells that holds one at `label` and zero elsewhere.
pub open spec fn one_hot<T: Test>(classes: nat, label: int) -> Grid<T> {
    Grid::filled(classes, 1, T::zero_spec()).put(label, 0, T::one_spec())
}

/// What a sample feeds the network: its pixels below one another.
pub open spec fn sample_input<T>(img: Img<T>) -> Grid<T> {
    img.matrix@.as_column()
}

/// What the network should answer for a sample: its label, one-hot.
pub open spec fn sample_target<T: Test>(img: Img<T>) -> Grid<T> {
    one_hot(CLASSES as nat, img.label as int)
}

/// The weights after a training step on each of the first `k` samples, in
/// the order of the samples.
pub open spec fn trained<T: Test>(start: Weights<T>, rate: T, imgs: Seq<Img<T>>, k: nat) -> Weights<T>
    decreases k,
{
    if k == 0 {
        start
    } else {
        let before = trained(start, rate, imgs, (k - 1) as nat);
        let input = sample_input(imgs[k - 1]);
        let target = sample_target(imgs[k - 1]);
        Weights {
            hidden: trained_hidden(before.hidden, before.output, rate, input, target),
            output: trained_output(before.hidden, before.output, rate, input, target),
        }
    }
}

/// Sample `k` fits the weights that the samples before it have left.
pub open spec fn trainable_at<T: Test>(start: Weights<T>, rate: T, imgs: Seq<Img<T>>, k: int) -> bool {
    let before = trained(start, rate, imgs, k as nat);
    trainable(before.hidden, before.output, sample_input(imgs[k]), sample_target(imgs[k]))
}

/// The class that the given weights find in a sample: the position of the
/// greatest cell of the prediction.
pub open spec fn guess<T: Test>(w: Weights<T>, img: Img<T>) -> nat {
    prediction(w.hidden, w.output, sample_input(img)).argmax()
}

/// How many of the first `k` samples the given weights classify as labeled.
pub open spec fn correct<T: Test>(w: Weights<T>, imgs: Seq<Img<T>>, k: nat) -> nat
    decreases k,
{
    if k == 0 {
        0
    } else {
        correct(w, imgs, (k - 1) as nat) + (if guess(w, imgs[k - 1]) == imgs[k - 1].label {
            1nat
        } else {
            0nat
        })
    }
}

/// The descriptor of a persisted network: the three layer sizes in decimal,
/// each followed by a newline.
pub open spec fn encode_descriptor(input: nat, hidden: nat, output: nat) -> Seq<u8> {
    decimal(input) + seq![NEWLINE] + decimal(hidden) + seq![NEWLINE] + decimal(output) + seq![NEWLINE]
}

/// The layer sizes that a descriptor holds: its first three lines, read as
/// numbers.  What follows the third line does not count.
pub open spec fn decode_descriptor(text: Seq<u8>) -> Option<(usize, usize, usize)> {
    let all = lines(text);
    if all.len() < 3 {
        None
    } else {
        match (parse_usize_spec(all[0]), parse_usize_spec(all[1]), parse_usize_spec(all[2])) {
            (Some(input), Some(hidden), Some(output)) => Some((input, hidden, output)),
            _ => None,
        }
    }
}

/// What is wrong with the texts of a checkpoint, if anything: the descriptor
/// is looked at first, then the hidden weights, then the output weights.
pub open spec fn load_failure<T: Test>(descriptor: Seq<u8>, hidden: Seq<u8>, output: Seq<u8>) -> Option<
    MatrixError,
> {
    if decode_descriptor(descriptor) is None {
        Some(MatrixError::ParseFailure)
    } else {
        match decode::<T>(hidden) {
            Err(e) => Some(e),
            Ok(_) => match decode::<T>(output) {
                Err(e) => Some(e),
                Ok(_) => None,
            },
        }
    }
}

/// Reading back a descriptor gives the layer sizes that were written.
pub proof fn lemma_descriptor_round_trip(input: usize, hidden: usize, output: usize)
    ensures
        decode_descriptor(encode_descriptor(input as nat, hidden as nat, output as nat)) == Some(
            (input, hidden, output),
        ),
{
    let sep = seq![NEWLINE];
    let parts = seq![decimal(input as nat), decimal(hidden as nat), decimal(output as nat), Seq::<u8>::empty()];
    lemma_parse_decimal(input as nat);
    lemma_parse_decimal(hidden as nat);
    lemma_parse_decimal(output as nat);
    lemma_split_of_join(parts, NEWLINE);
    let three = parts.drop_last();
    let two = three.drop_last();
    assert(join(two.drop_last(), sep) == decimal(input as nat));
    assert(join(three, sep) == join(two, sep) + sep + decimal(output as nat));
}

/// The three texts that persist a network, one for each file of a checkpoint.
pub struct Checkpoint {
    /// The layer sizes, for the file `descriptor`.
    pub descriptor: Vec<u8>,
    /// The hidden weights, for the file `hidden`.
    pub hidden: Vec<u8>,
    /// The output weights, for the file `output`.
    pub output: Vec<u8>,
}

/// The weights of a layer with `fan_in` inputs and `cells` weights can always
/// be drawn: the bounds exist and, unless there is no weight to draw, every
/// draw between them gives a sample.
pub open spec fn drawable<T: Test>(fan_in: usize, cells: int) -> bool {
    init_range::<T>(fan_in) matches Some((low, high)) && (cells == 0 || draws_never_fail(low, high))
}

/// The logistic function `1 / (1 + e^-x)`.
pub fn sigmoid<T: Test>(input: &T) -> (y: T)
    ensures
        y == sigmoid_spec(*input),
{
    T::one().div(T::one().add(T::one().neg().mul(*input).exp()))
}

/// The logistic function applied to every cell of `m`.
fn activated<T: Test>(m: &Matrix2d<T>) -> (a: Matrix2d<T>)
    ensures
        a@ == activate(m@),
        a@.wf(),
{
    let a = m.apply(&sigmoid::<T>);
    assert(a@.cells =~= activate(m@).cells);
    a
}

/// The derivative of the logistic function at every cell, from the
/// activations `m`: `m ⊙ (1 - m)`.
pub fn sigmoid_prime<T: Test>(m: Matrix2d<T>) -> (d: Matrix2d<T>)
    ensures
        d@ == sigmoid_prime_spec(m@),
        d@.wf(),
{
    let rows = m.rows();
    let columns = m.columns();
    let mut ones = Matrix2d::new(rows, columns);
    ones.fill(T::one());
    let copy = m.clone();
    match ones.sub(copy) {
        Ok(subtracted) => match m.mul(subtracted) {
            Ok(multiplied) => multiplied,
            Err(_) => unreached(),
        },
        Err(_) => unreached(),
    }
}

/// Every cell of `m` divided by the sum of the exponentials of all its cells.
///
/// The sum is taken once over the whole matrix, from zero and in row-major
/// order, and it is the cells themselves that are divided by it.
pub fn softmax<T: Test>(m: Matrix2d<T>) -> (s: Matrix2d<T>)
    ensures
        s@ == softmax_spec(m@),
        s@.wf(),
{
    let rows = m.rows();
    let columns = m.columns();
    let mut total = T::zero();
    let mut r: usize = 0;
    while r < rows
        invariant
            r <= rows,
            rows == m@.rows,
            columns == m@.columns,
            m@.wf(),
            total == exp_total(m@.cells, (r * columns) as nat),
        decreases rows - r,
    {
        let mut c: usize = 0;
        while c < columns
            invariant
                r < rows,
                c <= columns,
                rows == m@.rows,
                columns == m@.columns,
                m@.wf(),
                total == exp_total(m@.cells, (r * columns + c) as nat),
            decreases columns - c,
        {
            proof {
                lemma_flat_index(rows as int, columns as int, r as int, c as int);
            }
            total = total.add(m.get(r, c).exp());
            c += 1;
        }
        proof {
            assert((r + 1) * columns == r * columns + columns) by (nonlinear_arith);
        }
        r += 1;
    }
    let divide = |x: &T| -> (y: T)
        ensures
            y == x.div_spec(total),
        { x.div(total) };
    let s = m.apply(&divide);
    assert(s@.cells =~= softmax_spec(m@).cells);
    s
}

/// A feed-forward network with one hidden layer: the weights between the
/// input and the hidden layer, and between the hidden and the output layer.
#[derive(Debug)]
pub struct Network<T> {
    pub input: usize,
    pub hidden: usize,
    pub output: usize,
    pub learning_rate: T,
    pub hidden_weights: Matrix2d<T>,
    pub output_weights: Matrix2d<T>,
}

impl<T: Test> Network<T> {
    /// A network of the given layer sizes with freshly drawn weights: the
    /// hidden weights from `[-1/hidden, 1/hidden)`, the output weights from
    /// `[-1/output, 1/output)`.
    ///
    /// Fails with `NumericConversionFailure` where the weights of a layer
    /// cannot be drawn, and never where both layers can be.
    pub fn new(input: usize, hidden: usize, output: usize, learning_rate: T) -> (made: Result<
        Self,
        MatrixError,
    >)
        requires
            hidden * input <= usize::MAX,
            output * hidden <= usize::MAX,
        ensures
            match made {
                Ok(net) => {
                    &&& net.input == input
                    &&& net.hidden == hidden
                    &&& net.output == output
                    &&& net.learning_rate == learning_rate
                    &&& net.hidden_weights@.wf()
                    &&& net.hidden_weights@.rows == hidden
                    &&& net.hidden_weights@.columns == input
                    &&& net.output_weights@.wf()
                    &&& net.output_weights@.rows == output
                    &&& net.output_weights@.columns == hidden
                    &&& init_range::<T>(hidden) matches Some((low, high)) && forall|i: int|
                        0 <= i < hidden * input ==> can_draw(low, high, #[trigger] net.hidden_weights@.cells[i])
                    &&& init_range::<T>(output) matches Some((low, high)) && forall|i: int|
                        0 <= i < output * hidden ==> can_draw(low, high, #[trigger] net.output_weights@.cells[i])
                },
                Err(e) => {
                    &&& e == MatrixError::NumericConversionFailure
                    &&& !(drawable::<T>(hidden, hidden * input) && drawable::<T>(output, output * hidden))
                },
            },
    {
        let mut hidden_weights = Matrix2d::<T>::new(hidden, input);
        match hidden_weights.randomize(hidden) {
            Ok(()) => {},
            Err(e) => { return Err(e); },
        }
        let mut output_weights = Matrix2d::<T>::new(output, hidden);
        match output_weights.randomize(output) {
            Ok(()) => {},
            Err(e) => { return Err(e); },
        }
        Ok(Network { input, hidden, output, learning_rate, hidden_weights, output_weights })
    }

    /// One step of backpropagation on the sample `(input, output)`.
    ///
    /// Runs the forward pass, takes `output - final_outputs` as the error,
    /// carries it back through the output weights, and adds to each weight
    /// matrix the learning rate times the product of its layer's gradient with
    /// the transposed activations that fed the layer.  Both updates are
    /// computed from the weights as they were before the step.
    ///
    /// Where the shapes do not fit, the step reports `DimensionMismatch` and
    /// leaves the network as it was.
    pub fn train(&mut self, input: &Matrix2d<T>, output: &Matrix2d<T>) -> (outcome: Result<
        (),
        MatrixError,
    >)
        requires
            old(self).hidden_weights@.rows * input@.columns <= usize::MAX,
        ensures
            final(self).input == old(self).input,
            final(self).hidden == old(self).hidden,
            final(self).output == old(self).output,
            final(self).learning_rate == old(self).learning_rate,
            final(self).hidden_weights@.wf(),
            final(self).output_weights@.wf(),
            match outcome {
                Ok(()) => {
                    &&& trainable(old(self).hidden_weights@, old(self).output_weights@, input@, output@)
                    &&& final(self).hidden_weights@ == trained_hidden(
                        old(self).hidden_weights@,
                        old(self).output_weights@,
                        old(self).learning_rate,
                        input@,
                        output@,
                    )
                    &&& final(self).output_weights@ == trained_output(
                        old(self).hidden_weights@,
                        old(self).output_weights@,
                        old(self).learning_rate,
                        input@,
                        output@,
                    )
                },
                Err(e) => {
                    &&& !trainable(old(self).hidden_weights@, old(self).output_weights@, input@, output@)
                    &&& e == MatrixError::DimensionMismatch
                    &&& final(self).hidden_weights@ == old(self).hidden_weights@
                    &&& final(self).output_weights@ == old(self).output_weights@
                },
            },
    {
        let hidden_rows = self.hidden_weights.rows();
        let output_rows = self.output_weights.rows();
        let target_rows = output.rows();
        let input_rows = input.rows();
        if self.hidden_weights.columns() != input_rows || self.output_weights.columns() != hidden_rows
            || target_rows != output_rows || output.columns() != input.columns() {
            return Err(MatrixError::DimensionMismatch);
        }
        let hidden_inputs = match self.hidden_weights.dot_par(input) {
            Ok(m) => m,
            Err(_) => unreached(),
        };
        let hidden_outputs = activated(&hidden_inputs);
        let final_inputs = match self.output_weights.dot_par(&hidden_outputs) {
            Ok(m) => m,
            Err(_) => unreached(),
        };
        let final_outputs = activated(&final_inputs);

        let output_errors = match output.clone().sub(final_outputs.clone()) {
            Ok(m) => m,
            Err(_) => unreached(),
        };
        let transposed_mat = self.output_weights.transpose_par();
        let hidden_errors = match transposed_mat.dot_par(&output_errors) {
            Ok(m) => m,
            Err(_) => unreached(),
        };

        let sigmoid_primed_mat = sigmoid_prime(final_outputs);
        let multiplied_mat = match output_errors.mul_par(&sigmoid_primed_mat) {
            Ok(m) => m,
            Err(_) => unreached(),
        };
        let transposed_mat = hidden_outputs.transpose_par();
        let dot_mat = match multiplied_mat.dot_par(&transposed_mat) {
            Ok(m) => m,
            Err(_) => unreached(),
        };
        let scaled_mat = dot_mat.scale_par(self.learning_rate);
        let new_output_weights = match scaled_mat.add(self.output_weights.clone()) {
            Ok(m) => m,
            Err(_) => unreached(),
        };

        let sigmoid_primed_mat = sigmoid_prime(hidden_outputs);
        let multiplied_mat = match hidden_errors.mul_par(&sigmoid_primed_mat) {
            Ok(m) => m,
            Err(_) => unreached(),
        };
        let transposed_mat = input.transpose_par();
        let dot_mat = match multiplied_mat.dot_par(&transposed_mat) {
            Ok(m) => m,
            Err(_) => unreached(),
        };
        let scaled_mat = dot_mat.scale_par(self.learning_rate);
        let new_hidden_weights = match scaled_mat.add(self.hidden_weights.clone()) {
            Ok(m) => m,
            Err(_) => unreached(),
        };

        self.output_weights = new_output_weights;
        self.hidden_weights = new_hidden_weights;
        Ok(())
    }

    /// What the network predicts for `input_data`: the forward pass through
    /// both layers, normalized by `softmax`.
    ///
    /// Reports `DimensionMismatch` where the shapes do not fit.
    pub fn predict(&self, input_data: &Matrix2d<T>) -> (result: Result<Matrix2d<T>, MatrixError>)
        requires
            self.hidden_weights@.rows * input_data@.columns <= usize::MAX,
            self.output_weights@.rows * input_data@.columns <= usize::MAX,
        ensures
            match result {
                Ok(m) => {
                    &&& predictable(self.hidden_weights@, self.output_weights@, input_data@)
                    &&& m@ == prediction(self.hidden_weights@, self.output_weights@, input_data@)
                    &&& m@.wf()
                },
                Err(e) => {
                    &&& !predictable(self.hidden_weights@, self.output_weights@, input_data@)
                    &&& e == MatrixError::DimensionMismatch
                },
            },
    {
        let hidden_inputs = match self.hidden_weights.dot_par(input_data) {
            Ok(m) => m,
            Err(e) => { return Err(e); },
        };
        let hidden_outputs = activated(&hidden_inputs);
        let final_inputs = match self.output_weights.dot_par(&hidden_outputs) {
            Ok(m) => m,
            Err(e) => { return Err(e); },
        };
        let final_outputs = activated(&final_inputs);
        Ok(softmax(final_outputs))
    }

    /// The two weight matrices as mathematical values.
    pub open spec fn weights(&self) -> Weights<T> {
        Weights { hidden: self.hidden_weights@, output: self.output_weights@ }
    }

    /// One training step on every sample, in the order of the samples and
    /// each on the weights that the one before has left.
    ///
    /// A sample is fed as one column of its pixels, with the one-hot column of
    /// its label as the target.  Training stops at the first sample whose
    /// shape does not fit the network: the call then reports
    /// `DimensionMismatch`, and the weights are those that the samples before
    /// it have left.
    pub fn train_batch_imgs(&mut self, imgs: &Vec<Img<T>>) -> (outcome: Result<(), MatrixError>)
        requires
            forall|k: int| 0 <= k < imgs@.len() ==> (#[trigger] imgs@[k]).label < CLASSES,
        ensures
            final(self).input == old(self).input,
            final(self).hidden == old(self).hidden,
            final(self).output == old(self).output,
            final(self).learning_rate == old(self).learning_rate,
            match outcome {
                Ok(()) => {
                    &&& forall|k: int|
                        0 <= k < imgs@.len() ==> trainable_at(
                            old(self).weights(),
                            old(self).learning_rate,
                            imgs@,
                            k,
                        )
                    &&& final(self).weights() == trained(
                        old(self).weights(),
                        old(self).learning_rate,
                        imgs@,
                        imgs@.len(),
                    )
                },
                Err(e) => {
                    &&& e == MatrixError::DimensionMismatch
                    &&& exists|n: nat|
                        {
                            &&& n < imgs@.len()
                            &&& !trainable_at(old(self).weights(), old(self).learning_rate, imgs@, n as int)
                            &&& forall|k: int|
                                0 <= k < n ==> trainable_at(
                                    old(self).weights(),
                                    old(self).learning_rate,
                                    imgs@,
                                    k,
                                )
                            &&& final(self).weights() == #[trigger] trained(
                                old(self).weights(),
                                old(self).learning_rate,
                                imgs@,
                                n,
                            )
                        }
                },
            },
    {
        let len: usize = imgs.len();
        let mut i: usize = 0;
        while i < len
            invariant
                i <= len,
                len == imgs@.len(),
                forall|k: int| 0 <= k < imgs@.len() ==> (#[trigger] imgs@[k]).label < CLASSES,
                self.input == old(self).input,
                self.hidden == old(self).hidden,
                self.output == old(self).output,
                self.learning_rate == old(self).learning_rate,
                forall|k: int|
                    0 <= k < i ==> trainable_at(old(self).weights(), old(self).learning_rate, imgs@, k),
                self.weights() == trained(old(self).weights(), old(self).learning_rate, imgs@, i as nat),
            decreases len - i,
        {
            let img = &imgs[i];
            let img_data = img.matrix.flatten(Axis::Row);
            let mut output = Matrix2d::new(CLASSES, 1);
            output.fill(T::zero());
            output.set(img.label as usize, 0, T::one());
            proof {
                self.hidden_weights.lemma_shape_fits();
            }
            match self.train(&img_data, &output) {
                Ok(()) => {},
                Err(e) => { return Err(e); },
            }
            i += 1;
        }
        Ok(())
    }

    /// What the network predicts for a sample, fed as one column of its pixels.
    ///
    /// Reports `DimensionMismatch` where the sample does not fit the network.
    pub fn predict_img(&self, img: &Img<T>) -> (result: Result<Matrix2d<T>, MatrixError>)
        ensures
            match result {
                Ok(m) => {
                    &&& predictable(self.hidden_weights@, self.output_weights@, sample_input(*img))
                    &&& m@ == prediction(self.hidden_weights@, self.output_weights@, sample_input(*img))
                    &&& m@.wf()
                },
                Err(e) => {
                    &&& !predictable(self.hidden_weights@, self.output_weights@, sample_input(*img))
                    &&& e == MatrixError::DimensionMismatch
                },
            },
    {
        let img_data = img.matrix.flatten(Axis::Row);
        proof {
            self.hidden_weights.lemma_shape_fits();
            self.output_weights.lemma_shape_fits();
        }
        self.predict(&img_data)
    }

    /// The number of samples that the network classifies as they are labeled:
    /// those for which the greatest cell of the prediction stands at the
    /// position of the label.
    ///
    /// Reports `DimensionMismatch` where a sample does not fit the network.
    pub fn predict_imgs(&self, imgs: &Vec<Img<T>>) -> (hits: Result<usize, MatrixError>)
        ensures
            match hits {
                Ok(n) => {
                    &&& forall|k: int|
                        0 <= k < imgs@.len() ==> predictable(
                            self.hidden_weights@,
                            self.output_weights@,
                            sample_input(#[trigger] imgs@[k]),
                        )
                    &&& n == correct(self.weights(), imgs@, imgs@.len())
                },
                Err(e) => {
                    &&& e == MatrixError::DimensionMismatch
                    &&& exists|k: int|
                        0 <= k < imgs@.len() && !predictable(
                            self.hidden_weights@,
                            self.output_weights@,
                            sample_input(#[trigger] imgs@[k]),
                        )
                },
            },
    {
        let len: usize = imgs.len();
        let mut hits: usize = 0;
        let mut i: usize = 0;
        while i < len
            invariant
                i <= len,
                len == imgs@.len(),
                hits <= i,
                hits == correct(self.weights(), imgs@, i as nat),
                forall|k: int|
                    0 <= k < i ==> predictable(
                        self.hidden_weights@,
                        self.output_weights@,
                        sample_input(#[trigger] imgs@[k]),
                    ),
            decreases len - i,
        {
            let img = &imgs[i];
            let prediction = match self.predict_img(img) {
                Ok(m) => m,
                Err(e) => { return Err(e); },
            };
            let guess = match prediction.argmax() {
                Ok(guess) => guess,
                Err(_) => unreached(),
            };
            if guess == img.label as usize {
                hits += 1;
            }
            i += 1;
        }
        Ok(hits)
    }

    /// The texts that persist the network: the descriptor with the three
    /// layer sizes, and the persisted text of each weight matrix.
    pub fn save(&self) -> (files: Checkpoint)
        ensures
            files.descriptor@ == encode_descriptor(self.input as nat, self.hidden as nat, self.output as nat),
            files.hidden@ == encode(self.hidden_weights@),
            files.output@ == encode(self.output_weights@),
    {
        let mut descriptor = format_usize(self.input);
        descriptor.push(NEWLINE);
        let mut hidden = format_usize(self.hidden);
        descriptor.append(&mut hidden);
        descriptor.push(NEWLINE);
        let mut output = format_usize(self.output);
        descriptor.append(&mut output);
        descriptor.push(NEWLINE);
        Checkpoint { descriptor, hidden: self.hidden_weights.save(), output: self.output_weights.save() }
    }

    /// Replaces the layer sizes and both weight matrices by what the three
    /// texts of a checkpoint hold.  The learning rate stays.
    ///
    /// Fails where one of the texts cannot be read, with the error of the
    /// first that cannot, and then leaves the network exactly as it was.
    pub fn load(&mut self, descriptor: &[u8], hidden: &[u8], output: &[u8]) -> (outcome: Result<
        (),
        MatrixError,
    >)
        ensures
            final(self).learning_rate == old(self).learning_rate,
            match outcome {
                Ok(()) => {
                    &&& decode_descriptor(descriptor@) == Some(
                        (final(self).input, final(self).hidden, final(self).output),
                    )
                    &&& decode::<T>(hidden@) == Ok::<Grid<T>, MatrixError>(final(self).hidden_weights@)
                    &&& decode::<T>(output@) == Ok::<Grid<T>, MatrixError>(final(self).output_weights@)
                    &&& final(self).hidden_weights@.wf()
                    &&& final(self).output_weights@.wf()
                },
                Err(e) => {
                    &&& *final(self) == *old(self)
                    &&& load_failure::<T>(descriptor@, hidden@, output@) == Some(e)
                },
            },
    {
        let ranges = split_lines(descriptor);
        if ranges.len() < 3 {
            return Err(MatrixError::ParseFailure);
        }
        let input_size = match parse_usize(slice_subrange(descriptor, ranges[0].0, ranges[0].1)) {
            Some(n) => n,
            None => { return Err(MatrixError::ParseFailure); },
        };
        let hidden_size = match parse_usize(slice_subrange(descriptor, ranges[1].0, ranges[1].1)) {
            Some(n) => n,
            None => { return Err(MatrixError::ParseFailure); },
        };
        let output_size = match parse_usize(slice_subrange(descriptor, ranges[2].0, ranges[2].1)) {
            Some(n) => n,
            None => { return Err(MatrixError::ParseFailure); },
        };
        let hidden_weights = match Matrix2d::<T>::load(hidden) {
            Ok(m) => m,
            Err(e) => { return Err(e); },
        };
        let output_weights = match Matrix2d::<T>::load(output) {
            Ok(m) => m,
            Err(e) => { return Err(e); },
        };
        self.input = input_size;
        self.hidden = hidden_size;
        self.output = output_size;
        self.hidden_weights = hidden_weights;
        self.output_weights = output_weights;
        Ok(())
    }
}

} // verus!
