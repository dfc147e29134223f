//! A dense-matrix engine and a feed-forward network with one hidden layer.
//!
//! The matrix type is generic over its element: any type that offers the
//! numeric capabilities of [`scalar::Test`].  Every function states what it
//! returns over the mathematical value of a matrix, [`grid::Grid`], and over
//! the specification of the element operations, and is proved to meet that
//! statement.
//!
//! * [`matrix`]: the matrix type with its sequential and parallel operations.
//! * [`network`]: the forward pass, backpropagation and prediction.
//! * [`persist`]: the text format of a persisted matrix.
//! * [`sampler`]: the bounded uniform sampler that seeds the weights.
//! * [`img`]: labeled samples, the dataset format and text art.
//! * [`text`]: decimal numbers and lines, as bytes.
//! * [`laws`]: what holds of the operations in general.

pub mod error;
pub mod grid;
pub mod img;
pub mod laws;
pub mod matrix;
pub mod network;
pub mod parallel;
pub mod persist;
pub mod sampler;
pub mod scalar;
pub mod text;

pub use sampler::uniform_distribution;
