use matrix_net::error::MatrixError;
use matrix_net::matrix::Matrix2d;
use matrix_net::sampler::{sample_from_draw, sample_steps, SCALE};
use matrix_net::scalar::{Test, Unreadable};
use matrix_net::uniform_distribution;
use num::{Float, NumCast, ToPrimitive};

#[derive(Debug, Clone, Copy, PartialEq)]
struct Real(f64);

impl Test for Real {
    fn zero() -> Self {
        Real(0.0)
    }

    fn one() -> Self {
        Real(1.0)
    }

    fn nan() -> Self {
        Real(<f64 as Float>::nan())
    }

    fn min_value() -> Self {
        Real(<f64 as Float>::min_value())
    }

    fn add(self, rhs: Self) -> Self {
        Real(self.0 + rhs.0)
    }

    fn sub(self, rhs: Self) -> Self {
        Real(self.0 - rhs.0)
    }

    fn mul(self, rhs: Self) -> Self {
        Real(self.0 * rhs.0)
    }

    fn div(self, rhs: Self) -> Self {
        Real(self.0 / rhs.0)
    }

    fn neg(self) -> Self {
        Real(-self.0)
    }

    fn exp(self) -> Self {
        Real(Float::exp(self.0))
    }

    fn ceil(self) -> Self {
        Real(Float::ceil(self.0))
    }

    fn gt(self, other: Self) -> bool {
        self.0 > other.0
    }

    fn from_usize(n: usize) -> Option<Self> {
        <f64 as NumCast>::from(n).map(Real)
    }

    fn to_usize(self) -> Option<usize> {
        ToPrimitive::to_usize(&self.0)
    }

    fn to_text(self) -> Vec<u8> {
        self.0.to_string().into_bytes()
    }

    fn parse(text: &[u8]) -> Result<Self, Unreadable> {
        let text = std::str::from_utf8(text).map_err(|_| Unreadable::Malformed)?;
        let number = text.trim().parse::<f64>().map_err(|_| Unreadable::Malformed)?;
        <f64 as NumCast>::from(number).map(Real).ok_or(Unreadable::OutOfRange)
    }
}

fn matrix(rows: usize, columns: usize, values: &[f64]) -> Matrix2d<Real> {
    assert_eq!(values.len(), rows * columns);
    let mut m = Matrix2d::<Real>::new(rows, columns);
    for r in 0..rows {
        for c in 0..columns {
            m.set(r, c, Real(values[r * columns + c]));
        }
    }
    m
}

fn values(m: &Matrix2d<Real>) -> Vec<f64> {
    let mut out = Vec::new();
    for r in 0..m.rows() {
        for c in 0..m.columns() {
            out.push(m.get(r, c).0);
        }
    }
    out
}

fn shape(m: &Matrix2d<Real>) -> (usize, usize) {
    (m.rows(), m.columns())
}

#[test]
fn scale_is_ten_thousand() {
    assert_eq!(SCALE, 10_000);
}

#[test]
fn steps_are_the_scaled_difference() {
    assert_eq!(sample_steps(Real(0.), Real(1.)), Ok(10_000));
    assert_eq!(sample_steps(Real(-0.5), Real(0.5)), Ok(10_000));
    assert_eq!(sample_steps(Real(2.), Real(2.25)), Ok(2_500));
    // the integer part counts
    assert_eq!(sample_steps(Real(0.), Real(0.00019)), Ok(1));
}

#[test]
fn too_small_a_gap_has_no_steps() {
    assert_eq!(sample_steps(Real(1.), Real(1.)), Err(MatrixError::NumericConversionFailure));
    assert_eq!(sample_steps(Real(0.), Real(0.00009)), Err(MatrixError::NumericConversionFailure));
    assert_eq!(uniform_distribution(Real(1.), Real(1.)), Err(MatrixError::NumericConversionFailure));
}

#[test]
fn bounds_in_the_wrong_order_have_no_steps() {
    assert_eq!(sample_steps(Real(1.), Real(0.)), Err(MatrixError::NumericConversionFailure));
    assert_eq!(uniform_distribution(Real(1.), Real(0.)), Err(MatrixError::NumericConversionFailure));
}

#[test]
fn too_wide_a_range_has_no_steps() {
    let inf = f64::INFINITY;
    assert_eq!(sample_steps(Real(-inf), Real(inf)), Err(MatrixError::NumericConversionFailure));
    assert_eq!(sample_steps(Real(0.), Real(1e300)), Err(MatrixError::NumericConversionFailure));
    assert_eq!(sample_steps(Real(0.), Real(f64::NAN)), Err(MatrixError::NumericConversionFailure));
    assert_eq!(
        uniform_distribution(Real(-inf), Real(inf)),
        Err(MatrixError::NumericConversionFailure)
    );
}

#[test]
fn a_draw_lies_that_many_steps_above_the_lower_bound() {
    assert_eq!(sample_from_draw(Real(0.5), 2_500), Ok(Real(0.75)));
    assert_eq!(sample_from_draw(Real(-1.), 0), Ok(Real(-1.)));
    assert_eq!(sample_from_draw(Real(-1.), 10_000), Ok(Real(0.)));
    assert_eq!(sample_from_draw(Real(0.), 1), Ok(Real(1. / 10_000.)));
}

#[test]
fn samples_lie_in_the_half_open_range() {
    for _ in 0..2_000 {
        let Real(v) = uniform_distribution(Real(0.), Real(1.)).unwrap();
        assert!(0. <= v && v < 1.);
        // a sample is a whole number of steps above the lower bound
        let steps = (v * 10_000.).round();
        assert_eq!(v, steps / 10_000.);
    }
    for _ in 0..2_000 {
        let Real(v) = uniform_distribution(Real(-0.25), Real(0.25)).unwrap();
        assert!(-0.25 <= v && v < 0.25);
    }
}

#[test]
fn a_range_of_one_step_gives_the_lower_bound() {
    for _ in 0..50 {
        assert_eq!(uniform_distribution(Real(3.), Real(3.0001)), Ok(Real(3.)));
    }
}

#[test]
fn samples_spread_over_the_whole_range() {
    let mut tenths = [0usize; 10];
    for _ in 0..20_000 {
        let Real(v) = uniform_distribution(Real(0.), Real(1.)).unwrap();
        tenths[(v * 10.) as usize] += 1;
    }
    // each tenth of the range expects 2000 of the samples
    assert!(tenths.iter().all(|n| 1_500 < *n && *n < 2_500));
}

#[test]
fn samples_vary() {
    let first = uniform_distribution(Real(0.), Real(1.)).unwrap();
    let mut differs = false;
    for _ in 0..200 {
        differs = differs || uniform_distribution(Real(0.), Real(1.)).unwrap() != first;
    }
    assert!(differs);
}

#[test]
fn randomize_fills_every_cell_from_the_range_of_the_fan_in() {
    let mut m = Matrix2d::<Real>::new(20, 30);
    assert_eq!(m.randomize(4), Ok(()));
    assert_eq!(shape(&m), (20, 30));
    let cells = values(&m);
    assert_eq!(cells.len(), 600);
    assert!(cells.iter().all(|v| -0.25 <= *v && *v < 0.25));
    assert!(cells.iter().any(|v| *v != cells[0]));
}

#[test]
fn randomize_with_fan_in_zero_fails_and_changes_nothing() {
    let mut m = matrix(1, 2, &[1., 2.]);
    assert_eq!(m.randomize(0), Err(MatrixError::NumericConversionFailure));
    assert_eq!(values(&m), vec![1., 2.]);
}

#[test]
fn randomize_with_too_large_a_fan_in_fails_and_changes_nothing() {
    // 2 / 100_000 is less than one step
    let mut m = matrix(1, 2, &[1., 2.]);
    assert_eq!(m.randomize(100_000), Err(MatrixError::NumericConversionFailure));
    assert_eq!(values(&m), vec![1., 2.]);
}

#[test]
fn randomize_of_an_empty_matrix_succeeds() {
    let mut m = Matrix2d::<Real>::new(0, 3);
    assert_eq!(m.randomize(0), Ok(()));
    assert_eq!(shape(&m), (0, 3));
}
