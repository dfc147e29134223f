use vstd::prelude::*;
use vstd::slice::slice_subrange;
use crate::error::MatrixError;
use crate::grid::{lemma_flat_index, Grid};
use crate::matrix::Matrix2d;
use crate::scalar::Test;
use crate::text::{
    decimal, format_usize, join, lemma_split_len, lines, parse_usize, parse_usize_spec, split, split_lines,
    split_ranges, trim, trim_spec, NEWLINE,
};

verus! {

/// The number of rows and of columns of a sample read from a dataset.
pub const SIDE: usize = 28;

/// The number of classes that a labeled sample can show.
pub const CLASSES: usize = 10;

/// The intensity that stands for a pixel at full brightness.
pub const FULL: usize = 256;

/// The byte between two fields of a dataset row.
pub const COMMA: u8 = 44;

/// The number of shades that the text art tells apart.
pub const SHADES: usize = 5;

/// A labeled sample: a grid of pixel intensities and the class it shows.
#[derive(Debug)]
pub struct Img<T> {
    pub matrix: Matrix2d<T>,
    pub label: u32,
}

/// The pixel for an intensity read from a dataset: `intensity / FULL`.
pub open spec fn pixel_value<T: Test>(intensity: usize) -> Option<T> {
    match (T::from_usize_spec(intensity), T::from_usize_spec(FULL)) {
        (Some(n), Some(full)) => Some(n.div_spec(full)),
        _ => None,
    }
}

/// The pixels of a dataset row after its first `k` intensity fields.
///
/// Field 0 is the label, so field `k` holds the intensity of pixel `k - 1`
/// in row-major order.  A field that is empty but for white space leaves its
/// pixel unwritten; one that is no number, or that stands beyond the last
/// pixel, makes the row malformed.
pub open spec fn record_pixels<T: Test>(fields: Seq<Seq<u8>>, k: nat) -> Result<Grid<T>, MatrixError>
    decreases k,
{
    if k == 0 {
        Ok(Grid::filled(SIDE as nat, SIDE as nat, T::nan_spec()))
    } else {
        match record_pixels::<T>(fields, (k - 1) as nat) {
            Err(e) => Err(e),
            Ok(pixels) => {
                let field = trim_spec(fields[k as int]);
                if field.len() == 0 {
                    Ok(pixels)
                } else {
                    match parse_usize_spec(field) {
                        None => Err(MatrixError::ParseFailure),
                        Some(intensity) => if k > SIDE * SIDE {
                            Err(MatrixError::ParseFailure)
                        } else {
                            match pixel_value::<T>(intensity) {
                                None => Err(MatrixError::NumericConversionFailure),
                                Some(v) => Ok(pixels.put((k - 1) / (SIDE as int), (k - 1) % (SIDE as int), v)),
                            }
                        },
                    }
                }
            },
        }
    }
}

/// The sample that a dataset row holds: its label, which must be a class, and
/// its pixels.
pub open spec fn record<T: Test>(line: Seq<u8>) -> Result<(u32, Grid<T>), MatrixError> {
    let fields = split(line, COMMA);
    match parse_usize_spec(fields[0]) {
        Some(label) => if label < CLASSES {
            match record_pixels::<T>(fields, (fields.len() - 1) as nat) {
                Ok(pixels) => Ok((label as u32, pixels)),
                Err(e) => Err(e),
            }
        } else {
            Err(MatrixError::ParseFailure)
        },
        None => Err(MatrixError::ParseFailure),
    }
}

/// The rows of a dataset that are read when `count` samples are asked for:
/// the lines after the heading, and at most `count` of them.
pub open spec fn csv_records(content: Seq<u8>, count: nat) -> Seq<Seq<u8>> {
    let rows = lines(content).skip(1);
    if count < rows.len() {
        rows.take(count as int)
    } else {
        rows
    }
}

/// The samples of the first `k` rows, or what is wrong with the first row
/// that is malformed.
pub open spec fn samples<T: Test>(records: Seq<Seq<u8>>, k: nat) -> Result<Seq<(u32, Grid<T>)>, MatrixError>
    decreases k,
{
    if k == 0 {
        Ok(Seq::empty())
    } else {
        match samples::<T>(records, (k - 1) as nat) {
            Err(e) => Err(e),
            Ok(before) => match record::<T>(records[k - 1]) {
                Ok(sample) => Ok(before.push(sample)),
                Err(e) => Err(e),
            },
        }
    }
}

/// The label and the pixels of every sample, as mathematical values.
pub open spec fn models<T>(imgs: Seq<Img<T>>) -> Seq<(u32, Grid<T>)> {
    Seq::new(imgs.len(), |i: int| (imgs[i].label, imgs[i].matrix@))
}

/// The shade of a pixel: four times its intensity, rounded up to a whole
/// number, where that is one of the `SHADES` shades.
pub open spec fn shade_spec<T: Test>(v: T) -> Option<usize> {
    match T::from_usize_spec(4) {
        Some(four) => match v.mul_spec(four).ceil_spec().to_usize_spec() {
            Some(shade) => if shade < SHADES {
                Some(shade)
            } else {
                None
            },
            None => None,
        },
        None => None,
    }
}

/// The character for a shade in UTF-8: a blank, the light, medium and dark
/// shade, and the full block.
pub open spec fn glyph(shade: usize) -> Seq<u8> {
    if shade == 0 {
        seq![32u8]
    } else if shade == 1 {
        seq![226u8, 150u8, 145u8]
    } else if shade == 2 {
        seq![226u8, 150u8, 146u8]
    } else if shade == 3 {
        seq![226u8, 150u8, 147u8]
    } else {
        seq![226u8, 150u8, 136u8]
    }
}

/// The characters of the first `c` pixels of row `r`.
pub open spec fn row_art<T: Test>(pixels: Grid<T>, r: int, c: nat) -> Seq<u8>
    decreases c,
{
    if c == 0 {
        Seq::empty()
    } else {
        row_art(pixels, r, (c - 1) as nat) + glyph(shade_spec(pixels.at(r, c - 1)).unwrap())
    }
}

/// Whether every pixel has a shade.
pub open spec fn has_shades<T: Test>(pixels: Grid<T>) -> bool {
    forall|i: int| 0 <= i < pixels.cells.len() ==> (#[trigger] shade_spec(pixels.cells[i])) is Some
}

/// A sample as text art: a line with the label, then one line per row of
/// pixels with one character per pixel, and no newline at the end.
pub open spec fn art<T: Test>(label: u32, pixels: Grid<T>) -> Seq<u8> {
    seq![108u8, 97u8, 98u8, 101u8, 108u8, 58u8, 32u8] + decimal(label as nat) + seq![NEWLINE] + join(
        Seq::new(pixels.rows, |r: int| row_art(pixels, r, pixels.columns)),
        seq![NEWLINE],
    )
}

/// Once a field has made a row malformed, the fields after it change nothing.
proof fn lemma_record_error_stays<T: Test>(fields: Seq<Seq<u8>>, k: nat, n: nat)
    requires
        k <= n,
        record_pixels::<T>(fields, k) is Err,
    ensures
        record_pixels::<T>(fields, n) == record_pixels::<T>(fields, k),
    decreases n,
{
    if k < n {
        lemma_record_error_stays::<T>(fields, k, (n - 1) as nat);
    }
}

/// Once a row is malformed, the rows after it change nothing.
proof fn lemma_samples_error_stays<T: Test>(records: Seq<Seq<u8>>, k: nat, n: nat)
    requires
        k <= n,
        samples::<T>(records, k) is Err,
    ensures
        samples::<T>(records, n) == samples::<T>(records, k),
    decreases n,
{
    if k < n {
        lemma_samples_error_stays::<T>(records, k, (n - 1) as nat);
    }
}

/// The pixel for an intensity read from a dataset.
fn pixel<T: Test>(intensity: usize) -> (v: Option<T>)
    ensures
        v == pixel_value::<T>(intensity),
{
    match T::from_usize(intensity) {
        Some(n) => match T::from_usize(FULL) {
            Some(full) => Some(n.div(full)),
            None => None,
        },
        None => None,
    }
}

/// The shade of a pixel.
fn shade<T: Test>(v: T) -> (s: Option<usize>)
    ensures
        s == shade_spec(v),
{
    match T::from_usize(4) {
        Some(four) => match v.mul(four).ceil().to_usize() {
            Some(shade) => if shade < SHADES {
                Some(shade)
            } else {
                None
            },
            None => None,
        },
        None => None,
    }
}

/// Appends the character for a shade.
fn push_glyph(text: &mut Vec<u8>, shade: usize)
    requires
        shade < SHADES,
    ensures
        final(text)@ == old(text)@ + glyph(shade),
{
    if shade == 0 {
        text.push(32u8);
    } else {
        text.push(226u8);
        text.push(150u8);
        if shade == 1 {
            text.push(145u8);
        } else if shade == 2 {
            text.push(146u8);
        } else if shade == 3 {
            text.push(147u8);
        } else {
            text.push(136u8);
        }
    }
}

impl<T: Test> Img<T> {
    /// A sample of the given size with no pixel written yet and label 0.
    pub fn new(rows: usize, columns: usize) -> (img: Self)
        requires
            rows * columns <= usize::MAX,
        ensures
            img.matrix@ == Grid::filled(rows as nat, columns as nat, T::nan_spec()),
            img.matrix@.wf(),
            img.label == 0,
    {
        Img { matrix: Matrix2d::new(rows, columns), label: 0 }
    }

    /// The sample as text art.
    ///
    /// Fails with `NumericConversionFailure` where a pixel has no shade: its
    /// intensity is no number, is negative, or exceeds one.
    pub fn render(&self) -> (text: Result<Vec<u8>, MatrixError>)
        ensures
            match text {
                Ok(t) => has_shades(self.matrix@) && t@ == art(self.label, self.matrix@),
                Err(e) => !has_shades(self.matrix@) && e == MatrixError::NumericConversionFailure,
            },
    {
        let rows = self.matrix.rows();
        let columns = self.matrix.columns();
        let ghost pixels = self.matrix@;
        let ghost row_texts = Seq::new(rows as nat, |r: int| row_art(pixels, r, columns as nat));
        let mut text: Vec<u8> = Vec::new();
        text.push(108u8);
        text.push(97u8);
        text.push(98u8);
        text.push(101u8);
        text.push(108u8);
        text.push(58u8);
        text.push(32u8);
        let mut label = format_usize(self.label as usize);
        text.append(&mut label);
        text.push(NEWLINE);
        let ghost head = text@;
        let mut r: usize = 0;
        while r < rows
            invariant
                r <= rows,
                rows == pixels.rows,
                columns == pixels.columns,
                pixels == self.matrix@,
                pixels.wf(),
                row_texts == Seq::new(rows as nat, |r: int| row_art(pixels, r, columns as nat)),
                text@ == head + join(row_texts.take(r as int), seq![NEWLINE]),
                forall|i: int| 0 <= i < r * columns ==> (#[trigger] shade_spec(pixels.cells[i])) is Some,
            decreases rows - r,
        {
            if r != 0 {
                text.push(NEWLINE);
            }
            let ghost before = text@;
            let mut c: usize = 0;
            while c < columns
                invariant
                    r < rows,
                    c <= columns,
                    rows == pixels.rows,
                    columns == pixels.columns,
                    pixels == self.matrix@,
                    pixels.wf(),
                    text@ == before + row_art(pixels, r as int, c as nat),
                    forall|i: int|
                        0 <= i < r * columns + c ==> (#[trigger] shade_spec(pixels.cells[i])) is Some,
                decreases columns - c,
            {
                proof {
                    lemma_flat_index(rows as int, columns as int, r as int, c as int);
                }
                match shade(self.matrix.get(r, c)) {
                    Some(s) => { push_glyph(&mut text, s); },
                    None => { return Err(MatrixError::NumericConversionFailure); },
                }
                c += 1;
            }
            assert((r + 1) * columns == r * columns + columns) by (nonlinear_arith);
            assert(row_texts.take(r + 1).drop_last() =~= row_texts.take(r as int));
            r += 1;
        }
        assert(row_texts.take(rows as int) =~= row_texts);
        Ok(text)
    }

    /// The sample that the dataset row `line` holds.
    ///
    /// The first field is the label, the fields after it the intensities of
    /// the pixels in row-major order, as whole numbers out of `FULL`.
    fn read(line: &[u8]) -> (img: Result<Self, MatrixError>)
        ensures
            match img {
                Ok(img) => record::<T>(line@) == Ok::<(u32, Grid<T>), MatrixError>((img.label, img.matrix@))
                    && img.matrix@.wf(),
                Err(e) => record::<T>(line@) == Err::<(u32, Grid<T>), MatrixError>(e),
            },
    {
        let fields = split_ranges(line, COMMA);
        proof {
            lemma_split_len(line@, COMMA);
        }
        let label: usize = match parse_usize(slice_subrange(line, fields[0].0, fields[0].1)) {
            Some(label) => label,
            None => { return Err(MatrixError::ParseFailure); },
        };
        if label >= CLASSES {
            return Err(MatrixError::ParseFailure);
        }
        let mut img = Img::<T>::new(SIDE, SIDE);
        img.label = label as u32;
        let count: usize = fields.len();
        let mut k: usize = 1;
        while k < count
            invariant
                1 <= k <= count,
                count == fields@.len(),
                fields@.len() == split(line@, COMMA).len(),
                forall|j: int|
                    0 <= j < fields@.len() ==> {
                        &&& (#[trigger] fields@[j]).0 <= fields@[j].1 <= line@.len()
                        &&& split(line@, COMMA)[j] == line@.subrange(fields@[j].0 as int, fields@[j].1 as int)
                    },
                img.label == label,
                label < CLASSES,
                parse_usize_spec(split(line@, COMMA)[0]) == Some(label),
                img.matrix@.wf(),
                img.matrix@.rows == SIDE,
                img.matrix@.columns == SIDE,
                record_pixels::<T>(split(line@, COMMA), (k - 1) as nat) == Ok::<Grid<T>, MatrixError>(
                    img.matrix@,
                ),
            decreases count - k,
        {
            let range = fields[k];
            let field = trim(slice_subrange(line, range.0, range.1));
            proof {
                if record_pixels::<T>(split(line@, COMMA), k as nat) is Err {
                    lemma_record_error_stays::<T>(split(line@, COMMA), k as nat, (count - 1) as nat);
                }
            }
            if field.len() > 0 {
                let intensity = match parse_usize(field) {
                    Some(intensity) => intensity,
                    None => { return Err(MatrixError::ParseFailure); },
                };
                if k > SIDE * SIDE {
                    return Err(MatrixError::ParseFailure);
                }
                let value = match pixel::<T>(intensity) {
                    Some(value) => value,
                    None => { return Err(MatrixError::NumericConversionFailure); },
                };
                img.matrix.set((k - 1) / SIDE, (k - 1) % SIDE, value);
            }
            k += 1;
        }
        Ok(img)
    }
}

/// The labeled samples of a dataset in CSV form.
///
/// The first line is a heading and is passed over.  Every line after it is a
/// sample: its label, then the intensities of its `SIDE * SIDE` pixels, all
/// separated by commas.  At most `number_of_images` samples are read.  Every
/// sample that is returned has a label below `CLASSES`, and its pixels are
/// intensities divided by `FULL`.
///
/// Fails at the first malformed row: with `ParseFailure` where a label or an
/// intensity is no number, the label is no class, or there are more
/// intensities than pixels, and with `NumericConversionFailure` where the
/// element type cannot hold an intensity.
pub fn csv_to_imgs<T: Test>(content: &[u8], number_of_images: usize) -> (imgs: Result<
    Vec<Img<T>>,
    MatrixError,
>)
    ensures
        match imgs {
            Ok(v) => {
                &&& samples::<T>(
                    csv_records(content@, number_of_images as nat),
                    csv_records(content@, number_of_images as nat).len(),
                ) == Ok::<Seq<(u32, Grid<T>)>, MatrixError>(models(v@))
                &&& forall|i: int|
                    0 <= i < v@.len() ==> (#[trigger] v@[i]).matrix@.wf() && v@[i].label < CLASSES
            },
            Err(e) => samples::<T>(
                csv_records(content@, number_of_images as nat),
                csv_records(content@, number_of_images as nat).len(),
            ) == Err::<Seq<(u32, Grid<T>)>, MatrixError>(e),
        },
{
    let ranges = split_lines(content);
    proof {
        lemma_split_len(content@, NEWLINE);
    }
    let available: usize = ranges.len() - 1;
    let wanted: usize = if number_of_images < available {
        number_of_images
    } else {
        available
    };
    let ghost records = csv_records(content@, number_of_images as nat);
    let mut imgs: Vec<Img<T>> = Vec::new();
    let mut k: usize = 0;
    assert(models(imgs@) =~= Seq::<(u32, Grid<T>)>::empty());
    while k < wanted
        invariant
            k <= wanted,
            wanted == records.len(),
            wanted + 1 <= ranges@.len(),
            ranges@.len() == lines(content@).len(),
            records == csv_records(content@, number_of_images as nat),
            forall|j: int|
                0 <= j < ranges@.len() ==> {
                    &&& (#[trigger] ranges@[j]).0 <= ranges@[j].1 <= content@.len()
                    &&& lines(content@)[j] == content@.subrange(ranges@[j].0 as int, ranges@[j].1 as int)
                },
            samples::<T>(records, k as nat) == Ok::<Seq<(u32, Grid<T>)>, MatrixError>(models(imgs@)),
            forall|i: int| 0 <= i < imgs@.len() ==> (#[trigger] imgs@[i]).matrix@.wf() && imgs@[i].label < CLASSES,
        decreases wanted - k,
    {
        let range = ranges[k + 1];
        let ghost before = models(imgs@);
        proof {
            if samples::<T>(records, (k + 1) as nat) is Err {
                lemma_samples_error_stays::<T>(records, (k + 1) as nat, wanted as nat);
            }
        }
        match Img::<T>::read(slice_subrange(content, range.0, range.1)) {
            Ok(img) => {
                imgs.push(img);
                assert(models(imgs@) =~= before.push((img.label, img.matrix@)));
            },
            Err(e) => { return Err(e); },
        }
        k += 1;
    }
    Ok(imgs)
}

} // verus!
