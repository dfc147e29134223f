use vstd::prelude::*;
use vstd::slice::slice_subrange;
use crate::error::MatrixError;
use crate::grid::{lemma_flat_index, Grid};
use crate::matrix::Matrix2d;
use crate::scalar::{Test, Unreadable};
use crate::text::{
    decimal, format_usize, join, lemma_split_len, lemma_split_of_join, lemma_parse_decimal, lines, one_line,
    parse_usize, parse_usize_spec, split_lines, NEWLINE,
};

verus! {

/// The canonical text of every cell, in order.
pub open spec fn cell_texts<T: Test>(cells: Seq<T>) -> Seq<Seq<u8>> {
    Seq::new(cells.len(), |i: int| cells[i].text_spec())
}

/// The persisted text of a matrix: the number of rows and the number of
/// columns in decimal, each followed by a newline, then the canonical text of
/// every cell in row-major order, with a newline between each two.
pub open spec fn encode<T: Test>(g: Grid<T>) -> Seq<u8> {
    decimal(g.rows) + seq![NEWLINE] + decimal(g.columns) + seq![NEWLINE] + join(
        cell_texts(g.cells),
        seq![NEWLINE],
    )
}

/// The cells that the first `k` lines hold, or the error for the first line
/// that cannot be read.
pub open spec fn read_cells<T: Test>(body: Seq<Seq<u8>>, k: nat) -> Result<Seq<T>, MatrixError>
    decreases k,
{
    if k == 0 {
        Ok(Seq::empty())
    } else {
        match read_cells::<T>(body, (k - 1) as nat) {
            Err(e) => Err(e),
            Ok(cells) => match T::parse_spec(body[k - 1]) {
                Ok(cell) => Ok(cells.push(cell)),
                Err(why) => Err(MatrixError::unread(why)),
            },
        }
    }
}

/// The matrix that a persisted text holds, or what is wrong with the text.
///
/// The first two lines are the number of rows and of columns.  For a matrix
/// without cells nothing follows them but, at most, the newline that ends the
/// second; otherwise exactly `rows * columns` lines follow, one cell each.
/// A shape that is missing or malformed and a wrong number of lines are a
/// `ParseFailure`; after that, the first cell that cannot be read decides.
pub open spec fn decode<T: Test>(text: Seq<u8>) -> Result<Grid<T>, MatrixError> {
    let all = lines(text);
    if all.len() < 2 {
        Err(MatrixError::ParseFailure)
    } else {
        match (parse_usize_spec(all[0]), parse_usize_spec(all[1])) {
            (Some(rows), Some(columns)) => {
                let body = all.skip(2);
                let count = rows as nat * columns as nat;
                if count == 0 {
                    if body.len() == 0 || (body.len() == 1 && body[0].len() == 0) {
                        Ok(Grid { rows: rows as nat, columns: columns as nat, cells: Seq::empty() })
                    } else {
                        Err(MatrixError::ParseFailure)
                    }
                } else if body.len() == count {
                    match read_cells::<T>(body, count) {
                        Ok(cells) => Ok(Grid { rows: rows as nat, columns: columns as nat, cells }),
                        Err(e) => Err(e),
                    }
                } else {
                    Err(MatrixError::ParseFailure)
                }
            },
            _ => Err(MatrixError::ParseFailure),
        }
    }
}

/// Cells that the element type reads back as they were written are read back
/// as they were written.
pub proof fn lemma_read_cells<T: Test>(cells: Seq<T>, k: nat)
    requires
        k <= cells.len(),
        forall|i: int|
            0 <= i < cells.len() ==> T::parse_spec(#[trigger] cells[i].text_spec()) == Ok::<T, Unreadable>(
                cells[i],
            ),
    ensures
        read_cells::<T>(cell_texts(cells), k) == Ok::<Seq<T>, MatrixError>(cells.take(k as int)),
    decreases k,
{
    if k == 0 {
        assert(cells.take(0) =~= Seq::<T>::empty());
    } else {
        lemma_read_cells(cells, (k - 1) as nat);
        assert(cells.take(k as int) =~= cells.take(k - 1).push(cells[k - 1]));
    }
}

/// Once a line cannot be read, the lines after it change nothing.
proof fn lemma_read_error_stays<T: Test>(body: Seq<Seq<u8>>, k: nat, n: nat)
    requires
        k <= n,
        read_cells::<T>(body, k) is Err,
    ensures
        read_cells::<T>(body, n) == read_cells::<T>(body, k),
    decreases n,
{
    if k < n {
        lemma_read_error_stays::<T>(body, k, (n - 1) as nat);
    }
}

/// The text of one row for display: its cells with a comma between each two.
pub open spec fn render_row<T: Test>(g: Grid<T>, r: int) -> Seq<u8> {
    join(cell_texts(g.row(r)), seq![44u8])
}

/// The text of a matrix for display: the rows between square brackets, each
/// row on a line of its own, and every row but the first indented by a space.
pub open spec fn render_spec<T: Test>(g: Grid<T>) -> Seq<u8> {
    seq![91u8] + join(Seq::new(g.rows, |r: int| render_row(g, r)), seq![NEWLINE, 32u8]) + seq![93u8]
}

/// The lines of a persisted matrix: the two numbers, then the cells, or one
/// empty line where there is no cell.
pub open spec fn encoded_lines<T: Test>(g: Grid<T>) -> Seq<Seq<u8>> {
    seq![decimal(g.rows), decimal(g.columns)] + (if g.cells.len() == 0 {
        seq![Seq::<u8>::empty()]
    } else {
        cell_texts(g.cells)
    })
}

/// The persisted text is its lines joined by newlines.
pub proof fn lemma_encode_lines<T: Test>(g: Grid<T>)
    ensures
        encode(g) == join(encoded_lines(g), seq![NEWLINE]),
    decreases g.cells.len(),
{
    let sep = seq![NEWLINE];
    let head = seq![decimal(g.rows), decimal(g.columns)];
    assert(join(head.drop_last(), sep) == decimal(g.rows));
    assert(join(head, sep) == decimal(g.rows) + sep + decimal(g.columns));
    if g.cells.len() == 0 {
        let all = encoded_lines(g);
        assert(all.drop_last() =~= head);
    } else {
        lemma_join_behind(head, cell_texts(g.cells), sep);
    }
}

/// Joining two runs of parts, both with a part, is joining each and putting
/// the separator between the results.
pub proof fn lemma_join_behind(front: Seq<Seq<u8>>, back: Seq<Seq<u8>>, separator: Seq<u8>)
    requires
        front.len() >= 1,
        back.len() >= 1,
    ensures
        join(front + back, separator) == join(front, separator) + separator + join(back, separator),
    decreases back.len(),
{
    let all = front + back;
    if back.len() == 1 {
        assert(all.drop_last() =~= front);
    } else {
        lemma_join_behind(front, back.drop_last(), separator);
        assert(all.drop_last() =~= front + back.drop_last());
    }
}

/// Loading what was saved gives the matrix again.
///
/// This holds for every well-formed matrix, of any shape, whose cells the
/// element type writes as a single line and reads back as they were; the
/// shape must be one that `usize` can hold.
pub proof fn lemma_load_save_round_trip<T: Test>(g: Grid<T>)
    requires
        g.wf(),
        g.rows <= usize::MAX,
        g.columns <= usize::MAX,
        forall|i: int|
            0 <= i < g.cells.len() ==> one_line(#[trigger] g.cells[i].text_spec()) && T::parse_spec(
                g.cells[i].text_spec(),
            ) == Ok::<T, Unreadable>(g.cells[i]),
    ensures
        decode::<T>(encode(g)) == Ok::<Grid<T>, MatrixError>(g),
{
    let all = encoded_lines(g);
    lemma_encode_lines(g);
    lemma_parse_decimal(g.rows);
    lemma_parse_decimal(g.columns);
    assert forall|i: int| 0 <= i < all.len() implies one_line(#[trigger] all[i]) by {}
    lemma_split_of_join(all, NEWLINE);
    if g.cells.len() == 0 {
        assert(g.cells =~= Seq::<T>::empty());
    } else {
        assert(all.skip(2) =~= cell_texts(g.cells));
        lemma_read_cells(g.cells, g.cells.len());
        assert(g.cells.take(g.cells.len() as int) =~= g.cells);
    }
}

impl<T: Test> Matrix2d<T> {
    /// The persisted text of the matrix.
    pub fn save(&self) -> (text: Vec<u8>)
        ensures
            text@ == encode(self@),
    {
        let cells = self.cells();
        let mut text = format_usize(self.rows());
        text.push(NEWLINE);
        let mut columns = format_usize(self.columns());
        text.append(&mut columns);
        text.push(NEWLINE);
        let ghost head = text@;
        let ghost parts = cell_texts(self@.cells);
        let len: usize = cells.len();
        let mut i: usize = 0;
        while i < len
            invariant
                i <= len,
                len == cells@.len(),
                cells@ == self@.cells,
                parts == cell_texts(self@.cells),
                text@ == head + join(parts.take(i as int), seq![NEWLINE]),
            decreases len - i,
        {
            if i > 0 {
                text.push(NEWLINE);
            }
            let mut cell = cells[i].to_text();
            text.append(&mut cell);
            assert(parts.take(i + 1).drop_last() =~= parts.take(i as int));
            i += 1;
        }
        assert(parts.take(len as int) =~= parts);
        text
    }

    /// The matrix that the persisted text `bytes` holds.
    ///
    /// Fails with `ParseFailure` where a number of rows or columns is missing
    /// or malformed, where there are more or fewer cells than the shape asks
    /// for, and where a cell is no number; and with
    /// `NumericConversionFailure` where a cell is a number that the element
    /// type cannot hold.
    pub fn load(bytes: &[u8]) -> (loaded: Result<Self, MatrixError>)
        ensures
            match loaded {
                Ok(m) => decode::<T>(bytes@) == Ok::<Grid<T>, MatrixError>(m@) && m@.wf(),
                Err(e) => decode::<T>(bytes@) == Err::<Grid<T>, MatrixError>(e),
            },
    {
        let ranges = split_lines(bytes);
        proof {
            lemma_split_len(bytes@, NEWLINE);
        }
        if ranges.len() < 2 {
            return Err(MatrixError::ParseFailure);
        }
        let rows = match parse_usize(slice_subrange(bytes, ranges[0].0, ranges[0].1)) {
            Some(rows) => rows,
            None => { return Err(MatrixError::ParseFailure); },
        };
        let columns = match parse_usize(slice_subrange(bytes, ranges[1].0, ranges[1].1)) {
            Some(columns) => columns,
            None => { return Err(MatrixError::ParseFailure); },
        };
        let given: usize = ranges.len() - 2;
        let ghost body = lines(bytes@).skip(2);
        let count = match rows.checked_mul(columns) {
            Some(count) => count,
            None => { return Err(MatrixError::ParseFailure); },
        };
        if count == 0 {
            if given == 0 || (given == 1 && ranges[2].0 == ranges[2].1) {
                return Ok(Matrix2d::from_cells(rows, columns, Vec::new()));
            } else {
                return Err(MatrixError::ParseFailure);
            }
        }
        if given != count {
            return Err(MatrixError::ParseFailure);
        }
        let mut cells: Vec<T> = Vec::with_capacity(count);
        let mut i: usize = 0;
        while i < count
            invariant
                i <= count,
                count == given,
                count == rows * columns,
                count > 0,
                count + 2 <= usize::MAX,
                parse_usize_spec(lines(bytes@)[0]) == Some(rows),
                parse_usize_spec(lines(bytes@)[1]) == Some(columns),
                ranges@.len() == count + 2,
                ranges@.len() == lines(bytes@).len(),
                body == lines(bytes@).skip(2),
                forall|k: int|
                    0 <= k < ranges@.len() ==> {
                        &&& (#[trigger] ranges@[k]).0 <= ranges@[k].1 <= bytes@.len()
                        &&& lines(bytes@)[k] == bytes@.subrange(ranges@[k].0 as int, ranges@[k].1 as int)
                    },
                cells@.len() == i,
                read_cells::<T>(body, i as nat) == Ok::<Seq<T>, MatrixError>(cells@),
            decreases count - i,
        {
            let range = ranges[i + 2];
            assert(body[i as int] == lines(bytes@)[i + 2]);
            proof {
                if read_cells::<T>(body, (i + 1) as nat) is Err {
                    lemma_read_error_stays::<T>(body, (i + 1) as nat, count as nat);
                }
            }
            match T::parse(slice_subrange(bytes, range.0, range.1)) {
                Ok(cell) => { cells.push(cell); },
                Err(why) => { return Err(MatrixError::from_unreadable(why)); },
            }
            i += 1;
        }
        Ok(Matrix2d::from_cells(rows, columns, cells))
    }

    /// The matrix as text for display: the rows between square brackets, each
    /// on a line of its own, the cells of a row separated by commas.
    pub fn render(&self) -> (text: Vec<u8>)
        ensures
            text@ == render_spec(self@),
    {
        let rows = self.rows();
        let columns = self.columns();
        let ghost row_texts = Seq::new(rows as nat, |r: int| render_row(self@, r));
        let mut text: Vec<u8> = Vec::new();
        text.push(91u8);
        let mut r: usize = 0;
        while r < rows
            invariant
                r <= rows,
                rows == self@.rows,
                columns == self@.columns,
                self@.wf(),
                row_texts == Seq::new(rows as nat, |r: int| render_row(self@, r)),
                text@ == seq![91u8] + join(row_texts.take(r as int), seq![NEWLINE, 32u8]),
            decreases rows - r,
        {
            if r != 0 {
                text.push(NEWLINE);
                text.push(32u8);
            }
            let ghost before = text@;
            let ghost parts = cell_texts(self@.row(r as int));
            proof {
                lemma_flat_index(rows as int, columns as int + 1, r as int, columns as int);
                assert((r + 1) * columns == r * columns + columns) by (nonlinear_arith);
                assert((r + 1) * columns <= rows * columns) by (nonlinear_arith)
                    requires
                        r < rows,
                ;
            }
            let mut c: usize = 0;
            while c < columns
                invariant
                    r < rows,
                    c <= columns,
                    rows == self@.rows,
                    columns == self@.columns,
                    self@.wf(),
                    parts == cell_texts(self@.row(r as int)),
                    parts.len() == columns,
                    (r + 1) * columns == r * columns + columns,
                    (r + 1) * columns <= rows * columns,
                    text@ == before + join(parts.take(c as int), seq![44u8]),
                decreases columns - c,
            {
                if c != 0 {
                    text.push(44u8);
                }
                proof {
                    lemma_flat_index(rows as int, columns as int, r as int, c as int);
                }
                let mut cell = self.get(r, c).to_text();
                text.append(&mut cell);
                assert(parts.take(c + 1).drop_last() =~= parts.take(c as int));
                c += 1;
            }
            assert(parts.take(columns as int) =~= parts);
            assert(row_texts.take(r + 1).drop_last() =~= row_texts.take(r as int));
            r += 1;
        }
        text.push(93u8);
        assert(row_texts.take(rows as int) =~= row_texts);
        text
    }
}

} // verus!
