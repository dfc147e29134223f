use vstd::prelude::*;
use vstd::slice::slice_subrange;

verus! {

/// The byte that ends a line.
pub const NEWLINE: u8 = 10;

/// The ASCII digit for `d`, meant for `d < 10`.
pub open spec fn digit(d: nat) -> u8 {
    (48 + d) as u8
}

/// Whether `b` is one of the ASCII digits `0` to `9`.
pub open spec fn is_digit(b: u8) -> bool {
    48 <= b <= 57
}

/// The decimal text of `n`, without sign and without leading zeros.
pub open spec fn decimal(n: nat) -> Seq<u8>
    decreases n,
{
    if n < 10 {
        seq![digit(n)]
    } else {
        decimal(n / 10).push(digit(n % 10))
    }
}

/// Whether every byte of `text` is an ASCII digit.
pub open spec fn all_digits(text: Seq<u8>) -> bool {
    forall|i: int| 0 <= i < text.len() ==> is_digit(#[trigger] text[i])
}

/// The number that a text of ASCII digits denotes.
pub open spec fn digits_value(text: Seq<u8>) -> nat
    decreases text.len(),
{
    if text.len() == 0 {
        0
    } else {
        (digits_value(text.drop_last()) * 10 + (text.last() - 48)) as nat
    }
}

/// The number that `text` denotes: one ASCII digit or more, after at most one
/// `+`.  Anything else denotes no number.
pub open spec fn parse_decimal(text: Seq<u8>) -> Option<nat> {
    let digits = if text.len() > 0 && text[0] == 43 {
        text.skip(1)
    } else {
        text
    };
    if digits.len() > 0 && all_digits(digits) {
        Some(digits_value(digits))
    } else {
        None
    }
}

/// The number that `text` denotes, if it fits in `usize`.
pub open spec fn parse_usize_spec(text: Seq<u8>) -> Option<usize> {
    match parse_decimal(text) {
        Some(n) => if n <= usize::MAX {
            Some(n as usize)
        } else {
            None
        },
        None => None,
    }
}

/// Whether `b` is ASCII white space: a blank, or one of the control
/// characters from tab to carriage return.
pub open spec fn is_space(b: u8) -> bool {
    b == 32 || 9 <= b <= 13
}

/// `text` without the white space at its beginning.
pub open spec fn skip_spaces(text: Seq<u8>) -> Seq<u8>
    decreases text.len(),
{
    if text.len() > 0 && is_space(text[0]) {
        skip_spaces(text.skip(1))
    } else {
        text
    }
}

/// `text` without the white space at its end.
pub open spec fn drop_spaces(text: Seq<u8>) -> Seq<u8>
    decreases text.len(),
{
    if text.len() > 0 && is_space(text.last()) {
        drop_spaces(text.drop_last())
    } else {
        text
    }
}

/// `text` without the ASCII white space at its beginning and at its end.
pub open spec fn trim_spec(text: Seq<u8>) -> Seq<u8> {
    drop_spaces(skip_spaces(text))
}

/// The parts with `separator` between each two neighbours.
pub open spec fn join(parts: Seq<Seq<u8>>, separator: Seq<u8>) -> Seq<u8>
    decreases parts.len(),
{
    if parts.len() == 0 {
        Seq::empty()
    } else if parts.len() == 1 {
        parts[0]
    } else {
        join(parts.drop_last(), separator) + separator + parts.last()
    }
}

/// The pieces of `text` that stand between the occurrences of `separator`.
/// A text without the separator is one piece, and a separator at the very end
/// is followed by one last, empty piece, so there is always one piece more
/// than there are separators.
pub open spec fn split(text: Seq<u8>, separator: u8) -> Seq<Seq<u8>>
    decreases text.len(),
{
    if text.len() == 0 {
        seq![Seq::empty()]
    } else {
        let before = split(text.drop_last(), separator);
        if text.last() == separator {
            before.push(Seq::empty())
        } else {
            before.drop_last().push(before.last().push(text.last()))
        }
    }
}

/// The lines of `text`: what stands between the newlines.
pub open spec fn lines(text: Seq<u8>) -> Seq<Seq<u8>> {
    split(text, NEWLINE)
}

/// Whether no byte of `text` is `separator`.
pub open spec fn free_of(text: Seq<u8>, separator: u8) -> bool {
    forall|i: int| 0 <= i < text.len() ==> #[trigger] text[i] != separator
}

/// Whether no byte of `text` is a newline.
pub open spec fn one_line(text: Seq<u8>) -> bool {
    free_of(text, NEWLINE)
}

/// There is always a piece, and never more pieces than bytes and one.
pub proof fn lemma_split_len(text: Seq<u8>, separator: u8)
    ensures
        1 <= split(text, separator).len() <= text.len() + 1,
    decreases text.len(),
{
    if text.len() > 0 {
        lemma_split_len(text.drop_last(), separator);
    }
}

/// Text without the separator, put behind other text, lengthens its last
/// piece.
pub proof fn lemma_split_extend(text: Seq<u8>, tail: Seq<u8>, separator: u8)
    requires
        free_of(tail, separator),
    ensures
        split(text + tail, separator) == split(text, separator).drop_last().push(
            split(text, separator).last() + tail,
        ),
    decreases tail.len(),
{
    lemma_split_len(text, separator);
    if tail.len() > 0 {
        let shorter = tail.drop_last();
        lemma_split_extend(text, shorter, separator);
        assert((text + tail).drop_last() =~= text + shorter);
        assert(split(text + shorter, separator).last().push(tail.last()) =~= split(text, separator).last()
            + tail);
    }
}

/// A text without the separator is its own single piece.
pub proof fn lemma_split_one(text: Seq<u8>, separator: u8)
    requires
        free_of(text, separator),
    ensures
        split(text, separator) == seq![text],
{
    lemma_split_extend(Seq::empty(), text, separator);
}

/// Splitting what was joined gives the parts again, provided there is a part
/// and none of them holds the separator.
pub proof fn lemma_split_of_join(parts: Seq<Seq<u8>>, separator: u8)
    requires
        parts.len() >= 1,
        forall|i: int| 0 <= i < parts.len() ==> free_of(#[trigger] parts[i], separator),
    ensures
        split(join(parts, seq![separator]), separator) == parts,
    decreases parts.len(),
{
    if parts.len() == 1 {
        lemma_split_one(parts[0], separator);
    } else {
        let front = parts.drop_last();
        lemma_split_of_join(front, separator);
        let head = join(front, seq![separator]);
        let broken = head + seq![separator];
        assert(broken.drop_last() =~= head);
        lemma_split_extend(broken, parts.last(), separator);
    }
}

/// The decimal text of a number is made of digits, and denotes the number.
pub proof fn lemma_decimal_value(n: nat)
    ensures
        decimal(n).len() >= 1,
        all_digits(decimal(n)),
        digits_value(decimal(n)) == n,
    decreases n,
{
    if n < 10 {
        assert(digits_value(decimal(n).drop_last()) == 0);
    } else {
        lemma_decimal_value(n / 10);
        assert(decimal(n).drop_last() =~= decimal(n / 10));
    }
}

/// Reading back the decimal text of a number gives the number, and the text
/// is a single line.
pub proof fn lemma_parse_decimal(n: nat)
    ensures
        parse_decimal(decimal(n)) == Some(n),
        one_line(decimal(n)),
{
    lemma_decimal_value(n);
}

/// A text of digits denotes at least what any of its beginnings denotes.
pub proof fn lemma_digits_value_grows(text: Seq<u8>, k: int)
    requires
        all_digits(text),
        0 <= k <= text.len(),
    ensures
        digits_value(text.take(k)) <= digits_value(text),
    decreases text.len() - k,
{
    if k == text.len() {
        assert(text.take(k) =~= text);
    } else {
        lemma_digits_value_grows(text, k + 1);
        assert(text.take(k + 1).drop_last() =~= text.take(k));
    }
}

/// The decimal text of `n`.
pub fn format_usize(n: usize) -> (text: Vec<u8>)
    ensures
        text@ == decimal(n as nat),
{
    let mut reversed: Vec<u8> = Vec::new();
    let mut rest: usize = n;
    reversed.push(48 + (rest % 10) as u8);
    rest = rest / 10;
    while rest > 0
        invariant
            decimal(n as nat) == (if rest == 0 {
                Seq::<u8>::empty()
            } else {
                decimal(rest as nat)
            }) + reversed@.reverse(),
        decreases rest,
    {
        reversed.push(48 + (rest % 10) as u8);
        rest = rest / 10;
    }
    let len: usize = reversed.len();
    let mut text: Vec<u8> = Vec::with_capacity(len);
    let mut i: usize = 0;
    while i < len
        invariant
            i <= len,
            len == reversed@.len(),
            text@ == reversed@.reverse().take(i as int),
        decreases len - i,
    {
        text.push(reversed[len - 1 - i]);
        i += 1;
    }
    text
}

/// The number that `text` denotes in decimal, if it denotes one that fits.
///
/// Accepts one ASCII digit or more, after at most one `+`; white space, a
/// minus sign or an empty text denote no number.
pub fn parse_usize(text: &[u8]) -> (value: Option<usize>)
    ensures
        value == parse_usize_spec(text@),
{
    let len: usize = text.len();
    let start: usize = if len > 0 && text[0] == 43 {
        1
    } else {
        0
    };
    if start == len {
        return None;
    }
    let ghost digits = text@.skip(start as int);
    let mut value: usize = 0;
    let mut i: usize = start;
    while i < len
        invariant
            start <= i <= len,
            len == text@.len(),
            digits == text@.skip(start as int),
            digits == (if text@.len() > 0 && text@[0] == 43 {
                text@.skip(1)
            } else {
                text@
            }),
            digits.len() == len - start > 0,
            all_digits(digits.take(i - start)),
            value == digits_value(digits.take(i - start)),
        decreases len - i,
    {
        let b: u8 = text[i];
        if b < 48 || b > 57 {
            assert(!is_digit(digits[i - start]));
            return None;
        }
        let d: usize = (b - 48) as usize;
        proof {
            assert(digits.take(i - start + 1).drop_last() =~= digits.take(i - start));
            if value * 10 + d > usize::MAX && all_digits(digits) {
                lemma_digits_value_grows(digits, i - start + 1);
            }
        }
        if value > (usize::MAX - d) / 10 {
            return None;
        }
        value = value * 10 + d;
        i += 1;
    }
    assert(digits.take(len - start) =~= digits);
    Some(value)
}

/// `text` without the ASCII white space at its beginning and at its end.
pub fn trim(text: &[u8]) -> (trimmed: &[u8])
    ensures
        trimmed@ == trim_spec(text@),
{
    let len: usize = text.len();
    let mut start: usize = 0;
    assert(text@.skip(0) =~= text@);
    while start < len && (text[start] == 32 || (9 <= text[start] && text[start] <= 13))
        invariant
            start <= len,
            len == text@.len(),
            skip_spaces(text@) == skip_spaces(text@.skip(start as int)),
        decreases len - start,
    {
        assert(text@.skip(start as int).skip(1) =~= text@.skip(start + 1));
        start += 1;
    }
    let ghost rest = text@.skip(start as int);
    let mut end: usize = len;
    assert(rest.take(len - start) =~= rest);
    while end > start && (text[end - 1] == 32 || (9 <= text[end - 1] && text[end - 1] <= 13))
        invariant
            start <= end <= len,
            len == text@.len(),
            rest == text@.skip(start as int),
            drop_spaces(rest) == drop_spaces(rest.take(end - start)),
        decreases end,
    {
        assert(rest.take(end - start).drop_last() =~= rest.take(end - start - 1));
        end -= 1;
    }
    slice_subrange(text, start, end)
}

/// Where the pieces of `text` between the occurrences of `separator` begin
/// and end: for each piece the position of its first byte and the position
/// behind its last one.
pub fn split_ranges(text: &[u8], separator: u8) -> (ranges: Vec<(usize, usize)>)
    ensures
        ranges@.len() == split(text@, separator).len(),
        forall|k: int|
            0 <= k < ranges@.len() ==> {
                &&& (#[trigger] ranges@[k]).0 <= ranges@[k].1 <= text@.len()
                &&& split(text@, separator)[k] == text@.subrange(ranges@[k].0 as int, ranges@[k].1 as int)
            },
{
    let len: usize = text.len();
    let mut ranges: Vec<(usize, usize)> = Vec::new();
    let mut start: usize = 0;
    let mut i: usize = 0;
    assert(text@.take(0) =~= Seq::<u8>::empty());
    while i < len
        invariant
            start <= i <= len,
            len == text@.len(),
            split(text@.take(i as int), separator).len() == ranges@.len() + 1,
            split(text@.take(i as int), separator).last() == text@.subrange(start as int, i as int),
            forall|k: int|
                0 <= k < ranges@.len() ==> {
                    &&& (#[trigger] ranges@[k]).0 <= ranges@[k].1 <= text@.len()
                    &&& split(text@.take(i as int), separator)[k] == text@.subrange(
                        ranges@[k].0 as int,
                        ranges@[k].1 as int,
                    )
                },
        decreases len - i,
    {
        assert(text@.take(i + 1).drop_last() =~= text@.take(i as int));
        if text[i] == separator {
            ranges.push((start, i));
            start = i + 1;
        }
        i += 1;
    }
    ranges.push((start, len));
    assert(text@.take(len as int) =~= text@);
    ranges
}

/// Where the lines of `text` begin and end.
pub fn split_lines(text: &[u8]) -> (ranges: Vec<(usize, usize)>)
    ensures
        ranges@.len() == lines(text@).len(),
        forall|k: int|
            0 <= k < ranges@.len() ==> {
                &&& (#[trigger] ranges@[k]).0 <= ranges@[k].1 <= text@.len()
                &&& lines(text@)[k] == text@.subrange(ranges@[k].0 as int, ranges@[k].1 as int)
            },
{
    split_ranges(text, NEWLINE)
}

} // verus!
