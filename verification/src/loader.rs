//! The textual map description and its loader.
//!
//! A description is plain text, one item per line: the width, the height,
//! then the rows. Line `i + 2` is row `i` and fills column `i` of the seed:
//! after the spaces are taken out, its character at position `j` decides the
//! cell at `(i, j)`, which is alive where the character is `'1'`. Cells that
//! no row reaches are dead.

use vstd::prelude::*;
use crate::generation::{Generation, is_rectangle};
use crate::grid::Grid;

verus! {

/// The characters after the last newline of `text`: the line that no newline
/// has ended yet.
pub open spec fn open_line(text: Seq<char>) -> Seq<char>
    decreases text.len(),
{
    if text.len() == 0 || text.last() == '\n' {
        Seq::empty()
    } else {
        open_line(text.drop_last()).push(text.last())
    }
}

/// `line` without the carriage return that may end it.
pub open spec fn without_carriage_return(line: Seq<char>) -> Seq<char> {
    if line.len() > 0 && line.last() == '\r' {
        line.drop_last()
    } else {
        line
    }
}

/// The lines of `text` that a newline ends, each without its line ending
/// (a newline, or a carriage return and a newline).
pub open spec fn ended_lines(text: Seq<char>) -> Seq<Seq<char>>
    decreases text.len(),
{
    if text.len() == 0 {
        Seq::empty()
    } else if text.last() == '\n' {
        ended_lines(text.drop_last()).push(without_carriage_return(open_line(text.drop_last())))
    } else {
        ended_lines(text.drop_last())
    }
}

/// The lines of `text`: those that a newline ends, and after them what follows
/// the last newline, if anything does. The last line's ending is optional, so
/// a text that ends in a newline has no empty line after it.
pub open spec fn lines_of(text: Seq<char>) -> Seq<Seq<char>> {
    if open_line(text).len() > 0 {
        ended_lines(text).push(open_line(text))
    } else {
        ended_lines(text)
    }
}

/// `c` is one of the ten decimal digits.
pub open spec fn is_digit(c: char) -> bool {
    '0' as u32 <= c as u32 <= '9' as u32
}

/// The value of a decimal digit.
pub open spec fn digit_value(c: char) -> nat {
    if is_digit(c) {
        (c as u32 - '0' as u32) as nat
    } else {
        0
    }
}

/// Every character of `digits` is a decimal digit.
pub open spec fn all_digits(digits: Seq<char>) -> bool {
    forall|i: int| 0 <= i < digits.len() ==> is_digit(#[trigger] digits[i])
}

/// The number that a run of decimal digits writes.
pub open spec fn decimal_value(digits: Seq<char>) -> nat
    decreases digits.len(),
{
    if digits.len() == 0 {
        0
    } else {
        10 * decimal_value(digits.drop_last()) + digit_value(digits.last())
    }
}

/// `line` without the plus sign that may lead it.
pub open spec fn without_sign(line: Seq<char>) -> Seq<char> {
    if line.len() > 0 && line[0] == '+' {
        line.drop_first()
    } else {
        line
    }
}

/// The unsigned number that `line` writes: an optional plus sign, then one or
/// more decimal digits and nothing else, with a value that fits a `usize`.
pub open spec fn number_of(line: Seq<char>) -> Option<usize> {
    let digits = without_sign(line);
    if digits.len() > 0 && all_digits(digits) && decimal_value(digits) <= usize::MAX {
        Some(decimal_value(digits) as usize)
    } else {
        None
    }
}

/// `row` without its spaces.
pub open spec fn without_blanks(row: Seq<char>) -> Seq<char> {
    row.filter(|c: char| c != ' ')
}

/// The rows of a description: its lines from the third on, without their
/// spaces.
pub open spec fn rows_of(text: Seq<char>) -> Seq<Seq<char>> {
    let lines = lines_of(text);
    if lines.len() >= 2 {
        Seq::new((lines.len() - 2) as nat, |i: int| without_blanks(lines[i + 2]))
    } else {
        Seq::empty()
    }
}

/// No row reaches outside a `width` by `height` seed: row `i` has a character
/// only where `i < width`, and then at most `height` of them.
pub open spec fn rows_fit(rows: Seq<Seq<char>>, width: int, height: int) -> bool {
    forall|i: int|
        0 <= i < rows.len() ==> (#[trigger] rows[i]).len() == 0 || (i < width && rows[i].len()
            <= height)
}

/// The width that the first line of `text` declares.
pub open spec fn declared_width(text: Seq<char>) -> Option<usize> {
    if lines_of(text).len() >= 1 {
        number_of(lines_of(text)[0])
    } else {
        None
    }
}

/// The height that the second line of `text` declares.
pub open spec fn declared_height(text: Seq<char>) -> Option<usize> {
    if lines_of(text).len() >= 2 {
        number_of(lines_of(text)[1])
    } else {
        None
    }
}

/// `text` is a description: it declares a width and a height, and its rows
/// stay within them.
pub open spec fn is_description(text: Seq<char>) -> bool {
    &&& declared_width(text) is Some
    &&& declared_height(text) is Some
    &&& rows_fit(rows_of(text), declared_width(text)->0 as int, declared_height(text)->0 as int)
}

/// The cell at `(x, y)` is alive in the seed that `rows` describe: row `x`
/// has a character at position `y`, and it is `'1'`.
pub open spec fn seeded(rows: Seq<Seq<char>>, x: int, y: int) -> bool {
    0 <= x < rows.len() && 0 <= y < rows[x].len() && rows[x][y] == '1'
}

/// The `width` by `height` seed that `rows` describe.
pub open spec fn seed_of(rows: Seq<Seq<char>>, width: nat, height: nat) -> Generation {
    Seq::new(width, |x: int| Seq::new(height, |y: int| seeded(rows, x, y)))
}

/// Why no grid could be loaded.
#[derive(Clone, Copy, Debug, PartialEq, Eq, Structural)]
pub enum LoadError {
    /// The text declares no width or no height, or a row reaches outside the
    /// declared bounds.
    MalformedDescription,
    /// The text could not be read.
    GenericIOFailure,
}

/// A longer run of digits writes no smaller a number than its beginning.
proof fn lemma_decimal_value_grows(digits: Seq<char>, k: int)
    requires
        0 <= k <= digits.len(),
    ensures
        decimal_value(digits.take(k)) <= decimal_value(digits),
    decreases digits.len(),
{
    if k < digits.len() {
        assert(digits.drop_last().take(k) =~= digits.take(k));
        lemma_decimal_value_grows(digits.drop_last(), k);
    } else {
        assert(digits.take(k) =~= digits);
    }
}

/// Reads the unsigned number that `line` writes.
fn parse_number(line: &Vec<char>) -> (number: Option<usize>)
    ensures
        number == number_of(line@),
{
    let len: usize = line.len();
    let start: usize = if len > 0 && line[0] == '+' {
        1
    } else {
        0
    };
    let ghost digits = without_sign(line@);
    if start == len {
        return None;
    }
    let mut value: usize = 0;
    let mut i: usize = start;
    while i < len
        invariant
            start <= i <= len,
            len == line@.len(),
            digits == line@.skip(start as int),
            digits == without_sign(line@),
            all_digits(digits.take(i - start)),
            value == decimal_value(digits.take(i - start)),
        decreases len - i,
    {
        let c: char = line[i];
        assert(digits[i - start] == c);
        let code: u32 = c as u32;
        if code < '0' as u32 || code > '9' as u32 {
            return None;
        }
        let digit: usize = (code - '0' as u32) as usize;
        proof {
            assert(digits.take(i + 1 - start).drop_last() =~= digits.take(i - start));
            lemma_decimal_value_grows(digits, i + 1 - start);
        }
        let scaled: usize = match value.checked_mul(10) {
            Some(scaled) => scaled,
            None => {
                return None;
            },
        };
        value = match scaled.checked_add(digit) {
            Some(sum) => sum,
            None => {
                return None;
            },
        };
        i += 1;
    }
    assert(digits.take(len - start) =~= digits);
    Some(value)
}

/// Copies `row` without its spaces.
fn strip_blanks(row: &Vec<char>) -> (stripped: Vec<char>)
    ensures
        stripped@ == without_blanks(row@),
{
    let mut stripped: Vec<char> = Vec::new();
    let mut i: usize = 0;
    let ghost keep = |c: char| c != ' ';
    proof {
        reveal(Seq::filter);
    }
    while i < row.len()
        invariant
            i <= row@.len(),
            keep == (|c: char| c != ' '),
            stripped@ == row@.take(i as int).filter(keep),
        decreases row@.len() - i,
    {
        let c: char = row[i];
        proof {
            reveal(Seq::filter);
            assert(row@.take(i + 1).drop_last() =~= row@.take(i as int));
        }
        if c != ' ' {
            stripped.push(c);
        }
        i += 1;
    }
    assert(row@.take(row@.len() as int) =~= row@);
    stripped
}

/// The characters of `text`, in order.
fn chars_of(text: &str) -> (chars: Vec<char>)
    ensures
        chars@ == text@,
{
    let mut chars: Vec<char> = Vec::new();
    for c in it: text.chars()
        invariant
            it.seq() == text@,
            chars@ == text@.take(it.index()),
    {
        chars.push(c);
    }
    chars
}

/// Splits `text` into its lines.
fn split_lines(text: &Vec<char>) -> (lines: Vec<Vec<char>>)
    ensures
        lines.deep_view() == lines_of(text@),
{
    let mut lines: Vec<Vec<char>> = Vec::new();
    let mut line: Vec<char> = Vec::new();
    let mut i: usize = 0;
    while i < text.len()
        invariant
            i <= text@.len(),
            lines.deep_view() == ended_lines(text@.take(i as int)),
            line@ == open_line(text@.take(i as int)),
        decreases text@.len() - i,
    {
        let c: char = text[i];
        proof {
            assert(text@.take(i + 1).drop_last() =~= text@.take(i as int));
        }
        if c == '\n' {
            if line.len() > 0 && line[line.len() - 1] == '\r' {
                line.pop();
            }
            assert(line.deep_view() =~= line@);
            lines.push(line);
            line = Vec::new();
        } else {
            line.push(c);
        }
        i += 1;
    }
    assert(text@.take(text@.len() as int) =~= text@);
    if line.len() > 0 {
        assert(line.deep_view() =~= line@);
        lines.push(line);
    }
    lines
}

/// Builds the `width` by `height` seed that `rows` describe.
fn build_seed(rows: &Vec<Vec<char>>, width: usize, height: usize) -> (seed: Vec<Vec<bool>>)
    ensures
        seed.deep_view() == seed_of(rows.deep_view(), width as nat, height as nat),
{
    let ghost described = rows.deep_view();
    let mut seed: Vec<Vec<bool>> = Vec::new();
    let mut x: usize = 0;
    while x < width
        invariant
            x <= width,
            described == rows.deep_view(),
            seed@.len() == x,
            forall|i: int|
                0 <= i < x ==> (#[trigger] seed@[i])@ == Seq::new(
                    height as nat,
                    |y: int| seeded(described, i, y),
                ),
        decreases width - x,
    {
        let mut column: Vec<bool> = Vec::new();
        let mut y: usize = 0;
        while y < height
            invariant
                y <= height,
                described == rows.deep_view(),
                column@.len() == y,
                forall|j: int|
                    0 <= j < y ==> (#[trigger] column@[j]) == seeded(described, x as int, j),
            decreases height - y,
        {
            let alive: bool = x < rows.len() && y < rows[x].len() && rows[x][y] == '1';
            column.push(alive);
            y += 1;
        }
        seed.push(column);
        x += 1;
    }
    assert(seed.deep_view() =~~= seed_of(described, width as nat, height as nat));
    seed
}

/// Parses a description into the declared width and height and the seed:
/// one column per declared unit of width, one cell per declared unit of
/// height, alive exactly where a row says `'1'`.
pub fn load(source_text: &str) -> (result: Result<(usize, usize, Vec<Vec<bool>>), LoadError>)
    ensures
        match result {
            Ok((width, height, seed)) => {
                &&& is_description(source_text@)
                &&& declared_width(source_text@) == Some(width)
                &&& declared_height(source_text@) == Some(height)
                &&& seed.deep_view() == seed_of(
                    rows_of(source_text@),
                    width as nat,
                    height as nat,
                )
                &&& is_rectangle(seed.deep_view(), width as int, height as int)
            },
            Err(error) => !is_description(source_text@) && error
                == LoadError::MalformedDescription,
        },
{
    let chars: Vec<char> = chars_of(source_text);
    let lines: Vec<Vec<char>> = split_lines(&chars);
    let ghost text = source_text@;
    if lines.len() < 2 {
        return Err(LoadError::MalformedDescription);
    }
    assert(lines.deep_view()[0] =~= lines@[0]@);
    assert(lines.deep_view()[1] =~= lines@[1]@);
    let width: usize = match parse_number(&lines[0]) {
        Some(width) => width,
        None => {
            return Err(LoadError::MalformedDescription);
        },
    };
    let height: usize = match parse_number(&lines[1]) {
        Some(height) => height,
        None => {
            return Err(LoadError::MalformedDescription);
        },
    };
    let mut rows: Vec<Vec<char>> = Vec::new();
    let mut index: usize = 2;
    while index < lines.len()
        invariant
            2 <= index <= lines@.len(),
            text == source_text@,
            lines.deep_view() == lines_of(text),
            declared_width(text) == Some(width),
            declared_height(text) == Some(height),
            rows@.len() == index - 2,
            forall|i: int| 0 <= i < index - 2 ==> (#[trigger] rows@[i])@ == rows_of(text)[i],
            rows_fit(rows_of(text).take(index - 2), width as int, height as int),
        decreases lines@.len() - index,
    {
        assert(lines.deep_view()[index as int] =~= lines@[index as int]@);
        let row: Vec<char> = strip_blanks(&lines[index]);
        assert(row@ == rows_of(text)[index - 2]);
        if row.len() > 0 && (index - 2 >= width || row.len() > height) {
            return Err(LoadError::MalformedDescription);
        }
        assert(rows_fit(rows_of(text).take(index - 1), width as int, height as int)) by {
            assert(rows_of(text).take(index - 1).drop_last() =~= rows_of(text).take(index - 2));
        }
        rows.push(row);
        index += 1;
    }
    proof {
        assert(rows_of(text).take(index - 2) =~= rows_of(text));
        assert(rows.deep_view() =~~= rows_of(text));
    }
    let seed: Vec<Vec<bool>> = build_seed(&rows, width, height);
    Ok((width, height, seed))
}

/// What an attempt to read a description from its source gave.
#[derive(Debug, PartialEq, Eq)]
pub enum ReadOutcome {
    /// The source was read; this is its text.
    Contents(String),
    /// There is no such source.
    NotFound,
    /// The source is there and could not be read.
    Failed,
}

/// What the loader does after an attempt to read.
#[derive(Debug, PartialEq, Eq)]
pub enum NextStep {
    /// Load the grid from this text.
    Load(String),
    /// Read the fallback source and come back with the outcome.
    ReadFallback,
    /// Give up with this error.
    GiveUp(LoadError),
}

/// The fallback policy. A text that was read is loaded, whichever source it
/// came from. A requested source that is missing is replaced once by the
/// fallback source. A fallback that is missing too, and any other failure,
/// ends the attempt with `GenericIOFailure`.
pub fn after_read(outcome: ReadOutcome, is_fallback: bool) -> (next: NextStep)
    ensures
        outcome matches ReadOutcome::Contents(text) ==> next == NextStep::Load(text),
        outcome is NotFound && !is_fallback ==> next == NextStep::ReadFallback,
        outcome is NotFound && is_fallback ==> next == NextStep::GiveUp(
            LoadError::GenericIOFailure,
        ),
        outcome is Failed ==> next == NextStep::GiveUp(LoadError::GenericIOFailure),
{
    match outcome {
        ReadOutcome::Contents(text) => NextStep::Load(text),
        ReadOutcome::NotFound => {
            if is_fallback {
                NextStep::GiveUp(LoadError::GenericIOFailure)
            } else {
                NextStep::ReadFallback
            }
        },
        ReadOutcome::Failed => NextStep::GiveUp(LoadError::GenericIOFailure),
    }
}

impl Grid {
    /// Builds the grid that the contents of a map file describe: the declared
    /// width and height, and the described seed both on display and staged.
    pub fn from_file(contents: &str) -> (result: Result<Grid, LoadError>)
        ensures
            match result {
                Ok(grid) => {
                    &&& is_description(contents@)
                    &&& grid.wf()
                    &&& declared_width(contents@) == Some(grid.width())
                    &&& declared_height(contents@) == Some(grid.height())
                    &&& grid.current() == seed_of(
                        rows_of(contents@),
                        grid.width() as nat,
                        grid.height() as nat,
                    )
                    &&& grid.staged() == grid.current()
                },
                Err(error) => !is_description(contents@) && error
                    == LoadError::MalformedDescription,
            },
    {
        match load(contents) {
            Ok((width, height, seed)) => Ok(Grid::from(width, height, seed)),
            Err(error) => Err(error),
        }
    }
}

} // verus!
