//! Conversions between nested column-major grids and flat row-major buffers.
//!
//! The engine works on flat buffers indexed `y * width + x`; callers often
//! hold a nested grid indexed `[x][y]`.

use vstd::prelude::*;
use crate::engine::lemma_light_index_in_range;

verus! {

/// Two distinct in-bounds cells have distinct row-major indices.
pub proof fn lemma_row_major_injective(w: int, x1: int, y1: int, x2: int, y2: int)
    requires
        0 <= x1 < w,
        0 <= x2 < w,
        y1 * w + x1 == y2 * w + x2,
    ensures
        x1 == x2,
        y1 == y2,
{
    assert(x1 == x2 && y1 == y2) by (nonlinear_arith)
        requires
            0 <= x1 < w,
            0 <= x2 < w,
            y1 * w + x1 == y2 * w + x2,
    ;
}

/// Flattens a nested column-major grid (`grid[x][y]`) into a flat row-major
/// buffer (`r[y * width + x]`).  The nested grid must be rectangular and
/// non-empty, as the shape is read off its first column.
pub fn flatten_grid(grid: &Vec<Vec<u64>>) -> (r: Vec<u64>)
    requires
        grid@.len() > 0,
        forall|i: int| 0 <= i < grid@.len() ==> (#[trigger] grid@[i])@.len() == grid@[0]@.len(),
        grid@.len() * grid@[0]@.len() <= usize::MAX,
    ensures
        r@.len() == grid@.len() * grid@[0]@.len(),
        forall|x: int, y: int|
            0 <= x < grid@.len() && 0 <= y < grid@[0]@.len() ==> #[trigger] r@[y * grid@.len() + x]
                == grid@[x]@[y],
{
    let width: usize = grid.len();
    let height: usize = grid[0].len();
    let mut flat: Vec<u64> = Vec::new();
    while flat.len() < width * height
        invariant
            width * height <= usize::MAX,
            flat@.len() <= width * height,
        decreases width * height - flat@.len(),
    {
        flat.push(0);
    }
    let mut x: usize = 0;
    while x < width
        invariant
            width == grid@.len(),
            height == grid@[0]@.len(),
            width * height <= usize::MAX,
            forall|i: int| 0 <= i < grid@.len() ==> (#[trigger] grid@[i])@.len() == height,
            flat@.len() == width * height,
            0 <= x <= width,
            forall|a: int, b: int|
                0 <= a < x && 0 <= b < height ==> #[trigger] flat@[b * width + a] == grid@[a]@[b],
        decreases width - x,
    {
        let mut y: usize = 0;
        while y < height
            invariant
                width == grid@.len(),
                height == grid@[0]@.len(),
                width * height <= usize::MAX,
                forall|i: int| 0 <= i < grid@.len() ==> (#[trigger] grid@[i])@.len() == height,
                flat@.len() == width * height,
                0 <= x < width,
                0 <= y <= height,
                forall|a: int, b: int|
                    0 <= a < x && 0 <= b < height ==> #[trigger] flat@[b * width + a] == grid@[a]@[
                    b],
                forall|b: int| 0 <= b < y ==> #[trigger] flat@[b * width + x as int] == grid@[
                x as int]@[b],
            decreases height - y,
        {
            proof {
                lemma_light_index_in_range(width as int, height as int, x as int, y as int);
            }
            let idx: usize = y * width + x;
            let v: u64 = grid[x][y];
            let ghost prev = flat@;
            flat.set(idx, v);
            proof {
                assert forall|a: int, b: int| 0 <= a < x as int && 0 <= b < height as int
                    implies #[trigger] flat@[b * (width as int) + a] == grid@[a]@[b] by {
                    lemma_light_index_in_range(width as int, height as int, a, b);
                    if b * (width as int) + a == idx as int {
                        lemma_row_major_injective(width as int, a, b, x as int, y as int);
                    } else {
                        assert(flat@[b * (width as int) + a] == prev[b * (width as int) + a]);
                    }
                }
                assert forall|b: int| 0 <= b < y as int + 1 implies #[trigger] flat@[b * (
                width as int) + x as int] == grid@[x as int]@[b] by {
                    lemma_light_index_in_range(width as int, height as int, x as int, b);
                    if b == y as int {
                        assert(flat@[idx as int] == v);
                    } else {
                        if b * (width as int) + x as int == idx as int {
                            lemma_row_major_injective(width as int, x as int, b, x as int, y as int);
                        }
                        assert(flat@[b * (width as int) + x as int] == prev[b * (width as int)
                            + x as int]);
                    }
                }
            }
            y = y + 1;
        }
        x = x + 1;
    }
    flat
}

/// Relies on String::push: it appends exactly the one character to the end
/// of the string.
pub assume_specification[ String::push ](s: &mut String, c: char)
    ensures
        final(s)@ == old(s)@.push(c),
;

/// The decimal digit character for a value below ten.
pub open spec fn digit_char(d: int) -> char {
    if d == 0 {
        '0'
    } else if d == 1 {
        '1'
    } else if d == 2 {
        '2'
    } else if d == 3 {
        '3'
    } else if d == 4 {
        '4'
    } else if d == 5 {
        '5'
    } else if d == 6 {
        '6'
    } else if d == 7 {
        '7'
    } else if d == 8 {
        '8'
    } else {
        '9'
    }
}

/// The decimal digits of a non-negative integer, most significant first.
pub open spec fn dec_digits(n: int) -> Seq<char>
    decreases n,
{
    if n <= 9 {
        seq![digit_char(n)]
    } else {
        dec_digits(n / 10).push(digit_char(n % 10))
    }
}

/// A fixed-point scalar rounded (half up) to hundredths of a unit.
pub open spec fn spec_hundredths(v: u64) -> int {
    v / 10000 + if v % 10000 >= 5000 {
        1int
    } else {
        0int
    }
}

/// One formatted cell: the value with two decimals, padded on the left to
/// five characters, followed by one space.
pub open spec fn cell_chars(v: u64) -> Seq<char> {
    let hund = spec_hundredths(v);
    let ip = hund / 100;
    let fr = hund % 100;
    let body = dec_digits(ip) + seq!['.', digit_char(fr / 10), digit_char(fr % 10), ' '];
    if ip <= 9 {
        seq![' '] + body
    } else {
        body
    }
}

/// The first `k` cells of row `y`, formatted left to right.
pub open spec fn row_prefix_chars(att: Seq<Seq<u64>>, y: int, k: int) -> Seq<char>
    decreases k,
{
    if k <= 0 {
        Seq::empty()
    } else {
        row_prefix_chars(att, y, k - 1) + cell_chars(att[k - 1][y])
    }
}

/// The first `k` rows of the grid, each ended by a newline.
pub open spec fn rows_prefix_chars(att: Seq<Seq<u64>>, w: int, k: int) -> Seq<char>
    decreases k,
{
    if k <= 0 {
        Seq::empty()
    } else {
        rows_prefix_chars(att, w, k - 1) + row_prefix_chars(att, k - 1, w) + seq!['\n']
    }
}

/// The whole grid as text: `h` lines of `w` cells, top row first.
pub open spec fn grid_chars(att: Seq<Seq<u64>>, w: int, h: int) -> Seq<char> {
    rows_prefix_chars(att, w, h)
}

/// Appends one decimal digit character.
fn push_digit(s: &mut String, d: u64)
    requires
        d <= 9,
    ensures
        final(s)@ == old(s)@.push(digit_char(d as int)),
{
    let c: char = match d {
        0 => '0',
        1 => '1',
        2 => '2',
        3 => '3',
        4 => '4',
        5 => '5',
        6 => '6',
        7 => '7',
        8 => '8',
        _ => '9',
    };
    s.push(c);
}

/// Appends the decimal digits of `n`, most significant first.
fn push_decimal(s: &mut String, n: u64)
    ensures
        final(s)@ == old(s)@ + dec_digits(n as int),
    decreases n,
{
    if n > 9 {
        push_decimal(s, n / 10);
    }
    push_digit(s, n % 10);
    proof {
        assert(final(s)@ =~= old(s)@ + dec_digits(n as int));
    }
}

/// Appends one formatted cell value.
fn push_cell(s: &mut String, v: u64)
    ensures
        final(s)@ == old(s)@ + cell_chars(v),
{
    let mut hund: u64 = v / 10000;
    if v % 10000 >= 5000 {
        hund = hund + 1;
    }
    let ip: u64 = hund / 100;
    let fr: u64 = hund % 100;
    if ip <= 9 {
        s.push(' ');
    }
    push_decimal(s, ip);
    s.push('.');
    push_digit(s, fr / 10);
    push_digit(s, fr % 10);
    s.push(' ');
    proof {
        assert(final(s)@ =~= old(s)@ + cell_chars(v));
    }
}

/// Formats a nested column-major attenuation grid (`attenuation[x][y]`, in
/// fixed-point millionths) as text: one line per row, each cell printed as
/// its value in whole units with two decimals (rounded half up), padded to
/// five characters and followed by a space.
pub fn attenuation_to_string(attenuation: &Vec<Vec<u64>>) -> (r: String)
    requires
        forall|i: int|
            0 <= i < attenuation@.len() ==> (#[trigger] attenuation@[i])@.len() == attenuation@[0]@.len(),
    ensures
        r@ == grid_chars(
            Seq::new(attenuation@.len(), |x: int| attenuation@[x]@),
            attenuation@.len() as int,
            if attenuation@.len() > 0 {
                attenuation@[0]@.len() as int
            } else {
                0
            },
        ),
{
    let ghost att = Seq::new(attenuation@.len(), |x: int| attenuation@[x]@);
    let width: usize = attenuation.len();
    let height: usize = if width > 0 {
        attenuation[0].len()
    } else {
        0
    };
    let mut result = String::new();
    let mut y: usize = 0;
    while y < height
        invariant
            att == Seq::new(attenuation@.len(), |x: int| attenuation@[x]@),
            width == attenuation@.len(),
            width > 0 ==> height == attenuation@[0]@.len(),
            width == 0 ==> height == 0,
            forall|i: int| 0 <= i < attenuation@.len() ==> (#[trigger] attenuation@[i])@.len()
                == height,
            0 <= y <= height,
            result@ == rows_prefix_chars(att, width as int, y as int),
        decreases height - y,
    {
        let mut x: usize = 0;
        while x < width
            invariant
                att == Seq::new(attenuation@.len(), |x0: int| attenuation@[x0]@),
                width == attenuation@.len(),
                forall|i: int| 0 <= i < attenuation@.len() ==> (#[trigger] attenuation@[i])@.len()
                    == height,
                0 <= y < height,
                0 <= x <= width,
                result@ == rows_prefix_chars(att, width as int, y as int) + row_prefix_chars(
                    att,
                    y as int,
                    x as int,
                ),
            decreases width - x,
        {
            push_cell(&mut result, attenuation[x][y]);
            proof {
                assert(result@ =~= rows_prefix_chars(att, width as int, y as int)
                    + row_prefix_chars(att, y as int, x as int + 1));
            }
            x = x + 1;
        }
        result.push('\n');
        proof {
            assert(result@ =~= rows_prefix_chars(att, width as int, y as int + 1));
        }
        y = y + 1;
    }
    result
}

} // verus!
