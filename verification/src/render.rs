//! Projection of the simulation onto a square grid of characters.
//!
//! The text has one line per row of the field, the row with the largest `y`
//! first, and within a line one character per column by ascending `x`. Every
//! line ends with a newline.

use vstd::prelude::*;
use crate::cell::{half_extent, Cell};
use crate::food::Food;
use crate::snake::{cell_views, Snake};

verus! {

/// The glyph of a cell that holds nothing.
pub const BLANK_GLYPH: char = ' ';

/// The glyph of a cell of the snake's body.
pub const SNAKE_GLYPH: char = '~';

/// The glyph of the cell that holds the food.
pub const FOOD_GLYPH: char = '*';

/// The glyph shown at column `col` (from the left) of row `row` (from the
/// bottom) of a field of side `size`. Food is drawn over the snake.
pub open spec fn glyph_at(body: Seq<(int, int)>, food: (int, int), size: int, col: int, row: int) -> char {
    let cell = (col - half_extent(size), row - half_extent(size));
    if food == cell {
        FOOD_GLYPH
    } else if body.contains(cell) {
        SNAKE_GLYPH
    } else {
        BLANK_GLYPH
    }
}

/// Line `line` of the rendered field, counted from the top, without its
/// newline.
pub open spec fn grid_line(body: Seq<(int, int)>, food: (int, int), size: int, line: int) -> Seq<char> {
    Seq::new(size as nat, |col: int| glyph_at(body, food, size, col, size - 1 - line))
}

/// The lines of the rendered field, top line first.
pub open spec fn grid_lines(body: Seq<(int, int)>, food: (int, int), size: int) -> Seq<Seq<char>> {
    Seq::new(size as nat, |line: int| grid_line(body, food, size, line))
}

/// The lines in order, each followed by a newline.
pub open spec fn join_lines(lines: Seq<Seq<char>>) -> Seq<char>
    decreases lines.len(),
{
    if lines.len() == 0 {
        Seq::empty()
    } else {
        join_lines(lines.drop_last()) + lines.last().push('\n')
    }
}

/// The text that shows a snake with body `body` and food at `food` on a
/// field of side `size`.
pub open spec fn render_text(body: Seq<(int, int)>, food: (int, int), size: int) -> Seq<char> {
    join_lines(grid_lines(body, food, size))
}

/// The rows of a buffer as lines of text: the last row of the buffer is the
/// top line.
pub open spec fn buffer_lines(buffer: Seq<Vec<char>>) -> Seq<Seq<char>> {
    Seq::new(buffer.len(), |line: int| buffer[buffer.len() - 1 - line]@)
}

/// `String::push` appends one character to the string.
pub assume_specification[ String::push ](s: &mut String, c: char)
    ensures
        final(s)@ == old(s)@.push(c),
;

/// A buffer of `size` rows of `size` blank glyphs.
fn blank_buffer(size: usize) -> (buffer: Vec<Vec<char>>)
    ensures
        buffer@.len() == size,
        forall|y: int| 0 <= y < size ==> (#[trigger] buffer@[y])@.len() == size,
        forall|y: int, x: int|
            0 <= y < size && 0 <= x < size ==> (#[trigger] buffer@[y]@[x]) == BLANK_GLYPH,
{
    let mut buffer: Vec<Vec<char>> = Vec::new();
    let mut y: usize = 0;
    while y < size
        invariant
            y <= size,
            buffer@.len() == y,
            forall|j: int| 0 <= j < y ==> (#[trigger] buffer@[j])@.len() == size,
            forall|j: int, x: int|
                0 <= j < y && 0 <= x < size ==> (#[trigger] buffer@[j]@[x]) == BLANK_GLYPH,
        decreases size - y,
    {
        let mut row: Vec<char> = Vec::new();
        let mut x: usize = 0;
        while x < size
            invariant
                x <= size,
                row@.len() == x,
                forall|i: int| 0 <= i < x ==> (#[trigger] row@[i]) == BLANK_GLYPH,
            decreases size - x,
        {
            row.push(BLANK_GLYPH);
            x += 1;
        }
        buffer.push(row);
        y += 1;
    }
    buffer
}

/// Where `cell` falls in the buffer of a field of side `field_size`, as
/// `(column, row)`, if it falls on the field at all.
fn project(cell: Cell, field_size: i32) -> (slot: Option<(usize, usize)>)
    requires
        field_size > 0,
    ensures
        match slot {
            Some((x, y)) => {
                &&& x < field_size
                &&& y < field_size
                &&& x == cell@.0 + half_extent(field_size as int)
                &&& y == cell@.1 + half_extent(field_size as int)
            },
            None => !({
                &&& 0 <= cell@.0 + half_extent(field_size as int) < field_size
                &&& 0 <= cell@.1 + half_extent(field_size as int) < field_size
            }),
        },
{
    let half: i64 = (field_size / 2) as i64;
    let x: i64 = cell.x as i64 + half;
    let y: i64 = cell.y as i64 + half;
    if 0 <= x && x < field_size as i64 && 0 <= y && y < field_size as i64 {
        Some((x as usize, y as usize))
    } else {
        None
    }
}

/// Writes the buffer out as text, last row first, a newline after each row.
fn serialize(buffer: &Vec<Vec<char>>) -> (text: String)
    ensures
        text@ == join_lines(buffer_lines(buffer@)),
{
    let ghost lines = buffer_lines(buffer@);
    let mut text = String::new();
    let mut line: usize = 0;
    assert(lines.take(0) =~= Seq::<Seq<char>>::empty());
    while line < buffer.len()
        invariant
            line <= buffer@.len(),
            lines == buffer_lines(buffer@),
            text@ == join_lines(lines.take(line as int)),
        decreases buffer@.len() - line,
    {
        let row = &buffer[buffer.len() - 1 - line];
        assert(row@ == lines[line as int]);
        let ghost before = text@;
        let mut col: usize = 0;
        assert(row@.take(0) =~= Seq::<char>::empty());
        assert(before + row@.take(0) =~= before);
        while col < row.len()
            invariant
                col <= row@.len(),
                text@ == before + row@.take(col as int),
            decreases row@.len() - col,
        {
            text.push(row[col]);
            assert(row@.take(col + 1) =~= row@.take(col as int).push(row@[col as int]));
            assert(text@ =~= before + row@.take(col + 1));
            col += 1;
        }
        text.push('\n');
        proof {
            let upto = lines.take(line + 1);
            assert(row@.take(row@.len() as int) =~= row@);
            assert(upto.drop_last() =~= lines.take(line as int));
            assert(upto.last() == row@);
            assert(text@ =~= join_lines(upto.drop_last()) + upto.last().push('\n'));
        }
        line += 1;
    }
    assert(lines.take(line as int) =~= lines);
    text
}

/// Renders the snake and the food on a field of side `field_size`.
///
/// Cells of the snake or the food that lie off the field are not drawn.
/// Where the food lies on the snake, the food is drawn.
pub fn render(snake: &Snake, food: &Food, field_size: i32) -> (text: String)
    requires
        field_size > 0,
    ensures
        text@ == render_text(snake@.body, food@, field_size as int),
        text@.len() == field_size * (field_size + 1),
{
    let size: usize = field_size as usize;
    let ghost half = half_extent(field_size as int);
    let ghost body = snake@.body;
    let mut buffer = blank_buffer(size);
    let mut k: usize = 0;
    assert(body.take(0) =~= Seq::<(int, int)>::empty());
    while k < snake.body.len()
        invariant
            k <= snake.body@.len(),
            field_size > 0,
            size == field_size,
            half == half_extent(field_size as int),
            body == snake@.body,
            body.len() == snake.body@.len(),
            buffer@.len() == size,
            forall|y: int| 0 <= y < size ==> (#[trigger] buffer@[y])@.len() == size,
            forall|y: int, x: int|
                0 <= y < size && 0 <= x < size ==> (#[trigger] buffer@[y]@[x]) == (if body.take(
                    k as int,
                ).contains((x - half, y - half)) {
                    SNAKE_GLYPH
                } else {
                    BLANK_GLYPH
                }),
        decreases snake.body@.len() - k,
    {
        let cell = snake.body[k];
        assert(cell@ == body[k as int]);
        proof {
            lemma_take_contains(body, k as int);
        }
        match project(cell, field_size) {
            Some((x, y)) => {
                buffer[y][x] = SNAKE_GLYPH;
            },
            None => {},
        }
        k += 1;
    }
    assert(body.take(k as int) =~= body);
    match project(food.position, field_size) {
        Some((x, y)) => {
            buffer[y][x] = FOOD_GLYPH;
        },
        None => {},
    }
    proof {
        let lines = grid_lines(body, food@, field_size as int);
        assert forall|line: int| 0 <= line < size implies #[trigger] buffer_lines(buffer@)[line]
            == lines[line] by {
            let y = size - 1 - line;
            assert forall|col: int| 0 <= col < size implies buffer@[y]@[col] == grid_line(
                body,
                food@,
                field_size as int,
                line,
            )[col] by {}
            assert(buffer@[y]@ =~= lines[line]);
        }
        assert(buffer_lines(buffer@) =~= lines);
        lemma_render_shape(body, food@, field_size as int);
    }
    serialize(&buffer)
}

/// Joined lines of one width take up that width and one newline each.
pub proof fn lemma_join_lines_len(lines: Seq<Seq<char>>, width: int)
    requires
        forall|i: int| 0 <= i < lines.len() ==> (#[trigger] lines[i]).len() == width,
    ensures
        join_lines(lines).len() == lines.len() * (width + 1),
    decreases lines.len(),
{
    if lines.len() > 0 {
        lemma_join_lines_len(lines.drop_last(), width);
        assert((lines.len() - 1) * (width + 1) + (width + 1) == lines.len() * (width + 1))
            by (nonlinear_arith);
    }
}

/// In joined lines of one width, the character `col` places into line
/// `line` is that line's character there, and the place after the line's
/// last character holds the newline.
pub proof fn lemma_join_lines_char(lines: Seq<Seq<char>>, width: int, line: int, col: int)
    requires
        forall|i: int| 0 <= i < lines.len() ==> (#[trigger] lines[i]).len() == width,
        0 <= line < lines.len(),
        0 <= col <= width,
    ensures
        0 <= line * (width + 1) + col < join_lines(lines).len(),
        join_lines(lines)[line * (width + 1) + col] == (if col < width {
            lines[line][col]
        } else {
            '\n'
        }),
    decreases lines.len(),
{
    let rest = lines.drop_last();
    lemma_join_lines_len(rest, width);
    lemma_join_lines_len(lines, width);
    let at = line * (width + 1) + col;
    if line == lines.len() - 1 {
        assert(at == join_lines(rest).len() + col);
    } else {
        assert(0 <= at < (lines.len() - 1) * (width + 1)) by (nonlinear_arith)
            requires
                0 <= line <= lines.len() - 2,
                0 <= col <= width,
                at == line * (width + 1) + col,
        ;
        lemma_join_lines_char(rest, width, line, col);
    }
    assert(0 <= at < lines.len() * (width + 1)) by (nonlinear_arith)
        requires
            0 <= line <= lines.len() - 1,
            0 <= col <= width,
            at == line * (width + 1) + col,
    ;
}

/// The rendered field has `size` lines of `size` glyphs each, none of them
/// a newline, and so `size * (size + 1)` characters in all.
pub proof fn lemma_render_shape(body: Seq<(int, int)>, food: (int, int), size: int)
    requires
        size > 0,
    ensures
        render_text(body, food, size) == join_lines(grid_lines(body, food, size)),
        grid_lines(body, food, size).len() == size,
        forall|line: int|
            0 <= line < size ==> (#[trigger] grid_lines(body, food, size)[line]).len() == size,
        forall|line: int|
            0 <= line < size ==> !(#[trigger] grid_lines(body, food, size)[line]).contains('\n'),
        render_text(body, food, size).len() == size * (size + 1),
{
    lemma_join_lines_len(grid_lines(body, food, size), size);
}

/// In the rendered text, the character `col` places into line `line` is the
/// glyph of column `col` of the row `size - 1 - line`, and every line ends
/// with a newline after exactly `size` glyphs.
pub proof fn lemma_render_char(body: Seq<(int, int)>, food: (int, int), size: int, line: int, col: int)
    requires
        size > 0,
        0 <= line < size,
        0 <= col <= size,
    ensures
        0 <= line * (size + 1) + col < render_text(body, food, size).len(),
        render_text(body, food, size)[line * (size + 1) + col] == (if col < size {
            glyph_at(body, food, size, col, size - 1 - line)
        } else {
            '\n'
        }),
        glyph_at(body, food, size, col, size - 1 - line) != '\n',
{
    lemma_join_lines_char(grid_lines(body, food, size), size, line, col);
}

/// The first `k + 1` items of `s` hold what the first `k` hold, and `s[k]`.
proof fn lemma_take_contains<A>(s: Seq<A>, k: int)
    requires
        0 <= k < s.len(),
    ensures
        forall|v: A| #[trigger] s.take(k + 1).contains(v) <==> (s.take(k).contains(v) || v == s[k]),
{
    assert forall|v: A| #[trigger] s.take(k + 1).contains(v) implies (s.take(k).contains(v) || v
        == s[k]) by {
        let longer = s.take(k + 1);
        let i = choose|i: int| 0 <= i < longer.len() && longer[i] == v;
        if i < k {
            assert(s.take(k)[i] == v);
        }
    }
    assert forall|v: A| (s.take(k).contains(v) || v == s[k]) implies #[trigger] s.take(
        k + 1,
    ).contains(v) by {
        if s.take(k).contains(v) {
            let shorter = s.take(k);
            let i = choose|i: int| 0 <= i < shorter.len() && shorter[i] == v;
            assert(s.take(k + 1)[i] == v);
        } else {
            assert(s.take(k + 1)[k] == v);
        }
    }
}

} // verus!
