//! Text effects: a rainbow over the characters of a text, and a gradient
//! between two colors laid over its lines.

use crate::style::Color;
use crate::text::{chars_of, join, push_char};
use vstd::arithmetic::div_mod::lemma_div_is_ordered;
use vstd::prelude::*;

verus! {

/// Whether `c` is a printable ASCII character other than the space: a
/// code point from 33 to 126.
pub open spec fn is_visible(c: char) -> bool {
    33 <= c as u32 <= 126
}

/// The six colors of the rainbow, in the order in which they are used.
pub open spec fn rainbow_color(index: nat) -> Color {
    if index == 0 {
        Color::BrightRed
    } else if index == 1 {
        Color::Yellow
    } else if index == 2 {
        Color::BrightYellow
    } else if index == 3 {
        Color::BrightGreen
    } else if index == 4 {
        Color::Cyan
    } else {
        Color::BrightPurple
    }
}

/// The number of visible characters in `text`.
pub open spec fn visible_count(text: Seq<char>) -> nat
    decreases text.len(),
{
    if text.len() == 0 {
        0
    } else {
        visible_count(text.drop_last()) + if is_visible(text.last()) {
            1nat
        } else {
            0nat
        }
    }
}

/// `text` with a color in front of every character. The color of a
/// character is given by the number of visible characters before it, so
/// that the rainbow moves on after each visible character and stays where
/// it is after any other.
pub open spec fn rainbow_text(text: Seq<char>) -> Seq<char>
    decreases text.len(),
{
    if text.len() == 0 {
        Seq::empty()
    } else {
        let before = text.drop_last();
        let color = rainbow_color(visible_count(before) % 6);
        rainbow_text(before) + color.escape_sequence().push(text.last())
    }
}

/// The rainbow color at `index`, which is below six.
fn rainbow(index: u8) -> (color: Color)
    requires
        index < 6,
    ensures
        color == rainbow_color(index as nat),
{
    if index == 0 {
        Color::BrightRed
    } else if index == 1 {
        Color::Yellow
    } else if index == 2 {
        Color::BrightYellow
    } else if index == 3 {
        Color::BrightGreen
    } else if index == 4 {
        Color::Cyan
    } else {
        Color::BrightPurple
    }
}

/// Colors the characters of `s` in the colors of the rainbow.
pub fn rainbowify(s: &str) -> (colored: String)
    ensures
        colored@ == rainbow_text(s@),
{
    let mut new_str = String::new();
    let chars = chars_of(s);
    let mut i: u8 = 0;
    let mut x: usize = 0;
    while x < chars.len()
        invariant
            x <= chars.len(),
            i < 6,
            i == visible_count(chars@.take(x as int)) % 6,
            new_str@ == rainbow_text(chars@.take(x as int)),
        decreases chars.len() - x,
    {
        let c = chars[x];
        let color = rainbow(i).to_escape_string();
        new_str.append(color.as_str());
        push_char(&mut new_str, c);
        if c as u32 >= 33 && c as u32 <= 126 {
            i += 1;
            if i == 6 {
                i = 0;
            }
        }
        proof {
            assert(chars@.take(x + 1).drop_last() =~= chars@.take(x as int));
        }
        x += 1;
    }
    assert(chars@.take(x as int) =~= chars@);
    new_str
}

/// Why a gradient could not be made.
#[derive(PartialEq, Eq, Clone, Copy, Debug, Structural)]
pub enum GradientError {
    /// A gradient of no steps was asked for.
    ZeroSteps,
    /// The text has no character on any line to lay a gradient over.
    EmptyText,
}

/// Twice the exact value of a channel at step `i`, times `steps`: the
/// channel moves from `start` towards `end` by the same amount each step.
pub open spec fn channel_twice_scaled(start: u8, end: u8, steps: int, i: int) -> int {
    2 * (start * steps + i * (end - start))
}

/// The value of a channel at step `i` of `steps`: the integer nearest to
/// `start + i * (end - start) / steps`, the upper one where two are equally
/// near.
pub open spec fn channel_at(start: u8, end: u8, steps: int, i: int) -> int {
    (channel_twice_scaled(start, end, steps, i) + steps) / (2 * steps)
}

/// The color at step `i` of a gradient of `steps` steps.
pub open spec fn gradient_color(
    start: (u8, u8, u8),
    end: (u8, u8, u8),
    steps: int,
    i: int,
) -> Color {
    Color::RGB(
        channel_at(start.0, end.0, steps, i) as u8,
        channel_at(start.1, end.1, steps, i) as u8,
        channel_at(start.2, end.2, steps, i) as u8,
    )
}

/// The colors of a gradient: `steps` of them, the first at `start`, each
/// one step nearer to `end`, which itself is not among them.
pub open spec fn gradient_colors(
    start: (u8, u8, u8),
    end: (u8, u8, u8),
    steps: nat,
) -> Seq<Color> {
    Seq::new(steps, |i: int| gradient_color(start, end, steps as int, i))
}

/// A channel stays between its two ends, and its rounded value is within
/// one half of the exact one.
pub proof fn lemma_channel_bounds(start: u8, end: u8, steps: int, i: int)
    requires
        0 <= i < steps,
    ensures
        0 <= channel_twice_scaled(start, end, steps, i) <= 510 * steps,
        start <= end ==> start <= channel_at(start, end, steps, i) <= end,
        end <= start ==> end <= channel_at(start, end, steps, i) <= start,
        2 * steps * channel_at(start, end, steps, i) - steps <= channel_twice_scaled(
            start,
            end,
            steps,
            i,
        ) < 2 * steps * channel_at(start, end, steps, i) + steps,
{
    let t = channel_twice_scaled(start, end, steps, i);
    let v = channel_at(start, end, steps, i);
    let d = end - start;
    assert(start <= end ==> 2 * start * steps <= t <= 2 * end * steps) by (nonlinear_arith)
        requires
            0 <= i < steps,
            d == end - start,
            t == 2 * (start * steps + i * d),
    ;
    assert(end <= start ==> 2 * end * steps <= t <= 2 * start * steps) by (nonlinear_arith)
        requires
            0 <= i < steps,
            d == end - start,
            t == 2 * (start * steps + i * d),
    ;
    assert(0 <= t <= 510 * steps) by (nonlinear_arith)
        requires
            0 < steps,
            0 <= start <= 255,
            0 <= end <= 255,
            start <= end ==> 2 * start * steps <= t <= 2 * end * steps,
            end <= start ==> 2 * end * steps <= t <= 2 * start * steps,
    ;
    assert(2 * steps * v <= t + steps < 2 * steps * v + 2 * steps) by (nonlinear_arith)
        requires
            0 < steps,
            v == (t + steps) / (2 * steps),
    ;
    assert(start <= end ==> start <= v <= end) by (nonlinear_arith)
        requires
            0 < steps,
            start <= end ==> 2 * start * steps <= t <= 2 * end * steps,
            2 * steps * v <= t + steps < 2 * steps * v + 2 * steps,
    ;
    assert(end <= start ==> end <= v <= start) by (nonlinear_arith)
        requires
            0 < steps,
            end <= start ==> 2 * end * steps <= t <= 2 * start * steps,
            2 * steps * v <= t + steps < 2 * steps * v + 2 * steps,
    ;
}

/// A channel moves one way only: from step to step it never turns back
/// from its end.
pub proof fn lemma_channel_moves_one_way(start: u8, end: u8, steps: int, i: int, j: int)
    requires
        0 <= i <= j < steps,
    ensures
        start <= end ==> channel_at(start, end, steps, i) <= channel_at(start, end, steps, j),
        end <= start ==> channel_at(start, end, steps, j) <= channel_at(start, end, steps, i),
{
    let low = channel_twice_scaled(start, end, steps, i);
    let high = channel_twice_scaled(start, end, steps, j);
    let d = end - start;
    assert(d >= 0 ==> i * d <= j * d) by (nonlinear_arith)
        requires
            0 <= i <= j,
    ;
    assert(d <= 0 ==> j * d <= i * d) by (nonlinear_arith)
        requires
            0 <= i <= j,
    ;
    if start <= end {
        lemma_div_is_ordered(low + steps, high + steps, 2 * steps);
    }
    if end <= start {
        lemma_div_is_ordered(high + steps, low + steps, 2 * steps);
    }
}

/// A gradient of at least one step starts at its start color.
pub proof fn lemma_gradient_starts_at_start(start: (u8, u8, u8), end: (u8, u8, u8), steps: nat)
    requires
        steps > 0,
    ensures
        gradient_colors(start, end, steps).len() == steps,
        gradient_colors(start, end, steps)[0] == Color::RGB(start.0, start.1, start.2),
{
    lemma_channel_starts_at_start(start.0, end.0, steps as int);
    lemma_channel_starts_at_start(start.1, end.1, steps as int);
    lemma_channel_starts_at_start(start.2, end.2, steps as int);
}

/// At step zero a channel has its start value.
pub proof fn lemma_channel_starts_at_start(start: u8, end: u8, steps: int)
    requires
        steps > 0,
    ensures
        channel_at(start, end, steps, 0) == start,
{
    let t = channel_twice_scaled(start, end, steps, 0);
    assert(t == 2 * start * steps) by (nonlinear_arith)
        requires
            t == 2 * (start * steps + 0 * (end - start)),
    ;
    assert((2 * start * steps + steps) / (2 * steps) == start) by (nonlinear_arith)
        requires
            steps > 0,
            start >= 0,
    ;
}

/// The value of one channel at step `i`, in arithmetic wide enough for
/// any number of steps and signed for a falling channel.
fn channel(start: u8, end: u8, steps: usize, i: usize) -> (value: u8)
    requires
        i < steps,
    ensures
        value == channel_at(start, end, steps as int, i as int),
{
    proof {
        lemma_channel_bounds(start, end, steps as int, i as int);
    }
    let delta: i128 = end as i128 - start as i128;
    assert(-255 * i <= i * delta <= 255 * i) by (nonlinear_arith)
        requires
            -255 <= delta <= 255,
            0 <= i,
    ;
    assert(0 <= start * steps <= 255 * steps) by (nonlinear_arith)
        requires
            0 <= start <= 255,
            0 <= steps,
    ;
    let scaled: i128 = start as i128 * steps as i128 + i as i128 * delta;
    let value: i128 = (2 * scaled + steps as i128) / (2 * steps as i128);
    value as u8
}

/// The gradient from `start` to `end` in `size` steps. A gradient needs at
/// least one step.
pub fn gradient(
    start: (u8, u8, u8),
    end: (u8, u8, u8),
    size: usize,
) -> (result: Result<Vec<Color>, GradientError>)
    ensures
        size == 0 <==> result is Err,
        result matches Err(e) ==> e == GradientError::ZeroSteps,
        result matches Ok(colors) ==> colors@ == gradient_colors(start, end, size as nat),
{
    if size == 0 {
        return Err(GradientError::ZeroSteps);
    }
    let mut colors: Vec<Color> = Vec::new();
    let mut i: usize = 0;
    while i < size
        invariant
            i <= size,
            colors@ == gradient_colors(start, end, size as nat).take(i as int),
        decreases size - i,
    {
        let r = channel(start.0, end.0, size, i);
        let g = channel(start.1, end.1, size, i);
        let b = channel(start.2, end.2, size, i);
        colors.push(Color::RGB(r, g, b));
        i += 1;
    }
    Ok(colors)
}

/// The pieces into which the line feeds cut `text`: one more than there
/// are line feeds, and empty where two line feeds meet or the text begins
/// or ends with one.
pub open spec fn split_lines(text: Seq<char>) -> Seq<Seq<char>>
    decreases text.len(),
{
    if text.len() == 0 {
        seq![Seq::empty()]
    } else {
        let before = split_lines(text.drop_last());
        if text.last() == '\n' {
            before.push(Seq::empty())
        } else {
            before.drop_last().push(before.last().push(text.last()))
        }
    }
}

/// A piece without the carriage return at its end, if it has one there.
pub open spec fn without_cr(piece: Seq<char>) -> Seq<char> {
    if piece.len() > 0 && piece.last() == '\r' {
        piece.drop_last()
    } else {
        piece
    }
}

/// The lines of `text`: each piece that a line feed ends, without the
/// carriage return that may stand before the line feed, and then what
/// follows the last line feed, as it is, unless nothing follows.
pub open spec fn text_lines(text: Seq<char>) -> Seq<Seq<char>> {
    let pieces = split_lines(text);
    let ended = pieces.len() - 1;
    let count = if pieces.last().len() == 0 {
        ended
    } else {
        ended + 1
    };
    Seq::new(
        count as nat,
        |i: int|
            if i < ended {
                without_cr(pieces[i])
            } else {
                pieces[i]
            },
    )
}

/// The number of characters in the longest of the pieces.
pub open spec fn longest(pieces: Seq<Seq<char>>) -> nat
    decreases pieces.len(),
{
    if pieces.len() == 0 {
        0
    } else {
        let rest = longest(pieces.drop_last());
        if pieces.last().len() > rest {
            pieces.last().len()
        } else {
            rest
        }
    }
}

/// A line with a color in front of each character: for the character in
/// column `j` of row `row`, the color at `row + j`, counted round the
/// colors.
pub open spec fn painted_line(line: Seq<char>, row: int, colors: Seq<Color>) -> Seq<char>
    decreases line.len(),
{
    if line.len() == 0 {
        Seq::empty()
    } else {
        let before = line.drop_last();
        let color = colors[(row + before.len()) % (colors.len() as int)];
        painted_line(before, row, colors) + color.escape_sequence().push(line.last())
    }
}

/// The lines painted, each followed by a line feed. Row numbers start at
/// zero.
pub open spec fn painted_lines(lines: Seq<Seq<char>>, colors: Seq<Color>) -> Seq<char>
    decreases lines.len(),
{
    if lines.len() == 0 {
        Seq::empty()
    } else {
        painted_lines(lines.drop_last(), colors) + painted_line(
            lines.last(),
            lines.len() - 1,
            colors,
        ).push('\n')
    }
}

/// `text` under a gradient from `start` to `end` that has as many steps
/// as the longest piece of the text has characters.
pub open spec fn gradient_text(
    text: Seq<char>,
    start: (u8, u8, u8),
    end: (u8, u8, u8),
) -> Seq<char> {
    painted_lines(text_lines(text), gradient_colors(start, end, longest(split_lines(text))))
}

/// The character sequences of a vector of lines.
spec fn views(lines: Seq<Vec<char>>) -> Seq<Seq<char>> {
    Seq::new(lines.len(), |i: int| lines[i]@)
}

/// Cuts `chars` at its line feeds.
fn split(chars: &Vec<char>) -> (pieces: Vec<Vec<char>>)
    ensures
        pieces@.len() >= 1,
        views(pieces@) == split_lines(chars@),
{
    let mut pieces: Vec<Vec<char>> = Vec::new();
    let mut current: Vec<char> = Vec::new();
    let mut k: usize = 0;
    while k < chars.len()
        invariant
            k <= chars.len(),
            views(pieces@).push(current@) == split_lines(chars@.take(k as int)),
        decreases chars.len() - k,
    {
        let c = chars[k];
        proof {
            assert(chars@.take(k + 1).drop_last() =~= chars@.take(k as int));
        }
        if c == '\n' {
            pieces.push(current);
            current = Vec::new();
        } else {
            current.push(c);
        }
        k += 1;
    }
    assert(chars@.take(k as int) =~= chars@);
    pieces.push(current);
    pieces
}

/// The number of characters in the longest piece.
fn longest_len(pieces: &Vec<Vec<char>>) -> (length: usize)
    ensures
        length == longest(views(pieces@)),
{
    let mut length: usize = 0;
    let mut i: usize = 0;
    while i < pieces.len()
        invariant
            i <= pieces.len(),
            length == longest(views(pieces@).take(i as int)),
        decreases pieces.len() - i,
    {
        proof {
            assert(views(pieces@).take(i + 1).drop_last() =~= views(pieces@).take(i as int));
        }
        if pieces[i].len() > length {
            length = pieces[i].len();
        }
        i += 1;
    }
    assert(views(pieces@).take(i as int) =~= views(pieces@));
    length
}

/// Appends the first `len` characters of `line`, each behind its color.
fn paint_line(out: &mut String, line: &Vec<char>, len: usize, row: usize, colors: &Vec<Color>)
    requires
        len <= line@.len(),
        colors@.len() > 0,
    ensures
        final(out)@ == old(out)@ + painted_line(line@.take(len as int), row as int, colors@),
{
    let mut j: usize = 0;
    while j < len
        invariant
            j <= len <= line@.len(),
            colors@.len() > 0,
            out@ == old(out)@ + painted_line(line@.take(j as int), row as int, colors@),
        decreases len - j,
    {
        let index = ((row as u128 + j as u128) % (colors.len() as u128)) as usize;
        let color = colors[index].to_escape_string();
        out.append(color.as_str());
        push_char(out, line[j]);
        proof {
            assert(line@.take(j + 1).drop_last() =~= line@.take(j as int));
        }
        j += 1;
    }
}

/// Lays a gradient from `start` to `end` over `text`. Each character gets
/// its own color in front of it, one step further along the gradient than
/// its left neighbour and than the character above it, and each line ends
/// with a line feed. A text with no character other than line feeds cannot
/// carry a gradient.
pub fn apply_gradient(
    text: &str,
    start: (u8, u8, u8),
    end: (u8, u8, u8),
) -> (result: Result<String, GradientError>)
    ensures
        longest(split_lines(text@)) == 0 <==> result is Err,
        result matches Err(e) ==> e == GradientError::EmptyText,
        result matches Ok(painted) ==> painted@ == gradient_text(text@, start, end),
{
    let chars = chars_of(text);
    let pieces = split(&chars);
    let length = longest_len(&pieces);
    let colors = match gradient(start, end, length) {
        Ok(colors) => colors,
        Err(_) => {
            return Err(GradientError::EmptyText);
        },
    };
    let ended: usize = pieces.len() - 1;
    let count: usize = if pieces[ended].len() == 0 {
        ended
    } else {
        ended + 1
    };
    let ghost lines = text_lines(text@);
    let mut out = String::new();
    let mut i: usize = 0;
    while i < count
        invariant
            i <= count <= pieces@.len(),
            ended == pieces@.len() - 1,
            colors@.len() > 0,
            views(pieces@) == split_lines(text@),
            lines == text_lines(text@),
            lines.len() == count,
            out@ == painted_lines(lines.take(i as int), colors@),
        decreases count - i,
    {
        let piece = &pieces[i];
        let mut len: usize = piece.len();
        if i < ended && len > 0 && piece[len - 1] == '\r' {
            len = len - 1;
        }
        proof {
            assert(lines[i as int] =~= piece@.take(len as int));
            assert(lines.take(i + 1).drop_last() =~= lines.take(i as int));
        }
        paint_line(&mut out, piece, len, i, &colors);
        push_char(&mut out, '\n');
        i += 1;
    }
    assert(lines.take(i as int) =~= lines);
    Ok(out)
}

/// Cutting a text at its line feeds loses nothing: there is at least one
/// piece, no piece holds a line feed, and the pieces joined by line feeds
/// are the text.
pub proof fn lemma_split_lines_joins_back(text: Seq<char>)
    ensures
        split_lines(text).len() >= 1,
        forall|i: int, j: int|
            0 <= i < split_lines(text).len() && 0 <= j < split_lines(text)[i].len()
                ==> split_lines(text)[i][j] != '\n',
        join(split_lines(text), '\n') == text,
    decreases text.len(),
{
    reveal(join);
    if text.len() > 0 {
        let before = split_lines(text.drop_last());
        lemma_split_lines_joins_back(text.drop_last());
        let c = text.last();
        if c == '\n' {
            let pieces = before.push(Seq::empty());
            assert(pieces.drop_last() =~= before);
        } else {
            let grown = before.last().push(c);
            let pieces = before.drop_last().push(grown);
            assert(pieces.drop_last() =~= before.drop_last());
            assert(text.drop_last().push(c) =~= text);
        }
    }
}

/// The longest piece of a text is empty exactly when the text holds
/// nothing but line feeds.
pub proof fn lemma_longest_is_zero(text: Seq<char>)
    ensures
        longest(split_lines(text)) == 0 <==> forall|k: int|
            0 <= k < text.len() ==> text[k] == '\n',
    decreases text.len(),
{
    if text.len() == 0 {
        reveal_with_fuel(longest, 2);
    } else {
        let before = split_lines(text.drop_last());
        lemma_longest_is_zero(text.drop_last());
        lemma_split_lines_joins_back(text.drop_last());
        if text.last() == '\n' {
            assert(before.push(Seq::empty()).drop_last() =~= before);
            assert forall|k: int| 0 <= k < text.drop_last().len() implies text.drop_last()[k]
                == text[k] by {}
        }
    }
}

} // verus!
