//! How a run of glyphs is laid out as lines of text.

use vstd::prelude::*;
use vstd::arithmetic::div_mod::{
    lemma_div_is_ordered,
    lemma_div_pos_is_pos,
    lemma_fundamental_div_mod,
    lemma_fundamental_div_mod_converse,
    lemma_mod_bound,
};

verus! {

/// Where glyph number `index` stands in the text: behind the glyphs before
/// it and one line break for each full row before it.
pub open spec fn glyph_position(index: int, row_width: int) -> int {
    index + index / row_width
}

/// `glyphs` with a line break after every `row_width` of them, for a
/// `row_width` of at least one. A text position whose column is `row_width`
/// holds a break; any other holds the glyph of its row and column. A last
/// row that is not full gets no break.
pub open spec fn with_line_breaks(glyphs: Seq<char>, row_width: nat) -> Seq<char> {
    Seq::new(
        glyphs.len() + glyphs.len() / row_width,
        |at: int|
            if at % (row_width as int + 1) == row_width {
                '\n'
            } else {
                glyphs[at - at / (row_width as int + 1)]
            },
    )
}

/// Row and column of a glyph's text position are the row and column of the
/// glyph in the raster.
pub proof fn lemma_glyph_position(index: int, row_width: int)
    requires
        0 <= index,
        1 <= row_width,
    ensures
        glyph_position(index, row_width) / (row_width + 1) == index / row_width,
        glyph_position(index, row_width) % (row_width + 1) == index % row_width,
        0 <= index / row_width,
        0 <= index % row_width < row_width,
{
    let q = index / row_width;
    let r = index % row_width;
    lemma_fundamental_div_mod(index, row_width);
    lemma_mod_bound(index, row_width);
    lemma_div_pos_is_pos(index, row_width);
    assert(index + q == q * (row_width + 1) + r) by (nonlinear_arith)
        requires
            index == row_width * q + r,
    ;
    lemma_fundamental_div_mod_converse(index + q, row_width + 1, q, r);
}

/// A text position that holds no line break is the position of the glyph
/// it is read from.
pub proof fn lemma_glyph_at(at: int, row_width: int)
    requires
        0 <= at,
        1 <= row_width,
        at % (row_width + 1) != row_width,
    ensures
        0 <= at - at / (row_width + 1),
        glyph_position(at - at / (row_width + 1), row_width) == at,
{
    let q = at / (row_width + 1);
    let r = at % (row_width + 1);
    lemma_fundamental_div_mod(at, row_width + 1);
    lemma_mod_bound(at, row_width + 1);
    lemma_div_pos_is_pos(at, row_width + 1);
    assert(at - q == q * row_width + r && 0 <= q * row_width) by (nonlinear_arith)
        requires
            at == (row_width + 1) * q + r,
            0 <= q,
            1 <= row_width,
    ;
    lemma_fundamental_div_mod_converse(at - q, row_width, q, r);
}

/// Later glyphs stand later in the text.
pub proof fn lemma_glyph_position_ordered(first: int, second: int, row_width: int)
    requires
        first <= second,
        1 <= row_width,
    ensures
        glyph_position(first, row_width) <= glyph_position(second, row_width),
{
    lemma_div_is_ordered(first, second, row_width);
}

/// One more glyph extends the text by that glyph, and by a line break when
/// the glyph completes a row.
pub proof fn lemma_line_breaks_step(glyphs: Seq<char>, row_width: nat, count: int)
    requires
        1 <= row_width,
        0 <= count < glyphs.len(),
    ensures
        with_line_breaks(glyphs.take(count + 1), row_width) == if (count + 1) % (row_width as int)
            == 0 {
            with_line_breaks(glyphs.take(count), row_width).push(glyphs[count]).push('\n')
        } else {
            with_line_breaks(glyphs.take(count), row_width).push(glyphs[count])
        },
{
    let w = row_width as int;
    let before = with_line_breaks(glyphs.take(count), row_width);
    let after = with_line_breaks(glyphs.take(count + 1), row_width);
    let expected = if (count + 1) % w == 0 {
        before.push(glyphs[count]).push('\n')
    } else {
        before.push(glyphs[count])
    };
    let q = count / w;
    let r = count % w;
    lemma_fundamental_div_mod(count, w);
    lemma_glyph_position(count, w);
    lemma_glyph_position(count + 1, w);
    assert(before.len() == glyph_position(count, w));
    assert(after.len() == glyph_position(count + 1, w));
    if r == w - 1 {
        assert(count + 1 == (q + 1) * w + 0) by (nonlinear_arith)
            requires
                count == w * q + r,
                r == w - 1,
        ;
        lemma_fundamental_div_mod_converse(count + 1, w, q + 1, 0);
        assert(before.len() + 1 == q * (w + 1) + w) by {
            lemma_fundamental_div_mod(before.len() as int, w + 1);
            assert((w + 1) * q == q * (w + 1)) by (nonlinear_arith);
        }
        lemma_fundamental_div_mod_converse(before.len() as int + 1, w + 1, q, w);
    } else {
        assert(count + 1 == q * w + (r + 1)) by (nonlinear_arith)
            requires
                count == w * q + r,
        ;
        lemma_fundamental_div_mod_converse(count + 1, w, q, r + 1);
    }
    assert(after.len() == expected.len());
    assert forall|at: int| 0 <= at < after.len() implies after[at] == expected[at] by {
        if at < before.len() && at % (w + 1) != w {
            lemma_glyph_at(at, w);
            let index = at - at / (w + 1);
            if index >= count {
                lemma_glyph_position_ordered(count, index, w);
            }
            assert(index < count);
        }
    }
    assert(after =~= expected);
}

/// Number of characters before the first line break of `text`, or its
/// length when it holds none.
pub open spec fn first_line_len(text: Seq<char>) -> nat
    decreases text.len(),
{
    if text.len() == 0 || text[0] == '\n' {
        0
    } else {
        1 + first_line_len(text.drop_first())
    }
}

/// The lines of `text`: the runs of characters between line breaks. A line
/// break ends a line; text behind the last break is a line if it is not
/// empty.
pub open spec fn lines(text: Seq<char>) -> Seq<Seq<char>>
    decreases text.len(),
{
    if text.len() == 0 {
        Seq::empty()
    } else {
        let first = first_line_len(text);
        if first >= text.len() {
            seq![text]
        } else {
            seq![text.take(first as int)] + lines(text.skip(first as int + 1))
        }
    }
}

/// Number of rows that `count` glyphs fill or begin.
pub open spec fn row_count(count: nat, row_width: nat) -> nat {
    ((count + row_width - 1) / (row_width as int)) as nat
}

/// The rows of `glyphs`: consecutive runs of `row_width`, the last one
/// shorter when the glyphs do not fill it.
pub open spec fn rows(glyphs: Seq<char>, row_width: nat) -> Seq<Seq<char>> {
    Seq::new(
        row_count(glyphs.len(), row_width),
        |row: int|
            glyphs.subrange(
                row * row_width,
                if (row + 1) * row_width <= glyphs.len() {
                    (row + 1) * row_width
                } else {
                    glyphs.len() as int
                },
            ),
    )
}

/// The first line ends at the first line break.
pub proof fn lemma_first_line_len(text: Seq<char>, len: int)
    requires
        0 <= len <= text.len(),
        forall|i: int| 0 <= i < len ==> text[i] != '\n',
        len == text.len() || text[len] == '\n',
    ensures
        first_line_len(text) == len,
    decreases len,
{
    if len > 0 {
        let rest = text.drop_first();
        assert forall|i: int| 0 <= i < len - 1 implies rest[i] != '\n' by {
            assert(rest[i] == text[i + 1]);
        }
        lemma_first_line_len(rest, len - 1);
    }
}

/// Rounding the row count up: complete rows, and one more for a remainder.
pub proof fn lemma_row_count(count: nat, row_width: nat)
    requires
        1 <= row_width,
    ensures
        row_count(count, row_width) == count / row_width + if count % row_width == 0 {
            0nat
        } else {
            1nat
        },
{
    let w = row_width as int;
    let q = count as int / w;
    let r = count as int % w;
    lemma_fundamental_div_mod(count as int, w);
    lemma_mod_bound(count as int, w);
    if r == 0 {
        assert(count + w - 1 == q * w + (w - 1)) by (nonlinear_arith)
            requires
                count == w * q + r,
                r == 0,
        ;
        lemma_fundamental_div_mod_converse(count + w - 1, w, q, w - 1);
    } else {
        assert(count + w - 1 == (q + 1) * w + (r - 1)) by (nonlinear_arith)
            requires
                count == w * q + r,
        ;
        lemma_fundamental_div_mod_converse(count + w - 1, w, q + 1, r - 1);
    }
}

/// Behind the first full row and its break, the text is the layout of the
/// remaining glyphs.
proof fn lemma_line_breaks_tail(glyphs: Seq<char>, row_width: nat)
    requires
        1 <= row_width <= glyphs.len(),
    ensures
        with_line_breaks(glyphs, row_width).len() >= row_width + 1,
        with_line_breaks(glyphs, row_width).skip(row_width as int + 1) == with_line_breaks(
            glyphs.skip(row_width as int),
            row_width,
        ),
        with_line_breaks(glyphs, row_width).take(row_width as int) == glyphs.take(
            row_width as int,
        ),
        with_line_breaks(glyphs, row_width)[row_width as int] == '\n',
        (glyphs.len() - row_width) / (row_width as int) == glyphs.len() / row_width - 1,
        (glyphs.len() - row_width) % (row_width as int) == glyphs.len() % row_width,
{
    let w = row_width as int;
    let n = glyphs.len() as int;
    let text = with_line_breaks(glyphs, row_width);
    let rest = glyphs.skip(w);
    let tail = with_line_breaks(rest, row_width);
    let q = n / w;
    let r = n % w;
    lemma_fundamental_div_mod(n, w);
    lemma_mod_bound(n, w);
    assert(q >= 1) by (nonlinear_arith)
        requires
            n == w * q + r,
            0 <= r < w,
            w <= n,
    ;
    assert(n - w == (q - 1) * w + r) by (nonlinear_arith)
        requires
            n == w * q + r,
    ;
    lemma_fundamental_div_mod_converse(n - w, w, q - 1, r);
    assert(text.len() == n + q);
    assert(tail.len() == n - w + (q - 1));
    lemma_fundamental_div_mod_converse(w, w + 1, 0, w);
    assert(text[w] == '\n');
    assert forall|at: int| 0 <= at < w implies text[at] == glyphs[at] by {
        lemma_fundamental_div_mod_converse(at, w + 1, 0, at);
    }
    assert(text.take(w) =~= glyphs.take(w));
    assert forall|at: int| 0 <= at < tail.len() implies text[at + w + 1] == tail[at] by {
        let tq = at / (w + 1);
        let tr = at % (w + 1);
        lemma_fundamental_div_mod(at, w + 1);
        lemma_mod_bound(at, w + 1);
        lemma_div_pos_is_pos(at, w + 1);
        assert(at + w + 1 == (tq + 1) * (w + 1) + tr) by (nonlinear_arith)
            requires
                at == (w + 1) * tq + tr,
        ;
        lemma_fundamental_div_mod_converse(at + w + 1, w + 1, tq + 1, tr);
        if tr != w {
            lemma_glyph_at(at, w);
            let index = at - tq;
            if index >= n - w {
                lemma_glyph_position_ordered(n - w, index, w);
            }
            assert(0 <= index < n - w);
            assert(rest[index] == glyphs[index + w]);
        }
    }
    assert(text.skip(w + 1) =~= tail);
}

/// The first of the rows, and the rows of what lies behind it.
proof fn lemma_rows_split(glyphs: Seq<char>, row_width: nat)
    requires
        1 <= row_width <= glyphs.len(),
    ensures
        rows(glyphs, row_width) == seq![glyphs.take(row_width as int)] + rows(
            glyphs.skip(row_width as int),
            row_width,
        ),
{
    let w = row_width as int;
    let n = glyphs.len() as int;
    let rest = glyphs.skip(w);
    let all = rows(glyphs, row_width);
    let split = seq![glyphs.take(w)] + rows(rest, row_width);
    lemma_row_count(glyphs.len(), row_width);
    lemma_row_count(rest.len(), row_width);
    lemma_line_breaks_tail(glyphs, row_width);
    assert(all.len() == split.len());
    assert forall|row: int| 0 <= row < all.len() implies all[row] == split[row] by {
        if row == 0 {
            assert(1 * w == w) by (nonlinear_arith);
            assert(0 * w == 0) by (nonlinear_arith);
            assert(all[0] =~= glyphs.take(w));
        } else {
            assert((row - 1) * w + w == row * w && (row - 1 + 1) * w == row * w && (row + 1) * w
                == row * w + w && (row - 1) * w >= 0) by (nonlinear_arith)
                requires
                    row >= 1,
                    w >= 1,
            ;
            lemma_row_bounds(rest.len(), row_width, row - 1);
            assert(split[row] == rows(rest, row_width)[row - 1]);
            assert(all[row] =~= rows(rest, row_width)[row - 1]);
        }
    }
    assert(all =~= split);
}

/// Every row starts inside the glyphs.
proof fn lemma_row_bounds(count: nat, row_width: nat, row: int)
    requires
        1 <= row_width,
        0 <= row < row_count(count, row_width),
    ensures
        0 <= row * row_width < count,
{
    let w = row_width as int;
    let q = count as int / w;
    let r = count as int % w;
    lemma_row_count(count, row_width);
    lemma_fundamental_div_mod(count as int, w);
    lemma_mod_bound(count as int, w);
    lemma_div_pos_is_pos(count as int, w);
    assert(0 <= row * w < count) by (nonlinear_arith)
        requires
            count == w * q + r,
            0 <= r < w,
            0 <= row,
            row < q || (row == q && r > 0),
    ;
}

/// Laid out with line breaks, glyphs that are no line breaks themselves read
/// back line by line as their rows: as many lines as rows, each full row a
/// line of exactly `row_width` characters.
pub proof fn lemma_lines_are_rows(glyphs: Seq<char>, row_width: nat)
    requires
        1 <= row_width,
        forall|i: int| 0 <= i < glyphs.len() ==> glyphs[i] != '\n',
    ensures
        lines(with_line_breaks(glyphs, row_width)) == rows(glyphs, row_width),
        lines(with_line_breaks(glyphs, row_width)).len() == row_count(glyphs.len(), row_width),
        forall|row: int|
            0 <= row < glyphs.len() / row_width ==> (#[trigger] lines(
                with_line_breaks(glyphs, row_width),
            )[row]).len() == row_width,
    decreases glyphs.len(),
{
    let w = row_width as int;
    let n = glyphs.len() as int;
    let text = with_line_breaks(glyphs, row_width);
    lemma_row_count(glyphs.len(), row_width);
    lemma_fundamental_div_mod(n, w);
    lemma_mod_bound(n, w);
    lemma_div_pos_is_pos(n, w);
    if n == 0 {
        assert(text.len() == 0);
        assert(lines(text) =~= rows(glyphs, row_width));
    } else if n < w {
        lemma_fundamental_div_mod_converse(n, w, 0, n);
        assert(text.len() == n);
        assert forall|at: int| 0 <= at < n implies text[at] == glyphs[at] by {
            lemma_fundamental_div_mod_converse(at, w + 1, 0, at);
        }
        assert(text =~= glyphs);
        lemma_first_line_len(text, n);
        assert(0 * w == 0 && (0 + 1) * w == w) by (nonlinear_arith);
        assert(rows(glyphs, row_width)[0] =~= glyphs);
        assert(lines(text) =~= rows(glyphs, row_width));
    } else {
        let rest = glyphs.skip(w);
        lemma_line_breaks_tail(glyphs, row_width);
        assert forall|i: int| 0 <= i < w implies text[i] != '\n' by {
            assert(text.take(w)[i] == glyphs.take(w)[i]);
        }
        lemma_first_line_len(text, w);
        assert(lines(text) == seq![text.take(w)] + lines(text.skip(w + 1)));
        lemma_lines_are_rows(rest, row_width);
        lemma_rows_split(glyphs, row_width);
    }
    let all = rows(glyphs, row_width);
    assert forall|row: int| 0 <= row < n / w implies (#[trigger] all[row]).len() == row_width by {
        assert(0 <= row * w && (row + 1) * w == row * w + w && (row + 1) * w <= n)
            by (nonlinear_arith)
            requires
                0 <= row < n / w,
                n == w * (n / w) + n % w,
                0 <= n % w,
                1 <= w,
        ;
    }
}

} // verus!
