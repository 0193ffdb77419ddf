//! What holds of the console whatever is written to it.

use vstd::prelude::*;
use crate::vga_buffer::{
    blank_cell, blank_row, glyph, is_printable, Screen, ScreenChar, BUFFER_HEIGHT, BUFFER_WIDTH, FALLBACK_GLYPH,
    TAB_WIDTH,
};

verus! {

/// Whether every byte of `text` is printable.
pub open spec fn all_printable(text: Seq<u8>) -> bool {
    forall|i: int| 0 <= i < text.len() ==> is_printable(#[trigger] text[i])
}

/// Whether every byte of `text` is a newline.
pub open spec fn all_newlines(text: Seq<u8>) -> bool {
    forall|i: int| 0 <= i < text.len() ==> #[trigger] text[i] == 0x0a
}

impl Screen {
    /// The number of line breaks that placing a character makes: one where
    /// the bottom row is full, none where it is not.
    pub open spec fn put_breaks(self) -> nat {
        if self.column >= BUFFER_WIDTH {
            1
        } else {
            0
        }
    }

    /// The number of line breaks that placing `count` spaces makes.
    pub open spec fn put_spaces_breaks(self, count: nat) -> nat
        decreases count,
    {
        if count == 0 {
            0
        } else {
            self.put_spaces_breaks((count - 1) as nat) + self.put_spaces((count - 1) as nat).put_breaks()
        }
    }

    /// The number of line breaks that writing `byte` makes.
    pub open spec fn byte_breaks(self, byte: u8) -> nat {
        if byte == 0x0a {
            1
        } else if byte == 0x09 {
            self.put_spaces_breaks(TAB_WIDTH as nat)
        } else {
            self.put_breaks()
        }
    }

    /// The number of line breaks that writing `bytes` makes, those of
    /// newlines and those of full rows together.
    pub open spec fn line_breaks(self, bytes: Seq<u8>) -> nat
        decreases bytes.len(),
    {
        if bytes.len() == 0 {
            0
        } else {
            self.line_breaks(bytes.drop_last()) + self.write_bytes(bytes.drop_last()).byte_breaks(bytes.last())
        }
    }
}

/// A line break keeps the grid's shape and the colours, and leaves the
/// cursor at the start of a blank bottom row under the rows that were there,
/// each one row higher.
pub proof fn lemma_new_line(screen: Screen)
    requires
        screen.wf(),
    ensures
        screen.new_line().wf(),
        screen.new_line().column == 0,
        screen.new_line().color == screen.color,
        screen.new_line().rows[BUFFER_HEIGHT - 1] == blank_row(screen.color),
        forall|row: int| 0 <= row < BUFFER_HEIGHT - 1 ==> #[trigger] screen.new_line().rows[row] == screen.rows[row + 1],
{
}

/// Placing a character keeps the grid's shape and the colours, stores the
/// character in the current colours in the bottom row, and leaves the cursor
/// just behind it.
pub proof fn lemma_put(screen: Screen, character: u8)
    requires
        screen.wf(),
    ensures
        screen.put(character).wf(),
        1 <= screen.put(character).column,
        screen.put(character).color == screen.color,
        screen.put(character).cell(BUFFER_HEIGHT - 1, screen.put(character).column - 1) == (ScreenChar {
            ascii_character: character,
            color_code: screen.color,
        }),
        screen.column < BUFFER_WIDTH ==> screen.put(character).column == screen.column + 1,
        screen.column == BUFFER_WIDTH ==> screen.put(character).column == 1,
{
    lemma_new_line(screen);
}

/// Placing spaces keeps the grid's shape and the colours.
pub proof fn lemma_put_spaces(screen: Screen, count: nat)
    requires
        screen.wf(),
    ensures
        screen.put_spaces(count).wf(),
        screen.put_spaces(count).color == screen.color,
    decreases count,
{
    if count > 0 {
        lemma_put_spaces(screen, (count - 1) as nat);
        lemma_put(screen.put_spaces((count - 1) as nat), 0x20);
    }
}

/// Writing a byte keeps the grid's shape and the colours: the cursor stays
/// on the row or just behind its last column.
pub proof fn lemma_write_byte_wf(screen: Screen, byte: u8)
    requires
        screen.wf(),
    ensures
        screen.write_byte(byte).wf(),
        screen.write_byte(byte).color == screen.color,
{
    lemma_new_line(screen);
    lemma_put(screen, glyph(byte));
    lemma_put_spaces(screen, TAB_WIDTH as nat);
}

/// Writing a text keeps the grid's shape and the colours.
pub proof fn lemma_write_bytes_wf(screen: Screen, text: Seq<u8>)
    requires
        screen.wf(),
    ensures
        screen.write_bytes(text).wf(),
        screen.write_bytes(text).color == screen.color,
    decreases text.len(),
{
    if text.len() > 0 {
        lemma_write_bytes_wf(screen, text.drop_last());
        lemma_write_byte_wf(screen.write_bytes(text.drop_last()), text.last());
    }
}

/// Writing one text after another is writing the two as one text.
pub proof fn lemma_write_bytes_concat(screen: Screen, first: Seq<u8>, second: Seq<u8>)
    ensures
        screen.write_bytes(first + second) == screen.write_bytes(first).write_bytes(second),
    decreases second.len(),
{
    if second.len() == 0 {
        assert(first + second =~= first);
    } else {
        lemma_write_bytes_concat(screen, first, second.drop_last());
        assert((first + second).drop_last() =~= first + second.drop_last());
        assert((first + second).last() == second.last());
    }
}

/// The line breaks of one text written after another add up.
pub proof fn lemma_line_breaks_concat(screen: Screen, first: Seq<u8>, second: Seq<u8>)
    ensures
        screen.line_breaks(first + second) == screen.line_breaks(first) + screen.write_bytes(first).line_breaks(
            second,
        ),
    decreases second.len(),
{
    if second.len() == 0 {
        assert(first + second =~= first);
    } else {
        lemma_line_breaks_concat(screen, first, second.drop_last());
        lemma_write_bytes_concat(screen, first, second.drop_last());
        assert((first + second).drop_last() =~= first + second.drop_last());
        assert((first + second).last() == second.last());
    }
}

/// Writing a text of one byte is writing the byte.
pub proof fn lemma_write_bytes_one(screen: Screen, byte: u8)
    ensures
        screen.write_bytes(seq![byte]) == screen.write_byte(byte),
        screen.line_breaks(seq![byte]) == screen.byte_breaks(byte),
{
    let text = seq![byte];
    assert(text.drop_last() =~= Seq::<u8>::empty());
    assert(text.last() == byte);
    assert(screen.write_bytes(text.drop_last()) == screen);
    assert(screen.line_breaks(text.drop_last()) == 0);
}

/// A printable byte that is written is read back unchanged, in the current
/// colours, from the bottom row at the column before the cursor.
pub proof fn lemma_printable_byte_reads_back(screen: Screen, byte: u8)
    requires
        screen.wf(),
        is_printable(byte),
    ensures
        ({
            let after = screen.write_byte(byte);
            &&& after.wf()
            &&& 1 <= after.column
            &&& after.cell(BUFFER_HEIGHT - 1, after.column - 1) == (ScreenChar {
                ascii_character: byte,
                color_code: screen.color,
            })
        }),
{
    lemma_put(screen, byte);
}

/// A byte that is neither printable nor a newline nor a tab is stored as the
/// fallback glyph, which differs from the byte unless the byte is the code of
/// the glyph itself.
pub proof fn lemma_unprintable_byte_stores_fallback(screen: Screen, byte: u8)
    requires
        screen.wf(),
        !is_printable(byte),
        byte != 0x0a,
        byte != 0x09,
    ensures
        ({
            let after = screen.write_byte(byte);
            &&& after.wf()
            &&& 1 <= after.column
            &&& after.cell(BUFFER_HEIGHT - 1, after.column - 1).ascii_character == FALLBACK_GLYPH
            &&& byte != FALLBACK_GLYPH ==> after.cell(BUFFER_HEIGHT - 1, after.column - 1).ascii_character != byte
        }),
{
    lemma_put(screen, FALLBACK_GLYPH);
}

/// A printable text that fits on the rest of the bottom row is placed there
/// as it is, behind what the row holds, without a line break; nothing else
/// on the screen changes.
pub proof fn lemma_text_that_fits(screen: Screen, text: Seq<u8>)
    requires
        screen.wf(),
        all_printable(text),
        screen.column + text.len() <= BUFFER_WIDTH,
    ensures
        ({
            let after = screen.write_bytes(text);
            &&& after.wf()
            &&& after.color == screen.color
            &&& after.column == screen.column + text.len()
            &&& screen.line_breaks(text) == 0
            &&& forall|row: int| 0 <= row < BUFFER_HEIGHT - 1 ==> #[trigger] after.rows[row] == screen.rows[row]
            &&& forall|col: int|
                0 <= col < BUFFER_WIDTH ==> #[trigger] after.cell(BUFFER_HEIGHT - 1, col) == if screen.column <= col
                    < screen.column + text.len() {
                    ScreenChar { ascii_character: text[col - screen.column], color_code: screen.color }
                } else {
                    screen.cell(BUFFER_HEIGHT - 1, col)
                }
        }),
    decreases text.len(),
{
    if text.len() > 0 {
        let front = text.drop_last();
        lemma_text_that_fits(screen, front);
        let before = screen.write_bytes(front);
        lemma_put(before, text.last());
        assert(is_printable(text[text.len() - 1]));
        let after = screen.write_bytes(text);
        assert(after == before.put(text.last()));
        assert forall|col: int| 0 <= col < BUFFER_WIDTH implies #[trigger] after.cell(BUFFER_HEIGHT - 1, col)
            == if screen.column <= col < screen.column + text.len() {
            ScreenChar { ascii_character: text[col - screen.column], color_code: screen.color }
        } else {
            screen.cell(BUFFER_HEIGHT - 1, col)
        } by {
            if col != before.column {
                assert(after.cell(BUFFER_HEIGHT - 1, col) == before.cell(BUFFER_HEIGHT - 1, col));
                if screen.column <= col < screen.column + front.len() {
                    assert(front[col - screen.column] == text[col - screen.column]);
                }
            }
        }
    }
}

/// A printable text of at most a row, written when the bottom row is full,
/// makes exactly one line break: the full row moves up, with every row above
/// it, and the text stands at the start of a new bottom row, blanks behind
/// it.
pub proof fn lemma_full_row_wraps(screen: Screen, text: Seq<u8>)
    requires
        screen.wf(),
        screen.column == BUFFER_WIDTH,
        all_printable(text),
        1 <= text.len() <= BUFFER_WIDTH,
    ensures
        ({
            let after = screen.write_bytes(text);
            &&& after.wf()
            &&& after.color == screen.color
            &&& screen.line_breaks(text) == 1
            &&& after.column == text.len()
            &&& forall|row: int| 0 <= row < BUFFER_HEIGHT - 1 ==> #[trigger] after.rows[row] == screen.rows[row + 1]
            &&& forall|col: int|
                0 <= col < BUFFER_WIDTH ==> #[trigger] after.cell(BUFFER_HEIGHT - 1, col) == if col < text.len() {
                    ScreenChar { ascii_character: text[col], color_code: screen.color }
                } else {
                    blank_cell(screen.color)
                }
        }),
{
    let first = text.take(1);
    let rest = text.skip(1);
    assert(text =~= first + rest);
    assert(first =~= seq![text[0]]);
    assert(is_printable(text[0]));
    assert(all_printable(rest)) by {
        assert forall|i: int| 0 <= i < rest.len() implies is_printable(#[trigger] rest[i]) by {
            assert(rest[i] == text[i + 1]);
        }
    }
    lemma_write_bytes_one(screen, text[0]);
    lemma_new_line(screen);
    lemma_put(screen, text[0]);
    let begun = screen.write_bytes(first);
    assert(begun == screen.put(text[0]));
    lemma_text_that_fits(begun, rest);
    lemma_write_bytes_concat(screen, first, rest);
    lemma_line_breaks_concat(screen, first, rest);
    let after = screen.write_bytes(text);
    assert forall|row: int| 0 <= row < BUFFER_HEIGHT - 1 implies #[trigger] after.rows[row] == screen.rows[row + 1] by {
        assert(after.rows[row] == begun.rows[row]);
        assert(begun.rows[row] == screen.new_line().rows[row]);
    }
    assert forall|col: int| 0 <= col < BUFFER_WIDTH implies #[trigger] after.cell(BUFFER_HEIGHT - 1, col) == if col
        < text.len() {
        ScreenChar { ascii_character: text[col], color_code: screen.color }
    } else {
        blank_cell(screen.color)
    } by {
        if 1 <= col < text.len() {
            assert(rest[col - 1] == text[col]);
        } else {
            assert(after.cell(BUFFER_HEIGHT - 1, col) == begun.cell(BUFFER_HEIGHT - 1, col));
        }
    }
}

/// A printable text that does not fit on the rest of the bottom row but
/// would fit with one row more, written without a newline, makes exactly one
/// line break: what fits fills the row, which moves up, and the character
/// after that stands at the start of a new bottom row, the rest of the text
/// and then blanks behind it.
pub proof fn lemma_overlong_line_wraps_once(screen: Screen, text: Seq<u8>)
    requires
        screen.wf(),
        all_printable(text),
        BUFFER_WIDTH < screen.column + text.len() <= 2 * BUFFER_WIDTH,
    ensures
        ({
            let after = screen.write_bytes(text);
            let fits = BUFFER_WIDTH - screen.column;
            &&& after.wf()
            &&& after.color == screen.color
            &&& screen.line_breaks(text) == 1
            &&& after.column == text.len() - fits
            &&& forall|col: int|
                0 <= col < BUFFER_WIDTH ==> #[trigger] after.cell(BUFFER_HEIGHT - 1, col) == if col < text.len() - fits {
                    ScreenChar { ascii_character: text[fits + col], color_code: screen.color }
                } else {
                    blank_cell(screen.color)
                }
            &&& forall|col: int|
                0 <= col < BUFFER_WIDTH ==> #[trigger] after.cell(BUFFER_HEIGHT - 2, col) == if col < screen.column {
                    screen.cell(BUFFER_HEIGHT - 1, col)
                } else {
                    ScreenChar { ascii_character: text[col - screen.column], color_code: screen.color }
                }
            &&& forall|row: int| 0 <= row < BUFFER_HEIGHT - 2 ==> #[trigger] after.rows[row] == screen.rows[row + 1]
        }),
{
    let fits = BUFFER_WIDTH - screen.column;
    let head = text.take(fits);
    let tail = text.skip(fits);
    assert(text =~= head + tail);
    assert(all_printable(head)) by {
        assert forall|i: int| 0 <= i < head.len() implies is_printable(#[trigger] head[i]) by {
            assert(head[i] == text[i]);
        }
    }
    assert(all_printable(tail)) by {
        assert forall|i: int| 0 <= i < tail.len() implies is_printable(#[trigger] tail[i]) by {
            assert(tail[i] == text[fits + i]);
        }
    }
    lemma_text_that_fits(screen, head);
    let full = screen.write_bytes(head);
    lemma_full_row_wraps(full, tail);
    lemma_write_bytes_concat(screen, head, tail);
    lemma_line_breaks_concat(screen, head, tail);
    let after = screen.write_bytes(text);
    assert forall|col: int| 0 <= col < BUFFER_WIDTH implies #[trigger] after.cell(BUFFER_HEIGHT - 1, col) == if col
        < text.len() - fits {
        ScreenChar { ascii_character: text[fits + col], color_code: screen.color }
    } else {
        blank_cell(screen.color)
    } by {
        if col < tail.len() {
            assert(tail[col] == text[fits + col]);
        }
    }
    assert forall|col: int| 0 <= col < BUFFER_WIDTH implies #[trigger] after.cell(BUFFER_HEIGHT - 2, col) == if col
        < screen.column {
        screen.cell(BUFFER_HEIGHT - 1, col)
    } else {
        ScreenChar { ascii_character: text[col - screen.column], color_code: screen.color }
    } by {
        assert(after.rows[BUFFER_HEIGHT - 2] == full.rows[BUFFER_HEIGHT - 1]);
        assert(after.cell(BUFFER_HEIGHT - 2, col) == full.cell(BUFFER_HEIGHT - 1, col));
        if col >= screen.column {
            assert(head[col - screen.column] == text[col - screen.column]);
        }
    }
    assert forall|row: int| 0 <= row < BUFFER_HEIGHT - 2 implies #[trigger] after.rows[row] == screen.rows[row + 1] by {
        assert(after.rows[row] == full.rows[row + 1]);
        assert(full.rows[row + 1] == screen.rows[row + 1]);
    }
}

/// A printable line that fits on a row, written from the start of the bottom
/// row and ended by a newline, stands on the row above the bottom row,
/// blanks behind it, and the bottom row is blank with the cursor at its
/// start.
pub proof fn lemma_line_stands_above_bottom(screen: Screen, line: Seq<u8>)
    requires
        screen.wf(),
        screen.column == 0,
        all_printable(line),
        line.len() <= BUFFER_WIDTH,
    ensures
        ({
            let after = screen.write_bytes(line.push(0x0a));
            &&& after.wf()
            &&& after.column == 0
            &&& screen.line_breaks(line.push(0x0a)) == 1
            &&& after.rows[BUFFER_HEIGHT - 1] == blank_row(screen.color)
            &&& forall|col: int|
                0 <= col < line.len() ==> #[trigger] after.cell(BUFFER_HEIGHT - 2, col) == (ScreenChar {
                    ascii_character: line[col],
                    color_code: screen.color,
                })
            &&& forall|col: int|
                line.len() <= col < BUFFER_WIDTH ==> #[trigger] after.cell(BUFFER_HEIGHT - 2, col) == screen.cell(
                    BUFFER_HEIGHT - 1,
                    col,
                )
            &&& forall|row: int| 0 <= row < BUFFER_HEIGHT - 2 ==> #[trigger] after.rows[row] == screen.rows[row + 1]
        }),
{
    let text = line.push(0x0a);
    assert(text.drop_last() =~= line);
    assert(text.last() == 0x0a);
    lemma_text_that_fits(screen, line);
    let written = screen.write_bytes(line);
    lemma_new_line(written);
    let after = screen.write_bytes(text);
    assert(after == written.new_line());
    assert forall|col: int| 0 <= col < BUFFER_WIDTH implies #[trigger] after.cell(BUFFER_HEIGHT - 2, col)
        == written.cell(BUFFER_HEIGHT - 1, col) by {
        assert(after.rows[BUFFER_HEIGHT - 2] == written.rows[BUFFER_HEIGHT - 1]);
    }
}

/// After a text that ends in a newline the cursor is at the start of the
/// bottom row, and the bottom row is blank.
pub proof fn lemma_newline_ends_at_column_zero(screen: Screen, text: Seq<u8>)
    requires
        screen.wf(),
        text.len() > 0,
        text.last() == 0x0a,
    ensures
        screen.write_bytes(text).wf(),
        screen.write_bytes(text).column == 0,
        screen.write_bytes(text).rows[BUFFER_HEIGHT - 1] == blank_row(screen.color),
{
    lemma_write_bytes_wf(screen, text.drop_last());
    lemma_new_line(screen.write_bytes(text.drop_last()));
}

/// After `count` newlines every row has moved up by `count` rows, the rows
/// that have come in at the bottom are blank, and the rows that were the top
/// `count` rows are gone; from `BUFFER_HEIGHT` newlines on the whole grid is
/// blank.
pub proof fn lemma_newlines_scroll(screen: Screen, text: Seq<u8>)
    requires
        screen.wf(),
        all_newlines(text),
    ensures
        ({
            let after = screen.write_bytes(text);
            &&& after.wf()
            &&& after.color == screen.color
            &&& screen.line_breaks(text) == text.len()
            &&& text.len() > 0 ==> after.column == 0
            &&& forall|row: int|
                0 <= row < BUFFER_HEIGHT - text.len() ==> #[trigger] after.rows[row] == screen.rows[row + text.len()]
            &&& forall|row: int|
                0 <= row < BUFFER_HEIGHT && BUFFER_HEIGHT - text.len() <= row ==> #[trigger] after.rows[row]
                    == blank_row(screen.color)
        }),
    decreases text.len(),
{
    if text.len() > 0 {
        let front = text.drop_last();
        assert(text.last() == text[text.len() - 1]);
        lemma_newlines_scroll(screen, front);
        let before = screen.write_bytes(front);
        lemma_new_line(before);
        let after = screen.write_bytes(text);
        assert(after == before.new_line());
        assert forall|row: int| 0 <= row < BUFFER_HEIGHT - text.len() implies #[trigger] after.rows[row]
            == screen.rows[row + text.len()] by {
            assert(after.rows[row] == before.rows[row + 1]);
        }
        assert forall|row: int|
            0 <= row < BUFFER_HEIGHT && BUFFER_HEIGHT - text.len() <= row implies #[trigger] after.rows[row]
            == blank_row(screen.color) by {
            if row < BUFFER_HEIGHT - 1 {
                assert(after.rows[row] == before.rows[row + 1]);
            }
        }
    }
}

/// Two screens with the cursor on the same column and the same colours
/// whose bottom `count` rows are the same.
pub open spec fn same_below(first: Screen, second: Screen, count: int) -> bool {
    &&& first.wf()
    &&& second.wf()
    &&& first.column == second.column
    &&& first.color == second.color
    &&& forall|row: int|
        0 <= row < BUFFER_HEIGHT && BUFFER_HEIGHT - count <= row ==> #[trigger] first.rows[row] == second.rows[row]
}

/// A line break on two screens that agree below leaves them agreeing on one
/// row more.
pub proof fn lemma_new_line_same_below(first: Screen, second: Screen, count: int)
    requires
        same_below(first, second, count),
        count >= 0,
    ensures
        same_below(first.new_line(), second.new_line(), count + 1),
{
    lemma_new_line(first);
    lemma_new_line(second);
    assert forall|row: int| 0 <= row < BUFFER_HEIGHT && BUFFER_HEIGHT - (count + 1) <= row implies #[trigger] first.new_line().rows[row]
        == second.new_line().rows[row] by {
        if row < BUFFER_HEIGHT - 1 {
            assert(first.new_line().rows[row] == first.rows[row + 1]);
            assert(second.new_line().rows[row] == second.rows[row + 1]);
        }
    }
}

/// Placing a character on two screens that agree below makes the same line
/// breaks on both and leaves them agreeing on one more row for each break.
pub proof fn lemma_put_same_below(first: Screen, second: Screen, count: int, character: u8)
    requires
        same_below(first, second, count),
        count >= 0,
    ensures
        first.put_breaks() == second.put_breaks(),
        same_below(first.put(character), second.put(character), count + first.put_breaks()),
{
    lemma_put(first, character);
    lemma_put(second, character);
    if first.column >= BUFFER_WIDTH {
        lemma_new_line_same_below(first, second, count);
    }
    let a = first.wrapped();
    let b = second.wrapped();
    let reach = count + first.put_breaks();
    assert(same_below(a, b, reach));
    assert forall|row: int| 0 <= row < BUFFER_HEIGHT && BUFFER_HEIGHT - reach <= row implies #[trigger] first.put(
        character,
    ).rows[row] == second.put(character).rows[row] by {
        assert(a.rows[row] == b.rows[row]);
    }
}

/// Placing spaces on two screens that agree below makes the same line
/// breaks on both and leaves them agreeing on one more row for each break.
pub proof fn lemma_put_spaces_same_below(first: Screen, second: Screen, count: int, spaces: nat)
    requires
        same_below(first, second, count),
        count >= 0,
    ensures
        first.put_spaces_breaks(spaces) == second.put_spaces_breaks(spaces),
        same_below(first.put_spaces(spaces), second.put_spaces(spaces), count + first.put_spaces_breaks(spaces)),
    decreases spaces,
{
    if spaces > 0 {
        let fewer = (spaces - 1) as nat;
        lemma_put_spaces_same_below(first, second, count, fewer);
        lemma_put_same_below(
            first.put_spaces(fewer),
            second.put_spaces(fewer),
            count + first.put_spaces_breaks(fewer),
            0x20,
        );
    }
}

/// Writing a text on two screens that agree below makes the same line
/// breaks on both and leaves them agreeing on one more row for each break.
pub proof fn lemma_write_bytes_same_below(first: Screen, second: Screen, count: int, text: Seq<u8>)
    requires
        same_below(first, second, count),
        count >= 0,
    ensures
        first.line_breaks(text) == second.line_breaks(text),
        same_below(first.write_bytes(text), second.write_bytes(text), count + first.line_breaks(text)),
    decreases text.len(),
{
    if text.len() > 0 {
        let front = text.drop_last();
        lemma_write_bytes_same_below(first, second, count, front);
        let a = first.write_bytes(front);
        let b = second.write_bytes(front);
        let reach = count + first.line_breaks(front);
        if text.last() == 0x0a {
            lemma_new_line_same_below(a, b, reach);
        } else if text.last() == 0x09 {
            lemma_put_spaces_same_below(a, b, reach, TAB_WIDTH as nat);
        } else {
            lemma_put_same_below(a, b, reach, glyph(text.last()));
        }
    }
}

/// Once a text has made `BUFFER_HEIGHT` line breaks or more, nothing of
/// what the grid held before is left: the screen is the same whatever the
/// grid held when the writing began.
pub proof fn lemma_scrolled_off(first: Screen, second: Screen, text: Seq<u8>)
    requires
        first.wf(),
        second.wf(),
        first.column == second.column,
        first.color == second.color,
        first.line_breaks(text) >= BUFFER_HEIGHT,
    ensures
        first.write_bytes(text) == second.write_bytes(text),
{
    lemma_write_bytes_same_below(first, second, 0, text);
    let a = first.write_bytes(text);
    let b = second.write_bytes(text);
    assert(a.rows =~= b.rows);
}

} // verus!
