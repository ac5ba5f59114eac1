//! Rows: a block of registers laid out for display under a format.
//!
//! The words of a block are dealt into consecutive groups of as many words as
//! the format reads. Each group is one row, at the address of its first word.
//! Where the last group is short of words, its row shows the unavailable mark.

use vstd::prelude::*;
use vstd::arithmetic::div_mod::{lemma_fundamental_div_mod, lemma_mod_pos_bound};
use crate::codec::{decode, Decoded, DisplayFormat, Reading};

verus! {

/// One row of the register table.
#[derive(Clone, Debug, PartialEq, Eq)]
pub struct ModbusRow {
    /// The address of the first register of the row.
    pub addr: u16,
    /// The registers of the row as they came.
    pub raw: Vec<u16>,
    pub display_format: DisplayFormat,
    pub display_value: Decoded,
}

/// The model of a [`ModbusRow`].
pub struct RowView {
    pub addr: u16,
    pub raw: Seq<u16>,
    pub display_format: DisplayFormat,
    pub display_value: Reading,
}

impl View for ModbusRow {
    type V = RowView;

    open spec fn view(&self) -> RowView {
        RowView {
            addr: self.addr,
            raw: self.raw@,
            display_format: self.display_format,
            display_value: self.display_value@,
        }
    }
}

/// The number of rows that `len` words fill at `width` words a row; a last
/// row that is not full counts.
pub open spec fn row_count(len: nat, width: nat) -> nat {
    ((len + width - 1) / width as int) as nat
}

/// The words of row `i`: `width` words from word `i * width` on, or those
/// that are left.
pub open spec fn row_words(block: Seq<u16>, width: nat, i: int) -> Seq<u16> {
    block.subrange(
        i * width,
        if (i + 1) * width <= block.len() {
            (i + 1) * width
        } else {
            block.len() as int
        },
    )
}

/// Row `i` of a block that was read from address `start` on.
pub open spec fn row_at(block: Seq<u16>, start: u16, format: DisplayFormat, i: int) -> RowView {
    RowView {
        addr: (start + i * format.word_count()) as u16,
        raw: row_words(block, format.word_count(), i),
        display_format: format,
        display_value: decode(format, row_words(block, format.word_count(), i)),
    }
}

/// The rows of a block that was read from address `start` on.
pub open spec fn rows_of(block: Seq<u16>, start: u16, format: DisplayFormat) -> Seq<RowView> {
    Seq::new(
        row_count(block.len(), format.word_count()),
        |i: int| row_at(block, start, format, i),
    )
}

/// The views of the rows in a vector.
pub open spec fn row_views(rows: Seq<ModbusRow>) -> Seq<RowView> {
    Seq::new(rows.len(), |i: int| rows[i]@)
}

/// The raw words of a sequence of rows, one row after the other.
pub open spec fn raw_words(rows: Seq<RowView>) -> Seq<u16>
    decreases rows.len(),
{
    if rows.len() == 0 {
        Seq::empty()
    } else {
        raw_words(rows.drop_last()) + rows.last().raw
    }
}

/// Copies the words from `from` up to `to` out of a block.
fn copy_words(block: &[u16], from: usize, to: usize) -> (words: Vec<u16>)
    requires
        from <= to <= block.len(),
    ensures
        words@ == block@.subrange(from as int, to as int),
{
    let mut words: Vec<u16> = Vec::new();
    let mut i: usize = from;
    while i < to
        invariant
            from <= i <= to <= block.len(),
            words@ == block@.subrange(from as int, i as int),
        decreases to - i,
    {
        words.push(block[i]);
        i = i + 1;
        assert(words@ =~= block@.subrange(from as int, i as int));
    }
    words
}

/// Lays a block out in rows under a format.
///
/// `start` is the address that the block was read from. Row `i` holds the
/// words from `i` times the width of the format on, and stands at the address
/// of its first word. The block must lie within the 16-bit address space.
pub fn build_rows(block: &[u16], start: u16, format: DisplayFormat) -> (rows: Vec<ModbusRow>)
    requires
        start + block@.len() <= 0x1_0000,
    ensures
        row_views(rows@) == rows_of(block@, start, format),
{
    let width: usize = format.register_count();
    let mut rows: Vec<ModbusRow> = Vec::new();
    let mut offset: usize = 0;
    while offset < block.len()
        invariant
            width == format.word_count(),
            1 <= width <= 4,
            start + block@.len() <= 0x1_0000,
            offset <= block.len(),
            offset < block.len() ==> offset == rows.len() * width,
            offset == block.len() ==> rows.len() == row_count(block@.len(), width as nat),
            rows.len() <= row_count(block@.len(), width as nat),
            forall|i: int| 0 <= i < rows.len() ==> (#[trigger] rows@[i])@ == row_at(block@, start, format, i),
        decreases block.len() - offset,
    {
        let ghost i = rows.len() as int;
        let end: usize = if block.len() - offset >= width {
            offset + width
        } else {
            block.len()
        };
        proof {
            lemma_row_bounds(block@.len(), width as nat, i);
        }
        let raw: Vec<u16> = copy_words(block, offset, end);
        let value: Decoded = format.format(raw.as_slice());
        let addr: u16 = (start as usize + offset) as u16;
        rows.push(ModbusRow { addr, raw, display_format: format, display_value: value });
        offset = end;
    }
    proof {
        if block.len() == 0 {
            assert(row_count(0, width as nat) == 0);
        }
        assert(row_views(rows@) =~= rows_of(block@, start, format));
    }
    rows
}

/// Where row `i` begins, and when it is the last one.
proof fn lemma_row_bounds(len: nat, width: nat, i: int)
    requires
        1 <= width <= 4,
        0 <= i,
        i * width < len,
    ensures
        i < row_count(len, width),
        (i + 1) * width == i * width + width,
        (i + 1) * width < len ==> i + 1 < row_count(len, width),
        (i + 1) * width >= len ==> i + 1 == row_count(len, width),
{
    assert((i + 1) * width == i * width + width) by (nonlinear_arith);
    let total = len + width - 1;
    let q = total / width as int;
    let r = total % width as int;
    lemma_fundamental_div_mod(total, width as int);
    lemma_mod_pos_bound(total, width as int);
    assert(i < q) by (nonlinear_arith)
        requires
            i * width < len,
            total == len + width - 1,
            total == width * q + r,
            0 <= r < width,
    ;
    if (i + 1) * width < len {
        assert(i + 1 < q) by (nonlinear_arith)
            requires
                (i + 1) * width < len,
                total == len + width - 1,
                total == width * q + r,
                0 <= r < width,
        ;
    } else {
        assert(q < i + 2) by (nonlinear_arith)
            requires
                (i + 1) * width >= len,
                total == len + width - 1,
                total == width * q + r,
                0 <= r < width,
                0 <= i,
        ;
    }
}

/// The first `n` rows hold the first words of the block: `n` rows of full
/// width, or the whole block.
proof fn lemma_rows_cover_prefix(block: Seq<u16>, start: u16, format: DisplayFormat, n: nat)
    requires
        n <= row_count(block.len(), format.word_count()),
    ensures
        raw_words(rows_of(block, start, format).take(n as int)) == block.take(
            if n * format.word_count() <= block.len() {
                (n * format.word_count()) as int
            } else {
                block.len() as int
            },
        ),
    decreases n,
{
    let width = format.word_count();
    let all = rows_of(block, start, format);
    if n == 0 {
        assert(0 * width == 0) by (nonlinear_arith);
        assert(raw_words(all.take(0)) =~= block.take(0));
    } else {
        let i = (n - 1) as int;
        lemma_rows_cover_prefix(block, start, format, (n - 1) as nat);
        assert(all.take(n as int).drop_last() =~= all.take(i));
        assert(all.take(n as int).last() == all[i]);
        assert(i * width < block.len()) by {
            if i * width >= block.len() {
                lemma_row_count_is_least(block.len(), width, i);
            }
        }
        assert((i + 1) * width == i * width + width) by (nonlinear_arith);
        assert(raw_words(all.take(n as int)) =~= block.take(
            if n * width <= block.len() {
                (n * width) as int
            } else {
                block.len() as int
            },
        ));
    }
}

/// Rows of `width` words that reach the end of the block are all the rows
/// there are.
proof fn lemma_row_count_is_least(len: nat, width: nat, i: int)
    requires
        1 <= width <= 4,
        0 <= i,
        i * width >= len,
    ensures
        row_count(len, width) <= i,
{
    let total = len + width - 1;
    let q = total / width as int;
    let r = total % width as int;
    lemma_fundamental_div_mod(total, width as int);
    lemma_mod_pos_bound(total, width as int);
    assert(q <= i) by (nonlinear_arith)
        requires
            i * width >= len,
            total == len + width - 1,
            total == width * q + r,
            0 <= r < width,
    ;
}

/// The rows are the block, cut up: their words, one row after the other, are
/// the words of the block in order, whatever the format. Another format deals
/// the same words into other rows.
pub proof fn lemma_rows_cover_block(block: Seq<u16>, start: u16, format: DisplayFormat)
    ensures
        raw_words(rows_of(block, start, format)) == block,
{
    let width = format.word_count();
    let count = row_count(block.len(), width);
    let all = rows_of(block, start, format);
    lemma_rows_cover_prefix(block, start, format, count);
    assert(all.take(count as int) =~= all);
    if count * width <= block.len() {
        if count * width < block.len() {
            lemma_row_bounds(block.len(), width, count as int);
        }
    }
    assert(block.take(block.len() as int) =~= block);
}

/// Every row but the last is full; a row stands at the address of its first
/// word, and shows what its words decode to.
pub proof fn lemma_row_layout(block: Seq<u16>, start: u16, format: DisplayFormat, i: int)
    requires
        0 <= i < row_count(block.len(), format.word_count()),
        start + block.len() <= 0x1_0000,
    ensures
        rows_of(block, start, format)[i].addr == start + i * format.word_count(),
        i * format.word_count() < block.len(),
        i + 1 < row_count(block.len(), format.word_count()) ==> rows_of(
            block,
            start,
            format,
        )[i].raw.len() == format.word_count(),
        rows_of(block, start, format)[i].raw.len() == format.word_count() ==> rows_of(
            block,
            start,
            format,
        )[i].display_value == decode(
            format,
            block.subrange(i * format.word_count(), (i + 1) * format.word_count()),
        ),
{
    let width = format.word_count();
    assert(i * width < block.len()) by {
        if i * width >= block.len() {
            lemma_row_count_is_least(block.len(), width, i);
        }
    }
    lemma_row_bounds(block.len(), width, i);
    assert(0 <= i * width) by (nonlinear_arith)
        requires
            0 <= i,
            0 <= width,
    ;
}

} // verus!
