//! The byte as a storage element: one byte for every channel of a pixel.
//!
//! A cell of `chan` channels holds the lowest `chan` bytes of a colour word,
//! the highest of them first, and is shown as the ARGB word with these bytes
//! in its lowest channels.
//!
//! The arithmetic of the layout has the channel count as a literal factor in
//! every case, `2 * cells` in place of `chan * cells`. That keeps the
//! contracts linear wherever the channel count is known.

use crate::cv::{grid_cells, lemma_is_product, lemma_small_grid, tile, DataKind, MatSize};
use crate::one::vary::{
    argb_word, from_argb, lemma_argb_repack, to_argb, word_argb, word_blue, word_green, word_red,
};
use vstd::prelude::*;

verus! {

/// The bytes of one cell that holds `color`: the lowest `chan` bytes of the
/// ARGB word, the highest of them first. One channel keeps B, two keep
/// (G, B), three (R, G, B) and four (A, R, G, B).
pub open spec fn byte_cell(color: u32, chan: nat) -> Seq<u8> {
    let (a, r, g, b) = word_argb(color);
    if chan == 1 {
        seq![b]
    } else if chan == 2 {
        seq![g, b]
    } else if chan == 3 {
        seq![r, g, b]
    } else if chan == 4 {
        seq![a, r, g, b]
    } else {
        Seq::empty()
    }
}

/// The ARGB word that shows the bytes of one cell. The bytes are the lowest
/// channels of the word, in their own order; the channels above them are
/// zero.
pub open spec fn byte_word(cell: Seq<u8>) -> u32 {
    if cell.len() == 1 {
        argb_word(0, 0, 0, cell[0])
    } else if cell.len() == 2 {
        argb_word(0, 0, cell[0], cell[1])
    } else if cell.len() == 3 {
        argb_word(0, cell[0], cell[1], cell[2])
    } else if cell.len() == 4 {
        argb_word(cell[0], cell[1], cell[2], cell[3])
    } else {
        0
    }
}

/// The place that byte `i` of a buffer has within its cell: `i` modulo the
/// channel count.
pub open spec fn byte_place(i: int, chan: nat) -> int {
    if chan == 2 {
        i % 2
    } else if chan == 3 {
        i % 3
    } else if chan == 4 {
        i % 4
    } else {
        0
    }
}

/// The bytes of cell `i` of a buffer: the run of `chan` bytes that starts at
/// byte `chan * i`.
pub open spec fn byte_run(data: Seq<u8>, i: int, chan: nat) -> Seq<u8> {
    data.subrange(
        <u8 as DataKind>::buffer_len(i as nat, chan) as int,
        <u8 as DataKind>::buffer_len((i + 1) as nat, chan) as int,
    )
}

/// What `chan` byte channels keep of a colour word: its lowest `chan` bytes.
pub open spec fn low_channels(color: u32, chan: nat) -> u32 {
    if chan == 1 {
        color % 0x100
    } else if chan == 2 {
        color % 0x1_0000
    } else if chan == 3 {
        color % 0x100_0000
    } else if chan == 4 {
        color
    } else {
        0
    }
}

/// The bytes of one cell that holds `color`, see [`byte_cell`].
fn cell_bytes(color: u32, chan: usize) -> (cell: Vec<u8>)
    ensures
        cell@ == byte_cell(color, chan as nat),
{
    let p = to_argb(color);
    let cell = match chan {
        1 => vec![p.3],
        2 => vec![p.2, p.3],
        3 => vec![p.1, p.2, p.3],
        4 => vec![p.0, p.1, p.2, p.3],
        _ => Vec::new(),
    };
    assert(cell@ =~= byte_cell(color, chan as nat));
    cell
}

/// The display word of the cell that starts at `start`, see [`byte_word`].
fn cell_word(data: &Vec<u8>, start: usize, chan: usize) -> (word: u32)
    requires
        1 <= chan <= 4,
        start + chan <= data.len(),
    ensures
        word == byte_word(data@.subrange(start as int, start + chan)),
{
    match chan {
        1 => from_argb(0, 0, 0, data[start]),
        2 => from_argb(0, 0, data[start], data[start + 1]),
        3 => from_argb(0, data[start], data[start + 1], data[start + 2]),
        _ => from_argb(data[start], data[start + 1], data[start + 2], data[start + 3]),
    }
}

impl DataKind for u8 {
    /// One byte for every channel of every cell.
    open spec fn buffer_len(cells: nat, chan: nat) -> nat {
        if chan == 1 {
            cells
        } else if chan == 2 {
            2 * cells
        } else if chan == 3 {
            3 * cells
        } else if chan == 4 {
            4 * cells
        } else {
            0
        }
    }

    /// Every run of `chan` bytes is a cell.
    open spec fn cells(len: nat, chan: nat) -> nat {
        if chan == 1 {
            len
        } else if chan == 2 {
            len / 2
        } else if chan == 3 {
            len / 3
        } else if chan == 4 {
            len / 4
        } else {
            0
        }
    }

    /// The bytes of one cell, repeated cell after cell.
    open spec fn fill(color: u32, cells: nat, chan: nat) -> Seq<u8> {
        Seq::new(
            Self::buffer_len(cells, chan),
            |i: int| byte_cell(color, chan)[byte_place(i, chan)],
        )
    }

    /// The buffer is cut into runs of `chan` bytes, and every run gives one
    /// word.
    open spec fn display(data: Seq<u8>, chan: nat) -> Seq<u32> {
        if 1 <= chan <= 4 {
            Seq::new(Self::cells(data.len(), chan), |i: int| byte_word(byte_run(data, i, chan)))
        } else {
            Seq::empty()
        }
    }

    /// The channels that the cell keeps; the channels above them are zero.
    open spec fn visible(color: u32, chan: nat) -> u32 {
        low_channels(color, chan)
    }

    proof fn lemma_buffer_len(cells: nat, chan: nat) {
        if 1 <= chan <= 4 {
            lemma_byte_len(cells, chan);
        } else {
            assert(cells * 0 == 0);
        }
    }

    proof fn lemma_cells(len: nat, chan: nat) {
        lemma_byte_cells(len, chan);
    }

    proof fn lemma_fill_len(color: u32, cells: nat, chan: nat) {
    }

    proof fn lemma_display_len(data: Seq<u8>, cells: nat, chan: nat) {
    }

    proof fn lemma_fill_then_display(color: u32, cells: nat, chan: nat) {
        let data = Self::fill(color, cells, chan);
        let shown = Self::display(data, chan);
        lemma_byte_cell_shown(color, chan);
        assert forall|i: int| 0 <= i < cells implies shown[i] == Self::visible(color, chan) by {
            lemma_filled_cell(color, cells, chan, i);
        }
        assert(shown =~= Seq::new(cells, |i: int| Self::visible(color, chan)));
    }

    fn zero() -> (z: u32) {
        0u32
    }

    fn stride(chan: usize) -> (n: usize) {
        match chan {
            1 | 2 | 3 | 4 => chan,
            _ => 0,
        }
    }

    fn color(color: u32, size: MatSize, chan: usize) -> (data: Vec<u8>) {
        proof {
            lemma_is_product(size.0 as nat, size.1 as nat);
        }
        match chan {
            1 | 2 | 3 | 4 => {
                proof {
                    lemma_small_grid(size.0 as int, size.1 as int, chan as int);
                }
                let cell = cell_bytes(color, chan);
                let data = tile(&cell, size.0 * size.1);
                assert(data@ =~= Self::fill(color, grid_cells(size), chan as nat));
                data
            },
            _ => Vec::new(),
        }
    }

    fn buffer(data: &Vec<u8>, chan: usize) -> (words: Vec<u32>) {
        match chan {
            1 | 2 | 3 | 4 => {
                let cells = data.len() / chan;
                let mut words: Vec<u32> = Vec::new();
                let mut i: usize = 0;
                proof {
                    lemma_byte_cells(data.len() as nat, chan as nat);
                    lemma_whole_cells(data.len() as int, chan as int);
                }
                while i < cells
                    invariant
                        1 <= chan <= 4,
                        cells == <u8 as DataKind>::cells(data.len() as nat, chan as nat),
                        cells * chan <= data.len(),
                        i <= cells,
                        words@ == Seq::new(i as nat, |n: int| byte_word(byte_run(data@, n, chan as nat))),
                    decreases cells - i,
                {
                    proof {
                        lemma_cell_bounds(i as int, cells as int, chan as int);
                        lemma_byte_len(i as nat, chan as nat);
                        lemma_byte_len((i + 1) as nat, chan as nat);
                        assert((i + 1) * chan == i * chan + chan) by (nonlinear_arith);
                    }
                    let word = cell_word(data, i * chan, chan);
                    words.push(word);
                    i += 1;
                }
                words
            },
            _ => Vec::new(),
        }
    }
}

/// A byte buffer filled with the zero word holds zero bytes only.
pub proof fn lemma_zero_bytes(cells: nat, chan: nat)
    ensures
        <u8 as DataKind>::fill(0, cells, chan) == Seq::new(
            <u8 as DataKind>::buffer_len(cells, chan),
            |i: int| 0u8,
        ),
{
    assert(<u8 as DataKind>::fill(0, cells, chan) =~= Seq::new(
        <u8 as DataKind>::buffer_len(cells, chan),
        |i: int| 0u8,
    ));
}

/// A byte buffer takes `chan` bytes for every cell.
pub proof fn lemma_byte_len(cells: nat, chan: nat)
    by (nonlinear_arith)
    requires
        1 <= chan <= 4,
    ensures
        <u8 as DataKind>::buffer_len(cells, chan) == cells * chan,
        <u8 as DataKind>::buffer_len(1, chan) == chan,
{
}

/// A byte buffer holds a cell for every `chan` bytes.
proof fn lemma_byte_cells(len: nat, chan: nat)
    requires
        1 <= chan <= 4,
    ensures
        <u8 as DataKind>::cells(len, chan) == len / chan,
{
    let cells = <u8 as DataKind>::cells(len, chan);
    assert(cells == len / chan) by (nonlinear_arith)
        requires
            chan == 1 && cells == len || chan == 2 && cells == len / 2 || chan == 3 && cells == len
                / 3 || chan == 4 && cells == len / 4,
    ;
}

/// The whole cells of a buffer fit into it.
proof fn lemma_whole_cells(len: int, k: int)
    by (nonlinear_arith)
    requires
        0 <= len,
        0 < k,
    ensures
        (len / k) * k <= len,
{
}

/// Cell `i` of `cells` cells of `k` elements lies inside the buffer.
proof fn lemma_cell_bounds(i: int, cells: int, k: int)
    by (nonlinear_arith)
    requires
        0 <= i < cells,
        0 < k,
    ensures
        i * k + k <= cells * k,
{
}

/// Element `j` of cell `i` is element `j` of the repeated pattern.
proof fn lemma_cell_index(i: int, j: int, k: int)
    by (nonlinear_arith)
    requires
        0 <= i,
        0 <= j < k,
    ensures
        (i * k + j) % k == j,
{
}

/// Every cell of a filled byte buffer holds the bytes of [`byte_cell`].
proof fn lemma_filled_cell(color: u32, cells: nat, chan: nat, i: int)
    requires
        1 <= chan <= 4,
        0 <= i < cells,
    ensures
        byte_run(<u8 as DataKind>::fill(color, cells, chan), i, chan) == byte_cell(color, chan),
{
    let data = <u8 as DataKind>::fill(color, cells, chan);
    let cell = byte_cell(color, chan);
    lemma_byte_len(i as nat, chan);
    lemma_byte_len((i + 1) as nat, chan);
    lemma_cell_bounds(i, cells as int, chan as int);
    assert((i + 1) * chan == i * chan + chan) by (nonlinear_arith);
    assert forall|j: int| 0 <= j < chan implies data[i * chan + j] == cell[j] by {
        lemma_cell_index(i, j, chan as int);
    }
    assert(byte_run(data, i, chan) =~= cell);
}

/// The bytes that a cell keeps of a colour word show as the lowest bytes of
/// the word.
proof fn lemma_byte_cell_shown(color: u32, chan: nat)
    requires
        1 <= chan <= 4,
    ensures
        byte_word(byte_cell(color, chan)) == low_channels(color, chan),
{
    if chan == 1 {
        assert(argb_word(0, 0, 0, word_blue(color)) == color % 0x100) by (bit_vector);
    } else if chan == 2 {
        assert(argb_word(0, 0, word_green(color), word_blue(color)) == color % 0x1_0000)
            by (bit_vector);
    } else if chan == 3 {
        assert(argb_word(0, word_red(color), word_green(color), word_blue(color)) == color
            % 0x100_0000) by (bit_vector);
    } else {
        lemma_argb_repack(color);
    }
}

} // verus!
