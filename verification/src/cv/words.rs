//! The 32-bit word as a storage element: one word holds a whole pixel.
//!
//! The channel count of the layout plays no part in the buffer, which holds
//! one packed word for every cell.

use crate::cv::{grid_cells, lemma_is_product, lemma_small_grid, tile, DataKind, MatSize};
use vstd::prelude::*;

verus! {

impl DataKind for u32 {
    /// One word for every cell.
    open spec fn buffer_len(cells: nat, chan: nat) -> nat {
        if 1 <= chan <= 4 {
            cells
        } else {
            0
        }
    }

    /// Every word is a cell.
    open spec fn cells(len: nat, chan: nat) -> nat {
        if 1 <= chan <= 4 {
            len
        } else {
            0
        }
    }

    /// The colour word itself, once per cell.
    open spec fn fill(color: u32, cells: nat, chan: nat) -> Seq<u32> {
        if 1 <= chan <= 4 {
            Seq::new(cells, |i: int| color)
        } else {
            Seq::empty()
        }
    }

    /// The buffer itself: it holds display words already.
    open spec fn display(data: Seq<u32>, chan: nat) -> Seq<u32> {
        if 1 <= chan <= 4 {
            data
        } else {
            Seq::empty()
        }
    }

    /// The whole word.
    open spec fn visible(color: u32, chan: nat) -> u32 {
        color
    }

    proof fn lemma_buffer_len(cells: nat, chan: nat) {
    }

    proof fn lemma_cells(len: nat, chan: nat) {
    }

    proof fn lemma_fill_len(color: u32, cells: nat, chan: nat) {
    }

    proof fn lemma_display_len(data: Seq<u32>, cells: nat, chan: nat) {
    }

    proof fn lemma_fill_then_display(color: u32, cells: nat, chan: nat) {
    }

    fn zero() -> (z: u32) {
        0u32
    }

    fn stride(chan: usize) -> (n: usize) {
        match chan {
            1 | 2 | 3 | 4 => 1,
            _ => 0,
        }
    }

    fn color(color: u32, size: MatSize, chan: usize) -> (data: Vec<u32>) {
        proof {
            lemma_is_product(size.0 as nat, size.1 as nat);
        }
        match chan {
            1 | 2 | 3 | 4 => {
                proof {
                    lemma_small_grid(size.0 as int, size.1 as int, 1);
                }
                let cell: Vec<u32> = vec![color];
                let data = tile(&cell, size.0 * size.1);
                assert(data@ =~= Self::fill(color, grid_cells(size), chan as nat));
                data
            },
            _ => Vec::new(),
        }
    }

    fn buffer(data: &Vec<u32>, chan: usize) -> (words: Vec<u32>) {
        match chan {
            1 | 2 | 3 | 4 => {
                let words = data.clone();
                assert(words@ =~= data@);
                words
            },
            _ => Vec::new(),
        }
    }
}

} // verus!
