//! Pixel layouts, storage elements and the pixel matrix.
//!
//! A matrix stores its pixels in a flat, row-major buffer. The storage
//! element is either a byte, with one element per channel, or a 32-bit word
//! that holds a whole pixel. [`DataKind`] describes a storage element,
//! [`MatMode`] names a layout and fixes its channel count.

pub mod bytes;
pub mod img;
pub mod mat;
pub mod words;

pub use self::mat::{Mat, MatView};

use vstd::prelude::*;

verus! {

pub type ColorRgb = (u8, u8, u8);

pub type ColorArgb = (u8, u8, u8, u8);

/// Width and height of a grid, in that order.
pub type MatSize = (usize, usize);

pub type MatData<T> = Vec<T>;

/// A pixel layout.
#[derive(Clone, Copy, Debug, PartialEq, Eq, Structural)]
pub enum MatMode {
    /// One luma byte per pixel.
    Gray,
    /// One byte channel per pixel.
    U8C1,
    /// Two byte channels per pixel.
    U8C2,
    /// Three byte channels per pixel.
    U8C3,
    /// Four byte channels per pixel.
    U8C4,
    /// Three channels in a 32-bit pixel, encoded as 0RGB: the upper 8 bits
    /// are ignored, the next 8 bits are red, the next 8 green and the lower
    /// 8 bits blue.
    U32S3,
    /// Four channels in a 32-bit pixel, encoded as ARGB: the upper 8 bits
    /// are alpha, the next 8 bits are red, the next 8 green and the lower
    /// 8 bits blue.
    U32S4,
}

/// A colour given by its channels.
#[derive(Clone, Copy, Debug, PartialEq, Eq, Structural)]
pub enum Color {
    RGB(u8, u8, u8),
    RGBA(u8, u8, u8, u8),
}

/// Why a matrix could not be built or changed.
#[derive(Clone, Copy, Debug, PartialEq, Eq, Structural)]
pub enum MatError {
    /// The length of a buffer does not agree with the width, height,
    /// channel count and storage element of the matrix.
    ShapeMismatch,
}

/// Names the storage element that a layout is stored in by default.
pub trait MatKind {
    type Kind;
}

impl MatKind for MatMode {
    type Kind = u8;
}

impl MatMode {
    /// The channel count of the layout.
    pub open spec fn channels(self) -> nat {
        match self {
            MatMode::Gray => 1,
            MatMode::U8C1 => 1,
            MatMode::U8C2 => 2,
            MatMode::U8C3 => 3,
            MatMode::U8C4 => 4,
            MatMode::U32S3 => 3,
            MatMode::U32S4 => 4,
        }
    }

    /// The channel count of the layout.
    pub fn chan(&self) -> (n: usize)
        ensures
            n == self.channels(),
    {
        match self {
            MatMode::Gray => 1,
            MatMode::U8C1 => 1,
            MatMode::U8C2 => 2,
            MatMode::U8C3 => 3,
            MatMode::U8C4 => 4,
            MatMode::U32S3 => 3,
            MatMode::U32S4 => 4,
        }
    }

    /// The channel count of the layout and the buffer of a grid of empty
    /// pixels.
    pub fn kind<D: DataKind>(&self, size: MatSize) -> (r: (usize, Vec<D>))
        requires
            grid_fits::<D>(size, self.channels()),
        ensures
            r.0 == self.channels(),
            r.1@ == D::fill(0, grid_cells(size), self.channels()),
            r.1@.len() == D::buffer_len(grid_cells(size), self.channels()),
            is_product(grid_cells(size), size.0 as nat, size.1 as nat),
    {
        proof {
            D::lemma_fill_len(0, grid_cells(size), self.channels());
        }
        let chan = self.chan();
        (chan, D::color(D::zero(), size, chan))
    }

    /// The channel count of the layout and the buffer of a grid in which
    /// every pixel holds `color`. The buffer shows, at every pixel, what a
    /// cell keeps of the colour.
    pub fn kind_color<D: DataKind>(&self, size: MatSize, color: u32) -> (r: (usize, Vec<D>))
        requires
            grid_fits::<D>(size, self.channels()),
        ensures
            r.0 == self.channels(),
            r.1@ == D::fill(color, grid_cells(size), self.channels()),
            r.1@.len() == D::buffer_len(grid_cells(size), self.channels()),
            is_product(grid_cells(size), size.0 as nat, size.1 as nat),
            D::display(r.1@, self.channels()) == Seq::new(
                grid_cells(size),
                |i: int| D::visible(color, self.channels()),
            ),
    {
        proof {
            D::lemma_fill_len(color, grid_cells(size), self.channels());
            D::lemma_fill_then_display(color, grid_cells(size), self.channels());
        }
        let chan = self.chan();
        (chan, D::color(color, size, chan))
    }
}

/// A storage element of a pixel buffer.
///
/// An implementation says how a grid of cells is laid out in a buffer of
/// such elements, and how the buffer is shown as ARGB words. The laws of the
/// trait tie the two together.
pub trait DataKind: Clone + Sized {
    /// The number of storage elements that `cells` cells take at `chan`
    /// channels. It is zero for a channel count outside 1..=4.
    spec fn buffer_len(cells: nat, chan: nat) -> nat;

    /// The number of whole cells that a buffer of `len` elements holds at
    /// `chan` channels.
    spec fn cells(len: nat, chan: nat) -> nat;

    /// The buffer of `cells` cells that all hold `color`.
    spec fn fill(color: u32, cells: nat, chan: nat) -> Seq<Self>;

    /// The display words of a buffer, one ARGB word per cell.
    spec fn display(data: Seq<Self>, chan: nat) -> Seq<u32>;

    /// What a cell keeps of a colour word: the word as it is shown again.
    spec fn visible(color: u32, chan: nat) -> u32;

    /// Every cell takes the same number of elements, and takes any exactly
    /// at the channel counts 1..=4.
    proof fn lemma_buffer_len(cells: nat, chan: nat)
        ensures
            Self::buffer_len(cells, chan) == cells * Self::buffer_len(1, chan),
            Self::buffer_len(1, chan) > 0 <==> 1 <= chan <= 4,
            Self::buffer_len(1, chan) <= 4,
    ;

    /// A buffer holds as many whole cells as the length of a cell goes into
    /// its own length.
    proof fn lemma_cells(len: nat, chan: nat)
        requires
            1 <= chan <= 4,
        ensures
            Self::cells(len, chan) == len / Self::buffer_len(1, chan),
    ;

    /// A filled buffer has the length of its cells.
    proof fn lemma_fill_len(color: u32, cells: nat, chan: nat)
        ensures
            Self::fill(color, cells, chan).len() == Self::buffer_len(cells, chan),
    ;

    /// A buffer of whole cells is shown as one word for every cell.
    proof fn lemma_display_len(data: Seq<Self>, cells: nat, chan: nat)
        requires
            data.len() == Self::buffer_len(cells, chan),
        ensures
            Self::display(data, chan).len() == if 1 <= chan <= 4 {
                cells
            } else {
                0
            },
    ;

    /// A filled buffer shows, at every cell, what a cell keeps of the colour.
    proof fn lemma_fill_then_display(color: u32, cells: nat, chan: nat)
        requires
            1 <= chan <= 4,
        ensures
            Self::display(Self::fill(color, cells, chan), chan) == Seq::new(
                cells,
                |i: int| Self::visible(color, chan),
            ),
    ;

    /// The colour word that stands for an empty pixel.
    fn zero() -> (z: u32)
        ensures
            z == 0,
    ;

    /// The number of storage elements that one cell takes.
    fn stride(chan: usize) -> (n: usize)
        ensures
            n == Self::buffer_len(1, chan as nat),
    ;

    /// The buffer of a `size.0` by `size.1` grid in which every cell holds
    /// `color`. The buffer is empty for a channel count outside 1..=4.
    ///
    /// The buffer must fit the machine, which the second clause says. The
    /// first clause says nothing new: it spares a caller with small sides
    /// the product.
    fn color(color: u32, size: MatSize, chan: usize) -> (data: Vec<Self>)
        requires
            (size.0 <= 0x7fff && size.1 <= 0x7fff) || Self::buffer_len(grid_cells(size), chan as nat)
                <= usize::MAX,
        ensures
            data@ == Self::fill(color, grid_cells(size), chan as nat),
            is_product(grid_cells(size), size.0 as nat, size.1 as nat),
    ;

    /// The display words of a buffer that holds whole cells and nothing
    /// more. The result is empty for a channel count outside 1..=4.
    fn buffer(data: &Vec<Self>, chan: usize) -> (words: Vec<u32>)
        requires
            1 <= chan <= 4 ==> Self::buffer_len(Self::cells(data@.len(), chan as nat), chan as nat)
                == data@.len(),
        ensures
            words@ == Self::display(data@, chan as nat),
    ;
}

/// The number of cells of a `size.0` by `size.1` grid.
pub open spec fn grid_cells(size: MatSize) -> nat {
    (size.0 * size.1) as nat
}

/// `n` is the product of `a` and `b`.
///
/// The second clause says what the first says, with other factors. A solver
/// that finds no product of two equal numbers finds this one by it. The
/// functions that take the size of a grid say so of its cells.
pub open spec fn is_product(n: nat, a: nat, b: nat) -> bool {
    &&& n == a * b
    &&& n == (a + 1) * b - b
}

/// The product of two numbers is their product in both readings of
/// [`is_product`].
pub proof fn lemma_is_product(a: nat, b: nat)
    by (nonlinear_arith)
    ensures
        is_product(a * b, a, b),
{
}

/// Whether the buffer of a `size.0` by `size.1` grid fits the machine: its
/// length is at most `usize::MAX`, which the second clause says.
///
/// The first clause says nothing new, see [`lemma_grid_fits`]. It spares a
/// caller with small sides the product.
pub open spec fn grid_fits<D: DataKind>(size: MatSize, chan: nat) -> bool {
    ||| (size.0 <= 0x7fff && size.1 <= 0x7fff)
    ||| D::buffer_len(grid_cells(size), chan) <= usize::MAX
}

/// A grid fits exactly when the length of its buffer is at most
/// `usize::MAX`.
pub proof fn lemma_grid_fits<D: DataKind>(size: MatSize, chan: nat)
    ensures
        grid_fits::<D>(size, chan) <==> D::buffer_len(grid_cells(size), chan)
            <= usize::MAX,
{
    D::lemma_buffer_len(grid_cells(size), chan);
    lemma_small_grid(size.0 as int, size.1 as int, D::buffer_len(1, chan) as int);
}

/// A grid with sides below 2^15 and at most four elements to a cell takes
/// less than 2^32 elements.
pub(crate) proof fn lemma_small_grid(w: int, h: int, k: int)
    by (nonlinear_arith)
    requires
        0 <= w,
        0 <= h,
        0 <= k <= 4,
    ensures
        w <= 0x7fff && h <= 0x7fff ==> w * h * k <= 0xfffc_0004,
        w * h * k <= usize::MAX && k >= 1 ==> w * h <= usize::MAX,
{
}

/// `cells` copies of `cell`, one after another.
pub(crate) fn tile<T: Copy>(cell: &Vec<T>, cells: usize) -> (data: Vec<T>)
    requires
        cells * cell.len() <= usize::MAX,
    ensures
        data@ == Seq::new((cells * cell.len()) as nat, |i: int| cell@[i % (cell.len() as int)]),
{
    let k = cell.len();
    let mut data: Vec<T> = Vec::new();
    if k == 0 {
        assert(cells * k == 0) by (nonlinear_arith)
            requires
                k == 0,
        ;
        return data;
    }
    let total = cells * k;
    let mut n: usize = 0;
    while n < total
        invariant
            n <= total,
            k == cell.len(),
            k > 0,
            data@ == Seq::new(n as nat, |i: int| cell@[i % (k as int)]),
        decreases total - n,
    {
        data.push(cell[n % k]);
        n += 1;
    }
    data
}

} // verus!