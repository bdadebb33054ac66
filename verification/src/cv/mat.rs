//! The pixel matrix: a grid of pixels in one layout, kept in a flat buffer
//! whose length always agrees with the shape of the grid.

use crate::cv::bytes::lemma_zero_bytes;
use crate::cv::{
    grid_cells, grid_fits, is_product, lemma_is_product, DataKind, MatData, MatError, MatMode,
    MatSize,
};
use vstd::prelude::*;

verus! {

/// A grid of pixels.
///
/// The width, the height and the layout are fixed when the matrix is built.
/// The buffer holds the cells row by row and can only be replaced by one of
/// the same length.
pub struct Mat<D: DataKind = u8> {
    w: usize,
    h: usize,
    chan: usize,
    kind: MatMode,
    data: MatData<D>,
}

/// What a matrix is: its shape, its layout and the elements of its buffer.
pub struct MatView<D> {
    pub w: nat,
    pub h: nat,
    pub kind: MatMode,
    pub data: Seq<D>,
}

impl<D: DataKind> MatView<D> {
    /// The number of cells: the width times the height.
    pub open spec fn cells(self) -> nat {
        self.w * self.h
    }

    /// The length that the buffer of a matrix of this shape has.
    pub open spec fn buffer_len(self) -> nat {
        D::buffer_len(self.cells(), self.kind.channels())
    }

    /// The buffer agrees with the shape.
    pub open spec fn shaped(self) -> bool {
        self.data.len() == self.buffer_len()
    }
}

impl<D: DataKind> View for Mat<D> {
    type V = MatView<D>;

    closed spec fn view(&self) -> MatView<D> {
        MatView { w: self.w as nat, h: self.h as nat, kind: self.kind, data: self.data@ }
    }
}

impl<D: DataKind> Mat<D> {
    #[verifier::type_invariant]
    spec fn well_formed(self) -> bool {
        &&& self.chan == self.kind.channels()
        &&& self@.shaped()
    }

    /// A matrix of empty pixels.
    pub fn new(size: MatSize, kind: MatMode) -> (m: Mat<D>)
        requires
            grid_fits::<D>(size, kind.channels()),
        ensures
            m@ == (MatView {
                w: size.0 as nat,
                h: size.1 as nat,
                kind,
                data: D::fill(0, grid_cells(size), kind.channels()),
            }),
            is_product(m@.cells(), size.0 as nat, size.1 as nat),
            m@.shaped(),
    {
        let (chan, data) = kind.kind::<D>(size);
        proof {
            lemma_is_product(size.0 as nat, size.1 as nat);
        }
        Mat { w: size.0, h: size.1, chan, kind, data }
    }

    /// A matrix in which every pixel holds `color`. It shows, at every
    /// pixel, what a cell keeps of the colour.
    pub fn new_color(size: MatSize, kind: MatMode, color: u32) -> (m: Mat<D>)
        requires
            grid_fits::<D>(size, kind.channels()),
        ensures
            m@ == (MatView {
                w: size.0 as nat,
                h: size.1 as nat,
                kind,
                data: D::fill(color, grid_cells(size), kind.channels()),
            }),
            is_product(m@.cells(), size.0 as nat, size.1 as nat),
            m@.shaped(),
            D::display(m@.data, kind.channels()) == Seq::new(
                m@.cells(),
                |i: int| D::visible(color, kind.channels()),
            ),
    {
        let (chan, data) = kind.kind_color::<D>(size, color);
        proof {
            lemma_is_product(size.0 as nat, size.1 as nat);
            D::lemma_fill_len(color, grid_cells(size), kind.channels());
            D::lemma_fill_then_display(color, grid_cells(size), kind.channels());
        }
        Mat { w: size.0, h: size.1, chan, kind, data }
    }

    /// A matrix of the given size and layout over `data`.
    ///
    /// The buffer must hold exactly the cells of the grid, else the result
    /// is `ShapeMismatch`.
    pub fn from_buffer(size: MatSize, kind: MatMode, data: Vec<D>) -> (r: Result<Mat<D>, MatError>)
        ensures
            r is Ok <==> data@.len() == D::buffer_len(grid_cells(size), kind.channels()),
            is_product(grid_cells(size), size.0 as nat, size.1 as nat),
            r matches Ok(m) ==> m@ == (MatView {
                w: size.0 as nat,
                h: size.1 as nat,
                kind,
                data: data@,
            }) && is_product(m@.cells(), size.0 as nat, size.1 as nat) && m@.shaped(),
            r matches Err(e) ==> e == MatError::ShapeMismatch,
    {
        proof {
            lemma_is_product(size.0 as nat, size.1 as nat);
        }
        let chan = kind.chan();
        let k = D::stride(chan);
        let len = data.len();
        let expected = match size.0.checked_mul(size.1) {
            Some(cells) => cells.checked_mul(k),
            None => None,
        };
        proof {
            D::lemma_buffer_len(grid_cells(size), chan as nat);
            if size.0 * size.1 > usize::MAX {
                lemma_product_grows(size.0 * size.1, k as int);
            }
        }
        let fits = match expected {
            Some(expected) => expected == len,
            None => false,
        };
        if fits {
            proof {
                lemma_is_product(size.0 as nat, size.1 as nat);
            }
            Ok(Mat { w: size.0, h: size.1, chan, kind, data })
        } else {
            Err(MatError::ShapeMismatch)
        }
    }

    /// A matrix of the given width over `data`; the height is what the
    /// buffer gives.
    ///
    /// The buffer must hold whole cells, and the cells must make whole rows
    /// of `width` cells, else the result is `ShapeMismatch`. A width of zero
    /// is refused.
    pub fn from_buffer_infer_width(data: Vec<D>, width: usize, kind: MatMode) -> (r: Result<
        Mat<D>,
        MatError,
    >)
        ensures
            r is Ok <==> whole_lines::<D>(data@.len(), width as nat, kind),
            r matches Ok(m) ==> m@ == (MatView {
                w: width as nat,
                h: D::cells(data@.len(), kind.channels()) / (width as nat),
                kind,
                data: data@,
            }) && m@.cells() == D::cells(data@.len(), kind.channels()) && m@.shaped(),
            r matches Err(e) ==> e == MatError::ShapeMismatch,
    {
        let chan = kind.chan();
        match lines::<D>(data.len(), width, chan) {
            Some(height) => Ok(Mat { w: width, h: height, chan, kind, data }),
            None => Err(MatError::ShapeMismatch),
        }
    }

    /// A matrix of the given height over `data`; the width is what the
    /// buffer gives.
    ///
    /// The buffer must hold whole cells, and the cells must make whole
    /// columns of `height` cells, else the result is `ShapeMismatch`. A
    /// height of zero is refused.
    pub fn from_buffer_infer_height(data: Vec<D>, height: usize, kind: MatMode) -> (r: Result<
        Mat<D>,
        MatError,
    >)
        ensures
            r is Ok <==> whole_lines::<D>(data@.len(), height as nat, kind),
            r matches Ok(m) ==> m@ == (MatView {
                w: D::cells(data@.len(), kind.channels()) / (height as nat),
                h: height as nat,
                kind,
                data: data@,
            }) && m@.cells() == D::cells(data@.len(), kind.channels()) && m@.shaped(),
            r matches Err(e) ==> e == MatError::ShapeMismatch,
    {
        let chan = kind.chan();
        match lines::<D>(data.len(), height, chan) {
            Some(width) => {
                proof {
                    assert(width * height == height * width) by (nonlinear_arith);
                }
                Ok(Mat { w: width, h: height, chan, kind, data })
            },
            None => Err(MatError::ShapeMismatch),
        }
    }

    /// Width and height.
    pub fn size(&self) -> (size: MatSize)
        ensures
            size.0 == self@.w,
            size.1 == self@.h,
    {
        (self.w, self.h)
    }

    /// The channel count, which the layout fixes.
    pub fn chan(&self) -> (n: usize)
        ensures
            n == self@.kind.channels(),
    {
        proof {
            use_type_invariant(self);
        }
        self.chan
    }

    /// The width.
    pub fn w(&self) -> (w: usize)
        ensures
            w == self@.w,
    {
        self.w
    }

    /// The height.
    pub fn h(&self) -> (h: usize)
        ensures
            h == self@.h,
    {
        self.h
    }

    /// The layout.
    pub fn kind(&self) -> (kind: &MatMode)
        ensures
            *kind == self@.kind,
    {
        &self.kind
    }

    /// The buffer. Its length agrees with the shape of the matrix.
    pub fn data(&self) -> (data: &Vec<D>)
        ensures
            data@ == self@.data,
            data@.len() == self@.buffer_len(),
    {
        proof {
            use_type_invariant(self);
        }
        &self.data
    }

    /// The display words of the matrix, one ARGB word per pixel, row by row.
    pub fn display_buffer(&self) -> (words: Vec<u32>)
        ensures
            words@ == D::display(self@.data, self@.kind.channels()),
            words@.len() == self@.cells(),
    {
        proof {
            use_type_invariant(self);
            let cells = self@.w * self@.h;
            let chan = self@.kind.channels();
            D::lemma_buffer_len(cells, chan);
            D::lemma_cells(self@.data.len(), chan);
            D::lemma_display_len(self@.data, cells, chan);
            lemma_cells_divide(cells as int, D::buffer_len(1, chan) as int);
        }
        D::buffer(&self.data, self.chan)
    }

    /// Puts `data` in the place of the buffer, if it has the length of the
    /// buffer. The shape and the layout stay as they are. A buffer of
    /// another length is refused and the matrix is left unchanged.
    pub fn replace_data(&mut self, data: Vec<D>) -> (r: Result<(), MatError>)
        ensures
            r is Ok <==> data@.len() == old(self)@.data.len(),
            r is Ok ==> final(self)@ == (MatView { data: data@, ..old(self)@ }),
            r is Err ==> r == Err::<(), MatError>(MatError::ShapeMismatch) && *final(self) == *old(
                self,
            ),
    {
        proof {
            use_type_invariant(&*self);
        }
        if data.len() != self.data.len() {
            return Err(MatError::ShapeMismatch);
        }
        self.data = data;
        Ok(())
    }
}

impl<D: DataKind> Clone for Mat<D> {
    /// A matrix of the same shape and layout, over clones of the elements.
    fn clone(&self) -> (m: Self)
        ensures
            m@.w == self@.w,
            m@.h == self@.h,
            m@.kind == self@.kind,
            m@.data.len() == self@.data.len(),
            forall|i: int| 0 <= i < self@.data.len() ==> cloned(self@.data[i], #[trigger] m@.data[i]),
    {
        proof {
            use_type_invariant(self);
        }
        Mat { w: self.w, h: self.h, chan: self.chan, kind: self.kind, data: self.data.clone() }
    }
}

impl<D: DataKind> Default for Mat<D> {
    /// The empty matrix: no pixels, in the layout of three byte channels.
    fn default() -> (m: Mat<D>)
        ensures
            m@ == (MatView { w: 0, h: 0, kind: MatMode::U8C3, data: Seq::<D>::empty() }),
    {
        let (w, h): (usize, usize) = (0, 0);
        proof {
            D::lemma_buffer_len(0, 3);
            assert(0 * D::buffer_len(1, 3) == 0) by (nonlinear_arith);
            assert((w as nat) * (h as nat) == 0);
        }
        Mat { w, h, chan: 3, kind: MatMode::U8C3, data: Vec::new() }
    }
}

impl Mat<u8> {
    /// A matrix of `w` by `h` empty pixels of three byte channels.
    pub fn new_with_size(w: usize, h: usize) -> (m: Mat<u8>)
        requires
            grid_fits::<u8>((w, h), 3),
        ensures
            m@ == (MatView {
                w: w as nat,
                h: h as nat,
                kind: MatMode::U8C3,
                data: Seq::new((3 * (w * h)) as nat, |i: int| 0u8),
            }),
    {
        proof {
            lemma_zero_bytes((w * h) as nat, 3);
        }
        Mat::<u8>::new((w, h), MatMode::U8C3)
    }
}

/// Whether a buffer of `len` elements holds whole cells that make whole
/// lines of `across` cells each.
pub open spec fn whole_lines<D: DataKind>(len: nat, across: nat, kind: MatMode) -> bool {
    &&& across > 0
    &&& D::buffer_len(D::cells(len, kind.channels()), kind.channels()) == len
    &&& D::cells(len, kind.channels()) % across == 0
}

/// How many lines of `across` cells a buffer of `len` elements holds, if it
/// holds whole lines.
fn lines<D: DataKind>(len: usize, across: usize, chan: usize) -> (r: Option<usize>)
    requires
        1 <= chan <= 4,
    ensures
        r is Some <==> across > 0 && D::buffer_len(D::cells(len as nat, chan as nat), chan as nat)
            == len && D::cells(len as nat, chan as nat) % (across as nat) == 0,
        r matches Some(n) ==> n == D::cells(len as nat, chan as nat) / (across as nat) && across
            * n == D::cells(len as nat, chan as nat) && D::buffer_len(
            (across * n) as nat,
            chan as nat,
        ) == len,
{
    let k = D::stride(chan);
    proof {
        D::lemma_buffer_len(D::cells(len as nat, chan as nat), chan as nat);
        D::lemma_cells(len as nat, chan as nat);
        lemma_whole(len as int, k as int);
    }
    if across == 0 || len % k != 0 {
        return None;
    }
    let cells = len / k;
    if cells % across != 0 {
        return None;
    }
    proof {
        lemma_whole(cells as int, across as int);
    }
    Some(cells / across)
}

/// A number is a multiple of `k` exactly when `k` times the quotient gives
/// it back.
proof fn lemma_whole(n: int, k: int)
    by (nonlinear_arith)
    requires
        0 <= n,
        0 < k,
    ensures
        n % k == 0 <==> (n / k) * k == n,
        n % k == 0 <==> k * (n / k) == n,
{
}

/// A product of a number above the machine limit and a positive factor is
/// above it too.
proof fn lemma_product_grows(cells: int, k: int)
    by (nonlinear_arith)
    requires
        cells > usize::MAX,
        k > 0,
    ensures
        cells * k > usize::MAX,
{
}

/// A buffer of whole cells divides by the length of a cell.
proof fn lemma_cells_divide(cells: int, k: int)
    by (nonlinear_arith)
    requires
        0 <= cells,
        0 < k,
    ensures
        (cells * k) / k == cells,
{
}

} // verus!
