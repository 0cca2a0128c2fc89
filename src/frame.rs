//! The frame buffer: rows of 8-bit RGB pixels, filled independently and read
//! out top row first.
//!
//! Output row `row` is camera row `height - 1 - row`: the camera's `v`
//! coordinate grows upwards while the image is written from the top.
use vstd::prelude::*;

verus! {

/// A row of `width` black pixels, three bytes each.
pub fn blank_row(width: usize) -> (row: Vec<u8>)
    requires
        3 * width <= usize::MAX,
    ensures
        row@.len() == 3 * width,
        forall|k: int| 0 <= k < row@.len() ==> row@[k] == 0,
{
    let n: usize = 3 * width;
    let mut row: Vec<u8> = Vec::with_capacity(n);
    let mut k: usize = 0;
    while k < n
        invariant
            k <= n,
            row@.len() == k,
            forall|j: int| 0 <= j < k ==> row@[j] == 0,
        decreases n - k,
    {
        row.push(0);
        k = k + 1;
    }
    row
}

/// A `width` by `height` image whose rows are written independently.
pub struct Frame {
    width: usize,
    height: usize,
    rows: Vec<Vec<u8>>,
}

impl View for Frame {
    /// The rows, top row first, three bytes per pixel.
    type V = Seq<Seq<u8>>;

    closed spec fn view(&self) -> Seq<Seq<u8>> {
        self.rows@.map_values(|r: Vec<u8>| r@)
    }
}

impl Frame {
    /// The number of pixels in a row.
    pub closed spec fn spec_width(&self) -> nat {
        self.width as nat
    }

    /// The number of rows.
    pub closed spec fn spec_height(&self) -> nat {
        self.height as nat
    }

    /// There are `height` rows of `3 * width` bytes each, and the whole image
    /// fits in memory as one byte sequence.
    pub closed spec fn wf(&self) -> bool {
        &&& 3 * self.width <= usize::MAX
        &&& 3 * self.width * self.height <= usize::MAX
        &&& self.rows@.len() == self.height
        &&& forall|r: int| 0 <= r < self.height ==> (#[trigger] self.rows@[r])@.len() == 3 * self.width
    }

    /// An all-black image of `width` by `height` pixels.
    pub fn new(width: usize, height: usize) -> (f: Frame)
        requires
            3 * width <= usize::MAX,
            3 * width * height <= usize::MAX,
        ensures
            f.wf(),
            f.spec_width() == width,
            f.spec_height() == height,
            f@.len() == height,
            forall|r: int, k: int| 0 <= r < height && 0 <= k < 3 * width ==> #[trigger] f@[r][k] == 0,
    {
        let mut rows: Vec<Vec<u8>> = Vec::with_capacity(height);
        let mut r: usize = 0;
        while r < height
            invariant
                r <= height,
                3 * width <= usize::MAX,
                rows@.len() == r,
                forall|j: int| 0 <= j < r ==> (#[trigger] rows@[j])@.len() == 3 * width,
                forall|j: int, k: int| 0 <= j < r && 0 <= k < 3 * width ==> #[trigger] rows@[j]@[k] == 0,
            decreases height - r,
        {
            rows.push(blank_row(width));
            r = r + 1;
        }
        Frame { width, height, rows }
    }

    /// The number of pixels in a row.
    pub fn width(&self) -> (w: usize)
        ensures
            w == self.spec_width(),
    {
        self.width
    }

    /// The number of rows.
    pub fn height(&self) -> (h: usize)
        ensures
            h == self.spec_height(),
    {
        self.height
    }

    /// The camera row (counted from the bottom) that output row `row`
    /// (counted from the top) shows.
    pub fn camera_row(&self, row: usize) -> (j: usize)
        requires
            row < self.spec_height(),
        ensures
            j == self.spec_height() - 1 - row,
    {
        self.height - 1 - row
    }

    /// Stores the finished output row `row`.
    pub fn set_row(&mut self, row: usize, data: Vec<u8>)
        requires
            old(self).wf(),
            row < old(self).spec_height(),
            data@.len() == 3 * old(self).spec_width(),
        ensures
            final(self).wf(),
            final(self).spec_width() == old(self).spec_width(),
            final(self).spec_height() == old(self).spec_height(),
            final(self)@ == old(self)@.update(row as int, data@),
    {
        self.rows.set(row, data);
        assert(self@ =~= old(self)@.update(row as int, data@));
    }

    /// The image as one byte sequence: rows top first, pixels left to right,
    /// red, green and blue bytes.
    pub fn to_bytes(&self) -> (out: Vec<u8>)
        requires
            self.wf(),
        ensures
            out@.len() == 3 * self.spec_width() * self.spec_height(),
            forall|r: int, k: int|
                0 <= r < self.spec_height() && 0 <= k < 3 * self.spec_width() ==> out@[r * (3
                    * self.spec_width()) + k] == #[trigger] self@[r][k],
    {
        let n: usize = 3 * self.width;
        let mut out: Vec<u8> = Vec::new();
        let mut r: usize = 0;
        while r < self.height
            invariant
                self.wf(),
                n == 3 * self.width,
                r <= self.height,
                out@.len() == r * n,
                forall|i: int, k: int|
                    0 <= i < r && 0 <= k < n ==> out@[i * n + k] == #[trigger] self@[i][k],
            decreases self.height - r,
        {
            let row = &self.rows[r];
            let mut k: usize = 0;
            while k < n
                invariant
                    self.wf(),
                    n == 3 * self.width,
                    r < self.height,
                    row@ == self@[r as int],
                    row@.len() == n,
                    k <= n,
                    out@.len() == r * n + k,
                    forall|i: int, c: int|
                        0 <= i < r && 0 <= c < n ==> out@[i * n + c] == #[trigger] self@[i][c],
                    forall|c: int| 0 <= c < k ==> out@[r * n + c] == #[trigger] self@[r as int][c],
                decreases n - k,
            {
                proof {
                    assert forall|i: int, c: int| 0 <= i < r && 0 <= c < n implies #[trigger] (i * n + c) < r * n by {
                        lemma_flat_index(i, c, r as int, n as int);
                    }
                }
                out.push(row[k]);
                k = k + 1;
            }
            proof {
                assert((r + 1) * n == r * n + n) by (nonlinear_arith);
            }
            r = r + 1;
        }
        proof {
            assert(r * n == 3 * self.width * self.height) by (nonlinear_arith)
                requires
                    r == self.height,
                    n == 3 * self.width,
            ;
        }
        out
    }
}

/// Rows of `n` bytes laid end to end: byte `c` of row `i` comes before row `r`
/// when `i < r`, and rows start `n` bytes apart.
proof fn lemma_flat_index(i: int, c: int, r: int, n: int)
    by (nonlinear_arith)
    requires
        0 <= i < r,
        0 <= c < n,
    ensures
        i * n + c < r * n,
{
}

} // verus!
