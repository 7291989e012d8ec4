//! Spatial subsampling: walks an image at a column stride and a row stride and
//! yields one sample per visited pixel, numbered densely in its own grid.

use vstd::prelude::*;
use vstd::arithmetic::div_mod::*;
use vstd::arithmetic::mul::*;
use crate::error::Failure;
use crate::raster::{Raster, Rgba};

verus! {

/// One sample: its place in the output grid and the summed intensity of the
/// image pixel it was taken from.
#[derive(Clone, Copy, Debug, PartialEq, Eq, Structural)]
pub struct Sample {
    /// Column in the output grid.
    pub x: u32,
    /// Row in the output grid.
    pub y: u32,
    /// Red plus green plus blue of the source pixel; alpha is ignored.
    pub value: u16,
}

/// Red plus green plus blue of a pixel.
pub open spec fn intensity(p: Rgba) -> int {
    p.red + p.green + p.blue
}

/// Red plus green plus blue of a pixel, between 0 and 765.
pub fn summed_intensity(p: Rgba) -> (v: u16)
    ensures
        v == intensity(p),
        v <= 765,
{
    p.red as u16 + p.green as u16 + p.blue as u16
}

/// `a / b` rounded up: how many multiples of `b`, counted from 0, lie below `a`.
pub open spec fn ceil_div(a: int, b: int) -> int {
    (a + b - 1) / b
}

/// The sample at column `col`, row `row` of the output grid: the pixel at
/// `(col * stride_x, row * stride_y)` of the image.
pub open spec fn sample_at(img: Raster, stride_x: int, stride_y: int, col: int, row: int) -> Sample {
    Sample {
        x: col as u32,
        y: row as u32,
        value: intensity(img.spec_pixel(col * stride_x, row * stride_y)) as u16,
    }
}

/// Row `row` of the output grid.
pub open spec fn sampled_row(img: Raster, stride_x: int, stride_y: int, row: int) -> Seq<Sample> {
    Seq::new(
        ceil_div(img.spec_width() as int, stride_x) as nat,
        |col: int| sample_at(img, stride_x, stride_y, col, row),
    )
}

/// The whole output grid, row by row.
pub open spec fn sampled_grid(img: Raster, stride_x: int, stride_y: int) -> Seq<Seq<Sample>> {
    Seq::new(
        ceil_div(img.spec_height() as int, stride_y) as nat,
        |row: int| sampled_row(img, stride_x, stride_y, row),
    )
}

/// For `a >= 1`, rounding `a / b` up is one more than `(a - 1) / b`; for
/// `a == 0` it is 0. Either way it is at most `a`.
pub proof fn lemma_ceil_div(a: int, b: int)
    requires
        0 <= a,
        1 <= b,
    ensures
        a == 0 ==> ceil_div(a, b) == 0,
        a >= 1 ==> ceil_div(a, b) == (a - 1) / b + 1,
        0 <= ceil_div(a, b) <= a,
        a >= 1 ==> ceil_div(a, b) >= 1,
{
    if a == 0 {
        lemma_div_basics(b);
        assert((b - 1) / b == 0) by {
            lemma_basic_div(b - 1, b);
        }
    } else {
        lemma_div_plus_one(a - 1, b);
        assert(b + (a - 1) == a + b - 1);
        lemma_div_pos_is_pos(a - 1, b);
        assert((a - 1) / b <= a - 1) by {
            lemma_div_is_ordered_by_denominator(a - 1, 1, b);
            lemma_div_basics(a - 1);
        }
    }
}

/// Every column below `ceil_div(a, b)` starts at a source position below `a`.
pub proof fn lemma_stride_in_bounds(a: int, b: int, i: int)
    requires
        0 <= a,
        1 <= b,
        0 <= i < ceil_div(a, b),
    ensures
        0 <= i * b < a,
{
    lemma_ceil_div(a, b);
    lemma_fundamental_div_mod(a - 1, b);
    lemma_mod_bound(a - 1, b);
    lemma_mul_inequality(i, (a - 1) / b, b);
    lemma_mul_is_commutative(b, (a - 1) / b);
    lemma_mul_nonnegative(i, b);
}

/// `a / b` rounded up.
fn ceil_quotient(a: u32, b: u128) -> (q: u32)
    requires
        b >= 1,
    ensures
        q == ceil_div(a as int, b as int),
{
    proof {
        lemma_ceil_div(a as int, b as int);
    }
    if a == 0 {
        0
    } else {
        let below: u128 = (a - 1) as u128 / b;
        (below + 1) as u32
    }
}

/// The subsampling stage: a column stride and a row stride, both at least 1.
#[derive(Clone, Copy, Debug, PartialEq, Eq)]
pub struct Sampler {
    stride_x: u128,
    stride_y: u128,
}

impl Sampler {
    #[verifier::type_invariant]
    spec fn strides_are_positive(self) -> bool {
        self.stride_x >= 1 && self.stride_y >= 1
    }

    /// Source pixels per output column.
    pub closed spec fn spec_stride_x(&self) -> int {
        self.stride_x as int
    }

    /// Source pixels per output row.
    pub closed spec fn spec_stride_y(&self) -> int {
        self.stride_y as int
    }

    /// How many columns the output grid of `img` has.
    pub open spec fn spec_columns(&self, img: &Raster) -> int {
        ceil_div(img.spec_width() as int, self.spec_stride_x())
    }

    /// How many rows the output grid of `img` has.
    pub open spec fn spec_rows(&self, img: &Raster) -> int {
        ceil_div(img.spec_height() as int, self.spec_stride_y())
    }

    /// The output grid of `img`.
    pub open spec fn spec_grid(&self, img: &Raster) -> Seq<Seq<Sample>> {
        sampled_grid(*img, self.spec_stride_x(), self.spec_stride_y())
    }

    /// A sampler with the given strides. A stride of zero is refused: it would
    /// never advance.
    pub fn new(stride_x: u128, stride_y: u128) -> (r: Option<Sampler>)
        ensures
            r is Some <==> stride_x >= 1 && stride_y >= 1,
            r is Some ==> r->0.spec_stride_x() == stride_x && r->0.spec_stride_y() == stride_y,
    {
        if stride_x >= 1 && stride_y >= 1 {
            Some(Sampler { stride_x, stride_y })
        } else {
            None
        }
    }

    /// The sampler of a display scale: `scale` source pixels per column and
    /// twice as many per row, since a terminal cell is about twice as tall as
    /// it is wide. Every scale of at least 1 has one; a scale of zero is a
    /// configuration error.
    pub fn from_scale(scale: usize) -> (r: Result<Sampler, Failure>)
        ensures
            scale >= 1 ==> r is Ok && r->Ok_0.spec_stride_x() == scale && r->Ok_0.spec_stride_y()
                == 2 * scale,
            scale == 0 ==> (r matches Err(Failure::InvalidScale(t)) && t@ == seq!['0']),
    {
        if scale >= 1 {
            Ok(Sampler { stride_x: scale as u128, stride_y: 2 * (scale as u128) })
        } else {
            let t = String::from_str("0");
            proof {
                reveal_strlit("0");
                assert(t@ =~= seq!['0']);
            }
            Err(Failure::InvalidScale(t))
        }
    }

    /// Source pixels per output column.
    pub fn stride_x(&self) -> (s: u128)
        ensures
            s == self.spec_stride_x(),
            s >= 1,
    {
        proof {
            use_type_invariant(self);
        }
        self.stride_x
    }

    /// Source pixels per output row.
    pub fn stride_y(&self) -> (s: u128)
        ensures
            s == self.spec_stride_y(),
            s >= 1,
    {
        proof {
            use_type_invariant(self);
        }
        self.stride_y
    }

    /// How many columns the output grid of `img` has: its width over the
    /// column stride, rounded up.
    pub fn columns(&self, img: &Raster) -> (n: u32)
        ensures
            n == self.spec_columns(img),
    {
        proof {
            use_type_invariant(self);
        }
        ceil_quotient(img.width(), self.stride_x)
    }

    /// How many rows the output grid of `img` has: its height over the row
    /// stride, rounded up.
    pub fn rows(&self, img: &Raster) -> (n: u32)
        ensures
            n == self.spec_rows(img),
    {
        proof {
            use_type_invariant(self);
        }
        ceil_quotient(img.height(), self.stride_y)
    }

    /// The sample at column `col`, row `row` of the output grid.
    pub fn sample(&self, img: &Raster, col: u32, row: u32) -> (s: Sample)
        requires
            col < self.spec_columns(img),
            row < self.spec_rows(img),
        ensures
            s == sample_at(*img, self.spec_stride_x(), self.spec_stride_y(), col as int, row as int),
            s == self.spec_grid(img)[row as int][col as int],
            s.x == col,
            s.y == row,
    {
        proof {
            use_type_invariant(self);
            lemma_stride_in_bounds(img.spec_width() as int, self.stride_x as int, col as int);
            lemma_stride_in_bounds(img.spec_height() as int, self.stride_y as int, row as int);
        }
        let width: u32 = img.width();
        let height: u32 = img.height();
        let source_x: u128 = col as u128 * self.stride_x;
        let source_y: u128 = row as u128 * self.stride_y;
        let pixel = img.pixel(source_x as u32, source_y as u32);
        Sample { x: col, y: row, value: summed_intensity(pixel) }
    }

    /// Row `row` of the output grid, left to right.
    pub fn row(&self, img: &Raster, row: u32) -> (samples: Vec<Sample>)
        requires
            row < self.spec_rows(img),
        ensures
            samples@ == self.spec_grid(img)[row as int],
            samples@.len() == self.spec_columns(img),
    {
        let columns: u32 = self.columns(img);
        let mut samples: Vec<Sample> = Vec::new();
        let mut col: u32 = 0;
        while col < columns
            invariant
                col <= columns,
                columns == self.spec_columns(img),
                row < self.spec_rows(img),
                samples@.len() == col,
                forall|i: int|
                    0 <= i < col ==> samples@[i] == sample_at(
                        *img,
                        self.spec_stride_x(),
                        self.spec_stride_y(),
                        i,
                        row as int,
                    ),
            decreases columns - col,
        {
            let s = self.sample(img, col, row);
            samples.push(s);
            col = col + 1;
        }
        assert(samples@ =~= self.spec_grid(img)[row as int]);
        samples
    }

    /// The whole output grid, top to bottom.
    pub fn grid(&self, img: &Raster) -> (rows: Vec<Vec<Sample>>)
        ensures
            rows@.len() == self.spec_rows(img),
            forall|i: int| 0 <= i < rows@.len() ==> (#[trigger] rows@[i])@ == self.spec_grid(img)[i],
    {
        let count: u32 = self.rows(img);
        let mut rows: Vec<Vec<Sample>> = Vec::new();
        let mut row: u32 = 0;
        while row < count
            invariant
                row <= count,
                count == self.spec_rows(img),
                rows@.len() == row,
                forall|i: int| 0 <= i < row ==> (#[trigger] rows@[i])@ == self.spec_grid(img)[i],
            decreases count - row,
        {
            let samples = self.row(img, row);
            rows.push(samples);
            row = row + 1;
        }
        rows
    }
}

/// The output grid is dense: it has `ceil(height / stride_y)` rows, each of
/// `ceil(width / stride_x)` samples, and the sample at row `r`, column `c`
/// carries exactly the coordinates `(c, r)`, whatever the strides.
pub proof fn lemma_grid_is_dense(img: Raster, stride_x: int, stride_y: int)
    requires
        stride_x >= 1,
        stride_y >= 1,
        img.spec_width() <= u32::MAX,
        img.spec_height() <= u32::MAX,
    ensures
        sampled_grid(img, stride_x, stride_y).len() == ceil_div(img.spec_height() as int, stride_y),
        forall|r: int|
            0 <= r < ceil_div(img.spec_height() as int, stride_y) ==> (#[trigger] sampled_grid(
                img,
                stride_x,
                stride_y,
            )[r]).len() == ceil_div(img.spec_width() as int, stride_x),
        forall|r: int, c: int|
            0 <= r < ceil_div(img.spec_height() as int, stride_y) && 0 <= c < ceil_div(
                img.spec_width() as int,
                stride_x,
            ) ==> {
                &&& (#[trigger] sampled_grid(img, stride_x, stride_y)[r][c]).x == c
                &&& sampled_grid(img, stride_x, stride_y)[r][c].y == r
                &&& sampled_grid(img, stride_x, stride_y)[r][c].value == intensity(
                    img.spec_pixel(c * stride_x, r * stride_y),
                )
            },
{
    lemma_ceil_div(img.spec_width() as int, stride_x);
    lemma_ceil_div(img.spec_height() as int, stride_y);
}

} // verus!
