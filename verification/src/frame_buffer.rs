//! The pixel sink: a two-dimensional write/read surface keyed by `(x, y)`
//! with a defined error for out-of-bounds access.
//!
//! The origin is the bottom-left corner and the valid range is
//! `[0, width) x [0, height)`. `FrameBufferTrait` is the storage contract
//! that the rasterizer and camera depend on; `Vec<Colour>` implements it
//! with a row-major layout whose row 0 is the top of the image.

use vstd::prelude::*;

use crate::colour::Colour;

verus! {

/// Error kind for the pixel sink.
#[derive(Clone, Copy, Debug, PartialEq, Eq, Structural)]
pub enum FrameBufError {
    /// The addressed pixel lies outside `[0, width) x [0, height)`.
    PixelOutsideBuf,
    /// Any other storage failure.
    Other,
}

/// The storage contract for a pixel sink of the given dimensions.
///
/// `wf` says the storage really holds `width x height` pixels, and
/// `pixel` is the colour stored at a coordinate. Writes and reads outside
/// the bounds fail with `PixelOutsideBuf` and leave the storage unchanged.
pub trait FrameBufferTrait: Sized {
    /// Does the storage hold exactly `width x height` pixels?
    spec fn wf(&self, width: int, height: int) -> bool;

    /// The colour stored for coordinate `(x, y)`.
    spec fn pixel(&self, width: int, height: int, x: int, y: int) -> Colour;

    /// Writes a colour at `(px_x, px_y)`; out-of-bounds coordinates fail
    /// and change nothing.
    fn write_buf(
        &mut self,
        px_x: usize,
        px_y: usize,
        colour: &Colour,
        width_px: usize,
        height_px: usize,
    ) -> (r: Result<(), FrameBufError>)
        requires
            old(self).wf(width_px as int, height_px as int),
        ensures
            final(self).wf(width_px as int, height_px as int),
            px_x < width_px && px_y < height_px <==> r is Ok,
            !(px_x < width_px && px_y < height_px) ==> r == Err::<(), FrameBufError>(
                FrameBufError::PixelOutsideBuf,
            ),
            forall|i: int, j: int|
                0 <= i < width_px && 0 <= j < height_px ==> final(self).pixel(
                    width_px as int,
                    height_px as int,
                    i,
                    j,
                ) == if i == px_x as int && j == px_y as int {
                    *colour
                } else {
                    old(self).pixel(width_px as int, height_px as int, i, j)
                },
    ;

    /// Reads the colour at `(px_x, px_y)`; out-of-bounds coordinates fail.
    fn read_buf(&self, px_x: usize, px_y: usize, width_px: usize, height_px: usize) -> (r: Result<
        Colour,
        FrameBufError,
    >)
        requires
            self.wf(width_px as int, height_px as int),
        ensures
            px_x < width_px && px_y < height_px ==> r == Ok::<Colour, FrameBufError>(
                self.pixel(width_px as int, height_px as int, px_x as int, px_y as int),
            ),
            !(px_x < width_px && px_y < height_px) ==> r == Err::<Colour, FrameBufError>(
                FrameBufError::PixelOutsideBuf,
            ),
    ;
}

/// Maps a bottom-left-origin pixel coordinate to a row-major storage
/// index whose row 0 is the top row of the image.
pub open spec fn coordinate_index(px_x: int, px_y: int, width_px: int, height_px: int) -> int {
    px_x + (height_px - 1 - px_y) * width_px
}

/// `0 <= x + (h - 1 - y) * w < w * h` for an in-bounds coordinate.
proof fn lemma_index_bound(x: int, y: int, w: int, h: int)
    by (nonlinear_arith)
    requires
        0 <= x < w,
        0 <= y < h,
    ensures
        0 <= x + (h - 1 - y) * w <= w * h - 1,
{
}

/// Distinct in-bounds coordinates map to distinct storage indices.
proof fn lemma_index_injective(x1: int, y1: int, x2: int, y2: int, w: int, h: int)
    by (nonlinear_arith)
    requires
        0 <= x1 < w,
        0 <= y1 < h,
        0 <= x2 < w,
        0 <= y2 < h,
        x1 + (h - 1 - y1) * w == x2 + (h - 1 - y2) * w,
    ensures
        x1 == x2,
        y1 == y2,
{
}

/// Converts a bottom-left-origin pixel coordinate to the storage index of
/// a row-major buffer whose row 0 is the top row; rejects coordinates
/// outside `[0, width) x [0, height)`.
pub fn convert_coordinates(px_x: usize, px_y: usize, width_px: usize, height_px: usize) -> (r:
    Result<usize, FrameBufError>)
    requires
        width_px * height_px <= usize::MAX,
    ensures
        px_x < width_px && px_y < height_px ==> r == Ok::<usize, FrameBufError>(
            coordinate_index(px_x as int, px_y as int, width_px as int, height_px as int) as usize,
        ) && coordinate_index(px_x as int, px_y as int, width_px as int, height_px as int)
            < width_px * height_px,
        !(px_x < width_px && px_y < height_px) ==> r == Err::<usize, FrameBufError>(
            FrameBufError::PixelOutsideBuf,
        ),
{
    if px_x >= width_px || px_y >= height_px {
        return Err(FrameBufError::PixelOutsideBuf);
    }
    proof {
        lemma_index_bound(px_x as int, px_y as int, width_px as int, height_px as int);
    }
    let write_y = height_px - px_y - 1;
    let index = px_x + (write_y * width_px);
    Ok(index)
}

impl FrameBufferTrait for Vec<Colour> {
    open spec fn wf(&self, width: int, height: int) -> bool {
        self@.len() == width * height
    }

    open spec fn pixel(&self, width: int, height: int, x: int, y: int) -> Colour {
        self@[coordinate_index(x, y, width, height)]
    }

    fn write_buf(
        &mut self,
        px_x: usize,
        px_y: usize,
        colour: &Colour,
        width_px: usize,
        height_px: usize,
    ) -> (r: Result<(), FrameBufError>) {
        // The vector's length is width * height and fits a usize, which
        // the index conversion needs to know.
        let n = self.len();
        assert(n == width_px * height_px);
        let index = match convert_coordinates(px_x, px_y, width_px, height_px) {
            Ok(index) => index,
            Err(e) => {
                return Err(e);
            },
        };
        self[index] = *colour;
        proof {
            assert forall|i: int, j: int| 0 <= i < width_px && 0 <= j < height_px implies self.pixel(
                width_px as int,
                height_px as int,
                i,
                j,
            ) == if i == px_x as int && j == px_y as int {
                *colour
            } else {
                old(self).pixel(width_px as int, height_px as int, i, j)
            } by {
                lemma_index_bound(i, j, width_px as int, height_px as int);
                if i != px_x as int || j != px_y as int {
                    if coordinate_index(i, j, width_px as int, height_px as int) == index as int {
                        lemma_index_injective(
                            i,
                            j,
                            px_x as int,
                            px_y as int,
                            width_px as int,
                            height_px as int,
                        );
                    }
                }
            }
        }
        Ok(())
    }

    fn read_buf(&self, px_x: usize, px_y: usize, width_px: usize, height_px: usize) -> (r: Result<
        Colour,
        FrameBufError,
    >) {
        // As in write_buf: the length ties width * height to usize range.
        let n = self.len();
        assert(n == width_px * height_px);
        let index = match convert_coordinates(px_x, px_y, width_px, height_px) {
            Ok(index) => index,
            Err(e) => {
                return Err(e);
            },
        };
        Ok(self[index])
    }
}

/// A pixel sink of fixed dimensions over any storage that meets the
/// `FrameBufferTrait` contract.
pub struct FrameBuffer<T: FrameBufferTrait> {
    pub width_px: usize,
    pub height_px: usize,
    pub buf: T,
}

impl<T: FrameBufferTrait> FrameBuffer<T> {
    /// Does the storage match the declared dimensions?
    pub open spec fn wf(&self) -> bool {
        self.buf.wf(self.width_px as int, self.height_px as int)
    }

    /// The colour stored for coordinate `(x, y)`.
    pub open spec fn pixel(&self, x: int, y: int) -> Colour {
        self.buf.pixel(self.width_px as int, self.height_px as int, x, y)
    }

    /// Wraps a storage of the given dimensions.
    pub fn new(width_px: usize, height_px: usize, buf: T) -> (r: FrameBuffer<T>)
        requires
            buf.wf(width_px as int, height_px as int),
        ensures
            r == (FrameBuffer { width_px, height_px, buf }),
            r.wf(),
    {
        FrameBuffer { width_px, height_px, buf }
    }

    /// Writes a colour at `(px_x, px_y)`; out-of-bounds coordinates fail
    /// with `PixelOutsideBuf` and change nothing.
    pub fn write_buf(&mut self, px_x: usize, px_y: usize, colour: &Colour) -> (r: Result<
        (),
        FrameBufError,
    >)
        requires
            old(self).wf(),
        ensures
            final(self).wf(),
            final(self).width_px == old(self).width_px,
            final(self).height_px == old(self).height_px,
            px_x < old(self).width_px && px_y < old(self).height_px <==> r is Ok,
            !(px_x < old(self).width_px && px_y < old(self).height_px) ==> r == Err::<
                (),
                FrameBufError,
            >(FrameBufError::PixelOutsideBuf),
            forall|i: int, j: int|
                0 <= i < old(self).width_px && 0 <= j < old(self).height_px ==> final(self).pixel(
                    i,
                    j,
                ) == if i == px_x as int && j == px_y as int {
                    *colour
                } else {
                    old(self).pixel(i, j)
                },
    {
        self.buf.write_buf(px_x, px_y, colour, self.width_px, self.height_px)
    }

    /// Reads the colour at `(px_x, px_y)`; out-of-bounds coordinates fail
    /// with `PixelOutsideBuf`.
    pub fn read_buf(&self, px_x: usize, px_y: usize) -> (r: Result<Colour, FrameBufError>)
        requires
            self.wf(),
        ensures
            px_x < self.width_px && px_y < self.height_px ==> r == Ok::<Colour, FrameBufError>(
                self.pixel(px_x as int, px_y as int),
            ),
            !(px_x < self.width_px && px_y < self.height_px) ==> r == Err::<Colour, FrameBufError>(
                FrameBufError::PixelOutsideBuf,
            ),
    {
        self.buf.read_buf(px_x, px_y, self.width_px, self.height_px)
    }

    /// Overwrites every pixel with the blank colour.
    pub fn clear_buf(&mut self)
        requires
            old(self).wf(),
        ensures
            final(self).wf(),
            final(self).width_px == old(self).width_px,
            final(self).height_px == old(self).height_px,
            forall|i: int, j: int|
                0 <= i < old(self).width_px && 0 <= j < old(self).height_px ==> final(self).pixel(
                    i,
                    j,
                ) == (Colour { red: 0, green: 0, blue: 0, alpha: 0 }),
    {
        let blank = Colour::new();
        let width = self.width_px;
        let height = self.height_px;
        let mut x: usize = 0;
        while x < width
            invariant
                x <= width,
                blank == (Colour { red: 0, green: 0, blue: 0, alpha: 0 }),
                self.wf(),
                self.width_px == width,
                self.height_px == height,
                forall|i: int, j: int|
                    0 <= i < x && 0 <= j < height ==> self.pixel(i, j) == (Colour {
                        red: 0,
                        green: 0,
                        blue: 0,
                        alpha: 0,
                    }),
            decreases width - x,
        {
            let mut y: usize = 0;
            while y < height
                invariant
                    x < width,
                    y <= height,
                    blank == (Colour { red: 0, green: 0, blue: 0, alpha: 0 }),
                    self.wf(),
                    self.width_px == width,
                    self.height_px == height,
                    forall|i: int, j: int|
                        0 <= i < x && 0 <= j < height ==> self.pixel(i, j) == (Colour {
                            red: 0,
                            green: 0,
                            blue: 0,
                            alpha: 0,
                        }),
                    forall|j: int|
                        0 <= j < y ==> self.pixel(x as int, j) == (Colour {
                            red: 0,
                            green: 0,
                            blue: 0,
                            alpha: 0,
                        }),
                decreases height - y,
            {
                let ghost prev = *self;
                let _ = self.write_buf(x, y, &blank);
                proof {
                    assert forall|j: int| 0 <= j <= y implies self.pixel(x as int, j) == (Colour {
                        red: 0,
                        green: 0,
                        blue: 0,
                        alpha: 0,
                    }) by {
                        assert(self.pixel(x as int, j) == if j == y as int {
                            blank
                        } else {
                            prev.pixel(x as int, j)
                        });
                    }
                }
                y = y + 1;
            }
            x = x + 1;
        }
    }

    /// Writes the contents of this sink into `scaled_frame_buf`, magnified
    /// by `scale_factor`: every source pixel becomes a square block of
    /// `scale_factor x scale_factor` pixels. Pixels of the target that no
    /// block reaches keep their old colour.
    pub fn scale(&self, scaled_frame_buf: &mut FrameBuffer<T>, scale_factor: usize) -> (r: Result<
        (),
        FrameBufError,
    >)
        requires
            self.wf(),
            old(scaled_frame_buf).wf(),
            scale_factor >= 1,
            self.width_px * scale_factor <= usize::MAX,
            self.height_px * scale_factor <= usize::MAX,
        ensures
            r is Ok,
            final(scaled_frame_buf).wf(),
            final(scaled_frame_buf).width_px == old(scaled_frame_buf).width_px,
            final(scaled_frame_buf).height_px == old(scaled_frame_buf).height_px,
            forall|i: int, j: int|
                0 <= i < old(scaled_frame_buf).width_px && 0 <= j < old(
                    scaled_frame_buf,
                ).height_px ==> final(scaled_frame_buf).pixel(i, j) == if (i < self.width_px * scale_factor && j < self.height_px * scale_factor) {
                    self.pixel(i / (scale_factor as int), j / (scale_factor as int))
                } else {
                    old(scaled_frame_buf).pixel(i, j)
                },
    {
        let width = self.width_px;
        let height = self.height_px;
        let f = scale_factor;
        let mut x_small: usize = 0;
        while x_small < width
            invariant
                x_small <= width,
                self.wf(),
                scaled_frame_buf.wf(),
                scaled_frame_buf.width_px == old(scaled_frame_buf).width_px,
                scaled_frame_buf.height_px == old(scaled_frame_buf).height_px,
                width == self.width_px,
                height == self.height_px,
                f == scale_factor,
                f >= 1,
                width * f <= usize::MAX,
                height * f <= usize::MAX,
                forall|i: int, j: int|
                    0 <= i < old(scaled_frame_buf).width_px && 0 <= j < old(
                        scaled_frame_buf,
                    ).height_px ==> scaled_frame_buf.pixel(i, j) == if (i < width * f && j < height
                        * f && i / (f as int) < x_small) {
                        self.pixel(i / (f as int), j / (f as int))
                    } else {
                        old(scaled_frame_buf).pixel(i, j)
                    },
            decreases width - x_small,
        {
            let mut y_small: usize = 0;
            while y_small < height
                invariant
                    x_small < width,
                    y_small <= height,
                    self.wf(),
                    scaled_frame_buf.wf(),
                    scaled_frame_buf.width_px == old(scaled_frame_buf).width_px,
                    scaled_frame_buf.height_px == old(scaled_frame_buf).height_px,
                    width == self.width_px,
                    height == self.height_px,
                    f == scale_factor,
                    f >= 1,
                    width * f <= usize::MAX,
                    height * f <= usize::MAX,
                    forall|i: int, j: int|
                        0 <= i < old(scaled_frame_buf).width_px && 0 <= j < old(
                            scaled_frame_buf,
                        ).height_px ==> scaled_frame_buf.pixel(i, j) == if (i < width * f && j
                            < height * f && (i / (f as int) < x_small || (i / (f as int) == x_small && j
                            / (f as int) < y_small))) {
                            self.pixel(i / (f as int), j / (f as int))
                        } else {
                            old(scaled_frame_buf).pixel(i, j)
                        },
                decreases height - y_small,
            {
                let colour = match self.read_buf(x_small, y_small) {
                    Ok(colour) => colour,
                    Err(e) => {
                        proof {
                            assert(false);  // the coordinate is in bounds, so reads succeed
                        }
                        return Err(e);
                    },
                };
                proof {
                    lemma_mul_mono_left(x_small + 1, width as int, f as int);
                    lemma_mul_mono_left(y_small + 1, height as int, f as int);
                    assert((x_small + 1) * (f as int) == x_small * (f as int) + f)
                        by (nonlinear_arith);
                    assert((y_small + 1) * (f as int) == y_small * (f as int) + f)
                        by (nonlinear_arith);
                }
                let ghost prev = *scaled_frame_buf;
                scaled_frame_buf.write_square(x_small * f, y_small * f, colour, f);
                proof {
                    assert forall|i: int, j: int|
                        0 <= i < old(scaled_frame_buf).width_px && 0 <= j < old(
                            scaled_frame_buf,
                        ).height_px implies scaled_frame_buf.pixel(i, j) == if (i < width * f && j
                        < height * f && (i / (f as int) < x_small || (i / (f as int) == x_small && j
                        / (f as int) < y_small + 1))) {
                        self.pixel(i / (f as int), j / (f as int))
                    } else {
                        old(scaled_frame_buf).pixel(i, j)
                    } by {
                        lemma_div_block(i, (f as int), x_small as int);
                        lemma_div_block(j, (f as int), y_small as int);
                        assert(scaled_frame_buf.pixel(i, j) == if (x_small * f <= i < x_small * f + f
                            && y_small * f <= j < y_small * f + f) {
                            colour
                        } else {
                            prev.pixel(i, j)
                        });
                    }
                }
                y_small = y_small + 1;
            }
            proof {
                assert forall|i: int, j: int|
                    0 <= i < old(scaled_frame_buf).width_px && 0 <= j < old(
                        scaled_frame_buf,
                    ).height_px implies scaled_frame_buf.pixel(i, j) == if (i < width * f && j
                    < height * f && i / (f as int) < x_small + 1) {
                    self.pixel(i / (f as int), j / (f as int))
                } else {
                    old(scaled_frame_buf).pixel(i, j)
                } by {
                    lemma_div_bound(i, f as int, width as int);
                    lemma_div_bound(j, f as int, height as int);
                }
            }
            x_small = x_small + 1;
        }
        proof {
            assert forall|i: int, j: int|
                0 <= i < old(scaled_frame_buf).width_px && 0 <= j < old(
                    scaled_frame_buf,
                ).height_px implies scaled_frame_buf.pixel(i, j) == if (i < width * f && j < height
                * f) {
                self.pixel(i / (f as int), j / (f as int))
            } else {
                old(scaled_frame_buf).pixel(i, j)
            } by {
                lemma_div_bound(i, f as int, width as int);
                lemma_div_bound(j, f as int, height as int);
            }
        }
        Ok(())
    }

    /// Writes a solid square of the given size whose bottom-left corner is
    /// `(px_x, px_y)`; the parts of the square that fall outside the sink
    /// are skipped.
    fn write_square(&mut self, px_x: usize, px_y: usize, colour: Colour, size: usize)
        requires
            old(self).wf(),
            px_x + size <= usize::MAX,
            px_y + size <= usize::MAX,
        ensures
            final(self).wf(),
            final(self).width_px == old(self).width_px,
            final(self).height_px == old(self).height_px,
            forall|i: int, j: int|
                0 <= i < old(self).width_px && 0 <= j < old(self).height_px ==> final(self).pixel(
                    i,
                    j,
                ) == if (px_x <= i < px_x + size && px_y <= j < px_y + size) {
                    colour
                } else {
                    old(self).pixel(i, j)
                },
    {
        let x_end = px_x + size;
        let y_end = px_y + size;
        let mut x: usize = px_x;
        while x < x_end
            invariant
                px_x <= x <= x_end,
                x_end == px_x + size,
                y_end == px_y + size,
                self.wf(),
                self.width_px == old(self).width_px,
                self.height_px == old(self).height_px,
                forall|i: int, j: int|
                    0 <= i < old(self).width_px && 0 <= j < old(self).height_px ==> self.pixel(
                        i,
                        j,
                    ) == if (px_x <= i < x && px_y <= j < y_end) {
                        colour
                    } else {
                        old(self).pixel(i, j)
                    },
            decreases x_end - x,
        {
            let mut y: usize = px_y;
            while y < y_end
                invariant
                    px_x <= x < x_end,
                    px_y <= y <= y_end,
                    x_end == px_x + size,
                    y_end == px_y + size,
                    self.wf(),
                    self.width_px == old(self).width_px,
                    self.height_px == old(self).height_px,
                    forall|i: int, j: int|
                        0 <= i < old(self).width_px && 0 <= j < old(self).height_px ==> self.pixel(
                            i,
                            j,
                        ) == if ((px_x <= i < x && px_y <= j < y_end) || (i == x && px_y <= j < y)) {
                            colour
                        } else {
                            old(self).pixel(i, j)
                        },
                decreases y_end - y,
            {
                let _ = self.write_buf(x, y, &colour);
                y = y + 1;
            }
            x = x + 1;
        }
    }
}

/// Multiplying by a nonnegative factor preserves order.
proof fn lemma_mul_mono_left(a: int, b: int, f: int)
    by (nonlinear_arith)
    requires
        a <= b,
        0 <= f,
    ensures
        a * f <= b * f,
{
}

/// A nonnegative value below `h * f` divides by `f` to below `h`.
proof fn lemma_div_bound(i: int, f: int, h: int)
    by (nonlinear_arith)
    requires
        f >= 1,
        0 <= i,
    ensures
        i < h * f ==> i / f < h,
        0 <= i / f,
{
}

/// For a positive block size `f`, a nonnegative value `i` divides down to
/// the block index `b` exactly when it lies in block `b`.
proof fn lemma_div_block(i: int, f: int, b: int)
    by (nonlinear_arith)
    requires
        f >= 1,
        i >= 0,
        b >= 0,
    ensures
        i / f == b <==> b * f <= i < b * f + f,
{
}

} // verus!
