//! Pixel buffers of `image`: the framebuffer the renderer fills, and the
//! panoramic environment sampled by rays that leave the scene.
use crate::color::Rgba8;
use crate::ieee32::Ieee32;
use vstd::prelude::*;

verus! {

/// An RGBA image buffer of `image`, with 8 bits per channel.
#[verifier::external_body]
pub struct RgbaBuffer {
    img: image::RgbaImage,
}

/// The pixels of a buffer, row by row (`rows[y][x]`).
pub uninterp spec fn image_rows(buf: RgbaBuffer) -> Seq<Seq<Rgba8>>;

/// The width a buffer was made with.
pub uninterp spec fn image_width(buf: RgbaBuffer) -> nat;

/// The pixel at column `x` of row `y` in a row-major list of RGBA samples.
pub open spec fn pixel_in_samples(samples: Seq<u8>, width: nat, x: int, y: int) -> Rgba8 {
    let i = 4 * (y * width + x);
    Rgba8 { r: samples[i], g: samples[i + 1], b: samples[i + 2], a: samples[i + 3] }
}

/// Relies on `ImageBuffer::from_pixel`: a `width` by `height` buffer with
/// every pixel set to `c`; it panics when the samples do not fit in memory.
#[verifier::external_body]
fn filled_buffer(width: u32, height: u32, c: Rgba8) -> (r: RgbaBuffer)
    requires
        4 * width * height <= usize::MAX,
    ensures
        image_width(r) == width,
        image_rows(r).len() == height,
        forall|y: int| 0 <= y < height ==> #[trigger] image_rows(r)[y] == Seq::new(width as nat, |x: int| c),
{
    RgbaBuffer { img: image::RgbaImage::from_pixel(width, height, image::Rgba([c.r, c.g, c.b, c.a])) }
}

/// Relies on `ImageBuffer::from_raw`, which accepts a sample list long enough
/// for the dimensions and lays pixels out row by row, four samples each.
#[verifier::external_body]
fn buffer_from_samples(width: u32, height: u32, samples: Vec<u8>) -> (r: RgbaBuffer)
    requires
        samples@.len() == 4 * width * height,
    ensures
        image_width(r) == width,
        image_rows(r).len() == height,
        forall|x: int, y: int|
            0 <= y < height && 0 <= x < width ==> #[trigger] image_rows(r)[y][x] == pixel_in_samples(
                samples@,
                width as nat,
                x,
                y,
            ),
{
    RgbaBuffer { img: image::RgbaImage::from_raw(width, height, samples).unwrap() }
}

/// Relies on `ImageBuffer::as_raw`: the samples, pixels row by row with four
/// samples each, as `from_raw` and `from_pixel` laid them out.
#[verifier::external_body]
fn samples_of(buf: &RgbaBuffer) -> (r: Vec<u8>)
    ensures
        r@.len() >= 4 * image_width(*buf) * image_rows(*buf).len(),
        forall|x: int, y: int|
            0 <= y < image_rows(*buf).len() && 0 <= x < image_width(*buf) ==> pixel_in_samples(
                r@,
                image_width(*buf),
                x,
                y,
            ) == #[trigger] image_rows(*buf)[y][x],
{
    buf.img.as_raw().clone()
}

/// Relies on `ImageBuffer::width`: the width the buffer was made with, which
/// is the length of each of its rows.
#[verifier::external_body]
fn width_of(buf: &RgbaBuffer) -> (r: u32)
    ensures
        r == image_width(*buf),
        forall|y: int| 0 <= y < image_rows(*buf).len() ==> (#[trigger] image_rows(*buf)[y]).len() == r,
{
    buf.img.width()
}

/// Relies on `ImageBuffer::height`: the number of rows.
#[verifier::external_body]
fn height_of(buf: &RgbaBuffer) -> (r: u32)
    ensures
        r == image_rows(*buf).len(),
{
    buf.img.height()
}

/// Relies on `ImageBuffer::get_pixel`, which panics out of bounds: the pixel
/// at column `x` of row `y`.
#[verifier::external_body]
fn pixel_at(buf: &RgbaBuffer, x: u32, y: u32) -> (c: Rgba8)
    requires
        y < image_rows(*buf).len(),
        x < image_rows(*buf)[y as int].len(),
    ensures
        c == image_rows(*buf)[y as int][x as int],
{
    let p = buf.img.get_pixel(x, y);
    Rgba8 { r: p.0[0], g: p.0[1], b: p.0[2], a: p.0[3] }
}

/// Relies on `ImageBuffer::put_pixel`, which panics out of bounds: replaces
/// the pixel at column `x` of row `y` and nothing else.
#[verifier::external_body]
fn set_pixel(buf: &mut RgbaBuffer, x: u32, y: u32, c: Rgba8)
    requires
        y < image_rows(*old(buf)).len(),
        x < image_rows(*old(buf))[y as int].len(),
    ensures
        image_rows(*final(buf)) == image_rows(*old(buf)).update(
            y as int,
            image_rows(*old(buf))[y as int].update(x as int, c),
        ),
        image_width(*final(buf)) == image_width(*old(buf)),
{
    buf.img.put_pixel(x, y, image::Rgba([c.r, c.g, c.b, c.a]))
}

/// Every row of `rows` is `width` pixels long.
pub open spec fn rectangular(rows: Seq<Seq<Rgba8>>, width: nat) -> bool {
    forall|y: int| 0 <= y < rows.len() ==> (#[trigger] rows[y]).len() == width
}

impl RgbaBuffer {
    /// A `width` by `height` buffer with every pixel set to `c`; `None` when
    /// its samples would not fit in memory.
    pub fn filled(width: u32, height: u32, c: Rgba8) -> (r: Option<RgbaBuffer>)
        ensures
            r is None <==> 4 * width * height > usize::MAX,
            r matches Some(b) ==> image_width(b) == width && image_rows(b).len() == height
                && forall|x: int, y: int|
                0 <= y < height && 0 <= x < width ==> #[trigger] image_rows(b)[y][x] == c,
    {
        proof {
            assert(4 * width * height <= 4 * 0xffff_ffffu64 * 0xffff_ffffu64) by (nonlinear_arith)
                requires
                    width <= 0xffff_ffffu64,
                    height <= 0xffff_ffffu64,
            ;
        }
        let samples: u128 = 4 * width as u128 * height as u128;
        if samples > usize::MAX as u128 {
            return None;
        }
        let b = filled_buffer(width, height, c);
        assert forall|x: int, y: int| 0 <= y < height && 0 <= x < width implies #[trigger] image_rows(
            b,
        )[y][x] == c by {
            assert(image_rows(b)[y] == Seq::new(width as nat, |i: int| c));
        }
        Some(b)
    }

    /// A buffer over row-major RGBA samples, four per pixel; `None` unless
    /// there are exactly `4 * width * height` of them.
    pub fn from_samples(width: u32, height: u32, samples: Vec<u8>) -> (r: Option<RgbaBuffer>)
        ensures
            r is None <==> samples@.len() != 4 * width * height,
            r matches Some(b) ==> image_width(b) == width && image_rows(b).len() == height
                && forall|x: int, y: int|
                0 <= y < height && 0 <= x < width ==> #[trigger] image_rows(b)[y][x]
                    == pixel_in_samples(samples@, width as nat, x, y),
    {
        proof {
            assert(4 * width * height <= 4 * 0xffff_ffffu64 * 0xffff_ffffu64) by (nonlinear_arith)
                requires
                    width <= 0xffff_ffffu64,
                    height <= 0xffff_ffffu64,
            ;
        }
        let expected: u128 = 4 * width as u128 * height as u128;
        if samples.len() as u128 != expected {
            return None;
        }
        Some(buffer_from_samples(width, height, samples))
    }

    /// The samples, row by row, four per pixel.
    pub fn samples(&self) -> (r: Vec<u8>)
        ensures
            r@.len() >= 4 * image_width(*self) * image_rows(*self).len(),
            forall|x: int, y: int|
                0 <= y < image_rows(*self).len() && 0 <= x < image_width(*self) ==> pixel_in_samples(
                    r@,
                    image_width(*self),
                    x,
                    y,
                ) == #[trigger] image_rows(*self)[y][x],
    {
        samples_of(self)
    }

    pub fn width(&self) -> (r: u32)
        ensures
            r == image_width(*self),
            rectangular(image_rows(*self), r as nat),
    {
        width_of(self)
    }

    pub fn height(&self) -> (r: u32)
        ensures
            r == image_rows(*self).len(),
    {
        height_of(self)
    }

    /// The pixel at column `x` of row `y`; `None` outside the buffer.
    pub fn pixel(&self, x: u32, y: u32) -> (r: Option<Rgba8>)
        ensures
            r is Some <==> y < image_rows(*self).len() && x < image_width(*self),
            r matches Some(c) ==> c == image_rows(*self)[y as int][x as int],
    {
        let w = width_of(self);
        let h = height_of(self);
        if x < w && y < h {
            Some(pixel_at(self, x, y))
        } else {
            None
        }
    }

    /// Writes a row-major list of colors, one per pixel, into a framebuffer:
    /// afterwards pixel `(x, y)` holds `colors[y * width + x]`.
    pub fn write_frame(&mut self, colors: &Vec<Rgba8>)
        requires
            colors@.len() == image_width(*old(self)) * image_rows(*old(self)).len(),
        ensures
            image_width(*final(self)) == image_width(*old(self)),
            image_rows(*final(self)).len() == image_rows(*old(self)).len(),
            rectangular(image_rows(*final(self)), image_width(*final(self))),
            forall|x: int, y: int|
                0 <= y < image_rows(*final(self)).len() && 0 <= x < image_width(*final(self))
                    ==> #[trigger] image_rows(*final(self))[y][x] == colors@[y * image_width(
                    *final(self),
                ) + x],
    {
        let width = width_of(self);
        let height = height_of(self);
        let ghost w = width as int;
        let ghost h = height as int;
        let n = colors.len();
        let mut y: u32 = 0;
        while y < height
            invariant
                0 <= y <= height,
                h == height,
                w == width,
                colors@.len() == w * h,
                n == colors@.len(),
                image_width(*self) == w,
                image_rows(*self).len() == h,
                rectangular(image_rows(*self), w as nat),
                forall|i: int, j: int|
                    0 <= j < y && 0 <= i < w ==> #[trigger] image_rows(*self)[j][i] == colors@[j * w
                        + i],
            decreases height - y,
        {
            let mut x: u32 = 0;
            while x < width
                invariant
                    0 <= x <= width,
                    0 <= y < height,
                    h == height,
                    w == width,
                    colors@.len() == w * h,
                    n == colors@.len(),
                    image_width(*self) == w,
                    image_rows(*self).len() == h,
                    rectangular(image_rows(*self), w as nat),
                    forall|i: int, j: int|
                        0 <= j < y && 0 <= i < w ==> #[trigger] image_rows(*self)[j][i] == colors@[j
                            * w + i],
                    forall|i: int| 0 <= i < x ==> #[trigger] image_rows(*self)[y as int][i] == colors@[y
                        * w + i],
                decreases width - x,
            {
                proof {
                    assert(0 <= y * w <= y * w + x < w * h) by (nonlinear_arith)
                        requires
                            0 <= x < w,
                            0 <= y < h,
                    ;
                }
                let idx = y as usize * width as usize + x as usize;
                set_pixel(self, x, y, colors[idx]);
                x += 1;
            }
            y += 1;
        }
    }
}

/// Where rays that leave the scene take their color from.
pub enum Background {
    /// A panorama in equirectangular projection.
    Image(RgbaBuffer),
    /// One color for every direction.
    Flat(Rgba8),
}

impl Background {
    /// The color for an escaping ray, given the panorama coordinates of its
    /// direction: `column` and `row` are positions in pixels, truncated here
    /// as `x as u32` does. A flat background ignores them.
    pub fn sample(&self, column: Ieee32, row: Ieee32) -> (c: Rgba8)
        requires
            *self matches Background::Image(img) ==> row.saturated_u32() < image_rows(img).len()
                && column.saturated_u32() < image_width(img),
        ensures
            *self matches Background::Flat(color) ==> c == color,
            *self matches Background::Image(img) ==> c == image_rows(img)[row.saturated_u32() as int][column.saturated_u32() as int],
    {
        match self {
            Background::Flat(color) => *color,
            Background::Image(img) => {
                let _ = width_of(img);
                pixel_at(img, column.to_u32(), row.to_u32())
            },
        }
    }
}

} // verus!
