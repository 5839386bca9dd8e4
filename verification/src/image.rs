//! Conversion of raw video frames between colour layouts.
//!
//! Every coefficient of the conversions is a multiple of 1/256 or of 1/1000000, so a converted
//! sample is the quotient of two integers, cut to a whole number and to the range of a byte.
use vstd::prelude::*;
use vstd::slice::*;

verus! {

broadcast use vstd::slice::group_slice_axioms;

/// A byte of the RGBA image of a BGR image.
pub open spec fn rgba_byte(data: Seq<u8>, i: int) -> u8 {
    if i % 4 == 3 {
        255
    } else {
        data[3 * (i / 4) + 2 - i % 4]
    }
}

/// The RGBA image of a BGR image.
pub open spec fn rgba_image(data: Seq<u8>) -> Seq<u8> {
    Seq::new((4 * (data.len() / 3)) as nat, |i: int| rgba_byte(data, i))
}

/// Converts BGR to RGBA. A pixel that is not whole is left out.
pub fn bgr_to_rgba(data: &[u8]) -> (r: Vec<u8>)
    ensures
        r@ == rgba_image(data@),
{
    let mut rgba: Vec<u8> = Vec::new();
    let pixels: usize = data.len() / 3;
    let mut k: usize = 0;
    while k < pixels
        invariant
            pixels == data@.len() / 3,
            data@.len() <= usize::MAX,
            k <= pixels,
            rgba@.len() == 4 * k,
            forall|i: int| 0 <= i < rgba@.len() ==> #[trigger] rgba@[i] == rgba_byte(data@, i),
        decreases pixels - k,
    {
        rgba.push(data[3 * k + 2]);
        rgba.push(data[3 * k + 1]);
        rgba.push(data[3 * k]);
        rgba.push(255);
        k = k + 1;
    }
    assert(rgba@ == rgba_image(data@));
    rgba
}

/// A sample in millionths, cut to a whole number and to the range of a byte.
pub open spec fn sample(millionths: int) -> u8 {
    if millionths <= 0 {
        0
    } else if millionths >= 256_000_000 {
        255
    } else {
        (millionths / 1_000_000) as u8
    }
}

pub open spec fn red(y: u8, v: u8) -> u8 {
    sample(1_000_000 * y + 1_370_705 * (v - 128))
}

pub open spec fn green(y: u8, u: u8, v: u8) -> u8 {
    sample(1_000_000 * y - 698_001 * (v - 128) - 337_633 * (u - 128))
}

pub open spec fn blue(y: u8, u: u8) -> u8 {
    sample(1_000_000 * y + 1_732_446 * (u - 128))
}

fn to_sample(millionths: i32) -> (r: u8)
    ensures
        r == sample(millionths as int),
{
    if millionths <= 0 {
        0
    } else if millionths >= 256_000_000 {
        255
    } else {
        (millionths / 1_000_000) as u8
    }
}

/// Sample `c` (0 red, 1 green, 2 blue, 3 opacity) of a pixel of a YUYV image, in which four bytes
/// hold two pixels that share their colour difference samples.
pub open spec fn yuyv_sample(data: Seq<u8>, pixel: int, c: int) -> u8 {
    let chunk = 4 * (pixel / 2);
    let y = data[chunk + 2 * (pixel % 2)];
    let u = data[chunk + 1];
    let v = data[chunk + 3];
    if c == 0 {
        red(y, v)
    } else if c == 1 {
        green(y, u, v)
    } else if c == 2 {
        blue(y, u)
    } else {
        255
    }
}

/// A byte of the RGB or RGBA image of a YUYV image.
pub open spec fn yuyv_byte(data: Seq<u8>, rgba: bool, i: int) -> u8 {
    if rgba {
        yuyv_sample(data, i / 4, i % 4)
    } else {
        yuyv_sample(data, i / 3, i % 3)
    }
}

/// The RGB or RGBA image of a YUYV image.
pub open spec fn yuyv_image(data: Seq<u8>, rgba: bool) -> Seq<u8> {
    Seq::new(
        (if rgba {
            8 * (data.len() / 4)
        } else {
            6 * (data.len() / 4)
        }),
        |i: int| yuyv_byte(data, rgba, i),
    )
}

/// The colour of a pixel of a YUYV image.
fn yuyv_pixel(data: &[u8], pixel: usize) -> (r: (u8, u8, u8))
    requires
        pixel / 2 < data@.len() / 4,
    ensures
        r.0 == yuyv_sample(data@, pixel as int, 0),
        r.1 == yuyv_sample(data@, pixel as int, 1),
        r.2 == yuyv_sample(data@, pixel as int, 2),
{
    assert(data.len() == data@.len());
    let chunk: usize = 4 * (pixel / 2);
    let y: i32 = data[chunk + 2 * (pixel % 2)] as i32;
    let u: i32 = data[chunk + 1] as i32;
    let v: i32 = data[chunk + 3] as i32;
    (
        to_sample(1_000_000 * y + 1_370_705 * (v - 128)),
        to_sample(1_000_000 * y - 698_001 * (v - 128) - 337_633 * (u - 128)),
        to_sample(1_000_000 * y + 1_732_446 * (u - 128)),
    )
}

/// Converts YUYV (4:2:2) to RGB, or to RGBA with full opacity. A group of four bytes that is not
/// whole is left out.
pub fn yuyv422_to_rgb_(data: &[u8], rgba: bool) -> (r: Vec<u8>)
    ensures
        r@ == yuyv_image(data@, rgba),
{
    let mut rgb: Vec<u8> = Vec::new();
    let pixels: usize = 2 * (data.len() / 4);
    let mut k: usize = 0;
    while k < pixels
        invariant
            pixels == 2 * (data@.len() / 4),
            k <= pixels,
            rgba ==> rgb@.len() == 4 * k,
            !rgba ==> rgb@.len() == 3 * k,
            forall|i: int|
                0 <= i < rgb@.len() ==> #[trigger] rgb@[i] == yuyv_byte(data@, rgba, i),
        decreases pixels - k,
    {
        let p = yuyv_pixel(data, k);
        rgb.push(p.0);
        rgb.push(p.1);
        rgb.push(p.2);
        if rgba {
            rgb.push(255);
        }
        k = k + 1;
    }
    rgb
}

/// The brightness of a pixel.
pub open spec fn luma(b: u8, g: u8, r: u8) -> u8 {
    ((66 * r + 129 * g + 25 * b + 4096) / 256) as u8
}

/// The blue difference of pixels whose samples add up to `b`, `g` and `r`, on average over `n`.
pub open spec fn blue_difference(b: int, g: int, r: int, n: int) -> u8 {
    ((112 * b - 74 * g - 38 * r + 32768 * n) / (256 * n)) as u8
}

/// The red difference of pixels whose samples add up to `b`, `g` and `r`, on average over `n`.
pub open spec fn red_difference(b: int, g: int, r: int, n: int) -> u8 {
    ((112 * r - 94 * g - 18 * b + 32768 * n) / (256 * n)) as u8
}

/// Sample `c` (0 blue, 1 green, 2 red) of the pixel in column `x` and row `y`.
pub open spec fn bgr_sample(s: Seq<u8>, width: int, x: int, y: int, c: int) -> u8 {
    s[(x + y * width) * 3 + c]
}

/// The sum of sample `c` over the square of two by two pixels whose first is in column `2 * x` and
/// row `2 * y`.
pub open spec fn square_sum(s: Seq<u8>, width: int, x: int, y: int, c: int) -> int {
    bgr_sample(s, width, 2 * x, 2 * y, c) + bgr_sample(s, width, 2 * x, 2 * y + 1, c)
        + bgr_sample(s, width, 2 * x + 1, 2 * y, c) + bgr_sample(s, width, 2 * x + 1, 2 * y + 1, c)
}

/// How many bytes of the image are read: all those of the squares of two by two pixels.
pub open spec fn bytes_read(width: int, height: int) -> int {
    if width < 2 || height < 2 {
        0
    } else {
        3 * ((2 * (width / 2) - 1) + (2 * (height / 2) - 1) * width) + 3
    }
}

/// A byte of the planar image: the brightness of each pixel, then the blue and the red difference
/// of each square of two by two pixels. A last column or row without a partner is dark.
pub open spec fn planar_byte(s: Seq<u8>, width: int, height: int, i: int) -> u8 {
    let pixels = width * height;
    let columns = width / 2;
    let squares = columns * (height / 2);
    let second = pixels + pixels / 4;
    if i < pixels {
        let x = i % width;
        let y = i / width;
        if x < 2 * columns && y < 2 * (height / 2) {
            luma(
                bgr_sample(s, width, x, y, 0),
                bgr_sample(s, width, x, y, 1),
                bgr_sample(s, width, x, y, 2),
            )
        } else {
            0
        }
    } else if i < pixels + squares {
        let x = (i - pixels) % columns;
        let y = (i - pixels) / columns;
        blue_difference(
            square_sum(s, width, x, y, 0),
            square_sum(s, width, x, y, 1),
            square_sum(s, width, x, y, 2),
            4,
        )
    } else if second <= i < second + squares {
        let x = (i - second) % columns;
        let y = (i - second) / columns;
        red_difference(
            square_sum(s, width, x, y, 0),
            square_sum(s, width, x, y, 1),
            square_sum(s, width, x, y, 2),
            4,
        )
    } else {
        0
    }
}

/// The planar image of a BGR image.
pub open spec fn planar_image(s: Seq<u8>, width: int, height: int) -> Seq<u8> {
    Seq::new(((3 * width * height) / 2) as nat, |i: int| planar_byte(s, width, height, i))
}

/// Every pixel of a square lies within the bytes that are read.
proof fn lemma_pixel_in_bounds(width: int, height: int, x: int, y: int)
    requires
        0 <= x < 2 * (width / 2),
        0 <= y < 2 * (height / 2),
    ensures
        0 <= (x + y * width) * 3,
        (x + y * width) * 3 + 3 <= bytes_read(width, height),
        0 <= y * width,
{
    assert(0 <= y * width) by (nonlinear_arith)
        requires
            0 <= y,
            0 <= width,
    ;
    assert(y * width <= (2 * (height / 2) - 1) * width) by (nonlinear_arith)
        requires
            y <= 2 * (height / 2) - 1,
            0 <= width,
    ;
}

/// What is read is part of an image of whole pixels.
proof fn lemma_bytes_read(width: int, height: int)
    requires
        0 <= width,
        0 <= height,
    ensures
        bytes_read(width, height) <= 3 * width * height,
        0 <= width * height,
        (width / 2) * (height / 2) <= (width * height) / 4,
        0 <= (width / 2) * (height / 2),
{
    assert(0 <= width * height) by (nonlinear_arith)
        requires
            0 <= width,
            0 <= height,
    ;
    let a = width / 2;
    let b = height / 2;
    assert(0 <= a * b) by (nonlinear_arith)
        requires
            0 <= a,
            0 <= b,
    ;
    assert(4 * (a * b) <= width * height) by (nonlinear_arith)
        requires
            0 <= 2 * a <= width,
            0 <= 2 * b <= height,
    ;
    assert((2 * b - 1) * width <= (height - 1) * width) by (nonlinear_arith)
        requires
            2 * b - 1 <= height - 1,
            0 <= width,
    ;
    assert((height - 1) * width == width * height - width) by (nonlinear_arith);
    assert(3 * width * height == 3 * (width * height)) by (nonlinear_arith);
}

fn pixel(s: &[u8], width: usize, height: usize, x: usize, y: usize) -> (r: (u8, u8, u8))
    requires
        3 * width * height <= usize::MAX,
        bytes_read(width as int, height as int) <= s@.len(),
        x < 2 * (width / 2),
        y < 2 * (height / 2),
    ensures
        r.0 == bgr_sample(s@, width as int, x as int, y as int, 0),
        r.1 == bgr_sample(s@, width as int, x as int, y as int, 1),
        r.2 == bgr_sample(s@, width as int, x as int, y as int, 2),
{
    proof {
        lemma_pixel_in_bounds(width as int, height as int, x as int, y as int);
        lemma_bytes_read(width as int, height as int);
    }
    let base: usize = (x + y * width) * 3;
    (s[base], s[base + 1], s[base + 2])
}

fn sum_of_square(s: &[u8], width: usize, height: usize, x: usize, y: usize) -> (r: (u32, u32, u32))
    requires
        3 * width * height <= usize::MAX,
        bytes_read(width as int, height as int) <= s@.len(),
        x < width / 2,
        y < height / 2,
    ensures
        r.0 == square_sum(s@, width as int, x as int, y as int, 0),
        r.1 == square_sum(s@, width as int, x as int, y as int, 1),
        r.2 == square_sum(s@, width as int, x as int, y as int, 2),
        r.0 <= 1020,
        r.1 <= 1020,
        r.2 <= 1020,
{
    let a = pixel(s, width, height, 2 * x, 2 * y);
    let b = pixel(s, width, height, 2 * x, 2 * y + 1);
    let c = pixel(s, width, height, 2 * x + 1, 2 * y);
    let d = pixel(s, width, height, 2 * x + 1, 2 * y + 1);
    (
        a.0 as u32 + b.0 as u32 + c.0 as u32 + d.0 as u32,
        a.1 as u32 + b.1 as u32 + c.1 as u32 + d.1 as u32,
        a.2 as u32 + b.2 as u32 + c.2 as u32 + d.2 as u32,
    )
}

fn to_luma(b: u8, g: u8, r: u8) -> (y: u8)
    ensures
        y == luma(b, g, r),
{
    ((66 * r as u32 + 129 * g as u32 + 25 * b as u32 + 4096) / 256) as u8
}

fn to_blue_difference(b: u32, g: u32, r: u32, n: u32) -> (u: u8)
    requires
        1 <= n <= 4,
        b <= 255 * n,
        g <= 255 * n,
        r <= 255 * n,
    ensures
        u == blue_difference(b as int, g as int, r as int, n as int),
{
    ((32768 * n + 112 * b - 74 * g - 38 * r) / (256 * n)) as u8
}

fn to_red_difference(b: u32, g: u32, r: u32, n: u32) -> (v: u8)
    requires
        1 <= n <= 4,
        b <= 255 * n,
        g <= 255 * n,
        r <= 255 * n,
    ensures
        v == red_difference(b as int, g as int, r as int, n as int),
{
    ((32768 * n + 112 * r - 94 * g - 18 * b) / (256 * n)) as u8
}

/// The position of a square from its number.
proof fn lemma_square_position(k: int, columns: int, rows: int)
    requires
        0 <= k < columns * rows,
        0 <= columns,
        0 <= rows,
    ensures
        columns > 0,
        0 <= k % columns < columns,
        0 <= k / columns < rows,
{
    assert(columns > 0) by (nonlinear_arith)
        requires
            0 <= k < columns * rows,
            0 <= columns,
    ;
    assert(0 <= k % columns < columns && 0 <= k / columns < rows) by (nonlinear_arith)
        requires
            0 <= k < columns * rows,
            columns > 0,
    ;
}

/// Converts BGR to planar YUV (4:2:0) in the studio range.
pub fn bgr_to_yuv(rgba: &[u8], width: usize, height: usize) -> (r: Vec<u8>)
    requires
        3 * width * height <= usize::MAX,
        bytes_read(width as int, height as int) <= rgba@.len(),
    ensures
        r@ == planar_image(rgba@, width as int, height as int),
{
    proof {
        lemma_bytes_read(width as int, height as int);
    }
    assert(3 * width * height == 3 * (width * height)) by (nonlinear_arith);
    let pixels: usize = width * height;
    let size: usize = (3 * pixels) / 2;
    let columns: usize = width / 2;
    let rows: usize = height / 2;
    assert(columns * rows <= pixels / 4);
    let squares: usize = columns * rows;
    let second: usize = pixels + pixels / 4;
    let mut yuv: Vec<u8> = Vec::new();
    while yuv.len() < size
        invariant
            3 * width * height <= usize::MAX,
            bytes_read(width as int, height as int) <= rgba@.len(),
            pixels == width * height,
            size == (3 * pixels) / 2,
            columns == width / 2,
            rows == height / 2,
            squares == columns * rows,
            squares <= pixels / 4,
            second == pixels + pixels / 4,
            yuv@.len() <= size,
            forall|i: int|
                0 <= i < yuv@.len() ==> #[trigger] yuv@[i] == planar_byte(
                    rgba@,
                    width as int,
                    height as int,
                    i,
                ),
        decreases size - yuv@.len(),
    {
        let i: usize = yuv.len();
        if i < pixels {
            proof {
                lemma_square_position(i as int, width as int, height as int);
            }
            let x: usize = i % width;
            let y: usize = i / width;
            if x < 2 * columns && y < 2 * rows {
                let p = pixel(rgba, width, height, x, y);
                yuv.push(to_luma(p.0, p.1, p.2));
            } else {
                yuv.push(0);
            }
        } else if i < pixels + squares {
            let k: usize = i - pixels;
            proof {
                lemma_square_position(k as int, columns as int, rows as int);
            }
            let sum = sum_of_square(rgba, width, height, k % columns, k / columns);
            yuv.push(to_blue_difference(sum.0, sum.1, sum.2, 4));
        } else if second <= i && i < second + squares {
            let k: usize = i - second;
            proof {
                lemma_square_position(k as int, columns as int, rows as int);
            }
            let sum = sum_of_square(rgba, width, height, k % columns, k / columns);
            yuv.push(to_red_difference(sum.0, sum.1, sum.2, 4));
        } else {
            yuv.push(0);
        }
    }
    yuv
}

/// Converts BGR to planar YUV (4:2:0) without the coefficients of the full range.
pub fn bgr_to_yuv_limited(rgba: &[u8], width: usize, height: usize) -> (r: Vec<u8>)
    requires
        3 * width * height <= usize::MAX,
        bytes_read(width as int, height as int) <= rgba@.len(),
    ensures
        r@ == planar_image(rgba@, width as int, height as int),
{
    bgr_to_yuv(rgba, width, height)
}

/// A byte of the planar image of twice the width and height, in which every pixel is a square of
/// its own.
pub open spec fn doubled_byte(s: Seq<u8>, width: int, height: int, i: int) -> u8 {
    let pixels = width * height;
    if i < 4 * pixels {
        let x = (i % (2 * width)) / 2;
        let y = (i / (2 * width)) / 2;
        luma(
            bgr_sample(s, width, x, y, 0),
            bgr_sample(s, width, x, y, 1),
            bgr_sample(s, width, x, y, 2),
        )
    } else if i < 5 * pixels {
        let k = i - 4 * pixels;
        blue_difference(s[3 * k] as int, s[3 * k + 1] as int, s[3 * k + 2] as int, 1)
    } else {
        let k = i - 5 * pixels;
        red_difference(s[3 * k] as int, s[3 * k + 1] as int, s[3 * k + 2] as int, 1)
    }
}

/// The planar image of twice the width and height of a BGR image.
pub open spec fn doubled_image(s: Seq<u8>, width: int, height: int) -> Seq<u8> {
    Seq::new((6 * width * height) as nat, |i: int| doubled_byte(s, width, height, i))
}

/// Converts BGR to planar YUV of twice the width and height, so that no colour difference is
/// averaged away.
pub fn bgr_to_yuv_lossy(s: &[u8], width: usize, height: usize) -> (r: Vec<u8>)
    requires
        6 * width * height <= usize::MAX,
        3 * width * height <= s@.len(),
    ensures
        r@ == doubled_image(s@, width as int, height as int),
{
    proof {
        lemma_bytes_read(width as int, height as int);
    }
    assert(6 * width * height == 6 * (width * height)) by (nonlinear_arith);
    assert(3 * width * height == 3 * (width * height)) by (nonlinear_arith);
    let pixels: usize = width * height;
    let size: usize = 6 * pixels;
    let mut yuv: Vec<u8> = Vec::new();
    while yuv.len() < size
        invariant
            pixels == width * height,
            size == 6 * pixels,
            3 * pixels <= s@.len(),
            yuv@.len() <= size,
            forall|i: int|
                0 <= i < yuv@.len() ==> #[trigger] yuv@[i] == doubled_byte(
                    s@,
                    width as int,
                    height as int,
                    i,
                ),
        decreases size - yuv@.len(),
    {
        let i: usize = yuv.len();
        if i < 4 * pixels {
            let ghost w = width as int;
            let ghost h = height as int;
            assert(4 * (w * h) == (2 * w) * (2 * h)) by (nonlinear_arith);
            proof {
                lemma_square_position(i as int, 2 * w, 2 * h);
            }
            assert(2 * width <= 6 * pixels) by (nonlinear_arith)
                requires
                    pixels == width * height,
                    height > 0,
            ;
            let x: usize = (i % (2 * width)) / 2;
            let y: usize = (i / (2 * width)) / 2;
            assert(y * w <= (h - 1) * w) by (nonlinear_arith)
                requires
                    y <= h - 1,
                    0 <= w,
            ;
            assert((h - 1) * w == w * h - w) by (nonlinear_arith);
            assert(0 <= y * w) by (nonlinear_arith)
                requires
                    0 <= y,
                    0 <= w,
            ;
            let base: usize = (x + y * width) * 3;
            yuv.push(to_luma(s[base], s[base + 1], s[base + 2]));
        } else if i < 5 * pixels {
            let k: usize = i - 4 * pixels;
            yuv.push(
                to_blue_difference(
                    s[3 * k] as u32,
                    s[3 * k + 1] as u32,
                    s[3 * k + 2] as u32,
                    1,
                ),
            );
        } else {
            let k: usize = i - 5 * pixels;
            yuv.push(
                to_red_difference(s[3 * k] as u32, s[3 * k + 1] as u32, s[3 * k + 2] as u32, 1),
            );
        }
    }
    yuv
}

/// Why a plane cannot be had.
#[derive(Clone, Copy, PartialEq, Eq, Structural, Debug)]
pub enum FrameError {
    InvalidIndex,
}

/// A planar YUV (4:2:0) frame.
pub struct YUVBuf {
    pub yuv: Vec<u8>,
    pub width: usize,
    pub height: usize,
}

/// Half of a number, without its fraction.
pub open spec fn half(n: int) -> int {
    if n < 0 {
        -((-n) / 2)
    } else {
        n / 2
    }
}

impl YUVBuf {
    /// Where the plane of the blue differences begins.
    pub open spec fn base_u(self) -> int {
        self.width * self.height
    }

    /// Where the plane of the red differences begins.
    pub open spec fn base_v(self) -> int {
        self.base_u() + self.base_u() / 4
    }

    /// The buffer holds the first two planes.
    pub open spec fn well_formed(self) -> bool {
        self.base_v() <= self.yuv@.len()
    }

    /// The bytes of a plane.
    pub open spec fn plane(self, idx: usize) -> Seq<u8> {
        if idx == 0 {
            self.yuv@.subrange(0, self.base_u())
        } else if idx == 1 {
            self.yuv@.subrange(self.base_u(), self.base_v())
        } else {
            self.yuv@.subrange(self.base_v(), self.yuv@.len() as int)
        }
    }

    /// Whether the buffer holds a plane. An index that names none asks nothing of it.
    pub open spec fn holds(self, idx: usize) -> bool {
        &&& self.base_v() <= usize::MAX
        &&& idx == 0 ==> self.base_u() <= self.yuv@.len()
        &&& 1 <= idx <= 2 ==> self.well_formed()
    }

    fn bases(&self) -> (r: (usize, usize))
        requires
            self.base_v() <= usize::MAX,
        ensures
            r.0 == self.base_u(),
            r.1 == self.base_v(),
            0 <= r.0 <= r.1,
    {
        assert(0 <= self.width * self.height) by (nonlinear_arith);
        let base_u: usize = self.width * self.height;
        (base_u, base_u + base_u / 4)
    }

    /// The length of a line of a plane.
    pub fn linesize(&self, idx: usize) -> (r: Result<usize, FrameError>)
        ensures
            r == (if idx == 0 {
                Ok::<usize, FrameError>(self.width)
            } else if idx <= 2 {
                Ok(self.width / 4)
            } else {
                Err(FrameError::InvalidIndex)
            }),
    {
        match idx {
            0 => Ok(self.width),
            1 | 2 => Ok(self.width / 4),
            _ => Err(FrameError::InvalidIndex),
        }
    }

    /// The number of planes.
    pub fn count(&self) -> (r: usize)
        ensures
            r == 3,
    {
        3
    }

    /// The bytes of a plane.
    pub fn as_slice_inner(&self, idx: usize) -> (r: Result<&[u8], FrameError>)
        requires
            self.holds(idx),
        ensures
            match r {
                Ok(s) => idx <= 2 && s@ == self.plane(idx),
                Err(e) => idx > 2 && e == FrameError::InvalidIndex,
            },
    {
        let (base_u, base_v) = self.bases();
        let all = self.yuv.as_slice();
        match idx {
            0 => Ok(slice_subrange(all, 0, base_u)),
            1 => Ok(slice_subrange(all, base_u, base_v)),
            2 => Ok(slice_subrange(all, base_v, self.yuv.len())),
            _ => Err(FrameError::InvalidIndex),
        }
    }

    /// The bytes of a plane, to be written.
    pub fn as_mut_slice_inner(&mut self, idx: usize) -> (r: Result<&mut [u8], FrameError>)
        requires
            old(self).holds(idx),
        ensures
            match r {
                Ok(s) => {
                    &&& idx <= 2
                    &&& s@ == old(self).plane(idx)
                    &&& final(self).width == old(self).width
                    &&& final(self).height == old(self).height
                    &&& final(self).yuv@ == (if idx == 0 {
                        final(s)@ + old(self).yuv@.skip(old(self).base_u())
                    } else if idx == 1 {
                        old(self).plane(0) + final(s)@ + old(self).plane(2)
                    } else {
                        old(self).plane(0) + old(self).plane(1) + final(s)@
                    })
                },
                Err(e) => idx > 2 && e == FrameError::InvalidIndex && *final(self) == *old(self),
            },
    {
        let (base_u, base_v) = self.bases();
        if idx > 2 {
            return Err(FrameError::InvalidIndex);
        }
        let all = self.yuv.as_mut_slice();
        let (y, uv) = all.split_at_mut(base_u);
        if idx == 0 {
            return Ok(y);
        }
        let (u, v) = uv.split_at_mut(base_v - base_u);
        match idx {
            1 => Ok(u),
            _ => Ok(v),
        }
    }

    pub fn width(&self) -> (r: i32)
        ensures
            r == self.width as i32,
    {
        #[verifier::truncate]
        (self.width as i32)
    }

    pub fn height(&self) -> (r: i32)
        ensures
            r == self.height as i32,
    {
        #[verifier::truncate]
        (self.height as i32)
    }

    /// The plane of the brightness.
    pub fn y(&self) -> (r: &[u8])
        requires
            self.holds(0),
        ensures
            r@ == self.plane(0),
    {
        let (base_u, _) = self.bases();
        slice_subrange(self.yuv.as_slice(), 0, base_u)
    }

    /// The plane of the blue differences.
    pub fn u(&self) -> (r: &[u8])
        requires
            self.holds(1),
        ensures
            r@ == self.plane(1),
    {
        let (base_u, base_v) = self.bases();
        slice_subrange(self.yuv.as_slice(), base_u, base_v)
    }

    /// The plane of the red differences.
    pub fn v(&self) -> (r: &[u8])
        requires
            self.holds(2),
        ensures
            r@ == self.plane(2),
    {
        let (_, base_v) = self.bases();
        slice_subrange(self.yuv.as_slice(), base_v, self.yuv.len())
    }

    pub fn y_stride(&self) -> (r: i32)
        ensures
            r == self.width as i32,
    {
        #[verifier::truncate]
        (self.width as i32)
    }

    pub fn u_stride(&self) -> (r: i32)
        ensures
            r == half(self.width as i32 as int),
    {
        let stride: i32 = #[verifier::truncate]
        (self.width as i32);
        stride / 2
    }

    pub fn v_stride(&self) -> (r: i32)
        ensures
            r == half(self.width as i32 as int),
    {
        let stride: i32 = #[verifier::truncate]
        (self.width as i32);
        stride / 2
    }
}

/// What an encoder gets of a captured BGR frame: the frame at twice its width and height, or
/// nothing where the frame is empty.
pub fn encoder_frame(s: &[u8], width: usize, height: usize) -> (r: Option<YUVBuf>)
    requires
        6 * width * height <= usize::MAX,
        2 * width <= usize::MAX,
        2 * height <= usize::MAX,
        3 * width * height <= s@.len(),
    ensures
        match r {
            Some(buf) => {
                &&& width > 0
                &&& buf.width == 2 * width
                &&& buf.height == 2 * height
                &&& buf.well_formed()
                &&& buf.yuv@ == doubled_image(s@, width as int, height as int)
            },
            None => width == 0,
        },
{
    if width == 0 {
        return None;
    }
    let yuv = bgr_to_yuv_lossy(s, width, height);
    let buf = YUVBuf { yuv, width: 2 * width, height: 2 * height };
    assert((2 * width) * (2 * height) == 4 * (width * height)) by (nonlinear_arith);
    assert(6 * width * height == 6 * (width * height)) by (nonlinear_arith);
    assert(0 <= width * height) by (nonlinear_arith);
    Some(buf)
}

/// A frame of interleaved RGB samples.
pub struct RGBBuf {
    pub data: Vec<u8>,
    pub width: usize,
    pub height: usize,
}

/// A byte of an image whose pixels have their first and last sample exchanged. A last pixel that
/// is not whole stays as it is.
pub open spec fn exchanged_byte(data: Seq<u8>, i: int) -> u8 {
    if i < 3 * (data.len() / 3) {
        data[3 * (i / 3) + 2 - i % 3]
    } else {
        data[i]
    }
}

/// An image whose pixels have their first and last sample exchanged.
pub open spec fn exchanged_image(data: Seq<u8>) -> Seq<u8> {
    Seq::new(data.len(), |i: int| exchanged_byte(data, i))
}

/// Exchanging the first and the last sample of every pixel twice changes nothing.
pub proof fn exchange_is_an_involution(data: Seq<u8>)
    ensures
        exchanged_image(exchanged_image(data)) == data,
{
    let once = exchanged_image(data);
    assert forall|i: int| 0 <= i < data.len() implies exchanged_byte(once, i) == data[i] by {
        if i < 3 * (data.len() / 3) {
            let j = 3 * (i / 3) + 2 - i % 3;
            assert(j / 3 == i / 3 && j % 3 == 2 - i % 3);
            assert(once[j] == exchanged_byte(data, j));
        }
    }
    assert(exchanged_image(once) == data);
}

impl RGBBuf {
    /// Makes a frame of a frame with the samples of each pixel in the opposite order.
    pub fn from_gbr(gbr: &[u8], width: usize, height: usize) -> (r: RGBBuf)
        ensures
            r.data@ == exchanged_image(gbr@),
            r.width == width,
            r.height == height,
    {
        let mut data: Vec<u8> = Vec::new();
        let whole: usize = 3 * (gbr.len() / 3);
        while data.len() < gbr.len()
            invariant
                whole == 3 * (gbr@.len() / 3),
                data@.len() <= gbr@.len(),
                forall|i: int|
                    0 <= i < data@.len() ==> #[trigger] data@[i] == exchanged_byte(gbr@, i),
            decreases gbr@.len() - data@.len(),
        {
            let i: usize = data.len();
            if i < whole {
                data.push(gbr[3 * (i / 3) + 2 - i % 3]);
            } else {
                data.push(gbr[i]);
            }
        }
        RGBBuf { data, width, height }
    }

    /// The length of a line of a plane.
    pub fn linesize(&self, idx: usize) -> (r: Result<usize, FrameError>)
        ensures
            r == (if idx <= 2 {
                Ok::<usize, FrameError>(self.width)
            } else {
                Err(FrameError::InvalidIndex)
            }),
    {
        if idx <= 2 {
            Ok(self.width)
        } else {
            Err(FrameError::InvalidIndex)
        }
    }

    /// The number of planes.
    pub fn count(&self) -> (r: usize)
        ensures
            r == 3,
    {
        3
    }

    /// The bytes of a plane: the samples are interleaved, so each plane is the whole frame.
    pub fn as_slice_inner(&self, idx: usize) -> (r: Result<&[u8], FrameError>)
        ensures
            match r {
                Ok(s) => idx <= 2 && s@ == self.data@,
                Err(e) => idx > 2 && e == FrameError::InvalidIndex,
            },
    {
        if idx <= 2 {
            Ok(self.data.as_slice())
        } else {
            Err(FrameError::InvalidIndex)
        }
    }

    /// The bytes of a plane, to be written.
    pub fn as_mut_slice_inner(&mut self, idx: usize) -> (r: Result<&mut [u8], FrameError>)
        ensures
            match r {
                Ok(s) => {
                    &&& idx <= 2
                    &&& s@ == old(self).data@
                    &&& final(self).data@ == final(s)@
                    &&& final(self).width == old(self).width
                    &&& final(self).height == old(self).height
                },
                Err(e) => idx > 2 && e == FrameError::InvalidIndex && *final(self) == *old(self),
            },
    {
        if idx <= 2 {
            Ok(self.data.as_mut_slice())
        } else {
            Err(FrameError::InvalidIndex)
        }
    }
}

} // verus!
