//! What holds of the conversions between colour layouts, said of the bytes that go in and come out.
use vstd::prelude::*;
use vstd::arithmetic::div_mod::lemma_fundamental_div_mod_converse;
use crate::image::{
    blue_difference, doubled_image, exchanged_image, luma, planar_image, red_difference,
    rgba_image, square_sum, yuyv_image, half, YUVBuf,
};

verus! {

/// A number of millionths is cut to its whole part, where that is a byte, and else to the nearest
/// byte.
pub open spec fn is_cut_to(millionths: int, r: u8) -> bool {
    ||| millionths < 0 && r == 0
    ||| millionths >= 255_000_000 && r == 255
    ||| 1_000_000 * r <= millionths < 1_000_000 * (r + 1)
}

/// The conversion of YUYV works group by group: each pair of pixels depends on its own four bytes
/// alone, and a group that is not whole comes to nothing.
pub proof fn yuyv_goes_by_groups(a: Seq<u8>, b: Seq<u8>, rgba: bool)
    requires
        a.len() % 4 == 0,
    ensures
        yuyv_image(a + b, rgba) == yuyv_image(a, rgba) + yuyv_image(b, rgba),
        b.len() < 4 ==> yuyv_image(a + b, rgba) == yuyv_image(a, rgba),
{
    let both = a + b;
    let left = yuyv_image(a, rgba);
    let right = yuyv_image(b, rgba);
    let all = yuyv_image(both, rgba);
    assert(all.len() == left.len() + right.len());
    assert forall|i: int| 0 <= i < all.len() implies all[i] == (left + right)[i] by {
        let pixel = if rgba {
            i / 4
        } else {
            i / 3
        };
        let group = 4 * (pixel / 2);
        if i < left.len() {
            assert(group + 3 < a.len());
            assert(both[group] == a[group]);
            assert(both[group + 1] == a[group + 1]);
            assert(both[group + 2] == a[group + 2]);
            assert(both[group + 3] == a[group + 3]);
            assert(both[group + 2 * (pixel % 2)] == a[group + 2 * (pixel % 2)]);
        } else {
            let j = i - left.len();
            let other = if rgba {
                j / 4
            } else {
                j / 3
            };
            let n = a.len() as int;
            assert(other == pixel - n / 2);
            assert(pixel % 2 == other % 2);
            let there = 4 * (other / 2);
            assert(group == there + n);
            assert(there + 3 < b.len());
            assert(both[group + 1] == b[there + 1]);
            assert(both[group + 3] == b[there + 3]);
            assert(both[group + 2 * (pixel % 2)] == b[there + 2 * (other % 2)]);
        }
    }
    assert(all == left + right);
    if b.len() < 4 {
        assert(right.len() == 0);
        assert(left + right == left);
    }
}

/// Of the four bytes of a group the first and the third are the brightness of the two pixels, the
/// second is the blue and the fourth the red difference that they share. What comes out is red, green
/// and blue of each pixel, and its opacity where that is asked for.
pub proof fn yuyv_group_is_two_pixels(data: Seq<u8>, rgba: bool, group: int, second: bool)
    requires
        0 <= group < data.len() / 4,
    ensures
        ({
            let y = if second {
                data[4 * group + 2]
            } else {
                data[4 * group]
            };
            let u = data[4 * group + 1];
            let v = data[4 * group + 3];
            let place = if second {
                2 * group + 1
            } else {
                2 * group
            };
            let at = if rgba {
                4 * place
            } else {
                3 * place
            };
            let out = yuyv_image(data, rgba);
            &&& is_cut_to(1_000_000 * y + 1_370_705 * (v - 128), out[at])
            &&& is_cut_to(
                1_000_000 * y - 698_001 * (v - 128) - 337_633 * (u - 128),
                out[at + 1],
            )
            &&& is_cut_to(1_000_000 * y + 1_732_446 * (u - 128), out[at + 2])
            &&& rgba ==> out[at + 3] == 255
            &&& u == 128 && v == 128 ==> out[at] == y && out[at + 1] == y && out[at + 2] == y
        }),
        yuyv_image(data, rgba).len() == (if rgba {
            8 * (data.len() / 4)
        } else {
            6 * (data.len() / 4)
        }),
{
    let place = if second {
        2 * group + 1
    } else {
        2 * group
    };
    assert(4 * (place / 2) == 4 * group);
    assert(place % 2 == (if second {
        1int
    } else {
        0int
    }));
    if rgba {
        assert((4 * place) / 4 == place && (4 * place) % 4 == 0);
        assert((4 * place + 1) / 4 == place && (4 * place + 1) % 4 == 1);
        assert((4 * place + 2) / 4 == place && (4 * place + 2) % 4 == 2);
        assert((4 * place + 3) / 4 == place && (4 * place + 3) % 4 == 3);
    } else {
        assert((3 * place) / 3 == place && (3 * place) % 3 == 0);
        assert((3 * place + 1) / 3 == place && (3 * place + 1) % 3 == 1);
        assert((3 * place + 2) / 3 == place && (3 * place + 2) % 3 == 2);
    }
}

/// The conversion of BGR to RGBA works pixel by pixel: a pixel that is not whole comes to nothing.
pub proof fn rgba_goes_by_pixels(a: Seq<u8>, b: Seq<u8>)
    requires
        a.len() % 3 == 0,
    ensures
        rgba_image(a + b) == rgba_image(a) + rgba_image(b),
        b.len() < 3 ==> rgba_image(a + b) == rgba_image(a),
{
    let both = a + b;
    let left = rgba_image(a);
    let right = rgba_image(b);
    let all = rgba_image(both);
    assert(all.len() == left.len() + right.len());
    assert forall|i: int| 0 <= i < all.len() implies all[i] == (left + right)[i] by {
        if i < left.len() {
            if i % 4 != 3 {
                let at = 3 * (i / 4) + 2 - i % 4;
                assert(0 <= at < a.len());
                assert(both[at] == a[at]);
            }
        } else {
            let j = i - left.len();
            assert(i % 4 == j % 4);
            if i % 4 != 3 {
                let at = 3 * (j / 4) + 2 - j % 4;
                assert(3 * (i / 4) + 2 - i % 4 == at + a.len());
                assert(both[at + a.len()] == b[at]);
            }
        }
    }
    assert(all == left + right);
    if b.len() < 3 {
        assert(right.len() == 0);
        assert(left + right == left);
    }
}

/// Blue, green and red become red, green, blue and full opacity.
pub proof fn rgba_turns_each_pixel(data: Seq<u8>, pixel: int)
    requires
        0 <= pixel < data.len() / 3,
    ensures
        rgba_image(data).len() == 4 * (data.len() / 3),
        rgba_image(data)[4 * pixel] == data[3 * pixel + 2],
        rgba_image(data)[4 * pixel + 1] == data[3 * pixel + 1],
        rgba_image(data)[4 * pixel + 2] == data[3 * pixel],
        rgba_image(data)[4 * pixel + 3] == 255,
{
}

/// Exchanging turns each pixel round, and leaves what is no whole pixel.
pub proof fn exchange_turns_each_pixel(data: Seq<u8>, i: int)
    ensures
        exchanged_image(data).len() == data.len(),
        0 <= i < data.len() / 3 ==> {
            &&& exchanged_image(data)[3 * i] == data[3 * i + 2]
            &&& exchanged_image(data)[3 * i + 1] == data[3 * i + 1]
            &&& exchanged_image(data)[3 * i + 2] == data[3 * i]
        },
        3 * (data.len() / 3) <= i < data.len() ==> exchanged_image(data)[i] == data[i],
{
    if 0 <= i < data.len() / 3 {
        assert((3 * i) / 3 == i && (3 * i) % 3 == 0);
        assert((3 * i + 1) / 3 == i && (3 * i + 1) % 3 == 1);
        assert((3 * i + 2) / 3 == i && (3 * i + 2) % 3 == 2);
    }
}

/// A number of parts is cut to its whole part.
pub open spec fn is_whole_part(parts: int, of: int, r: u8) -> bool {
    of * r <= parts < of * (r + 1)
}

/// The brightness of a pixel is 66 parts of red, 129 of green and 25 of blue in 256, from 16 on; it
/// stays in the studio range.
pub proof fn brightness_is_weighted(b: u8, g: u8, r: u8)
    ensures
        is_whole_part(66 * r + 129 * g + 25 * b + 4096, 256, luma(b, g, r)),
        16 <= luma(b, g, r) <= 235,
{
}

/// The colour differences are weighted parts in 256, about 128. They do not see brightness: a grey has
/// none.
pub proof fn differences_are_weighted(b: int, g: int, r: int, n: int)
    requires
        n == 1 || n == 4,
        0 <= b <= 255 * n,
        0 <= g <= 255 * n,
        0 <= r <= 255 * n,
    ensures
        is_whole_part(
            112 * b - 74 * g - 38 * r + 32768 * n,
            256 * n,
            blue_difference(b, g, r, n),
        ),
        is_whole_part(
            112 * r - 94 * g - 18 * b + 32768 * n,
            256 * n,
            red_difference(b, g, r, n),
        ),
        b == g && g == r ==> blue_difference(b, g, r, n) == 128 && red_difference(
            b,
            g,
            r,
            n,
        ) == 128,
{
    if n == 1 {
        assert(256 * n == 256);
    } else {
        assert(256 * n == 1024);
    }
}

/// The brightness of a pixel in a square of two by two stands at its place, line by line, and depends
/// on its own three bytes alone.
pub proof fn brightness_stands_at_its_pixel(s: Seq<u8>, width: int, height: int, x: int, y: int)
    requires
        0 <= x < 2 * (width / 2),
        0 <= y < 2 * (height / 2),
    ensures
        planar_image(s, width, height).len() == (3 * width * height) / 2,
        planar_image(s, width, height)[x + y * width] == luma(
            s[3 * (x + y * width)],
            s[3 * (x + y * width) + 1],
            s[3 * (x + y * width) + 2],
        ),
{
    let i = x + y * width;
    lemma_place(width, height, x, y);
    lemma_sizes(width, height);
    assert(i % width == x && i / width == y);
    assert((x + y * width) * 3 == 3 * i);
}

/// The place of a column and a row, line by line.
proof fn lemma_place(width: int, height: int, x: int, y: int)
    requires
        0 <= x < width,
        0 <= y < height,
    ensures
        0 <= x + y * width < width * height,
        (x + y * width) % width == x,
        (x + y * width) / width == y,
{
    assert(0 <= y * width) by (nonlinear_arith)
        requires
            0 <= y,
            0 <= width,
    ;
    assert((y + 1) * width <= height * width) by (nonlinear_arith)
        requires
            y + 1 <= height,
            0 <= width,
    ;
    assert((y + 1) * width == y * width + width) by (nonlinear_arith);
    assert(height * width == width * height) by (nonlinear_arith);
    lemma_fundamental_div_mod_converse(x + y * width, width, y, x);
}

proof fn lemma_sizes(width: int, height: int)
    requires
        0 <= width,
        0 <= height,
    ensures
        3 * width * height == 3 * (width * height),
        0 <= (width / 2) * (height / 2) <= (width * height) / 4,
{
    assert(3 * width * height == 3 * (width * height)) by (nonlinear_arith);
    let a = width / 2;
    let b = height / 2;
    assert(0 <= a * b) by (nonlinear_arith)
        requires
            0 <= a,
            0 <= b,
    ;
    assert(4 * (a * b) <= width * height) by (nonlinear_arith)
        requires
            0 <= 2 * a <= width,
            0 <= 2 * b <= height,
    ;
}

/// The sum of one of the three bytes over the four pixels of a square.
pub open spec fn over_the_square(s: Seq<u8>, width: int, x: int, y: int, c: int) -> int {
    s[3 * (2 * x + (2 * y) * width) + c] + s[3 * (2 * x + 1 + (2 * y) * width) + c] + s[3 * (2 * x
        + (2 * y + 1) * width) + c] + s[3 * (2 * x + 1 + (2 * y + 1) * width) + c]
}

/// The colour differences of a square stand at its place behind the brightness, square by square, the
/// blue ones first, and depend on the four pixels of the square alone.
pub proof fn differences_stand_at_their_square(
    s: Seq<u8>,
    width: int,
    height: int,
    x: int,
    y: int,
)
    requires
        0 <= x < width / 2,
        0 <= y < height / 2,
    ensures
        planar_image(s, width, height)[width * height + x + y * (width / 2)]
            == blue_difference(
            over_the_square(s, width, x, y, 0),
            over_the_square(s, width, x, y, 1),
            over_the_square(s, width, x, y, 2),
            4,
        ),
        planar_image(s, width, height)[width * height + (width * height) / 4 + x + y * (width
            / 2)] == red_difference(
            over_the_square(s, width, x, y, 0),
            over_the_square(s, width, x, y, 1),
            over_the_square(s, width, x, y, 2),
            4,
        ),
{
    let columns = width / 2;
    let k = x + y * columns;
    lemma_place(columns, height / 2, x, y);
    lemma_sizes(width, height);
    let pixels = width * height;
    assert(0 <= k < columns * (height / 2));
    assert(k % columns == x && k / columns == y);
    assert forall|c: int| #[trigger] square_sum(s, width, x, y, c) == over_the_square(
        s,
        width,
        x,
        y,
        c,
    ) by {
        assert((2 * x + (2 * y) * width) * 3 == 3 * (2 * x + (2 * y) * width));
        assert((2 * x + (2 * y + 1) * width) * 3 == 3 * (2 * x + (2 * y + 1) * width));
        assert((2 * x + 1 + (2 * y) * width) * 3 == 3 * (2 * x + 1 + (2 * y) * width));
        assert((2 * x + 1 + (2 * y + 1) * width) * 3 == 3 * (2 * x + 1 + (2 * y + 1) * width));
    }
    assert(square_sum(s, width, x, y, 0) == over_the_square(s, width, x, y, 0));
    assert(square_sum(s, width, x, y, 1) == over_the_square(s, width, x, y, 1));
    assert(square_sum(s, width, x, y, 2) == over_the_square(s, width, x, y, 2));
}

/// Twice as wide and twice as high, every pixel is shown by the four at its place, and keeps its own
/// colour differences.
pub proof fn doubling_shows_each_pixel_four_times(
    s: Seq<u8>,
    width: int,
    height: int,
    x: int,
    y: int,
)
    requires
        0 <= x < 2 * width,
        0 <= y < 2 * height,
    ensures
        ({
            let out = doubled_image(s, width, height);
            let pixel = x / 2 + (y / 2) * width;
            let all = width * height;
            &&& out.len() == 6 * all
            &&& out[x + y * (2 * width)] == luma(
                s[3 * pixel],
                s[3 * pixel + 1],
                s[3 * pixel + 2],
            )
            &&& out[4 * all + pixel] == blue_difference(
                s[3 * pixel] as int,
                s[3 * pixel + 1] as int,
                s[3 * pixel + 2] as int,
                1,
            )
            &&& out[5 * all + pixel] == red_difference(
                s[3 * pixel] as int,
                s[3 * pixel + 1] as int,
                s[3 * pixel + 2] as int,
                1,
            )
        }),
{
    lemma_place(2 * width, 2 * height, x, y);
    lemma_place(width, height, x / 2, y / 2);
    let pixel = x / 2 + (y / 2) * width;
    assert((2 * width) * (2 * height) == 4 * (width * height)) by (nonlinear_arith);
    assert(6 * width * height == 6 * (width * height)) by (nonlinear_arith);
    assert(pixel * 3 == 3 * pixel);
}

/// The three planes of a buffer stand one behind the other and make it up. The first has a byte for
/// each pixel, and the second a byte for each four.
pub proof fn planes_make_the_buffer(buffer: YUVBuf)
    requires
        buffer.well_formed(),
    ensures
        buffer.plane(0).len() == buffer.width * buffer.height,
        buffer.plane(1).len() == (buffer.width * buffer.height) / 4,
        buffer.plane(0) + buffer.plane(1) + buffer.plane(2) == buffer.yuv@,
{
    assert(0 <= buffer.width * buffer.height) by (nonlinear_arith)
        requires
            buffer.width >= 0,
            buffer.height >= 0,
    ;
    assert(buffer.plane(0) + buffer.plane(1) + buffer.plane(2) == buffer.yuv@);
}

/// Half of a number is the whole number nearest to it towards zero.
pub proof fn half_is_cut_towards_zero(n: int)
    ensures
        n >= 0 ==> 2 * half(n) <= n <= 2 * half(n) + 1,
        half(-n) == -half(n),
{
}

} // verus!
