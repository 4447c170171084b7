use vstd::arithmetic::div_mod::{lemma_fundamental_div_mod, lemma_fundamental_div_mod_converse};
use vstd::prelude::*;

use crate::kernel::Kernel;
use crate::raster::{byte_index, channel, is_interior, lemma_index_in_bounds, shaped, RgbaImage};

verus! {

/// Largest magnitude of one weighted term: a 32-bit weight times a channel.
pub const TERM_BOUND: i64 = 547_608_330_240;

/// Sum of the first `n` weighted terms of the 3x3 window centred on
/// `(x, y)`, channel `c`: cell `i` has weight `w[i]` and samples pixel
/// `(x + i % 3 - 1, y + i / 3 - 1)`.
pub open spec fn window_sum(
    w: Seq<int>,
    src: Seq<u8>,
    width: int,
    x: int,
    y: int,
    c: int,
    n: nat,
) -> int
    decreases n,
{
    if n == 0 {
        0
    } else {
        let i = n - 1;
        window_sum(w, src, width, x, y, c, (n - 1) as nat) + w[i] * channel(
            src,
            width,
            x + i % 3 - 1,
            y + i / 3 - 1,
            c,
        )
    }
}

/// The pre-clamp value of channel `c` at `(x, y)`, as a numerator over the
/// kernel's divisor: the weighted sum over the whole 3x3 window.
pub open spec fn neighborhood_sum(
    w: Seq<int>,
    src: Seq<u8>,
    width: int,
    x: int,
    y: int,
    c: int,
) -> int {
    window_sum(w, src, width, x, y, c, 9)
}

/// The 8-bit value of `sum / divisor` clamped to `[0, 255]`, with the
/// fraction truncated.
pub open spec fn clamp_channel(sum: int, divisor: int) -> int {
    if sum < 0 {
        0
    } else if sum / divisor > 255 {
        255
    } else {
        sum / divisor
    }
}

/// Weighted sums of the red, green and blue channels over the 3x3 window
/// centred on the interior pixel `(x, y)`; alpha is not sampled.
pub fn apply_kernel(kernel: &Kernel, image: &RgbaImage, x: u32, y: u32) -> (r: [i64; 3])
    requires
        image.wf(),
        is_interior(image.width as int, image.height as int, x as int, y as int),
    ensures
        forall|c: int|
            0 <= c < 3 ==> #[trigger] r[c] as int == neighborhood_sum(
                kernel.spec_weights(),
                image.data@,
                image.width as int,
                x as int,
                y as int,
                c,
            ),
{
    let ghost w = kernel.spec_weights();
    let ghost src = image.data@;
    let ghost width = image.width as int;
    proof {
        kernel.lemma_nine_weights();
    }
    let mut sums: [i64; 3] = [0, 0, 0];
    let mut cell: usize = 0;
    while cell < 9
        invariant
            cell <= 9,
            w == kernel.spec_weights(),
            w.len() == 9,
            src == image.data@,
            width == image.width as int,
            image.wf(),
            is_interior(image.width as int, image.height as int, x as int, y as int),
            forall|c: int|
                0 <= c < 3 ==> #[trigger] sums[c] as int == window_sum(
                    w,
                    src,
                    width,
                    x as int,
                    y as int,
                    c,
                    cell as nat,
                ),
            forall|c: int|
                0 <= c < 3 ==> -(cell as int) * TERM_BOUND <= #[trigger] sums[c] <= cell as int
                    * TERM_BOUND,
        decreases 9 - cell,
    {
        let weight: i64 = kernel.weight(cell) as i64;
        let nx: u32 = x + (cell % 3) as u32 - 1;
        let ny: u32 = y + (cell / 3) as u32 - 1;
        let mut c: usize = 0;
        while c < 3
            invariant
                cell < 9,
                c <= 3,
                weight as int == w[cell as int],
                i32::MIN <= weight <= i32::MAX,
                nx as int == x as int + cell as int % 3 - 1,
                ny as int == y as int + cell as int / 3 - 1,
                nx < image.width,
                ny < image.height,
                w == kernel.spec_weights(),
                w.len() == 9,
                src == image.data@,
                width == image.width as int,
                image.wf(),
                forall|d: int|
                    0 <= d < c ==> #[trigger] sums[d] as int == window_sum(
                        w,
                        src,
                        width,
                        x as int,
                        y as int,
                        d,
                        (cell + 1) as nat,
                    ),
                forall|d: int|
                    c <= d < 3 ==> #[trigger] sums[d] as int == window_sum(
                        w,
                        src,
                        width,
                        x as int,
                        y as int,
                        d,
                        cell as nat,
                    ),
                forall|d: int|
                    0 <= d < c ==> -(cell + 1) * TERM_BOUND <= #[trigger] sums[d] <= (cell + 1)
                        * TERM_BOUND,
                forall|d: int|
                    c <= d < 3 ==> -(cell as int) * TERM_BOUND <= #[trigger] sums[d] <= cell as int
                        * TERM_BOUND,
            decreases 3 - c,
        {
            let sample: i64 = image.channel_at(nx, ny, c) as i64;
            assert(-TERM_BOUND <= weight * sample <= TERM_BOUND) by (nonlinear_arith)
                requires
                    i32::MIN <= weight <= i32::MAX,
                    0 <= sample <= 255,
            ;
            let term: i64 = weight * sample;
            sums[c] = sums[c] + term;
            c = c + 1;
        }
        cell = cell + 1;
    }
    sums
}

/// Converts three pre-clamp sums over `divisor` into 8-bit channels, each
/// clamped to `[0, 255]` and truncated.
pub fn clamp_rgb_values(rgb_accumulator: [i64; 3], divisor: u32) -> (r: [u8; 3])
    requires
        divisor > 0,
    ensures
        forall|c: int|
            0 <= c < 3 ==> #[trigger] r[c] as int == clamp_channel(
                rgb_accumulator[c] as int,
                divisor as int,
            ),
{
    let mut out: [u8; 3] = [0, 0, 0];
    let mut c: usize = 0;
    while c < 3
        invariant
            c <= 3,
            divisor > 0,
            forall|d: int|
                0 <= d < c ==> #[trigger] out[d] as int == clamp_channel(
                    rgb_accumulator[d] as int,
                    divisor as int,
                ),
        decreases 3 - c,
    {
        let sum: i64 = rgb_accumulator[c];
        let value: u8 = if sum < 0 {
            0
        } else {
            let q: i64 = sum / divisor as i64;
            if q > 255 {
                255
            } else {
                q as u8
            }
        };
        out[c] = value;
        c = c + 1;
    }
    out
}

/// Why a filter pass was refused.
#[derive(Clone, Copy, Debug, PartialEq, Eq)]
pub enum FilterError {
    /// The buffer length is not `width * height * 4`.
    MalformedInput,
    /// The width or the height is below 2.
    DegenerateImage,
}

/// The result of a filter pass: the source dimensions and the new buffer.
pub struct ProcessedImage {
    pub width: u32,
    pub height: u32,
    pub data: Vec<u8>,
}

/// The value of channel `c` of output pixel `(x, y)`: zero on the 1-pixel
/// border, the source alpha for `c == 3`, otherwise the clamped weighted sum.
pub open spec fn output_channel(
    k: Kernel,
    src: Seq<u8>,
    width: int,
    height: int,
    x: int,
    y: int,
    c: int,
) -> int {
    if !is_interior(width, height, x, y) {
        0
    } else if c == 3 {
        channel(src, width, x, y, 3)
    } else {
        clamp_channel(neighborhood_sum(k.spec_weights(), src, width, x, y, c), k.spec_divisor())
    }
}

/// The output buffer of a pass over `src`: byte `i` is channel `i % 4` of
/// pixel `i / 4`, which lies at column `(i / 4) % width`, row `(i / 4) / width`.
pub open spec fn filtered(k: Kernel, src: Seq<u8>, width: int, height: int) -> Seq<u8> {
    Seq::new(
        src.len(),
        |i: int| output_channel(k, src, width, height, (i / 4) % width, (i / 4) / width, i % 4) as u8,
    )
}

/// Distinct in-bounds (pixel, channel) pairs have distinct buffer positions.
proof fn lemma_index_injective(width: int, x1: int, y1: int, c1: int, x2: int, y2: int, c2: int)
    requires
        0 <= x1 < width,
        0 <= x2 < width,
        0 <= y1,
        0 <= y2,
        0 <= c1 < 4,
        0 <= c2 < 4,
        byte_index(width, x1, y1, c1) == byte_index(width, x2, y2, c2),
    ensures
        x1 == x2 && y1 == y2 && c1 == c2,
{
    let first = y1 * width + x1;
    let second = y2 * width + x2;
    lemma_fundamental_div_mod_converse(byte_index(width, x1, y1, c1), 4, first, c1);
    lemma_fundamental_div_mod_converse(byte_index(width, x2, y2, c2), 4, second, c2);
    lemma_fundamental_div_mod_converse(first, width, y1, x1);
    lemma_fundamental_div_mod_converse(second, width, y2, x2);
}

/// Position `i` of a shaped buffer is channel `i % 4` of the pixel at column
/// `(i / 4) % width`, row `(i / 4) / width`.
proof fn lemma_index_decompose(width: int, height: int, i: int)
    requires
        width > 0,
        height > 0,
        0 <= i < width * height * 4,
    ensures
        0 <= (i / 4) % width < width,
        0 <= (i / 4) / width < height,
        byte_index(width, (i / 4) % width, (i / 4) / width, i % 4) == i,
{
    let p = i / 4;
    lemma_fundamental_div_mod(i, 4);
    lemma_fundamental_div_mod(p, width);
    assert(p < width * height);
    assert(p == (p / width) * width + p % width) by (nonlinear_arith)
        requires
            p == width * (p / width) + p % width,
    ;
    assert((i / 4) / width < height) by (nonlinear_arith)
        requires
            0 <= p < width * height,
            p == i / 4,
            width > 0,
    ;
}

/// Applies the 3x3 kernel to every interior pixel of a row-major RGBA8 buffer
/// of the given dimensions. The output has the same dimensions; its border
/// pixels stay zero, and each interior pixel gets the clamped weighted sums
/// of its neighbourhood's red, green and blue and its own source alpha.
pub fn process_image(kernel: Kernel, image: Vec<u8>, width: u32, height: u32) -> (r: Result<
    ProcessedImage,
    FilterError,
>)
    ensures
        !shaped(image@, width as int, height as int) <==> r == Err::<
            ProcessedImage,
            FilterError,
        >(FilterError::MalformedInput),
        shaped(image@, width as int, height as int) && (width < 2 || height < 2) <==> r == Err::<
            ProcessedImage,
            FilterError,
        >(FilterError::DegenerateImage),
        r is Ok ==> r->Ok_0.width == width && r->Ok_0.height == height
            && r->Ok_0.data@.len() == image@.len()
            && r->Ok_0.data@ == filtered(kernel, image@, width as int, height as int),
{
    let ghost src = image@;
    let img = match RgbaImage::from_raw(width, height, image) {
        Some(img) => img,
        None => {
            return Err(FilterError::MalformedInput);
        },
    };
    if width < 2 || height < 2 {
        return Err(FilterError::DegenerateImage);
    }
    let ghost w = width as int;
    let ghost h = height as int;
    let n: usize = img.data.len();
    let divisor: u32 = kernel.divisor();
    let mut out: Vec<u8> = vec![0u8; n];
    proof {
        assert forall|px: int, py: int, c: int|
            0 <= px < w && 0 <= py < h && 0 <= c < 4 implies #[trigger] out@[byte_index(
                w,
                px,
                py,
                c,
            )] == 0 by {
            lemma_index_in_bounds(w, h, px, py, c);
        }
    }
    let mut y: u32 = 1;
    while y < height - 1
        invariant
            img.wf(),
            img.data@ == src,
            img.width == width,
            img.height == height,
            w == width as int,
            h == height as int,
            width >= 2,
            height >= 2,
            n == src.len(),
            divisor as int == kernel.spec_divisor(),
            divisor > 0,
            1 <= y <= height - 1,
            out@.len() == n,
            forall|px: int, py: int, c: int|
                0 <= px < w && 0 <= py < h && 0 <= c < 4 ==> #[trigger] out@[byte_index(
                    w,
                    px,
                    py,
                    c,
                )] == (if is_interior(w, h, px, py) && py < y {
                    output_channel(kernel, src, w, h, px, py, c)
                } else {
                    0
                }),
        decreases height - y,
    {
        let mut x: u32 = 1;
        while x < width - 1
            invariant
                img.wf(),
                img.data@ == src,
                img.width == width,
                img.height == height,
                w == width as int,
                h == height as int,
                width >= 2,
                height >= 2,
                n == src.len(),
                divisor as int == kernel.spec_divisor(),
                divisor > 0,
                1 <= y < height - 1,
                1 <= x <= width - 1,
                out@.len() == n,
                forall|px: int, py: int, c: int|
                    0 <= px < w && 0 <= py < h && 0 <= c < 4 ==> #[trigger] out@[byte_index(
                        w,
                        px,
                        py,
                        c,
                    )] == (if is_interior(w, h, px, py) && (py < y || (py == y && px < x)) {
                        output_channel(kernel, src, w, h, px, py, c)
                    } else {
                        0
                    }),
            decreases width - x,
        {
            let sums: [i64; 3] = apply_kernel(&kernel, &img, x, y);
            let rgb: [u8; 3] = clamp_rgb_values(sums, divisor);
            let alpha: u8 = img.channel_at(x, y, 3);
            let base: usize = img.index_of(x, y, 0);
            let ghost before = out@;
            proof {
                lemma_index_in_bounds(w, h, x as int, y as int, 3);
            }
            out.set(base, rgb[0]);
            out.set(base + 1, rgb[1]);
            out.set(base + 2, rgb[2]);
            out.set(base + 3, alpha);
            proof {
                assert forall|px: int, py: int, c: int|
                    0 <= px < w && 0 <= py < h && 0 <= c < 4 implies #[trigger] out@[byte_index(
                        w,
                        px,
                        py,
                        c,
                    )] == (if is_interior(w, h, px, py) && (py < y || (py == y && px < x + 1)) {
                        output_channel(kernel, src, w, h, px, py, c)
                    } else {
                        0
                    }) by {
                    if px == x && py == y {
                        assert(byte_index(w, px, py, c) == base + c);
                        assert(rgb[0] as int == output_channel(kernel, src, w, h, px, py, 0));
                        assert(rgb[1] as int == output_channel(kernel, src, w, h, px, py, 1));
                        assert(rgb[2] as int == output_channel(kernel, src, w, h, px, py, 2));
                    } else {
                        let i = byte_index(w, px, py, c);
                        lemma_index_in_bounds(w, h, px, py, c);
                        if 0 <= i - base < 4 {
                            lemma_index_injective(w, px, py, c, x as int, y as int, i - base);
                        }
                        assert(out@[i] == before[i]);
                    }
                }
            }
            x = x + 1;
        }
        y = y + 1;
    }
    proof {
        assert forall|i: int| 0 <= i < n implies out@[i] == filtered(kernel, src, w, h)[i] by {
            lemma_index_decompose(w, h, i);
            let px = (i / 4) % w;
            let py = (i / 4) / w;
            assert(out@[byte_index(w, px, py, i % 4)] == out@[i]);
        }
        assert(out@ =~= filtered(kernel, src, w, h));
    }
    Ok(ProcessedImage { width, height, data: out })
}

} // verus!
