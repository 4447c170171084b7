use vstd::arithmetic::div_mod::lemma_fundamental_div_mod_converse;
use vstd::prelude::*;

use crate::filter::{filtered, neighborhood_sum, output_channel, window_sum};
use crate::kernel::Kernel;
use crate::raster::{byte_index, channel, is_interior, lemma_index_in_bounds, shaped};

verus! {

/// Byte `byte_index(width, x, y, c)` of a pass's output is the output value
/// of channel `c` at pixel `(x, y)`.
pub proof fn lemma_filtered_at(
    k: Kernel,
    src: Seq<u8>,
    width: int,
    height: int,
    x: int,
    y: int,
    c: int,
)
    requires
        shaped(src, width, height),
        0 <= x < width,
        0 <= y < height,
        0 <= c < 4,
    ensures
        0 <= byte_index(width, x, y, c) < src.len(),
        filtered(k, src, width, height)[byte_index(width, x, y, c)] == output_channel(
            k,
            src,
            width,
            height,
            x,
            y,
            c,
        ) as u8,
{
    let i = byte_index(width, x, y, c);
    let p = y * width + x;
    lemma_index_in_bounds(width, height, x, y, c);
    lemma_fundamental_div_mod_converse(i, 4, p, c);
    lemma_fundamental_div_mod_converse(p, width, y, x);
}

/// With the identity kernel (centre weight 1, all others 0, divisor 1) every
/// interior pixel keeps its red, green and blue bytes.
pub proof fn lemma_identity_kernel(
    k: Kernel,
    src: Seq<u8>,
    width: int,
    height: int,
    x: int,
    y: int,
    c: int,
)
    requires
        k.spec_weights() == seq![0int, 0, 0, 0, 1, 0, 0, 0, 0],
        k.spec_divisor() == 1,
        shaped(src, width, height),
        is_interior(width, height, x, y),
        0 <= c < 3,
    ensures
        filtered(k, src, width, height)[byte_index(width, x, y, c)] == src[byte_index(
            width,
            x,
            y,
            c,
        )],
{
    lemma_filtered_at(k, src, width, height, x, y, c);
    let w = k.spec_weights();
    assert(w[0] == 0 && w[1] == 0 && w[2] == 0 && w[3] == 0 && w[4] == 1);
    assert(w[5] == 0 && w[6] == 0 && w[7] == 0 && w[8] == 0);
    assert(window_sum(w, src, width, x, y, c, 0) == 0);
    assert(w[0] * channel(src, width, x - 1, y - 1, c) == 0);
    assert(window_sum(w, src, width, x, y, c, 1) == window_sum(w, src, width, x, y, c, 0) + w[0] * channel(
        src,
        width,
        x - 1,
        y - 1,
        c,
    ));
    assert(w[1] * channel(src, width, x, y - 1, c) == 0);
    assert(window_sum(w, src, width, x, y, c, 2) == window_sum(w, src, width, x, y, c, 1) + w[1] * channel(
        src,
        width,
        x,
        y - 1,
        c,
    ));
    assert(w[2] * channel(src, width, x + 1, y - 1, c) == 0);
    assert(window_sum(w, src, width, x, y, c, 3) == window_sum(w, src, width, x, y, c, 2) + w[2] * channel(
        src,
        width,
        x + 1,
        y - 1,
        c,
    ));
    assert(w[3] * channel(src, width, x - 1, y, c) == 0);
    assert(window_sum(w, src, width, x, y, c, 4) == window_sum(w, src, width, x, y, c, 3) + w[3] * channel(
        src,
        width,
        x - 1,
        y,
        c,
    ));
    assert(w[4] * channel(src, width, x, y, c) == channel(src, width, x, y, c));
    assert(window_sum(w, src, width, x, y, c, 5) == window_sum(w, src, width, x, y, c, 4) + w[4] * channel(
        src,
        width,
        x,
        y,
        c,
    ));
    assert(w[5] * channel(src, width, x + 1, y, c) == 0);
    assert(window_sum(w, src, width, x, y, c, 6) == window_sum(w, src, width, x, y, c, 5) + w[5] * channel(
        src,
        width,
        x + 1,
        y,
        c,
    ));
    assert(w[6] * channel(src, width, x - 1, y + 1, c) == 0);
    assert(window_sum(w, src, width, x, y, c, 7) == window_sum(w, src, width, x, y, c, 6) + w[6] * channel(
        src,
        width,
        x - 1,
        y + 1,
        c,
    ));
    assert(w[7] * channel(src, width, x, y + 1, c) == 0);
    assert(window_sum(w, src, width, x, y, c, 8) == window_sum(w, src, width, x, y, c, 7) + w[7] * channel(
        src,
        width,
        x,
        y + 1,
        c,
    ));
    assert(w[8] * channel(src, width, x + 1, y + 1, c) == 0);
    assert(window_sum(w, src, width, x, y, c, 9) == window_sum(w, src, width, x, y, c, 8) + w[8] * channel(
        src,
        width,
        x + 1,
        y + 1,
        c,
    ));
    assert(neighborhood_sum(k.spec_weights(), src, width, x, y, c) == channel(
        src,
        width,
        x,
        y,
        c,
    ));
}

/// Every interior pixel of the output keeps the source alpha, whatever the
/// kernel.
pub proof fn lemma_alpha_preserved(
    k: Kernel,
    src: Seq<u8>,
    width: int,
    height: int,
    x: int,
    y: int,
)
    requires
        shaped(src, width, height),
        is_interior(width, height, x, y),
    ensures
        filtered(k, src, width, height)[byte_index(width, x, y, 3)] == src[byte_index(
            width,
            x,
            y,
            3,
        )],
{
    lemma_filtered_at(k, src, width, height, x, y, 3);
}

/// Every channel of a pixel on the 1-pixel border of the output is zero,
/// whatever the kernel.
pub proof fn lemma_border_zero(
    k: Kernel,
    src: Seq<u8>,
    width: int,
    height: int,
    x: int,
    y: int,
    c: int,
)
    requires
        shaped(src, width, height),
        0 <= x < width,
        0 <= y < height,
        x == 0 || x == width - 1 || y == 0 || y == height - 1,
        0 <= c < 4,
    ensures
        filtered(k, src, width, height)[byte_index(width, x, y, c)] == 0,
{
    lemma_filtered_at(k, src, width, height, x, y, c);
}

/// Scaling every weight by `factor` scales each prefix of the window sum by
/// `factor`.
proof fn lemma_window_sum_scaled(
    w1: Seq<int>,
    w2: Seq<int>,
    factor: int,
    src: Seq<u8>,
    width: int,
    x: int,
    y: int,
    c: int,
    n: nat,
)
    requires
        n <= w1.len(),
        w2.len() == w1.len(),
        forall|i: int| 0 <= i < w1.len() ==> #[trigger] w2[i] == factor * w1[i],
    ensures
        window_sum(w2, src, width, x, y, c, n) == factor * window_sum(w1, src, width, x, y, c, n),
    decreases n,
{
    if n > 0 {
        let i = n - 1;
        lemma_window_sum_scaled(w1, w2, factor, src, width, x, y, c, (n - 1) as nat);
        let s1 = window_sum(w1, src, width, x, y, c, (n - 1) as nat);
        let v = channel(src, width, x + i % 3 - 1, y + i / 3 - 1, c);
        assert(factor * s1 + (factor * w1[i]) * v == factor * (s1 + w1[i] * v)) by (nonlinear_arith);
    }
}

/// Scaling all weights of a kernel by `factor` scales the pre-clamp sum of
/// every channel at every interior pixel by `factor`.
pub proof fn lemma_linearity(
    k1: Kernel,
    k2: Kernel,
    factor: int,
    src: Seq<u8>,
    width: int,
    height: int,
    x: int,
    y: int,
    c: int,
)
    requires
        k2.spec_weights() == k1.spec_weights().map_values(|v: int| factor * v),
        shaped(src, width, height),
        is_interior(width, height, x, y),
        0 <= c < 3,
    ensures
        neighborhood_sum(k2.spec_weights(), src, width, x, y, c) == factor * neighborhood_sum(
            k1.spec_weights(),
            src,
            width,
            x,
            y,
            c,
        ),
{
    k1.lemma_nine_weights();
    lemma_window_sum_scaled(
        k1.spec_weights(),
        k2.spec_weights(),
        factor,
        src,
        width,
        x,
        y,
        c,
        9,
    );
}

} // verus!
