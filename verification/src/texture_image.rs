//! The pixel rows of a texture image in the order the GPU expects them:
//! decoded images list their rows top to bottom, a texture upload bottom to top.

use vstd::prelude::*;

verus! {

/// Row `y` of an image whose rows are `row_bytes` long.
pub open spec fn image_row(pixels: Seq<u8>, row_bytes: nat, y: nat) -> Seq<u8> {
    pixels.subrange((y * row_bytes) as int, ((y + 1) * row_bytes) as int)
}

/// The last `n` rows of an image of `height` rows, last row first.
pub open spec fn rows_bottom_up(pixels: Seq<u8>, row_bytes: nat, height: nat, n: nat) -> Seq<u8>
    decreases n,
{
    if n == 0 || n > height {
        seq![]
    } else {
        rows_bottom_up(pixels, row_bytes, height, (n - 1) as nat) + image_row(
            pixels,
            row_bytes,
            (height - n) as nat,
        )
    }
}

/// The image upside down: its row `y` is row `height - 1 - y` of `pixels`.
pub open spec fn flipped(pixels: Seq<u8>, row_bytes: nat, height: nat) -> Seq<u8> {
    rows_bottom_up(pixels, row_bytes, height, height)
}

/// Turns an image of `height` rows of `row_bytes` bytes upside down.
pub fn flip_vertical(pixels: &Vec<u8>, row_bytes: usize, height: usize) -> (flipped_pixels: Vec<u8>)
    requires
        pixels@.len() == row_bytes * height,
    ensures
        flipped_pixels@ == flipped(pixels@, row_bytes as nat, height as nat),
{
    let mut out: Vec<u8> = Vec::new();
    let mut y: usize = 0;
    while y < height
        invariant
            y <= height,
            pixels@.len() == row_bytes * height,
            out@ == rows_bottom_up(pixels@, row_bytes as nat, height as nat, y as nat),
        decreases height - y,
    {
        let ghost before = out@;
        let up = height - 1 - y;
        assert(up * row_bytes + row_bytes <= row_bytes * height) by (nonlinear_arith)
            requires
                up + 1 <= height,
        ;
        assert(pixels@.len() == pixels.len());
        let start = up * row_bytes;
        let mut x: usize = 0;
        while x < row_bytes
            invariant
                x <= row_bytes,
                start + row_bytes <= pixels.len(),
                out@ == before + pixels@.subrange(start as int, start + x),
            decreases row_bytes - x,
        {
            out.push(pixels[start + x]);
            x += 1;
            assert(out@ =~= before + pixels@.subrange(start as int, start + x));
        }
        assert((up + 1) * row_bytes == up * row_bytes + row_bytes) by (nonlinear_arith);
        y += 1;
    }
    out
}


proof fn lemma_rows_bottom_up_at(pixels: Seq<u8>, row_bytes: nat, height: nat, n: nat)
    requires
        pixels.len() == row_bytes * height,
        n <= height,
    ensures
        rows_bottom_up(pixels, row_bytes, height, n).len() == n * row_bytes,
        forall|y: nat, x: nat|
            y < n && x < row_bytes ==> #[trigger] rows_bottom_up(pixels, row_bytes, height, n)[(y
                * row_bytes + x) as int] == pixels[((height - 1 - y) * row_bytes + x) as int],
    decreases n,
{
    if n > 0 {
        lemma_rows_bottom_up_at(pixels, row_bytes, height, (n - 1) as nat);
        let prev = rows_bottom_up(pixels, row_bytes, height, (n - 1) as nat);
        let up = (height - n) as nat;
        assert(up * row_bytes + row_bytes <= row_bytes * height) by (nonlinear_arith)
            requires
                up + 1 <= height,
        ;
        assert((up + 1) * row_bytes == up * row_bytes + row_bytes) by (nonlinear_arith);
        assert(n * row_bytes == (n - 1) * row_bytes + row_bytes) by (nonlinear_arith)
            requires
                n >= 1,
        ;
        assert forall|y: nat, x: nat| y < n && x < row_bytes implies #[trigger] rows_bottom_up(
            pixels,
            row_bytes,
            height,
            n,
        )[(y * row_bytes + x) as int] == pixels[((height - 1 - y) * row_bytes + x) as int] by {
            if y < n - 1 {
                assert(y * row_bytes + x < (n - 1) * row_bytes) by (nonlinear_arith)
                    requires
                        y + 1 <= n - 1,
                        x < row_bytes,
                ;
            } else {
                assert(y * row_bytes == (n - 1) * row_bytes);
            }
        }
    }
}

/// Byte `x` of row `y` of the flipped image is byte `x` of row `height - 1 - y`.
pub proof fn lemma_flipped_at(pixels: Seq<u8>, row_bytes: nat, height: nat, y: nat, x: nat)
    requires
        pixels.len() == row_bytes * height,
        y < height,
        x < row_bytes,
    ensures
        flipped(pixels, row_bytes, height).len() == pixels.len(),
        flipped(pixels, row_bytes, height)[(y * row_bytes + x) as int] == pixels[((height - 1 - y)
            * row_bytes + x) as int],
{
    lemma_rows_bottom_up_at(pixels, row_bytes, height, height);
    assert(rows_bottom_up(pixels, row_bytes, height, height)[(y * row_bytes + x) as int]
        == pixels[((height - 1 - y) * row_bytes + x) as int]);
}

/// Turning an image upside down twice gives it back.
pub proof fn lemma_flipped_twice(pixels: Seq<u8>, row_bytes: nat, height: nat)
    requires
        pixels.len() == row_bytes * height,
    ensures
        flipped(flipped(pixels, row_bytes, height), row_bytes, height) == pixels,
{
    lemma_rows_bottom_up_at(pixels, row_bytes, height, height);
    let once = flipped(pixels, row_bytes, height);
    lemma_rows_bottom_up_at(once, row_bytes, height, height);
    let twice = flipped(once, row_bytes, height);
    assert forall|t: int| 0 <= t < pixels.len() implies twice[t] == pixels[t] by {
        let y = t / (row_bytes as int);
        let x = t % (row_bytes as int);
        assert(row_bytes > 0) by (nonlinear_arith)
            requires
                0 <= t < row_bytes * height,
        ;
        vstd::arithmetic::div_mod::lemma_fundamental_div_mod(t, row_bytes as int);
        assert(0 <= x < row_bytes);
        assert(0 <= y);
        assert(y < height) by (nonlinear_arith)
            requires
                t == row_bytes * y + x,
                0 <= x,
                t < row_bytes * height,
                row_bytes > 0,
        ;
        assert(t == y * row_bytes + x) by (nonlinear_arith)
            requires
                t == row_bytes * y + x,
        ;
        lemma_flipped_at(once, row_bytes, height, y as nat, x as nat);
        lemma_flipped_at(pixels, row_bytes, height, (height - 1 - y) as nat, x as nat);
    }
    assert(twice =~= pixels);
}

} // verus!
