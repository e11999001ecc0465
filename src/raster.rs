//! Row-major rasters and the change between bottom-up and top-down row order.

use vstd::prelude::*;
use vstd::arithmetic::div_mod::lemma_fundamental_div_mod_converse;

verus! {

/// Position, in a `width` by `height` row-major raster, of the pixel that sits
/// at position `k` once the rows are put in the opposite vertical order.
pub open spec fn flipped_index(k: nat, width: nat, height: nat) -> nat {
    ((height - 1 - k / width) * width + k % width) as nat
}

proof fn lemma_flipped_index(k: nat, width: nat, height: nat)
    requires
        k < width * height,
    ensures
        0 < width,
        k / width < height,
        flipped_index(k, width, height) < width * height,
        flipped_index(k, width, height) / width == height - 1 - k / width,
        flipped_index(k, width, height) % width == k % width,
{
    if width == 0 {
        assert(width * height == 0) by (nonlinear_arith)
            requires
                width == 0,
        ;
    }
    let row = k / width;
    let col = k % width;
    assert(k == row * width + col) by (nonlinear_arith)
        requires
            0 < width,
            row == k / width,
            col == k % width,
    ;
    assert(row < height) by (nonlinear_arith)
        requires
            k == row * width + col,
            k < width * height,
            0 <= col,
            0 < width,
    ;
    let f = (height - 1 - row) * width + col;
    assert(f < width * height) by (nonlinear_arith)
        requires
            f == (height - 1 - row) * width + col,
            col < width,
            row < height,
    ;
    lemma_fundamental_div_mod_converse(f, width as int, height - 1 - row, col as int);
}

/// Flipping the rows twice gives every pixel its place back.
pub proof fn lemma_flip_twice(k: nat, width: nat, height: nat)
    requires
        k < width * height,
    ensures
        flipped_index(flipped_index(k, width, height), width, height) == k,
{
    lemma_flipped_index(k, width, height);
    let f = flipped_index(k, width, height);
    lemma_flipped_index(f, width, height);
    let row = k / width;
    let col = k % width;
    assert(k == row * width + col) by (nonlinear_arith)
        requires
            0 < width,
            row == k / width,
            col == k % width,
    ;
}

/// The raster `src` (`width * height` pixels, row-major) with its rows in the
/// opposite vertical order.
pub fn flip_rows<T: Copy>(src: &Vec<T>, width: usize, height: usize) -> (r: Vec<T>)
    requires
        src@.len() == width * height,
    ensures
        r@.len() == src@.len(),
        forall|k: int|
            0 <= k < r@.len() ==> #[trigger] r@[k] == src@[flipped_index(
                k as nat,
                width as nat,
                height as nat,
            ) as int],
{
    let n = src.len();
    let mut r: Vec<T> = Vec::new();
    let mut k: usize = 0;
    while k < n
        invariant
            n == src@.len(),
            n == width * height,
            k <= n,
            r@.len() == k,
            forall|j: int|
                0 <= j < k ==> #[trigger] r@[j] == src@[flipped_index(
                    j as nat,
                    width as nat,
                    height as nat,
                ) as int],
        decreases n - k,
    {
        proof {
            lemma_flipped_index(k as nat, width as nat, height as nat);
        }
        let row = k / width;
        let col = k % width;
        let idx = (height - 1 - row) * width + col;
        r.push(src[idx]);
        k = k + 1;
    }
    r
}

/// The channels of `pixels`, three bytes per pixel, in pixel order.
pub fn flatten_rgb(pixels: &Vec<[u8; 3]>) -> (r: Vec<u8>)
    requires
        3 * pixels@.len() <= usize::MAX,
    ensures
        r@.len() == 3 * pixels@.len(),
        forall|i: int, c: int|
            0 <= i < pixels@.len() && 0 <= c < 3 ==> r@[3 * i + c] == #[trigger] pixels@[i]@[c],
{
    let n = pixels.len();
    let mut r: Vec<u8> = Vec::new();
    let mut i: usize = 0;
    while i < n
        invariant
            n == pixels@.len(),
            3 * n <= usize::MAX,
            i <= n,
            r@.len() == 3 * i,
            forall|j: int, c: int|
                0 <= j < i && 0 <= c < 3 ==> r@[3 * j + c] == #[trigger] pixels@[j]@[c],
        decreases n - i,
    {
        let p = pixels[i];
        r.push(p[0]);
        r.push(p[1]);
        r.push(p[2]);
        i = i + 1;
    }
    r
}

/// The bytes that an encoder expecting rows top-down needs for the raster
/// `pixels`, stored bottom-up: three channel bytes per pixel.
pub fn top_down_bytes(pixels: &Vec<[u8; 3]>, width: usize, height: usize) -> (r: Vec<u8>)
    requires
        pixels@.len() == width * height,
        3 * pixels@.len() <= usize::MAX,
    ensures
        r@.len() == 3 * pixels@.len(),
        forall|k: int, c: int|
            0 <= k < pixels@.len() && 0 <= c < 3 ==> #[trigger] r@[3 * k + c] == pixels@[flipped_index(
                k as nat,
                width as nat,
                height as nat,
            ) as int]@[c],
{
    let flipped = flip_rows(pixels, width, height);
    let r = flatten_rgb(&flipped);
    proof {
        assert forall|k: int, c: int| 0 <= k < pixels@.len() && 0 <= c < 3 implies #[trigger] r@[3
            * k + c] == pixels@[flipped_index(k as nat, width as nat, height as nat) as int]@[c] by {
            assert(r@[3 * k + c] == flipped@[k]@[c]);
        }
    }
    r
}

} // verus!
