//! Colouring and assembly of the Mandelbrot image: escape-iteration counts become an RGB
//! buffer, in one piece or in horizontal bands that are put together afterwards.
use vstd::prelude::*;

verus! {

/// Width of the image in pixels.
pub const WIDTH: u32 = 800;

/// Height of the image in pixels.
pub const HEIGHT: u32 = 600;

/// Iteration cap: a point that has not escaped after this many iterations is inside the set.
pub const MAX_ITER: u32 = 256;

/// Number of bytes of the whole RGB image.
pub open spec fn image_len() -> nat {
    (WIDTH * HEIGHT * 3) as nat
}

/// `min(255, v)` for a non-negative `v`, as a float-to-byte cast saturates.
pub open spec fn saturate(v: int) -> int {
    if v > 255 { 255 } else { v }
}

/// Red channel of the escape-time palette. It is the exact value of
/// `9 (1 - t) t^3 * 255` with `t = iter / 256`, truncated to a byte: every intermediate of that
/// product is a dyadic rational that an `f64` holds exactly.
pub open spec fn red(iter: int) -> int {
    if iter == 256 {
        0
    } else if iter < 256 {
        saturate(9 * (256 - iter) * (iter * iter * iter) * 255 / 0x1_0000_0000)
    } else {
        0
    }
}

/// Green channel: `15 (1 - t)^2 t^2 * 255`, truncated and saturated to a byte.
pub open spec fn green(iter: int) -> int {
    if iter == 256 {
        0
    } else {
        saturate(15 * ((256 - iter) * (256 - iter)) * (iter * iter) * 255 / 0x1_0000_0000)
    }
}

/// Blue channel: `8.5 (1 - t)^3 t * 255`, truncated to a byte; negative (iter > 256) gives 0.
pub open spec fn blue(iter: int) -> int {
    if iter == 256 {
        0
    } else if iter < 256 {
        saturate(17 * ((256 - iter) * (256 - iter) * (256 - iter)) * iter * 255 / 0x2_0000_0000)
    } else {
        0
    }
}

/// Channel `k` (0 red, 1 green, 2 blue) of the colour of `iter`.
pub open spec fn channel(iter: u32, k: int) -> u8 {
    if k == 0 {
        red(iter as int) as u8
    } else if k == 1 {
        green(iter as int) as u8
    } else {
        blue(iter as int) as u8
    }
}

/// The RGB bytes of a run of iteration counts, three bytes per count.
pub open spec fn pixel_bytes(iters: Seq<u32>) -> Seq<u8> {
    Seq::new(iters.len() * 3, |j: int| channel(iters[j / 3], j % 3))
}

fn red_channel(iter: u32) -> (r: u8)
    ensures
        r == red(iter as int),
{
    if iter >= 256 {
        return 0;
    }
    let i = iter as u64;
    assert(i * i <= 255 * 255) by (nonlinear_arith)
        requires
            i < 256,
    ;
    let sq = i * i;
    assert(sq * i <= 255 * 255 * 255) by (nonlinear_arith)
        requires
            i < 256,
            sq <= 255 * 255,
    ;
    let cube = sq * i;
    let w = 9 * (256 - i);
    assert(w * cube <= 2304 * (255 * 255 * 255)) by (nonlinear_arith)
        requires
            w <= 2304,
            cube <= 255 * 255 * 255,
    ;
    let p = w * cube;
    let v = p * 255 / 0x1_0000_0000u64;
    if v > 255 {
        255
    } else {
        v as u8
    }
}

proof fn lemma_green_saturates(i: int)
    requires
        i >= 1024,
    ensures
        15 * ((256 - i) * (256 - i)) * (i * i) * 255 / 0x1_0000_0000 > 255,
{
    assert((256 - i) * (256 - i) >= 768 * 768) by (nonlinear_arith)
        requires
            i >= 1024,
    ;
    assert(i * i >= 1024 * 1024) by (nonlinear_arith)
        requires
            i >= 1024,
    ;
    assert(15 * ((256 - i) * (256 - i)) * (i * i) * 255 >= 15 * (768 * 768) * (1024 * 1024)
        * 255) by (nonlinear_arith)
        requires
            (256 - i) * (256 - i) >= 768 * 768,
            i * i >= 1024 * 1024,
    ;
    let x = 15 * ((256 - i) * (256 - i)) * (i * i) * 255;
    assert(x / 0x1_0000_0000 > 255) by (nonlinear_arith)
        requires
            x >= 15 * (768 * 768) * (1024 * 1024) * 255,
    ;
}

fn green_channel(iter: u32) -> (g: u8)
    ensures
        g == green(iter as int),
{
    if iter == 256 {
        return 0;
    }
    if iter >= 1024 {
        proof {
            lemma_green_saturates(iter as int);
        }
        return 255;
    }
    let i = iter as u64;
    let d: u64 = if i < 256 { 256 - i } else { i - 256 };
    assert(d * d == (256 - i) * (256 - i) && d * d <= 768 * 768) by (nonlinear_arith)
        requires
            d == 256 - i || d == i - 256,
            d <= 768,
    ;
    let dd = d * d;
    assert(i * i <= 1024 * 1024) by (nonlinear_arith)
        requires
            i < 1024,
    ;
    let ii = i * i;
    let w = 15 * dd;
    assert(w * ii <= (15 * 768 * 768) * (1024 * 1024)) by (nonlinear_arith)
        requires
            w <= 15 * 768 * 768,
            ii <= 1024 * 1024,
    ;
    let p = w * ii;
    let v = p * 255 / 0x1_0000_0000u64;
    if v > 255 {
        255
    } else {
        v as u8
    }
}

fn blue_channel(iter: u32) -> (b: u8)
    ensures
        b == blue(iter as int),
{
    if iter >= 256 {
        return 0;
    }
    let i = iter as u64;
    let d = 256 - i;
    assert(d * d <= 256 * 256) by (nonlinear_arith)
        requires
            d <= 256,
    ;
    let dd = d * d;
    assert(dd * d <= 256 * 256 * 256) by (nonlinear_arith)
        requires
            d <= 256,
            dd <= 256 * 256,
    ;
    let ddd = dd * d;
    let w = 17 * ddd;
    assert(w * i <= (17 * 256 * 256 * 256) * 256) by (nonlinear_arith)
        requires
            w <= 17 * 256 * 256 * 256,
            i < 256,
    ;
    let p = w * i;
    let v = p * 255 / 0x2_0000_0000u64;
    if v > 255 {
        255
    } else {
        v as u8
    }
}

/// Palette of the escape-time image: black inside the set, a blue to cyan to white gradient
/// outside it.
pub fn iter_to_color(iter: u32) -> (rgb: [u8; 3])
    ensures
        rgb[0] == channel(iter, 0),
        rgb[1] == channel(iter, 1),
        rgb[2] == channel(iter, 2),
{
    if iter == MAX_ITER {
        return [0, 0, 0];
    }
    [red_channel(iter), green_channel(iter), blue_channel(iter)]
}

/// Colours a run of iteration counts, row by row, into RGB bytes.
pub fn render_chunk(iterations: &Vec<u32>) -> (pixels: Vec<u8>)
    requires
        iterations@.len() <= (WIDTH * HEIGHT) as nat,
    ensures
        pixels@ == pixel_bytes(iterations@),
{
    let mut pixels: Vec<u8> = Vec::new();
    let mut p: usize = 0;
    while p < iterations.len()
        invariant
            p <= iterations@.len() <= (WIDTH * HEIGHT) as nat,
            pixels@.len() == p * 3,
            forall|j: int|
                0 <= j < pixels@.len() ==> #[trigger] pixels@[j] == pixel_bytes(iterations@)[j],
        decreases iterations@.len() - p,
    {
        let rgb = iter_to_color(iterations[p]);
        proof {
            assert((p * 3) / 3 == p && (p * 3) % 3 == 0);
            assert((p * 3 + 1) / 3 == p && (p * 3 + 1) % 3 == 1);
            assert((p * 3 + 2) / 3 == p && (p * 3 + 2) % 3 == 2);
        }
        pixels.push(rgb[0]);
        pixels.push(rgb[1]);
        pixels.push(rgb[2]);
        p = p + 1;
    }
    proof {
        assert(pixels@ =~= pixel_bytes(iterations@));
    }
    pixels
}

/// Renders the whole image from its iteration counts (row-major, `WIDTH * HEIGHT` of them)
/// in one pass: three bytes R, G, B per pixel, row after row.
pub fn render_single(iterations: &Vec<u32>) -> (pixels: Vec<u8>)
    requires
        iterations@.len() == (WIDTH * HEIGHT) as nat,
    ensures
        pixels@ == pixel_bytes(iterations@),
        pixels@.len() == image_len(),
{
    render_chunk(iterations)
}

/// Rows per band when the image is split into `n` bands.
pub open spec fn band_rows(n: int) -> int {
    HEIGHT as int / n
}

/// First row of band `i` of `n`.
pub open spec fn band_start(n: int, i: int) -> int {
    i * band_rows(n)
}

/// One past the last row of band `i` of `n`: the last band takes the rows left over.
pub open spec fn band_end(n: int, i: int) -> int {
    if i == n - 1 {
        HEIGHT as int
    } else {
        (i + 1) * band_rows(n)
    }
}

proof fn lemma_band_bounds(n: int, i: int)
    requires
        1 <= n,
        0 <= i < n,
    ensures
        0 <= band_rows(n) <= HEIGHT,
        0 <= band_start(n, i) <= band_end(n, i) <= HEIGHT,
        n * band_rows(n) <= HEIGHT,
{
    let c = band_rows(n);
    assert(n * c <= HEIGHT) by (nonlinear_arith)
        requires
            c == HEIGHT as int / n,
            1 <= n,
    ;
    assert(0 <= c <= HEIGHT) by (nonlinear_arith)
        requires
            c == HEIGHT as int / n,
            1 <= n,
    ;
    assert(0 <= i * c <= (i + 1) * c <= n * c) by (nonlinear_arith)
        requires
            0 <= i < n,
            0 <= c,
    ;
}

/// Splits the rows of the image into `num_threads` bands of `HEIGHT / num_threads` rows; the
/// last band also takes the remainder, so the bands cover every row once, in order.
pub fn row_chunks(num_threads: usize) -> (chunks: Vec<(u32, u32)>)
    requires
        1 <= num_threads <= u32::MAX,
    ensures
        chunks@.len() == num_threads,
        forall|i: int|
            0 <= i < num_threads ==> #[trigger] chunks@[i] == (
            band_start(num_threads as int, i) as u32,
            band_end(num_threads as int, i) as u32,
            ),
{
    let n = num_threads as u32;
    let chunk_size = HEIGHT / n;
    let mut chunks: Vec<(u32, u32)> = Vec::new();
    let mut i: u32 = 0;
    while i < n
        invariant
            n == num_threads,
            1 <= n,
            chunk_size == band_rows(n as int),
            i <= n,
            chunks@.len() == i,
            forall|k: int|
                0 <= k < i ==> #[trigger] chunks@[k] == (
                band_start(n as int, k) as u32,
                band_end(n as int, k) as u32,
                ),
        decreases n - i,
    {
        proof {
            lemma_band_bounds(n as int, i as int);
        }
        let start = i * chunk_size;
        let end = if i == n - 1 {
            HEIGHT
        } else {
            start + chunk_size
        };
        proof {
            assert((i + 1) * chunk_size == i * chunk_size + chunk_size) by (nonlinear_arith);
        }
        chunks.push((start, end));
        i = i + 1;
    }
    chunks
}

/// `base` with `part` written over it from position `offset` on.
pub open spec fn overwrite(base: Seq<u8>, offset: int, part: Seq<u8>) -> Seq<u8> {
    Seq::new(
        base.len(),
        |j: int|
            if offset <= j < offset + part.len() {
                part[j - offset]
            } else {
                base[j]
            },
    )
}

/// The image after the first `k` bands of `n` have been copied into a zeroed buffer, band
/// `i` at byte `i * (HEIGHT / n) * WIDTH * 3`.
pub open spec fn assembled(n: int, bands: Seq<Seq<u8>>, k: int) -> Seq<u8>
    decreases k,
{
    if k <= 0 {
        Seq::new(image_len(), |j: int| 0u8)
    } else {
        overwrite(assembled(n, bands, k - 1), (k - 1) * band_rows(n) * WIDTH * 3, bands[k - 1])
    }
}

proof fn lemma_assembled_len(n: int, bands: Seq<Seq<u8>>, k: int)
    ensures
        assembled(n, bands, k).len() == image_len(),
    decreases k,
{
    if k > 0 {
        lemma_assembled_len(n, bands, k - 1);
    }
}

/// Puts the separately rendered bands back into one image buffer.
pub fn assemble(num_threads: usize, locals: &Vec<Vec<u8>>) -> (pixels: Vec<u8>)
    requires
        1 <= num_threads <= u32::MAX,
        locals@.len() == num_threads,
        forall|i: int|
            0 <= i < num_threads ==> i * band_rows(num_threads as int) * WIDTH * 3
                + (#[trigger] locals@[i])@.len() <= image_len(),
    ensures
        pixels@ == assembled(
            num_threads as int,
            locals@.map_values(|v: Vec<u8>| v@),
            num_threads as int,
        ),
{
    let ghost bands = locals@.map_values(|v: Vec<u8>| v@);
    let chunk_size = HEIGHT / (num_threads as u32);
    let mut pixels: Vec<u8> = vec![0u8; (WIDTH * HEIGHT * 3) as usize];
    proof {
        assert(pixels@ =~= assembled(num_threads as int, bands, 0));
    }
    let mut i: usize = 0;
    while i < locals.len()
        invariant
            locals@.len() == num_threads,
            1 <= num_threads <= u32::MAX,
            bands == locals@.map_values(|v: Vec<u8>| v@),
            chunk_size == band_rows(num_threads as int),
            forall|i: int|
                0 <= i < num_threads ==> i * band_rows(num_threads as int) * WIDTH * 3
                    + (#[trigger] locals@[i])@.len() <= image_len(),
            i <= num_threads,
            pixels@ == assembled(num_threads as int, bands, i as int),
        decreases num_threads - i,
    {
        let local = &locals[i];
        proof {
            lemma_band_bounds(num_threads as int, i as int);
            assert(i * chunk_size <= HEIGHT) by (nonlinear_arith)
                requires
                    i < num_threads,
                    num_threads * chunk_size <= HEIGHT,
            ;
        }
        let offset = i * chunk_size as usize * WIDTH as usize * 3;
        let ghost before = pixels@;
        proof {
            lemma_assembled_len(num_threads as int, bands, i as int);
        }
        let mut j: usize = 0;
        while j < local.len()
            invariant
                offset + local@.len() <= image_len(),
                pixels@.len() == image_len(),
                before.len() == image_len(),
                j <= local@.len(),
                forall|x: int|
                    0 <= x < image_len() ==> #[trigger] pixels@[x] == if offset <= x < offset
                        + j {
                        local@[x - offset]
                    } else {
                        before[x]
                    },
            decreases local@.len() - j,
        {
            pixels.set(offset + j, local[j]);
            j = j + 1;
        }
        proof {
            assert(bands[i as int] == local@);
            assert(pixels@ =~= assembled(num_threads as int, bands, i + 1));
        }
        i = i + 1;
    }
    pixels
}

/// The bytes of band `i` of `n` when it is coloured on its own.
pub open spec fn band_pixels(iters: Seq<u32>, n: int) -> Seq<Seq<u8>> {
    Seq::new(
        n as nat,
        |i: int|
            pixel_bytes(
                iters.subrange(band_start(n, i) * WIDTH as int, band_end(n, i) * WIDTH as int),
            ),
    )
}

/// Byte at which the bands before band `k` end.
spec fn bands_end(n: int, k: int) -> int {
    if k <= 0 {
        0
    } else {
        band_end(n, k - 1) * WIDTH as int * 3
    }
}

proof fn lemma_shift_by_thirds(j: int, m: int)
    requires
        0 <= m,
        3 * m <= j,
    ensures
        (j - 3 * m) / 3 == j / 3 - m,
        (j - 3 * m) % 3 == j % 3,
{
}

proof fn lemma_assembled_prefix(iters: Seq<u32>, n: int, k: int)
    requires
        iters.len() == (WIDTH * HEIGHT) as nat,
        1 <= n,
        0 <= k <= n,
    ensures
        assembled(n, band_pixels(iters, n), k) == Seq::new(
            image_len(),
            |j: int|
                if j < bands_end(n, k) {
                    pixel_bytes(iters)[j]
                } else {
                    0u8
                },
        ),
    decreases k,
{
    let bands = band_pixels(iters, n);
    let target = Seq::new(
        image_len(),
        |j: int|
            if j < bands_end(n, k) {
                pixel_bytes(iters)[j]
            } else {
                0u8
            },
    );
    if k == 0 {
        assert(assembled(n, bands, k) =~= target);
    } else {
        lemma_assembled_prefix(iters, n, k - 1);
        lemma_band_bounds(n, k - 1);
        let i = k - 1;
        let s = band_start(n, i);
        let e = band_end(n, i);
        let off = i * band_rows(n) * WIDTH * 3;
        assert(off == s * WIDTH as int * 3);
        assert(bands_end(n, i) == s * WIDTH as int * 3) by {
            if i > 0 {
                lemma_band_bounds(n, i - 1);
                let c = band_rows(n);
                assert(((i - 1) + 1) * c == i * c);
                assert(band_end(n, i - 1) == i * c);
                assert((i * c) * WIDTH as int * 3 == s * WIDTH as int * 3);
                assert(bands_end(n, i) == band_end(n, i - 1) * WIDTH as int * 3);
            } else {
                assert(s == 0 * band_rows(n));
                assert(0 * band_rows(n) == 0);
            }
        }
        let sub = iters.subrange(s * WIDTH as int, e * WIDTH as int);
        assert(bands[i] == pixel_bytes(sub));
        let prev = assembled(n, bands, i);
        let cur = assembled(n, bands, k);
        assert(cur == overwrite(prev, off, bands[i]));
        assert forall|j: int| 0 <= j < image_len() implies #[trigger] cur[j] == target[j] by {
            if off <= j < off + bands[i].len() {
                lemma_shift_by_thirds(j, s * WIDTH as int);
                assert(cur[j] == pixel_bytes(sub)[j - off]);
                assert(sub[(j - off) / 3] == iters[j / 3]);
            }
        }
        assert(cur =~= target);
    }
}

/// Colouring the image band by band on any number of threads and assembling the bands gives
/// the same image as colouring it in one pass.
pub proof fn lemma_bands_match_single(iters: Seq<u32>, n: int)
    requires
        iters.len() == (WIDTH * HEIGHT) as nat,
        1 <= n <= u32::MAX,
    ensures
        forall|i: int|
            0 <= i < n ==> i * band_rows(n) * WIDTH * 3 + (#[trigger] band_pixels(iters, n)[i]).len()
                <= image_len(),
        assembled(n, band_pixels(iters, n), n) == pixel_bytes(iters),
{
    assert forall|i: int|
        0 <= i < n implies i * band_rows(n) * WIDTH * 3 + (#[trigger] band_pixels(
            iters,
            n,
        )[i]).len() <= image_len() by {
        lemma_band_bounds(n, i);
    }
    lemma_assembled_prefix(iters, n, n);
    assert(bands_end(n, n) == image_len());
    assert(assembled(n, band_pixels(iters, n), n) =~= pixel_bytes(iters));
}

/// The multi-threaded render in the form its steps state it: when `row_chunks(n)` splits the
/// rows, each band is coloured by `render_chunk` on its own iteration counts and `assemble`
/// puts the bands together, the image is byte for byte the one `render_single` gives, for
/// every thread count, including counts that do not divide the height or exceed it.
pub proof fn lemma_threaded_render_matches_single(iters: Seq<u32>, n: int, locals: Seq<Vec<u8>>)
    requires
        iters.len() == (WIDTH * HEIGHT) as nat,
        1 <= n <= u32::MAX,
        locals.len() == n,
        forall|i: int|
            0 <= i < n ==> (#[trigger] locals[i])@ == pixel_bytes(
                iters.subrange(band_start(n, i) * WIDTH as int, band_end(n, i) * WIDTH as int),
            ),
    ensures
        forall|i: int|
            0 <= i < n ==> i * band_rows(n) * WIDTH * 3 + (#[trigger] locals[i])@.len()
                <= image_len(),
        assembled(n, locals.map_values(|v: Vec<u8>| v@), n) == pixel_bytes(iters),
        pixel_bytes(iters).len() == image_len(),
{
    assert(locals.map_values(|v: Vec<u8>| v@) =~= band_pixels(iters, n));
    lemma_bands_match_single(iters, n);
    assert forall|i: int|
        0 <= i < n implies i * band_rows(n) * WIDTH * 3 + (#[trigger] locals[i])@.len()
            <= image_len() by {
        assert(locals[i]@ == band_pixels(iters, n)[i]);
    }
}

} // verus!
