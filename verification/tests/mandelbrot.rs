use priklady::mandelbrot::{
    assemble, iter_to_color, render_chunk, render_single, row_chunks, HEIGHT, MAX_ITER, WIDTH,
};

fn float_color(iter: u32) -> [u8; 3] {
    if iter == MAX_ITER {
        return [0, 0, 0];
    }
    let t = iter as f64 / MAX_ITER as f64;
    let r = (9.0 * (1.0 - t) * t * t * t * 255.0) as u8;
    let g = (15.0 * (1.0 - t) * (1.0 - t) * t * t * 255.0) as u8;
    let b = (8.5 * (1.0 - t) * (1.0 - t) * (1.0 - t) * t * 255.0) as u8;
    [r, g, b]
}

#[test]
fn palette_matches_float_formula() {
    for i in 0..=4096u32 {
        assert_eq!(iter_to_color(i), float_color(i), "iter {}", i);
    }
    for i in [100_000u32, 1 << 20, 1 << 31, u32::MAX] {
        assert_eq!(iter_to_color(i), float_color(i), "iter {}", i);
    }
}

#[test]
fn palette_inside_is_black() {
    assert_eq!(iter_to_color(MAX_ITER), [0, 0, 0]);
    assert_eq!(iter_to_color(0), [0, 0, 0]);
}

#[test]
fn palette_exact_values() {
    // t = 0.5: r = 9 * 0.5^4 * 255 = 143.4375, g = 15 * 0.5^4 * 255 = 239.0625,
    // b = 8.5 * 0.5^4 * 255 = 135.46875
    assert_eq!(iter_to_color(128), [143, 239, 135]);
    // t = 0.75: r = 9 * 0.25 * 0.421875 * 255 = 242.05...
    assert_eq!(iter_to_color(192)[0], 242);
}

fn sample_iterations() -> Vec<u32> {
    (0..WIDTH * HEIGHT).map(|p| (p * 7 + p / 800) % 300).collect()
}

#[test]
fn single_render_layout() {
    let iters = sample_iterations();
    let pixels = render_single(&iters);
    assert_eq!(pixels.len(), (WIDTH * HEIGHT * 3) as usize);
    for p in [0usize, 1, 799, 800, 12345, 479_999] {
        let rgb = iter_to_color(iters[p]);
        assert_eq!(&pixels[p * 3..p * 3 + 3], &rgb);
    }
}

#[test]
fn chunks_cover_rows_in_order() {
    for n in [1usize, 2, 3, 4, 7, 16, 599, 600, 601, 1000] {
        let chunks = row_chunks(n);
        assert_eq!(chunks.len(), n);
        let size = HEIGHT / n as u32;
        for (i, &(s, e)) in chunks.iter().enumerate() {
            assert_eq!(s, i as u32 * size);
            if i == n - 1 {
                assert_eq!(e, HEIGHT);
            } else {
                assert_eq!(e, s + size);
            }
        }
    }
    assert_eq!(row_chunks(4), vec![(0, 150), (150, 300), (300, 450), (450, 600)]);
    assert_eq!(row_chunks(7).last(), Some(&(510, 600)));
}

#[test]
fn banded_render_equals_single_render() {
    let iters = sample_iterations();
    let single = render_single(&iters);
    for n in [1usize, 3, 4, 7, 8, 600, 700] {
        let locals: Vec<Vec<u8>> = row_chunks(n)
            .iter()
            .map(|&(s, e)| {
                let part = iters[(s * WIDTH) as usize..(e * WIDTH) as usize].to_vec();
                render_chunk(&part)
            })
            .collect();
        assert_eq!(assemble(n, &locals), single, "threads {}", n);
    }
}
