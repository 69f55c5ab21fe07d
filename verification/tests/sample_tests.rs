use image::imageops::sample::{
    clamp, filter3x3, filter_for, horizontal_sample, line_pixels, neighbourhood, resize,
    sample_separable, sample_window, unsharpen_channel, unsharpen_mask, unsharpen_pixel,
    vertical_sample, Axis, Filter, FilterType, Kernel, SamplePos,
};
use image::ImageBuf;

fn image_from(width: u32, height: u32, values: &[u8]) -> ImageBuf<u8> {
    let pixels: Vec<[u8; 4]> = values.iter().map(|&v| [v, v, v, 255]).collect();
    ImageBuf::from_pixels(width, height, pixels).unwrap()
}

fn red(img: &ImageBuf<u8>) -> Vec<u8> {
    img.pixels().iter().map(|p| p[0]).collect()
}

#[test]
fn clamp_inside_below_above() {
    assert_eq!(clamp(2, 0, 3), 2);
    assert_eq!(clamp(-1, 0, 3), 0);
    assert_eq!(clamp(5, 0, 3), 3);
    assert_eq!(clamp(0, 0, 3), 0);
    assert_eq!(clamp(3, 0, 3), 3);
}

#[test]
fn clamp_tests_the_upper_bound_first() {
    // With min > max the upper bound wins for values above it.
    assert_eq!(clamp(1, 3, 0), 0);
    assert_eq!(clamp(-5, 3, 0), 3);
}

#[test]
fn clamp_is_idempotent() {
    for a in -10i64..10 {
        let once = clamp(a, -3, 4);
        assert_eq!(clamp(once, -3, 4), once);
        assert!(-3 <= once && once <= 4);
    }
}

#[test]
fn new_image_is_zero() {
    let img = ImageBuf::<u8>::new(3, 2);
    assert_eq!(img.dimensions(), (3, 2));
    assert_eq!(img.pixels().len(), 6);
    for y in 0..2 {
        for x in 0..3 {
            assert_eq!(img.get_pixel(x, y), [0, 0, 0, 0]);
        }
    }
}

#[test]
fn put_then_get() {
    let mut img = ImageBuf::<u8>::new(3, 2);
    img.put_pixel(2, 1, [1, 2, 3, 4]);
    assert_eq!(img.get_pixel(2, 1), [1, 2, 3, 4]);
    assert_eq!(img.get_pixel(1, 1), [0, 0, 0, 0]);
    assert_eq!(img.pixels()[5], [1, 2, 3, 4]);
}

#[test]
fn from_pixels_checks_length() {
    assert!(ImageBuf::from_pixels(2, 2, vec![[0u8; 4]; 3]).is_none());
    assert!(ImageBuf::from_pixels(2, 2, vec![[0u8; 4]; 5]).is_none());
    let img = ImageBuf::from_pixels(2, 2, vec![[7u8; 4]; 4]).unwrap();
    assert_eq!(img.get_pixel(1, 1), [7, 7, 7, 7]);
}

#[test]
fn filters_of_each_type() {
    assert_eq!(filter_for(FilterType::Nearest), Filter { kernel: Kernel::Box, support_halves: 1 });
    assert_eq!(filter_for(FilterType::Triangle), Filter { kernel: Kernel::Triangle, support_halves: 2 });
    assert_eq!(filter_for(FilterType::CatmullRom), Filter { kernel: Kernel::CatmullRom, support_halves: 4 });
    assert_eq!(filter_for(FilterType::Gaussian), Filter { kernel: Kernel::Gaussian, support_halves: 6 });
    assert_eq!(filter_for(FilterType::Lanczos3), Filter { kernel: Kernel::Lanczos3, support_halves: 6 });
}

// A nearest-neighbour sampler on integers: output position `pos` of a pass
// to length `new_len` reads source position `pos * len / new_len` of its line.
fn nearest(_f: &Filter, p: SamplePos, line: &Vec<[u8; 4]>) -> [u8; 4] {
    line[p.pos as usize * line.len() / p.new_len as usize]
}

#[test]
fn lines_of_an_image() {
    let img = image_from(3, 2, &[1, 2, 3, 4, 5, 6]);
    let row: Vec<u8> = line_pixels(&img, Axis::Horizontal, 1).iter().map(|p| p[0]).collect();
    assert_eq!(row, vec![4, 5, 6]);
    let column: Vec<u8> = line_pixels(&img, Axis::Vertical, 2).iter().map(|p| p[0]).collect();
    assert_eq!(column, vec![3, 6]);
}

#[test]
fn horizontal_sample_keeps_height() {
    let img = image_from(2, 2, &[10, 20, 30, 40]);
    let f = filter_for(FilterType::Nearest);
    let out = horizontal_sample(&img, 4, &f, &nearest);
    assert_eq!(out.dimensions(), (4, 2));
    assert_eq!(red(&out), vec![10, 10, 20, 20, 30, 30, 40, 40]);
}

#[test]
fn vertical_sample_keeps_width() {
    let img = image_from(2, 2, &[10, 20, 30, 40]);
    let f = filter_for(FilterType::Nearest);
    let out = vertical_sample(&img, 3, &f, &nearest);
    assert_eq!(out.dimensions(), (2, 3));
    assert_eq!(red(&out), vec![10, 20, 10, 20, 30, 40]);
}

#[test]
fn sampling_to_zero_length() {
    let img = image_from(2, 2, &[10, 20, 30, 40]);
    let f = filter_for(FilterType::Nearest);
    let out = horizontal_sample(&img, 0, &f, &nearest);
    assert_eq!(out.dimensions(), (0, 2));
    assert!(out.pixels().is_empty());
}

#[test]
fn resize_upscales_with_sampler() {
    let img = image_from(2, 2, &[10, 20, 30, 40]);
    let out = resize(&img, 4, 4, FilterType::Nearest, &nearest);
    assert_eq!(out.dimensions(), (4, 4));
    assert_eq!(
        red(&out),
        vec![10, 10, 20, 20, 10, 10, 20, 20, 30, 30, 40, 40, 30, 30, 40, 40]
    );
}

#[test]
fn resize_samples_columns_first() {
    // The sampler reports the axis and the length it samples to; the final
    // pixels come from the horizontal pass, which samples to the new width.
    let img = image_from(3, 2, &[1, 2, 3, 4, 5, 6]);
    let tag = |f: &Filter, p: SamplePos, line: &Vec<[u8; 4]>| -> [u8; 4] {
        [line.len() as u8, p.new_len as u8, f.support_halves as u8, 0]
    };
    let out = resize(&img, 5, 7, FilterType::CatmullRom, &tag);
    assert_eq!(out.dimensions(), (5, 7));
    for p in out.pixels() {
        // Rows of the intermediate image are as wide as the source.
        assert_eq!(*p, [3, 5, 4, 0]);
    }
}

#[test]
fn resize_passes_the_filter_of_the_type() {
    let img = image_from(1, 1, &[9]);
    let support = |f: &Filter, _p: SamplePos, _line: &Vec<[u8; 4]>| -> [u8; 4] {
        [f.support_halves as u8, 0, 0, 0]
    };
    assert_eq!(resize(&img, 1, 1, FilterType::Nearest, &support).get_pixel(0, 0)[0], 1);
    assert_eq!(resize(&img, 1, 1, FilterType::Triangle, &support).get_pixel(0, 0)[0], 2);
    assert_eq!(resize(&img, 1, 1, FilterType::Lanczos3, &support).get_pixel(0, 0)[0], 6);
}

#[test]
fn resize_to_empty() {
    let img = image_from(2, 2, &[10, 20, 30, 40]);
    let out = resize(&img, 0, 3, FilterType::Triangle, &nearest);
    assert_eq!(out.dimensions(), (0, 3));
}

#[test]
fn neighbourhood_tap_by_tap() {
    let img = image_from(4, 3, &[1, 2, 3, 4, 5, 6, 7, 8, 9, 10, 11, 12]);
    let n: Vec<u8> = neighbourhood(&img, 2, 1).iter().map(|p| p[0]).collect();
    assert_eq!(n, vec![2, 3, 4, 6, 7, 8, 10, 11, 12]);
}

#[test]
fn filter3x3_leaves_border_zero() {
    let img = image_from(4, 3, &[1, 2, 3, 4, 5, 6, 7, 8, 9, 10, 11, 12]);
    // Sum of the nine neighbours' red channels.
    let sum = |n: [[u8; 4]; 9]| -> [u8; 4] {
        let s: u32 = n.iter().map(|p| p[0] as u32).sum();
        [s as u8, 0, 0, 0]
    };
    let out = filter3x3(&img, &sum);
    assert_eq!(out.dimensions(), (4, 3));
    assert_eq!(red(&out), vec![0, 0, 0, 0, 0, 54, 63, 0, 0, 0, 0, 0]);
}

#[test]
fn filter3x3_small_image_is_all_zero() {
    let img = image_from(2, 5, &[9; 10]);
    let one = |_n: [[u8; 4]; 9]| -> [u8; 4] { [1, 1, 1, 1] };
    let out = filter3x3(&img, &one);
    assert_eq!(out.dimensions(), (2, 5));
    assert!(out.pixels().iter().all(|p| *p == [0, 0, 0, 0]));
}

#[test]
fn unsharpen_channel_values() {
    assert_eq!(unsharpen_channel(100u8, 90, 5), 110);
    assert_eq!(unsharpen_channel(90u8, 100, 5), 80);
    assert_eq!(unsharpen_channel(100u8, 98, 5), 100);
    assert_eq!(unsharpen_channel(100u8, 95, 5), 100);
    assert_eq!(unsharpen_channel(250u8, 200, 0), 255);
    assert_eq!(unsharpen_channel(10u8, 100, 0), 0);
    assert_eq!(unsharpen_channel(5u8, 5, -1), 5);
    assert_eq!(unsharpen_channel(0u8, 255, 254), 0);
    assert_eq!(unsharpen_channel(255u8, 0, 254), 255);
    assert_eq!(unsharpen_channel(40u8, 60, 255), 40);
}

#[test]
fn unsharpen_channel_sixteen_bits() {
    assert_eq!(unsharpen_channel(1000u16, 900, 5), 1100);
    assert_eq!(unsharpen_channel(60000u16, 50000, 5), 65535);
    assert_eq!(unsharpen_channel(300u16, 1000, 5), 0);
    assert_eq!(unsharpen_channel(300u16, 310, 50), 300);
}

#[test]
fn unsharpen_pixel_channelwise() {
    assert_eq!(
        unsharpen_pixel([100u8, 10, 200, 255], [90, 10, 100, 255], 5),
        [110, 10, 255, 255]
    );
    assert_eq!(unsharpen_pixel([20u8, 10, 30, 255], [40, 10, 31, 255], 5), [0, 10, 30, 255]);
}

#[test]
fn unsharpen_mask_image() {
    let img = image_from(3, 1, &[100, 50, 30]);
    let blurred = image_from(3, 1, &[80, 52, 45]);
    let out = unsharpen_mask(&img, blurred, 3);
    assert_eq!(out.dimensions(), (3, 1));
    assert_eq!(out.get_pixel(0, 0), [120, 120, 120, 255]);
    assert_eq!(out.get_pixel(1, 0), [50, 50, 50, 255]);
    assert_eq!(out.get_pixel(2, 0), [15, 15, 15, 255]);
}

#[test]
fn unsharpen_against_itself_is_identity() {
    let img = image_from(3, 2, &[0, 17, 128, 200, 254, 255]);
    let copy = image_from(3, 2, &[0, 17, 128, 200, 254, 255]);
    for t in [-5, 0, 10, 300] {
        let out = unsharpen_mask(&img, image_from(3, 2, &[0, 17, 128, 200, 254, 255]), t);
        assert_eq!(out.pixels(), copy.pixels());
    }
    let _ = img;
}

#[test]
fn unsharpen_moves_away_from_blur() {
    for c in (0u8..=255).step_by(15) {
        for d in (0u8..=255).step_by(17) {
            for t in [-1, 0, 20, 100] {
                let r = unsharpen_channel(c, d, t);
                if c > d {
                    assert!(r >= c);
                } else if c < d {
                    assert!(r <= c);
                } else {
                    assert_eq!(r, c);
                }
            }
        }
    }
}

#[test]
fn sample_window_clamps_both_ends() {
    assert_eq!(sample_window(0, 3, 10), (0, 3));
    assert_eq!(sample_window(2, 40, 10), (2, 9));
    assert_eq!(sample_window(12, 40, 10), (9, 9));
    assert_eq!(sample_window(0, 0, 1), (0, 0));
}

#[test]
fn sixteen_bit_image() {
    let mut img = ImageBuf::<u16>::new(2, 2);
    img.put_pixel(1, 0, [1000, 2000, 65535, 0]);
    assert_eq!(img.get_pixel(1, 0), [1000, 2000, 65535, 0]);
    assert_eq!(img.get_pixel(0, 1), [0, 0, 0, 0]);
}

#[test]
fn separable_sample_to_same_size_with_identity() {
    let img = image_from(3, 2, &[1, 2, 3, 4, 5, 6]);
    let f = filter_for(FilterType::Gaussian);
    let out = sample_separable(&img, 3, 2, &f, &nearest);
    assert_eq!(out.dimensions(), (3, 2));
    assert_eq!(out.pixels(), img.pixels());
}
