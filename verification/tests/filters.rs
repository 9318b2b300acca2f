use raster_filters::color::{binarize, invert, pseudo_color, to_grayscale};
use raster_filters::noise::{salt_pepper, salt_pepper_with, PROB_DENOM};
use raster_filters::window::{
    apply_kernel, blur_kernel, edge_kernel, laplacian_kernel, maximum_filter, median_filter,
    minimum_filter, sharpen_kernel, sobel_kernel,
};
use raster_filters::zoom::{zoom_bilinear, zoom_nn};
use raster_filters::{RasterImage, Rgba};

fn rgba(r: u8, g: u8, b: u8, a: u8) -> Rgba {
    Rgba { r, g, b, a }
}

fn gray3(v: u8) -> Rgba {
    rgba(v, v, v, 255)
}

/// A 3x3 image whose pixel at (x, y) is gray level rows[y][x].
fn gray_image_3x3(rows: [[u8; 3]; 3]) -> RasterImage {
    let mut img = RasterImage::new(3, 3, gray3(0));
    for y in 0..3 {
        for x in 0..3 {
            img.set_pixel(x, y, gray3(rows[y][x]));
        }
    }
    img
}

#[test]
fn blur_solid_unchanged_interior() {
    let c = rgba(10, 20, 30, 40);
    let img = RasterImage::new(4, 4, c);
    let out = apply_kernel(&img, &blur_kernel());
    assert_eq!(out.width(), 4);
    assert_eq!(out.height(), 4);
    for y in 0..4 {
        for x in 0..4 {
            assert_eq!(out.pixel(x, y), c);
        }
    }
}

#[test]
fn blur_center_exact() {
    let img = gray_image_3x3([[10, 50, 30], [90, 20, 70], [40, 80, 60]]);
    let out = apply_kernel(&img, &blur_kernel());
    // (10+50+30+90+20+70+40+80+60) / 9 == 450 / 9 == 50
    assert_eq!(out.pixel(1, 1), gray3(50));
    // the border ring is copied verbatim
    assert_eq!(out.pixel(0, 0), gray3(10));
    assert_eq!(out.pixel(2, 2), gray3(60));
}

#[test]
fn sharpen_edge_sobel_laplacian_exact() {
    let img = gray_image_3x3([[40, 40, 40], [40, 50, 40], [40, 40, 40]]);
    // sharpen: 5*50 - (40+40+40+40) == 90
    assert_eq!(apply_kernel(&img, &sharpen_kernel()).pixel(1, 1), gray3(90));
    // edge detect: 8*50 - 8*40 == 80
    assert_eq!(apply_kernel(&img, &edge_kernel()).pixel(1, 1), gray3(80));
    // sobel: the left and right columns cancel
    assert_eq!(apply_kernel(&img, &sobel_kernel()).pixel(1, 1), gray3(0));
    // laplacian: 4*40 - 4*50 == -40, clamped to 0
    assert_eq!(apply_kernel(&img, &laplacian_kernel()).pixel(1, 1), gray3(0));
}

#[test]
fn invert_exact() {
    let img = RasterImage::new(1, 1, rgba(1, 2, 3, 4));
    let out = invert(&img);
    assert_eq!(out.pixel(0, 0), rgba(254, 253, 252, 4));
}

#[test]
fn invert_involutive() {
    let mut img = RasterImage::new(2, 2, rgba(0, 0, 0, 255));
    img.set_pixel(0, 0, rgba(1, 2, 3, 4));
    img.set_pixel(1, 0, rgba(255, 0, 128, 9));
    img.set_pixel(0, 1, rgba(77, 66, 55, 44));
    img.set_pixel(1, 1, rgba(0, 255, 7, 200));
    let twice = invert(&invert(&img));
    for y in 0..2 {
        for x in 0..2 {
            assert_eq!(twice.pixel(x, y), img.pixel(x, y));
        }
    }
}

#[test]
fn grayscale_solid_red() {
    let img = RasterImage::new(4, 4, rgba(255, 0, 0, 255));
    let out = to_grayscale(&img);
    for y in 0..4 {
        for x in 0..4 {
            assert_eq!(out.pixel(x, y), gray3(76));
        }
    }
}

#[test]
fn binarize_idempotent_and_bw() {
    let img = gray_image_3x3([[10, 200, 128], [129, 0, 255], [100, 130, 127]]);
    let once = binarize(&img, 128);
    let twice = binarize(&once, 128);
    for y in 0..3 {
        for x in 0..3 {
            let p = once.pixel(x, y);
            assert!(p == rgba(255, 255, 255, 255) || p == rgba(0, 0, 0, 255));
            assert_eq!(twice.pixel(x, y), p);
        }
    }
    // luma 128 is not above the threshold 128; luma 129 is
    assert_eq!(once.pixel(2, 0), rgba(0, 0, 0, 255));
    assert_eq!(once.pixel(0, 1), rgba(255, 255, 255, 255));
}

#[test]
fn binarize_threshold_edges() {
    let img = gray_image_3x3([[0, 1, 2], [254, 255, 253], [7, 8, 9]]);
    let low = binarize(&img, 0);
    assert_eq!(low.pixel(0, 0), rgba(0, 0, 0, 255));
    assert_eq!(low.pixel(1, 0), rgba(255, 255, 255, 255));
    let high = binarize(&img, 255);
    for y in 0..3 {
        for x in 0..3 {
            assert_eq!(high.pixel(x, y), rgba(0, 0, 0, 255));
        }
    }
}

#[test]
fn pseudo_color_bands() {
    let levels: [u8; 8] = [0, 63, 64, 127, 128, 191, 192, 255];
    let mut img = RasterImage::new(8, 1, rgba(0, 0, 0, 255));
    for (i, v) in levels.iter().enumerate() {
        // intensity is read from the red channel
        img.set_pixel(i, 0, rgba(*v, 9, 9, 9));
    }
    let out = pseudo_color(&img);
    assert_eq!(out.pixel(0, 0), rgba(0, 0, 0, 255));
    assert_eq!(out.pixel(1, 0), rgba(0, 0, 252, 255));
    assert_eq!(out.pixel(2, 0), rgba(0, 0, 255, 255));
    assert_eq!(out.pixel(3, 0), rgba(0, 252, 255, 255));
    assert_eq!(out.pixel(4, 0), rgba(0, 255, 255, 255));
    assert_eq!(out.pixel(5, 0), rgba(0, 255, 3, 255));
    assert_eq!(out.pixel(6, 0), rgba(0, 255, 0, 255));
    assert_eq!(out.pixel(7, 0), rgba(252, 255, 0, 255));
}

#[test]
fn median_uniform_neighborhood() {
    let c = rgba(80, 90, 100, 110);
    let img = RasterImage::new(3, 3, c);
    let out = median_filter(&img);
    assert_eq!(out.pixel(1, 1), c);
}

#[test]
fn median_center_exact() {
    let img = gray_image_3x3([[10, 50, 30], [90, 20, 70], [40, 80, 60]]);
    let out = median_filter(&img);
    // the fifth smallest of 10,20,30,40,50,60,70,80,90 is 50
    assert_eq!(out.pixel(1, 1), gray3(50));
    // each channel median lies within the sampled range
    let v = out.pixel(1, 1).r;
    assert!((10..=90).contains(&v));
}

#[test]
fn maximum_minimum_distinct_scores() {
    // r == g == b == a makes the luminance scores strictly distinct
    let mut img = RasterImage::new(3, 3, rgba(0, 0, 0, 0));
    let vals: [[u8; 3]; 3] = [[10, 50, 30], [90, 20, 70], [40, 80, 60]];
    for y in 0..3 {
        for x in 0..3 {
            let v = vals[y][x];
            img.set_pixel(x, y, rgba(v, v, v, v));
        }
    }
    let hi = maximum_filter(&img);
    let lo = minimum_filter(&img);
    assert_eq!(hi.pixel(1, 1), rgba(90, 90, 90, 90));
    assert_eq!(lo.pixel(1, 1), rgba(10, 10, 10, 10));
}

#[test]
fn zoom_nearest_blocks() {
    let a = rgba(1, 2, 3, 4);
    let b = rgba(5, 6, 7, 8);
    let c = rgba(9, 10, 11, 12);
    let d = rgba(13, 14, 15, 16);
    let mut img = RasterImage::new(2, 2, a);
    img.set_pixel(1, 0, b);
    img.set_pixel(0, 1, c);
    img.set_pixel(1, 1, d);
    let out = zoom_nn(&img);
    assert_eq!(out.width(), 4);
    assert_eq!(out.height(), 4);
    let expect = [[a, a, b, b], [a, a, b, b], [c, c, d, d], [c, c, d, d]];
    for y in 0..4 {
        for x in 0..4 {
            assert_eq!(out.pixel(x, y), expect[y][x]);
        }
    }
}

#[test]
fn zoom_bilinear_exact_row() {
    let mut img = RasterImage::new(2, 1, rgba(0, 0, 0, 255));
    img.set_pixel(1, 0, rgba(100, 0, 0, 255));
    let out = zoom_bilinear(&img);
    assert_eq!(out.width(), 4);
    assert_eq!(out.height(), 2);
    let expect_r: [u8; 4] = [0, 50, 100, 100];
    for y in 0..2 {
        for x in 0..4 {
            let p = out.pixel(x, y);
            assert_eq!(p.r, expect_r[x]);
            assert_eq!(p.g, 0);
            assert_eq!(p.b, 0);
            assert_eq!(p.a, 255);
        }
    }
}

#[test]
fn salt_pepper_zero_keeps_image() {
    let img = RasterImage::new(5, 5, rgba(10, 20, 30, 255));
    let out = salt_pepper(&img, 0);
    for y in 0..5 {
        for x in 0..5 {
            assert_eq!(out.pixel(x, y), rgba(10, 20, 30, 255));
        }
    }
}

#[test]
fn salt_pepper_injected_stream_exact() {
    let keep = rgba(10, 20, 30, 40);
    let img = RasterImage::new(3, 1, keep);
    // pixel 0 is salted white, pixel 1 survives, pixel 2 is peppered black
    let draws = vec![0u32, 999_999, 499_999];
    let coins = vec![1u32, 0, 0];
    let out = salt_pepper_with(&img, &draws, &coins, 500_000);
    assert_eq!(out.pixel(0, 0), rgba(255, 255, 255, 255));
    assert_eq!(out.pixel(1, 0), keep);
    assert_eq!(out.pixel(2, 0), rgba(0, 0, 0, 255));
}

#[test]
fn salt_pepper_full_replaces_all() {
    let img = RasterImage::new(5, 5, rgba(10, 20, 30, 255));
    let out = salt_pepper(&img, PROB_DENOM);
    for y in 0..5 {
        for x in 0..5 {
            let p = out.pixel(x, y);
            assert!(p == rgba(255, 255, 255, 255) || p == rgba(0, 0, 0, 255));
        }
    }
}
