use raster_filters::pipeline::{clamp_size, Algorithm, FilterError, Pipeline};
use raster_filters::noise::PROB_DENOM;
use raster_filters::{RasterImage, Rgba};

fn rgba(r: u8, g: u8, b: u8, a: u8) -> Rgba {
    Rgba { r, g, b, a }
}

#[test]
fn clamp_large_image() {
    let img = RasterImage::new(500, 200, rgba(1, 2, 3, 255));
    let out = clamp_size(img);
    assert_eq!(out.width(), 300);
    assert_eq!(out.height(), 120);
    assert_eq!(out.pixel(0, 0), rgba(1, 2, 3, 255));
    assert_eq!(out.pixel(299, 119), rgba(1, 2, 3, 255));
}

#[test]
fn clamp_tall_image() {
    let img = RasterImage::new(100, 400, rgba(7, 7, 7, 255));
    let out = clamp_size(img);
    assert_eq!(out.width(), 75);
    assert_eq!(out.height(), 300);
}

#[test]
fn clamp_resamples_nearest() {
    // a 600x300 image halves to 300x150; output (x, y) copies source (2x, 2y)
    let mut img = RasterImage::new(600, 300, rgba(0, 0, 0, 255));
    for y in 0..300 {
        for x in 0..600 {
            img.set_pixel(x, y, rgba((x % 256) as u8, (y % 256) as u8, 0, 255));
        }
    }
    let out = clamp_size(img);
    assert_eq!(out.width(), 300);
    assert_eq!(out.height(), 150);
    for &(x, y) in &[(0usize, 0usize), (1, 0), (7, 11), (149, 74), (299, 149)] {
        let p = out.pixel(x, y);
        assert_eq!(p.r, ((2 * x) % 256) as u8);
        assert_eq!(p.g, ((2 * y) % 256) as u8);
    }
}

#[test]
fn clamp_small_image_unchanged() {
    let mut img = RasterImage::new(200, 150, rgba(0, 0, 0, 255));
    img.set_pixel(17, 13, rgba(9, 8, 7, 6));
    let out = clamp_size(img);
    assert_eq!(out.width(), 200);
    assert_eq!(out.height(), 150);
    assert_eq!(out.pixel(17, 13), rgba(9, 8, 7, 6));
    assert_eq!(out.pixel(0, 0), rgba(0, 0, 0, 255));
}

#[test]
fn select_rejects_out_of_range_probability() {
    let mut p = Pipeline::new();
    let r = p.select(Algorithm::SaltPepper(PROB_DENOM + 1));
    assert_eq!(r, Err(FilterError::InvalidParameter));
    // the rejected selection leaves the previous one in place
    let ok = p.select(Algorithm::Grayscale);
    assert_eq!(ok, Ok(()));
    let ok2 = p.select(Algorithm::SaltPepper(PROB_DENOM / 2));
    assert_eq!(ok2, Ok(()));
}

#[test]
fn apply_without_input_is_noop() {
    let mut p = Pipeline::new();
    p.apply();
    assert!(p.input.is_none());
    assert!(p.output.is_none());
}

#[test]
fn pipeline_apply_and_promote() {
    let mut p = Pipeline::new();
    p.load(RasterImage::new(4, 4, rgba(255, 0, 0, 255)));
    assert!(p.input.is_some());
    assert!(p.output.is_none());

    let r = p.select(Algorithm::Grayscale);
    assert_eq!(r, Ok(()));
    p.apply();
    {
        let out = p.output.as_ref().expect("apply with input fills the output");
        for y in 0..4 {
            for x in 0..4 {
                assert_eq!(out.pixel(x, y), rgba(76, 76, 76, 255));
            }
        }
    }

    p.promote();
    assert!(p.output.is_none());
    let input = p.input.as_ref().expect("promotion moves the output into the input");
    assert_eq!(input.pixel(0, 0), rgba(76, 76, 76, 255));

    // promoting again with no output changes nothing
    p.promote();
    assert!(p.input.is_some());
    assert!(p.output.is_none());
}

#[test]
fn pipeline_threshold_via_apply() {
    let mut p = Pipeline::new();
    p.load(RasterImage::new(2, 2, rgba(100, 100, 100, 255)));
    assert_eq!(p.select(Algorithm::Threshold(99)), Ok(()));
    p.apply();
    {
        let out = p.output.as_ref().expect("apply with input fills the output");
        assert_eq!(out.pixel(0, 0), rgba(255, 255, 255, 255));
    }
    assert_eq!(p.select(Algorithm::Threshold(100)), Ok(()));
    p.apply();
    let out = p.output.as_ref().expect("apply with input fills the output");
    assert_eq!(out.pixel(0, 0), rgba(0, 0, 0, 255));
}
