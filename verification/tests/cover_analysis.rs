//! Tests for the grayscale cover classifier, on in-memory images.

use hozon::collector::Collector;
use hozon::cover::is_grayscale;
use image::{DynamicImage, Rgb, RgbImage};

fn uniform_image(width: u32, height: u32, color: Rgb<u8>) -> DynamicImage {
    let mut img = RgbImage::new(width, height);
    for x in 0..width {
        for y in 0..height {
            img.put_pixel(x, y, color);
        }
    }
    DynamicImage::ImageRgb8(img)
}

#[test]
fn test_collector_is_grayscale() {
    let gray_img = uniform_image(100, 100, Rgb([128, 128, 128]));
    let color_img = uniform_image(100, 100, Rgb([255, 0, 0]));

    // High sensitivity is strict: a high share of pixels must be gray.
    assert!(
        Collector::is_grayscale(&gray_img, 90),
        "Dummy grayscale image should be detected as grayscale"
    );
    assert!(
        !Collector::is_grayscale(&color_img, 90),
        "Dummy color image should not be detected as grayscale"
    );

    // A pure saturated-red image is never grayscale, even at low sensitivity.
    assert!(
        !Collector::is_grayscale(&color_img, 10),
        "Dummy color image should not be detected as grayscale with low sensibility"
    );
}

#[test]
fn test_classify_is_idempotent() {
    let gray_img = uniform_image(64, 64, Rgb([80, 80, 80]));
    let first = is_grayscale(&gray_img, 75);
    let second = is_grayscale(&gray_img, 75);
    assert_eq!(first, second);

    let color_img = uniform_image(64, 64, Rgb([255, 0, 0]));
    let first = is_grayscale(&color_img, 75);
    let second = is_grayscale(&color_img, 75);
    assert_eq!(first, second);
}

#[test]
fn test_classify_downsamples_large_images() {
    // Larger than the downsampling threshold on both axes.
    let gray_img = uniform_image(640, 640, Rgb([128, 128, 128]));
    assert!(is_grayscale(&gray_img, 90));
    let color_img = uniform_image(640, 640, Rgb([255, 0, 0]));
    assert!(!is_grayscale(&color_img, 10));
}

#[test]
fn test_near_gray_tolerance() {
    // Channels within the tolerance of 10 still count as gray.
    let near_gray = uniform_image(50, 50, Rgb([120, 125, 130]));
    assert!(is_grayscale(&near_gray, 90));
    // Channels further apart do not.
    let tinted = uniform_image(50, 50, Rgb([120, 125, 140]));
    assert!(!is_grayscale(&tinted, 90));
}

#[test]
fn test_degenerate_image_is_not_grayscale() {
    let empty = DynamicImage::ImageRgb8(RgbImage::new(0, 0));
    assert!(!is_grayscale(&empty, 0));
}
