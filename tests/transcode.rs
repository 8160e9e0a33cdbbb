use zip_resize::pipeline::{commit_needed, count_replaced, is_eligible};
use zip_resize::quality::{first_quality, next_step, Step};
use zip_resize::transcode::{already_compact, prepare_page, Layout, Prepared};

fn png_bytes(img: image::DynamicImage) -> Vec<u8> {
    let mut buf = std::io::Cursor::new(Vec::new());
    img.write_to(&mut buf, image::ImageOutputFormat::Png).unwrap();
    buf.into_inner()
}

fn rgb_page(w: u32, h: u32) -> Vec<u8> {
    png_bytes(image::DynamicImage::ImageRgb8(image::RgbImage::new(w, h)))
}

fn encode_webp(img: &image::DynamicImage) -> Vec<u8> {
    let encoder = webp::Encoder::from_image(img).unwrap();
    let mut q = first_quality();
    loop {
        let out = encoder.encode(q as f32).to_vec();
        match next_step(q, out.len()) {
            Step::Accept => return out,
            Step::Retry(n) => q = n,
        }
    }
}

#[test]
fn tall_page_is_downscaled() {
    match prepare_page(&rgb_page(100, 3000), 1800) {
        Prepared::Encode(img) => {
            assert_eq!(img.height(), 1800);
            assert_eq!(img.width(), 60);
            assert_eq!(img.image().height(), 1800);
            assert_eq!(img.image().width(), 60);
        }
        _ => panic!("expected a page to encode"),
    }
}

#[test]
fn low_page_keeps_size() {
    match prepare_page(&rgb_page(40, 30), 1800) {
        Prepared::Encode(img) => {
            assert_eq!((img.width(), img.height()), (40, 30));
            assert_eq!(img.layout(), Layout::Rgb8);
        }
        _ => panic!("expected a page to encode"),
    }
}

#[test]
fn grey_page_becomes_rgb() {
    let grey = png_bytes(image::DynamicImage::ImageLuma8(image::GrayImage::new(8, 8)));
    match prepare_page(&grey, 1800) {
        Prepared::Encode(img) => {
            assert_eq!(img.layout(), Layout::Rgb8);
            assert_eq!(img.image().color(), image::ColorType::Rgb8);
        }
        _ => panic!("expected a page to encode"),
    }
}

#[test]
fn small_webp_left_alone() {
    let img = image::DynamicImage::ImageRgb8(image::RgbImage::new(16, 16));
    let webp = encode_webp(&img);
    assert!(already_compact(&webp));
    assert!(matches!(prepare_page(&webp, 1800), Prepared::AlreadyCompact));
    // a second pass over its own output replaces nothing
    let rs: Vec<Result<bool, String>> =
        vec![Ok(matches!(prepare_page(&webp, 1800), Prepared::Encode(_)))];
    assert_eq!(count_replaced(rs), Ok(0));
}

#[test]
fn png_is_not_compact() {
    assert!(!already_compact(&rgb_page(4, 4)));
    assert!(!already_compact(b"RIF"));
}

#[test]
fn ten_tall_pages_all_replaced() {
    assert!(is_eligible(10 * 500 * 1024, 10));
    let mut results: Vec<Result<bool, String>> = Vec::new();
    for _ in 0..10 {
        match prepare_page(&rgb_page(50, 3000), 1800) {
            Prepared::Encode(img) => {
                assert_eq!(img.height(), 1800);
                let out = encode_webp(img.image());
                assert!(out.len() < 1024 * 1024);
                results.push(Ok(true));
            }
            _ => results.push(Ok(false)),
        }
    }
    let count = count_replaced(results);
    assert_eq!(count, Ok(10));
    assert!(commit_needed(10));
}

#[test]
fn text_files_only_change_nothing() {
    let texts: Vec<&[u8]> = vec![b"chapter one", b"notes", b"", b"RIFF but text", b"readme"];
    let results: Vec<Result<bool, String>> = texts
        .iter()
        .map(|t| Ok(matches!(prepare_page(t, 1800), Prepared::Encode(_))))
        .collect();
    for t in &texts {
        assert!(matches!(prepare_page(t, 1800), Prepared::NotImage));
    }
    assert_eq!(count_replaced(results), Ok(0));
    assert!(!commit_needed(0));
}

#[test]
fn rgba_page_keeps_alpha() {
    let rgba = png_bytes(image::DynamicImage::ImageRgba8(image::RgbaImage::new(8, 8)));
    match prepare_page(&rgba, 1800) {
        Prepared::Encode(img) => {
            assert_eq!(img.layout(), Layout::Rgba8);
            assert_eq!(img.image().color(), image::ColorType::Rgba8);
        }
        _ => panic!("expected a page to encode"),
    }
}
