use memoria::error::ErrorKind;
use memoria::thumbnail::{generate_thumbnail, thumbnail_size, THUMBNAIL_MAX};

fn png(width: u32, height: u32) -> Vec<u8> {
    let picture = image::DynamicImage::ImageRgb8(image::RgbImage::new(width, height));
    let mut out = std::io::Cursor::new(Vec::new());
    picture.write_to(&mut out, image::ImageFormat::Png).unwrap();
    out.into_inner()
}

fn size_of(bytes: &[u8]) -> (u32, u32) {
    let picture = image::load_from_memory(bytes).unwrap();
    (picture.width(), picture.height())
}

#[test]
fn thumbnail_size_of_a_wide_image() {
    assert_eq!(thumbnail_size(1920, 1080), (256, 144));
    assert_eq!(thumbnail_size(512, 256), (256, 128));
    assert_eq!(thumbnail_size(1000, 500), (256, 128));
    assert_eq!(thumbnail_size(257, 256), (256, 255));
}

#[test]
fn thumbnail_size_of_a_tall_image() {
    assert_eq!(thumbnail_size(1080, 1920), (144, 256));
    assert_eq!(thumbnail_size(300, 400), (192, 256));
    assert_eq!(thumbnail_size(256, 257), (255, 256));
}

#[test]
fn thumbnail_size_of_a_square_image() {
    assert_eq!(thumbnail_size(1000, 1000), (256, 256));
    assert_eq!(thumbnail_size(256, 256), (256, 256));
    assert_eq!(thumbnail_size(3, 3), (3, 3));
}

#[test]
fn a_small_image_is_not_enlarged() {
    assert_eq!(thumbnail_size(100, 50), (100, 50));
    assert_eq!(thumbnail_size(50, 100), (50, 100));
    assert_eq!(thumbnail_size(1, 1), (1, 1));
}

#[test]
fn thumbnail_size_is_cut_down_to_whole_pixels() {
    assert_eq!(thumbnail_size(1000, 333), (256, 85));
    assert_eq!(thumbnail_size(333, 1000), (85, 256));
    assert_eq!(thumbnail_size(1000, 1), (256, 0));
    assert_eq!(thumbnail_size(u32::MAX, 1), (256, 0));
    assert_eq!(thumbnail_size(u32::MAX, u32::MAX - 1), (256, 255));
}

#[test]
fn thumbnail_size_of_an_empty_image() {
    assert_eq!(thumbnail_size(0, 0), (0, 0));
    assert_eq!(thumbnail_size(5, 0), (5, 0));
    assert_eq!(thumbnail_size(0, 5), (0, 5));
}

#[test]
fn thumbnail_size_fits_and_keeps_the_ratio() {
    assert_eq!(THUMBNAIL_MAX, 256);
    for (w, h) in [(640u32, 480u32), (481, 640), (4000, 3000), (17, 9000), (999, 1000)] {
        let (tw, th) = thumbnail_size(w, h);
        assert!(tw <= 256 && th <= 256);
        assert_eq!(tw.max(th), w.max(h).min(256));
        let exact = (w as u64) * (th as u64);
        let scaled = (h as u64) * (tw as u64);
        let tolerance = w.max(h) as u64;
        assert!(exact.abs_diff(scaled) < tolerance);
    }
}

#[test]
fn thumbnail_is_a_png_of_the_thumbnail_size() {
    let thumb = generate_thumbnail(&png(512, 256)).unwrap();
    assert_eq!(&thumb[..8], &[0x89, b'P', b'N', b'G', 0x0d, 0x0a, 0x1a, 0x0a]);
    assert_eq!(size_of(&thumb), (256, 128));
    let thumb = generate_thumbnail(&png(300, 400)).unwrap();
    assert_eq!(size_of(&thumb), (192, 256));
}

#[test]
fn thumbnail_of_a_small_image_keeps_its_size() {
    let thumb = generate_thumbnail(&png(40, 30)).unwrap();
    assert_eq!(size_of(&thumb), (40, 30));
}

#[test]
fn what_is_no_image_has_no_thumbnail() {
    assert_eq!(generate_thumbnail(b"not an image"), Err(ErrorKind::ArtifactFailure));
    assert_eq!(generate_thumbnail(b""), Err(ErrorKind::ArtifactFailure));
}

#[test]
fn a_sliver_too_thin_to_scale_has_no_thumbnail() {
    assert_eq!(generate_thumbnail(&png(1000, 1)), Err(ErrorKind::ArtifactFailure));
}
