use iconic::file::File;
use image::{DynamicImage, GenericImageView, Rgb, RgbImage};
use resvg::tiny_skia::{Pixmap, PixmapRef};
use std::hash::{DefaultHasher, Hasher};

fn gradient(width: u32, height: u32) -> DynamicImage {
    let mut img = RgbImage::new(width, height);
    for y in 0..height {
        for x in 0..width {
            img.put_pixel(x, y, Rgb([x as u8, y as u8, (x + y) as u8]));
        }
    }
    DynamicImage::ImageRgb8(img)
}

fn expected_hash(image: &DynamicImage) -> u64 {
    let (w, h) = image.dimensions();
    let mut hasher = DefaultHasher::new();
    hasher.write(&w.to_le_bytes());
    hasher.write(&h.to_le_bytes());
    hasher.write(image.as_bytes());
    hasher.finish()
}

#[test]
fn svg_mime_renders_as_svg() {
    assert!(File::renders_as_svg(Some("image/svg+xml")));
    assert!(!File::renders_as_svg(Some("image/png")));
    assert!(!File::renders_as_svg(Some("image/svg")));
    assert!(!File::renders_as_svg(None));
}

#[test]
fn svg_extension_gives_svg_thumbnail() {
    assert!(File::thumbnail_from_svg("icon.svg"));
    assert!(File::thumbnail_from_svg("a.b.svg"));
    assert!(File::thumbnail_from_svg("svg"));
    assert!(!File::thumbnail_from_svg("icon.SVG"));
    assert!(!File::thumbnail_from_svg("icon.svg.png"));
    assert!(!File::thumbnail_from_svg("icon.svgz"));
}

#[test]
fn new_raster_file() {
    let img = gradient(10, 5);
    let file = File::new("/tmp/cat.png".to_string(), "cat.png", "image/png".to_string(), img.clone(), None, 4);
    assert_eq!(file.path, "/tmp/cat.png");
    assert_eq!(file.path_str(), "/tmp/cat.png");
    assert_eq!(file.filename, "cat");
    assert_eq!(file.extension, "image/png");
    assert_eq!(file.dynamic_image, img);
    assert_eq!(file.thumbnail.dimensions(), (4, 2));
    assert_eq!(file.hash, expected_hash(&img));
}

#[test]
fn new_svg_file_takes_rendered_thumbnail() {
    let img = gradient(8, 8);
    let thumb = gradient(3, 3);
    let file = File::new(
        "/tmp/icon.svg".to_string(),
        "icon.svg",
        "image/svg+xml".to_string(),
        img.clone(),
        Some(thumb.clone()),
        3,
    );
    assert_eq!(file.filename, "icon");
    assert_eq!(file.extension, "image/svg+xml");
    assert_eq!(file.thumbnail, thumb);
}

#[test]
fn new_file_name_loses_every_extension_occurrence() {
    let img = gradient(2, 2);
    let file = File::new("p".to_string(), "a.png.png", "image/png".to_string(), img, None, 2);
    assert_eq!(file.filename, "a");
}

#[test]
fn new_thumbnail_of_same_size_is_copy() {
    let img = gradient(4, 4);
    let file = File::new("p".to_string(), "sq.png", "image/png".to_string(), img.clone(), None, 4);
    assert_eq!(file.thumbnail, img);
}

#[test]
fn zero_thumbnail_size_gives_one_pixel() {
    let img = gradient(6, 3);
    let file = File::from_image(img, 0, "tiny");
    assert_eq!(file.thumbnail.dimensions(), (1, 1));
}

#[test]
fn from_image_fields() {
    let img = gradient(10, 10);
    let file = File::from_image(img.clone(), 5, "pic");
    assert_eq!(file.path, "");
    assert_eq!(file.extension, ".dynamic");
    assert_eq!(file.filename, "pic");
    assert_eq!(file.dynamic_image, img);
    assert_eq!(file.thumbnail.dimensions(), (5, 5));
    assert_eq!(file.hash, expected_hash(&img));
}

#[test]
fn different_images_get_different_hashes() {
    let a = DynamicImage::ImageRgba8(image::RgbaImage::new(3, 3));
    let b = DynamicImage::ImageLuma8(image::GrayImage::new(7, 1));
    let c = DynamicImage::ImageRgba8(image::RgbaImage::from_pixel(3, 3, image::Rgba([1, 2, 3, 4])));
    let ha = File::from_image(a.clone(), 1, "a").hash;
    assert_eq!(ha, expected_hash(&a));
    assert_ne!(ha, File::from_image(b, 1, "b").hash);
    assert_ne!(ha, File::from_image(c, 1, "c").hash);
}

#[test]
fn equal_inputs_give_equal_files() {
    let img = gradient(9, 4);
    let f1 = File::new("p".to_string(), "x.jpg", "image/jpeg".to_string(), img.clone(), None, 3);
    let f2 = File::new("p".to_string(), "x.jpg", "image/jpeg".to_string(), img, None, 3);
    assert_eq!(f1, f2);
}

#[test]
fn thumbnail_keeps_aspect_ratio() {
    let file = File::from_image(gradient(4, 2), 2, "wide");
    assert_eq!(file.thumbnail.dimensions(), (2, 1));
    let file = File::from_image(gradient(3, 9), 6, "tall");
    assert_eq!(file.thumbnail.dimensions(), (2, 6));
    let file = File::from_image(gradient(1, 100), 10, "thin");
    assert_eq!(file.thumbnail.dimensions(), (1, 10));
}

#[test]
fn pixmap_converts_pixel_by_pixel() {
    let mut pixmap = Pixmap::new(3, 2).unwrap();
    for (i, b) in pixmap.data_mut().iter_mut().enumerate() {
        *b = (i * 7 % 256) as u8;
    }
    let expected: Vec<u8> = pixmap.data().to_vec();
    let image = File::pixmap_to_image(pixmap);
    assert_eq!(image.dimensions(), (3, 2));
    assert_eq!(image.color(), image::ColorType::Rgba8);
    assert_eq!(image.as_bytes(), expected.as_slice());
}

#[test]
fn pixmap_keeps_premultiplied_channels() {
    let mut pixmap = Pixmap::new(1, 1).unwrap();
    pixmap.data_mut().copy_from_slice(&[10, 20, 30, 40]);
    let image = File::pixmap_to_image(pixmap);
    assert_eq!(image.as_bytes(), &[10, 20, 30, 40]);
}

#[test]
fn pixmap_with_longer_buffer_uses_first_pixels() {
    let bytes: Vec<u8> = (0..40u8).collect();
    let pixmap = PixmapRef::from_bytes(&bytes, 2, 3).unwrap().to_owned();
    let image = File::pixmap_to_image(pixmap);
    assert_eq!(image.dimensions(), (2, 3));
    assert_eq!(image.as_bytes(), &bytes[..24]);
}

#[test]
fn pixmap_with_partial_pixel_is_refused() {
    let bytes: Vec<u8> = (0..26u8).collect();
    let pixmap = PixmapRef::from_bytes(&bytes, 2, 3).unwrap().to_owned();
    assert!(File::try_pixmap_to_image(pixmap).is_none());
    let whole = Pixmap::new(2, 2).unwrap();
    assert_eq!(File::try_pixmap_to_image(whole).unwrap().dimensions(), (2, 2));
}

#[test]
fn thumbnail_is_nearest_resize() {
    let img = gradient(10, 5);
    let file = File::from_image(img.clone(), 4, "g");
    assert_eq!(file.thumbnail, img.resize(4, 4, image::imageops::FilterType::Nearest));
    assert_eq!(file.thumbnail.color(), img.color());
    let file = File::new("p".to_string(), "g.png", "image/png".to_string(), img.clone(), None, 3);
    assert_eq!(file.thumbnail, img.resize(3, 3, image::imageops::FilterType::Nearest));
}

#[test]
fn svg_mime_with_other_suffix_scales_thumbnail() {
    let img = gradient(8, 4);
    let file = File::new("p".to_string(), "logo.SVG", "image/svg+xml".to_string(), img.clone(), None, 4);
    assert_eq!(file.filename, "logo");
    assert_eq!(file.thumbnail, img.resize(4, 4, image::imageops::FilterType::Nearest));
}

#[test]
fn thumbnail_keeps_pixel_kind() {
    let img = DynamicImage::ImageLumaA16(image::ImageBuffer::new(6, 6));
    let file = File::from_image(img, 3, "deep");
    assert_eq!(file.thumbnail.color(), image::ColorType::La16);
    assert_eq!(file.thumbnail.dimensions(), (3, 3));
}

#[test]
fn hash_is_public_and_repeatable() {
    let img = gradient(5, 5);
    assert_eq!(File::create_hash(&img), File::create_hash(&img.clone()));
    assert_eq!(File::create_hash(&img), expected_hash(&img));
}

#[test]
fn new_pixmap_sizes() {
    let p = File::new_pixmap(4).unwrap();
    assert_eq!((p.width(), p.height()), (4, 4));
    assert!(p.data().iter().all(|b| *b == 0));
    assert!(File::new_pixmap(0).is_none());
    assert!(File::new_pixmap(-3).is_none());
    assert!(File::new_pixmap(536870912).is_none());
}

#[test]
fn pixmap_image_is_rgba8() {
    let mut p = Pixmap::new(3, 2).unwrap();
    p.pixels_mut()[2] = resvg::tiny_skia::PremultipliedColorU8::from_rgba(10, 20, 30, 40).unwrap();
    let image = File::pixmap_to_image(p);
    let rgba = image.as_rgba8().unwrap();
    assert_eq!(rgba.dimensions(), (3, 2));
    assert_eq!(*rgba.get_pixel(2, 0), image::Rgba([10, 20, 30, 40]));
    assert_eq!(*rgba.get_pixel(0, 0), image::Rgba([0, 0, 0, 0]));
}
