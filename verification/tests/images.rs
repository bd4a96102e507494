use image::{DynamicImage, ImageOutputFormat, Rgb32FImage, Rgba, RgbaImage};
use std::io::Cursor;
use web_backend::backend::WebBackend;
use web_backend::output::OutputItem;

const PNG_SIGNATURE: [u8; 8] = [0x89, b'P', b'N', b'G', 0x0d, 0x0a, 0x1a, 0x0a];

fn sample() -> DynamicImage {
    let mut pixels = RgbaImage::from_pixel(3, 2, Rgba([10, 20, 30, 255]));
    pixels.put_pixel(1, 1, Rgba([200, 100, 50, 128]));
    DynamicImage::ImageRgba8(pixels)
}

#[test]
fn image_is_appended_as_png() {
    let mut backend = WebBackend::default();
    assert_eq!(backend.show_image(sample()), Ok(()));
    assert_eq!(backend.stdout.len(), 1);
    match &backend.stdout[0] {
        OutputItem::Image(bytes) => {
            assert_eq!(&bytes[..8], &PNG_SIGNATURE);
            let decoded = image::load_from_memory(bytes).unwrap();
            assert_eq!(decoded.to_rgba8(), sample().to_rgba8());
        }
        _ => panic!("the item is an image"),
    }
}

#[test]
fn image_bytes_are_those_of_the_encoder() {
    let mut expected = Cursor::new(Vec::new());
    sample().write_to(&mut expected, ImageOutputFormat::Png).unwrap();
    let mut backend = WebBackend::default();
    backend.show_image(sample()).unwrap();
    assert!(matches!(&backend.stdout[0], OutputItem::Image(b) if b == expected.get_ref()));
}

#[test]
fn image_follows_earlier_output() {
    let mut backend = WebBackend::default();
    backend.print_str_stdout("before").unwrap();
    backend.show_image(sample()).unwrap();
    backend.print_str_stdout("after").unwrap();
    assert_eq!(backend.stdout.len(), 3);
    assert!(matches!(&backend.stdout[0], OutputItem::String(s) if s == "before"));
    assert!(matches!(&backend.stdout[1], OutputItem::Image(_)));
    assert!(matches!(&backend.stdout[2], OutputItem::String(s) if s == "after"));
}

#[test]
fn image_that_cannot_be_encoded_fails_and_leaves_the_log() {
    let unsupported = DynamicImage::ImageRgb32F(Rgb32FImage::new(1, 1));
    let mut sink = Cursor::new(Vec::new());
    let cause = unsupported
        .write_to(&mut sink, ImageOutputFormat::Png)
        .unwrap_err();
    let mut backend = WebBackend::default();
    backend.print_str_stdout("x").unwrap();
    assert_eq!(
        backend.show_image(unsupported),
        Err(format!("Failed to show image: {}", cause))
    );
    assert_eq!(backend.stdout.len(), 1);
}

#[test]
fn recorded_failure_names_its_cause() {
    let mut backend = WebBackend::default();
    assert_eq!(
        backend.record_image(Err(String::from("no encoder"))),
        Err(String::from("Failed to show image: no encoder"))
    );
    assert!(backend.stdout.is_empty());
}

#[test]
fn recorded_bytes_are_appended_as_they_are() {
    let mut backend = WebBackend::default();
    assert_eq!(backend.record_image(Ok(vec![1, 2, 3])), Ok(()));
    assert!(matches!(&backend.stdout[0], OutputItem::Image(b) if b == &vec![1, 2, 3]));
}
