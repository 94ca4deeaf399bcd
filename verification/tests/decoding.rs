use image::{DynamicImage, ImageFormat, RgbaImage};
use imager::decode::Container;
use imager::{FrameError, OutputFormat, VideoBuffer};
use std::io::Cursor;

fn encoded(width: u32, height: u32, fill: [u8; 4], format: ImageFormat) -> Vec<u8> {
    let mut picture = RgbaImage::new(width, height);
    for pixel in picture.pixels_mut() {
        pixel.0 = fill;
    }
    let mut bytes = Cursor::new(Vec::new());
    let picture = match format {
        ImageFormat::Jpeg => DynamicImage::ImageRgb8(DynamicImage::ImageRgba8(picture).to_rgb8()),
        _ => DynamicImage::ImageRgba8(picture),
    };
    picture.write_to(&mut bytes, format).unwrap();
    bytes.into_inner()
}

#[test]
fn the_first_bytes_tell_the_format() {
    let png = [0x89, b'P', b'N', b'G', 0x0d, 0x0a, 0x1a, 0x0a, 0, 0];
    assert_eq!(OutputFormat::infer_from_file_container(&png), Some(OutputFormat::Png));
    let jpeg = [0xff, 0xd8, 0xff, 0xe0, 0, 0];
    assert_eq!(OutputFormat::infer_from_file_container(&jpeg), Some(OutputFormat::Jpeg));
    let webp = *b"RIFF\x10\x20\x30\x40WEBPVP8 ";
    assert_eq!(OutputFormat::infer_from_file_container(&webp), Some(OutputFormat::Webp));
}

#[test]
fn signatures_must_be_complete() {
    assert_eq!(OutputFormat::infer_from_file_container(&[]), None);
    assert_eq!(OutputFormat::infer_from_file_container(&[0xff, 0xd8]), None);
    assert_eq!(OutputFormat::infer_from_file_container(&[0x89, b'P', b'N', b'G', 0x0d, 0x0a, 0x1a]), None);
    assert_eq!(OutputFormat::infer_from_file_container(b"RIFF\0\0\0\0WEB"), None);
    assert_eq!(OutputFormat::infer_from_file_container(b"RIFF\0\0\0\0WAVE"), None);
    assert_eq!(OutputFormat::infer_from_file_container(b"RIFX\0\0\0\0WEBP"), None);
}

#[test]
fn other_formats_are_none_of_the_output_formats() {
    assert_eq!(OutputFormat::infer_from_file_container(b"GIF89a......"), None);
    assert_eq!(OutputFormat::infer_from_file_container(b"BM000000000000"), None);
    assert_eq!(OutputFormat::infer_from_file_container(b"plain text"), None);
    assert_eq!(OutputFormat::infer_from_file_container(&[0u8; 32]), None);
}

#[test]
fn encoded_files_are_told_apart() {
    let png = encoded(4, 4, [1, 2, 3, 255], ImageFormat::Png);
    assert_eq!(OutputFormat::infer_from_file_container(&png), Some(OutputFormat::Png));
    let jpeg = encoded(4, 4, [1, 2, 3, 255], ImageFormat::Jpeg);
    assert_eq!(OutputFormat::infer_from_file_container(&jpeg), Some(OutputFormat::Jpeg));
}

#[test]
fn the_kinds_of_containers_differ() {
    assert_ne!(Container::Png, Container::Jpeg);
    assert_ne!(Container::WebP, Container::Other);
}

#[test]
fn a_png_file_makes_a_sequence_of_one_frame() {
    let bytes = encoded(6, 5, [0, 0, 0, 255], ImageFormat::Png);
    let mut buffer = VideoBuffer::from_png(&bytes).unwrap();
    assert_eq!(buffer.dimensions(), (6, 4));
    assert_eq!(buffer.as_frames().len(), 1);
    assert_eq!(buffer.position(), 0);
    let frame = buffer.next().unwrap();
    assert_eq!(frame.y(), &[16; 24]);
    assert_eq!(frame.u(), &[128; 6]);
    assert_eq!(frame.v(), &[128; 6]);
}

#[test]
fn a_png_file_keeps_its_colours() {
    let bytes = encoded(2, 2, [255, 0, 0, 255], ImageFormat::Png);
    let buffer = VideoBuffer::from_png(&bytes).unwrap();
    let frame = &buffer.as_frames()[0];
    assert_eq!(frame.data, vec![82, 82, 82, 82, 90, 240]);
}

#[test]
fn the_same_png_file_gives_the_same_frames() {
    let bytes = encoded(4, 2, [10, 200, 90, 255], ImageFormat::Png);
    let first = VideoBuffer::from_png(&bytes).unwrap();
    let second = VideoBuffer::from_png(&bytes).unwrap();
    assert_eq!(first.dimensions(), second.dimensions());
    assert_eq!(first.as_frames()[0].data, second.as_frames()[0].data);
    assert_eq!(first.as_frames()[0].data, vec![128, 128, 128, 128, 128, 128, 128, 128, 108, 108, 52, 52]);
}

#[test]
fn a_grey_png_file_is_read_as_colour() {
    let mut picture = image::GrayImage::new(2, 2);
    for pixel in picture.pixels_mut() {
        pixel.0 = [100];
    }
    let mut bytes = Cursor::new(Vec::new());
    DynamicImage::ImageLuma8(picture).write_to(&mut bytes, ImageFormat::Png).unwrap();
    let buffer = VideoBuffer::from_png(&bytes.into_inner()).unwrap();
    assert_eq!(buffer.as_frames()[0].data, vec![102, 102, 102, 102, 128, 128]);
}

#[test]
fn a_png_file_that_is_cut_short_is_refused() {
    let bytes = encoded(16, 16, [1, 2, 3, 255], ImageFormat::Png);
    assert_eq!(VideoBuffer::from_png(&bytes[..bytes.len() / 2]).unwrap_err(), FrameError::Decode);
}

#[test]
fn a_jpeg_file_makes_a_sequence_of_one_frame() {
    let bytes = encoded(8, 8, [255, 255, 255, 255], ImageFormat::Jpeg);
    let buffer = VideoBuffer::from_jpeg(&bytes).unwrap();
    assert_eq!(buffer.dimensions(), (8, 8));
    assert_eq!(buffer.as_frames().len(), 1);
    assert!(buffer.as_frames()[0].expected_yuv420p_size());
}

#[test]
fn bytes_that_are_no_picture_are_refused() {
    assert_eq!(VideoBuffer::from_png(b"no picture").unwrap_err(), FrameError::Decode);
    assert_eq!(VideoBuffer::from_jpeg(b"no picture").unwrap_err(), FrameError::Decode);
    assert_eq!(VideoBuffer::from_png(&[]).unwrap_err(), FrameError::Decode);
}

#[test]
fn a_file_of_the_other_format_is_refused() {
    let png = encoded(4, 4, [1, 2, 3, 255], ImageFormat::Png);
    let jpeg = encoded(4, 4, [1, 2, 3, 255], ImageFormat::Jpeg);
    assert_eq!(VideoBuffer::from_jpeg(&png).unwrap_err(), FrameError::Decode);
    assert_eq!(VideoBuffer::from_png(&jpeg).unwrap_err(), FrameError::Decode);
}

#[test]
fn what_the_decoder_returned_is_checked() {
    assert_eq!(VideoBuffer::from_decoded(None).unwrap_err(), FrameError::Decode);
    let short = imager::PackedImage { width: 2, height: 2, data: vec![0; 15] };
    assert_eq!(VideoBuffer::from_decoded(Some(short)).unwrap_err(), FrameError::Decode);
    let whole = imager::PackedImage { width: 2, height: 2, data: vec![0; 16] };
    assert_eq!(VideoBuffer::from_decoded(Some(whole)).unwrap().dimensions(), (2, 2));
}
