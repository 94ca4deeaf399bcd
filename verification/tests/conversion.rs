use imager::color::{chroma, luma, rgb};
use imager::{ensure_even_reslution, FrameError, PackedImage, Rgb, Yuv420P};

fn px(r: u8, g: u8, b: u8) -> Rgb {
    Rgb { r, g, b }
}

fn picture_of(width: u32, height: u32, pixels: &[(u8, u8, u8)]) -> PackedImage {
    assert_eq!(pixels.len(), (width * height) as usize);
    let mut data = Vec::new();
    for &(r, g, b) in pixels {
        data.extend_from_slice(&[r, g, b, 255]);
    }
    PackedImage { width, height, data }
}

fn numbered(width: u32, height: u32) -> PackedImage {
    let len = (width * height * 4) as usize;
    let data: Vec<u8> = (0..len).map(|i| (i % 253) as u8).collect();
    PackedImage { width, height, data }
}

#[test]
fn luma_of_the_primary_colours() {
    assert_eq!(luma(px(0, 0, 0)), 16);
    assert_eq!(luma(px(255, 255, 255)), 235);
    assert_eq!(luma(px(255, 0, 0)), 82);
    assert_eq!(luma(px(0, 255, 0)), 145);
    assert_eq!(luma(px(0, 0, 255)), 41);
    assert_eq!(luma(px(128, 128, 128)), 126);
    assert_eq!(luma(px(10, 200, 90)), 128);
}

#[test]
fn chroma_of_blocks_of_one_colour() {
    let cases = [
        ((0, 0, 0), (128, 128)),
        ((255, 255, 255), (128, 128)),
        ((255, 0, 0), (90, 240)),
        ((0, 255, 0), (54, 34)),
        ((0, 0, 255), (240, 110)),
        ((128, 128, 128), (128, 128)),
        ((10, 200, 90), (108, 52)),
    ];
    for ((r, g, b), expected) in cases {
        let p = px(r, g, b);
        assert_eq!(chroma(p, p, p, p), expected);
    }
}

#[test]
fn chroma_gives_less_weight_across_an_edge() {
    let red = px(255, 0, 0);
    let blue = px(0, 0, 255);
    // A plain average of the four pixels would give (128, 207).
    assert_eq!(chroma(red, red, red, blue), (116, 218));
    assert_eq!(chroma(red, px(0, 255, 0), blue, px(255, 255, 255)), (66, 98));
}

#[test]
fn chroma_of_a_block_of_one_luma_is_the_average() {
    let red = px(255, 0, 0);
    let grey = px(77, 77, 77);
    assert_eq!(luma(red), luma(grey));
    assert_eq!(chroma(red, grey, red, grey), (109, 184));
}

#[test]
fn chroma_of_an_edge_through_the_middle_is_the_average() {
    let white = px(255, 255, 255);
    let black = px(0, 0, 0);
    assert_eq!(chroma(white, black, white, black), (128, 128));
}

#[test]
fn colour_of_luma_and_chroma() {
    let cases = [
        ((16, 128, 128), (0, 0, 0)),
        ((235, 128, 128), (255, 255, 255)),
        ((82, 90, 240), (255, 1, 0)),
        ((145, 54, 34), (0, 255, 1)),
        ((41, 240, 110), (0, 0, 255)),
        ((126, 128, 128), (128, 128, 128)),
        ((0, 0, 0), (0, 136, 0)),
        ((255, 255, 255), (255, 125, 255)),
        ((255, 0, 255), (255, 225, 20)),
    ];
    for ((y, u, v), (r, g, b)) in cases {
        let p = rgb(y, u, v);
        assert_eq!((p.r, p.g, p.b), (r, g, b));
    }
}

#[test]
fn black_survives_the_round_trip() {
    for (width, height) in [(2u32, 2u32), (4, 2), (2, 6), (16, 10), (100, 100)] {
        let source = PackedImage { width, height, data: vec![0; (width * height * 4) as usize] };
        let planar = Yuv420P::from_image(&source).unwrap();
        assert_eq!(planar.dimensions(), (width, height));
        assert!(planar.y().iter().all(|&y| y == 16));
        assert!(planar.u().iter().all(|&u| u == 128));
        assert!(planar.v().iter().all(|&v| v == 128));
        let back = planar.to_rgba_image();
        assert_eq!((back.width, back.height), (width, height));
        assert_eq!(back.data.len(), source.data.len());
        for pixel in back.data.chunks(4) {
            assert_eq!(pixel, &[0, 0, 0, 255]);
        }
    }
}

#[test]
fn grey_and_white_survive_the_round_trip() {
    for level in [128u8, 255u8] {
        let source = picture_of(4, 4, &[(level, level, level); 16]);
        let back = Yuv420P::from_image(&source).unwrap().to_rgba_image();
        assert_eq!(back.data, source.data);
    }
}

#[test]
fn an_odd_width_is_trimmed() {
    let source = numbered(101, 100);
    let planar = Yuv420P::from_image(&source).unwrap();
    assert_eq!(planar.width, 100);
    assert_eq!(planar.height, 100);
    assert_eq!(planar.dimensions(), (100, 100));
    assert!(planar.expected_yuv420p_size());
    assert_eq!(planar.data.len(), 15000);
}

#[test]
fn an_odd_height_is_trimmed() {
    let source = numbered(10, 7);
    let planar = Yuv420P::from_image(&source).unwrap();
    assert_eq!(planar.dimensions(), (10, 6));
    assert_eq!(planar.data.len(), 90);
}

#[test]
fn a_picture_of_one_pixel_is_trimmed_to_nothing() {
    let source = numbered(1, 1);
    let planar = Yuv420P::from_image(&source).unwrap();
    assert_eq!(planar.dimensions(), (0, 0));
    assert!(planar.data.is_empty());
    let back = planar.to_rgba_image();
    assert_eq!((back.width, back.height), (0, 0));
    assert!(back.data.is_empty());
}

#[test]
fn trimming_keeps_the_pixels_at_the_origin() {
    let source = numbered(5, 3);
    let even = ensure_even_reslution(&source);
    assert_eq!((even.width, even.height), (4, 2));
    assert_eq!(even.data.len(), 32);
    for y in 0..2u32 {
        for x in 0..4u32 {
            let p = even.pixel(x, y);
            let q = source.pixel(x, y);
            assert_eq!((p.r, p.g, p.b), (q.r, q.g, q.b));
            let at = ((y * 4 + x) * 4 + 3) as usize;
            let from = ((y * 5 + x) * 4 + 3) as usize;
            assert_eq!(even.data[at], source.data[from]);
        }
    }
}

#[test]
fn trimming_an_odd_width_alone_keeps_the_height() {
    let source = numbered(3, 2);
    let even = ensure_even_reslution(&source);
    assert_eq!((even.width, even.height), (2, 2));
    assert_eq!(even.data, vec![0, 1, 2, 3, 4, 5, 6, 7, 12, 13, 14, 15, 16, 17, 18, 19]);
}

#[test]
fn trimming_even_dimensions_changes_nothing() {
    let source = numbered(4, 6);
    let even = ensure_even_reslution(&source);
    assert_eq!((even.width, even.height), (4, 6));
    assert_eq!(even.data, source.data);
}

#[test]
fn pixels_are_read_row_by_row() {
    let source = numbered(3, 2);
    let p = source.pixel(2, 1);
    assert_eq!((p.r, p.g, p.b), (20, 21, 22));
    let q = source.pixel(0, 0);
    assert_eq!((q.r, q.g, q.b), (0, 1, 2));
    assert!(source.is_well_formed());
    let short = PackedImage { width: 3, height: 2, data: vec![0; 23] };
    assert!(!short.is_well_formed());
}

#[test]
fn planes_of_a_small_picture() {
    let source = picture_of(
        4,
        2,
        &[
            (255, 0, 0),
            (255, 0, 0),
            (0, 255, 0),
            (0, 0, 255),
            (255, 0, 0),
            (0, 0, 255),
            (255, 255, 255),
            (0, 0, 0),
        ],
    );
    let planar = Yuv420P::from_image(&source).unwrap();
    assert_eq!(planar.y(), &[82, 82, 145, 41, 82, 41, 235, 16]);
    assert_eq!(planar.u(), &[116, 57]);
    assert_eq!(planar.v(), &[218, 36]);
    assert_eq!(planar.data, vec![82, 82, 145, 41, 82, 41, 235, 16, 116, 57, 218, 36]);
}

#[test]
fn packed_picture_of_a_small_planar_picture() {
    let planar = Yuv420P {
        width: 4,
        height: 2,
        data: vec![82, 82, 145, 41, 82, 41, 235, 16, 116, 57, 218, 36],
    };
    let back = planar.to_rgba_image();
    assert_eq!((back.width, back.height), (4, 2));
    assert_eq!(
        back.data,
        vec![
            220, 8, 53, 255, 220, 8, 53, 255, 3, 253, 7, 255, 0, 132, 0, 255, 220, 8, 53, 255, 173,
            0, 5, 255, 108, 255, 112, 255, 0, 103, 0, 255
        ]
    );
}

#[test]
fn the_result_is_opaque_whatever_the_source() {
    let mut source = numbered(4, 4);
    for pixel in source.data.chunks_mut(4) {
        pixel[3] = 7;
    }
    let back = Yuv420P::from_image(&source).unwrap().to_rgba_image();
    assert!(back.data.chunks(4).all(|pixel| pixel[3] == 255));
}

#[test]
fn alpha_does_not_change_the_planes() {
    let opaque = numbered(4, 4);
    let mut clear = numbered(4, 4);
    for pixel in clear.data.chunks_mut(4) {
        pixel[3] = 0;
    }
    assert_ne!(opaque.data, clear.data);
    let expected = Yuv420P::from_image(&opaque).unwrap();
    let planar = Yuv420P::from_image(&clear).unwrap();
    assert_eq!(planar.data, expected.data);
}

#[test]
fn a_picture_at_the_bound_is_refused() {
    let wide = PackedImage { width: 16383, height: 2, data: vec![0; 16383 * 2 * 4] };
    assert!(Yuv420P::from_image(&wide).is_ok());
    let wider = PackedImage { width: 16384, height: 2, data: vec![0; 16384 * 2 * 4] };
    assert_eq!(Yuv420P::from_image(&wider).unwrap_err(), FrameError::TooLarge);
    let tall = PackedImage { width: 2, height: 16385, data: vec![0; 2 * 16385 * 4] };
    assert_eq!(Yuv420P::from_image(&tall).unwrap_err(), FrameError::TooLarge);
}

#[test]
fn the_widest_picture_that_is_accepted() {
    let wide = PackedImage { width: 16383, height: 2, data: vec![0; 16383 * 2 * 4] };
    let planar = Yuv420P::from_image(&wide).unwrap();
    assert_eq!(planar.dimensions(), (16382, 2));
}
