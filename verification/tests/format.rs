use imager::{OutputFormat, OutputFormats, OutputSize, Resolution};
use std::str::FromStr;

#[test]
fn formats_are_read_off_their_names() {
    assert_eq!(OutputFormat::from_str("jpeg"), Ok(OutputFormat::Jpeg));
    assert_eq!(OutputFormat::from_str("jpg"), Ok(OutputFormat::Jpeg));
    assert_eq!(OutputFormat::from_str("png"), Ok(OutputFormat::Png));
    assert_eq!(OutputFormat::from_str("webp"), Ok(OutputFormat::Webp));
}

#[test]
fn the_case_of_a_format_name_does_not_matter() {
    assert_eq!(OutputFormat::from_str("JPEG"), Ok(OutputFormat::Jpeg));
    assert_eq!(OutputFormat::from_str("Jpg"), Ok(OutputFormat::Jpeg));
    assert_eq!(OutputFormat::from_str("PNG"), Ok(OutputFormat::Png));
    assert_eq!(OutputFormat::from_str("WebP"), Ok(OutputFormat::Webp));
    assert_eq!("pNg".parse::<OutputFormat>(), Ok(OutputFormat::Png));
}

#[test]
fn an_unknown_format_name_is_reported_as_it_was_written() {
    assert_eq!(
        OutputFormat::from_str("GIF"),
        Err("Unknown or unsupported output format GIF".to_string())
    );
    assert_eq!(
        OutputFormat::from_str(""),
        Err("Unknown or unsupported output format ".to_string())
    );
    assert_eq!(
        OutputFormat::from_str(" png"),
        Err("Unknown or unsupported output format  png".to_string())
    );
    assert!(OutputFormat::from_str("jpegs").is_err());
}

#[test]
fn lowercase_names_alone_stand_for_formats() {
    assert_eq!(OutputFormat::from_lowercase("jpeg"), Some(OutputFormat::Jpeg));
    assert_eq!(OutputFormat::from_lowercase("jpg"), Some(OutputFormat::Jpeg));
    assert_eq!(OutputFormat::from_lowercase("png"), Some(OutputFormat::Png));
    assert_eq!(OutputFormat::from_lowercase("webp"), Some(OutputFormat::Webp));
    assert_eq!(OutputFormat::from_lowercase("PNG"), None);
    assert_eq!(OutputFormat::from_lowercase("gif"), None);
    assert_eq!(OutputFormat::from_lowercase(""), None);
}

#[test]
fn the_default_format_is_jpeg() {
    assert_eq!(OutputFormat::default(), OutputFormat::Jpeg);
}

#[test]
fn the_default_formats_are_jpeg_and_webp() {
    assert_eq!(OutputFormats::default().0, vec![OutputFormat::Jpeg, OutputFormat::Webp]);
    assert_eq!(OutputFormats::default().clone().0, vec![OutputFormat::Jpeg, OutputFormat::Webp]);
}

#[test]
fn a_list_of_formats_is_read_word_by_word() {
    let list = OutputFormats::from_str("jpeg webp").unwrap();
    assert_eq!(list.0, vec![OutputFormat::Jpeg, OutputFormat::Webp]);
    let list = OutputFormats::from_str("  PNG\tjpg\n png ").unwrap();
    assert_eq!(list.0, vec![OutputFormat::Png, OutputFormat::Jpeg, OutputFormat::Png]);
    assert!(OutputFormats::from_str("").unwrap().0.is_empty());
    assert!(OutputFormats::from_str("   ").unwrap().0.is_empty());
}

#[test]
fn every_unknown_name_of_a_list_is_reported() {
    let error = OutputFormats::from_str("jpeg gif png bmp").unwrap_err();
    assert_eq!(
        error,
        "Unknown or unsupported output format gif, Unknown or unsupported output format bmp"
    );
    let error = OutputFormats::from_str("tiff").unwrap_err();
    assert_eq!(error, "Unknown or unsupported output format tiff");
}

#[test]
fn a_list_of_words_is_read_as_it_stands() {
    let words = vec!["webp".to_string(), "JPG".to_string()];
    assert_eq!(
        OutputFormats::from_words(&words).unwrap().0,
        vec![OutputFormat::Webp, OutputFormat::Jpeg]
    );
    let words = vec!["a b".to_string(), "png".to_string(), "".to_string()];
    assert_eq!(
        OutputFormats::from_words(&words).unwrap_err(),
        "Unknown or unsupported output format a b, Unknown or unsupported output format "
    );
    assert!(OutputFormats::from_words(&Vec::new()).unwrap().0.is_empty());
}

#[test]
fn a_resolution_is_written_as_width_x_height() {
    assert_eq!(Resolution::new(640, 480).to_string(), "640x480");
    assert_eq!(Resolution::new(0, 0).to_string(), "0x0");
    assert_eq!(Resolution::new(7, 100).to_string(), "7x100");
    assert_eq!(Resolution::new(u32::MAX, 1).to_string(), "4294967295x1");
    assert_eq!(Resolution::new(3, 4), Resolution { width: 3, height: 4 });
}

#[test]
fn a_resolution_is_read_as_it_is_written() {
    assert_eq!(Resolution::from_str("640x480"), Ok(Resolution::new(640, 480)));
    assert_eq!(Resolution::from_str("0x0"), Ok(Resolution::new(0, 0)));
    assert_eq!(Resolution::from_str("007x010"), Ok(Resolution::new(7, 10)));
    assert_eq!(Resolution::from_str("4294967295x4294967295"), Ok(Resolution::new(u32::MAX, u32::MAX)));
    for (width, height) in [(1u32, 1u32), (1920, 1080), (0, 65536), (4294967295, 12)] {
        let resolution = Resolution::new(width, height);
        assert_eq!(Resolution::from_str(&resolution.to_string()), Ok(resolution));
    }
}

#[test]
fn a_resolution_may_carry_plus_signs_and_more_than_one_x() {
    assert_eq!(Resolution::from_str("+640x+480"), Ok(Resolution::new(640, 480)));
    assert_eq!(Resolution::from_str("10xx20"), Ok(Resolution::new(10, 20)));
    assert_eq!(Resolution::from_str("10xxxx20"), Ok(Resolution::new(10, 20)));
}

#[test]
fn a_text_that_is_no_resolution_is_invalid() {
    for text in [
        "", "x", "640", "640x", "x480", "640X480", "640 x 480", " 640x480", "640x480 ", "-1x2",
        "1x-2", "1.5x2", "4294967296x1", "1x4294967296", "1x2x3", "axb", "+x1", "1x+", "++1x2",
        "1_0x2", "\u{0661}x2",
    ] {
        assert_eq!(Resolution::from_str(text), Err("invalid".to_string()), "{:?}", text);
    }
}

#[test]
fn a_size_is_the_word_full_or_a_resolution() {
    assert_eq!(OutputSize::from_str("full"), Ok(OutputSize::Full));
    assert_eq!(OutputSize::from_str("800x600"), Ok(OutputSize::Px(Resolution::new(800, 600))));
    assert_eq!(OutputSize::from_str("Full"), Err("invalid".to_string()));
    assert_eq!(OutputSize::from_str("full "), Err("invalid".to_string()));
    assert_eq!(OutputSize::from_str(""), Err("invalid".to_string()));
    assert_eq!(OutputSize::from_str("800"), Err("invalid".to_string()));
}

#[test]
fn a_size_is_written_as_it_is_read() {
    assert_eq!(OutputSize::Full.to_string(), "full");
    assert_eq!(OutputSize::Px(Resolution::new(800, 600)).to_string(), "800x600");
    for size in [OutputSize::Full, OutputSize::Px(Resolution::new(1, 2))] {
        assert_eq!(OutputSize::from_str(&size.to_string()), Ok(size));
    }
}

#[test]
fn the_default_size_is_full() {
    assert_eq!(OutputSize::default(), OutputSize::Full);
}
