use mask_generator::color::Color;
use mask_generator::mask::{rows_fit, MaskConfig, MaskContent};
use mask_generator::render::{
    generate_mask, generate_mask_svg, mask_from_raster, svg_from_document, MaskBuffer, RenderError,
};
use mask_generator::svg::{stripe_height, stripe_top};

fn get_test_mask(mask_width: u32, mask_height: u32) -> MaskConfig {
    let base_size = std::cmp::max(mask_width, mask_height) as f32 * 0.01;
    let font_size = base_size * 5.0;
    MaskConfig {
        alpha: 32,
        content: MaskContent::Text {
            text: "ЧУПЛЫГИН УХОДИ".to_string(),
            font: "Comic Sans MS".to_string(),
            color: Color::new(0xff, 0xff, 0xff),
            font_size: format!("{font_size:.2}"),
            rotation: format!("{}", 45.0f32),
            row_slide: (base_size * 1.0) as i32,
            offset_x: (base_size * -30.0) as i32,
            stride_x: (base_size * 30.0) as u32,
            offset_y: (base_size * -20.0) as i32,
            stride_y: (base_size * 20.0) as u32,
        },
    }
}

fn stripes(alpha: u8, stripe_count: u32) -> MaskConfig {
    MaskConfig {
        alpha,
        content: MaskContent::Stripes {
            color1: Color::new(255, 0, 0),
            color2: Color::new(0, 255, 0),
            stripe_count,
        },
    }
}

#[test]
fn svg_smoke() {
    let mask = get_test_mask(100, 100);
    assert!(mask.check_fits(100, 100));
    let svg = generate_mask_svg(mask, 100, 100);

    println!("{}", svg);
}

#[test]
fn generate_mask_smoke() {
    let mask = get_test_mask(720, 1920);
    if let MaskContent::Text { font_size, row_slide, offset_x, stride_x, offset_y, stride_y, .. } =
        &mask.content
    {
        assert_eq!(font_size, "96.00");
        assert_eq!((*row_slide, *offset_x, *stride_x), (19, -575, 575));
        assert_eq!((*offset_y, *stride_y), (-383, 383));
    }
    assert!(mask.check_fits(720, 1920));
    let mask = generate_mask(mask, 720, 1920, Vec::new()).unwrap();
    assert_eq!(mask.width(), 720);
    assert_eq!(mask.height(), 1920);
    assert_eq!(mask.into_raw().len(), 720 * 1920 * 4);
}

#[test]
fn text_grid_is_staggered() {
    let mask = MaskConfig {
        alpha: 255,
        content: MaskContent::Text {
            text: "a<b".to_string(),
            font: "Some \"Font\"".to_string(),
            color: Color::new(1, 2, 3),
            font_size: "2.50".to_string(),
            rotation: "-12.5".to_string(),
            row_slide: 3,
            offset_x: -5,
            stride_x: 10,
            offset_y: 0,
            stride_y: 8,
        },
    };
    assert!(mask.check_fits(10, 10));
    let svg = generate_mask_svg(mask, 10, 10);
    let anchors: Vec<(i32, i32)> = vec![(-5, 0), (5, 0), (-2, 8), (8, 8)];
    let mut from = 0;
    for (x, y) in anchors.iter() {
        let node = format!(
            "<text x=\"{}\" y=\"{}\" fill=\"#010203ff\" font-family=\"Some &quot;Font&quot;\" font-size=\"2.50\" transform=\"rotate(-12.5 {} {})\">a<b</text>",
            x, y, x, y
        );
        let at = svg[from..].find(&node);
        assert!(at.is_some());
        from += at.unwrap() + node.len();
    }
    assert_eq!(svg.matches("<text ").count(), 4);
}

#[test]
fn four_bands_of_a_hundred() {
    let tops: Vec<u32> = (0..4).map(|i| stripe_top(100, 4, i)).collect();
    assert_eq!(tops, vec![0, 25, 50, 75]);
    assert_eq!(stripe_height(100, 4), 25);

    let svg = generate_mask_svg(stripes(0x20, 4), 100, 100);
    let expected = "\n<svg xmlns=\"http://www.w3.org/2000/svg\" viewbox=\"0 0 100 100\">\n\
\t<rect x=\"0\" y=\"0\" width=\"100\" height=\"25\" fill=\"#ff000020\" />\n\
\t<rect x=\"0\" y=\"25\" width=\"100\" height=\"25\" fill=\"#00ff0020\" />\n\
\t<rect x=\"0\" y=\"50\" width=\"100\" height=\"25\" fill=\"#ff000020\" />\n\
\t<rect x=\"0\" y=\"75\" width=\"100\" height=\"25\" fill=\"#00ff0020\" />\n\
</svg>\n";
    assert_eq!(svg, expected);
}

#[test]
fn bands_truncate_and_leave_a_strip() {
    assert_eq!(stripe_height(10, 3), 3);
    assert_eq!(stripe_top(10, 3, 0), 0);
    assert_eq!(stripe_top(10, 3, 1), 3);
    assert_eq!(stripe_top(10, 3, 2), 6);
}

#[test]
fn band_tops_of_large_images() {
    assert_eq!(stripe_top(4_000_000_000, 4_000_000_000, 3_999_999_999), 3_999_999_999);
    assert_eq!(stripe_top(u32::MAX, 2, 1), u32::MAX / 2);
}

#[test]
fn fits_wants_a_band() {
    assert!(!stripes(1, 0).check_fits(10, 10));
    assert!(stripes(1, 1).check_fits(10, 10));
    assert!(stripes(1, 1).check_fits(0, 0));
}

#[test]
fn fits_wants_positive_strides() {
    let mut mask = get_test_mask(100, 100);
    if let MaskContent::Text { stride_x, .. } = &mut mask.content {
        *stride_x = 0;
    }
    assert!(!mask.check_fits(100, 100));
    let mut mask = get_test_mask(100, 100);
    if let MaskContent::Text { stride_y, .. } = &mut mask.content {
        *stride_y = 0;
    }
    assert!(!mask.check_fits(100, 100));
    assert!(!get_test_mask(100, 100).check_fits(0x8000_0000, 100));
}

#[test]
fn rows_must_start_in_range() {
    assert!(rows_fit(0, i32::MAX, 0, 1, 1));
    assert!(!rows_fit(1, i32::MAX, 0, 1, 1));
    assert!(!rows_fit(-1, i32::MIN, 0, 1, 1));
    assert!(rows_fit(1, i32::MAX, 0, 1, 0));
    assert!(rows_fit(1, i32::MAX, 5, 1, 1));
}

#[test]
fn raster_has_the_size_asked_for() {
    let mask = generate_mask(stripes(32, 3), 7, 5, Vec::new()).unwrap();
    assert_eq!((mask.width(), mask.height()), (7, 5));
    assert_eq!(mask.data.len(), 7 * 5 * 4);
}

#[test]
fn opaque_single_band_fills_the_raster() {
    let mask = generate_mask(stripes(255, 1), 4, 4, Vec::new()).unwrap();
    for pixel in mask.data.chunks(4) {
        assert_eq!(pixel, &[255, 0, 0, 255]);
    }
}

#[test]
fn transparent_mask_is_empty() {
    let mask = generate_mask(stripes(0, 2), 4, 4, Vec::new()).unwrap();
    for pixel in mask.data.chunks(4) {
        assert_eq!(pixel, &[0, 0, 0, 0]);
    }
}

#[test]
fn bands_alternate_in_the_raster() {
    let mut config = stripes(255, 2);
    if let MaskContent::Stripes { color2, .. } = &mut config.content {
        *color2 = Color::new(0, 0, 255);
    }
    let mask = generate_mask(config, 2, 4, Vec::new()).unwrap();
    let rows: Vec<&[u8]> = mask.data.chunks(8).collect();
    assert_eq!(rows[0], &[255, 0, 0, 255, 255, 0, 0, 255]);
    assert_eq!(rows[1], &[255, 0, 0, 255, 255, 0, 0, 255]);
    assert_eq!(rows[2], &[0, 0, 255, 255, 0, 0, 255, 255]);
    assert_eq!(rows[3], &[0, 0, 255, 255, 0, 0, 255, 255]);
}

#[test]
fn declaration_is_stripped() {
    let bytes = b"<?xml version=\"1.1\" encoding=\"UTF-8\"?>\n<svg />\n".to_vec();
    assert_eq!(svg_from_document(bytes), Some("\n<svg />\n".to_string()));
    let only = b"<?xml version=\"1.1\" encoding=\"UTF-8\"?>".to_vec();
    assert_eq!(svg_from_document(only), Some(String::new()));
}

#[test]
fn other_declarations_are_refused() {
    assert_eq!(svg_from_document(b"<?xml version=\"1.0\" encoding=\"UTF-8\"?>\n<svg />".to_vec()), None);
    assert_eq!(svg_from_document(b"<svg />".to_vec()), None);
    assert_eq!(svg_from_document(Vec::new()), None);
}

#[test]
fn text_must_be_utf8() {
    let mut bytes = b"<?xml version=\"1.1\" encoding=\"UTF-8\"?>".to_vec();
    bytes.push(0xff);
    assert_eq!(svg_from_document(bytes), None);
}

#[test]
fn buffer_wants_four_bytes_a_pixel() {
    assert!(MaskBuffer::from_raw(2, 3, vec![0; 24]).is_some());
    assert!(MaskBuffer::from_raw(2, 3, vec![0; 23]).is_none());
    assert!(MaskBuffer::from_raw(0, 3, Vec::new()).is_some());
    assert!(MaskBuffer::from_raw(65536, 65536, Vec::new()).is_none());
}

#[test]
fn raster_of_another_size_is_refused() {
    assert_eq!(mask_from_raster(Vec::new(), 1, 1).err(), Some(RenderError::Raster));
    assert_eq!(mask_from_raster(vec![0; 3], 1, 1).err(), Some(RenderError::Raster));
    let mask = mask_from_raster(vec![1, 2, 3, 4], 1, 1).unwrap();
    assert_eq!(mask.into_raw(), vec![1, 2, 3, 4]);
}

#[test]
fn too_wide_a_raster_is_refused() {
    let r = generate_mask(stripes(32, 1), 0x4000_0000, 1, Vec::new());
    assert_eq!(r.err(), Some(RenderError::Size));
}

#[test]
fn malformed_document_is_refused() {
    let mut mask = get_test_mask(100, 100);
    if let MaskContent::Text { text, .. } = &mut mask.content {
        *text = "a<b".to_string();
    }
    assert_eq!(generate_mask(mask, 100, 100, Vec::new()).err(), Some(RenderError::Svg));
}
