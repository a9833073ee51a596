use glyphscript::encrypt_text;
use glyphscript::make_image;
use glyphscript::Config;
use glyphscript::GlyphError;

#[test]
fn empty_code_sequence_is_rejected() {
    let cfg = Config {
        max_columns: 6,
        tile_size: 50,
        padding: 1,
        padding_side: 1,
        stroke: 2,
    };
    let codes: Vec<(u8, u8)> = Vec::new();
    match make_image(&codes, &cfg) {
        Err(e) => assert_eq!(e, GlyphError::EmptyInput),
        Ok(_) => panic!("an empty code sequence must be rejected"),
    }
}

#[test]
fn all_space_text_renders_nothing() {
    // A single space encodes to no codes at all, which the compositor
    // then rejects.
    let codes = encrypt_text(" ").expect("a space alone encodes fine");
    assert!(codes.is_empty());
    let cfg = Config {
        max_columns: 6,
        tile_size: 50,
        padding: 1,
        padding_side: 1,
        stroke: 2,
    };
    match make_image(&codes, &cfg) {
        Err(e) => assert_eq!(e, GlyphError::EmptyInput),
        Ok(_) => panic!("an empty code sequence must be rejected"),
    }
}

#[test]
fn image_dimensions_follow_the_grid() {
    // Five codes wrapped at two columns: 2 columns, 3 rows.
    let codes: Vec<(u8, u8)> = vec![(0, 0), (0, 1), (0, 2), (0, 3), (0, 4)];
    let cfg = Config {
        max_columns: 2,
        tile_size: 4,
        padding: 0,
        padding_side: 0,
        stroke: 1,
    };
    let buf = make_image(&codes, &cfg).expect("five codes render fine");
    assert_eq!(buf.width, 8);
    assert_eq!(buf.height, 12);
    assert_eq!(buf.pixels.len(), 3 * 8 * 12);
}

#[test]
fn fewer_codes_than_wrap_width_narrow_the_grid() {
    let codes: Vec<(u8, u8)> = vec![(0, 0), (0, 1)];
    let cfg = Config {
        max_columns: 6,
        tile_size: 4,
        padding: 0,
        padding_side: 0,
        stroke: 1,
    };
    let buf = make_image(&codes, &cfg).expect("two codes render fine");
    assert_eq!(buf.width, 8);
    assert_eq!(buf.height, 4);
}

#[test]
fn rendering_twice_is_byte_identical() {
    let codes = encrypt_text("pb td").expect("all characters are in the table");
    let cfg = Config {
        max_columns: 2,
        tile_size: 50,
        padding: 1,
        padding_side: 1,
        stroke: 2,
    };
    let first = make_image(&codes, &cfg).expect("codes render fine");
    let second = make_image(&codes, &cfg).expect("codes render fine");
    assert_eq!(first.width, second.width);
    assert_eq!(first.height, second.height);
    assert_eq!(first.pixels, second.pixels);
}

#[test]
fn single_tile_bytes_are_exact() {
    // One 4x4 tile, no padding, stroke 1, code (8, 8): selector 8 draws
    // only the top bar. The interior of each half is x in [0, 3], local y
    // in [0, 1]; the bar covers row 0 and nothing else, because row 1
    // misses the bar, row 2 is outside the upper half's interior, and the
    // lower half starts at local y = 1.
    let codes: Vec<(u8, u8)> = vec![(8, 8)];
    let cfg = Config {
        max_columns: 1,
        tile_size: 4,
        padding: 0,
        padding_side: 0,
        stroke: 1,
    };
    let buf = make_image(&codes, &cfg).expect("one code renders fine");
    assert_eq!(buf.width, 4);
    assert_eq!(buf.height, 4);
    let mut expected: Vec<u8> = Vec::new();
    for _ in 0..4 {
        expected.extend_from_slice(&[0, 0, 0]);
    }
    for _ in 0..12 {
        expected.extend_from_slice(&[255, 255, 255]);
    }
    assert_eq!(buf.pixels, expected);
}

#[test]
fn pixels_follow_the_stroke_rule() {
    // Two tiles side by side with different codes: the second tile's top
    // bar shows only in the second tile.
    let codes: Vec<(u8, u8)> = vec![(9, 9), (8, 8)];
    let cfg = Config {
        max_columns: 2,
        tile_size: 4,
        padding: 0,
        padding_side: 0,
        stroke: 1,
    };
    let buf = make_image(&codes, &cfg).expect("two codes render fine");
    assert_eq!(buf.width, 8);
    assert_eq!(buf.height, 4);
    // Pixel (0, 0): tile 0, selector 9 draws a bottom bar, so row 0 is
    // background there.
    assert_eq!(buf.pixels[0], 255);
    // Pixel (4, 0): tile 1, selector 8 draws the top bar: stroke.
    assert_eq!(buf.pixels[3 * 4], 0);
    // Pixel (0, 1): tile 0, bottom of the upper half's interior: stroke.
    assert_eq!(buf.pixels[3 * 8], 0);
    // Pixel (4, 1): tile 1, below the top bar: background.
    assert_eq!(buf.pixels[3 * (8 + 4)], 255);
}
