use glyphscript::encrypt_text;
use glyphscript::GlyphError;

#[test]
fn encode_single_pair() {
    // Row 0 of the glyph table is "pbtdkg": 'p' sits at (0, 0), 'b' at (0, 1).
    let codes = encrypt_text("pb").expect("both characters are in the table");
    assert_eq!(codes, vec![(0, 0), (0, 1)]);
}

#[test]
fn encode_is_deterministic() {
    let first = encrypt_text("pbtdkg").expect("all characters are in the table");
    let second = encrypt_text("pbtdkg").expect("all characters are in the table");
    assert_eq!(first, second);
}

#[test]
fn repeated_character_yields_identical_codes() {
    let codes = encrypt_text("pp").expect("'p' is in the table");
    assert_eq!(codes, vec![(0, 0), (0, 0)]);
}

#[test]
fn unknown_character_is_reported() {
    assert_eq!(encrypt_text("q"), Err(GlyphError::UnknownCharacter('q')));
}

#[test]
fn unknown_character_aborts_whole_encode() {
    // No partial result: the first unknown character fails the call.
    assert_eq!(encrypt_text("pbq"), Err(GlyphError::UnknownCharacter('q')));
    assert_eq!(encrypt_text("qx"), Err(GlyphError::UnknownCharacter('q')));
}

#[test]
fn space_emits_no_code() {
    let spaced = encrypt_text("p b").expect("spaces are skipped");
    let plain = encrypt_text("pb").expect("both characters are in the table");
    assert_eq!(spaced, plain);
}

#[test]
fn single_space_encodes_to_nothing() {
    let codes = encrypt_text(" ").expect("a space alone is fine");
    assert_eq!(codes, Vec::<(u8, u8)>::new());
}

#[test]
fn full_table_encodes_to_all_coordinates() {
    let text = "pbtdkg fvszcj mnrlwy \u{165}\u{10f}\u{10d}\u{1f0}\u{148}h \u{f8}iueoa \
                \u{e3}\u{ed}\u{fa}\u{e9}\u{f3}\u{e1} .,\u{1d4}\u{11b}\u{1d2}\u{1ce} \
                \u{1ebd}\u{129}\u{169}\u{207}\u{20f}\u{203}";
    let codes = encrypt_text(text).expect("every non-space character is in the table");
    let mut expected: Vec<(u8, u8)> = Vec::new();
    for row in 0..8u8 {
        for col in 0..6u8 {
            expected.push((row, col));
        }
    }
    assert_eq!(codes, expected);
}
