//! The glyph encoder: converts an input text into the sequence of symbolic
//! codes that the compositor renders.
//!
//! Spaces are word separators and emit no code. Every other character is
//! looked up in the glyph table; a character absent from the table aborts
//! the whole encoding with an error carrying that character.

use vstd::prelude::*;

use crate::table::char_code;
use crate::table::lookup_char;

verus! {

/// Everything that can go wrong while encoding or compositing.
#[derive(Clone, Copy, Debug, PartialEq, Eq)]
pub enum GlyphError {
    /// A character of the input has no cell in the glyph table.
    UnknownCharacter(char),
    /// The code sequence handed to the compositor is empty.
    EmptyInput,
}

/// The encoding of `text`: one symbolic code per non-space character, in
/// order, or the error of the first non-space character absent from the
/// glyph table.
pub open spec fn encode_spec(text: Seq<char>) -> Result<Seq<(u8, u8)>, GlyphError>
    decreases text.len(),
{
    if text.len() == 0 {
        Ok(Seq::empty())
    } else if text[0] == ' ' {
        encode_spec(text.drop_first())
    } else {
        match char_code(text[0]) {
            None => Err(GlyphError::UnknownCharacter(text[0])),
            Some(code) => match encode_spec(text.drop_first()) {
                Ok(rest) => Ok(seq![code] + rest),
                Err(e) => Err(e),
            },
        }
    }
}

/// Codes already emitted, combined with the outcome of encoding the rest
/// of the text.
pub open spec fn encode_onto(
    emitted: Seq<(u8, u8)>,
    rest: Result<Seq<(u8, u8)>, GlyphError>,
) -> Result<Seq<(u8, u8)>, GlyphError> {
    match rest {
        Ok(codes) => Ok(emitted + codes),
        Err(e) => Err(e),
    }
}

/// Encode `text` as a sequence of symbolic codes. Spaces emit no code;
/// any other character missing from the glyph table fails the whole call
/// with `UnknownCharacter`.
pub fn encrypt_text(text: &str) -> (r: Result<Vec<(u8, u8)>, GlyphError>)
    ensures
        match r {
            Ok(codes) => encode_spec(text@) == Ok::<Seq<(u8, u8)>, GlyphError>(codes@),
            Err(e) => encode_spec(text@) == Err::<Seq<(u8, u8)>, GlyphError>(e),
        },
{
    let n: usize = text.unicode_len();
    let mut codes: Vec<(u8, u8)> = Vec::new();
    let mut i: usize = 0;

    proof {
        assert(text@.skip(0) =~= text@);
        assert(codes@ + encode_spec(text@)->Ok_0 =~= encode_spec(text@)->Ok_0);
    }

    while i < n
        invariant
            i <= n,
            n == text@.len(),
            encode_spec(text@) == encode_onto(codes@, encode_spec(text@.skip(i as int))),
        decreases n - i,
    {
        let ch = text.get_char(i);
        proof {
            assert(text@.skip(i as int).drop_first() =~= text@.skip(i + 1));
            assert(text@.skip(i as int)[0] == text@[i as int]);
        }
        if ch != ' ' {
            match lookup_char(ch) {
                Some(code) => {
                    let ghost before = codes@;
                    codes.push(code);
                    proof {
                        assert(codes@ =~= before + seq![code]);
                        if encode_spec(text@.skip(i + 1)) is Ok {
                            let rest = encode_spec(text@.skip(i + 1))->Ok_0;
                            assert(before + (seq![code] + rest) =~= (before + seq![code]) + rest);
                        }
                    }
                },
                None => {
                    return Err(GlyphError::UnknownCharacter(ch));
                },
            }
        }
        i = i + 1;
    }

    proof {
        assert(text@.skip(n as int) =~= Seq::<char>::empty());
        assert(codes@ + Seq::<(u8, u8)>::empty() =~= codes@);
    }
    Ok(codes)
}

/// Encoding a character absent from the glyph table fails with
/// `UnknownCharacter` carrying that exact character, whatever follows it:
/// the whole encoding aborts with no partial result.
pub proof fn lemma_unknown_character(ch: char, rest: Seq<char>)
    requires
        ch != ' ',
        char_code(ch) is None,
    ensures
        encode_spec(seq![ch] + rest) == Err::<Seq<(u8, u8)>, GlyphError>(
            GlyphError::UnknownCharacter(ch),
        ),
{
    assert((seq![ch] + rest)[0] == ch);
}

/// The encoder is deterministic: the same character always yields the same
/// symbolic code, so a text holding a table character twice encodes both
/// occurrences to the identical code.
pub proof fn lemma_encode_deterministic(ch: char, code: (u8, u8))
    requires
        ch != ' ',
        char_code(ch) == Some(code),
    ensures
        encode_spec(seq![ch, ch]) == Ok::<Seq<(u8, u8)>, GlyphError>(seq![code, code]),
{
    let text = seq![ch, ch];
    assert(encode_spec(Seq::<char>::empty()) == Ok::<Seq<(u8, u8)>, GlyphError>(
        Seq::<(u8, u8)>::empty(),
    ));
    assert(seq![ch].drop_first() =~= Seq::<char>::empty());
    assert(seq![ch][0] == ch);
    assert(seq![code] + Seq::<(u8, u8)>::empty() =~= seq![code]);
    assert(encode_spec(seq![ch]) == Ok::<Seq<(u8, u8)>, GlyphError>(seq![code]));
    assert(text.drop_first() =~= seq![ch]);
    assert(text[0] == ch);
    assert(seq![code] + seq![code] =~= seq![code, code]);
    assert(encode_spec(text) == Ok::<Seq<(u8, u8)>, GlyphError>(seq![code, code]));
}

} // verus!
