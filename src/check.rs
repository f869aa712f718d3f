//! Whether a font has glyphs for the characters of a text.

use vstd::prelude::*;
use crate::face::{
    decode_face, exceeds_decoder, exceeds_decoder_limits, face_readable, glyph_lookup_is_in_reach,
    glyph_lookup_in_reach, glyph_mapped, maps_char, parse_error_text,
};

verus! {

/// Whether the font maps one character of the text.
#[derive(Clone, Copy, Debug, PartialEq, Eq, Structural)]
pub struct GlyphCheckResult {
    pub glyph: char,
    pub exists: bool,
}

/// One result per character of `text`, in order, against face 0 of
/// `font_data`; an error when that face does not decode.
pub fn check_glyphs(font_data: &[u8], text: &str) -> (r: Result<Vec<GlyphCheckResult>, String>)
    ensures
        r is Ok == (!exceeds_decoder(font_data@) && face_readable(font_data@, 0)),
        r matches Ok(v) ==> v@.len() == text@.len() && forall|i: int|
            0 <= i < v@.len() ==> (#[trigger] v@[i]).glyph == text@[i] && v@[i].exists
                == maps_char(font_data@, 0, text@[i]),
        r matches Err(e) ==> exceeds_decoder(font_data@) ==> e@
            == "the file exceeds the decoder's limits"@,
{
    if exceeds_decoder_limits(font_data) {
        return Err(String::from_str("the file exceeds the decoder's limits"));
    }
    let face = match decode_face(font_data, 0) {
        Ok(d) => d,
        Err(e) => {
            return Err(parse_error_text(&e));
        },
    };
    if !glyph_lookup_is_in_reach(font_data, 0) {
        return Err(String::from_str("a character map declares more records than can be addressed"));
    }
    let n = text.unicode_len();
    let mut results: Vec<GlyphCheckResult> = Vec::new();
    let mut i: usize = 0;
    while i < n
        invariant
            i <= n,
            n == text@.len(),
            face.bytes() == font_data@,
            face.face_index() == 0,
            glyph_lookup_in_reach(font_data@, 0),
            results@.len() == i,
            forall|k: int|
                0 <= k < i ==> (#[trigger] results@[k]).glyph == text@[k] && results@[k].exists
                    == maps_char(font_data@, 0, text@[k]),
        decreases n - i,
    {
        let c = text.get_char(i);
        results.push(GlyphCheckResult { glyph: c, exists: glyph_mapped(&face, c) });
        i += 1;
    }
    Ok(results)
}

} // verus!
