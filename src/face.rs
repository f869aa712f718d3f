//! The decoder boundary: what `ttf_parser` reads from one face of a font
//! file, reduced to plain values that the rest of the library works on.

use vstd::prelude::*;
use crate::coverage::{
    PROBE_ARABIC, PROBE_CYRILLIC_LOWER, PROBE_CYRILLIC_UPPER, PROBE_HAN, PROBE_HANGUL,
    PROBE_HIRAGANA, PROBE_LATIN_LOWER, PROBE_LATIN_UPPER,
};
use crate::names::{name_views, NameEntry, NameRecord};
use ttf_parser::Tag;

verus! {

#[verifier::external_type_specification]
#[verifier::external_body]
pub struct ExFace<'a>(ttf_parser::Face<'a>);

#[verifier::external_type_specification]
#[verifier::external_body]
pub struct ExFaceParsingError(ttf_parser::FaceParsingError);

/// Whether face `index` of `data` decodes: `ttf_parser::RawFace::parse`
/// accepts it and `ttf_parser::Face::from_raw_tables` accepts its head, hhea,
/// maxp, name, OS/2, cmap and fvar tables.
pub uninterp spec fn face_parses(data: Seq<u8>, index: u32) -> bool;

/// Whether the decoded face `index` of `data` maps `c` to a glyph.
pub uninterp spec fn maps_char(data: Seq<u8>, index: u32, c: char) -> bool;

/// The naming table of the decoded face, in table order.
pub uninterp spec fn names_of(data: Seq<u8>, index: u32) -> Seq<NameEntry>;

/// Whether the decoded face has variation axes.
pub uninterp spec fn is_variable_of(data: Seq<u8>, index: u32) -> bool;

/// The weight class of the decoded face's OS/2 table, when it has one.
pub uninterp spec fn weight_class_of(data: Seq<u8>, index: u32) -> Option<u16>;

/// The variation axes of the decoded face as (tag, default value).
pub uninterp spec fn axes_of(data: Seq<u8>, index: u32) -> Seq<(u32, u16)>;

/// The big-endian `u16` at `at`.
pub open spec fn be_u16_at(data: Seq<u8>, at: int) -> int {
    data[at] as int * 0x100 + data[at + 1] as int
}

/// The big-endian `u32` at `at`.
pub open spec fn be_u32_at(data: Seq<u8>, at: int) -> int {
    data[at] as int * 0x1000000 + data[at + 1] as int * 0x10000 + data[at + 2] as int * 0x100
        + data[at + 3] as int
}

/// The face count that a collection header declares: `data` starts with the
/// `ttcf` tag and holds the count at byte 8.
pub open spec fn declared_collection_size(data: Seq<u8>) -> Option<u32> {
    if data.len() >= 12 && be_u32_at(data, 0) == 0x74746366 {
        Some(be_u32_at(data, 8) as u32)
    } else {
        None
    }
}

/// The largest face count whose offset table the decoder can address: the
/// table starts at byte 12 and every offset must lie below 2^32.
pub const MAX_COLLECTION_FACES: u32 = 0x3FFFFFFC;

/// The largest file the decoder can address: a face's table directory, up
/// to about 1 MiB, must end below 2^32.
pub const MAX_FONT_BYTES: usize = 0xFFF0_0000;

/// The largest record count of a cmap subtable that the decoder can address.
pub const MAX_SUBTABLE_COUNT: u32 = 0x0FFF_FFFF;

/// The tag `cmap`.
pub const CMAP_TAG: u32 = 0x636D6170;

/// `data` is too large for the decoder, or is a collection header that
/// declares more faces than the decoder can address.
pub open spec fn exceeds_decoder(data: Seq<u8>) -> bool {
    data.len() > MAX_FONT_BYTES || (declared_collection_size(data) matches Some(n) && n
        > MAX_COLLECTION_FACES)
}

/// Face `index` of `data` decodes and its glyph lookup is in reach.
pub open spec fn face_readable(data: Seq<u8>, index: u32) -> bool {
    face_parses(data, index) && glyph_lookup_in_reach(data, index)
}

/// Where the table directory of face `index` starts.
pub open spec fn face_start(data: Seq<u8>, index: u32) -> int {
    if declared_collection_size(data) is Some {
        if 16 + 4 * index <= data.len() {
            be_u32_at(data, 12 + 4 * index)
        } else {
            data.len() as int
        }
    } else {
        0
    }
}

/// Where a cmap subtable of format `format` holds the count of the records
/// that the decoder reads as one array, or -1 for the other formats.
pub open spec fn count_field(format: int) -> int {
    if format == 10 {
        16
    } else if format == 12 || format == 13 {
        12
    } else if format == 14 {
        6
    } else {
        -1
    }
}

/// The cmap subtable at `o` within the table of `len` bytes at `base`
/// declares a record count the decoder can address, or cannot be read.
pub open spec fn subtable_in_reach(data: Seq<u8>, base: int, len: int, o: int) -> bool {
    o + 2 > len || {
        let p = count_field(be_u16_at(data, base + o));
        p < 0 || o + p + 4 > len || be_u32_at(data, base + o + p) <= MAX_SUBTABLE_COUNT
    }
}

/// Encoding record `j` of the cmap table of `len` bytes at `base` points at a
/// subtable in reach, or is not there.
pub open spec fn encoding_in_reach(data: Seq<u8>, base: int, len: int, j: int) -> bool {
    4 + 8 * j + 8 > len || subtable_in_reach(data, base, len, be_u32_at(data, base + 4 + 8 * j + 4))
}

/// Every subtable of the cmap table of `len` bytes at `base` is in reach.
pub open spec fn cmap_in_reach(data: Seq<u8>, base: int, len: int) -> bool {
    len < 4 || forall|j: int|
        0 <= j < be_u16_at(data, base + 2) ==> #[trigger] encoding_in_reach(data, base, len, j)
}

/// Table record `i` of the directory at `start` is not a cmap table within
/// `data`, or is one in reach.
pub open spec fn record_in_reach(data: Seq<u8>, start: int, i: int) -> bool {
    let r = start + 12 + 16 * i;
    r + 16 > data.len() || be_u32_at(data, r) != CMAP_TAG || be_u32_at(data, r + 8) + be_u32_at(
        data,
        r + 12,
    ) > data.len() || cmap_in_reach(data, be_u32_at(data, r + 8), be_u32_at(data, r + 12))
}

/// Every cmap table of face `index` declares subtable record counts that the
/// decoder's glyph lookup can address.
pub open spec fn glyph_lookup_in_reach(data: Seq<u8>, index: u32) -> bool {
    let start = face_start(data, index);
    start + 6 > data.len() || forall|i: int|
        0 <= i < be_u16_at(data, start + 4) ==> #[trigger] record_in_reach(data, start, i)
}

/// A face decoded from `data`, with the bytes and index it came from.
pub struct DecodedFace<'a> {
    face: ttf_parser::Face<'a>,
    data: &'a [u8],
    index: u32,
}

impl<'a> DecodedFace<'a> {
    /// The bytes the face was decoded from.
    pub closed spec fn bytes(&self) -> Seq<u8> {
        self.data@
    }

    /// The index of the face within its file.
    pub closed spec fn face_index(&self) -> u32 {
        self.index
    }
}

/// Relies on `ttf_parser::RawFace::parse`, `RawFace::table` and
/// `ttf_parser::Face::from_raw_tables`: decodes face `index` of `data` from
/// the tables that the library reads; the outcome depends on the bytes and
/// the index alone. Inputs beyond the decoder's 32-bit offsets are left out:
/// they trip its debug assertions.
#[verifier::external_body]
pub(crate) fn decode_face(data: &[u8], index: u32) -> (r: Result<DecodedFace<'_>, ttf_parser::FaceParsingError>)
    requires
        !exceeds_decoder(data@),
    ensures
        r is Ok == face_parses(data@, index),
        r matches Ok(d) ==> d.bytes() == data@ && d.face_index() == index,
{
    let raw = ttf_parser::RawFace::parse(data, index)?;
    let tables = ttf_parser::RawFaceTables {
        head: raw.table(Tag::from_bytes(b"head")).unwrap_or_default(),
        hhea: raw.table(Tag::from_bytes(b"hhea")).unwrap_or_default(),
        maxp: raw.table(Tag::from_bytes(b"maxp")).unwrap_or_default(),
        name: raw.table(Tag::from_bytes(b"name")),
        os2: raw.table(Tag::from_bytes(b"OS/2")),
        cmap: raw.table(Tag::from_bytes(b"cmap")),
        fvar: raw.table(Tag::from_bytes(b"fvar")),
        ..Default::default()
    };
    let face = ttf_parser::Face::from_raw_tables(tables)?;
    Ok(DecodedFace { face, data, index })
}

/// Relies on `ttf_parser::fonts_in_collection`: reads the `ttcf` magic, skips
/// the version and reads the face count; `None` on any other magic or on
/// too few bytes.
#[verifier::external_body]
pub(crate) fn collection_size(data: &[u8]) -> (r: Option<u32>)
    ensures
        r == declared_collection_size(data@),
{
    ttf_parser::fonts_in_collection(data)
}

/// Relies on the `Display` impl of `ttf_parser::FaceParsingError`: a
/// human-readable reason.
#[verifier::external_body]
pub(crate) fn parse_error_text(e: &ttf_parser::FaceParsingError) -> (r: String) {
    e.to_string()
}

/// Relies on `ttf_parser::Face::glyph_index`: whether the face maps `c`. The
/// lookup parses every cmap subtable, so faces whose subtables declare more
/// records than the decoder can address are left out.
#[verifier::external_body]
pub(crate) fn glyph_mapped(d: &DecodedFace, c: char) -> (r: bool)
    requires
        glyph_lookup_in_reach(d.bytes(), d.face_index()),
    ensures
        r == maps_char(d.bytes(), d.face_index(), c),
{
    d.face.glyph_index(c).is_some()
}

/// Relies on `ttf_parser::Face::names`: the naming-table records in table
/// order, each with its `is_unicode` and `to_string`.
#[verifier::external_body]
pub(crate) fn face_name_records(d: &DecodedFace) -> (r: Vec<NameRecord>)
    ensures
        name_views(r@) == names_of(d.bytes(), d.face_index()),
{
    d.face.names().into_iter().map(
        |n| NameRecord {
            name_id: n.name_id,
            language_id: n.language_id,
            is_unicode: n.is_unicode(),
            text: n.to_string(),
        },
    ).collect()
}

/// Relies on `ttf_parser::Face::is_variable`.
#[verifier::external_body]
pub(crate) fn face_is_variable(d: &DecodedFace) -> (r: bool)
    ensures
        r == is_variable_of(d.bytes(), d.face_index()),
{
    d.face.is_variable()
}

/// Relies on `ttf_parser::os2::Table::weight`: the `usWeightClass` of the
/// OS/2 table, when the face has one.
#[verifier::external_body]
pub(crate) fn face_weight_class(d: &DecodedFace) -> (r: Option<u16>)
    ensures
        r == weight_class_of(d.bytes(), d.face_index()),
{
    match d.face.tables().os2 {
        Some(os2) => Some(os2.weight().to_number()),
        None => None,
    }
}

/// Relies on `ttf_parser::Face::variation_axes`: each axis as its tag and its
/// default value, cast to `u16` (fraction dropped, saturating at the ends of
/// the range).
#[verifier::external_body]
pub(crate) fn face_axis_defaults(d: &DecodedFace) -> (r: Vec<(u32, u16)>)
    ensures
        r@ == axes_of(d.bytes(), d.face_index()),
{
    d.face.variation_axes().into_iter().map(|a| (a.tag.0, a.def_value as u16)).collect()
}

fn read_u16(data: &[u8], at: usize) -> (r: u32)
    requires
        at + 2 <= data@.len(),
    ensures
        r == be_u16_at(data@, at as int),
{
    data[at] as u32 * 0x100 + data[at + 1] as u32
}

fn read_u32(data: &[u8], at: usize) -> (r: u64)
    requires
        at + 4 <= data@.len(),
    ensures
        r == be_u32_at(data@, at as int),
{
    data[at] as u64 * 0x1000000 + data[at + 1] as u64 * 0x10000 + data[at + 2] as u64 * 0x100
        + data[at + 3] as u64
}

fn subtable_is_in_reach(data: &[u8], base: usize, len: usize, o: u64) -> (r: bool)
    requires
        base + len <= data@.len() <= usize::MAX,
        o <= 0xFFFF_FFFF,
    ensures
        r == subtable_in_reach(data@, base as int, len as int, o as int),
{
    if o + 2 > len as u64 {
        return true;
    }
    assert(o as usize == o);
    let at = base + o as usize;
    let format = read_u16(data, at);
    let p: u64 = if format == 10 {
        16
    } else if format == 12 || format == 13 {
        12
    } else if format == 14 {
        6
    } else {
        return true;
    };
    if o + p + 4 > len as u64 {
        return true;
    }
    read_u32(data, at + p as usize) <= MAX_SUBTABLE_COUNT as u64
}

fn cmap_is_in_reach(data: &[u8], base: usize, len: usize) -> (r: bool)
    requires
        base + len <= data@.len() <= usize::MAX,
    ensures
        r == cmap_in_reach(data@, base as int, len as int),
{
    if len < 4 {
        return true;
    }
    let count = read_u16(data, base + 2);
    let mut j: u32 = 0;
    while j < count
        invariant
            base + len <= data@.len() <= usize::MAX,
            len >= 4,
            count == be_u16_at(data@, base + 2),
            count <= 0xFFFF,
            j <= count,
            forall|k: int| 0 <= k < j ==> #[trigger] encoding_in_reach(data@, base as int, len as int, k),
        decreases count - j,
    {
        let at: usize = 4 + 8 * (j as usize);
        if at + 8 <= len {
            let o = read_u32(data, base + at + 4);
            if !subtable_is_in_reach(data, base, len, o) {
                assert(!encoding_in_reach(data@, base as int, len as int, j as int));
                return false;
            }
        }
        assert(encoding_in_reach(data@, base as int, len as int, j as int));
        j += 1;
    }
    true
}

fn record_is_in_reach(data: &[u8], start: u64, i: u32) -> (r: bool)
    requires
        start <= 0xFFFF_FFFF,
        i <= 0xFFFF,
    ensures
        r == record_in_reach(data@, start as int, i as int),
{
    let n = data.len() as u64;
    let at = start + 12 + 16 * (i as u64);
    if at + 16 > n {
        return true;
    }
    let tag = read_u32(data, at as usize);
    let off = read_u32(data, (at + 8) as usize);
    let len = read_u32(data, (at + 12) as usize);
    if tag != CMAP_TAG as u64 || off + len > n {
        return true;
    }
    cmap_is_in_reach(data, off as usize, len as usize)
}

/// Whether every cmap table of face `index` is in reach of the decoder's
/// glyph lookup.
pub fn glyph_lookup_is_in_reach(data: &[u8], index: u32) -> (r: bool)
    ensures
        r == glyph_lookup_in_reach(data@, index),
{
    let n = data.len() as u64;
    let start: u64 = match collection_size(data) {
        Some(_) => if 16 + 4 * (index as u64) <= n {
            read_u32(data, (12 + 4 * (index as u64)) as usize)
        } else {
            n
        },
        None => 0,
    };
    assert(start == face_start(data@, index));
    if start + 6 > n {
        return true;
    }
    let count = read_u16(data, (start + 4) as usize);
    let mut i: u32 = 0;
    while i < count
        invariant
            start == face_start(data@, index),
            start <= 0xFFFF_FFFF,
            count == be_u16_at(data@, start + 4),
            count <= 0xFFFF,
            i <= count,
            forall|k: int| 0 <= k < i ==> #[trigger] record_in_reach(data@, start as int, k),
        decreases count - i,
    {
        if !record_is_in_reach(data, start, i) {
            return false;
        }
        i += 1;
    }
    true
}

/// What the library reads of one decoded face.
#[derive(Clone, Debug)]
pub struct FaceView {
    /// The naming table, in table order.
    pub names: Vec<NameRecord>,
    /// The probe characters that the face maps to a glyph.
    pub mapped_chars: Vec<char>,
    pub is_variable: bool,
    /// The explicit weight class, when the face declares one.
    pub weight_class: Option<u16>,
    /// Each variation axis as (tag, default value).
    pub axes: Vec<(u32, u16)>,
}

/// What a `FaceView` holds, as plain values.
pub struct FaceModel {
    pub names: Seq<NameEntry>,
    pub mapped_chars: Seq<char>,
    pub is_variable: bool,
    pub weight_class: Option<u16>,
    pub axes: Seq<(u32, u16)>,
}

impl FaceView {
    pub open spec fn model(&self) -> FaceModel {
        FaceModel {
            names: name_views(self.names@),
            mapped_chars: self.mapped_chars@,
            is_variable: self.is_variable,
            weight_class: self.weight_class,
            axes: self.axes@,
        }
    }
}

/// `[c]` when `hit`, else nothing.
pub open spec fn char_if(hit: bool, c: char) -> Seq<char> {
    if hit {
        seq![c]
    } else {
        seq![]
    }
}

/// The probe characters that face `index` of `data` maps, in probe order.
pub open spec fn probe_hits(data: Seq<u8>, index: u32) -> Seq<char> {
    char_if(maps_char(data, index, PROBE_LATIN_UPPER), PROBE_LATIN_UPPER) + char_if(
        maps_char(data, index, PROBE_LATIN_LOWER),
        PROBE_LATIN_LOWER,
    ) + char_if(maps_char(data, index, PROBE_HAN), PROBE_HAN) + char_if(
        maps_char(data, index, PROBE_HIRAGANA),
        PROBE_HIRAGANA,
    ) + char_if(maps_char(data, index, PROBE_HANGUL), PROBE_HANGUL) + char_if(
        maps_char(data, index, PROBE_CYRILLIC_UPPER),
        PROBE_CYRILLIC_UPPER,
    ) + char_if(maps_char(data, index, PROBE_CYRILLIC_LOWER), PROBE_CYRILLIC_LOWER) + char_if(
        maps_char(data, index, PROBE_ARABIC),
        PROBE_ARABIC,
    )
}

/// What the library reads of face `index` of `data`.
pub open spec fn face_model_of(data: Seq<u8>, index: u32) -> FaceModel {
    FaceModel {
        names: names_of(data, index),
        mapped_chars: probe_hits(data, index),
        is_variable: is_variable_of(data, index),
        weight_class: weight_class_of(data, index),
        axes: axes_of(data, index),
    }
}

fn push_if_mapped(d: &DecodedFace, c: char, mapped: &mut Vec<char>)
    requires
        glyph_lookup_in_reach(d.bytes(), d.face_index()),
    ensures
        final(mapped)@ == old(mapped)@ + char_if(maps_char(d.bytes(), d.face_index(), c), c),
{
    if glyph_mapped(d, c) {
        mapped.push(c);
    }
    assert(mapped@ =~= old(mapped)@ + char_if(maps_char(d.bytes(), d.face_index(), c), c));
}

/// Reads a decoded face: its naming table, the probe characters it maps, its
/// variable flag, weight class and variation axes.
pub fn read_face(d: &DecodedFace) -> (r: FaceView)
    requires
        glyph_lookup_in_reach(d.bytes(), d.face_index()),
    ensures
        r.model() == face_model_of(d.bytes(), d.face_index()),
{
    let mut mapped: Vec<char> = Vec::new();
    push_if_mapped(d, PROBE_LATIN_UPPER, &mut mapped);
    push_if_mapped(d, PROBE_LATIN_LOWER, &mut mapped);
    push_if_mapped(d, PROBE_HAN, &mut mapped);
    push_if_mapped(d, PROBE_HIRAGANA, &mut mapped);
    push_if_mapped(d, PROBE_HANGUL, &mut mapped);
    push_if_mapped(d, PROBE_CYRILLIC_UPPER, &mut mapped);
    push_if_mapped(d, PROBE_CYRILLIC_LOWER, &mut mapped);
    push_if_mapped(d, PROBE_ARABIC, &mut mapped);
    assert(mapped@ =~= probe_hits(d.bytes(), d.face_index()));
    FaceView {
        names: face_name_records(d),
        mapped_chars: mapped,
        is_variable: face_is_variable(d),
        weight_class: face_weight_class(d),
        axes: face_axis_defaults(d),
    }
}

/// Whether `data` lies beyond what the decoder can address.
pub fn exceeds_decoder_limits(data: &[u8]) -> (r: bool)
    ensures
        r == exceeds_decoder(data@),
{
    if data.len() > MAX_FONT_BYTES {
        return true;
    }
    match collection_size(data) {
        Some(n) => n > MAX_COLLECTION_FACES,
        None => false,
    }
}

} // verus!
