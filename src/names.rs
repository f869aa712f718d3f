//! Name-table resolution: picks one string for a naming-table slot,
//! preferring US English and otherwise the first Unicode record.

use vstd::prelude::*;
use crate::models::{opt_view, FontMetadata};

verus! {

pub const NAME_COPYRIGHT: u16 = 0;
pub const NAME_FAMILY: u16 = 1;
pub const NAME_SUBFAMILY: u16 = 2;
pub const NAME_UNIQUE_ID: u16 = 3;
pub const NAME_FULL_NAME: u16 = 4;
pub const NAME_VERSION: u16 = 5;
pub const NAME_POSTSCRIPT: u16 = 6;
pub const NAME_TRADEMARK: u16 = 7;
pub const NAME_MANUFACTURER: u16 = 8;
pub const NAME_DESIGNER: u16 = 9;
pub const NAME_DESCRIPTION: u16 = 10;
pub const NAME_VENDOR_URL: u16 = 11;
pub const NAME_DESIGNER_URL: u16 = 12;
pub const NAME_LICENSE: u16 = 13;
pub const NAME_LICENSE_URL: u16 = 14;
pub const NAME_TYPOGRAPHIC_FAMILY: u16 = 16;
pub const NAME_TYPOGRAPHIC_SUBFAMILY: u16 = 17;
pub const NAME_COMPATIBLE_FULL: u16 = 18;
pub const NAME_SAMPLE_TEXT: u16 = 19;
pub const NAME_POSTSCRIPT_CID: u16 = 20;

/// Windows language identifiers.
pub const LANG_ENGLISH_US: u16 = 0x0409;
pub const LANG_CHINESE_PRC: u16 = 0x0804;
pub const LANG_CHINESE_SINGAPORE: u16 = 0x1004;
pub const LANG_CHINESE_TAIWAN: u16 = 0x0404;

/// One record of a face's naming table, decoded.
#[derive(Clone, Debug)]
pub struct NameRecord {
    pub name_id: u16,
    pub language_id: u16,
    /// The record is in a Unicode-compatible encoding.
    pub is_unicode: bool,
    /// The decoded string, when decoding succeeded.
    pub text: Option<String>,
}

/// What a `NameRecord` holds, as plain values.
pub struct NameEntry {
    pub name_id: u16,
    pub language_id: u16,
    pub is_unicode: bool,
    pub text: Option<Seq<char>>,
}

impl View for NameRecord {
    type V = NameEntry;

    open spec fn view(&self) -> NameEntry {
        NameEntry {
            name_id: self.name_id,
            language_id: self.language_id,
            is_unicode: self.is_unicode,
            text: opt_view(self.text),
        }
    }
}

/// The views of a sequence of name records.
pub open spec fn name_views(names: Seq<NameRecord>) -> Seq<NameEntry> {
    names.map_values(|n: NameRecord| n@)
}

/// `r` is a Unicode record for slot `id` whose text decoded, in locale
/// `lang` when one is given.
pub open spec fn matches_slot(r: NameEntry, id: u16, lang: Option<u16>) -> bool {
    &&& r.name_id == id
    &&& r.is_unicode
    &&& r.text is Some
    &&& (lang matches Some(l) ==> r.language_id == l)
}

/// The text of the first record, in table order, that matches the slot.
pub open spec fn first_text(names: Seq<NameEntry>, id: u16, lang: Option<u16>) -> Option<
    Seq<char>,
>
    decreases names.len(),
{
    if names.len() == 0 {
        None
    } else if matches_slot(names[0], id, lang) {
        Some(names[0].text->0)
    } else {
        first_text(names.drop_first(), id, lang)
    }
}

/// The resolved name of a slot: the first US-English record, else the first
/// Unicode record of any locale, else nothing.
pub open spec fn resolved_name(names: Seq<NameEntry>, id: u16) -> Option<Seq<char>> {
    match first_text(names, id, Some(LANG_ENGLISH_US)) {
        Some(s) => Some(s),
        None => first_text(names, id, None),
    }
}

/// The resolved name of a slot, falling back to the family name for other
/// slots and to `"Unknown"` when even that is absent.
pub open spec fn name_with_fallback(names: Seq<NameEntry>, id: u16) -> Seq<char> {
    match resolved_name(names, id) {
        Some(s) => s,
        None => if id != NAME_FAMILY {
            match resolved_name(names, NAME_FAMILY) {
                Some(f) => f,
                None => "Unknown"@,
            }
        } else {
            "Unknown"@
        },
    }
}

/// A Chinese-locale name: Simplified (PRC), else Singapore, else Traditional
/// (Taiwan); never a name of another locale.
pub open spec fn chinese_name(names: Seq<NameEntry>, id: u16) -> Option<Seq<char>> {
    match first_text(names, id, Some(LANG_CHINESE_PRC)) {
        Some(s) => Some(s),
        None => match first_text(names, id, Some(LANG_CHINESE_SINGAPORE)) {
            Some(s) => Some(s),
            None => first_text(names, id, Some(LANG_CHINESE_TAIWAN)),
        },
    }
}

proof fn lemma_first_text_step(names: Seq<NameRecord>, i: int, id: u16, lang: Option<u16>)
    requires
        0 <= i < names.len(),
    ensures
        first_text(name_views(names).skip(i), id, lang) == if matches_slot(names[i]@, id, lang) {
            Some(names[i].text->0@)
        } else {
            first_text(name_views(names).skip(i + 1), id, lang)
        },
{
    let nv = name_views(names);
    assert(nv.skip(i).drop_first() =~= nv.skip(i + 1));
    assert(nv.skip(i)[0] == names[i]@);
}

/// The first record for `id` in locale `lang`, in table order.
pub fn extract_name_by_language(names: &[NameRecord], id: u16, lang: u16) -> (r: Option<String>)
    ensures
        opt_view(r) == first_text(name_views(names@), id, Some(lang)),
{
    let mut i: usize = 0;
    assert(name_views(names@).skip(0) =~= name_views(names@));
    while i < names.len()
        invariant
            i <= names.len(),
            first_text(name_views(names@), id, Some(lang)) == first_text(
                name_views(names@).skip(i as int),
                id,
                Some(lang),
            ),
        decreases names.len() - i,
    {
        proof {
            lemma_first_text_step(names@, i as int, id, Some(lang));
        }
        let rec = &names[i];
        if rec.name_id == id && rec.language_id == lang && rec.is_unicode {
            match &rec.text {
                Some(s) => {
                    return Some(s.clone());
                },
                None => {},
            }
        }
        i += 1;
    }
    None
}

/// The resolved name of slot `id`: the first US-English Unicode record, else
/// the first Unicode record of any locale.
pub fn extract_name(names: &[NameRecord], id: u16) -> (r: Option<String>)
    ensures
        opt_view(r) == resolved_name(name_views(names@), id),
{
    let mut fallback: Option<String> = None;
    let mut i: usize = 0;
    assert(name_views(names@).skip(0) =~= name_views(names@));
    while i < names.len()
        invariant
            i <= names.len(),
            first_text(name_views(names@), id, Some(LANG_ENGLISH_US)) == first_text(
                name_views(names@).skip(i as int),
                id,
                Some(LANG_ENGLISH_US),
            ),
            first_text(name_views(names@), id, None) == match fallback {
                Some(s) => Some(s@),
                None => first_text(name_views(names@).skip(i as int), id, None),
            },
        decreases names.len() - i,
    {
        proof {
            lemma_first_text_step(names@, i as int, id, Some(LANG_ENGLISH_US));
            lemma_first_text_step(names@, i as int, id, None);
        }
        let rec = &names[i];
        if rec.name_id == id && rec.is_unicode {
            match &rec.text {
                Some(s) => {
                    if rec.language_id == LANG_ENGLISH_US {
                        return Some(s.clone());
                    }
                    if fallback.is_none() {
                        fallback = Some(s.clone());
                    }
                },
                None => {},
            }
        }
        i += 1;
    }
    fallback
}

/// The resolved name of slot `id`, with the family-name and `"Unknown"`
/// fallbacks.
pub fn extract_name_with_fallback(names: &[NameRecord], id: u16) -> (r: String)
    ensures
        r@ == name_with_fallback(name_views(names@), id),
{
    match extract_name(names, id) {
        Some(s) => s,
        None => {
            if id != NAME_FAMILY {
                match extract_name(names, NAME_FAMILY) {
                    Some(f) => f,
                    None => String::from_str("Unknown"),
                }
            } else {
                String::from_str("Unknown")
            }
        },
    }
}

/// The Chinese-locale variant of slot `id`.
pub fn extract_chinese_name(names: &[NameRecord], id: u16) -> (r: Option<String>)
    ensures
        opt_view(r) == chinese_name(name_views(names@), id),
{
    let prc = extract_name_by_language(names, id, LANG_CHINESE_PRC);
    if prc.is_some() {
        return prc;
    }
    let sg = extract_name_by_language(names, id, LANG_CHINESE_SINGAPORE);
    if sg.is_some() {
        return sg;
    }
    extract_name_by_language(names, id, LANG_CHINESE_TAIWAN)
}

/// Each slot of `m` holds the resolved name of its identifier.
pub open spec fn metadata_matches(m: FontMetadata, names: Seq<NameEntry>) -> bool {
    &&& opt_view(m.copyright) == resolved_name(names, NAME_COPYRIGHT)
    &&& opt_view(m.family_name) == resolved_name(names, NAME_FAMILY)
    &&& opt_view(m.subfamily_name) == resolved_name(names, NAME_SUBFAMILY)
    &&& opt_view(m.unique_identifier) == resolved_name(names, NAME_UNIQUE_ID)
    &&& opt_view(m.full_name) == resolved_name(names, NAME_FULL_NAME)
    &&& opt_view(m.version) == resolved_name(names, NAME_VERSION)
    &&& opt_view(m.postscript_name) == resolved_name(names, NAME_POSTSCRIPT)
    &&& opt_view(m.trademark) == resolved_name(names, NAME_TRADEMARK)
    &&& opt_view(m.manufacturer) == resolved_name(names, NAME_MANUFACTURER)
    &&& opt_view(m.designer) == resolved_name(names, NAME_DESIGNER)
    &&& opt_view(m.description) == resolved_name(names, NAME_DESCRIPTION)
    &&& opt_view(m.vendor_url) == resolved_name(names, NAME_VENDOR_URL)
    &&& opt_view(m.designer_url) == resolved_name(names, NAME_DESIGNER_URL)
    &&& opt_view(m.license) == resolved_name(names, NAME_LICENSE)
    &&& opt_view(m.license_url) == resolved_name(names, NAME_LICENSE_URL)
    &&& opt_view(m.typographic_family) == resolved_name(names, NAME_TYPOGRAPHIC_FAMILY)
    &&& opt_view(m.typographic_subfamily) == resolved_name(names, NAME_TYPOGRAPHIC_SUBFAMILY)
    &&& opt_view(m.compatible_full) == resolved_name(names, NAME_COMPATIBLE_FULL)
    &&& opt_view(m.sample_text) == resolved_name(names, NAME_SAMPLE_TEXT)
    &&& opt_view(m.postscript_cid) == resolved_name(names, NAME_POSTSCRIPT_CID)
}

/// All standard naming-table slots, each resolved on its own.
pub fn extract_metadata(names: &[NameRecord]) -> (r: FontMetadata)
    ensures
        metadata_matches(r, name_views(names@)),
{
    FontMetadata {
        copyright: extract_name(names, NAME_COPYRIGHT),
        family_name: extract_name(names, NAME_FAMILY),
        subfamily_name: extract_name(names, NAME_SUBFAMILY),
        unique_identifier: extract_name(names, NAME_UNIQUE_ID),
        full_name: extract_name(names, NAME_FULL_NAME),
        version: extract_name(names, NAME_VERSION),
        postscript_name: extract_name(names, NAME_POSTSCRIPT),
        trademark: extract_name(names, NAME_TRADEMARK),
        manufacturer: extract_name(names, NAME_MANUFACTURER),
        designer: extract_name(names, NAME_DESIGNER),
        description: extract_name(names, NAME_DESCRIPTION),
        vendor_url: extract_name(names, NAME_VENDOR_URL),
        designer_url: extract_name(names, NAME_DESIGNER_URL),
        license: extract_name(names, NAME_LICENSE),
        license_url: extract_name(names, NAME_LICENSE_URL),
        typographic_family: extract_name(names, NAME_TYPOGRAPHIC_FAMILY),
        typographic_subfamily: extract_name(names, NAME_TYPOGRAPHIC_SUBFAMILY),
        compatible_full: extract_name(names, NAME_COMPATIBLE_FULL),
        sample_text: extract_name(names, NAME_SAMPLE_TEXT),
        postscript_cid: extract_name(names, NAME_POSTSCRIPT_CID),
    }
}

} // verus!
