//! The records produced by a scan.

use vstd::prelude::*;

verus! {

/// Container format of a font file.
#[derive(Clone, Copy, Debug, PartialEq, Eq, Structural)]
pub enum FontFormat {
    TrueType,
    OpenType,
    TrueTypeCollection,
    Woff,
    Woff2,
}

/// Classification of a font; it carries no behaviour of its own.
#[derive(Clone, Copy, Debug, PartialEq, Eq, Structural)]
pub enum FontStatus {
    Enabled,
    Disabled,
    SystemFont,
}

/// One optional string per standard OpenType naming-table identifier.
#[derive(Clone, Debug)]
pub struct FontMetadata {
    pub copyright: Option<String>,
    pub family_name: Option<String>,
    pub subfamily_name: Option<String>,
    pub unique_identifier: Option<String>,
    pub full_name: Option<String>,
    pub version: Option<String>,
    pub postscript_name: Option<String>,
    pub trademark: Option<String>,
    pub manufacturer: Option<String>,
    pub designer: Option<String>,
    pub description: Option<String>,
    pub vendor_url: Option<String>,
    pub designer_url: Option<String>,
    pub license: Option<String>,
    pub license_url: Option<String>,
    pub typographic_family: Option<String>,
    pub typographic_subfamily: Option<String>,
    pub compatible_full: Option<String>,
    pub sample_text: Option<String>,
    pub postscript_cid: Option<String>,
}

impl FontMetadata {
    /// Every slot is absent.
    pub open spec fn is_empty(&self) -> bool {
        &&& self.copyright is None
        &&& self.family_name is None
        &&& self.subfamily_name is None
        &&& self.unique_identifier is None
        &&& self.full_name is None
        &&& self.version is None
        &&& self.postscript_name is None
        &&& self.trademark is None
        &&& self.manufacturer is None
        &&& self.designer is None
        &&& self.description is None
        &&& self.vendor_url is None
        &&& self.designer_url is None
        &&& self.license is None
        &&& self.license_url is None
        &&& self.typographic_family is None
        &&& self.typographic_subfamily is None
        &&& self.compatible_full is None
        &&& self.sample_text is None
        &&& self.postscript_cid is None
    }
}

impl Default for FontMetadata {
    fn default() -> (r: Self)
        ensures
            r.is_empty(),
    {
        FontMetadata {
            copyright: None,
            family_name: None,
            subfamily_name: None,
            unique_identifier: None,
            full_name: None,
            version: None,
            postscript_name: None,
            trademark: None,
            manufacturer: None,
            designer: None,
            description: None,
            vendor_url: None,
            designer_url: None,
            license: None,
            license_url: None,
            typographic_family: None,
            typographic_subfamily: None,
            compatible_full: None,
            sample_text: None,
            postscript_cid: None,
        }
    }
}

/// One usable font variant: one face within a file.
#[derive(Clone, Debug)]
pub struct FontInfo {
    pub id: String,
    pub family: String,
    pub full_name: String,
    pub postscript_name: String,
    pub style: String,
    pub path: String,
    pub file_size: u64,
    pub format: FontFormat,
    pub is_variable: bool,
    pub weight: u16,
    pub languages: Vec<String>,
    pub scripts: Vec<String>,
    pub metadata: FontMetadata,
    pub status: FontStatus,
    pub created_at: i64,
    pub family_zh: Option<String>,
    pub full_name_zh: Option<String>,
    pub css_font_family: String,
}

/// The variants of a scan that share one `css_font_family`.
#[derive(Clone, Debug)]
pub struct CssFontFamily {
    pub name: String,
    pub font_count: usize,
    pub default_font_id: String,
}

/// What a `CssFontFamily` holds, as plain values.
pub struct CssFamilyView {
    pub name: Seq<char>,
    pub font_count: nat,
    pub default_font_id: Seq<char>,
}

impl View for CssFontFamily {
    type V = CssFamilyView;

    open spec fn view(&self) -> CssFamilyView {
        CssFamilyView {
            name: self.name@,
            font_count: self.font_count as nat,
            default_font_id: self.default_font_id@,
        }
    }
}

/// The views of a sequence of strings.
pub open spec fn string_views(v: Seq<String>) -> Seq<Seq<char>> {
    v.map_values(|s: String| s@)
}

/// The views of a sequence of families.
pub open spec fn family_views(v: Seq<CssFontFamily>) -> Seq<CssFamilyView> {
    v.map_values(|f: CssFontFamily| f@)
}

/// The view of an optional string.
pub open spec fn opt_view(o: Option<String>) -> Option<Seq<char>> {
    match o {
        Some(s) => Some(s@),
        None => None,
    }
}

} // verus!
