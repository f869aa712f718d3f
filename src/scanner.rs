//! Face materialization and collection expansion: from the bytes of one font
//! file to its `FontInfo` records.

use vstd::prelude::*;
use crate::coverage::{coverage_languages, coverage_scripts, detect_languages_and_scripts};
use crate::face::{
    collection_size, decode_face, declared_collection_size, exceeds_decoder,
    exceeds_decoder_limits, face_model_of, face_readable, glyph_lookup_is_in_reach,
    parse_error_text, read_face, FaceModel, FaceView,
};
use crate::models::{opt_view, string_views, FontFormat, FontInfo, FontStatus};
use crate::names::{
    chinese_name, NameEntry, extract_chinese_name, extract_metadata, extract_name,
    extract_name_with_fallback, metadata_matches, name_with_fallback, resolved_name, NAME_FAMILY,
    NAME_FULL_NAME, NAME_POSTSCRIPT, NAME_SUBFAMILY, NAME_TYPOGRAPHIC_FAMILY,
};
use crate::text::{occurs_in, str_contains};

verus! {

/// The tag of the weight variation axis, `wght`.
pub const WEIGHT_AXIS_TAG: u32 = 0x77676874;

/// The weight used when a face declares none.
pub const DEFAULT_WEIGHT: u16 = 400;

/// What `md5::compute` gives for the UTF-8 bytes of `s`, written as
/// lower-case hex by the digest's `LowerHex` impl.
pub uninterp spec fn md5_hex_of(s: Seq<char>) -> Seq<char>;

/// Relies on `md5::compute` over the UTF-8 bytes of `s`, written in lower-case
/// hex: two digits for each of the digest's 16 bytes.
#[verifier::external_body]
fn md5_hex(s: &str) -> (r: String)
    ensures
        r@ == md5_hex_of(s@),
        r@.len() == 32,
{
    format!("{:x}", md5::compute(s))
}

/// The family names that mark a font as system-critical.
pub open spec fn system_font_names() -> Seq<Seq<char>> {
    seq!["Segoe UI"@, "Microsoft YaHei"@, "SimSun"@, "Tahoma"@]
}

/// `family` contains one of the system-critical family names.
pub open spec fn is_system_family(family: Seq<char>) -> bool {
    exists|i: int| 0 <= i < system_font_names().len() && occurs_in(#[trigger] system_font_names()[i], family)
}

pub open spec fn is_separator(c: char) -> bool {
    c == '/' || c == '\\'
}

/// Where the last path component of `p` starts.
pub open spec fn file_name_start(p: Seq<char>) -> int
    decreases p.len(),
{
    if p.len() == 0 {
        0
    } else if is_separator(p.last()) {
        p.len() as int
    } else {
        file_name_start(p.drop_last())
    }
}

/// The index of the last `.` in `s`, or -1.
pub open spec fn last_dot(s: Seq<char>) -> int
    decreases s.len(),
{
    if s.len() == 0 {
        -1
    } else if s.last() == '.' {
        s.len() - 1
    } else {
        last_dot(s.drop_last())
    }
}

/// `p` without its trailing separators and trailing `.` components.
pub open spec fn trim_separators(p: Seq<char>) -> Seq<char>
    decreases p.len(),
{
    if p.len() > 0 && is_separator(p.last()) {
        trim_separators(p.drop_last())
    } else if p.len() >= 2 && p.last() == '.' && is_separator(p[p.len() - 2]) {
        trim_separators(p.drop_last())
    } else {
        p
    }
}

/// The extension of the last path component (trailing separators and `.`
/// components aside):
/// the text after its last `.`, when that dot is not its first character;
/// `..` has none.
pub open spec fn extension_of(p: Seq<char>) -> Option<Seq<char>> {
    let t = trim_separators(p);
    let name = t.subrange(file_name_start(t), t.len() as int);
    let d = last_dot(name);
    if name == seq!['.', '.'] || d <= 0 {
        None
    } else {
        Some(name.subrange(d + 1, name.len() as int))
    }
}

/// `e` spells `lo` with each letter in either case (`up` holds the capitals).
pub open spec fn spells3(e: Seq<char>, lo: Seq<char>, up: Seq<char>) -> bool {
    e.len() == 3 && forall|i: int| 0 <= i < 3 ==> #[trigger] e[i] == lo[i] || e[i] == up[i]
}

/// The format that an extension names, compared without regard to case.
pub open spec fn format_of_extension(e: Seq<char>) -> Option<FontFormat> {
    if spells3(e, seq!['t', 't', 'f'], seq!['T', 'T', 'F']) {
        Some(FontFormat::TrueType)
    } else if spells3(e, seq!['o', 't', 'f'], seq!['O', 'T', 'F']) {
        Some(FontFormat::OpenType)
    } else if spells3(e, seq!['t', 't', 'c'], seq!['T', 'T', 'C']) {
        Some(FontFormat::TrueTypeCollection)
    } else {
        None
    }
}

/// The format that a path's extension names.
pub open spec fn format_of_path(p: Seq<char>) -> Option<FontFormat> {
    match extension_of(p) {
        Some(e) => format_of_extension(e),
        None => None,
    }
}

/// The user font directory under a local application-data directory.
pub open spec fn joined_path(base: Seq<char>, rest: Seq<char>) -> Seq<char> {
    if base.len() == 0 {
        rest
    } else if is_separator(base.last()) {
        base + rest
    } else {
        base + seq!['\\'] + rest
    }
}

/// The default of the first axis tagged `tag`, in axis order.
pub open spec fn axis_default(axes: Seq<(u32, u16)>, tag: u32) -> Option<u16>
    decreases axes.len(),
{
    if axes.len() == 0 {
        None
    } else if axes[0].0 == tag {
        Some(axes[0].1)
    } else {
        axis_default(axes.drop_first(), tag)
    }
}

/// The weight of a face: its explicit weight class; for a variable face
/// without one, the default of its weight axis; else 400.
pub open spec fn face_weight(face: FaceModel) -> u16 {
    match face.weight_class {
        Some(w) => w,
        None => match axis_default(face.axes, WEIGHT_AXIS_TAG) {
            Some(v) => if face.is_variable {
                v
            } else {
                DEFAULT_WEIGHT
            },
            None => DEFAULT_WEIGHT,
        },
    }
}

/// The resolved style: the subfamily name when it is present and not empty,
/// else `"Regular"`.
pub open spec fn style_of(names: Seq<NameEntry>) -> Seq<char> {
    match resolved_name(names, NAME_SUBFAMILY) {
        Some(s) => if s.len() > 0 {
            s
        } else {
            "Regular"@
        },
        None => "Regular"@,
    }
}

/// The CSS grouping key: the typographic family name, else the family.
pub open spec fn css_family_of(names: Seq<NameEntry>) -> Seq<char> {
    match resolved_name(names, NAME_TYPOGRAPHIC_FAMILY) {
        Some(s) => s,
        None => name_with_fallback(names, NAME_FAMILY),
    }
}

/// The text whose digest identifies a record.
pub open spec fn id_source(path: Seq<char>, family: Seq<char>, style: Seq<char>) -> Seq<char> {
    path + "-"@ + family + "-"@ + style
}

/// `r` is the record of `face` found at `path`.
pub open spec fn record_of(
    r: FontInfo,
    face: FaceModel,
    path: Seq<char>,
    file_size: u64,
    format: FontFormat,
    created_at: i64,
) -> bool {
    let names = face.names;
    let family = name_with_fallback(names, NAME_FAMILY);
    let style = style_of(names);
    &&& r.family@ == family
    &&& r.full_name@ == name_with_fallback(names, NAME_FULL_NAME)
    &&& r.postscript_name@ == name_with_fallback(names, NAME_POSTSCRIPT)
    &&& r.style@ == style
    &&& opt_view(r.family_zh) == chinese_name(names, NAME_FAMILY)
    &&& opt_view(r.full_name_zh) == chinese_name(names, NAME_FULL_NAME)
    &&& r.css_font_family@ == css_family_of(names)
    &&& r.id@ == md5_hex_of(id_source(path, family, style))
    &&& string_views(r.languages@) == coverage_languages(face.mapped_chars)
    &&& string_views(r.scripts@) == coverage_scripts(face.mapped_chars)
    &&& r.status == (if is_system_family(family) {
        FontStatus::SystemFont
    } else {
        FontStatus::Enabled
    })
    &&& metadata_matches(r.metadata, names)
    &&& r.weight == face_weight(face)
    &&& r.is_variable == face.is_variable
    &&& r.path@ == path
    &&& r.file_size == file_size
    &&& r.format == format
    &&& r.created_at == created_at
}

/// The number of faces that a file of `format` declares.
pub open spec fn declared_faces(format: FontFormat, data: Seq<u8>) -> nat {
    if format == FontFormat::TrueTypeCollection {
        match declared_collection_size(data) {
            Some(n) => n as nat,
            None => 1,
        }
    } else {
        1
    }
}

/// Faces `0..k` of `data` all decode.
pub open spec fn leading_faces_parse(data: Seq<u8>, k: nat) -> bool {
    forall|j: u32| j < k ==> #[trigger] face_readable(data, j)
}

/// Discovers font files and turns them into records.
pub struct FontScanner {
    font_dirs: Vec<String>,
}

impl FontScanner {
    /// The directories that a scan walks, in order.
    pub closed spec fn dirs(&self) -> Seq<Seq<char>> {
        string_views(self.font_dirs@)
    }

    /// A scanner over the system font directory and the user font directory,
    /// which lies under the local application-data directory when one is known.
    pub fn new(local_app_data: Option<&str>) -> (r: Self)
        ensures
            r.dirs() == seq![
                "C:\\Windows\\Fonts"@,
                match local_app_data {
                    Some(base) => joined_path(base@, "Microsoft\\Windows\\Fonts"@),
                    None => "C:\\Users\\Public\\Fonts"@,
                },
            ],
    {
        let mut font_dirs: Vec<String> = Vec::new();
        font_dirs.push(String::from_str("C:\\Windows\\Fonts"));
        font_dirs.push(Self::user_fonts_dir(local_app_data));
        let r = FontScanner { font_dirs };
        assert(r.dirs() =~= seq![
            "C:\\Windows\\Fonts"@,
            match local_app_data {
                Some(base) => joined_path(base@, "Microsoft\\Windows\\Fonts"@),
                None => "C:\\Users\\Public\\Fonts"@,
            },
        ]);
        r
    }

    /// The directories that a scan walks, in order.
    pub fn font_dirs(&self) -> (r: &Vec<String>)
        ensures
            string_views(r@) == self.dirs(),
    {
        &self.font_dirs
    }

    /// The user font directory under `local_app_data`, or the public font
    /// directory when that is unknown.
    pub fn user_fonts_dir(local_app_data: Option<&str>) -> (r: String)
        ensures
            r@ == match local_app_data {
                Some(base) => joined_path(base@, "Microsoft\\Windows\\Fonts"@),
                None => "C:\\Users\\Public\\Fonts"@,
            },
    {
        match local_app_data {
            Some(base) => {
                let n = base.unicode_len();
                let mut dir = String::from_str(base);
                if n > 0 {
                    let last = base.get_char(n - 1);
                    if last != '/' && last != '\\' {
                        dir.append("\\");
                        proof {
                            reveal_strlit("\\");
                        }
                    }
                }
                dir.append("Microsoft\\Windows\\Fonts");
                proof {
                    if n > 0 {
                        assert(base@.last() == base@[n - 1]);
                    }
                    assert(dir@ =~= joined_path(base@, "Microsoft\\Windows\\Fonts"@));
                }
                dir
            },
            None => String::from_str("C:\\Users\\Public\\Fonts"),
        }
    }
}


impl FontScanner {
    /// The family name contains one of the system-critical family names
    /// (case-sensitive).
    pub fn is_system_font(family: &str) -> (r: bool)
        ensures
            r == is_system_family(family@),
    {
        let ghost names = system_font_names();
        assert(names[0] == "Segoe UI"@ && names[1] == "Microsoft YaHei"@ && names[2] == "SimSun"@
            && names[3] == "Tahoma"@);
        let r = str_contains(family, "Segoe UI") || str_contains(family, "Microsoft YaHei")
            || str_contains(family, "SimSun") || str_contains(family, "Tahoma");
        proof {
            if is_system_family(family@) {
                let i = choose|i: int|
                    0 <= i < names.len() && occurs_in(#[trigger] names[i], family@);
                assert(0 <= i < 4);
            }
        }
        r
    }

    /// The last character before `n` is a separator, or a `.` right after one.
    fn ends_in_separator_or_dot(path: &str, n: usize) -> (r: bool)
        requires
            0 < n <= path@.len(),
        ensures
            r == (is_separator(path@[n - 1]) || (n >= 2 && path@[n - 1] == '.' && is_separator(
                path@[n - 2],
            ))),
    {
        let last = path.get_char(n - 1);
        if last == '/' || last == '\\' {
            return true;
        }
        if n >= 2 && last == '.' {
            let before = path.get_char(n - 2);
            return before == '/' || before == '\\';
        }
        false
    }

    /// The length of `path` without its trailing separators and `.`
    /// components.
    fn trimmed_len(path: &str) -> (n: usize)
        ensures
            n <= path@.len(),
            trim_separators(path@) == path@.subrange(0, n as int),
    {
        let full = path.unicode_len();
        let ghost whole = path@;
        let mut n: usize = full;
        assert(whole.subrange(0, full as int) =~= whole);
        while n > 0 && Self::ends_in_separator_or_dot(path, n)
            invariant
                n <= full,
                full == whole.len(),
                whole == path@,
                trim_separators(whole) == trim_separators(whole.subrange(0, n as int)),
            decreases n,
        {
            assert(whole.subrange(0, n as int).drop_last() =~= whole.subrange(0, n - 1));
            assert(whole.subrange(0, n as int).last() == whole[n - 1]);
            if n >= 2 {
                assert(whole.subrange(0, n as int)[n - 2] == whole[n - 2]);
            }
            n -= 1;
        }
        proof {
            if n > 0 {
                assert(whole.subrange(0, n as int).last() == whole[n - 1]);
                if n >= 2 {
                    assert(whole.subrange(0, n as int)[n - 2] == whole[n - 2]);
                }
            }
        }
        n
    }

    /// Where the last component of the first `n` characters of `path` starts.
    fn file_name_start_in(path: &str, n: usize) -> (start: usize)
        requires
            n <= path@.len(),
        ensures
            start <= n,
            start == file_name_start(path@.subrange(0, n as int)),
    {
        let ghost p = path@.subrange(0, n as int);
        let mut start: usize = n;
        assert(p.subrange(0, n as int) =~= p);
        while start > 0 && !(path.get_char(start - 1) == '/' || path.get_char(start - 1) == '\\')
            invariant
                start <= n,
                n <= path@.len(),
                p == path@.subrange(0, n as int),
                file_name_start(p) == file_name_start(p.subrange(0, start as int)),
            decreases start,
        {
            assert(p.subrange(0, start as int).drop_last() =~= p.subrange(0, start - 1));
            start -= 1;
        }
        proof {
            if start > 0 {
                assert(p.subrange(0, start as int).last() == p[start - 1]);
            } else {
                assert(p.subrange(0, 0) =~= Seq::<char>::empty());
            }
        }
        start
    }

    /// The format that the extension of `path` names, without regard to case.
    pub fn font_format(path: &str) -> (r: Option<FontFormat>)
        ensures
            r == format_of_path(path@),
    {
        let n = Self::trimmed_len(path);
        let ghost p = path@.subrange(0, n as int);
        let start = Self::file_name_start_in(path, n);
        let ghost name = p.subrange(start as int, n as int);
        let mut k: usize = n - start;
        assert(name.subrange(0, k as int) =~= name);
        while k > 0 && path.get_char(start + k - 1) != '.'
            invariant
                start <= n,
                k <= n - start,
                n <= path@.len(),
                n == p.len(),
                p == path@.subrange(0, n as int),
                name == p.subrange(start as int, n as int),
                last_dot(name) == last_dot(name.subrange(0, k as int)),
            decreases k,
        {
            assert(name.subrange(0, k as int).drop_last() =~= name.subrange(0, k - 1));
            k -= 1;
        }
        proof {
            if k > 0 {
                assert(name.subrange(0, k as int).last() == name[k - 1]);
            }
        }
        let len = n - start;
        if len == 2 && path.get_char(start) == '.' && path.get_char(start + 1) == '.' {
            assert(name =~= seq!['.', '.']);
            return None;
        }
        if k <= 1 {
            proof {
                if name == seq!['.', '.'] {
                    assert(name[0] == p[start as int]);
                }
            }
            return None;
        }
        assert(name != seq!['.', '.']) by {
            if name == seq!['.', '.'] {
                assert(name[0] == p[start as int] && name[1] == p[start + 1]);
            }
        }
        let ghost e = name.subrange(k as int, name.len() as int);
        if n - (start + k) != 3 {
            return None;
        }
        let a = path.get_char(start + k);
        let b = path.get_char(start + k + 1);
        let c = path.get_char(start + k + 2);
        assert(e[0] == a && e[1] == b && e[2] == c);
        if (a == 't' || a == 'T') && (b == 't' || b == 'T') && (c == 'f' || c == 'F') {
            Some(FontFormat::TrueType)
        } else if (a == 'o' || a == 'O') && (b == 't' || b == 'T') && (c == 'f' || c == 'F') {
            Some(FontFormat::OpenType)
        } else if (a == 't' || a == 'T') && (b == 't' || b == 'T') && (c == 'c' || c == 'C') {
            Some(FontFormat::TrueTypeCollection)
        } else {
            None
        }
    }

    /// The path has one of the font extensions `ttf`, `otf`, `ttc`, in any
    /// case.
    pub fn is_font_file(path: &str) -> (r: bool)
        ensures
            r == format_of_path(path@) is Some,
    {
        Self::font_format(path).is_some()
    }
}


/// The weight of a decoded face.
pub fn face_weight_of(face: &FaceView) -> (r: u16)
    ensures
        r == face_weight(face.model()),
{
    match face.weight_class {
        Some(w) => {
            return w;
        },
        None => {},
    }
    let axes = &face.axes;
    let mut i: usize = 0;
    assert(axes@.skip(0) =~= axes@);
    while i < axes.len()
        invariant
            i <= axes.len(),
            axes@ == face.axes@,
            face.weight_class is None,
            axis_default(axes@, WEIGHT_AXIS_TAG) == axis_default(axes@.skip(i as int), WEIGHT_AXIS_TAG),
        decreases axes.len() - i,
    {
        assert(axes@.skip(i as int).drop_first() =~= axes@.skip(i + 1));
        let (tag, value) = axes[i];
        if tag == WEIGHT_AXIS_TAG {
            if face.is_variable {
                return value;
            }
            return DEFAULT_WEIGHT;
        }
        i += 1;
    }
    DEFAULT_WEIGHT
}

impl FontScanner {
    /// The record of a decoded face found at `path`.
    pub fn create_font_info(
        face: &FaceView,
        path: &str,
        file_size: u64,
        format: FontFormat,
        created_at: i64,
    ) -> (r: FontInfo)
        ensures
            record_of(r, face.model(), path@, file_size, format, created_at),
    {
        let names = face.names.as_slice();
        let family = extract_name_with_fallback(names, NAME_FAMILY);
        let full_name = extract_name_with_fallback(names, NAME_FULL_NAME);
        let postscript_name = extract_name_with_fallback(names, NAME_POSTSCRIPT);
        let style = match extract_name(names, NAME_SUBFAMILY) {
            Some(s) => if s.as_str().is_empty() {
                String::from_str("Regular")
            } else {
                s
            },
            None => String::from_str("Regular"),
        };
        let family_zh = extract_chinese_name(names, NAME_FAMILY);
        let full_name_zh = extract_chinese_name(names, NAME_FULL_NAME);
        let css_font_family = match extract_name(names, NAME_TYPOGRAPHIC_FAMILY) {
            Some(s) => s,
            None => family.clone(),
        };
        let mut source = String::from_str(path);
        source.append("-");
        source.append(family.as_str());
        source.append("-");
        source.append(style.as_str());
        let id = md5_hex(source.as_str());
        let (languages, scripts) = detect_languages_and_scripts(face.mapped_chars.as_slice());
        let status = if Self::is_system_font(family.as_str()) {
            FontStatus::SystemFont
        } else {
            FontStatus::Enabled
        };
        let metadata = extract_metadata(names);
        FontInfo {
            id,
            family,
            full_name,
            postscript_name,
            style,
            path: String::from_str(path),
            file_size,
            format,
            is_variable: face.is_variable,
            weight: face_weight_of(face),
            languages,
            scripts,
            metadata,
            status,
            created_at,
            family_zh,
            full_name_zh,
            css_font_family,
        }
    }

    /// The format of the file at `path`: the one its extension names, else
    /// TrueType.
    pub open spec fn file_format(path: Seq<char>) -> FontFormat {
        match format_of_path(path) {
            Some(f) => f,
            None => FontFormat::TrueType,
        }
    }

    /// The records of every face of one font file. Faces are decoded in
    /// order; the file fails when it lies beyond what the decoder can
    /// address, when face 0 cannot be read or when it declares no face, and
    /// the first later face that cannot be read ends the file.
    pub fn parse_font(path: &str, data: &[u8], file_size: u64, created_at: i64) -> (r: Result<
        Vec<FontInfo>,
        String,
    >)
        ensures
            ({
                let n = declared_faces(Self::file_format(path@), data@);
                &&& (r is Ok <==> !exceeds_decoder(data@) && n > 0 && face_readable(data@, 0))
                &&& (r matches Ok(v) ==> {
                    &&& v@.len() <= n
                    &&& leading_faces_parse(data@, v@.len())
                    &&& (v@.len() == n || !face_readable(data@, v@.len() as u32))
                    &&& forall|i: int|
                        0 <= i < v@.len() ==> record_of(
                            #[trigger] v@[i],
                            face_model_of(data@, i as u32),
                            path@,
                            file_size,
                            Self::file_format(path@),
                            created_at,
                        )
                })
                &&& (r matches Err(e) ==> if exceeds_decoder(data@) {
                    e@ == "Failed to parse font: the file exceeds the decoder's limits"@
                } else if n == 0 {
                    e@ == "No fonts could be parsed from file"@
                } else {
                    "Failed to parse font: "@.is_prefix_of(e@)
                })
            }),
    {
        if exceeds_decoder_limits(data) {
            return Err(String::from_str("Failed to parse font: the file exceeds the decoder's limits"));
        }
        let format = match Self::font_format(path) {
            Some(f) => f,
            None => FontFormat::TrueType,
        };
        let count: u32 = if format == FontFormat::TrueTypeCollection {
            match collection_size(data) {
                Some(n) => n,
                None => 1,
            }
        } else {
            1
        };
        let ghost n = declared_faces(format, data@);
        assert(count == n);
        let mut fonts: Vec<FontInfo> = Vec::new();
        let mut i: u32 = 0;
        while i < count
            invariant
                i <= count,
                count == n,
                n == declared_faces(format, data@),
                format == Self::file_format(path@),
                !exceeds_decoder(data@),
                fonts@.len() == i,
                leading_faces_parse(data@, i as nat),
                forall|k: int|
                    0 <= k < fonts@.len() ==> record_of(
                        #[trigger] fonts@[k],
                        face_model_of(data@, k as u32),
                        path@,
                        file_size,
                        format,
                        created_at,
                    ),
            decreases count - i,
        {
            let decoded = match decode_face(data, i) {
                Ok(d) => d,
                Err(e) => {
                    if i == 0 {
                        let mut message = String::from_str("Failed to parse font: ");
                        let reason = parse_error_text(&e);
                        message.append(reason.as_str());
                        assert(message@.subrange(0, "Failed to parse font: "@.len() as int)
                            =~= "Failed to parse font: "@);
                        return Err(message);
                    }
                    assert(face_readable(data@, 0));
                    return Ok(fonts);
                },
            };
            if !glyph_lookup_is_in_reach(data, i) {
                if i == 0 {
                    let message = String::from_str(
                        "Failed to parse font: a character map declares more records than can be addressed",
                    );
                    proof {
                        reveal_strlit("Failed to parse font: ");
                        reveal_strlit(
                            "Failed to parse font: a character map declares more records than can be addressed",
                        );
                        assert(message@.subrange(0, "Failed to parse font: "@.len() as int)
                            =~= "Failed to parse font: "@);
                    }
                    return Err(message);
                }
                assert(face_readable(data@, 0));
                return Ok(fonts);
            }
            let view = read_face(&decoded);
            let record = Self::create_font_info(&view, path, file_size, format, created_at);
            fonts.push(record);
            assert(leading_faces_parse(data@, (i + 1) as nat)) by {
                assert forall|j: u32| j < i + 1 implies #[trigger] face_readable(data@, j) by {
                    if j < i {
                    }
                }
            }
            assert(fonts@[i as int] == record);
            i += 1;
        }
        if fonts.len() == 0 {
            assert(n == 0);
            Err(String::from_str("No fonts could be parsed from file"))
        } else {
            assert(face_readable(data@, 0));
            Ok(fonts)
        }
    }
}

/// Every materialized record lists as many scripts as languages, and at
/// least one of each.
pub proof fn lemma_record_coverage(
    r: FontInfo,
    face: FaceModel,
    path: Seq<char>,
    file_size: u64,
    format: FontFormat,
    created_at: i64,
)
    requires
        record_of(r, face, path, file_size, format, created_at),
    ensures
        r.languages@.len() == r.scripts@.len(),
        r.languages@.len() > 0,
{
    crate::coverage::lemma_coverage_parallel(face.mapped_chars);
    assert(string_views(r.languages@).len() == r.languages@.len());
    assert(string_views(r.scripts@).len() == r.scripts@.len());
}

/// The style of a materialized record is never empty.
pub proof fn lemma_style_not_empty(
    r: FontInfo,
    face: FaceModel,
    path: Seq<char>,
    file_size: u64,
    format: FontFormat,
    created_at: i64,
)
    requires
        record_of(r, face, path, file_size, format, created_at),
    ensures
        r.style@.len() > 0,
{
    reveal_strlit("Regular");
}

/// What a scan has gathered so far: the records of the files that could be
/// read, and one message per file that could not.
#[derive(Clone, Debug)]
pub struct ScanReport {
    pub fonts: Vec<FontInfo>,
    pub errors: Vec<String>,
}

impl ScanReport {
    /// A report with nothing in it.
    pub fn new() -> (r: Self)
        ensures
            r.fonts@.len() == 0,
            r.errors@.len() == 0,
    {
        ScanReport { fonts: Vec::new(), errors: Vec::new() }
    }

    /// Adds the outcome of one file: its records, or its error message.
    pub fn record_file(&mut self, result: Result<Vec<FontInfo>, String>)
        ensures
            match result {
                Ok(v) => final(self).fonts@ == old(self).fonts@ + v@ && final(self).errors@
                    == old(self).errors@,
                Err(e) => final(self).fonts@ == old(self).fonts@ && final(self).errors@ == old(
                    self,
                ).errors@.push(e),
            },
    {
        match result {
            Ok(v) => {
                let mut v = v;
                self.fonts.append(&mut v);
            },
            Err(e) => {
                self.errors.push(e);
            },
        }
    }

    /// The first `limit` error messages, for a bounded summary.
    pub fn leading_errors(&self, limit: usize) -> (r: Vec<String>)
        ensures
            r@.len() == if limit < self.errors@.len() {
                limit as int
            } else {
                self.errors@.len() as int
            },
            forall|i: int| 0 <= i < r@.len() ==> #[trigger] r@[i] == self.errors@[i],
    {
        let mut r: Vec<String> = Vec::new();
        let mut i: usize = 0;
        while i < limit && i < self.errors.len()
            invariant
                i <= self.errors@.len(),
                i <= limit,
                r@.len() == i,
                forall|k: int| 0 <= k < i ==> #[trigger] r@[k] == self.errors@[k],
            decreases limit - i,
        {
            r.push(self.errors[i].clone());
            i += 1;
        }
        r
    }
}

} // verus!
