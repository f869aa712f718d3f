use fontscape::face::FaceView;
use fontscape::models::FontFormat;
use fontscape::models::FontStatus;
use fontscape::names::NameRecord;
use fontscape::scanner::FontScanner;
use fontscape::scanner::ScanReport;
use fontscape::state::FontState;

fn be16(out: &mut Vec<u8>, x: u16) {
    out.extend_from_slice(&x.to_be_bytes());
}

fn be32(out: &mut Vec<u8>, x: u32) {
    out.extend_from_slice(&x.to_be_bytes());
}

fn name_table(names: &[(u16, u16, &str)]) -> Vec<u8> {
    let mut storage: Vec<u8> = Vec::new();
    let mut records: Vec<u8> = Vec::new();
    for (id, lang, text) in names {
        let bytes: Vec<u8> = text.encode_utf16().flat_map(|u| u.to_be_bytes()).collect();
        be16(&mut records, 3);
        be16(&mut records, 1);
        be16(&mut records, *lang);
        be16(&mut records, *id);
        be16(&mut records, bytes.len() as u16);
        be16(&mut records, storage.len() as u16);
        storage.extend(bytes);
    }
    let mut t = Vec::new();
    be16(&mut t, 0);
    be16(&mut t, names.len() as u16);
    be16(&mut t, (6 + 12 * names.len()) as u16);
    t.extend(records);
    t.extend(storage);
    t
}

fn head_table() -> Vec<u8> {
    let mut t = vec![0u8; 54];
    t[0..4].copy_from_slice(&0x0001_0000u32.to_be_bytes());
    t[12..16].copy_from_slice(&0x5F0F_3CF5u32.to_be_bytes());
    t[18..20].copy_from_slice(&1000u16.to_be_bytes());
    t
}

fn hhea_table() -> Vec<u8> {
    let mut t = vec![0u8; 36];
    t[0..4].copy_from_slice(&0x0001_0000u32.to_be_bytes());
    t[34..36].copy_from_slice(&1u16.to_be_bytes());
    t
}

fn maxp_table() -> Vec<u8> {
    let mut t = Vec::new();
    be32(&mut t, 0x0000_5000);
    be16(&mut t, 16);
    t
}

fn os2_table(weight: u16) -> Vec<u8> {
    let mut t = vec![0u8; 78];
    t[4..6].copy_from_slice(&weight.to_be_bytes());
    t
}

/// A format 4 character map that maps each of `chars` (all in the BMP,
/// ascending) to a glyph of its own.
fn cmap_table(chars: &[char]) -> Vec<u8> {
    let seg_count = chars.len() + 1;
    let mut sub = Vec::new();
    be16(&mut sub, 4);
    be16(&mut sub, (16 + 8 * seg_count) as u16);
    be16(&mut sub, 0);
    be16(&mut sub, (2 * seg_count) as u16);
    be16(&mut sub, 0);
    be16(&mut sub, 0);
    be16(&mut sub, 0);
    for c in chars {
        be16(&mut sub, *c as u16);
    }
    be16(&mut sub, 0xFFFF);
    be16(&mut sub, 0);
    for c in chars {
        be16(&mut sub, *c as u16);
    }
    be16(&mut sub, 0xFFFF);
    for (i, c) in chars.iter().enumerate() {
        be16(&mut sub, ((i as u16) + 1).wrapping_sub(*c as u16));
    }
    be16(&mut sub, 1);
    for _ in 0..seg_count {
        be16(&mut sub, 0);
    }
    let mut t = Vec::new();
    be16(&mut t, 0);
    be16(&mut t, 1);
    be16(&mut t, 3);
    be16(&mut t, 1);
    be32(&mut t, 12);
    t.extend(sub);
    t
}

/// A minimal TrueType face whose table offsets count from `base`.
fn font_at(base: usize, names: &[(u16, u16, &str)], weight: Option<u16>) -> Vec<u8> {
    font_with_glyphs_at(base, names, weight, &[])
}

/// A minimal TrueType face that maps `chars`, with table offsets counted
/// from `base`.
fn font_with_glyphs_at(
    base: usize,
    names: &[(u16, u16, &str)],
    weight: Option<u16>,
    chars: &[char],
) -> Vec<u8> {
    font_with_tables_at(base, names, weight, chars, Vec::new())
}

/// A minimal TrueType face that maps `chars` and also holds `extra` tables.
fn font_with_tables_at(
    base: usize,
    names: &[(u16, u16, &str)],
    weight: Option<u16>,
    chars: &[char],
    extra: Vec<(&'static [u8; 4], Vec<u8>)>,
) -> Vec<u8> {
    let mut tables: Vec<(&[u8; 4], Vec<u8>)> = extra;
    if let Some(w) = weight {
        tables.push((b"OS/2", os2_table(w)));
    }
    if !chars.is_empty() {
        tables.push((b"cmap", cmap_table(chars)));
    }
    tables.push((b"head", head_table()));
    tables.push((b"hhea", hhea_table()));
    tables.push((b"maxp", maxp_table()));
    tables.push((b"name", name_table(names)));
    tables.sort_by(|a, b| a.0.cmp(b.0));
    let mut out = Vec::new();
    be32(&mut out, 0x0001_0000);
    be16(&mut out, tables.len() as u16);
    be16(&mut out, 0);
    be16(&mut out, 0);
    be16(&mut out, 0);
    let mut offset = base + 12 + 16 * tables.len();
    let mut body: Vec<u8> = Vec::new();
    for (tag, data) in &tables {
        out.extend_from_slice(*tag);
        be32(&mut out, 0);
        be32(&mut out, (offset + body.len()) as u32);
        be32(&mut out, data.len() as u32);
        body.extend(data);
        while body.len() % 4 != 0 {
            body.push(0);
        }
    }
    offset += body.len();
    let _ = offset;
    out.extend(body);
    out
}

fn font(names: &[(u16, u16, &str)], weight: Option<u16>) -> Vec<u8> {
    font_at(0, names, weight)
}

fn name(name_id: u16, language_id: u16, text: &str) -> NameRecord {
    NameRecord { name_id, language_id, is_unicode: true, text: Some(text.to_string()) }
}

fn face_view(names: Vec<NameRecord>, mapped_chars: Vec<char>) -> FaceView {
    FaceView { names, mapped_chars, is_variable: false, weight_class: None, axes: Vec::new() }
}

#[test]
fn test_system_font_detection() {
    assert!(FontScanner::is_system_font("Segoe UI"));
    assert!(FontScanner::is_system_font("Microsoft YaHei"));
    assert!(FontScanner::is_system_font("SimSun"));
    assert!(FontScanner::is_system_font("Tahoma"));
    assert!(!FontScanner::is_system_font("Arial"));
    assert!(!FontScanner::is_system_font("Times New Roman"));
    assert!(!FontScanner::is_system_font("Helvetica"));
}

#[test]
fn test_is_font_file() {
    assert!(FontScanner::is_font_file("test.ttf"));
    assert!(FontScanner::is_font_file("test.otf"));
    assert!(FontScanner::is_font_file("test.ttc"));
    assert!(FontScanner::is_font_file("TEST.TTF"));
    assert!(!FontScanner::is_font_file("test.txt"));
    assert!(!FontScanner::is_font_file("test.pdf"));
    assert!(!FontScanner::is_font_file("test"));
}

#[test]
fn system_font_match_is_substring_and_case_sensitive() {
    assert!(FontScanner::is_system_font("Segoe UI Semibold"));
    assert!(FontScanner::is_system_font("NSimSun"));
    assert!(!FontScanner::is_system_font("segoe ui"));
    assert!(!FontScanner::is_system_font(""));
}

#[test]
fn font_format_follows_extension() {
    assert_eq!(FontScanner::font_format("a/b/c.ttf"), Some(FontFormat::TrueType));
    assert_eq!(FontScanner::font_format("C:\\Fonts\\x.OtF"), Some(FontFormat::OpenType));
    assert_eq!(FontScanner::font_format("x.Ttc"), Some(FontFormat::TrueTypeCollection));
    assert_eq!(FontScanner::font_format("dir.ttf/readme"), None);
    assert_eq!(FontScanner::font_format(".ttf"), None);
    assert_eq!(FontScanner::font_format("x.ttff"), None);
    assert_eq!(FontScanner::font_format("a.b.ttc"), Some(FontFormat::TrueTypeCollection));
    assert!(!FontScanner::is_font_file(".."));
    assert!(FontScanner::is_font_file("a.ttf/"));
    assert!(FontScanner::is_font_file("x.ttf/."));
    assert!(FontScanner::is_font_file("x.ttf/./"));
    assert!(!FontScanner::is_font_file("."));
    assert!(!FontScanner::is_font_file("x.ttf/.."));
    assert_eq!(FontScanner::font_format("fonts\\b.OTF\\"), Some(FontFormat::OpenType));
    assert!(!FontScanner::is_font_file("/"));
}

#[test]
fn scanner_directories() {
    let s = FontScanner::new(Some("D:\\Users\\me\\AppData\\Local"));
    assert_eq!(
        s.font_dirs(),
        &vec![
            "C:\\Windows\\Fonts".to_string(),
            "D:\\Users\\me\\AppData\\Local\\Microsoft\\Windows\\Fonts".to_string()
        ]
    );
    let s = FontScanner::new(None);
    assert_eq!(s.font_dirs()[1], "C:\\Users\\Public\\Fonts");
    assert_eq!(
        FontScanner::user_fonts_dir(Some("E:\\")),
        "E:\\Microsoft\\Windows\\Fonts"
    );
    assert_eq!(FontScanner::user_fonts_dir(Some("")), "Microsoft\\Windows\\Fonts");
}

#[test]
fn end_to_end_synthetic_truetype() {
    let data = font(&[(1, 0x0409, "Testa")], Some(700));
    let fonts = FontScanner::parse_font("testa.ttf", &data, data.len() as u64, 42).unwrap();
    assert_eq!(fonts.len(), 1);
    let f = &fonts[0];
    assert_eq!(f.family, "Testa");
    assert_eq!(f.style, "Regular");
    assert_eq!(f.weight, 700);
    assert_eq!(f.full_name, "Testa");
    assert_eq!(f.postscript_name, "Testa");
    assert_eq!(f.css_font_family, "Testa");
    assert_eq!(f.format, FontFormat::TrueType);
    assert_eq!(f.file_size, data.len() as u64);
    assert_eq!(f.created_at, 42);
    assert_eq!(f.path, "testa.ttf");
    assert!(!f.is_variable);
    assert_eq!(f.languages, vec!["Unknown".to_string()]);
    assert_eq!(f.scripts, vec!["Unknown".to_string()]);
    assert_eq!(f.metadata.family_name.as_deref(), Some("Testa"));
    assert_eq!(f.metadata.version, None);
    assert!(matches!(f.status, FontStatus::Enabled));
    let expected_id = format!("{:x}", md5::compute("testa.ttf-Testa-Regular"));
    assert_eq!(f.id, expected_id);
    assert_eq!(f.id.len(), 32);

    let state = FontState::new(fonts.clone());
    assert_eq!(state.css_font_family_count(), 1);
    let family = state.get_css_font_family("Testa").unwrap();
    assert_eq!(family.name, "Testa");
    assert_eq!(family.font_count, 1);
    assert_eq!(family.default_font_id, fonts[0].id);
    assert_eq!(state.get_font(&fonts[0].id).unwrap().family, "Testa");
}

#[test]
fn collection_stops_at_first_failing_face() {
    let faces = 3usize;
    let header_len = 12 + 4 * faces;
    let first = font_at(header_len, &[(1, 0x0409, "First")], Some(400));
    let bad_offset = header_len + first.len();
    let bad = b"junkjunkjunkjunk".to_vec();
    let third_offset = bad_offset + bad.len();
    let third = font_at(third_offset, &[(1, 0x0409, "Third")], Some(400));
    let mut data = Vec::new();
    data.extend_from_slice(b"ttcf");
    be32(&mut data, 0x0001_0000);
    be32(&mut data, faces as u32);
    be32(&mut data, header_len as u32);
    be32(&mut data, bad_offset as u32);
    be32(&mut data, third_offset as u32);
    data.extend(first);
    data.extend(bad);
    data.extend(third);
    let fonts = FontScanner::parse_font("set.ttc", &data, 0, 0).unwrap();
    assert_eq!(fonts.len(), 1);
    assert_eq!(fonts[0].family, "First");
    assert_eq!(fonts[0].format, FontFormat::TrueTypeCollection);
}

#[test]
fn collection_with_every_face() {
    let header_len = 12 + 4 * 2;
    let first = font_at(header_len, &[(1, 0x0409, "One")], Some(300));
    let second_offset = header_len + first.len();
    let second = font_at(second_offset, &[(1, 0x0409, "Two"), (2, 0x0409, "Bold")], Some(700));
    let mut data = Vec::new();
    data.extend_from_slice(b"ttcf");
    be32(&mut data, 0x0001_0000);
    be32(&mut data, 2);
    be32(&mut data, header_len as u32);
    be32(&mut data, second_offset as u32);
    data.extend(first);
    data.extend(second);
    let fonts = FontScanner::parse_font("pair.TTC", &data, 0, 0).unwrap();
    assert_eq!(fonts.len(), 2);
    assert_eq!(fonts[1].family, "Two");
    assert_eq!(fonts[1].style, "Bold");
    assert_eq!(fonts[1].weight, 700);
    assert_ne!(fonts[0].id, fonts[1].id);
}

#[test]
fn unreadable_first_face_fails_the_file() {
    let err = FontScanner::parse_font("bad.ttf", b"not a font at all", 0, 0).unwrap_err();
    assert!(err.starts_with("Failed to parse font: "));
    assert!(err.len() > "Failed to parse font: ".len());
}

#[test]
fn empty_subfamily_reads_as_regular() {
    let face = face_view(vec![name(1, 0x0409, "Fam"), name(2, 0x0409, "")], vec![]);
    let f = FontScanner::create_font_info(&face, "e.ttf", 0, FontFormat::TrueType, 0);
    assert_eq!(f.style, "Regular");
    assert_eq!(f.metadata.subfamily_name.as_deref(), Some(""));
    let data = font(&[(1, 0x0409, "Fam"), (2, 0x0409, "")], Some(400));
    let fonts = FontScanner::parse_font("e.ttf", &data, 0, 0).unwrap();
    assert_eq!(fonts[0].style, "Regular");
}

#[test]
fn collection_declaring_too_many_faces_fails() {
    let mut data = Vec::new();
    data.extend_from_slice(b"ttcf");
    be32(&mut data, 0x0001_0000);
    be32(&mut data, 0x3FFF_FFFD);
    let err = FontScanner::parse_font("huge.ttc", &data, 0, 0).unwrap_err();
    assert_eq!(err, "Failed to parse font: the file exceeds the decoder's limits");
    let err = FontScanner::parse_font("huge.ttf", &data, 0, 0).unwrap_err();
    assert_eq!(err, "Failed to parse font: the file exceeds the decoder's limits");
    let err = fontscape::check::check_glyphs(&data, "a").unwrap_err();
    assert_eq!(err, "the file exceeds the decoder's limits");
}

#[test]
fn collection_declaring_no_faces_fails() {
    let mut data = Vec::new();
    data.extend_from_slice(b"ttcf");
    be32(&mut data, 0x0001_0000);
    be32(&mut data, 0);
    let err = FontScanner::parse_font("empty.ttc", &data, 0, 0).unwrap_err();
    assert_eq!(err, "No fonts could be parsed from file");
}

#[test]
fn missing_weight_class_defaults_to_regular_weight() {
    let data = font(&[(1, 0x0409, "Plain")], None);
    let fonts = FontScanner::parse_font("plain.otf", &data, 0, 0).unwrap();
    assert_eq!(fonts[0].weight, 400);
    assert_eq!(fonts[0].format, FontFormat::OpenType);
}

#[test]
fn materialized_record_from_face_view() {
    let names = vec![
        name(1, 0x0409, "Noto Sans"),
        name(1, 0x0804, "思源黑体"),
        name(4, 0x0404, "思源黑體 粗體"),
        name(2, 0x0409, "Bold"),
        name(16, 0x0409, "Noto Sans Family"),
    ];
    let mut face = face_view(names, vec!['A', 'a', '\u{89c9}']);
    face.weight_class = Some(700);
    let f = FontScanner::create_font_info(&face, "/f/noto.ttf", 10, FontFormat::TrueType, 5);
    assert_eq!(f.family, "Noto Sans");
    assert_eq!(f.full_name, "思源黑體 粗體");
    assert_eq!(f.postscript_name, "Noto Sans");
    assert_eq!(f.style, "Bold");
    assert_eq!(f.family_zh.as_deref(), Some("思源黑体"));
    assert_eq!(f.full_name_zh.as_deref(), Some("思源黑體 粗體"));
    assert_eq!(f.css_font_family, "Noto Sans Family");
    assert_eq!(f.languages, vec!["English".to_string(), "Chinese".to_string()]);
    assert_eq!(f.scripts, vec!["Latn".to_string(), "Hans".to_string()]);
    assert_eq!(f.weight, 700);
    assert_eq!(f.id, format!("{:x}", md5::compute("/f/noto.ttf-Noto Sans-Bold")));
}

#[test]
fn system_family_is_classified() {
    let face = face_view(vec![name(1, 0x0409, "Microsoft YaHei UI")], vec![]);
    let f = FontScanner::create_font_info(&face, "y.ttc", 0, FontFormat::TrueTypeCollection, 0);
    assert!(matches!(f.status, FontStatus::SystemFont));
}

#[test]
fn variable_face_takes_weight_axis_default() {
    let mut face = face_view(vec![name(1, 0x0409, "Var")], vec![]);
    face.is_variable = true;
    face.axes = vec![(0x7769_6474, 100), (0x7767_6874, 350)];
    let f = FontScanner::create_font_info(&face, "v.ttf", 0, FontFormat::TrueType, 0);
    assert_eq!(f.weight, 350);
    face.axes = vec![(0x7767_6874, 1200)];
    let f = FontScanner::create_font_info(&face, "v.ttf", 0, FontFormat::TrueType, 0);
    assert_eq!(f.weight, 1200);
    assert!(f.is_variable);
    face.weight_class = Some(500);
    let f = FontScanner::create_font_info(&face, "v.ttf", 0, FontFormat::TrueType, 0);
    assert_eq!(f.weight, 500);
    face.weight_class = None;
    face.is_variable = false;
    let f = FontScanner::create_font_info(&face, "v.ttf", 0, FontFormat::TrueType, 0);
    assert_eq!(f.weight, 400);
}

#[test]
fn unknown_family_everywhere() {
    let face = face_view(vec![], vec![]);
    let f = FontScanner::create_font_info(&face, "x.ttf", 0, FontFormat::TrueType, 0);
    assert_eq!(f.family, "Unknown");
    assert_eq!(f.full_name, "Unknown");
    assert_eq!(f.style, "Regular");
    assert_eq!(f.css_font_family, "Unknown");
    assert_eq!(f.family_zh, None);
}

#[test]
fn scan_report_collects_and_truncates() {
    let mut report = ScanReport::new();
    let face = face_view(vec![name(1, 0x0409, "A")], vec![]);
    let f = FontScanner::create_font_info(&face, "a.ttf", 0, FontFormat::TrueType, 0);
    report.record_file(Ok(vec![f]));
    for i in 0..12 {
        report.record_file(Err(format!("file {}", i)));
    }
    assert_eq!(report.fonts.len(), 1);
    assert_eq!(report.errors.len(), 12);
    let first = report.leading_errors(10);
    assert_eq!(first.len(), 10);
    assert_eq!(first[9], "file 9");
    assert_eq!(report.leading_errors(50).len(), 12);
}

#[test]
fn probes_and_glyph_check_read_the_character_map() {
    let data = font_with_glyphs_at(0, &[(1, 0x0409, "Mapped")], Some(400), &['A', 'a', '\u{0410}']);
    let fonts = FontScanner::parse_font("m.ttf", &data, 0, 0).unwrap();
    assert_eq!(fonts[0].languages, vec!["English".to_string()]);
    assert_eq!(fonts[0].scripts, vec!["Latn".to_string()]);
    let results = fontscape::check::check_glyphs(&data, "Ab\u{0410}").unwrap();
    assert_eq!(results.len(), 3);
    assert_eq!((results[0].glyph, results[0].exists), ('A', true));
    assert_eq!((results[1].glyph, results[1].exists), ('b', false));
    assert_eq!((results[2].glyph, results[2].exists), ('\u{0410}', true));
}

/// A cmap table whose only subtable is format 12 and declares `groups`
/// groups but holds none.
fn format12_cmap(groups: u32) -> Vec<u8> {
    let mut t = Vec::new();
    be16(&mut t, 0);
    be16(&mut t, 1);
    be16(&mut t, 3);
    be16(&mut t, 10);
    be32(&mut t, 12);
    be16(&mut t, 12);
    be16(&mut t, 0);
    be32(&mut t, 16);
    be32(&mut t, 0);
    be32(&mut t, groups);
    t
}

#[test]
fn oversized_character_map_fails_the_face() {
    let extra = vec![(b"cmap", format12_cmap(0x2000_0000))];
    let data = font_with_tables_at(0, &[(1, 0x0409, "Huge")], Some(400), &[], extra);
    let err = FontScanner::parse_font("h.ttf", &data, 0, 0).unwrap_err();
    assert_eq!(
        err,
        "Failed to parse font: a character map declares more records than can be addressed"
    );
    let err = fontscape::check::check_glyphs(&data, "a").unwrap_err();
    assert_eq!(err, "a character map declares more records than can be addressed");
    let extra = vec![(b"cmap", format12_cmap(3))];
    let data = font_with_tables_at(0, &[(1, 0x0409, "Small")], Some(400), &[], extra);
    let fonts = FontScanner::parse_font("s.ttf", &data, 0, 0).unwrap();
    assert_eq!(fonts[0].languages, vec!["Unknown".to_string()]);
}

#[test]
fn unread_tables_are_not_decoded() {
    let mut sbix = Vec::new();
    be16(&mut sbix, 1);
    be16(&mut sbix, 0);
    be32(&mut sbix, 0xFFFF_FFFF);
    let extra = vec![(b"sbix", sbix)];
    let data = font_with_tables_at(0, &[(1, 0x0409, "Bitmap")], Some(500), &['A', 'a'], extra);
    let fonts = FontScanner::parse_font("b.ttf", &data, 0, 0).unwrap();
    assert_eq!(fonts[0].family, "Bitmap");
    assert_eq!(fonts[0].weight, 500);
    assert_eq!(fonts[0].languages, vec!["English".to_string()]);
}
