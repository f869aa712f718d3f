use fontscape::check::check_glyphs;
use fontscape::coverage::detect_languages_and_scripts;
use fontscape::names::{
    extract_chinese_name, extract_metadata, extract_name, extract_name_by_language,
    extract_name_with_fallback, NameRecord,
};

fn name(name_id: u16, language_id: u16, text: &str) -> NameRecord {
    NameRecord { name_id, language_id, is_unicode: true, text: Some(text.to_string()) }
}

#[test]
fn japanese_only_family_is_used() {
    let names = vec![name(1, 0x0411, "游ゴシック")];
    assert_eq!(extract_name_with_fallback(&names, 1), "游ゴシック");
    assert_eq!(extract_name_with_fallback(&names, 4), "游ゴシック");
    assert_eq!(extract_name(&names, 1).as_deref(), Some("游ゴシック"));
}

#[test]
fn english_record_wins_over_earlier_records() {
    let names = vec![
        name(1, 0x0411, "Japanese"),
        name(1, 0x0804, "Chinese"),
        name(1, 0x0409, "English"),
        name(1, 0x0409, "Second English"),
    ];
    assert_eq!(extract_name(&names, 1).as_deref(), Some("English"));
}

#[test]
fn non_unicode_and_undecoded_records_are_skipped() {
    let names = vec![
        NameRecord { name_id: 1, language_id: 0x0409, is_unicode: false, text: Some("Mac".to_string()) },
        NameRecord { name_id: 1, language_id: 0x0409, is_unicode: true, text: None },
        name(1, 0x0407, "German"),
    ];
    assert_eq!(extract_name(&names, 1).as_deref(), Some("German"));
    assert_eq!(extract_name(&names, 2), None);
    assert_eq!(extract_name_by_language(&names, 1, 0x0409), None);
    assert_eq!(extract_name_by_language(&names, 1, 0x0407).as_deref(), Some("German"));
}

#[test]
fn fallback_chain() {
    let names = vec![name(2, 0x0409, "Italic")];
    assert_eq!(extract_name_with_fallback(&names, 4), "Unknown");
    assert_eq!(extract_name_with_fallback(&names, 1), "Unknown");
    let names = vec![name(1, 0x0409, "Fam")];
    assert_eq!(extract_name_with_fallback(&names, 6), "Fam");
}

#[test]
fn chinese_locales_in_priority_order() {
    let names = vec![name(1, 0x0404, "TW"), name(1, 0x1004, "SG"), name(1, 0x0409, "EN")];
    assert_eq!(extract_chinese_name(&names, 1).as_deref(), Some("SG"));
    let names = vec![name(1, 0x0404, "TW"), name(1, 0x0804, "CN")];
    assert_eq!(extract_chinese_name(&names, 1).as_deref(), Some("CN"));
    let names = vec![name(1, 0x0404, "TW")];
    assert_eq!(extract_chinese_name(&names, 1).as_deref(), Some("TW"));
    let names = vec![name(1, 0x0409, "EN"), name(1, 0x0411, "JA")];
    assert_eq!(extract_chinese_name(&names, 1), None);
}

#[test]
fn metadata_slots_resolve_independently() {
    let names = vec![
        name(0, 0x0409, "(c) Someone"),
        name(5, 0x0409, "Version 1.0"),
        name(13, 0x0411, "License JA"),
        name(20, 0x0409, "CID"),
    ];
    let m = extract_metadata(&names);
    assert_eq!(m.copyright.as_deref(), Some("(c) Someone"));
    assert_eq!(m.version.as_deref(), Some("Version 1.0"));
    assert_eq!(m.license.as_deref(), Some("License JA"));
    assert_eq!(m.postscript_cid.as_deref(), Some("CID"));
    assert_eq!(m.family_name, None);
    assert_eq!(m.designer, None);
}

#[test]
fn coverage_pairs_in_probe_order() {
    let (l, s) = detect_languages_and_scripts(&['\u{0627}', 'a', 'A', '\u{0410}', '\u{044f}', '\u{ac00}', '\u{3042}']);
    assert_eq!(l, vec!["English", "Japanese", "Korean", "Russian", "Arabic"]);
    assert_eq!(s, vec!["Latn", "Jpan", "Kore", "Cyrl", "Arab"]);
}

#[test]
fn coverage_needs_every_probe() {
    let (l, s) = detect_languages_and_scripts(&['A', '\u{0410}']);
    assert_eq!(l, vec!["Unknown"]);
    assert_eq!(s, vec!["Unknown"]);
    let (l, s) = detect_languages_and_scripts(&[]);
    assert_eq!((l.len(), s.len()), (1, 1));
}

#[test]
fn glyph_check_rejects_garbage() {
    assert!(check_glyphs(b"nothing here", "ab").is_err());
}
