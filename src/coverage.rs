//! Glyph-coverage probing: which languages a face plausibly supports,
//! judged by whether it maps a few representative characters.

use vstd::prelude::*;
use crate::models::string_views;

verus! {

/// The probe characters, in probe order.
pub const PROBE_LATIN_UPPER: char = 'A';
pub const PROBE_LATIN_LOWER: char = 'a';
/// A common simplified Chinese ideograph (jue).
pub const PROBE_HAN: char = '\u{89c9}';
/// Hiragana letter A.
pub const PROBE_HIRAGANA: char = '\u{3042}';
/// Hangul syllable GA.
pub const PROBE_HANGUL: char = '\u{ac00}';
/// Cyrillic capital A.
pub const PROBE_CYRILLIC_UPPER: char = '\u{0410}';
/// Cyrillic small YA.
pub const PROBE_CYRILLIC_LOWER: char = '\u{044f}';
/// Arabic letter Alef.
pub const PROBE_ARABIC: char = '\u{0627}';

/// `[x]` when `hit`, else nothing.
pub open spec fn item_if(hit: bool, x: Seq<char>) -> Seq<Seq<char>> {
    if hit {
        seq![x]
    } else {
        seq![]
    }
}

/// The face maps both Latin probes.
pub open spec fn has_latin(m: Seq<char>) -> bool {
    m.contains(PROBE_LATIN_UPPER) && m.contains(PROBE_LATIN_LOWER)
}

/// The face maps both Cyrillic probes.
pub open spec fn has_cyrillic(m: Seq<char>) -> bool {
    m.contains(PROBE_CYRILLIC_UPPER) && m.contains(PROBE_CYRILLIC_LOWER)
}

/// The detected language labels, in probe order.
pub open spec fn detected_languages(m: Seq<char>) -> Seq<Seq<char>> {
    item_if(has_latin(m), "English"@) + item_if(m.contains(PROBE_HAN), "Chinese"@) + item_if(
        m.contains(PROBE_HIRAGANA),
        "Japanese"@,
    ) + item_if(m.contains(PROBE_HANGUL), "Korean"@) + item_if(has_cyrillic(m), "Russian"@)
        + item_if(m.contains(PROBE_ARABIC), "Arabic"@)
}

/// The script tags paired with `detected_languages`, position by position.
pub open spec fn detected_scripts(m: Seq<char>) -> Seq<Seq<char>> {
    item_if(has_latin(m), "Latn"@) + item_if(m.contains(PROBE_HAN), "Hans"@) + item_if(
        m.contains(PROBE_HIRAGANA),
        "Jpan"@,
    ) + item_if(m.contains(PROBE_HANGUL), "Kore"@) + item_if(has_cyrillic(m), "Cyrl"@)
        + item_if(m.contains(PROBE_ARABIC), "Arab"@)
}

/// The reported languages: the detected ones, or `["Unknown"]` when none was
/// detected.
pub open spec fn coverage_languages(m: Seq<char>) -> Seq<Seq<char>> {
    if detected_languages(m).len() == 0 {
        seq!["Unknown"@]
    } else {
        detected_languages(m)
    }
}

/// The reported scripts: the detected ones, or `["Unknown"]` when no language
/// was detected.
pub open spec fn coverage_scripts(m: Seq<char>) -> Seq<Seq<char>> {
    if detected_languages(m).len() == 0 {
        seq!["Unknown"@]
    } else {
        detected_scripts(m)
    }
}

/// `c` is one of `chars`.
pub fn has_char(chars: &[char], c: char) -> (r: bool)
    ensures
        r == chars@.contains(c),
{
    let mut i: usize = 0;
    while i < chars.len()
        invariant
            i <= chars.len(),
            forall|j: int| 0 <= j < i ==> chars@[j] != c,
        decreases chars.len() - i,
    {
        if chars[i] == c {
            return true;
        }
        i += 1;
    }
    false
}

fn push_pair_if(
    hit: bool,
    language: &str,
    script: &str,
    languages: &mut Vec<String>,
    scripts: &mut Vec<String>,
)
    ensures
        string_views(final(languages)@) == string_views(old(languages)@) + item_if(hit, language@),
        string_views(final(scripts)@) == string_views(old(scripts)@) + item_if(hit, script@),
{
    if hit {
        languages.push(String::from_str(language));
        scripts.push(String::from_str(script));
    }
    assert(string_views(languages@) =~= string_views(old(languages)@) + item_if(hit, language@));
    assert(string_views(scripts@) =~= string_views(old(scripts)@) + item_if(hit, script@));
}

/// The languages and scripts a face supports, given the probe characters it
/// maps: parallel lists, never empty.
pub fn detect_languages_and_scripts(mapped: &[char]) -> (r: (Vec<String>, Vec<String>))
    ensures
        string_views(r.0@) == coverage_languages(mapped@),
        string_views(r.1@) == coverage_scripts(mapped@),
        r.0@.len() == r.1@.len(),
        r.0@.len() > 0,
{
    let mut languages: Vec<String> = Vec::new();
    let mut scripts: Vec<String> = Vec::new();
    assert(string_views(languages@) =~= Seq::<Seq<char>>::empty());
    assert(string_views(scripts@) =~= Seq::<Seq<char>>::empty());
    let english = has_char(mapped, PROBE_LATIN_UPPER) && has_char(mapped, PROBE_LATIN_LOWER);
    push_pair_if(english, "English", "Latn", &mut languages, &mut scripts);
    let chinese = has_char(mapped, PROBE_HAN);
    push_pair_if(chinese, "Chinese", "Hans", &mut languages, &mut scripts);
    let japanese = has_char(mapped, PROBE_HIRAGANA);
    push_pair_if(japanese, "Japanese", "Jpan", &mut languages, &mut scripts);
    let korean = has_char(mapped, PROBE_HANGUL);
    push_pair_if(korean, "Korean", "Kore", &mut languages, &mut scripts);
    let russian = has_char(mapped, PROBE_CYRILLIC_UPPER) && has_char(mapped, PROBE_CYRILLIC_LOWER);
    push_pair_if(russian, "Russian", "Cyrl", &mut languages, &mut scripts);
    let arabic = has_char(mapped, PROBE_ARABIC);
    push_pair_if(arabic, "Arabic", "Arab", &mut languages, &mut scripts);
    assert(string_views(languages@) =~= detected_languages(mapped@));
    assert(string_views(scripts@) =~= detected_scripts(mapped@));
    assert(languages@.len() == string_views(languages@).len());
    assert(scripts@.len() == string_views(scripts@).len());
    if languages.len() == 0 {
        languages.push(String::from_str("Unknown"));
        scripts.push(String::from_str("Unknown"));
        assert(string_views(languages@) =~= seq!["Unknown"@]);
        assert(string_views(scripts@) =~= seq!["Unknown"@]);
    }
    (languages, scripts)
}


/// The reported languages and scripts pair up one for one, and there is at
/// least one pair.
pub proof fn lemma_coverage_parallel(m: Seq<char>)
    ensures
        coverage_languages(m).len() == coverage_scripts(m).len(),
        coverage_languages(m).len() > 0,
{
}

} // verus!
