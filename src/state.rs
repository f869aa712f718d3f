//! Family aggregation and the queryable result of a scan.

use vstd::prelude::*;
use crate::models::{family_views, CssFamilyView, CssFontFamily, FontInfo};
use crate::text::{
    chars_less, chars_lt, lemma_chars_lt_irreflexive, lemma_chars_lt_total,
    lemma_chars_lt_transitive, lower_of, lowercase, str_eq,
};

verus! {

/// `f` belongs to the CSS family `name`.
pub open spec fn in_family(f: FontInfo, name: Seq<char>) -> bool {
    f.css_font_family@ == name
}

/// How many records belong to `name`.
pub open spec fn family_size(fonts: Seq<FontInfo>, name: Seq<char>) -> nat
    decreases fonts.len(),
{
    if fonts.len() == 0 {
        0
    } else {
        family_size(fonts.drop_last(), name) + if in_family(fonts.last(), name) {
            1nat
        } else {
            0nat
        }
    }
}

/// How far a weight lies from 400.
pub open spec fn weight_distance(w: u16) -> int {
    if w >= 400 {
        w - 400
    } else {
        400 - w
    }
}

/// The index of the first member of `name` whose weight is closest to 400,
/// or -1 when `name` has no member.
pub open spec fn default_index(fonts: Seq<FontInfo>, name: Seq<char>) -> int
    decreases fonts.len(),
{
    if fonts.len() == 0 {
        -1
    } else {
        let b = default_index(fonts.drop_last(), name);
        if in_family(fonts.last(), name) && (b < 0 || weight_distance(fonts.last().weight)
            < weight_distance(fonts[b].weight)) {
            fonts.len() - 1
        } else {
            b
        }
    }
}

/// The index of the first member of `name`, or -1 when it has none.
pub open spec fn first_index(fonts: Seq<FontInfo>, name: Seq<char>) -> int
    decreases fonts.len(),
{
    if fonts.len() == 0 {
        -1
    } else {
        let b = first_index(fonts.drop_last(), name);
        if b < 0 && in_family(fonts.last(), name) {
            fonts.len() - 1
        } else {
            b
        }
    }
}

/// Display order of families: by lower-cased name in code-point order, and
/// names that lower-case alike by first appearance.
pub open spec fn family_before(fonts: Seq<FontInfo>, a: Seq<char>, b: Seq<char>) -> bool {
    ||| chars_lt(lower_of(a), lower_of(b))
    ||| lower_of(a) == lower_of(b) && first_index(fonts, a) < first_index(fonts, b)
}

/// `fams` is the aggregation of `fonts`: one entry per CSS family name that
/// occurs, with its member count and the id of its default member, in
/// display order.
pub open spec fn is_aggregation(fonts: Seq<FontInfo>, fams: Seq<CssFontFamily>) -> bool {
    &&& forall|i: int| 0 <= i < fams.len() ==> first_index(fonts, #[trigger] fams[i].name@) >= 0
    &&& forall|j: int|
        0 <= j < fonts.len() ==> exists|i: int|
            0 <= i < fams.len() && #[trigger] fams[i].name@ == (#[trigger] fonts[j]).css_font_family@
    &&& forall|i: int|
        0 <= i < fams.len() ==> #[trigger] fams[i].font_count == family_size(fonts, fams[i].name@)
    &&& forall|i: int|
        0 <= i < fams.len() ==> (#[trigger] fams[i]).default_font_id@ == fonts[default_index(
            fonts,
            fams[i].name@,
        )].id@
    &&& forall|i: int, k: int|
        0 <= i < k < fams.len() ==> family_before(fonts, #[trigger] fams[i].name@, #[trigger] fams[k].name@)
}

/// The first member and the default member of a family are members, and a
/// family has them exactly when it has a member.
pub proof fn lemma_family_indices(fonts: Seq<FontInfo>, name: Seq<char>)
    ensures
        -1 <= first_index(fonts, name) < fonts.len(),
        -1 <= default_index(fonts, name) < fonts.len(),
        (first_index(fonts, name) >= 0) == (default_index(fonts, name) >= 0),
        first_index(fonts, name) >= 0 ==> in_family(fonts[first_index(fonts, name)], name),
        default_index(fonts, name) >= 0 ==> in_family(fonts[default_index(fonts, name)], name),
        first_index(fonts, name) >= 0 ==> family_size(fonts, name) > 0,
        first_index(fonts, name) < 0 ==> family_size(fonts, name) == 0,
        family_size(fonts, name) <= fonts.len(),
        forall|j: int| 0 <= j < fonts.len() && in_family(#[trigger] fonts[j], name) ==> first_index(fonts, name) >= 0,
    decreases fonts.len(),
{
    if fonts.len() > 0 {
        let s = fonts.drop_last();
        lemma_family_indices(s, name);
        assert forall|j: int| 0 <= j < fonts.len() && in_family(#[trigger] fonts[j], name) implies first_index(fonts, name) >= 0 by {
            if j < fonts.len() - 1 {
                assert(s[j] == fonts[j]);
            }
        }
    }
}

/// The order of families is a strict order.
pub proof fn lemma_family_before_strict(fonts: Seq<FontInfo>, a: Seq<char>, b: Seq<char>, c: Seq<char>)
    ensures
        !family_before(fonts, a, a),
        family_before(fonts, a, b) && family_before(fonts, b, c) ==> family_before(fonts, a, c),
        family_before(fonts, a, b) ==> !family_before(fonts, b, a),
{
    lemma_chars_lt_irreflexive(lower_of(a));
    if chars_lt(lower_of(a), lower_of(b)) && chars_lt(lower_of(b), lower_of(c)) {
        lemma_chars_lt_transitive(lower_of(a), lower_of(b), lower_of(c));
    }
    if chars_lt(lower_of(a), lower_of(b)) && chars_lt(lower_of(b), lower_of(a)) {
        lemma_chars_lt_transitive(lower_of(a), lower_of(b), lower_of(a));
    }
}

/// Two distinct families that occur are ordered one way or the other.
pub proof fn lemma_family_before_total(fonts: Seq<FontInfo>, a: Seq<char>, b: Seq<char>)
    requires
        a != b,
        first_index(fonts, a) >= 0,
        first_index(fonts, b) >= 0,
    ensures
        family_before(fonts, a, b) || family_before(fonts, b, a),
{
    lemma_family_indices(fonts, a);
    lemma_family_indices(fonts, b);
    if lower_of(a) != lower_of(b) {
        lemma_chars_lt_total(lower_of(a), lower_of(b));
    }
}


/// Some entry of `names` reads `name`.
pub open spec fn names_hold(names: Seq<String>, name: Seq<char>) -> bool {
    exists|g: int| 0 <= g < names.len() && (#[trigger] names[g])@ == name
}

fn weight_distance_of(w: u16) -> (r: u16)
    ensures
        r == weight_distance(w),
{
    if w >= 400 {
        w - 400
    } else {
        400 - w
    }
}

fn find_name(names: &Vec<String>, name: &String) -> (r: Option<usize>)
    ensures
        r matches Some(g) ==> g < names@.len() && names@[g as int]@ == name@,
        r is None ==> forall|g: int| 0 <= g < names@.len() ==> #[trigger] names@[g]@ != name@,
{
    let mut g: usize = 0;
    while g < names.len()
        invariant
            g <= names@.len(),
            forall|h: int| 0 <= h < g ==> #[trigger] names@[h]@ != name@,
        decreases names@.len() - g,
    {
        if names[g] == *name {
            return Some(g);
        }
        g += 1;
    }
    None
}

/// The distinct family names of `fonts` in order of first appearance, with
/// the member count, default member and first member of each.
fn group_fonts(fonts: &[FontInfo]) -> (r: (Vec<String>, Vec<usize>, Vec<usize>, Vec<usize>))
    ensures
        r.0@.len() == r.1@.len(),
        r.0@.len() == r.2@.len(),
        r.0@.len() == r.3@.len(),
        forall|g: int|
            0 <= g < r.0@.len() ==> {
                &&& r.1@[g] == family_size(fonts@, (#[trigger] r.0@[g])@)
                &&& r.2@[g] == default_index(fonts@, r.0@[g]@)
                &&& r.3@[g] == first_index(fonts@, r.0@[g]@)
            },
        forall|g: int, h: int|
            0 <= g < r.0@.len() && 0 <= h < r.0@.len() && g != h ==> (#[trigger] r.0@[g])@
                != (#[trigger] r.0@[h])@,
        forall|j: int|
            0 <= j < fonts@.len() ==> names_hold(r.0@, (#[trigger] fonts@[j]).css_font_family@),
{
    let mut names: Vec<String> = Vec::new();
    let mut counts: Vec<usize> = Vec::new();
    let mut best: Vec<usize> = Vec::new();
    let mut firsts: Vec<usize> = Vec::new();
    let mut j: usize = 0;
    while j < fonts.len()
        invariant
            j <= fonts@.len(),
            names@.len() == counts@.len(),
            names@.len() == best@.len(),
            names@.len() == firsts@.len(),
            forall|g: int|
                0 <= g < names@.len() ==> {
                    &&& counts@[g] == family_size(fonts@.subrange(0, j as int), (#[trigger] names@[g])@)
                    &&& best@[g] == default_index(fonts@.subrange(0, j as int), names@[g]@)
                    &&& firsts@[g] == first_index(fonts@.subrange(0, j as int), names@[g]@)
                    &&& best@[g] < j
                    &&& firsts@[g] < j
                },
            forall|g: int, h: int|
                0 <= g < names@.len() && 0 <= h < names@.len() && g != h ==> (#[trigger] names@[g])@
                    != (#[trigger] names@[h])@,
            forall|k: int|
                0 <= k < j ==> names_hold(names@, (#[trigger] fonts@[k]).css_font_family@),
        decreases fonts@.len() - j,
    {
        let ghost prefix = fonts@.subrange(0, j as int);
        let ghost next = fonts@.subrange(0, j + 1);
        let ghost old_names = names@;
        assert(next.drop_last() =~= prefix);
        assert(next.last() == fonts@[j as int]);
        let font = &fonts[j];
        let ghost mut witness: int = 0;
        match find_name(&names, &font.css_font_family) {
            Some(g) => {
                proof {
                    lemma_family_indices(prefix, names@[g as int]@);
                    witness = g as int;
                }
                let count = counts[g];
                counts.set(g, count + 1);
                let b = best[g];
                if weight_distance_of(font.weight) < weight_distance_of(fonts[b].weight) {
                    best.set(g, j);
                }
            },
            None => {
                proof {
                    lemma_family_indices(prefix, font.css_font_family@);
                    if first_index(prefix, font.css_font_family@) >= 0 {
                        let k = first_index(prefix, font.css_font_family@);
                        assert(prefix[k] == fonts@[k]);
                        let g = choose|g: int|
                            0 <= g < names@.len() && (#[trigger] names@[g])@ == fonts@[k].css_font_family@;
                        assert(names@[g]@ == font.css_font_family@);
                    }
                }
                names.push(font.css_font_family.clone());
                counts.push(1);
                best.push(j);
                firsts.push(j);
                proof {
                    witness = names@.len() - 1;
                }
            },
        }
        proof {
            assert forall|k: int| 0 <= k < j + 1 implies names_hold(names@, (#[trigger] fonts@[k]).css_font_family@) by {
                if k < j {
                    let g = choose|g: int|
                        0 <= g < old_names.len() && (#[trigger] old_names[g])@ == fonts@[k].css_font_family@;
                    assert(names@[g] == old_names[g]);
                    assert(names@[g]@ == fonts@[k].css_font_family@);
                } else {
                    assert(names@[witness]@ == fonts@[k].css_font_family@);
                    assert(0 <= witness < names@.len());
                }
            }
        }
        j += 1;
    }
    assert(fonts@.subrange(0, j as int) =~= fonts@);
    (names, counts, best, firsts)
}


/// Group `h` has a place in `order`.
pub open spec fn placed(order: Seq<usize>, h: int) -> bool {
    exists|p: int| 0 <= p < order.len() && order[p] == h
}

/// `order` lists groups in display order.
pub open spec fn in_display_order(fonts: Seq<FontInfo>, names: Seq<String>, order: Seq<usize>) -> bool {
    forall|p: int, q: int|
        0 <= p < q < order.len() ==> family_before(
            fonts,
            names[#[trigger] order[p] as int]@,
            names[#[trigger] order[q] as int]@,
        )
}

/// What the sort needs of the groups: lower-cased keys and first members.
pub open spec fn keyed_groups(
    fonts: Seq<FontInfo>,
    names: Seq<String>,
    keys: Seq<String>,
    firsts: Seq<usize>,
) -> bool {
    &&& keys.len() == names.len()
    &&& firsts.len() == names.len()
    &&& forall|g: int|
        0 <= g < names.len() ==> (#[trigger] keys[g])@ == lower_of(names[g]@) && firsts[g]
            == first_index(fonts, names[g]@)
    &&& forall|g: int, h: int|
        0 <= g < names.len() && 0 <= h < names.len() && g != h ==> (#[trigger] names[g])@
            != (#[trigger] names[h])@
}

fn group_before(
    keys: &Vec<String>,
    firsts: &Vec<usize>,
    x: usize,
    y: usize,
    Ghost(fonts): Ghost<Seq<FontInfo>>,
    Ghost(names): Ghost<Seq<String>>,
) -> (r: bool)
    requires
        keyed_groups(fonts, names, keys@, firsts@),
        x < names.len(),
        y < names.len(),
    ensures
        r == family_before(fonts, names[x as int]@, names[y as int]@),
{
    assert(keys@[x as int]@ == lower_of(names[x as int]@));
    assert(keys@[y as int]@ == lower_of(names[y as int]@));
    chars_less(keys[x].as_str(), keys[y].as_str()) || (str_eq(keys[x].as_str(), keys[y].as_str())
        && firsts[x] < firsts[y])
}

/// The groups, as indices, sorted into display order.
fn display_order(
    keys: &Vec<String>,
    firsts: &Vec<usize>,
    Ghost(fonts): Ghost<Seq<FontInfo>>,
    Ghost(names): Ghost<Seq<String>>,
) -> (order: Vec<usize>)
    requires
        keyed_groups(fonts, names, keys@, firsts@),
    ensures
        order@.len() == names.len(),
        forall|p: int| 0 <= p < order@.len() ==> #[trigger] order@[p] < names.len(),
        forall|h: int| 0 <= h < names.len() ==> #[trigger] placed(order@, h),
        in_display_order(fonts, names, order@),
{
    let n = keys.len();
    let mut order: Vec<usize> = Vec::new();
    let mut g: usize = 0;
    while g < n
        invariant
            n == names.len(),
            keyed_groups(fonts, names, keys@, firsts@),
            g <= n,
            order@.len() == g,
            forall|p: int| 0 <= p < order@.len() ==> #[trigger] order@[p] < g,
            forall|h: int| 0 <= h < g ==> #[trigger] placed(order@, h),
            in_display_order(fonts, names, order@),
        decreases n - g,
    {
        let mut pos: usize = 0;
        while pos < order.len() && !group_before(keys, firsts, g, order[pos], Ghost(fonts), Ghost(names))
            invariant
                n == names.len(),
                keyed_groups(fonts, names, keys@, firsts@),
                g < n,
                pos <= order@.len(),
                forall|p: int| 0 <= p < order@.len() ==> #[trigger] order@[p] < g,
                forall|p: int|
                    0 <= p < pos ==> !family_before(fonts, names[g as int]@, names[#[trigger] order@[p] as int]@),
            decreases order@.len() - pos,
        {
            pos += 1;
        }
        let ghost old_order = order@;
        assert(forall|h: int| 0 <= h < g ==> #[trigger] placed(old_order, h));
        order.insert(pos, g);
        proof {
            assert(order@ == old_order.insert(pos as int, g));
            let name_g = names[g as int]@;
            assert forall|p: int, q: int| 0 <= p < q < order@.len() implies family_before(
                fonts,
                names[#[trigger] order@[p] as int]@,
                names[#[trigger] order@[q] as int]@,
            ) by {
                let a = order@[p] as int;
                let b = order@[q] as int;
                if p == pos {
                    let c = old_order[pos as int] as int;
                    assert(family_before(fonts, name_g, names[c]@));
                    if q - 1 > pos {
                        assert(family_before(fonts, names[old_order[pos as int] as int]@, names[old_order[q - 1] as int]@));
                        lemma_family_before_strict(fonts, name_g, names[c]@, names[b]@);
                    }
                } else if q == pos {
                    assert(a == old_order[p]);
                    assert(!family_before(fonts, name_g, names[a]@));
                    assert(names[a]@ != name_g);
                    assert(keys@[a]@ == lower_of(names[a]@));
                    assert(keys@[g as int]@ == lower_of(name_g));
                    assert(firsts@[a] == first_index(fonts, names[a]@));
                    assert(firsts@[g as int] == first_index(fonts, name_g));
                    lemma_family_before_total(fonts, names[a]@, name_g);
                } else if p < pos && q > pos {
                    assert(a == old_order[p] && b == old_order[q - 1]);
                } else if p < pos {
                    assert(a == old_order[p] && b == old_order[q]);
                } else {
                    assert(a == old_order[p - 1] && b == old_order[q - 1]);
                }
            }
            assert forall|h: int| 0 <= h < g + 1 implies #[trigger] placed(order@, h) by {
                if h == g {
                    assert(order@[pos as int] == g);
                } else {
                    assert(placed(old_order, h));
                    let p = choose|p: int| 0 <= p < old_order.len() && old_order[p] == h;
                    if p < pos {
                        assert(order@[p] == h);
                    } else {
                        assert(order@[p + 1] == h);
                    }
                }
            }
        }
        g += 1;
    }
    order
}


/// The members of `name`, in input order.
pub open spec fn members(fonts: Seq<FontInfo>, name: Seq<char>) -> Seq<FontInfo>
    decreases fonts.len(),
{
    if fonts.len() == 0 {
        Seq::empty()
    } else if in_family(fonts.last(), name) {
        members(fonts.drop_last(), name).push(fonts.last())
    } else {
        members(fonts.drop_last(), name)
    }
}

/// The index of the first record whose weight is closest to 400, or -1 when
/// there is none.
pub open spec fn closest_to_regular(fonts: Seq<FontInfo>) -> int
    decreases fonts.len(),
{
    if fonts.len() == 0 {
        -1
    } else {
        let b = closest_to_regular(fonts.drop_last());
        if b < 0 || weight_distance(fonts.last().weight) < weight_distance(fonts[b].weight) {
            fonts.len() - 1
        } else {
            b
        }
    }
}

/// The fonts of one scan and the families derived from them.
#[derive(Clone, Debug)]
pub struct FontState {
    pub fonts: Vec<FontInfo>,
    pub css_font_families: Vec<CssFontFamily>,
}

impl FontState {
    /// The families are the aggregation of the fonts.
    pub open spec fn well_formed(&self) -> bool {
        is_aggregation(self.fonts@, self.css_font_families@)
    }

    /// The state of a scan that found `fonts`.
    pub fn new(fonts: Vec<FontInfo>) -> (r: Self)
        ensures
            r.fonts@ == fonts@,
            r.well_formed(),
    {
        let css_font_families = Self::aggregate_css_font_families(fonts.as_slice());
        FontState { fonts, css_font_families }
    }

    /// Groups `fonts` by CSS family name: one entry per name, with its member
    /// count and the id of the member whose weight is closest to 400 (the
    /// first such), sorted by lower-cased name.
    pub fn aggregate_css_font_families(fonts: &[FontInfo]) -> (r: Vec<CssFontFamily>)
        ensures
            is_aggregation(fonts@, r@),
    {
        let (names, counts, best, firsts) = group_fonts(fonts);
        let mut keys: Vec<String> = Vec::new();
        let mut g: usize = 0;
        while g < names.len()
            invariant
                g <= names@.len(),
                keys@.len() == g,
                forall|h: int| 0 <= h < g ==> (#[trigger] keys@[h])@ == lower_of(names@[h]@),
            decreases names@.len() - g,
        {
            keys.push(lowercase(names[g].as_str()));
            g += 1;
        }
        let order = display_order(&keys, &firsts, Ghost(fonts@), Ghost(names@));
        let mut out: Vec<CssFontFamily> = Vec::new();
        let mut p: usize = 0;
        while p < order.len()
            invariant
                p <= order@.len(),
                order@.len() == names@.len(),
                names@.len() == counts@.len(),
                names@.len() == best@.len(),
                names@.len() == firsts@.len(),
                forall|q: int| 0 <= q < order@.len() ==> #[trigger] order@[q] < names@.len(),
                forall|h: int|
                    0 <= h < names@.len() ==> {
                        &&& counts@[h] == family_size(fonts@, (#[trigger] names@[h])@)
                        &&& best@[h] == default_index(fonts@, names@[h]@)
                        &&& firsts@[h] == first_index(fonts@, names@[h]@)
                    },
                out@.len() == p,
                forall|q: int|
                    0 <= q < p ==> {
                        &&& (#[trigger] out@[q]).name@ == names@[order@[q] as int]@
                        &&& out@[q].font_count == counts@[order@[q] as int]
                        &&& out@[q].default_font_id@ == fonts@[best@[order@[q] as int] as int].id@
                    },
            decreases order@.len() - p,
        {
            let h = order[p];
            proof {
                lemma_family_indices(fonts@, names@[h as int]@);
            }
            let b = best[h];
            out.push(
                CssFontFamily {
                    name: names[h].clone(),
                    font_count: counts[h],
                    default_font_id: fonts[b].id.clone(),
                },
            );
            p += 1;
        }
        proof {
            assert forall|j: int| 0 <= j < fonts@.len() implies exists|i: int|
                0 <= i < out@.len() && #[trigger] out@[i].name@ == (#[trigger] fonts@[j]).css_font_family@ by {
                assert(names_hold(names@, fonts@[j].css_font_family@));
                let h = choose|h: int| 0 <= h < names@.len() && (#[trigger] names@[h])@ == fonts@[j].css_font_family@;
                assert(placed(order@, h));
                let i = choose|i: int| 0 <= i < order@.len() && order@[i] == h;
                assert(out@[i].name@ == names@[h]@);
            }
            assert forall|i: int, k: int| 0 <= i < k < out@.len() implies family_before(
                fonts@,
                #[trigger] out@[i].name@,
                #[trigger] out@[k].name@,
            ) by {
                assert(in_display_order(fonts@, names@, order@));
                assert(family_before(fonts@, names@[order@[i] as int]@, names@[order@[k] as int]@));
            }
            assert forall|i: int| 0 <= i < out@.len() implies first_index(fonts@, #[trigger] out@[i].name@) >= 0 by {
                assert(firsts@[order@[i] as int] == first_index(fonts@, names@[order@[i] as int]@));
            }
        }
        out
    }

    /// The id of the first of `fonts` whose weight is closest to 400; empty
    /// when there is none.
    pub fn find_default_font(fonts: &[FontInfo]) -> (r: String)
        ensures
            closest_to_regular(fonts@) < 0 ==> r@ == Seq::<char>::empty(),
            closest_to_regular(fonts@) >= 0 ==> r@ == fonts@[closest_to_regular(fonts@)].id@,
            fonts@.len() > 0 <==> closest_to_regular(fonts@) >= 0,
    {
        let mut best: Option<usize> = None;
        let mut j: usize = 0;
        while j < fonts.len()
            invariant
                j <= fonts@.len(),
                match best {
                    Some(b) => b < j && closest_to_regular(fonts@.subrange(0, j as int)) == b,
                    None => j == 0,
                },
                j == 0 ==> closest_to_regular(fonts@.subrange(0, j as int)) < 0,
            decreases fonts@.len() - j,
        {
            assert(fonts@.subrange(0, j + 1).drop_last() =~= fonts@.subrange(0, j as int));
            match best {
                Some(b) => {
                    if weight_distance_of(fonts[j].weight) < weight_distance_of(fonts[b].weight) {
                        best = Some(j);
                    }
                },
                None => {
                    best = Some(j);
                },
            }
            j += 1;
        }
        assert(fonts@.subrange(0, j as int) =~= fonts@);
        match best {
            Some(b) => fonts[b].id.clone(),
            None => String::new(),
        }
    }

    /// The first font with id `id`.
    pub fn get_font(&self, id: &str) -> (r: Option<&FontInfo>)
        ensures
            match r {
                Some(f) => exists|i: int|
                    0 <= i < self.fonts@.len() && *f == self.fonts@[i] && f.id@ == id@ && forall|k: int|
                        0 <= k < i ==> (#[trigger] self.fonts@[k]).id@ != id@,
                None => forall|i: int| 0 <= i < self.fonts@.len() ==> (#[trigger] self.fonts@[i]).id@ != id@,
            },
    {
        let mut i: usize = 0;
        while i < self.fonts.len()
            invariant
                i <= self.fonts@.len(),
                forall|k: int| 0 <= k < i ==> (#[trigger] self.fonts@[k]).id@ != id@,
            decreases self.fonts@.len() - i,
        {
            if str_eq(self.fonts[i].id.as_str(), id) {
                return Some(&self.fonts[i]);
            }
            i += 1;
        }
        None
    }

    /// The family named `name`.
    pub fn get_css_font_family(&self, name: &str) -> (r: Option<&CssFontFamily>)
        ensures
            match r {
                Some(f) => exists|i: int|
                    0 <= i < self.css_font_families@.len() && *f == self.css_font_families@[i]
                        && f.name@ == name@ && forall|k: int|
                        0 <= k < i ==> (#[trigger] self.css_font_families@[k]).name@ != name@,
                None => forall|i: int|
                    0 <= i < self.css_font_families@.len() ==> (
                    #[trigger] self.css_font_families@[i]).name@ != name@,
            },
    {
        let mut i: usize = 0;
        while i < self.css_font_families.len()
            invariant
                i <= self.css_font_families@.len(),
                forall|k: int| 0 <= k < i ==> (#[trigger] self.css_font_families@[k]).name@ != name@,
            decreases self.css_font_families@.len() - i,
        {
            if str_eq(self.css_font_families[i].name.as_str(), name) {
                return Some(&self.css_font_families[i]);
            }
            i += 1;
        }
        None
    }

    /// The fonts of the family `family_name`, in scan order.
    pub fn get_fonts_by_css_family(&self, family_name: &str) -> (r: Vec<&FontInfo>)
        ensures
            r@.len() == members(self.fonts@, family_name@).len(),
            forall|i: int| 0 <= i < r@.len() ==> *r@[i] == members(self.fonts@, family_name@)[i],
    {
        let mut r: Vec<&FontInfo> = Vec::new();
        let mut j: usize = 0;
        while j < self.fonts.len()
            invariant
                j <= self.fonts@.len(),
                r@.len() == members(self.fonts@.subrange(0, j as int), family_name@).len(),
                forall|i: int|
                    0 <= i < r@.len() ==> *r@[i] == members(self.fonts@.subrange(0, j as int), family_name@)[i],
            decreases self.fonts@.len() - j,
        {
            assert(self.fonts@.subrange(0, j + 1).drop_last() =~= self.fonts@.subrange(0, j as int));
            let f = &self.fonts[j];
            if str_eq(f.css_font_family.as_str(), family_name) {
                r.push(f);
            }
            j += 1;
        }
        assert(self.fonts@.subrange(0, j as int) =~= self.fonts@);
        r
    }

    /// The number of fonts.
    pub fn font_count(&self) -> (r: usize)
        ensures
            r == self.fonts@.len(),
    {
        self.fonts.len()
    }

    /// The number of families.
    pub fn css_font_family_count(&self) -> (r: usize)
        ensures
            r == self.css_font_families@.len(),
    {
        self.css_font_families.len()
    }
}

impl Default for FontState {
    fn default() -> (r: Self)
        ensures
            r.fonts@.len() == 0,
            r.css_font_families@.len() == 0,
            r.well_formed(),
    {
        FontState { fonts: Vec::new(), css_font_families: Vec::new() }
    }
}


/// Every family of an aggregation counts exactly the records that carry its
/// name, and its default id is the id of one of those records.
pub proof fn lemma_family_groups_consistent(fonts: Seq<FontInfo>, fams: Seq<CssFontFamily>)
    requires
        is_aggregation(fonts, fams),
    ensures
        forall|i: int|
            0 <= i < fams.len() ==> (#[trigger] fams[i]).font_count == family_size(fonts, fams[i].name@)
                && family_size(fonts, fams[i].name@) == members(fonts, fams[i].name@).len(),
        forall|i: int|
            0 <= i < fams.len() ==> exists|j: int|
                0 <= j < fonts.len() && (#[trigger] fonts[j]).css_font_family@ == (#[trigger] fams[i]).name@
                    && fonts[j].id@ == fams[i].default_font_id@,
{
    assert forall|i: int| 0 <= i < fams.len() implies (#[trigger] fams[i]).font_count == family_size(fonts, fams[i].name@)
        && family_size(fonts, fams[i].name@) == members(fonts, fams[i].name@).len() by {
        lemma_members_counted(fonts, fams[i].name@);
    }
    assert forall|i: int| 0 <= i < fams.len() implies exists|j: int|
        0 <= j < fonts.len() && (#[trigger] fonts[j]).css_font_family@ == (#[trigger] fams[i]).name@
            && fonts[j].id@ == fams[i].default_font_id@ by {
        lemma_family_indices(fonts, fams[i].name@);
        let j = default_index(fonts, fams[i].name@);
        assert(fonts[j].css_font_family@ == fams[i].name@);
    }
}

/// `members` has one entry per record that carries the name.
pub proof fn lemma_members_counted(fonts: Seq<FontInfo>, name: Seq<char>)
    ensures
        family_size(fonts, name) == members(fonts, name).len(),
    decreases fonts.len(),
{
    if fonts.len() > 0 {
        lemma_members_counted(fonts.drop_last(), name);
    }
}

proof fn lemma_aggregation_names_distinct(fonts: Seq<FontInfo>, a: Seq<CssFontFamily>, i: int, k: int)
    requires
        is_aggregation(fonts, a),
        0 <= i < a.len(),
        0 <= k < a.len(),
        i != k,
    ensures
        a[i].name@ != a[k].name@,
{
    let x = a[i].name@;
    lemma_family_before_strict(fonts, x, x, x);
    if i < k {
        assert(family_before(fonts, a[i].name@, a[k].name@));
    } else {
        assert(family_before(fonts, a[k].name@, a[i].name@));
    }
}

proof fn lemma_aggregation_name_found(fonts: Seq<FontInfo>, a: Seq<CssFontFamily>, b: Seq<CssFontFamily>, i: int) -> (p: int)
    requires
        is_aggregation(fonts, a),
        is_aggregation(fonts, b),
        0 <= i < a.len(),
    ensures
        0 <= p < b.len(),
        b[p].name@ == a[i].name@,
{
    lemma_family_indices(fonts, a[i].name@);
    let j = first_index(fonts, a[i].name@);
    assert(first_index(fonts, a[i].name@) >= 0);
    assert(fonts[j].css_font_family@ == a[i].name@);
    let p = choose|p: int| 0 <= p < b.len() && #[trigger] b[p].name@ == fonts[j].css_font_family@;
    p
}

proof fn lemma_aggregation_prefix(fonts: Seq<FontInfo>, a: Seq<CssFontFamily>, b: Seq<CssFontFamily>, n: int)
    requires
        is_aggregation(fonts, a),
        is_aggregation(fonts, b),
        0 <= n <= a.len(),
        n <= b.len(),
    ensures
        forall|k: int| 0 <= k < n ==> (#[trigger] a[k]).name@ == b[k].name@,
    decreases n,
{
    if n > 0 {
        let i = n - 1;
        lemma_aggregation_prefix(fonts, a, b, i);
        let x = a[i].name@;
        let y = b[i].name@;
        let p = lemma_aggregation_name_found(fonts, a, b, i);
        let q = lemma_aggregation_name_found(fonts, b, a, i);
        if p < i {
            assert(a[p].name@ == b[p].name@);
            lemma_aggregation_names_distinct(fonts, a, p, i);
        }
        if q < i {
            assert(a[q].name@ == b[q].name@);
            lemma_aggregation_names_distinct(fonts, b, q, i);
        }
        if p > i && q > i {
            assert(family_before(fonts, b[i].name@, b[p].name@));
            assert(family_before(fonts, a[i].name@, a[q].name@));
            lemma_family_before_strict(fonts, x, y, x);
        }
    }
}

/// Aggregation is determined by its input: two aggregations of the same
/// records are identical, order included, so re-running it on an unchanged
/// set gives the same families.
pub proof fn lemma_aggregation_unique(fonts: Seq<FontInfo>, a: Seq<CssFontFamily>, b: Seq<CssFontFamily>)
    requires
        is_aggregation(fonts, a),
        is_aggregation(fonts, b),
    ensures
        family_views(a) == family_views(b),
{
    if a.len() > b.len() {
        lemma_aggregation_prefix(fonts, a, b, b.len() as int);
        let p = lemma_aggregation_name_found(fonts, a, b, b.len() as int);
        assert(a[p].name@ == b[p].name@);
        lemma_aggregation_names_distinct(fonts, a, p, b.len() as int);
    }
    if b.len() > a.len() {
        lemma_aggregation_prefix(fonts, b, a, a.len() as int);
        let p = lemma_aggregation_name_found(fonts, b, a, a.len() as int);
        assert(b[p].name@ == a[p].name@);
        lemma_aggregation_names_distinct(fonts, b, p, a.len() as int);
    }
    lemma_aggregation_prefix(fonts, a, b, a.len() as int);
    assert forall|k: int| 0 <= k < a.len() implies family_views(a)[k] == family_views(b)[k] by {
        assert(a[k].name@ == b[k].name@);
    }
    assert(family_views(a) =~= family_views(b));
}

} // verus!
