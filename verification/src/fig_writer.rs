//! The choices the LaTeX figure writer makes: which points of a contour it
//! keeps, how it draws a cut, and how it splits a path into pieces.
use vstd::prelude::*;

use crate::components::{Component, CutType, UBranch};

verus! {

// ---------------------------------------------------------------------------
// Cropping a contour

/// Point `j` of a contour with `pairs.len() + 1` points is kept when one of
/// the two segments that touch it is kept; `pairs[i]` says whether the
/// segment from point `i` to point `i + 1` is.
pub open spec fn crop_keeps(pairs: Seq<bool>, j: int) -> bool {
    (0 < j <= pairs.len() && pairs[j - 1]) || (0 <= j < pairs.len() && pairs[j])
}

/// `kept` lists, in increasing order, exactly the points that cropping
/// keeps of a contour whose segments are included as `pairs` says.
pub open spec fn crops_to(pairs: Seq<bool>, kept: Seq<usize>) -> bool {
    &&& forall|k: int|
        0 <= k < kept.len() ==> kept[k] <= pairs.len() && crop_keeps(pairs, #[trigger] kept[k] as int)
    &&& forall|k1: int, k2: int| 0 <= k1 < k2 < kept.len() ==> kept[k1] < kept[k2]
    &&& forall|j: int| 0 <= j <= pairs.len() && crop_keeps(pairs, j) ==> kept.contains(j as usize)
}

/// The indices of the points that cropping keeps, in order.  A contour of
/// fewer than two points has no segment, and nothing of it is kept.
pub fn crop_indices(pairs: &Vec<bool>) -> (r: Vec<usize>)
    requires
        pairs.len() < usize::MAX,
    ensures
        crops_to(pairs@, r@),
{
    let mut r: Vec<usize> = Vec::new();
    if pairs.len() == 0 {
        return r;
    }
    let n = pairs.len();
    let mut j: usize = 0;
    while j <= n
        invariant
            n == pairs.len(),
            n < usize::MAX,
            j <= n + 1,
            forall|k: int| 0 <= k < r.len() ==> r[k] < j && crop_keeps(pairs@, r[k] as int),
            forall|k1: int, k2: int| 0 <= k1 < k2 < r.len() ==> r[k1] < r[k2],
            forall|i: int| 0 <= i < j && crop_keeps(pairs@, i) ==> r@.contains(i as usize),
        decreases n + 1 - j,
    {
        let ghost old_r = r@;
        let keep = (j > 0 && pairs[j - 1]) || (j < n && pairs[j]);
        assert(keep == crop_keeps(pairs@, j as int));
        if keep {
            r.push(j);
            assert(r@[r.len() - 1] == j);
        }
        assert forall|i: int| 0 <= i < j + 1 && crop_keeps(pairs@, i) implies r@.contains(
            i as usize,
        ) by {
            if i == j {
                assert(r@[r.len() - 1] == j);
            } else {
                assert(old_r.contains(i as usize));
                let k = choose|k: int| 0 <= k < old_r.len() && old_r[k] == i as usize;
                assert(r@[k] == i as usize);
            }
        }
        j = j + 1;
    }
    r
}

proof fn lemma_crop_index_at_least(pairs: Seq<bool>, kept: Seq<usize>, k: int)
    requires
        crops_to(pairs, kept),
        0 <= k < kept.len(),
    ensures
        kept[k] >= k,
    decreases k,
{
    if k > 0 {
        lemma_crop_index_at_least(pairs, kept, k - 1);
        assert(kept[k - 1] < kept[k]);
    }
}

proof fn lemma_crop_keeps_every_point(pairs: Seq<bool>, kept: Seq<usize>)
    requires
        pairs.len() < usize::MAX,
        crops_to(pairs, kept),
        forall|j: int| 0 <= j <= pairs.len() ==> crop_keeps(pairs, j),
    ensures
        kept.len() == pairs.len() + 1,
        forall|k: int| 0 <= k < kept.len() ==> #[trigger] kept[k] == k,
{
    assert forall|k: int| 0 <= k <= pairs.len() implies k < kept.len() && #[trigger] kept[k] == k by {
        lemma_crop_position(pairs, kept, k);
    }
    lemma_crop_position(pairs, kept, pairs.len() as int);
    if kept.len() > pairs.len() + 1 {
        let n = pairs.len() as int;
        lemma_crop_index_at_least(pairs, kept, n + 1);
        assert(kept[n + 1] <= pairs.len());
    }
}

proof fn lemma_crop_position(pairs: Seq<bool>, kept: Seq<usize>, k: int)
    requires
        pairs.len() < usize::MAX,
        crops_to(pairs, kept),
        forall|j: int| 0 <= j <= pairs.len() ==> crop_keeps(pairs, j),
        0 <= k <= pairs.len(),
    ensures
        k < kept.len(),
        kept[k] == k,
    decreases k,
{
    if k > 0 {
        lemma_crop_position(pairs, kept, k - 1);
    }
    assert(crop_keeps(pairs, k));
    assert(kept.contains(k as usize));
    let m = choose|m: int| 0 <= m < kept.len() && kept[m] == k as usize;
    lemma_crop_index_at_least(pairs, kept, m);
    if m < k {
        lemma_crop_position(pairs, kept, m);
    }
}

/// A contour all of whose segments are included is kept whole.
pub proof fn lemma_crop_keeps_included_contour(pairs: Seq<bool>, kept: Seq<usize>)
    requires
        pairs.len() < usize::MAX,
        crops_to(pairs, kept),
        pairs.len() >= 1,
        forall|i: int| 0 <= i < pairs.len() ==> #[trigger] pairs[i],
    ensures
        kept.len() == pairs.len() + 1,
        forall|k: int| 0 <= k < kept.len() ==> #[trigger] kept[k] == k,
{
    assert forall|j: int| 0 <= j <= pairs.len() implies crop_keeps(pairs, j) by {
        if j < pairs.len() {
            assert(pairs[j]);
        } else {
            assert(pairs[j - 1]);
        }
    }
    lemma_crop_keeps_every_point(pairs, kept);
}

/// Cropping keeps at most the points of the contour, and never exactly one:
/// a point is kept only together with a neighbour.
pub proof fn lemma_crop_never_keeps_one_point(pairs: Seq<bool>, kept: Seq<usize>)
    requires
        pairs.len() < usize::MAX,
        crops_to(pairs, kept),
    ensures
        kept.len() <= pairs.len() + 1,
        kept.len() != 1,
{
    if kept.len() > pairs.len() + 1 {
        let n = pairs.len() as int;
        lemma_crop_index_at_least(pairs, kept, n + 1);
        assert(kept[n + 1] <= pairs.len());
    }
    if kept.len() == 1 {
        let j = kept[0] as int;
        assert(crop_keeps(pairs, j));
        if 0 < j && pairs[j - 1] {
            assert(crop_keeps(pairs, j - 1));
            assert(kept.contains((j - 1) as usize));
            let m = choose|m: int| 0 <= m < kept.len() && kept[m] == (j - 1) as usize;
            assert(m == 0);
        } else {
            assert(crop_keeps(pairs, j + 1));
            assert(kept.contains((j + 1) as usize));
            let m = choose|m: int| 0 <= m < kept.len() && kept[m] == (j + 1) as usize;
            assert(m == 0);
        }
    }
}

/// Cropping a cropped contour again keeps all of it.  `again` says which
/// segments of the cropped contour are included; a segment that joins two
/// points that were neighbours in the contour is the same segment as
/// before, and is judged as it was.
pub proof fn lemma_crop_idempotent(
    pairs: Seq<bool>,
    kept: Seq<usize>,
    again: Seq<bool>,
    kept_again: Seq<usize>,
)
    requires
        pairs.len() < usize::MAX,
        crops_to(pairs, kept),
        kept.len() > 0,
        again.len() + 1 == kept.len(),
        forall|k: int|
            0 <= k < again.len() && kept[k] + 1 == kept[k + 1] ==> #[trigger] again[k]
                == pairs[kept[k] as int],
        crops_to(again, kept_again),
    ensures
        kept_again.len() == kept.len(),
        forall|k: int| 0 <= k < kept_again.len() ==> #[trigger] kept_again[k] == k,
{
    assert forall|k: int| 0 <= k <= again.len() implies crop_keeps(again, k) by {
        let p = kept[k] as int;
        assert(crop_keeps(pairs, p));
        if 0 < p && pairs[p - 1] {
            assert(crop_keeps(pairs, p - 1));
            assert(kept.contains((p - 1) as usize));
            let m = choose|m: int| 0 <= m < kept.len() && kept[m] == (p - 1) as usize;
            if m >= k {
                if m > k {
                    assert(kept[k] < kept[m]);
                }
            }
            assert(m < k);
            if m < k - 1 {
                assert(kept[m] < kept[k - 1]);
                assert(kept[k - 1] < kept[k]);
            }
            assert(m == k - 1);
            assert(again[k - 1] == pairs[kept[k - 1] as int]);
        } else {
            assert(p < pairs.len() && pairs[p]);
            assert(crop_keeps(pairs, p + 1));
            assert(kept.contains((p + 1) as usize));
            let m = choose|m: int| 0 <= m < kept.len() && kept[m] == (p + 1) as usize;
            if m <= k {
                if m < k {
                    assert(kept[m] < kept[k]);
                }
            }
            assert(m > k);
            if m > k + 1 {
                assert(kept[k] < kept[k + 1]);
                assert(kept[k + 1] < kept[m]);
            }
            assert(m == k + 1);
            assert(again[k] == pairs[kept[k] as int]);
        }
    }
    lemma_crop_never_keeps_one_point(pairs, kept);
    lemma_crop_keeps_every_point(again, kept_again);
}

/// The segments of a contour, each judged by `passes` on its two end
/// points: what a figure computes before it crops.  A contour of fewer than
/// two points has no segment.
pub open spec fn crop_pairs<P>(contour: Seq<P>, passes: spec_fn(P, P) -> bool) -> Seq<bool> {
    if contour.len() < 2 {
        Seq::empty()
    } else {
        Seq::new((contour.len() - 1) as nat, |i: int| passes(contour[i], contour[i + 1]))
    }
}

/// The points of `contour` at the indices `kept`.
pub open spec fn points_at<P>(contour: Seq<P>, kept: Seq<usize>) -> Seq<P> {
    kept.map_values(|k: usize| contour[k as int])
}

/// A contour whose every segment passes the test is kept whole.
pub proof fn lemma_crop_keeps_contour_whose_segments_pass<P>(
    contour: Seq<P>,
    passes: spec_fn(P, P) -> bool,
    kept: Seq<usize>,
)
    requires
        2 <= contour.len() <= usize::MAX,
        forall|i: int| 0 <= i < contour.len() - 1 ==> #[trigger] passes(contour[i], contour[i + 1]),
        crops_to(crop_pairs(contour, passes), kept),
    ensures
        points_at(contour, kept) == contour,
{
    let pairs = crop_pairs(contour, passes);
    assert forall|i: int| 0 <= i < pairs.len() implies #[trigger] pairs[i] by {
        assert(passes(contour[i], contour[i + 1]));
    }
    lemma_crop_keeps_included_contour(pairs, kept);
    assert(points_at(contour, kept) =~= contour);
}

/// Cropping is idempotent: cropping the cropped contour again, with the same
/// test, gives it back unchanged.
pub proof fn lemma_crop_twice<P>(
    contour: Seq<P>,
    passes: spec_fn(P, P) -> bool,
    kept: Seq<usize>,
    kept_again: Seq<usize>,
)
    requires
        contour.len() <= usize::MAX,
        crops_to(crop_pairs(contour, passes), kept),
        crops_to(crop_pairs(points_at(contour, kept), passes), kept_again),
    ensures
        points_at(points_at(contour, kept), kept_again) == points_at(contour, kept),
{
    let pairs = crop_pairs(contour, passes);
    let cropped = points_at(contour, kept);
    let again = crop_pairs(cropped, passes);
    lemma_crop_never_keeps_one_point(pairs, kept);
    if kept.len() == 0 {
        if kept_again.len() > 0 {
            assert(crop_keeps(again, kept_again[0] as int));
        }
        assert(points_at(cropped, kept_again) =~= cropped);
    } else {
        assert(again.len() + 1 == kept.len());
        assert forall|k: int|
            0 <= k < again.len() && kept[k] + 1 == kept[k + 1] implies #[trigger] again[k]
            == pairs[kept[k] as int] by {
            assert(kept[k + 1] <= pairs.len());
            assert(cropped[k] == contour[kept[k] as int]);
            assert(cropped[k + 1] == contour[kept[k] + 1]);
        }
        lemma_crop_idempotent(pairs, kept, again, kept_again);
        assert(points_at(cropped, kept_again) =~= cropped);
    }
}

// ---------------------------------------------------------------------------
// Removing repeated coordinates

/// `s` with every run of equal neighbours reduced to one element, as
/// `Vec::dedup` does.
pub open spec fn dedup_spec<A>(s: Seq<A>) -> Seq<A>
    decreases s.len(),
{
    if s.len() == 0 {
        s
    } else {
        let d = dedup_spec(s.drop_last());
        if d.len() > 0 && d.last() == s.last() {
            d
        } else {
            d.push(s.last())
        }
    }
}

/// The texts of a sequence of strings.
pub open spec fn texts(v: Seq<String>) -> Seq<Seq<char>> {
    v.map_values(|s: String| s@)
}

/// The formatted coordinates of a contour without consecutive repeats.
pub fn dedup_coordinates(coordinates: Vec<String>) -> (r: Vec<String>)
    ensures
        texts(r@) == dedup_spec(texts(coordinates@)),
{
    let mut r: Vec<String> = Vec::new();
    let mut i: usize = 0;
    while i < coordinates.len()
        invariant
            i <= coordinates.len(),
            texts(r@) == dedup_spec(texts(coordinates@).take(i as int)),
        decreases coordinates.len() - i,
    {
        let ghost before = texts(coordinates@).take(i as int);
        let ghost after = texts(coordinates@).take(i + 1);
        assert(after.drop_last() == before);
        assert(after.last() == coordinates@[i as int]@);
        let c = coordinates[i].clone();
        let repeat = r.len() > 0 && r[r.len() - 1] == c;
        if !repeat {
            r.push(c);
            assert(texts(r@) == texts(r@).drop_last().push(c@));
        }
        assert(texts(r@) == dedup_spec(after));
        i = i + 1;
    }
    assert(texts(coordinates@).take(coordinates.len() as int) == texts(coordinates@));
    r
}

/// No two neighbours of `s` are equal.
pub open spec fn no_repeats<A>(s: Seq<A>) -> bool {
    forall|i: int| 0 <= i < s.len() - 1 ==> #[trigger] s[i] != s[i + 1]
}

/// After removing repeats no two neighbours are equal.
pub proof fn lemma_dedup_has_no_repeats<A>(s: Seq<A>)
    ensures
        no_repeats(dedup_spec(s)),
    decreases s.len(),
{
    if s.len() > 0 {
        lemma_dedup_has_no_repeats(s.drop_last());
        let d = dedup_spec(s.drop_last());
        assert forall|i: int| 0 <= i < dedup_spec(s).len() - 1 implies #[trigger] dedup_spec(s)[i]
            != dedup_spec(s)[i + 1] by {
            if i < d.len() - 1 {
                assert(d[i] != d[i + 1]);
            }
        }
    }
}

/// A sequence without equal neighbours is left as it is.
pub proof fn lemma_dedup_keeps_sequence_without_repeats<A>(s: Seq<A>)
    requires
        no_repeats(s),
    ensures
        dedup_spec(s) == s,
    decreases s.len(),
{
    if s.len() > 0 {
        let t = s.drop_last();
        assert forall|i: int| 0 <= i < t.len() - 1 implies #[trigger] t[i] != t[i + 1] by {
            assert(s[i] != s[i + 1]);
        }
        lemma_dedup_keeps_sequence_without_repeats(t);
        if t.len() > 0 {
            assert(s[t.len() - 1] != s[t.len() as int]);
        }
        assert(t.push(s.last()) == s);
    }
}

/// Removing repeats twice removes no more than removing them once.
pub proof fn lemma_dedup_idempotent<A>(s: Seq<A>)
    ensures
        dedup_spec(dedup_spec(s)) == dedup_spec(s),
{
    lemma_dedup_has_no_repeats(s);
    lemma_dedup_keeps_sequence_without_repeats(dedup_spec(s));
}

// ---------------------------------------------------------------------------
// Drawing cuts

/// The colour in which a figure draws a cut.
#[derive(Debug, Clone, Copy, PartialEq, Eq, Structural)]
pub enum CutColor {
    Black,
    Red,
    Green,
}

/// How a figure draws the line of a cut.
#[derive(Debug, Clone, Copy, PartialEq, Eq, Structural)]
pub enum CutStroke {
    Straight,
    Dashed,
    Zigzag,
}

impl CutColor {
    pub open spec fn spec_tikz(self) -> Seq<char> {
        match self {
            CutColor::Black => "black"@,
            CutColor::Red => "Red"@,
            CutColor::Green => "Green"@,
        }
    }

    /// The name of the colour in TikZ.
    pub fn tikz(&self) -> (r: String)
        ensures
            r@ == self.spec_tikz(),
    {
        match self {
            CutColor::Black => "black".to_owned(),
            CutColor::Red => "Red".to_owned(),
            CutColor::Green => "Green".to_owned(),
        }
    }
}

impl CutStroke {
    pub open spec fn spec_tikz(self) -> Seq<char> {
        match self {
            CutStroke::Straight => "very thick"@,
            CutStroke::Dashed => "very thick,densely dashed"@,
            CutStroke::Zigzag => "decorate,decoration={zigzag, segment length=1.2mm, amplitude=0.15mm},thick"@,
        }
    }

    /// The TikZ options of the stroke.
    pub fn tikz(&self) -> (r: String)
        ensures
            r@ == self.spec_tikz(),
    {
        match self {
            CutStroke::Straight => "very thick".to_owned(),
            CutStroke::Dashed => "very thick,densely dashed".to_owned(),
            CutStroke::Zigzag => "decorate,decoration={zigzag, segment length=1.2mm, amplitude=0.15mm},thick".to_owned(),
        }
    }
}

/// How a figure draws a cut of type `typ`; `None` for the cuts it leaves
/// out.
pub open spec fn spec_cut_style(typ: CutType) -> Option<(CutColor, CutStroke)> {
    match typ {
        CutType::E => Some((CutColor::Black, CutStroke::Straight)),
        CutType::Log(Component::Xp) => Some((CutColor::Red, CutStroke::Zigzag)),
        CutType::Log(Component::Xm) => Some((CutColor::Green, CutStroke::Zigzag)),
        CutType::ULongPositive(Component::Xp) => Some((CutColor::Red, CutStroke::Straight)),
        CutType::ULongNegative(Component::Xp) => Some((CutColor::Red, CutStroke::Dashed)),
        CutType::ULongPositive(Component::Xm) => Some((CutColor::Green, CutStroke::Straight)),
        CutType::ULongNegative(Component::Xm) => Some((CutColor::Green, CutStroke::Dashed)),
        CutType::UShortScallion(Component::Xp) => Some((CutColor::Red, CutStroke::Straight)),
        CutType::UShortKidney(Component::Xp) => Some((CutColor::Red, CutStroke::Dashed)),
        CutType::UShortScallion(Component::Xm) => Some((CutColor::Green, CutStroke::Straight)),
        CutType::UShortKidney(Component::Xm) => Some((CutColor::Green, CutStroke::Dashed)),
        _ => None,
    }
}

pub fn cut_style(typ: CutType) -> (r: Option<(CutColor, CutStroke)>)
    ensures
        r == spec_cut_style(typ),
{
    match typ {
        CutType::E => Some((CutColor::Black, CutStroke::Straight)),
        CutType::Log(Component::Xp) => Some((CutColor::Red, CutStroke::Zigzag)),
        CutType::Log(Component::Xm) => Some((CutColor::Green, CutStroke::Zigzag)),
        CutType::ULongPositive(Component::Xp) => Some((CutColor::Red, CutStroke::Straight)),
        CutType::ULongNegative(Component::Xp) => Some((CutColor::Red, CutStroke::Dashed)),
        CutType::ULongPositive(Component::Xm) => Some((CutColor::Green, CutStroke::Straight)),
        CutType::ULongNegative(Component::Xm) => Some((CutColor::Green, CutStroke::Dashed)),
        CutType::UShortScallion(Component::Xp) => Some((CutColor::Red, CutStroke::Straight)),
        CutType::UShortKidney(Component::Xp) => Some((CutColor::Red, CutStroke::Dashed)),
        CutType::UShortScallion(Component::Xm) => Some((CutColor::Green, CutStroke::Straight)),
        CutType::UShortKidney(Component::Xm) => Some((CutColor::Green, CutStroke::Dashed)),
        _ => None,
    }
}

/// The colour of a cut in a figure is that of the variable it belongs to:
/// red for `x⁺`, green for `x⁻`.  Log cuts are drawn as zigzags, the long
/// negative and the short kidney cuts dashed, the others straight.
pub proof fn lemma_cut_style_follows_its_variable(comp: Component)
    requires
        comp == Component::Xp || comp == Component::Xm,
    ensures
        ({
            let colour = if comp == Component::Xp {
                CutColor::Red
            } else {
                CutColor::Green
            };
            &&& spec_cut_style(CutType::Log(comp)) == Some((colour, CutStroke::Zigzag))
            &&& spec_cut_style(CutType::ULongPositive(comp)) == Some((colour, CutStroke::Straight))
            &&& spec_cut_style(CutType::ULongNegative(comp)) == Some((colour, CutStroke::Dashed))
            &&& spec_cut_style(CutType::UShortScallion(comp)) == Some(
                (colour, CutStroke::Straight),
            )
            &&& spec_cut_style(CutType::UShortKidney(comp)) == Some((colour, CutStroke::Dashed))
        }),
{
}

/// The cut of the energy is black and straight; cuts that belong to `p` or
/// `u`, and the debug path, are not drawn in figures.
pub proof fn lemma_cut_style_of_other_cuts(comp: Component)
    requires
        comp == Component::P || comp == Component::U,
    ensures
        spec_cut_style(CutType::E) == Some((CutColor::Black, CutStroke::Straight)),
        spec_cut_style(CutType::DebugPath) is None,
        spec_cut_style(CutType::Log(comp)) is None,
        spec_cut_style(CutType::ULongPositive(comp)) is None,
        spec_cut_style(CutType::ULongNegative(comp)) is None,
        spec_cut_style(CutType::UShortScallion(comp)) is None,
        spec_cut_style(CutType::UShortKidney(comp)) is None,
{
}

/// Whether a figure of a state shows a cut of type `typ` that lives in the
/// plane of `cut_component`; `u_branch` is the branch of the first point of
/// the state, seen from `x⁻` and from `x⁺`.
pub open spec fn spec_cut_in_figure(
    typ: CutType,
    cut_component: Component,
    u_branch: (UBranch, UBranch),
) -> bool {
    match typ {
        CutType::Log(comp) | CutType::ULongPositive(comp) => (comp == Component::Xp
            && cut_component == Component::Xp && u_branch.1 != UBranch::Between) || (comp
            == Component::Xm && cut_component == Component::Xm && u_branch.0 != UBranch::Between),
        CutType::ULongNegative(_) => false,
        CutType::UShortScallion(_) | CutType::UShortKidney(_) => true,
        CutType::E => true,
        CutType::DebugPath => false,
    }
}

pub fn cut_in_figure(typ: CutType, cut_component: Component, u_branch: (UBranch, UBranch)) -> (r:
    bool)
    ensures
        r == spec_cut_in_figure(typ, cut_component, u_branch),
{
    match typ {
        CutType::Log(comp) | CutType::ULongPositive(comp) => (comp == Component::Xp
            && cut_component == Component::Xp && u_branch.1 != UBranch::Between) || (comp
            == Component::Xm && cut_component == Component::Xm && u_branch.0 != UBranch::Between),
        CutType::ULongNegative(_) => false,
        CutType::UShortScallion(_) | CutType::UShortKidney(_) => true,
        CutType::E => true,
        CutType::DebugPath => false,
    }
}

/// The plots that draw one copy of a cut, each given by its TikZ options.
#[derive(Debug, Clone)]
pub struct CutLayers {
    /// A light grey band drawn first, under a dashed cut.
    pub underlay: Option<Vec<String>>,
    /// The line of the cut.
    pub line: Vec<String>,
    /// The mark of the branch point, where the cut has one.
    pub marks: Vec<String>,
}

/// The mark size of branch points: smaller on figures drawn `semithick`.
pub open spec fn spec_mark_size(options: Seq<Seq<char>>) -> Seq<char> {
    if options.contains("semithick"@) {
        "mark size=0.03cm"@
    } else {
        "mark size=0.05cm"@
    }
}

/// The option lists of the plots of a cut of type `typ`, each followed by the
/// figure's `options`; `None` for the cuts a figure leaves out.
pub open spec fn spec_cut_layers(typ: CutType, options: Seq<Seq<char>>) -> Option<
    (Option<Seq<Seq<char>>>, Seq<Seq<char>>, Seq<Seq<char>>),
> {
    match spec_cut_style(typ) {
        None => None,
        Some((color, stroke)) => Some(
            (
                if stroke == CutStroke::Dashed {
                    Some(seq!["lightgray"@, "very thick"@] + options)
                } else {
                    None
                },
                seq![color.spec_tikz(), stroke.spec_tikz()] + options,
                seq![color.spec_tikz(), "only marks"@, spec_mark_size(options)] + options,
            ),
        ),
    }
}

/// The texts of cut layers.
pub open spec fn cut_layers_view(layers: Option<CutLayers>) -> Option<
    (Option<Seq<Seq<char>>>, Seq<Seq<char>>, Seq<Seq<char>>),
> {
    match layers {
        None => None,
        Some(l) => Some(
            (
                match l.underlay {
                    Some(u) => Some(texts(u@)),
                    None => None,
                },
                texts(l.line@),
                texts(l.marks@),
            ),
        ),
    }
}

/// The strings of `prefix` followed by `options`.
fn with_options(prefix: Vec<String>, options: &Vec<String>) -> (r: Vec<String>)
    ensures
        texts(r@) == texts(prefix@) + texts(options@),
{
    let mut r = prefix;
    let ghost start = texts(r@);
    let mut i: usize = 0;
    while i < options.len()
        invariant
            i <= options.len(),
            texts(r@) == start + texts(options@).take(i as int),
        decreases options.len() - i,
    {
        assert(texts(options@).take(i + 1) == texts(options@).take(i as int).push(
            options@[i as int]@,
        ));
        let ghost before = r@;
        let item = options[i].clone();
        r.push(item);
        assert(texts(r@) =~= texts(before).push(item@));
        assert(texts(r@) =~= start + texts(options@).take(i + 1));
        i = i + 1;
    }
    assert(texts(options@).take(options.len() as int) == texts(options@));
    r
}

fn owned_options(options: &[&str]) -> (r: Vec<String>)
    ensures
        texts(r@) == str_texts(options@),
{
    let mut r: Vec<String> = Vec::new();
    let mut i: usize = 0;
    while i < options.len()
        invariant
            i <= options@.len(),
            texts(r@) == str_texts(options@).take(i as int),
        decreases options@.len() - i,
    {
        let ghost before = r@;
        let item = options[i].to_owned();
        r.push(item);
        assert(texts(r@) =~= texts(before).push(item@));
        assert(texts(r@) =~= str_texts(options@).take(i + 1));
        i = i + 1;
    }
    assert(str_texts(options@).take(options@.len() as int) == str_texts(options@));
    r
}

fn mark_size(options: &Vec<String>) -> (r: String)
    ensures
        r@ == spec_mark_size(texts(options@)),
{
    let semithick = "semithick".to_owned();
    let mut i: usize = 0;
    while i < options.len()
        invariant
            i <= options.len(),
            semithick@ == "semithick"@,
            forall|j: int| 0 <= j < i ==> #[trigger] texts(options@)[j] != "semithick"@,
        decreases options.len() - i,
    {
        if options[i] == semithick {
            assert(texts(options@)[i as int] == "semithick"@);
            return "mark size=0.03cm".to_owned();
        }
        i = i + 1;
    }
    "mark size=0.05cm".to_owned()
}

/// The plots by which a figure with the given options draws a cut of type
/// `typ`.
pub fn cut_layers(typ: CutType, options: &[&str]) -> (r: Option<CutLayers>)
    ensures
        cut_layers_view(r) == spec_cut_layers(typ, str_texts(options@)),
{
    let (color, stroke) = match cut_style(typ) {
        Some(style) => style,
        None => return None,
    };
    let options = owned_options(options);
    let underlay = match stroke {
        CutStroke::Dashed => Some(
            with_options(vec!["lightgray".to_owned(), "very thick".to_owned()], &options),
        ),
        _ => None,
    };
    let line = with_options(vec![color.tikz(), stroke.tikz()], &options);
    let marks = with_options(
        vec![color.tikz(), "only marks".to_owned(), mark_size(&options)],
        &options,
    );
    Some(CutLayers { underlay, line, marks })
}

/// The multiples of the period by which the copies of a cut are shifted:
/// a periodic cut of the `u` plane is drawn eleven times, from five periods
/// down to five periods up; any other cut once, unshifted.
pub fn cut_shifts(cut_component: Component, periodic: bool) -> (r: Vec<Option<i32>>)
    ensures
        cut_component == Component::U && periodic ==> r@.len() == 11 && forall|i: int|
            0 <= i < 11 ==> #[trigger] r@[i] == Some((i - 5) as i32),
        !(cut_component == Component::U && periodic) ==> r@ == seq![None::<i32>],
{
    if cut_component == Component::U && periodic {
        let mut r: Vec<Option<i32>> = Vec::new();
        let mut n: i32 = -5;
        while n <= 5
            invariant
                -5 <= n <= 6,
                r@.len() == n + 5,
                forall|i: int| 0 <= i < r@.len() ==> #[trigger] r@[i] == Some((i - 5) as i32),
            decreases 6 - n,
        {
            r.push(Some(n));
            n = n + 1;
        }
        r
    } else {
        vec![None]
    }
}

/// The TeX name of a component, shown in the corner of a figure.
pub open spec fn spec_component_tex_name(component: Component) -> Seq<char> {
    match component {
        Component::P => "p"@,
        Component::Xp => "x^+"@,
        Component::Xm => "x^-"@,
        Component::U => "u"@,
    }
}

pub fn component_tex_name(component: Component) -> (r: String)
    ensures
        r@ == spec_component_tex_name(component),
{
    match component {
        Component::P => "p".to_owned(),
        Component::Xp => "x^+".to_owned(),
        Component::Xm => "x^-".to_owned(),
        Component::U => "u".to_owned(),
    }
}

// ---------------------------------------------------------------------------
// Splitting a path by sheet

/// A maximal stretch of segments of a path `[start, end)` that are all on the
/// sheet of the state (`same_branch`) or all off it.
#[derive(Debug, Clone, Copy, PartialEq, Eq, Structural)]
pub struct BranchRun {
    pub same_branch: bool,
    pub start: usize,
    pub end: usize,
}

/// `runs` cuts `0..flags.len()` into consecutive, non-empty stretches of
/// equal flags, each as long as it can be.
pub open spec fn is_run_split(flags: Seq<bool>, runs: Seq<BranchRun>) -> bool {
    &&& (flags.len() == 0 <==> runs.len() == 0)
    &&& runs.len() > 0 ==> runs[0].start == 0 && runs.last().end == flags.len()
    &&& forall|k: int| 0 <= k < runs.len() - 1 ==> #[trigger] runs[k].end == runs[k + 1].start
    &&& forall|k: int| 0 <= k < runs.len() - 1 ==> #[trigger] runs[k].same_branch != runs[k
        + 1].same_branch
    &&& forall|k: int| 0 <= k < runs.len() ==> #[trigger] runs[k].start < runs[k].end
    &&& forall|k: int, i: int|
        #![trigger runs[k], flags[i]]
        0 <= k < runs.len() && runs[k].start <= i < runs[k].end ==> flags[i]
            == runs[k].same_branch
}

/// Splits the segments of a path, given whether each is on the sheet of the
/// state, into the stretches that are drawn solid and dotted.
pub fn branch_runs(flags: &Vec<bool>) -> (r: Vec<BranchRun>)
    ensures
        is_run_split(flags@, r@),
{
    let mut runs: Vec<BranchRun> = Vec::new();
    let n = flags.len();
    if n == 0 {
        return runs;
    }
    let mut start: usize = 0;
    let mut current = flags[0];
    let mut i: usize = 1;
    while i < n
        invariant
            n == flags.len(),
            0 <= start < i <= n,
            current == flags[start as int],
            forall|j: int| start <= j < i ==> flags[j] == current,
            runs.len() == 0 <==> start == 0,
            runs.len() > 0 ==> runs[0].start == 0 && runs@.last().end == start
                && runs@.last().same_branch != current,
            forall|k: int| 0 <= k < runs.len() - 1 ==> #[trigger] runs[k].end == runs[k + 1].start,
            forall|k: int|
                0 <= k < runs.len() - 1 ==> #[trigger] runs[k].same_branch != runs[k
                    + 1].same_branch,
            forall|k: int| 0 <= k < runs.len() ==> #[trigger] runs[k].start < runs[k].end,
            forall|k: int, j: int|
                #![trigger runs[k], flags[j]]
                0 <= k < runs.len() && runs[k].start <= j < runs[k].end ==> flags[j]
                    == runs[k].same_branch,
        decreases n - i,
    {
        if flags[i] != current {
            runs.push(BranchRun { same_branch: current, start, end: i });
            start = i;
            current = flags[i];
        }
        i = i + 1;
    }
    runs.push(BranchRun { same_branch: current, start, end: n });
    runs
}

/// The runs of `runs` that are on the sheet of the state (`same`) or off
/// it, in order.
pub open spec fn runs_with(runs: Seq<BranchRun>, same: bool) -> Seq<BranchRun>
    decreases runs.len(),
{
    if runs.len() == 0 {
        runs
    } else if runs.last().same_branch == same {
        runs_with(runs.drop_last(), same).push(runs.last())
    } else {
        runs_with(runs.drop_last(), same)
    }
}

fn collect_runs(runs: &Vec<BranchRun>, same: bool, out: &mut Vec<BranchRun>)
    ensures
        final(out)@ == old(out)@ + runs_with(runs@, same),
{
    let ghost start = out@;
    let mut i: usize = 0;
    while i < runs.len()
        invariant
            i <= runs.len(),
            out@ == start + runs_with(runs@.take(i as int), same),
        decreases runs.len() - i,
    {
        assert(runs@.take(i + 1).drop_last() == runs@.take(i as int));
        assert(runs@.take(i + 1).last() == runs@[i as int]);
        if runs[i].same_branch == same {
            out.push(runs[i]);
        }
        assert(out@ =~= start + runs_with(runs@.take(i + 1), same));
        i = i + 1;
    }
    assert(runs@.take(runs.len() as int) == runs@);
}

/// The order in which a path's runs are drawn: the dotted runs off the
/// sheet first, then the solid runs on it, each in path order.
pub fn path_plot_order(runs: &Vec<BranchRun>) -> (r: Vec<BranchRun>)
    ensures
        r@ == runs_with(runs@, false) + runs_with(runs@, true),
{
    let mut r: Vec<BranchRun> = Vec::new();
    collect_runs(runs, false, &mut r);
    collect_runs(runs, true, &mut r);
    assert(Seq::<BranchRun>::empty() + runs_with(runs@, false) =~= runs_with(runs@, false));
    r
}

// ---------------------------------------------------------------------------
// Lines of TeX

/// The items separated by `sep`, as `[T]::join` writes them.
pub open spec fn join(items: Seq<Seq<char>>, sep: Seq<char>) -> Seq<char>
    decreases items.len(),
{
    if items.len() == 0 {
        Seq::empty()
    } else if items.len() == 1 {
        items[0]
    } else {
        join(items.drop_last(), sep) + sep + items.last()
    }
}

/// The texts of a slice of string slices.
pub open spec fn str_texts(items: Seq<&str>) -> Seq<Seq<char>> {
    items.map_values(|s: &str| s@)
}

/// Appends `items`, separated by `sep`, to `out`.
fn push_joined(out: &mut String, items: &[&str], sep: &str)
    ensures
        final(out)@ == old(out)@ + join(str_texts(items@), sep@),
{
    let ghost start = out@;
    let mut i: usize = 0;
    while i < items.len()
        invariant
            i <= items@.len(),
            out@ == start + join(str_texts(items@).take(i as int), sep@),
        decreases items@.len() - i,
    {
        let ghost prefix = str_texts(items@).take(i as int);
        let ghost next = str_texts(items@).take(i + 1);
        assert(next.drop_last() == prefix);
        assert(next.last() == items@[i as int]@);
        if i > 0 {
            out.append(sep);
        }
        out.append(items[i]);
        if i == 0 {
            assert(prefix.len() == 0);
            assert(join(prefix, sep@) == Seq::<char>::empty());
            assert(start + Seq::<char>::empty() == start);
        }
        i = i + 1;
    }
    assert(str_texts(items@).take(items@.len() as int) == str_texts(items@));
}

/// `\addplot [options] coordinates { c1 c2 ... };`
pub open spec fn spec_addplot_coordinates(options: Seq<Seq<char>>, coordinates: Seq<Seq<char>>) -> Seq<
    char,
> {
    "\\addplot ["@ + join(options, ","@) + "] coordinates { "@ + join(coordinates, " "@) + " };"@
}

/// The line that plots the coordinates of a contour.
pub fn addplot_coordinates(options: &[&str], coordinates: &[&str]) -> (r: String)
    ensures
        r@ == spec_addplot_coordinates(str_texts(options@), str_texts(coordinates@)),
{
    let mut r = String::new();
    r.append("\\addplot [");
    push_joined(&mut r, options, ",");
    r.append("] coordinates { ");
    push_joined(&mut r, coordinates, " ");
    r.append(" };");
    r
}

/// `\addplot [options] plot;`
pub open spec fn spec_addplot_custom(options: Seq<Seq<char>>, plot: Seq<char>) -> Seq<char> {
    "\\addplot ["@ + join(options, ","@) + "] "@ + plot + ";"@
}

/// The line that plots a custom plot expression.
pub fn addplot_custom(options: &[&str], plot: &str) -> (r: String)
    ensures
        r@ == spec_addplot_custom(str_texts(options@), plot@),
{
    let mut r = String::new();
    r.append("\\addplot [");
    push_joined(&mut r, options, ",");
    r.append("] ");
    r.append(plot);
    r.append(";");
    r
}

/// `\node at coordinate [options] {text};`
pub open spec fn spec_node(coordinate: Seq<char>, options: Seq<Seq<char>>, text: Seq<char>) -> Seq<
    char,
> {
    "\\node at "@ + coordinate + " ["@ + join(options, ","@) + "] {"@ + text + "};"@
}

/// The line that places a text node at a formatted coordinate.
pub fn node(coordinate: &str, options: &[&str], text: &str) -> (r: String)
    ensures
        r@ == spec_node(coordinate@, str_texts(options@), text@),
{
    let mut r = String::new();
    r.append("\\node at ");
    r.append(coordinate);
    r.append(" [");
    push_joined(&mut r, options, ",");
    r.append("] {");
    r.append(text);
    r.append("};");
    r
}

/// `\draw [options] path;`
pub open spec fn spec_draw(path: Seq<char>, options: Seq<Seq<char>>) -> Seq<char> {
    "\\draw ["@ + join(options, ","@) + "] "@ + path + ";"@
}

/// The line that draws a TikZ path.
pub fn draw(path: &str, options: &[&str]) -> (r: String)
    ensures
        r@ == spec_draw(path@, str_texts(options@)),
{
    let mut r = String::new();
    r.append("\\draw [");
    push_joined(&mut r, options, ",");
    r.append("] ");
    r.append(path);
    r.append(";");
    r
}

/// The node in the corner of a figure that names its component.
pub open spec fn spec_component_indicator(component: Component) -> Seq<char> {
    "\\node at (current bounding box.north east) [anchor=north east,fill=white,outer sep=0.1cm,draw,thin] {$\\scriptstyle "@
        + spec_component_tex_name(component) + "$};"@
}

pub fn component_indicator(component: Component) -> (r: String)
    ensures
        r@ == spec_component_indicator(component),
{
    let mut r = String::new();
    r.append(
        "\\node at (current bounding box.north east) [anchor=north east,fill=white,outer sep=0.1cm,draw,thin] {$\\scriptstyle ",
    );
    let name = component_tex_name(component);
    r.append(name.as_str());
    r.append("$};");
    r
}

} // verus!
