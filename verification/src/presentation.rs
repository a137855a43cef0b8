//! The decisions of the presentation program: which frame is shown, and
//! when the images of the presentation are built again.
use vstd::prelude::*;

use crate::components::Component;
use crate::fig_writer::texts;
use crate::plot::{CutFilter, PlotState};
use crate::presentation_description::{PlotDescription, Value};

verus! {

// ---------------------------------------------------------------------------
// Moving between frames

/// The frame reached by going back from frame `i`: the nearest earlier frame
/// that does not move on by itself (has no duration), or the first frame.
pub open spec fn step_back(timed: Seq<bool>, i: int) -> int
    decreases i,
{
    if i <= 0 {
        0
    } else if !timed[i - 1] {
        i - 1
    } else {
        step_back(timed, i - 1)
    }
}

/// The frame shown after frame `index` when the frame asks to advance (its
/// time is up or the user asked for the next frame) and the user may have
/// asked for the previous frame; `timed[i]` says whether frame `i` has a
/// duration.
pub open spec fn spec_next_frame(timed: Seq<bool>, index: int, advance: bool, back: bool) -> int {
    let forward = if advance && index < timed.len() - 1 {
        index + 1
    } else {
        index
    };
    if back {
        step_back(timed, forward)
    } else {
        forward
    }
}

pub fn next_frame_index(timed: &Vec<bool>, index: usize, advance: bool, back: bool) -> (r: usize)
    requires
        index < timed.len(),
    ensures
        r == spec_next_frame(timed@, index as int, advance, back),
{
    let mut i = index;
    if advance && index < timed.len() - 1 {
        i = index + 1;
    }
    if back && i > 0 {
        let ghost start = i as int;
        i = i - 1;
        while i > 0 && timed[i]
            invariant
                i < timed.len(),
                i < start < timed.len(),
                step_back(timed@, start) == step_back(timed@, i + 1),
            decreases i,
        {
            i = i - 1;
        }
        assert(step_back(timed@, i + 1) == i) by {
            if i == 0 {
                assert(step_back(timed@, 0) == 0);
            }
        }
    }
    i
}

/// The frame that is shown is always a frame of the presentation.
pub proof fn lemma_next_frame_in_range(timed: Seq<bool>, index: int, advance: bool, back: bool)
    requires
        0 <= index < timed.len(),
    ensures
        0 <= spec_next_frame(timed, index, advance, back) < timed.len(),
{
    let forward = if advance && index < timed.len() - 1 {
        index + 1
    } else {
        index
    };
    lemma_step_back_lands(timed, forward);
}

/// Going back lands on an earlier frame without a duration, or on the first
/// frame; every frame skipped on the way has a duration.
pub proof fn lemma_step_back_lands(timed: Seq<bool>, i: int)
    requires
        0 <= i < timed.len(),
    ensures
        0 <= step_back(timed, i) <= i,
        i > 0 ==> step_back(timed, i) < i,
        step_back(timed, i) > 0 ==> !timed[step_back(timed, i)],
        forall|j: int| step_back(timed, i) < j < i ==> #[trigger] timed[j],
    decreases i,
{
    if i > 0 && timed[i - 1] {
        lemma_step_back_lands(timed, i - 1);
    }
}

// ---------------------------------------------------------------------------
// Rebuilding the images

/// The hashes recorded when the presentation was last built.
#[derive(Debug, Clone)]
pub struct PresentationCache {
    pub pdf_hash: String,
    pub toml_hash: String,
}

/// What has to be built again.
#[derive(Debug, Clone, Copy, PartialEq, Eq, Structural)]
pub struct RebuildPlan {
    /// The presentation file has to be rewritten.
    pub rebuild: bool,
    /// The frames have to be rendered again from the PDF.
    pub rebuild_pdf: bool,
}

/// Given whether a rebuild was asked for, the hash of the PDF, the cache and
/// the current hash of the presentation file when the cache could be read,
/// and whether the image of some frame is missing.
pub open spec fn spec_rebuild_plan(
    force: bool,
    pdf_hash: Seq<char>,
    cache: Option<(Seq<char>, Seq<char>, Seq<char>)>,
    image_missing: bool,
) -> RebuildPlan {
    match cache {
        None => RebuildPlan { rebuild: true, rebuild_pdf: true },
        Some((cached_pdf, cached_toml, toml_hash)) => RebuildPlan {
            rebuild: force || toml_hash != cached_toml || pdf_hash != cached_pdf || image_missing,
            rebuild_pdf: force || pdf_hash != cached_pdf || image_missing,
        },
    }
}

pub fn rebuild_plan(
    force: bool,
    pdf_hash: &String,
    cache: &Option<(PresentationCache, String)>,
    image_missing: bool,
) -> (r: RebuildPlan)
    ensures
        r == spec_rebuild_plan(
            force,
            pdf_hash@,
            match cache {
                Some((c, toml_hash)) => Some((c.pdf_hash@, c.toml_hash@, toml_hash@)),
                None => None,
            },
            image_missing,
        ),
{
    match cache {
        None => RebuildPlan { rebuild: true, rebuild_pdf: true },
        Some((c, toml_hash)) => {
            let toml_changed = *toml_hash != c.toml_hash;
            let pdf_changed = *pdf_hash != c.pdf_hash;
            RebuildPlan {
                rebuild: force || toml_changed || pdf_changed || image_missing,
                rebuild_pdf: force || pdf_changed || image_missing,
            }
        },
    }
}

/// What a rebuild redoes.  Without a cache everything is built.  With one:
/// a changed PDF, a forced rebuild or a missing image always renders the
/// frames again and rewrites the presentation file; a changed presentation
/// file alone rewrites the file without rendering; whether the frames are
/// rendered never depends on the presentation file's hashes; and when
/// nothing changed, nothing is done.  Rendering always comes with a rewrite.
pub proof fn lemma_rebuild_plan_laws(
    force: bool,
    pdf_hash: Seq<char>,
    cached_pdf: Seq<char>,
    cached_toml: Seq<char>,
    toml_hash: Seq<char>,
    other_cached_toml: Seq<char>,
    other_toml_hash: Seq<char>,
    image_missing: bool,
)
    ensures
        ({
            let plan = spec_rebuild_plan(
                force,
                pdf_hash,
                Some((cached_pdf, cached_toml, toml_hash)),
                image_missing,
            );
            let other = spec_rebuild_plan(
                force,
                pdf_hash,
                Some((cached_pdf, other_cached_toml, other_toml_hash)),
                image_missing,
            );
            let fresh = spec_rebuild_plan(force, pdf_hash, None, image_missing);
            &&& fresh.rebuild && fresh.rebuild_pdf
            &&& plan.rebuild_pdf ==> plan.rebuild
            &&& (pdf_hash != cached_pdf || force || image_missing) ==> plan.rebuild_pdf
            &&& toml_hash != cached_toml ==> plan.rebuild
            &&& plan.rebuild_pdf == other.rebuild_pdf
            &&& (!force && !image_missing && pdf_hash == cached_pdf) ==> !plan.rebuild_pdf
            &&& (!force && !image_missing && pdf_hash == cached_pdf && toml_hash == cached_toml)
                ==> !plan.rebuild
        }),
{
}

/// Moving between frames: without going back, a frame asked to advance
/// moves exactly one frame on, whether or not it has a duration, unless it
/// is the last; a frame not asked to move stays.  Going back lands on a
/// frame no later than the one it started from (the first frame, or one
/// without a duration), and only frames with a duration are passed over.
pub proof fn lemma_next_frame_laws(timed: Seq<bool>, index: int, advance: bool)
    requires
        0 <= index < timed.len(),
    ensures
        advance && index < timed.len() - 1 ==> spec_next_frame(timed, index, advance, false)
            == index + 1,
        advance && index == timed.len() - 1 ==> spec_next_frame(timed, index, advance, false)
            == index,
        spec_next_frame(timed, index, false, false) == index,
        ({
            let back = spec_next_frame(timed, index, false, true);
            &&& 0 <= back <= index
            &&& index > 0 ==> back < index
            &&& back > 0 ==> !timed[back]
            &&& forall|j: int| back < j < index ==> #[trigger] timed[j]
        }),
{
    lemma_step_back_lands(timed, index);
}

/// The index of the last element of `s` equal to `x`, or -1.
pub open spec fn last_index_of<A>(s: Seq<A>, x: A) -> int
    decreases s.len(),
{
    if s.len() == 0 {
        -1
    } else if s.last() == x {
        s.len() - 1
    } else {
        last_index_of(s.drop_last(), x)
    }
}

/// The index of the first element of `s` equal to `x`, or -1.
pub open spec fn first_index_of<A>(s: Seq<A>, x: A) -> int
    decreases s.len(),
{
    if s.len() == 0 {
        -1
    } else if first_index_of(s.drop_last(), x) >= 0 {
        first_index_of(s.drop_last(), x)
    } else if s.last() == x {
        s.len() - 1
    } else {
        -1
    }
}

/// The image that frame `i` shows once images with equal content are
/// merged: frames are read in order, each image name is mapped to the first
/// image that had the hash of its last appearance.
pub open spec fn canonical_image(images: Seq<Seq<char>>, hashes: Seq<Seq<char>>, i: int) -> Seq<
    char,
> {
    images[first_index_of(hashes, hashes[last_index_of(images, images[i])])]
}

proof fn lemma_last_index_of(s: Seq<Seq<char>>, x: Seq<char>)
    ensures
        -1 <= last_index_of(s, x) < s.len(),
        last_index_of(s, x) >= 0 ==> s[last_index_of(s, x)] == x,
        forall|j: int| last_index_of(s, x) < j < s.len() ==> #[trigger] s[j] != x,
        s.contains(x) ==> last_index_of(s, x) >= 0,
    decreases s.len(),
{
    if s.len() > 0 {
        let t = s.drop_last();
        lemma_last_index_of(t, x);
        if s.last() != x {
            if s.contains(x) {
                let k = choose|k: int| 0 <= k < s.len() && s[k] == x;
                assert(t[k] == x);
            }
            assert forall|j: int| last_index_of(s, x) < j < s.len() implies #[trigger] s[j] != x by {
                if j < t.len() {
                    assert(t[j] == s[j]);
                }
            }
        }
    }
}

proof fn lemma_first_index_of(s: Seq<Seq<char>>, x: Seq<char>)
    ensures
        -1 <= first_index_of(s, x) < s.len(),
        first_index_of(s, x) >= 0 ==> s[first_index_of(s, x)] == x,
        forall|j: int|
            0 <= j < s.len() && (first_index_of(s, x) < 0 || j < first_index_of(s, x)) ==> #[trigger] s[j]
                != x,
    decreases s.len(),
{
    if s.len() > 0 {
        let t = s.drop_last();
        lemma_first_index_of(t, x);
        assert forall|j: int|
            0 <= j < s.len() && (first_index_of(s, x) < 0 || j < first_index_of(s, x)) implies #[trigger] s[j]
                != x by {
            if j < t.len() {
                assert(t[j] == s[j]);
            }
        }
    }
}

fn last_position(v: &Vec<String>, x: &String) -> (r: usize)
    requires
        texts(v@).contains(x@),
    ensures
        r as int == last_index_of(texts(v@), x@),
{
    proof {
        lemma_last_index_of(texts(v@), x@);
    }
    let mut k: usize = v.len();
    loop
        invariant
            k <= v.len(),
            last_index_of(texts(v@), x@) < k,
            texts(v@).contains(x@),
            -1 <= last_index_of(texts(v@), x@) < v.len(),
            last_index_of(texts(v@), x@) >= 0,
            forall|j: int| k <= j < v.len() ==> #[trigger] texts(v@)[j] != x@,
            forall|j: int|
                last_index_of(texts(v@), x@) < j < v.len() ==> #[trigger] texts(v@)[j] != x@,
            texts(v@)[last_index_of(texts(v@), x@)] == x@,
        decreases k,
    {
        k = k - 1;
        if v[k] == *x {
            assert(texts(v@)[k as int] == x@);
            return k;
        }
    }
}

fn first_position(v: &Vec<String>, x: &String) -> (r: usize)
    requires
        texts(v@).contains(x@),
    ensures
        r as int == first_index_of(texts(v@), x@),
{
    proof {
        lemma_first_index_of(texts(v@), x@);
        let m = choose|m: int| 0 <= m < texts(v@).len() && texts(v@)[m] == x@;
    }
    let mut k: usize = 0;
    loop
        invariant
            k < v.len(),
            texts(v@).contains(x@),
            0 <= first_index_of(texts(v@), x@) < v.len(),
            k <= first_index_of(texts(v@), x@),
            texts(v@)[first_index_of(texts(v@), x@)] == x@,
            forall|j: int|
                0 <= j < first_index_of(texts(v@), x@) ==> #[trigger] texts(v@)[j] != x@,
        decreases v.len() - k,
    {
        if v[k] == *x {
            assert(texts(v@)[k as int] == x@);
            return k;
        }
        k = k + 1;
    }
}

/// The image of each frame after images with the same content (the same
/// hash) are merged into the first of them.
pub fn canonical_images(images: &Vec<String>, hashes: &Vec<String>) -> (r: Vec<String>)
    requires
        images.len() == hashes.len(),
    ensures
        r.len() == images.len(),
        forall|i: int|
            0 <= i < r.len() ==> #[trigger] r[i]@ == canonical_image(texts(images@), texts(hashes@), i),
{
    let mut r: Vec<String> = Vec::new();
    let mut i: usize = 0;
    while i < images.len()
        invariant
            i <= images.len(),
            images.len() == hashes.len(),
            r.len() == i,
            forall|j: int|
                0 <= j < i ==> #[trigger] r[j]@ == canonical_image(
                    texts(images@),
                    texts(hashes@),
                    j,
                ),
        decreases images.len() - i,
    {
        assert(texts(images@)[i as int] == images@[i as int]@);
        let last = last_position(images, &images[i]);
        proof {
            lemma_last_index_of(texts(images@), images@[i as int]@);
        }
        assert(texts(hashes@)[last as int] == hashes@[last as int]@);
        let first = first_position(hashes, &hashes[last]);
        proof {
            lemma_first_index_of(texts(hashes@), hashes@[last as int]@);
        }
        r.push(images[first].clone());
        i = i + 1;
    }
    r
}

/// Merging twice changes nothing more: a merged image is the first image of
/// its content, and maps to itself.
pub proof fn lemma_canonical_image_is_first_of_its_hash(
    images: Seq<Seq<char>>,
    hashes: Seq<Seq<char>>,
    i: int,
)
    requires
        images.len() == hashes.len(),
        0 <= i < images.len(),
    ensures
        ({
            let j = first_index_of(hashes, hashes[last_index_of(images, images[i])]);
            &&& 0 <= j <= last_index_of(images, images[i])
            &&& canonical_image(images, hashes, i) == images[j]
            &&& forall|k: int| 0 <= k < j ==> #[trigger] hashes[k] != hashes[j]
        }),
{
    lemma_last_index_of(images, images[i]);
    assert(images.contains(images[i]));
    let l = last_index_of(images, images[i]);
    lemma_first_index_of(hashes, hashes[l]);
    assert(hashes.contains(hashes[l]));
}

// ---------------------------------------------------------------------------
// Starting a frame

/// Where a plot is centred and how tall it is, as `f32` bit patterns.
#[derive(Debug, Clone, Copy)]
pub struct PlotView {
    pub origin: [u32; 2],
    pub height: u32,
}

/// The views of the four plots of the presentation.
#[derive(Debug, Clone, Copy)]
pub struct PlotViews {
    pub p: PlotView,
    pub xp: PlotView,
    pub xm: PlotView,
    pub u: PlotView,
}

impl PlotViews {
    pub open spec fn spec_get(self, component: Component) -> PlotView {
        match component {
            Component::P => self.p,
            Component::Xp => self.xp,
            Component::Xm => self.xm,
            Component::U => self.u,
        }
    }

    pub open spec fn spec_with(self, component: Component, view: PlotView) -> PlotViews {
        match component {
            Component::P => PlotViews { p: view, ..self },
            Component::Xp => PlotViews { xp: view, ..self },
            Component::Xm => PlotViews { xm: view, ..self },
            Component::U => PlotViews { u: view, ..self },
        }
    }

    fn get(&self, component: Component) -> (r: PlotView)
        ensures
            r == self.spec_get(component),
    {
        match component {
            Component::P => self.p,
            Component::Xp => self.xp,
            Component::Xm => self.xm,
            Component::U => self.u,
        }
    }

    fn set(&mut self, component: Component, view: PlotView)
        ensures
            *final(self) == old(self).spec_with(component, view),
    {
        match component {
            Component::P => self.p = view,
            Component::Xp => self.xp = view,
            Component::Xm => self.xm = view,
            Component::U => self.u = view,
        }
    }
}

/// The view of a plot when a frame that describes it starts: the frame's
/// origin and height where they are fixed, the old ones where the frame
/// gives none or lets them move.
pub open spec fn spec_view_at_start(view: PlotView, descr: PlotDescription) -> PlotView {
    PlotView {
        origin: match descr.origin {
            Some(Value::Const(origin)) => origin,
            _ => view.origin,
        },
        height: match descr.height {
            Some(Value::Const(height)) => height,
            _ => view.height,
        },
    }
}

/// The views after starting a frame with the plots `plots`, taken in order.
pub open spec fn spec_views_at_start(views: PlotViews, plots: Seq<(Component, PlotDescription)>)
    -> PlotViews
    decreases plots.len(),
{
    if plots.len() == 0 {
        views
    } else {
        let before = spec_views_at_start(views, plots.drop_last());
        let (component, descr) = plots.last();
        before.spec_with(component, spec_view_at_start(before.spec_get(component), descr))
    }
}

fn view_at_start(view: PlotView, descr: &PlotDescription) -> (r: PlotView)
    ensures
        r == spec_view_at_start(view, *descr),
{
    let origin = match &descr.origin {
        Some(Value::Const(origin)) => *origin,
        _ => view.origin,
    };
    let height = match &descr.height {
        Some(Value::Const(height)) => *height,
        _ => view.height,
    };
    PlotView { origin, height }
}

/// Starts a frame: each plot it describes takes the frame's fixed origin
/// and height, and the plots take the frame's cut filter when it has one.
pub fn start_frame(
    views: &mut PlotViews,
    state: &mut PlotState,
    plots: &Vec<(Component, PlotDescription)>,
    cut_filter: Option<CutFilter>,
)
    ensures
        *final(views) == spec_views_at_start(*old(views), plots@),
        final(state).cut_filter == match cut_filter {
            Some(filter) => filter,
            None => old(state).cut_filter,
        },
        final(state).active_point == old(state).active_point,
        final(state).interaction_point == old(state).interaction_point,
        final(state).interaction_component == old(state).interaction_component,
        final(state).hovered == old(state).hovered,
        final(state).dragged == old(state).dragged,
        final(state).path_indices@ == old(state).path_indices@,
        final(state).fullscreen_component == old(state).fullscreen_component,
        final(state).theme == old(state).theme,
{
    let mut i: usize = 0;
    while i < plots.len()
        invariant
            i <= plots.len(),
            *views == spec_views_at_start(*old(views), plots@.take(i as int)),
        decreases plots.len() - i,
    {
        let (component, descr) = &plots[i];
        assert(plots@.take(i + 1).drop_last() == plots@.take(i as int));
        assert(plots@.take(i + 1).last() == plots@[i as int]);
        let view = views.get(*component);
        views.set(*component, view_at_start(view, descr));
        i = i + 1;
    }
    assert(plots@.take(plots.len() as int) == plots@);
    if let Some(filter) = cut_filter {
        state.cut_filter = filter;
    }
}

} // verus!
