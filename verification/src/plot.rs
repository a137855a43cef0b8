//! The state shared by the interactive plots, and the choices they make when
//! they draw cuts and labels.
use vstd::prelude::*;

use crate::components::{Component, CutType, UBranch};

verus! {

/// The colour scheme of the plots.
#[derive(Debug, Clone, Copy, PartialEq, Eq, Structural)]
pub enum Theme {
    Normal,
    Black,
}

impl Default for Theme {
    fn default() -> (r: Theme)
        ensures
            r == Theme::Normal,
    {
        Theme::Normal
    }
}

/// Which cuts the plots show.
#[derive(Debug, Clone)]
pub enum CutFilter {
    All,
    NoCuts,
    Only(Vec<CutType>),
}

impl Default for CutFilter {
    fn default() -> (r: CutFilter)
        ensures
            r is All,
    {
        CutFilter::All
    }
}

impl CutFilter {
    pub open spec fn spec_admits(&self, typ: CutType) -> bool {
        match self {
            CutFilter::All => true,
            CutFilter::NoCuts => false,
            CutFilter::Only(types) => types@.contains(typ),
        }
    }

    /// Whether a cut of type `typ` passes the filter.
    pub fn admits(&self, typ: CutType) -> (r: bool)
        ensures
            r == self.spec_admits(typ),
    {
        match self {
            CutFilter::All => true,
            CutFilter::NoCuts => false,
            CutFilter::Only(types) => {
                let mut i: usize = 0;
                while i < types.len()
                    invariant
                        self is Only,
                        self->Only_0@ == types@,
                        i <= types.len(),
                        forall|j: int| 0 <= j < i ==> types@[j] != typ,
                    decreases types.len() - i,
                {
                    if types[i] == typ {
                        assert(types@[i as int] == typ);
                        assert(types@.contains(typ));
                        return true;
                    }
                    i = i + 1;
                }
                false
            },
        }
    }
}

/// The plot shown in full screen after toggling `component` from `current`:
/// toggling closes a full-screen plot, or opens the one toggled.
pub open spec fn toggled(current: Option<Component>, component: Component) -> Option<Component> {
    if current is Some {
        None
    } else {
        Some(component)
    }
}

/// What the user is doing with the plots.
pub struct PlotState {
    pub active_point: usize,
    pub interaction_point: Option<usize>,
    pub interaction_component: Option<Component>,
    pub hovered: bool,
    pub dragged: bool,
    pub path_indices: Vec<usize>,
    pub fullscreen_component: Option<Component>,
    pub cut_filter: CutFilter,
    pub theme: Theme,
}

impl Default for PlotState {
    fn default() -> (r: PlotState)
        ensures
            r.active_point == 0,
            r.interaction_point is None,
            r.interaction_component is None,
            !r.hovered,
            !r.dragged,
            r.path_indices@ == Seq::<usize>::empty(),
            r.fullscreen_component is None,
            r.cut_filter is All,
            r.theme == Theme::Normal,
    {
        PlotState {
            active_point: 0,
            interaction_point: None,
            interaction_component: None,
            hovered: false,
            dragged: false,
            path_indices: Vec::new(),
            fullscreen_component: None,
            cut_filter: CutFilter::All,
            theme: Theme::Normal,
        }
    }
}

impl PlotState {
    /// Forgets the point the user interacts with.
    pub fn reset(&mut self)
        ensures
            final(self).interaction_point is None,
            final(self).interaction_component is None,
            final(self).active_point == old(self).active_point,
            final(self).hovered == old(self).hovered,
            final(self).dragged == old(self).dragged,
            final(self).path_indices@ == old(self).path_indices@,
            final(self).fullscreen_component == old(self).fullscreen_component,
            final(self).cut_filter == old(self).cut_filter,
            final(self).theme == old(self).theme,
    {
        self.interaction_point = None;
        self.interaction_component = None;
    }

    /// Opens the plot of `component` in full screen, or closes the plot that
    /// is in full screen.
    pub fn toggle_fullscreen(&mut self, component: Component)
        ensures
            final(self).fullscreen_component == toggled(old(self).fullscreen_component, component),
            final(self).active_point == old(self).active_point,
            final(self).interaction_point == old(self).interaction_point,
            final(self).interaction_component == old(self).interaction_component,
            final(self).hovered == old(self).hovered,
            final(self).dragged == old(self).dragged,
            final(self).path_indices@ == old(self).path_indices@,
            final(self).cut_filter == old(self).cut_filter,
            final(self).theme == old(self).theme,
    {
        if self.fullscreen_component.is_some() {
            self.fullscreen_component = None;
        } else {
            self.fullscreen_component = Some(component);
        }
    }

    /// Leaves full screen.
    pub fn close_fullscreen(&mut self)
        ensures
            final(self).fullscreen_component is None,
            final(self).active_point == old(self).active_point,
            final(self).interaction_point == old(self).interaction_point,
            final(self).interaction_component == old(self).interaction_component,
            final(self).hovered == old(self).hovered,
            final(self).dragged == old(self).dragged,
            final(self).path_indices@ == old(self).path_indices@,
            final(self).cut_filter == old(self).cut_filter,
            final(self).theme == old(self).theme,
    {
        self.fullscreen_component = None;
    }
}

/// Toggling the same plot twice gives back the full-screen state that was
/// there before, when no plot or that same plot was in full screen.
pub proof fn lemma_toggle_twice(current: Option<Component>, component: Component)
    requires
        current is None || current == Some(component),
    ensures
        toggled(toggled(current, component), component) == current,
{
}

/// A colour as red, green and blue intensities.
pub type Rgb = (u8, u8, u8);

/// Whether the interactive plot leaves out a log or long-u cut that belongs
/// to `comp`: it is shown only in the plot of its own component, and not
/// while the active point is between the scallion and the kidney for that
/// component (`u_branch` is the branch seen from `x⁻` and from `x⁺`).
pub open spec fn spec_hides_log_cut(
    comp: Component,
    cut_component: Component,
    u_branch: (UBranch, UBranch),
) -> bool {
    comp != cut_component || (comp == Component::Xp && u_branch.1 == UBranch::Between) || (comp
        == Component::Xm && u_branch.0 == UBranch::Between)
}

pub fn hides_log_cut(comp: Component, cut_component: Component, u_branch: (UBranch, UBranch)) -> (r:
    bool)
    ensures
        r == spec_hides_log_cut(comp, cut_component, u_branch),
{
    comp != cut_component || (comp == Component::Xp && u_branch.1 == UBranch::Between) || (comp
        == Component::Xm && u_branch.0 == UBranch::Between)
}

/// Red for cuts of `x⁺`, green for cuts of `x⁻`.
pub open spec fn spec_strong_color(comp: Component) -> Rgb {
    if comp == Component::Xp {
        (255u8, 0u8, 0u8)
    } else {
        (0u8, 192u8, 0u8)
    }
}

/// The colour in which the interactive plot draws a cut, or `None` when it
/// does not draw it.  In the black theme every cut is drawn in black.
pub open spec fn spec_cut_color(
    theme: Theme,
    typ: CutType,
    cut_component: Component,
    u_branch: (UBranch, UBranch),
) -> Option<Rgb> {
    if theme == Theme::Black {
        Some((0u8, 0u8, 0u8))
    } else {
        match typ {
            CutType::E => Some((0u8, 0u8, 0u8)),
            CutType::Log(comp) => if spec_hides_log_cut(comp, cut_component, u_branch) {
                None
            } else if comp == Component::Xp {
                Some((255u8, 128u8, 128u8))
            } else {
                Some((128u8, 255u8, 128u8))
            },
            CutType::ULongNegative(_) => None,
            CutType::ULongPositive(comp) => if spec_hides_log_cut(comp, cut_component, u_branch) {
                None
            } else {
                Some(spec_strong_color(comp))
            },
            CutType::UShortScallion(comp) => Some(spec_strong_color(comp)),
            CutType::UShortKidney(comp) => Some(spec_strong_color(comp)),
            CutType::DebugPath => Some((255u8, 128u8, 0u8)),
        }
    }
}

/// In the normal theme the short cuts of `x⁺` are drawn red, (255, 0, 0),
/// and those of `x⁻` green, (0, 192, 0) (cuts of other variables take the
/// green too); a long positive cut takes its variable's colour and a log cut
/// a pale one, (255, 128, 128) or (128, 255, 128), unless the plot hides
/// them; long negative cuts are never drawn, and the energy cut is black.
pub proof fn lemma_cut_colour_follows_its_variable(
    comp: Component,
    cut_component: Component,
    u_branch: (UBranch, UBranch),
)
    ensures
        ({
            let strong: Rgb = if comp == Component::Xp {
                (255u8, 0u8, 0u8)
            } else {
                (0u8, 192u8, 0u8)
            };
            let pale: Rgb = if comp == Component::Xp {
                (255u8, 128u8, 128u8)
            } else {
                (128u8, 255u8, 128u8)
            };
            let hidden = spec_hides_log_cut(comp, cut_component, u_branch);
            &&& spec_cut_color(Theme::Normal, CutType::UShortScallion(comp), cut_component, u_branch)
                == Some(strong)
            &&& spec_cut_color(Theme::Normal, CutType::UShortKidney(comp), cut_component, u_branch)
                == Some(strong)
            &&& spec_cut_color(Theme::Normal, CutType::ULongPositive(comp), cut_component, u_branch)
                == if hidden {
                None
            } else {
                Some(strong)
            }
            &&& spec_cut_color(Theme::Normal, CutType::Log(comp), cut_component, u_branch) == if hidden {
                None
            } else {
                Some(pale)
            }
            &&& spec_cut_color(Theme::Normal, CutType::ULongNegative(comp), cut_component, u_branch)
                is None
            &&& spec_cut_color(Theme::Normal, CutType::E, cut_component, u_branch) == Some(
                (0u8, 0u8, 0u8),
            )
        }),
{
}

/// In the black theme every cut is drawn, in black.
pub proof fn lemma_black_theme_draws_every_cut_black(
    typ: CutType,
    cut_component: Component,
    u_branch: (UBranch, UBranch),
)
    ensures
        spec_cut_color(Theme::Black, typ, cut_component, u_branch) == Some((0u8, 0u8, 0u8)),
{
}

/// A log or long cut of `x⁺` or `x⁻` is hidden in the plots of other
/// variables; in its own plot it is hidden exactly while the active point
/// is between the scallion and the kidney as seen from that variable.
pub proof fn lemma_log_cut_shown_only_in_its_own_plot(
    comp: Component,
    cut_component: Component,
    u_branch: (UBranch, UBranch),
)
    ensures
        comp != cut_component ==> spec_hides_log_cut(comp, cut_component, u_branch),
        comp == Component::Xp && cut_component == Component::Xp ==> (spec_hides_log_cut(
            comp,
            cut_component,
            u_branch,
        ) <==> u_branch.1 == UBranch::Between),
        comp == Component::Xm && cut_component == Component::Xm ==> (spec_hides_log_cut(
            comp,
            cut_component,
            u_branch,
        ) <==> u_branch.0 == UBranch::Between),
{
}

fn strong_color(comp: Component) -> (r: Rgb)
    ensures
        r == spec_strong_color(comp),
{
    if comp == Component::Xp {
        (255, 0, 0)
    } else {
        (0, 192, 0)
    }
}

pub fn cut_color(theme: Theme, typ: CutType, cut_component: Component, u_branch: (UBranch, UBranch)) -> (r:
    Option<Rgb>)
    ensures
        r == spec_cut_color(theme, typ, cut_component, u_branch),
{
    if theme == Theme::Black {
        return Some((0, 0, 0));
    }
    match typ {
        CutType::E => Some((0, 0, 0)),
        CutType::Log(comp) => {
            if hides_log_cut(comp, cut_component, u_branch) {
                None
            } else if comp == Component::Xp {
                Some((255, 128, 128))
            } else {
                Some((128, 255, 128))
            }
        },
        CutType::ULongNegative(_) => None,
        CutType::ULongPositive(comp) => {
            if hides_log_cut(comp, cut_component, u_branch) {
                None
            } else {
                Some(strong_color(comp))
            }
        },
        CutType::UShortScallion(comp) => Some(strong_color(comp)),
        CutType::UShortKidney(comp) => Some(strong_color(comp)),
        CutType::DebugPath => Some((255, 128, 0)),
    }
}

/// Short-cut kidney cuts and long negative cuts are drawn dashed.
pub fn cut_is_dashed(typ: CutType) -> (r: bool)
    ensures
        r == (typ is UShortKidney || typ is ULongNegative),
{
    match typ {
        CutType::UShortKidney(_) | CutType::ULongNegative(_) => true,
        _ => false,
    }
}

/// The multiples of the period by which a plot shifts the copies of a cut:
/// a periodic cut is drawn eleven times, from five periods down to five
/// periods up; any other cut once, unshifted.
pub fn cut_period_multiples(periodic: bool) -> (r: Vec<i32>)
    ensures
        periodic ==> r@.len() == 11 && forall|i: int| 0 <= i < 11 ==> #[trigger] r@[i] == i - 5,
        !periodic ==> r@ == seq![0i32],
{
    if periodic {
        let mut r: Vec<i32> = Vec::new();
        let mut n: i32 = -5;
        while n <= 5
            invariant
                -5 <= n <= 6,
                r@.len() == n + 5,
                forall|i: int| 0 <= i < r@.len() ==> #[trigger] r@[i] == i - 5,
            decreases 6 - n,
        {
            r.push(n);
            n = n + 1;
        }
        r
    } else {
        vec![0]
    }
}

/// The label in the corner of a plot.
pub open spec fn spec_component_label(component: Component, theme: Theme) -> Seq<char> {
    match component {
        Component::P => "p"@,
        Component::U => "u"@,
        Component::Xp => if theme == Theme::Black {
            "x"@
        } else {
            "x⁺"@
        },
        Component::Xm => "x⁻"@,
    }
}

pub fn component_label(component: Component, theme: Theme) -> (r: String)
    ensures
        r@ == spec_component_label(component, theme),
{
    match component {
        Component::P => "p".to_owned(),
        Component::U => "u".to_owned(),
        Component::Xp => if theme == Theme::Black {
            "x".to_owned()
        } else {
            "x⁺".to_owned()
        },
        Component::Xm => "x⁻".to_owned(),
    }
}

/// The colours of the point markers.
#[derive(Debug, Clone, Copy, PartialEq, Eq, Structural)]
pub enum MarkerColor {
    Blue,
    Black,
    Gray,
}

/// How a point of the state is drawn: the radius in points, the fill, and
/// whether it gets the light-blue ring of the active point.
#[derive(Debug, Clone, Copy, PartialEq, Eq, Structural)]
pub struct PointMarker {
    pub radius: u8,
    pub fill: MarkerColor,
    pub active_ring: bool,
}

impl PlotState {
    /// Point `i` is the one the user interacts with in the plot of
    /// `component`.
    pub open spec fn interacts_with(&self, component: Component, i: usize) -> bool {
        self.interaction_component == Some(component) && self.interaction_point == Some(i)
    }

    pub open spec fn spec_point_marker(
        &self,
        component: Component,
        i: usize,
        same_sheet_as_active: bool,
    ) -> PointMarker {
        let interactive = self.interacts_with(component, i);
        let active = self.active_point == i;
        PointMarker {
            radius: if interactive && (self.hovered || self.dragged) {
                6u8
            } else if active {
                5u8
            } else {
                4u8
            },
            fill: if active {
                MarkerColor::Blue
            } else if same_sheet_as_active {
                MarkerColor::Black
            } else {
                MarkerColor::Gray
            },
            active_ring: active,
        }
    }

    /// How the plot of `component` draws point `i`; `same_sheet_as_active`
    /// says whether the point is on the sheet of the active point.
    pub fn point_marker(&self, component: Component, i: usize, same_sheet_as_active: bool) -> (r:
        PointMarker)
        ensures
            r == self.spec_point_marker(component, i, same_sheet_as_active),
    {
        let interactive = self.interaction_component == Some(component) && self.interaction_point
            == Some(i);
        let active = self.active_point == i;
        let radius = if interactive && (self.hovered || self.dragged) {
            6
        } else if active {
            5
        } else {
            4
        };
        let fill = if active {
            MarkerColor::Blue
        } else if same_sheet_as_active {
            MarkerColor::Black
        } else {
            MarkerColor::Gray
        };
        PointMarker { radius, fill, active_ring: active }
    }

    /// Records what the pointer does with point `j` of the plot of
    /// `component`: a hovered or dragged point becomes the point interacted
    /// with, and a dragged point becomes the active point.
    pub fn record_point_response(&mut self, j: usize, component: Component, hovered: bool, dragged: bool)
        ensures
            hovered || dragged ==> final(self).interaction_point == Some(j)
                && final(self).interaction_component == Some(component) && final(self).hovered
                == hovered && final(self).dragged == dragged,
            !(hovered || dragged) ==> final(self).interaction_point == old(self).interaction_point
                && final(self).interaction_component == old(self).interaction_component
                && final(self).hovered == old(self).hovered && final(self).dragged == old(
                self,
            ).dragged,
            final(self).active_point == if dragged {
                j
            } else {
                old(self).active_point
            },
            final(self).path_indices@ == old(self).path_indices@,
            final(self).fullscreen_component == old(self).fullscreen_component,
            final(self).cut_filter == old(self).cut_filter,
            final(self).theme == old(self).theme,
    {
        if hovered || dragged {
            self.interaction_point = Some(j);
            self.interaction_component = Some(component);
            self.dragged = dragged;
            self.hovered = hovered;
        }
        if dragged {
            self.active_point = j;
        }
    }
}

/// In an unlocked state the plot of `x⁺` also marks where `x⁻` is, and the
/// plot of `x⁻` where `x⁺` is: the component whose value gets a ring.
pub open spec fn spec_partner_component(unlocked: bool, component: Component) -> Option<Component> {
    if !unlocked {
        None
    } else {
        match component {
            Component::Xp => Some(Component::Xm),
            Component::Xm => Some(Component::Xp),
            _ => None,
        }
    }
}

pub fn partner_component(unlocked: bool, component: Component) -> (r: Option<Component>)
    ensures
        r == spec_partner_component(unlocked, component),
{
    if !unlocked {
        return None;
    }
    match component {
        Component::Xp => Some(Component::Xm),
        Component::Xm => Some(Component::Xp),
        _ => None,
    }
}

/// The colour of the path segments of point `point` of a path: blue for
/// the active point, gray for the others.
pub fn path_color(state: &PlotState, point: usize) -> (r: MarkerColor)
    ensures
        r == if point == state.active_point {
            MarkerColor::Blue
        } else {
            MarkerColor::Gray
        },
{
    if point == state.active_point {
        MarkerColor::Blue
    } else {
        MarkerColor::Gray
    }
}

} // verus!
