//! The frames of a presentation: which plots a frame shows and which of
//! their properties move over time.
use vstd::prelude::*;

verus! {

/// A property of a plot: either fixed, or moving back and forth between two
/// ends.
///
/// The duration of a transition is a number of seconds, kept as the bit
/// pattern of an `f64`.
pub enum Value<T> {
    Const(T),
    Transition(T, T, u64),
}

/// Things that change while a frame is on screen.
pub trait IsAnimated {
    /// Whether some part of `self` moves over time.
    spec fn animated(&self) -> bool;

    fn is_animated(&self) -> (r: bool)
        ensures
            r == self.animated(),
    ;
}

impl<T> IsAnimated for Value<T> {
    open spec fn animated(&self) -> bool {
        self is Transition
    }

    fn is_animated(&self) -> (r: bool) {
        match self {
            Value::Transition(_, _, _) => true,
            Value::Const(_) => false,
        }
    }
}

impl<T: IsAnimated> IsAnimated for Option<T> {
    open spec fn animated(&self) -> bool {
        match self {
            Some(v) => v.animated(),
            None => false,
        }
    }

    fn is_animated(&self) -> (r: bool) {
        if let Some(v) = self {
            v.is_animated()
        } else {
            false
        }
    }
}

/// The two relativistic plots a frame can show.
#[derive(Debug, Clone, Copy, PartialEq, Eq, Hash, Structural)]
pub enum RelativisticComponent {
    P,
    Theta,
}

/// The message of a failed parse of a relativistic component.
pub open spec fn component_parse_error() -> Seq<char> {
    "Could not parse component"@
}

impl RelativisticComponent {
    /// The text that names the component.
    pub open spec fn spec_name(self) -> Seq<char> {
        match self {
            RelativisticComponent::P => "P"@,
            RelativisticComponent::Theta => "Theta"@,
        }
    }

    /// The component that the text `s` names, if any.
    pub open spec fn spec_parse(s: Seq<char>) -> Option<RelativisticComponent> {
        if s == "P"@ {
            Some(RelativisticComponent::P)
        } else if s == "Theta"@ {
            Some(RelativisticComponent::Theta)
        } else {
            None
        }
    }

    /// Reads a component from its name; any other text is refused.
    pub fn parse(s: &str) -> (r: Result<RelativisticComponent, String>)
        ensures
            match r {
                Ok(c) => Self::spec_parse(s@) == Some(c),
                Err(e) => Self::spec_parse(s@) is None && e@ == component_parse_error(),
            },
    {
        let text = s.to_owned();
        if text == "P".to_owned() {
            Ok(RelativisticComponent::P)
        } else if text == "Theta".to_owned() {
            Ok(RelativisticComponent::Theta)
        } else {
            Err("Could not parse component".to_owned())
        }
    }

    /// The name of the component, as it is written in a presentation file.
    pub fn to_string(&self) -> (s: String)
        ensures
            s@ == self.spec_name(),
    {
        match self {
            RelativisticComponent::P => "P".to_owned(),
            RelativisticComponent::Theta => "Theta".to_owned(),
        }
    }
}

impl std::str::FromStr for RelativisticComponent {
    type Err = String;

    fn from_str(s: &str) -> (r: Result<RelativisticComponent, String>)
        ensures
            match r {
                Ok(c) => RelativisticComponent::spec_parse(s@) == Some(c),
                Err(e) => RelativisticComponent::spec_parse(s@) is None && e@
                    == component_parse_error(),
            },
    {
        RelativisticComponent::parse(s)
    }
}

/// Reading back the name of a component gives the component: the names
/// serve as map keys in presentation files.
pub proof fn lemma_component_name_parses_back(c: RelativisticComponent)
    ensures
        RelativisticComponent::spec_parse(c.spec_name()) == Some(c),
{
    reveal_strlit("P");
    reveal_strlit("Theta");
    assert("P"@.len() != "Theta"@.len());
}

/// A text that parses as a component is exactly the name of that component.
pub proof fn lemma_parsed_component_names_its_text(s: Seq<char>)
    requires
        RelativisticComponent::spec_parse(s) is Some,
    ensures
        RelativisticComponent::spec_parse(s)->Some_0.spec_name() == s,
{
}

/// How far around the circle the crossing path of a relativistic plot runs.
#[derive(Debug, Clone, Copy, PartialEq, Eq, Structural)]
pub enum RelativisticCrossingPath {
    Upper,
    Full,
    Periodic,
}

impl RelativisticCrossingPath {
    /// Start, middle and end of the arc drawn in the p plot, as angles in
    /// quarter turns.
    pub open spec fn spec_p_arc_quarter_turns(self) -> (i32, i32, i32) {
        match self {
            RelativisticCrossingPath::Upper => (0, 1, 2),
            RelativisticCrossingPath::Full => (-1i32, 1i32, 3i32),
            RelativisticCrossingPath::Periodic => (-1i32, 1i32, 3i32),
        }
    }

    /// Start and end of the segment drawn in the theta plot, in half units
    /// of theta.
    pub open spec fn spec_theta_range_halves(self) -> (i32, i32) {
        match self {
            RelativisticCrossingPath::Upper => (0, 1),
            RelativisticCrossingPath::Full => (-1i32, 1i32),
            RelativisticCrossingPath::Periodic => (-4i32, 4i32),
        }
    }

    pub fn p_arc_quarter_turns(&self) -> (r: (i32, i32, i32))
        ensures
            r == self.spec_p_arc_quarter_turns(),
    {
        match self {
            RelativisticCrossingPath::Upper => (0, 1, 2),
            RelativisticCrossingPath::Full | RelativisticCrossingPath::Periodic => (-1, 1, 3),
        }
    }

    pub fn theta_range_halves(&self) -> (r: (i32, i32))
        ensures
            r == self.spec_theta_range_halves(),
    {
        match self {
            RelativisticCrossingPath::Upper => (0, 1),
            RelativisticCrossingPath::Full => (-1, 1),
            RelativisticCrossingPath::Periodic => (-4, 4),
        }
    }
}

/// A plot of one of the four pxu components in a frame.  Coordinates are
/// `f32` bit patterns: the rectangle is given in sixteenths of the width and
/// ninths of the height of the screen.
pub struct PlotDescription {
    pub rect: Value<[[u32; 2]; 2]>,
    pub origin: Option<Value<[u32; 2]>>,
    pub height: Option<Value<u32>>,
}

impl IsAnimated for PlotDescription {
    open spec fn animated(&self) -> bool {
        self.rect.animated() || self.origin.animated() || self.height.animated()
    }

    fn is_animated(&self) -> (r: bool) {
        self.rect.is_animated() || self.origin.is_animated() || self.height.is_animated()
    }
}

/// A relativistic plot in a frame; `m` is the mass, `point` the marked
/// point.  Numbers are `f32` bit patterns.
pub struct RelativisticPlotDescription {
    pub rect: Value<[[u32; 2]; 2]>,
    pub m: Value<u32>,
    pub point: Option<Value<[u32; 2]>>,
    pub height: Option<Value<u32>>,
    pub path: Option<RelativisticCrossingPath>,
}

impl IsAnimated for RelativisticPlotDescription {
    open spec fn animated(&self) -> bool {
        self.rect.animated() || self.m.animated() || self.point.animated()
            || self.height.animated()
    }

    fn is_animated(&self) -> (r: bool) {
        self.rect.is_animated() || self.m.is_animated() || self.point.is_animated()
            || self.height.is_animated()
    }
}

/// The plot of the dispersion relation in a frame.  Numbers are `f32` bit
/// patterns.
pub struct DispRelPlotDescription {
    pub rect: Value<[[u32; 2]; 2]>,
    pub height: Option<Value<u32>>,
    pub origin: Option<Value<u32>>,
}

impl IsAnimated for DispRelPlotDescription {
    open spec fn animated(&self) -> bool {
        self.rect.animated() || self.height.animated() || self.origin.animated()
    }

    fn is_animated(&self) -> (r: bool) {
        self.rect.is_animated() || self.height.is_animated() || self.origin.is_animated()
    }
}

/// A plot description moves exactly when one of its fields is a transition.
pub proof fn lemma_plot_animated_iff_a_field_moves(d: PlotDescription)
    ensures
        d.animated() <==> (d.rect is Transition || (d.origin matches Some(v) && v is Transition)
            || (d.height matches Some(v) && v is Transition)),
{
}

/// A relativistic plot moves exactly when its rectangle, mass, point or
/// height is a transition; its crossing path does not move.
pub proof fn lemma_relativistic_plot_animated_iff_a_field_moves(d: RelativisticPlotDescription)
    ensures
        d.animated() <==> (d.rect is Transition || d.m is Transition || (d.point matches Some(v)
            && v is Transition) || (d.height matches Some(v) && v is Transition)),
{
}

/// A dispersion-relation plot moves exactly when one of its fields is a
/// transition.
pub proof fn lemma_disp_rel_plot_animated_iff_a_field_moves(d: DispRelPlotDescription)
    ensures
        d.animated() <==> (d.rect is Transition || (d.height matches Some(v) && v is Transition)
            || (d.origin matches Some(v) && v is Transition)),
{
}

/// Whether a frame showing these plots has to be redrawn continuously:
/// some plot of it moves.
pub fn frame_is_animated(
    plots: &Vec<PlotDescription>,
    relativistic_plots: &Vec<RelativisticPlotDescription>,
    disp_rel_plot: &Option<DispRelPlotDescription>,
) -> (r: bool)
    ensures
        r == ((exists|i: int| 0 <= i < plots.len() && #[trigger] plots[i].animated())
            || (exists|i: int|
            0 <= i < relativistic_plots.len() && #[trigger] relativistic_plots[i].animated())
            || disp_rel_plot.animated()),
{
    let mut i: usize = 0;
    while i < plots.len()
        invariant
            i <= plots.len(),
            forall|j: int| 0 <= j < i ==> !(#[trigger] plots[j].animated()),
        decreases plots.len() - i,
    {
        if plots[i].is_animated() {
            return true;
        }
        i = i + 1;
    }
    let mut k: usize = 0;
    while k < relativistic_plots.len()
        invariant
            k <= relativistic_plots.len(),
            forall|j: int| 0 <= j < plots.len() ==> !(#[trigger] plots[j].animated()),
            forall|j: int| 0 <= j < k ==> !(#[trigger] relativistic_plots[j].animated()),
        decreases relativistic_plots.len() - k,
    {
        if relativistic_plots[k].is_animated() {
            return true;
        }
        k = k + 1;
    }
    disp_rel_plot.is_animated()
}

} // verus!
