//! The names that the plots use for the kinematic variables and their cuts.
use vstd::prelude::*;

verus! {

/// One of the four complex variables that are plotted.
#[derive(Debug, Clone, Copy, PartialEq, Eq, Hash, Structural)]
pub enum Component {
    P,
    Xp,
    Xm,
    U,
}

/// The kind of a branch cut; most cuts belong to the variable `x⁺` or
/// `x⁻` given as their argument.
#[derive(Debug, Clone, Copy, PartialEq, Eq, Hash, Structural)]
pub enum CutType {
    E,
    Log(Component),
    ULongPositive(Component),
    ULongNegative(Component),
    UShortScallion(Component),
    UShortKidney(Component),
    DebugPath,
}

/// The region of the `u` plane that a point is in, seen from `x⁺` or `x⁻`.
#[derive(Debug, Clone, Copy, PartialEq, Eq, Hash, Structural)]
pub enum UBranch {
    Outside,
    Between,
    Inside,
}

} // verus!
