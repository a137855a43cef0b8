use pxu_gui::components::{Component, CutType, UBranch};
use pxu_gui::plot::{
    component_label, cut_color, cut_is_dashed, cut_period_multiples, hides_log_cut, partner_component, path_color,
    CutFilter, MarkerColor, PlotState, PointMarker, Theme,
};

#[test]
fn defaults() {
    assert!(Theme::default() == Theme::Normal);
    assert!(matches!(CutFilter::default(), CutFilter::All));
    let s = PlotState::default();
    assert_eq!(s.active_point, 0);
    assert_eq!(s.fullscreen_component, None);
    assert!(s.path_indices.is_empty());
}

#[test]
fn cut_filter_admits() {
    assert!(CutFilter::All.admits(CutType::E));
    assert!(!CutFilter::NoCuts.admits(CutType::E));
    let only = CutFilter::Only(vec![CutType::Log(Component::Xp), CutType::E]);
    assert!(only.admits(CutType::E));
    assert!(only.admits(CutType::Log(Component::Xp)));
    assert!(!only.admits(CutType::Log(Component::Xm)));
}

#[test]
fn toggling_fullscreen_twice_restores() {
    let mut s = PlotState::default();
    s.toggle_fullscreen(Component::U);
    assert_eq!(s.fullscreen_component, Some(Component::U));
    s.toggle_fullscreen(Component::U);
    assert_eq!(s.fullscreen_component, None);
    // Toggling another plot while one is open closes it.
    s.toggle_fullscreen(Component::P);
    s.toggle_fullscreen(Component::Xp);
    assert_eq!(s.fullscreen_component, None);
    s.toggle_fullscreen(Component::Xm);
    s.close_fullscreen();
    assert_eq!(s.fullscreen_component, None);
}

#[test]
fn reset_forgets_the_interaction_only() {
    let mut s = PlotState::default();
    s.record_point_response(3, Component::Xp, true, true);
    assert_eq!(s.interaction_point, Some(3));
    assert_eq!(s.interaction_component, Some(Component::Xp));
    assert_eq!(s.active_point, 3);
    s.reset();
    assert_eq!(s.interaction_point, None);
    assert_eq!(s.interaction_component, None);
    assert_eq!(s.active_point, 3);
    assert!(s.hovered && s.dragged);
}

#[test]
fn hovering_does_not_move_the_active_point() {
    let mut s = PlotState::default();
    s.record_point_response(2, Component::U, true, false);
    assert_eq!(s.active_point, 0);
    assert_eq!(s.interaction_point, Some(2));
    s.record_point_response(5, Component::U, false, false);
    assert_eq!(s.interaction_point, Some(2));
}

#[test]
fn cut_colors() {
    let outside = (UBranch::Outside, UBranch::Outside);
    let between = (UBranch::Between, UBranch::Between);
    assert_eq!(cut_color(Theme::Black, CutType::ULongNegative(Component::Xp), Component::Xp, outside), Some((0, 0, 0)));
    assert_eq!(cut_color(Theme::Normal, CutType::E, Component::P, outside), Some((0, 0, 0)));
    assert_eq!(cut_color(Theme::Normal, CutType::Log(Component::Xp), Component::Xp, outside), Some((255, 128, 128)));
    assert_eq!(cut_color(Theme::Normal, CutType::Log(Component::Xm), Component::Xm, outside), Some((128, 255, 128)));
    assert_eq!(cut_color(Theme::Normal, CutType::Log(Component::Xp), Component::Xm, outside), None);
    assert_eq!(cut_color(Theme::Normal, CutType::Log(Component::Xp), Component::Xp, between), None);
    assert_eq!(cut_color(Theme::Normal, CutType::ULongNegative(Component::Xp), Component::Xp, outside), None);
    assert_eq!(cut_color(Theme::Normal, CutType::ULongPositive(Component::Xm), Component::Xm, outside), Some((0, 192, 0)));
    assert_eq!(cut_color(Theme::Normal, CutType::UShortScallion(Component::Xp), Component::U, between), Some((255, 0, 0)));
    assert_eq!(cut_color(Theme::Normal, CutType::UShortKidney(Component::Xm), Component::U, between), Some((0, 192, 0)));
    assert_eq!(cut_color(Theme::Normal, CutType::DebugPath, Component::P, outside), Some((255, 128, 0)));
    assert!(hides_log_cut(Component::Xm, Component::Xm, (UBranch::Between, UBranch::Outside)));
    assert!(!hides_log_cut(Component::Xm, Component::Xm, (UBranch::Outside, UBranch::Between)));
    assert!(cut_is_dashed(CutType::UShortKidney(Component::Xp)));
    assert!(!cut_is_dashed(CutType::E));
}

#[test]
fn labels() {
    assert_eq!(component_label(Component::P, Theme::Normal), "p");
    assert_eq!(component_label(Component::U, Theme::Black), "u");
    assert_eq!(component_label(Component::Xp, Theme::Normal), "x⁺");
    assert_eq!(component_label(Component::Xp, Theme::Black), "x");
    assert_eq!(component_label(Component::Xm, Theme::Black), "x⁻");
}

#[test]
fn point_markers() {
    let mut s = PlotState::default();
    s.record_point_response(1, Component::P, true, false);
    assert_eq!(
        s.point_marker(Component::P, 1, true),
        PointMarker { radius: 6, fill: MarkerColor::Black, active_ring: false }
    );
    assert_eq!(
        s.point_marker(Component::U, 1, false),
        PointMarker { radius: 4, fill: MarkerColor::Gray, active_ring: false }
    );
    assert_eq!(
        s.point_marker(Component::U, 0, false),
        PointMarker { radius: 5, fill: MarkerColor::Blue, active_ring: true }
    );
    assert_eq!(partner_component(true, Component::Xp), Some(Component::Xm));
    assert_eq!(partner_component(true, Component::Xm), Some(Component::Xp));
    assert_eq!(partner_component(true, Component::U), None);
    assert_eq!(partner_component(false, Component::Xp), None);
    assert_eq!(path_color(&s, 0), MarkerColor::Blue);
    assert_eq!(path_color(&s, 1), MarkerColor::Gray);
}

#[test]
fn periodic_cuts_are_drawn_in_eleven_copies() {
    assert_eq!(cut_period_multiples(true), (-5..=5).collect::<Vec<i32>>());
    assert_eq!(cut_period_multiples(false), vec![0]);
}
