use pxu_gui::presentation_description::{
    frame_is_animated, DispRelPlotDescription, IsAnimated, PlotDescription,
    RelativisticComponent, RelativisticCrossingPath, RelativisticPlotDescription, Value,
};

fn rect() -> Value<[[u32; 2]; 2]> {
    Value::Const([[1.0f32.to_bits(), 2.0f32.to_bits()], [3.0f32.to_bits(), 4.0f32.to_bits()]])
}

fn still_plot() -> PlotDescription {
    PlotDescription {
        rect: rect(),
        origin: Some(Value::Const([0, 0])),
        height: None,
    }
}

#[test]
fn component_names_parse_back() {
    for c in [RelativisticComponent::P, RelativisticComponent::Theta] {
        assert_eq!(RelativisticComponent::parse(&c.to_string()), Ok(c));
    }
    assert_eq!(
        "Theta".parse::<RelativisticComponent>(),
        Ok(RelativisticComponent::Theta)
    );
    assert_eq!(RelativisticComponent::P.to_string(), "P");
}

#[test]
fn unknown_component_is_refused() {
    assert_eq!(
        RelativisticComponent::parse("theta"),
        Err("Could not parse component".to_owned())
    );
    assert!(RelativisticComponent::parse("").is_err());
    assert!(RelativisticComponent::parse("P ").is_err());
    assert_eq!(
        "p".parse::<RelativisticComponent>(),
        Err("Could not parse component".to_owned())
    );
}

#[test]
fn crossing_path_ranges() {
    assert_eq!(RelativisticCrossingPath::Upper.p_arc_quarter_turns(), (0, 1, 2));
    assert_eq!(RelativisticCrossingPath::Full.p_arc_quarter_turns(), (-1, 1, 3));
    assert_eq!(RelativisticCrossingPath::Periodic.p_arc_quarter_turns(), (-1, 1, 3));
    assert_eq!(RelativisticCrossingPath::Upper.theta_range_halves(), (0, 1));
    assert_eq!(RelativisticCrossingPath::Full.theta_range_halves(), (-1, 1));
    assert_eq!(RelativisticCrossingPath::Periodic.theta_range_halves(), (-4, 4));
}

#[test]
fn values_animate_only_in_transition() {
    let fixed: Value<u32> = Value::Const(7);
    let moving: Value<u32> = Value::Transition(1, 2, 2.5f64.to_bits());
    assert!(!fixed.is_animated());
    assert!(moving.is_animated());
    assert!(!None::<Value<u32>>.is_animated());
    assert!(Some(Value::Transition(1u32, 2u32, 0)).is_animated());
    assert!(!Some(Value::Const(1u32)).is_animated());
}

#[test]
fn descriptions_animate_when_a_field_moves() {
    assert!(!still_plot().is_animated());
    let mut moving = still_plot();
    moving.height = Some(Value::Transition(1, 2, 3));
    assert!(moving.is_animated());

    let relativistic = RelativisticPlotDescription {
        rect: rect(),
        m: Value::Transition(0, 1, 1.0f64.to_bits()),
        point: None,
        height: None,
        path: Some(RelativisticCrossingPath::Upper),
    };
    assert!(relativistic.is_animated());

    let disp_rel = DispRelPlotDescription {
        rect: rect(),
        height: None,
        origin: Some(Value::Const(0)),
    };
    assert!(!disp_rel.is_animated());
}

#[test]
fn frame_animation() {
    assert!(!frame_is_animated(&vec![], &vec![], &None));
    assert!(!frame_is_animated(&vec![still_plot(), still_plot()], &vec![], &None));
    let mut moving = still_plot();
    moving.origin = Some(Value::Transition([0, 0], [1, 1], 5));
    assert!(frame_is_animated(&vec![still_plot(), moving], &vec![], &None));
    let disp_rel = DispRelPlotDescription {
        rect: Value::Transition([[0, 0], [1, 1]], [[2, 2], [3, 3]], 1),
        height: None,
        origin: None,
    };
    assert!(frame_is_animated(&vec![still_plot()], &vec![], &Some(disp_rel)));
}

#[test]
fn error_carries_message() {
    let e = pxu_gui::make_paths::error("Could not load state");
    assert_eq!(e.kind(), std::io::ErrorKind::Other);
    assert_eq!(e.to_string(), "Could not load state");
    let e = pxu_gui::interactive_figures::error("x");
    assert_eq!(e.kind(), std::io::ErrorKind::Other);
    assert_eq!(e.to_string(), "x");
}
