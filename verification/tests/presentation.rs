use pxu_gui::components::Component;
use pxu_gui::plot::{CutFilter, PlotState};
use pxu_gui::presentation::{
    canonical_images, next_frame_index, rebuild_plan, start_frame, PlotView, PlotViews, PresentationCache,
    RebuildPlan,
};
use pxu_gui::presentation_description::{PlotDescription, Value};

fn strings(v: &[&str]) -> Vec<String> {
    v.iter().map(|s| s.to_string()).collect()
}

#[test]
fn frames_advance_and_go_back() {
    let timed = vec![false, true, true, false, true];
    assert_eq!(next_frame_index(&timed, 0, true, false), 1);
    assert_eq!(next_frame_index(&timed, 4, true, false), 4);
    assert_eq!(next_frame_index(&timed, 2, false, false), 2);
    // Going back skips the frames that move on by themselves.
    assert_eq!(next_frame_index(&timed, 3, false, true), 0);
    assert_eq!(next_frame_index(&timed, 4, false, true), 3);
    assert_eq!(next_frame_index(&timed, 0, false, true), 0);
    assert_eq!(next_frame_index(&timed, 3, true, true), 3);
    let all_timed = vec![true, true, true];
    assert_eq!(next_frame_index(&all_timed, 2, false, true), 0);
}

#[test]
fn rebuild_decisions() {
    let cache = PresentationCache { pdf_hash: "aa".into(), toml_hash: "bb".into() };
    let pdf: String = "aa".into();
    assert_eq!(
        rebuild_plan(false, &pdf, &None, false),
        RebuildPlan { rebuild: true, rebuild_pdf: true }
    );
    assert_eq!(
        rebuild_plan(false, &pdf, &Some((cache.clone(), "bb".into())), false),
        RebuildPlan { rebuild: false, rebuild_pdf: false }
    );
    assert_eq!(
        rebuild_plan(false, &pdf, &Some((cache.clone(), "cc".into())), false),
        RebuildPlan { rebuild: true, rebuild_pdf: false }
    );
    assert_eq!(
        rebuild_plan(false, &"dd".into(), &Some((cache.clone(), "bb".into())), false),
        RebuildPlan { rebuild: true, rebuild_pdf: true }
    );
    assert_eq!(
        rebuild_plan(false, &pdf, &Some((cache.clone(), "bb".into())), true),
        RebuildPlan { rebuild: true, rebuild_pdf: true }
    );
    assert_eq!(
        rebuild_plan(true, &pdf, &Some((cache, "bb".into())), false),
        RebuildPlan { rebuild: true, rebuild_pdf: true }
    );
}

#[test]
fn images_with_equal_content_are_merged() {
    let images = strings(&["p-1.png", "p-2.png", "p-3.png", "p-1.png", "p-4.png"]);
    let hashes = strings(&["h1", "h2", "h1", "h1", "h2"]);
    assert_eq!(
        canonical_images(&images, &hashes),
        strings(&["p-1.png", "p-2.png", "p-1.png", "p-1.png", "p-2.png"])
    );
    let merged = canonical_images(&images, &hashes);
    assert_eq!(canonical_images(&merged, &hashes), merged);
    assert!(canonical_images(&vec![], &vec![]).is_empty());
}

#[test]
fn starting_a_frame_takes_its_fixed_views_and_cut_filter() {
    let view = PlotView { origin: [0.0f32.to_bits(), 0.0f32.to_bits()], height: 4.0f32.to_bits() };
    let mut views = PlotViews { p: view, xp: view, xm: view, u: view };
    let mut state = PlotState::default();
    let plots = vec![
        (
            Component::Xp,
            PlotDescription {
                rect: Value::Const([[0, 0], [1, 1]]),
                origin: Some(Value::Const([1.5f32.to_bits(), (-2.0f32).to_bits()])),
                height: Some(Value::Transition(1.0f32.to_bits(), 2.0f32.to_bits(), 1.0f64.to_bits())),
            },
        ),
        (
            Component::U,
            PlotDescription { rect: Value::Const([[0, 0], [1, 1]]), origin: None, height: Some(Value::Const(8.0f32.to_bits())) },
        ),
    ];
    start_frame(&mut views, &mut state, &plots, Some(CutFilter::NoCuts));
    assert_eq!(f32::from_bits(views.xp.origin[0]), 1.5);
    assert_eq!(f32::from_bits(views.xp.origin[1]), -2.0);
    assert_eq!(f32::from_bits(views.xp.height), 4.0);
    assert_eq!(f32::from_bits(views.u.height), 8.0);
    assert_eq!(views.u.origin, view.origin);
    assert_eq!(views.p.origin, view.origin);
    assert_eq!(views.xm.height, view.height);
    assert!(matches!(state.cut_filter, CutFilter::NoCuts));

    start_frame(&mut views, &mut state, &vec![], None);
    assert!(matches!(state.cut_filter, CutFilter::NoCuts));
}
