use pxu_gui::components::{Component, CutType, UBranch};
use pxu_gui::fig_writer::{
    addplot_coordinates, addplot_custom, branch_runs, component_indicator, component_tex_name,
    crop_indices, cut_in_figure, cut_layers, cut_shifts, cut_style, dedup_coordinates, draw, node,
    path_plot_order,
    BranchRun, CutColor, CutStroke,
};

#[test]
fn crop_keeps_points_of_kept_segments() {
    assert_eq!(crop_indices(&vec![]), Vec::<usize>::new());
    assert_eq!(crop_indices(&vec![true]), vec![0, 1]);
    assert_eq!(crop_indices(&vec![false]), Vec::<usize>::new());
    assert_eq!(crop_indices(&vec![false, true, false, false]), vec![1, 2]);
    assert_eq!(crop_indices(&vec![true, false, false, true]), vec![0, 1, 3, 4]);
}

#[test]
fn dedup_removes_consecutive_repeats_only() {
    let v: Vec<String> = ["(0,0)", "(0,0)", "(1,0)", "(0,0)", "(0,0)"]
        .iter()
        .map(|s| s.to_string())
        .collect();
    assert_eq!(dedup_coordinates(v), vec!["(0,0)", "(1,0)", "(0,0)"]);
    let once = dedup_coordinates(vec!["a".into(), "a".into(), "b".into()]);
    assert_eq!(dedup_coordinates(once.clone()), once);
    assert!(dedup_coordinates(vec![]).is_empty());
}

#[test]
fn cut_styles() {
    assert_eq!(cut_style(CutType::E), Some((CutColor::Black, CutStroke::Straight)));
    assert_eq!(cut_style(CutType::Log(Component::Xp)), Some((CutColor::Red, CutStroke::Zigzag)));
    assert_eq!(cut_style(CutType::ULongNegative(Component::Xm)), Some((CutColor::Green, CutStroke::Dashed)));
    assert_eq!(cut_style(CutType::UShortKidney(Component::Xp)), Some((CutColor::Red, CutStroke::Dashed)));
    assert_eq!(cut_style(CutType::Log(Component::U)), None);
    assert_eq!(cut_style(CutType::DebugPath), None);
    assert_eq!(CutColor::Green.tikz(), "Green");
    assert_eq!(CutStroke::Dashed.tikz(), "very thick,densely dashed");
    assert_eq!(
        CutStroke::Zigzag.tikz(),
        "decorate,decoration={zigzag, segment length=1.2mm, amplitude=0.15mm},thick"
    );
}

#[test]
fn cuts_in_figures() {
    let outside = (UBranch::Outside, UBranch::Outside);
    assert!(cut_in_figure(CutType::E, Component::P, outside));
    assert!(cut_in_figure(CutType::Log(Component::Xp), Component::Xp, outside));
    assert!(!cut_in_figure(CutType::Log(Component::Xp), Component::Xp, (UBranch::Outside, UBranch::Between)));
    assert!(cut_in_figure(CutType::ULongPositive(Component::Xm), Component::Xm, (UBranch::Inside, UBranch::Between)));
    assert!(!cut_in_figure(CutType::ULongPositive(Component::Xm), Component::Xp, outside));
    assert!(!cut_in_figure(CutType::ULongNegative(Component::Xp), Component::Xp, outside));
    assert!(cut_in_figure(CutType::UShortKidney(Component::Xp), Component::U, outside));
    assert!(!cut_in_figure(CutType::DebugPath, Component::P, outside));
}

#[test]
fn tex_names_and_lines() {
    assert_eq!(component_tex_name(Component::Xp), "x^+");
    assert_eq!(component_tex_name(Component::Xm), "x^-");
    assert_eq!(
        addplot_coordinates(&["very thin", "lightgray"], &["(0.00000,1.00000)", "(1.00000,1.00000)"]),
        "\\addplot [very thin,lightgray] coordinates { (0.00000,1.00000) (1.00000,1.00000) };"
    );
    assert_eq!(addplot_coordinates(&[], &["(0,0)"]), "\\addplot [] coordinates { (0,0) };");
    assert_eq!(
        addplot_custom(&["Blue"], "{x^2}"),
        "\\addplot [Blue] {x^2};"
    );
    assert_eq!(
        node("(1.00000,2.00000)", &["anchor=south", "Black"], "$m$"),
        "\\node at (1.00000,2.00000) [anchor=south,Black] {$m$};"
    );
    assert_eq!(draw("(0,0) -- (1,1)", &["thick"]), "\\draw [thick] (0,0) -- (1,1);");
    assert_eq!(
        component_indicator(Component::U),
        "\\node at (current bounding box.north east) [anchor=north east,fill=white,outer sep=0.1cm,draw,thin] {$\\scriptstyle u$};"
    );
}

#[test]
fn branch_runs_split_by_sheet() {
    assert!(branch_runs(&vec![]).is_empty());
    assert_eq!(
        branch_runs(&vec![true, true, false, true]),
        vec![
            BranchRun { same_branch: true, start: 0, end: 2 },
            BranchRun { same_branch: false, start: 2, end: 3 },
            BranchRun { same_branch: true, start: 3, end: 4 },
        ]
    );
    assert_eq!(
        branch_runs(&vec![false]),
        vec![BranchRun { same_branch: false, start: 0, end: 1 }]
    );
}

#[test]
fn dashed_cuts_get_a_grey_underlay_and_marks_shrink_on_semithick_figures() {
    let layers = cut_layers(CutType::UShortKidney(Component::Xp), &["semithick"]).unwrap();
    assert_eq!(
        layers.underlay,
        Some(vec!["lightgray".to_string(), "very thick".to_string(), "semithick".to_string()])
    );
    assert_eq!(
        layers.line,
        vec!["Red".to_string(), "very thick,densely dashed".to_string(), "semithick".to_string()]
    );
    assert_eq!(
        layers.marks,
        vec![
            "Red".to_string(),
            "only marks".to_string(),
            "mark size=0.03cm".to_string(),
            "semithick".to_string()
        ]
    );

    let layers = cut_layers(CutType::E, &[]).unwrap();
    assert_eq!(layers.underlay, None);
    assert_eq!(layers.line, vec!["black".to_string(), "very thick".to_string()]);
    assert_eq!(
        layers.marks,
        vec!["black".to_string(), "only marks".to_string(), "mark size=0.05cm".to_string()]
    );

    assert!(cut_layers(CutType::DebugPath, &["thin"]).is_none());
    assert!(cut_layers(CutType::Log(Component::U), &[]).is_none());
}

#[test]
fn periodic_u_cuts_are_drawn_eleven_times() {
    let shifts = cut_shifts(Component::U, true);
    assert_eq!(shifts, (-5..=5).map(Some).collect::<Vec<_>>());
    assert_eq!(cut_shifts(Component::U, false), vec![None]);
    assert_eq!(cut_shifts(Component::Xp, true), vec![None]);
}

#[test]
fn cropping_keeps_included_contours_whole_and_is_idempotent() {
    assert_eq!(crop_indices(&vec![true, true, true]), vec![0, 1, 2, 3]);
    for pairs in [vec![true, false, false, true], vec![false, true, false], vec![false, false]] {
        let kept = crop_indices(&pairs);
        assert_ne!(kept.len(), 1);
        assert!(kept.len() <= pairs.len() + 1);
        if !kept.is_empty() {
            // Segments between former neighbours are judged as before; the
            // new segments across a gap are judged either way.
            for gap in [false, true] {
                let again = (0..kept.len() - 1)
                    .map(|k| if kept[k] + 1 == kept[k + 1] { pairs[kept[k]] } else { gap })
                    .collect::<Vec<_>>();
                assert_eq!(crop_indices(&again), (0..kept.len()).collect::<Vec<_>>());
            }
        }
    }
}

#[test]
fn dotted_runs_are_drawn_before_solid_ones() {
    let runs = branch_runs(&vec![true, true, false, true, false]);
    let order = path_plot_order(&runs);
    let got = order.iter().map(|r| (r.same_branch, r.start, r.end)).collect::<Vec<_>>();
    assert_eq!(got, vec![(false, 2, 3), (false, 4, 5), (true, 0, 2), (true, 3, 4)]);
    assert!(path_plot_order(&vec![]).is_empty());
}

fn crop_points(contour: &[i32], passes: impl Fn(i32, i32) -> bool) -> Vec<i32> {
    if contour.len() < 2 {
        return vec![];
    }
    let pairs = contour.windows(2).map(|w| passes(w[0], w[1])).collect::<Vec<_>>();
    crop_indices(&pairs).into_iter().map(|k| contour[k]).collect()
}

#[test]
fn cropping_a_cropped_contour_changes_nothing() {
    let near = |a: i32, b: i32| a.abs() < 3 || b.abs() < 3;
    let contour = vec![-9, -4, -2, 7, 8, 9, 1, 5, 20, 21];
    let once = crop_points(&contour, near);
    assert_eq!(once, vec![-4, -2, 7, 9, 1, 5]);
    assert_eq!(crop_points(&once, near), once);
    let inside = vec![0, 1, -1, 2];
    assert_eq!(crop_points(&inside, near), inside);
}
