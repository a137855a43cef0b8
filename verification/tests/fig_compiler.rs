use pxu_gui::fig_compiler::{latex_errors, lualatex_outcome, text_less, FinishedFigure, LatexFailure, Size};

fn strings(v: &[&str]) -> Vec<String> {
    v.iter().map(|s| s.to_string()).collect()
}

#[test]
fn text_order_is_string_order() {
    let pairs = [("a", "b"), ("a", "ab"), ("", "a"), ("b", "a"), ("ab", "ab"), ("é", "z"), ("Z", "a")];
    for (a, b) in pairs {
        assert_eq!(text_less(&a.to_string(), &b.to_string()), a < b, "{a} {b}");
    }
}

#[test]
fn latex_errors_are_sorted_and_unique() {
    let log = strings(&[
        "This is LuaTeX",
        "! Undefined control sequence.",
        "l.12 \\foo",
        "! Dimension too large.",
        "! Undefined control sequence.",
        "!no space",
        "! ",
    ]);
    assert_eq!(
        latex_errors(&log),
        strings(&["! ", "! Dimension too large.", "! Undefined control sequence."])
    );
    assert!(latex_errors(&vec![]).is_empty());
    let mut shuffled = log.clone();
    shuffled.reverse();
    assert_eq!(latex_errors(&shuffled), latex_errors(&log));
}

#[test]
fn lualatex_outcomes() {
    assert_eq!(lualatex_outcome(true, false, None), Ok(false));
    assert_eq!(lualatex_outcome(false, true, None), Ok(false));
    assert_eq!(lualatex_outcome(false, false, None), Err(LatexFailure::MissingLog));
    assert_eq!(
        lualatex_outcome(false, false, Some(strings(&["! Dimension too large."]))),
        Ok(true)
    );
    assert_eq!(lualatex_outcome(false, false, Some(vec![])), Ok(true));
    assert_eq!(
        lualatex_outcome(
            false,
            false,
            Some(strings(&["! Dimension too large.", "! Missing $ inserted.", "! Other."]))
        ),
        Err(LatexFailure::UnacceptedError("! Missing $ inserted.".to_owned()))
    );
}

#[test]
fn finished_figure_holds_its_size() {
    let f = FinishedFigure {
        name: "p-plane".to_owned(),
        caption: String::new(),
        size: Size { width: 6.0f64.to_bits(), height: 4.0f64.to_bits() },
        lualatex_error: false,
    };
    assert_eq!(f64::from_bits(f.size.width), 6.0);
    assert!(!f.lualatex_error);
}
