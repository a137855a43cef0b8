use pxu_gui::interactive_figures::Settings;
use pxu_gui::make_paths::{contour_statistics, missing_path_error, path_statistics};
use pxu_gui::provider::{ContourProvider, PathProvider, PxuProvider, Registry};

fn strings(v: &[&str]) -> Vec<String> {
    v.iter().map(|s| s.to_string()).collect()
}

#[test]
fn statistics_texts() {
    assert_eq!(path_statistics(&strings(&["a", "b"]), &strings(&["b", "a"])), "All paths were used.");
    assert_eq!(
        path_statistics(&strings(&["a", "b", "c"]), &strings(&["b"])),
        "The following paths were not used:\n- \"a\"\n- \"c\""
    );
    assert_eq!(contour_statistics(&vec![], &vec![]), "All contours were used.");
    assert_eq!(
        contour_statistics(&strings(&["2.000 5"]), &vec![]),
        "The following contours were not used:\n- 2.000 5"
    );
}

#[test]
fn registry_reads_back_what_was_added() {
    let mut r: Registry<u32> = Registry::new();
    r.add("one", 1);
    r.add("two", 2);
    r.add("one", 11);
    assert_eq!(r.get("one"), Some(&11));
    assert_eq!(r.get("two"), Some(&2));
    assert_eq!(r.get("three"), None);
    assert_eq!(r.held_names(), strings(&["one", "two"]));
    assert_eq!(r.seen_names(), &strings(&["one", "two", "three"]));
}

#[test]
fn path_provider() {
    let mut p: PathProvider<&str, u32> = PathProvider::new();
    p.add("u simple path 1", "path-1", 10);
    p.add("xp large circle", "path-2", 20);
    assert_eq!(*p.get_path("u simple path 1").unwrap(), "path-1");
    assert_eq!(*p.get_start("u simple path 1").unwrap(), 10);
    let e = p.get_path("missing").unwrap_err();
    assert_eq!(e.kind(), std::io::ErrorKind::Other);
    assert_eq!(e.to_string(), "Could not find path for missing");
    assert_eq!(p.get_start("missing").unwrap_err().to_string(), "Could not find start for missing");
    assert_eq!(
        p.get_statistics(),
        "The following paths were not used:\n- \"xp large circle\""
    );
    assert_eq!(missing_path_error("x").to_string(), "Could not find path for x");
}

#[test]
fn contour_and_pxu_provider() {
    let mut c: ContourProvider<u8> = ContourProvider::new();
    c.add("2.000 5", 1);
    assert_eq!(c.get("2.000 5", "h=2 k=5").ok(), Some(&1));
    assert_eq!(
        c.get("7.000 3", "CouplingConstants { h: 7.0, kslash: 3 }").unwrap_err().to_string(),
        "Could not find contour for CouplingConstants { h: 7.0, kslash: 3 }"
    );
    assert_eq!(c.get_statistics(), "All contours were used.");

    let mut p: PxuProvider<u8, u8, u8> = PxuProvider::new();
    p.add_contours("2.000 5", 3);
    p.add_path("p crossing a", 4, 5);
    assert_eq!(p.get_contours("2.000 5", "").ok(), Some(&3));
    assert_eq!(p.get_start("p crossing a").ok(), Some(&5));
    assert_eq!(
        p.get_statistics(),
        "All contours were used.\nAll paths were used."
    );
    assert!(p.get_path("nope").is_err());
}

#[test]
fn settings() {
    let s = Settings { output_dir: "./out".into(), rebuild: false, verbose: 0, jobs: Some(3) };
    assert!(!s.is_verbose());
    assert_eq!(s.thread_count(8), 3);
    let s = Settings { jobs: None, verbose: 2, ..s };
    assert!(s.is_verbose());
    assert_eq!(s.thread_count(8), 8);
}

#[test]
fn contour_report_lists_the_constants_never_asked_for() {
    let mut cp: ContourProvider<u8> = ContourProvider::new();
    cp.add("2.000 5", 1);
    cp.add("7.000 3", 2);
    let _ = cp.get("2.000 5", "h=2 k=5");
    assert_eq!(cp.get_statistics(), "The following contours were not used:\n- 7.000 3");
    let _ = cp.get("7.000 3", "h=7 k=3");
    assert_eq!(cp.get_statistics(), "All contours were used.");

    let mut pp: PathProvider<u8, u8> = PathProvider::new();
    pp.add("a", 1, 2);
    pp.add("b", 3, 4);
    pp.add("a", 5, 6);
    let _ = pp.get_path("b");
    assert_eq!(pp.get_statistics(), "The following paths were not used:\n- \"a\"");

    let mut fresh: PxuProvider<u8, u8, u8> = PxuProvider::new();
    assert_eq!(fresh.get_statistics(), "All contours were used.\nAll paths were used.");
    assert!(fresh.get_contours("2.000 5", "").is_err());
    assert!(fresh.get_path("p crossing a").is_err());
}
