use tms::Config;
use tms::FsEntry;
use tms::SearchPath;
use tms::Settings;

fn dir(name: &str, entries: Vec<FsEntry>) -> FsEntry {
    FsEntry { name: name.to_string(), is_dir: true, entries: entries }
}

fn file(name: &str) -> FsEntry {
    FsEntry { name: name.to_string(), is_dir: false, entries: Vec::new() }
}

fn strs(v: &[&str]) -> Vec<String> {
    v.iter().map(|s| s.to_string()).collect()
}

/// The listing under `/tmp/t`: `a` (holding `c`), hidden `.b`, and a
/// plain file that must never appear.
fn sample_listing() -> Vec<FsEntry> {
    vec![dir("a", vec![dir("c", Vec::new())]), dir(".b", Vec::new()), file("note.txt")]
}

#[test]
fn hidden_path_test() {
    assert!(tms::is_hidden_path(".hidden"));
    assert!(!tms::is_hidden_path("not_hidden"));
    assert!(tms::is_hidden_path("a/b/.c"));
    assert!(!tms::is_hidden_path("a/b/c"));
}

#[test]
fn walk_depth_zero_yields_root_only() {
    let listing = sample_listing();
    assert_eq!(tms::walk("/tmp/t", &listing, 0, false), strs(&["/tmp/t"]));
    assert_eq!(tms::walk("/tmp/t", &listing, 0, true), strs(&["/tmp/t"]));
}

#[test]
fn walk_depth_one_hidden_off() {
    let listing = sample_listing();
    assert_eq!(tms::walk("/tmp/t", &listing, 1, false), strs(&["/tmp/t/a"]));
}

#[test]
fn walk_depth_two_hidden_off() {
    let listing = sample_listing();
    assert_eq!(tms::walk("/tmp/t", &listing, 2, false), strs(&["/tmp/t/a", "/tmp/t/a/c"]));
}

#[test]
fn walk_depth_one_hidden_on() {
    let listing = sample_listing();
    assert_eq!(tms::walk("/tmp/t", &listing, 1, true), strs(&["/tmp/t/a", "/tmp/t/.b"]));
}

#[test]
fn walk_depth_budget_stops_descent() {
    let deep = vec![dir("l1", vec![dir("l2", vec![dir("l3", Vec::new())])])];
    assert_eq!(tms::walk("/r", &deep, 2, false), strs(&["/r/l1", "/r/l1/l2"]));
    assert_eq!(
        tms::walk("/r", &deep, 3, false),
        strs(&["/r/l1", "/r/l1/l2", "/r/l1/l2/l3"]),
    );
}

#[test]
fn parallel_walker_matches_sequential() {
    let listing = sample_listing();
    for depth in 0u8..4 {
        for hidden in [false, true] {
            assert_eq!(
                Config::find_dir_recursive(hidden, "/tmp/t", &listing, 1, depth),
                tms::walk("/tmp/t", &listing, depth, hidden),
            );
        }
    }
}

#[test]
fn find_dirs_skips_missing_root() {
    let roots = vec![
        tms::ResolvedRoot { path: "/gone".to_string(), depth: 3, show_hidden: false },
        tms::ResolvedRoot { path: "/tmp/t".to_string(), depth: 1, show_hidden: false },
    ];
    let snapshots = vec![None, Some(sample_listing())];
    assert_eq!(Config::find_dirs(&roots, &snapshots), strs(&["/tmp/t/a"]));
}

#[test]
fn find_dirs_merges_in_root_order() {
    let roots = vec![
        tms::ResolvedRoot { path: "/one".to_string(), depth: 1, show_hidden: false },
        tms::ResolvedRoot { path: "/two".to_string(), depth: 0, show_hidden: false },
    ];
    let snapshots = vec![Some(vec![dir("x", Vec::new())]), Some(Vec::new())];
    assert_eq!(Config::find_dirs(&roots, &snapshots), strs(&["/one/x", "/two"]));
}

#[test]
fn per_root_depth_overrides_are_independent() {
    let config = Config {
        settings: Settings { default_depth: 1, picker: None },
        paths: vec![
            SearchPath::Complex {
                path: "/r1".to_string(),
                depth: Some(2),
                show_hidden: None,
            },
            SearchPath::Simple("/r2".to_string()),
        ],
    };
    let roots = config.resolve_roots().unwrap();
    assert_eq!(roots.len(), 2);
    assert_eq!(roots[0].depth, 2);
    assert_eq!(roots[1].depth, 1);

    let tree = || vec![dir("a", vec![dir("b", Vec::new())])];
    let snapshots = vec![Some(tree()), Some(tree())];
    assert_eq!(
        Config::find_dirs(&roots, &snapshots),
        strs(&["/r1/a", "/r1/a/b", "/r2/a"]),
    );
}

#[test]
fn simple_variant_always_takes_defaults() {
    let simple = SearchPath::Simple("/somewhere".to_string());
    assert_eq!(simple.depth(7), 7);
    assert_eq!(simple.depth(0), 0);
    assert!(!simple.show_hidden());

    let overridden = SearchPath::Complex {
        path: "/elsewhere".to_string(),
        depth: Some(3),
        show_hidden: Some(true),
    };
    assert_eq!(overridden.depth(7), 3);
    assert!(overridden.show_hidden());

    let bare = SearchPath::Complex { path: "/elsewhere".to_string(), depth: None, show_hidden: None };
    assert_eq!(bare.depth(7), 7);
    assert!(!bare.show_hidden());
}

#[test]
fn expansion_is_idempotent_without_tokens() {
    let once = tms::expand_path("/plain/path").unwrap();
    assert_eq!(once, "/plain/path");
    let twice = tms::expand_path(&once).unwrap();
    assert_eq!(twice, once);

    let sp = SearchPath::Simple("/plain/path".to_string());
    let expanded = sp.expand().unwrap();
    assert_eq!(expanded.path(), "/plain/path");
    let again = expanded.expand().unwrap();
    assert_eq!(again.path(), expanded.path());
}

#[test]
fn expansion_fails_on_undefined_variable() {
    let err = tms::expand_path("$TMS_SURELY_UNDEFINED_VARIABLE_XYZZY").unwrap_err();
    assert!(matches!(err, tms::Error::EnvError(_)));
}
