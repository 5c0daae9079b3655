use rgsearch::build;
use rgsearch::u32_to_string;
use rgsearch::SearchOptions;
use rgsearch::ValidationError;

fn opts() -> SearchOptions {
    SearchOptions {
        pattern: String::from("needle"),
        directory: String::from("/tmp/hay"),
        case_sensitive: true,
        search_hidden: false,
        max_depth: 3,
        file_type: None,
        include_globs: Vec::new(),
        exclude_globs: Vec::new(),
        context_lines: 0,
    }
}

#[test]
fn depth_in_range_succeeds_out_of_range_fails() {
    for depth in 0u32..=12 {
        let mut o = opts();
        o.max_depth = depth;
        let r = build(&o);
        if (1..=10).contains(&depth) {
            assert!(r.is_ok(), "depth {} should be accepted", depth);
        } else {
            assert_eq!(r.unwrap_err(), ValidationError::DepthOutOfRange);
        }
    }
}

#[test]
fn baseline_argument_vector_is_exact() {
    let args = build(&opts()).unwrap();
    assert_eq!(
        args,
        vec!["--json", "-H", "-n", "-C", "0", "--max-depth", "3", "needle", "/tmp/hay"]
    );
}

#[test]
fn all_options_argument_vector_is_exact() {
    let o = SearchOptions {
        pattern: String::from("fn main"),
        directory: String::from("src"),
        case_sensitive: false,
        search_hidden: true,
        max_depth: 10,
        file_type: Some(String::from("rust")),
        include_globs: vec![String::from("*.rs"), String::from("*.toml")],
        exclude_globs: vec![String::from("target/*")],
        context_lines: 5,
    };
    let args = build(&o).unwrap();
    assert_eq!(
        args,
        vec![
            "--json",
            "-H",
            "-n",
            "-C",
            "5",
            "-i",
            "--hidden",
            "--no-ignore",
            "-t",
            "rust",
            "-g",
            "*.rs",
            "-g",
            "*.toml",
            "-g",
            "!target/*",
            "--max-depth",
            "10",
            "fn main",
            "src"
        ]
    );
}

#[test]
fn identical_options_build_identical_arguments() {
    let a = build(&opts()).unwrap();
    let b = build(&opts()).unwrap();
    assert_eq!(a, b);
}

#[test]
fn empty_glob_entries_produce_no_tokens() {
    let mut o = opts();
    o.include_globs = vec![String::new(), String::from("*.rs"), String::new()];
    o.exclude_globs = vec![String::new(), String::from("*.log")];
    let args = build(&o).unwrap();
    assert_eq!(
        args,
        vec![
            "--json",
            "-H",
            "-n",
            "-C",
            "0",
            "-g",
            "*.rs",
            "-g",
            "!*.log",
            "--max-depth",
            "3",
            "needle",
            "/tmp/hay"
        ]
    );
    assert!(args.iter().all(|t| !t.is_empty()));
}

#[test]
fn hidden_flags_come_and_go_together() {
    let mut o = opts();
    o.search_hidden = true;
    let with = build(&o).unwrap();
    let i = with.iter().position(|t| t == "--hidden").unwrap();
    assert_eq!(with[i + 1], "--no-ignore");

    o.search_hidden = false;
    let without = build(&o).unwrap();
    assert!(!without.iter().any(|t| t == "--hidden"));
    assert!(!without.iter().any(|t| t == "--no-ignore"));
}

#[test]
fn empty_file_type_is_treated_as_absent() {
    let mut o = opts();
    o.file_type = Some(String::new());
    let args = build(&o).unwrap();
    assert!(!args.iter().any(|t| t == "-t"));
}

#[test]
fn case_insensitive_adds_one_flag() {
    let mut o = opts();
    o.case_sensitive = false;
    let args = build(&o).unwrap();
    assert_eq!(args.iter().filter(|t| t.as_str() == "-i").count(), 1);
}

#[test]
fn decimal_rendering_is_exact() {
    assert_eq!(u32_to_string(0), "0");
    assert_eq!(u32_to_string(7), "7");
    assert_eq!(u32_to_string(10), "10");
    assert_eq!(u32_to_string(987), "987");
    assert_eq!(u32_to_string(u32::MAX), "4294967295");
}
