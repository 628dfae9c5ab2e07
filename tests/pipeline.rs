use mdbook_keeper::book::{deps_dir, fingerprint_dir, get_tests_from_items, KeeperConfig, KeeperConfigParser, Page};
use mdbook_keeper::cache::{clean_file, get_binary_path, get_test_path, plan_test, TestAction};
use mdbook_keeper::extract::{extract_tests_from_string, parse_code_block_info, Test};
use mdbook_keeper::outcome::{
    after_compile, after_run, compile_args, compile_mode, count_cached, edition_str, newest_edition,
    CompileStep, CompileType, Edition, LinkSetup, ProcessOutput, TestResult,
};
use mdbook_keeper::resolve::{Fingerprint, LockedDeps};

fn output(code: i32) -> ProcessOutput {
    ProcessOutput { status: Some(code), stdout: b"out".to_vec(), stderr: Vec::new() }
}

fn test_with(info: &str) -> Test {
    let doc = format!("```{}\nfn main() {{}}\n```\n", info);
    let (mut tests, _) = extract_tests_from_string(&doc, "p");
    tests.remove(0)
}

fn run_outcome(test: &Test, compile_code: i32, run_code: i32) -> TestResult {
    match after_compile(compile_mode(test), output(compile_code)) {
        CompileStep::Finished(r) => r,
        CompileStep::RunBinary(o) => after_run(o, run_code == 0),
    }
}

fn stem_of(test: &Test) -> String {
    format!("keeper_{}", test.hash)
}

#[test]
fn expectation_table() {
    let plain = test_with("rust");
    let panics = test_with("rust,should_panic");
    let fails = test_with("rust,compile_fail");
    let ok = TestResult::Successful(output(0));
    let cf = TestResult::CompileFailed(output(1));
    let rf = TestResult::RunFailed(output(0));
    assert!(ok.met_test_expectations(&plain));
    assert!(!ok.met_test_expectations(&panics));
    assert!(!ok.met_test_expectations(&fails));
    assert!(!cf.met_test_expectations(&plain));
    assert!(cf.met_test_expectations(&fails));
    assert!(!rf.met_test_expectations(&plain));
    assert!(rf.met_test_expectations(&panics));
    assert!(TestResult::Cached.met_test_expectations(&plain));
    assert!(TestResult::Cached.met_test_expectations(&fails));
}

#[test]
fn plain_block_passes_and_is_kept() {
    let t = test_with("rust");
    let r = run_outcome(&t, 0, 0);
    assert!(matches!(r, TestResult::Successful(_)));
    assert!(r.met_test_expectations(&t));
    let stem = stem_of(&t);
    let results = vec![(t, r)];
    assert_eq!(clean_file(&results, &stem), Some(false));
}

#[test]
fn should_panic_run_failure_meets() {
    let t = test_with("rust,should_panic");
    let r = run_outcome(&t, 0, 101);
    assert!(matches!(r, TestResult::RunFailed(_)));
    assert!(r.met_test_expectations(&t));
}

#[test]
fn compile_fail_expectations() {
    let t = test_with("rust,compile_fail");
    let r = run_outcome(&t, 1, 0);
    assert!(matches!(r, TestResult::CompileFailed(_)));
    assert!(r.met_test_expectations(&t));
    let r2 = run_outcome(&t, 0, 0);
    assert!(matches!(r2, TestResult::Successful(_)));
    assert!(!r2.met_test_expectations(&t));
    let stem = stem_of(&t);
    let results = vec![(t, r2)];
    assert_eq!(clean_file(&results, &stem), Some(true));
}

#[test]
fn check_mode_success_is_not_run() {
    let t = test_with("rust,no_run");
    assert_eq!(compile_mode(&t), CompileType::Check);
    match after_compile(CompileType::Check, output(0)) {
        CompileStep::Finished(TestResult::Successful(o)) => assert_eq!(o.stdout, b"out".to_vec()),
        _ => panic!("a clean check is a success"),
    }
    let r = run_outcome(&t, 0, 1);
    assert!(matches!(r, TestResult::Successful(_)));
}

#[test]
fn signal_is_not_success() {
    let o = ProcessOutput { status: None, stdout: Vec::new(), stderr: Vec::new() };
    assert!(!o.success());
    assert!(matches!(after_compile(CompileType::Full, o), CompileStep::Finished(TestResult::CompileFailed(_))));
}

#[test]
fn shared_block_across_pages() {
    let pages = vec![
        Page { name: "One".to_string(), path_stem: Some("one".to_string()), content: "```rust\nlet v = 7;\n```\n".to_string() },
        Page { name: "Two".to_string(), path_stem: Some("two".to_string()), content: "# T\n\n```rust\nlet v = 7;\n```\n".to_string() },
    ];
    let tests = get_tests_from_items(&pages);
    assert_eq!(tests.len(), 2);
    assert_eq!(tests[0].hash, tests[1].hash);
    assert_eq!(get_test_path(&tests[0], "/w"), get_test_path(&tests[1], "/w"));
    let stem = stem_of(&tests[0]);
    // The page that remains still has the block: its file stays.
    let remaining = vec![(tests[1].clone(), TestResult::Successful(output(0)))];
    assert_eq!(clean_file(&remaining, &stem), Some(false));
    // The remaining block was edited: the shared file goes.
    let (edited, _) = extract_tests_from_string("```rust\nlet v = 8;\n```\n", "two");
    let after_edit = vec![(edited[0].clone(), TestResult::Successful(output(0)))];
    assert_eq!(clean_file(&after_edit, &stem), Some(true));
}

#[test]
fn clean_file_ignores_other_files() {
    let results: Vec<(Test, TestResult)> = Vec::new();
    assert_eq!(clean_file(&results, "notes"), None);
    assert_eq!(clean_file(&results, "keeper_abc"), Some(true));
}

#[test]
fn cached_result_is_kept() {
    let t = test_with("rust,should_panic");
    let stem = stem_of(&t);
    let results = vec![(t, TestResult::Cached)];
    assert_eq!(clean_file(&results, &stem), Some(false));
    assert_eq!(count_cached(&results), 1);
}

#[test]
fn plan_for_each_case() {
    let t = test_with("rust");
    assert!(matches!(plan_test(&t, "/w", true), TestAction::UseCache));
    match plan_test(&t, "/w", false) {
        TestAction::Compile { path, source, mode } => {
            assert_eq!(path, format!("/w/keeper_{}.rs", t.hash));
            assert_eq!(source, "fn main() {}\n");
            assert_eq!(mode, CompileType::Full);
        }
        _ => panic!("an uncached test is compiled"),
    }
    let ig = test_with("rust,ignore");
    assert!(matches!(plan_test(&ig, "/w", false), TestAction::Skip));
    assert!(matches!(plan_test(&ig, "/w", true), TestAction::Skip));
}

#[test]
fn second_run_is_all_cached() {
    let t = test_with("rust");
    let path = get_test_path(&t, "/w/");
    assert_eq!(path, format!("/w/keeper_{}.rs", t.hash));
    assert!(matches!(plan_test(&t, "/w/", true), TestAction::UseCache));
    assert_eq!(get_binary_path(&t, "/w"), format!("/w/keeper_{}.exe", t.hash));
}

#[test]
fn labels_for_report() {
    let plain = test_with("rust");
    let panics = test_with("rust,should_panic");
    assert_eq!(TestResult::Successful(output(0)).result_label(&plain), Some(("(Passed)", true)));
    assert_eq!(TestResult::Successful(output(0)).result_label(&panics), Some(("(Unexpectedly suceeded)", false)));
    assert_eq!(TestResult::RunFailed(output(1)).result_label(&panics), Some(("(Panicked as expected)", true)));
    assert_eq!(TestResult::RunFailed(output(1)).result_label(&plain), Some(("(Panicked)", false)));
    assert_eq!(TestResult::CompileFailed(output(1)).result_label(&plain), Some(("(Failed to compile)", false)));
    assert_eq!(TestResult::Cached.result_label(&plain), None);
}

#[test]
fn compile_arguments_full_without_manifest() {
    let args = compile_args("/w/keeper_h.rs", "/w/keeper_h.exe", CompileType::Full, false, &None);
    assert_eq!(
        args,
        vec!["/w/keeper_h.rs", "--verbose", "--color=never", "--crate-type=bin", "-o", "/w/keeper_h.exe"]
    );
}

#[test]
fn compile_arguments_check_with_dependencies() {
    let link = LinkSetup {
        edition: Edition::E2021,
        target_dir: "/t".to_string(),
        deps_dir: deps_dir("/t"),
        target_triple: "x86_64-unknown-linux-gnu".to_string(),
        externs: vec!["nom".to_string()],
        artifacts: vec![Fingerprint {
            libname: "serde".to_string(),
            version: None,
            rlib: Some("/t/debug/deps/libserde-1.rlib".to_string()),
            mtime: 0,
        }],
    };
    let args = compile_args("/w/k.rs", "/w/k.exe", CompileType::Check, true, &Some(link));
    assert_eq!(
        args,
        vec![
            "/w/k.rs", "--verbose", "--color=always", "--crate-type=lib", "--edition=2021", "-L", "/t", "-L",
            "/t/debug/deps", "--target", "x86_64-unknown-linux-gnu", "--extern", "nom", "--extern",
            "serde=/t/debug/deps/libserde-1.rlib", "--emit=dep-info=/w/k.exe.d,metadata=/w/k.exe.m",
        ]
    );
}

#[test]
fn edition_2015_is_not_passed() {
    let link = LinkSetup {
        edition: Edition::E2015,
        target_dir: "t".to_string(),
        deps_dir: "t/debug/deps".to_string(),
        target_triple: "x".to_string(),
        externs: Vec::new(),
        artifacts: Vec::new(),
    };
    let args = compile_args("k.rs", "k.exe", CompileType::Full, false, &Some(link));
    assert_eq!(args, vec!["k.rs", "--verbose", "--color=never", "--crate-type=bin", "-L", "t", "-L", "t/debug/deps", "--target", "x", "-o", "k.exe"]);
}

#[test]
fn newest_edition_wins() {
    assert_eq!(newest_edition(&[Edition::E2015, Edition::E2021, Edition::E2018]), Some(Edition::E2021));
    assert_eq!(newest_edition(&[Edition::Unknown, Edition::E2018]), Some(Edition::E2018));
    assert_eq!(newest_edition(&[Edition::Unknown]), None);
    assert_eq!(newest_edition(&[]), None);
    assert_eq!(edition_str(Edition::E2018), Some("2018"));
    assert_eq!(edition_str(Edition::Unknown), None);
}

#[test]
fn config_defaults() {
    let parsed = KeeperConfigParser { externs: vec!["nom".to_string()], test_dir: None, target_dir: None, manifest_dir: None, terminal_colors: None };
    let c = KeeperConfig::new(&parsed, "/book", true);
    assert_eq!(c.test_dir, "/book/doctest_cache");
    assert_eq!(c.target_dir, "/book/doctest_cache/target");
    assert_eq!(c.manifest_dir, None);
    assert!(c.terminal_colors);
    assert_eq!(c.externs, vec!["nom".to_string()]);
    let given = KeeperConfigParser {
        externs: Vec::new(),
        test_dir: Some("/w".to_string()),
        target_dir: None,
        manifest_dir: Some("/m".to_string()),
        terminal_colors: Some(false),
    };
    let d = KeeperConfig::new(&given, "/book", true);
    assert_eq!(d.test_dir, "/w");
    assert_eq!(d.target_dir, "/w/target");
    assert_eq!(d.manifest_dir, Some("/m".to_string()));
    assert!(!d.terminal_colors);
    assert_eq!(fingerprint_dir("/t"), "/t/.fingerprint/");
}

#[test]
fn page_without_file_is_named_by_slug() {
    let pages = vec![Page { name: "Getting Started!".to_string(), path_stem: None, content: "```rust\nlet a = 1;\n```\n".to_string() }];
    let tests = get_tests_from_items(&pages);
    assert_eq!(tests.len(), 1);
    assert_eq!(tests[0].name, "getting_started_line_1");
}

#[test]
fn locked_deps_from_metadata() {
    let members = vec!["app 0.1.0 (path+file:///app)".to_string()];
    let nodes = vec![
        mdbook_keeper::resolve::ResolveNode {
            id: "app 0.1.0 (path+file:///app)".to_string(),
            dependencies: vec!["serde-json 1.0.1 (registry+x)".to_string(), "bad".to_string()],
        },
        mdbook_keeper::resolve::ResolveNode {
            id: "other 2.0.0 (registry+x)".to_string(),
            dependencies: vec!["hidden 1.0.0 (registry+x)".to_string()],
        },
    ];
    let l = LockedDeps::from_metadata(&members, Some(nodes)).unwrap();
    assert_eq!(l.dependencies.len(), 3);
    assert_eq!(
        l.pairs(),
        vec![("serde_json".to_string(), "1.0.1".to_string()), ("app".to_string(), "0.1.0".to_string())]
    );
    assert!(LockedDeps::from_metadata(&members, None).is_err());
}

#[test]
fn keeper_name_and_renderers() {
    let k = mdbook_keeper::book::BookKeeper::new();
    assert_eq!(k.name(), "keeper");
    assert!(k.supports_renderer("html"));
    assert!(!k.supports_renderer("not-supported"));
}

#[test]
fn self_cleaning_leaves_exactly_passing() {
    let doc = "```rust\nlet a = 1;\n```\n\n```rust,compile_fail\nlet b = 2;\n```\n\n```rust,should_panic\nlet c = 3;\n```\n\n```rust,ignore\nlet d = 4;\n```\n";
    let (tests, _) = extract_tests_from_string(doc, "p");
    assert_eq!(tests.len(), 4);
    let results = vec![
        (tests[0].clone(), TestResult::Successful(output(0))),
        (tests[1].clone(), TestResult::Successful(output(0))),
        (tests[2].clone(), TestResult::Cached),
    ];
    let mut present: Vec<String> = results.iter().map(|(t, _)| stem_of(t)).collect();
    present.push("keeper_stale".to_string());
    present.push("notes".to_string());
    let kept: Vec<String> = present
        .iter()
        .filter(|s| clean_file(&results, s) == Some(false))
        .cloned()
        .collect();
    assert_eq!(kept, vec![stem_of(&tests[0]), stem_of(&tests[2])]);
    assert_eq!(clean_file(&results, "notes"), None);
}

#[test]
fn second_run_over_passing_tests_is_cached() {
    let doc = "```rust\nlet a = 1;\n```\n\n```rust,no_run\nlet b = 2;\n```\n\n```rust,ignore\nlet d = 4;\n```\n";
    let (tests, _) = extract_tests_from_string(doc, "p");
    let results = vec![
        (tests[0].clone(), TestResult::Successful(output(0))),
        (tests[1].clone(), TestResult::Successful(output(0))),
    ];
    for t in &tests {
        let kept = clean_file(&results, &stem_of(t)) == Some(false);
        match plan_test(t, "/w", kept) {
            TestAction::UseCache => assert!(!t.ignore),
            TestAction::Skip => assert!(t.ignore),
            TestAction::Compile { .. } => panic!("a passing test is compiled again"),
        }
    }
}

#[test]
fn shared_file_kept_when_a_later_test_passes() {
    let doc = "```rust,compile_fail\nlet s = 1;\n```\n\n```rust\nlet s = 1;\n```\n";
    let (tests, _) = extract_tests_from_string(doc, "p");
    assert_eq!(tests.len(), 2);
    assert_eq!(tests[0].hash, tests[1].hash);
    let results = vec![
        (tests[0].clone(), TestResult::Successful(output(0))),
        (tests[1].clone(), TestResult::Cached),
    ];
    assert!(!results[0].1.met_test_expectations(&results[0].0));
    assert_eq!(clean_file(&results, &stem_of(&tests[0])), Some(false));
    let failing = vec![(tests[0].clone(), TestResult::Successful(output(0)))];
    assert_eq!(clean_file(&failing, &stem_of(&tests[0])), Some(true));
}
