use mdbook_keeper::extract::{
    clean_omitted_line, create_test_input, extract_tests_from_string, get_hash,
    parse_code_block_info, sanitize_test_name, split_code_lines,
};

#[test]
fn sanitize_collapses_runs_and_trims() {
    assert_eq!(sanitize_test_name("Hello, World!"), "hello_world");
    assert_eq!(sanitize_test_name("  --Foo__Bar--  "), "foo_bar");
    assert_eq!(sanitize_test_name("Step 2: Build"), "step_2_build");
    assert_eq!(sanitize_test_name(""), "");
    assert_eq!(sanitize_test_name("!!!"), "");
}

#[test]
fn sanitize_treats_non_ascii_as_separator() {
    assert_eq!(sanitize_test_name("\u{dc}n\u{ef}code 2"), "n_code_2");
}

#[test]
fn info_plain_rust() {
    let i = parse_code_block_info("rust");
    assert!(i.is_rust);
    assert!(!i.should_panic && !i.ignore && !i.compile_fail && !i.no_run && !i.is_old_template);
    assert_eq!(i.template, None);
}

#[test]
fn info_flags_are_read() {
    let i = parse_code_block_info("rust,should_panic,no_run");
    assert!(i.is_rust && i.should_panic && i.no_run);
    assert!(!i.ignore && !i.compile_fail);
    let j = parse_code_block_info("rust ignore compile_fail");
    assert!(j.is_rust && j.ignore && j.compile_fail);
}

#[test]
fn info_without_rust_is_not_code() {
    assert!(!parse_code_block_info("should_panic").is_rust);
    assert!(!parse_code_block_info("text").is_rust);
    assert!(!parse_code_block_info("").is_rust);
    assert!(!parse_code_block_info("rusty").is_rust);
}

#[test]
fn info_rust_with_unknown_tag_is_code() {
    let i = parse_code_block_info("rust,edition2018");
    assert!(i.is_rust);
}

#[test]
fn info_templates() {
    let i = parse_code_block_info("rust,skt-foo");
    assert_eq!(i.template, Some("foo".to_string()));
    let j = parse_code_block_info("rust,skt-a,skt-b");
    assert_eq!(j.template, Some("b".to_string()));
    let k = parse_code_block_info("rust,skeptic-template");
    assert!(k.is_old_template);
}

#[test]
fn clean_hidden_lines() {
    assert_eq!(clean_omitted_line("# use std::io;\n"), "use std::io;\n");
    assert_eq!(clean_omitted_line("    # let x = 1;"), "let x = 1;");
    assert_eq!(clean_omitted_line("#\n"), "\n");
    assert_eq!(clean_omitted_line("  #  "), " ");
    assert_eq!(clean_omitted_line("#[derive(Debug)]\n"), "#[derive(Debug)]\n");
    assert_eq!(clean_omitted_line("let y = 2; # no\n"), "let y = 2; # no\n");
    assert_eq!(clean_omitted_line(""), "");
}

#[test]
fn test_input_joins_cleaned_lines() {
    let lines = vec!["# use std::io;\n".to_string(), "fn main() {}\n".to_string()];
    assert_eq!(create_test_input(&lines), "use std::io;\nfn main() {}\n");
    assert_eq!(create_test_input(&[]), "");
}

#[test]
fn lines_split_like_str_lines() {
    assert_eq!(split_code_lines("a\r\nb\n"), vec!["a\n".to_string(), "b\n".to_string()]);
    assert_eq!(split_code_lines("a\n\n"), vec!["a\n".to_string(), "\n".to_string()]);
    assert_eq!(split_code_lines("x"), vec!["x\n".to_string()]);
    assert!(split_code_lines("").is_empty());
}

#[test]
fn hash_of_empty_text() {
    assert_eq!(get_hash(""), "47DEQpj8HBSa-_TImW-5JCeuQeRkm5NMpJWZG3hSuFU");
    assert_ne!(get_hash("fn main() {}"), "fn main() {}");
}

#[test]
fn extracts_blocks_with_sections_and_lines() {
    let doc = "# Intro\n\nSome text.\n\n```rust\nfn main() {}\n```\n\n## Second Part\n\n```rust,no_run\nlet x = 1;\nlet y = 2;\n```\n\n```text\nnot code\n```\n";
    let (tests, template) = extract_tests_from_string(doc, "page");
    assert_eq!(template, None);
    assert_eq!(tests.len(), 2);
    assert_eq!(tests[0].name, "page_sect_intro_line_5");
    assert_eq!(tests[0].text, vec!["fn main() {}\n".to_string()]);
    assert!(!tests[0].no_run);
    assert_eq!(tests[0].hash, get_hash("fn main() {}\n"));
    assert_eq!(tests[1].name, "page_sect_second_part_line_11");
    assert_eq!(tests[1].text, vec!["let x = 1;\n".to_string(), "let y = 2;\n".to_string()]);
    assert!(tests[1].no_run);
    assert_eq!(tests[1].hash, get_hash("let x = 1;\n\nlet y = 2;\n"));
}

#[test]
fn extracts_without_section() {
    let (tests, _) = extract_tests_from_string("```rust\nlet a = 1;\n```\n", "intro");
    assert_eq!(tests.len(), 1);
    assert_eq!(tests[0].name, "intro_line_1");
}

#[test]
fn deep_headings_do_not_name_sections() {
    let (tests, _) = extract_tests_from_string("### Deep\n\n```rust\nlet a = 1;\n```\n", "p");
    assert_eq!(tests.len(), 1);
    assert_eq!(tests[0].name, "p_line_3");
}

#[test]
fn legacy_template_block_is_returned_apart() {
    let doc = "```rust,skeptic-template\nfn main() {{ {} }}\n```\n\n```rust\nlet z = 3;\n```\n";
    let (tests, template) = extract_tests_from_string(doc, "t");
    assert_eq!(tests.len(), 1);
    assert_eq!(template, Some("fn main() {{ {} }}\n".to_string()));
}

#[test]
fn extraction_is_deterministic_and_hash_follows_text() {
    let a = "# One\n\n```rust\nprintln!(\"hi\");\n```\n";
    let b = "Intro text\n\n## Other\n\nMore.\n\n```rust,ignore\nprintln!(\"hi\");\n```\n";
    let (t1, _) = extract_tests_from_string(a, "a");
    let (t2, _) = extract_tests_from_string(a, "a");
    assert_eq!(t1, t2);
    let (t3, _) = extract_tests_from_string(b, "b");
    assert_eq!(t1.len(), 1);
    assert_eq!(t3.len(), 1);
    assert_ne!(t1[0].name, t3[0].name);
    assert_eq!(t1[0].hash, t3[0].hash);
}
