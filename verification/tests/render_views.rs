use directree::ansi::strip_ansi;
use directree::cli::{Args, OutputFormat};
use directree::detector::{FileRole, Framework};
use directree::json::render_json;
use directree::output::{counts_fit_exec, render_output, select_body, BodyKind};
use directree::render::{
    annotation_for_lowered, dir_annotation, estimate_tokens, render_ai, render_flat, render_group, render_stats, render_tree,
    sort_by_count, use_color,
};
use directree::tree::{NodeKind, TreeNode, TreeStats};

fn sample() -> TreeNode {
    let mut root = TreeNode::new_dir("proj".to_string(), "/p/proj".to_string(), 0);
    let mut src = TreeNode::new_dir("src".to_string(), "/p/proj/src".to_string(), 1);
    src.children.push(TreeNode::new_file(
        "main.rs".to_string(),
        "/p/proj/src/main.rs".to_string(),
        2,
        FileRole::SourceMain,
        Some("rs".to_string()),
    ));
    root.children.push(src);
    root.children.push(TreeNode::new_file(
        "Cargo.toml".to_string(),
        "/p/proj/Cargo.toml".to_string(),
        1,
        FileRole::Config,
        Some("toml".to_string()),
    ));
    root
}

fn plain_args() -> Args {
    Args::default()
}

#[test]
fn tree_view_draws_connectors() {
    let out = render_tree(&sample(), &plain_args(), false);
    assert_eq!(out, "proj/\n├── src/\n│   └── main.rs\n└── Cargo.toml\n");
}

#[test]
fn tree_view_colors_on_a_terminal() {
    let out = render_tree(&sample(), &plain_args(), true);
    assert_eq!(
        out,
        "\x1b[1;34mproj/\x1b[0m\n├── \x1b[1;34msrc/\x1b[0m\n│   └── \x1b[97mmain.rs\x1b[0m\n└── \x1b[33mCargo.toml\x1b[0m\n"
    );
}

#[test]
fn no_color_flag_wins_over_terminal() {
    let mut args = plain_args();
    args.no_color = true;
    assert!(!use_color(&args, true));
    assert!(use_color(&plain_args(), true));
    assert!(!use_color(&plain_args(), false));
    let out = render_tree(&sample(), &args, true);
    assert_eq!(out, "proj/\n├── src/\n│   └── main.rs\n└── Cargo.toml\n");
}

#[test]
fn stripped_colored_tree_is_plain_tree() {
    let colored = render_tree(&sample(), &plain_args(), true);
    let plain = render_tree(&sample(), &plain_args(), false);
    assert_eq!(strip_ansi(&colored), plain);
}

#[test]
fn strip_ansi_removes_escape_sequences() {
    assert_eq!(strip_ansi("\x1b[1;34mhi\x1b[0m there"), "hi there");
    assert_eq!(strip_ansi("plain"), "plain");
    assert_eq!(strip_ansi("cut\x1b[12"), "cut");
}

#[test]
fn collapsed_node_shows_its_count() {
    let mut root = TreeNode::new_dir("r".to_string(), "/r".to_string(), 0);
    root.children.push(TreeNode {
        name: "… 12 more".to_string(),
        path: "/r/x".to_string(),
        kind: NodeKind::Collapsed { count: 12, pattern: "depth-limit".to_string() },
        children: Vec::new(),
        role: FileRole::Unknown,
        ext: None,
        depth: 1,
    });
    assert_eq!(render_tree(&root, &plain_args(), false), "r/\n└── … 12 more\n");
}

#[test]
fn token_estimate_is_thirteen_tenths_of_chars_over_four() {
    // proj 4+6, src 3+6, main.rs 7+6, Cargo.toml 10+6 = 48 chars; 48 * 1.3 = 62.4 -> 62 / 4 = 15
    assert_eq!(estimate_tokens(&sample()), 15);
}

#[test]
fn token_estimate_is_at_least_one() {
    let root = TreeNode::new_dir("".to_string(), "/".to_string(), 0);
    // 6 chars: 7.8 -> 7 / 4 = 1
    assert_eq!(estimate_tokens(&root), 1);
    let tiny = TreeNode::new_dir("".to_string(), "/".to_string(), 0);
    assert!(estimate_tokens(&tiny) >= 1);
}

#[test]
fn ai_view_wraps_annotated_tree() {
    let out = render_ai(&sample(), &Framework::Rust, &plain_args(), false);
    let expected = "<project_structure lang=\"rust\" framework=\"rust\" files=\"2\" est_tokens=\"15\">\n\
proj/\n\
├── src/  [source-root]\n\
│   └── main.rs  [entry]\n\
└── Cargo.toml  [config]\n\
</project_structure>\n\
\n\
tokens: ~15  ·  files: 2  ·  ignored: node_modules .git dist build\n";
    assert_eq!(out, expected);
}

#[test]
fn directory_annotations_ignore_case() {
    assert_eq!(dir_annotation("Components"), Some("ui-components"));
    assert_eq!(dir_annotation("__tests__"), Some("tests"));
    assert_eq!(dir_annotation("DB"), Some("db"));
    assert_eq!(dir_annotation("src"), Some("source-root"));
    assert_eq!(dir_annotation("misc"), None);
}

#[test]
fn flat_view_lists_relative_paths() {
    let out = render_flat(&sample(), "/p/proj", &plain_args(), false);
    // 11 + 10 bytes = 21 / 4 = 5, plus 2 per path
    assert_eq!(out, "# directree --flat  (2 paths)\nsrc/main.rs\nCargo.toml\n\n2 paths  ·  ~9 tokens\n");
}

#[test]
fn flat_view_leaves_out_files_outside_base() {
    let out = render_flat(&sample(), "/elsewhere", &plain_args(), false);
    assert_eq!(out, "# directree --flat  (0 paths)\n\n0 paths  ·  ~0 tokens\n");
}

#[test]
fn group_view_sections_by_category() {
    let out = render_group(&sample(), "/p/proj", &plain_args(), false);
    let expected = format!(
        "── source {}\nsrc/main.rs  [entry]\n\n── config {}\nCargo.toml  [config]\n\n",
        "─".repeat(30),
        "─".repeat(30)
    );
    assert_eq!(out, expected);
}

#[test]
fn group_view_pads_shorter_labels_more() {
    let mut root = TreeNode::new_dir("p".to_string(), "/p".to_string(), 0);
    root.children.push(TreeNode::new_file(
        "a.test.ts".to_string(),
        "/p/a.test.ts".to_string(),
        1,
        FileRole::Test,
        Some("ts".to_string()),
    ));
    let out = render_group(&root, "/p", &plain_args(), false);
    assert_eq!(out, format!("── tests {}\na.test.ts  [test]\n\n", "─".repeat(31)));
}

#[test]
fn stats_block_counts_and_extensions() {
    let out = render_stats(&sample(), &plain_args(), false);
    let expected = "\n── stats ─────────────────────────────────────\n  files 2   dirs 2   src 1   tests 0\n  exts: .rs (1)  .toml (1)\n  est. tokens: ~15\n──────────────────────────────────────────────\n";
    assert_eq!(out, expected);
}

#[test]
fn stats_counts_match_tree() {
    let s = TreeStats::from_node(&sample());
    assert_eq!(s.total_files, 2);
    assert_eq!(s.total_dirs, 2);
    assert_eq!(s.source_files, 1);
    assert_eq!(s.config_files, 1);
    assert_eq!(s.test_files, 0);
    assert_eq!(s.asset_files, 0);
    assert_eq!(s.by_ext, vec![("rs".to_string(), 1), ("toml".to_string(), 1)]);
}

#[test]
fn extension_table_is_ordered_and_counted() {
    let mut root = TreeNode::new_dir("p".to_string(), "/p".to_string(), 0);
    for (n, e) in [("b.ts", "ts"), ("a.rs", "rs"), ("c.ts", "ts"), ("d.md", "md")] {
        root.children.push(TreeNode::new_file(
            n.to_string(),
            format!("/p/{}", n),
            1,
            FileRole::Source,
            Some(e.to_string()),
        ));
    }
    let s = TreeStats::from_node(&root);
    assert_eq!(
        s.by_ext,
        vec![("md".to_string(), 1), ("rs".to_string(), 1), ("ts".to_string(), 2)]
    );
    assert!(s.source_files + s.config_files + s.test_files + s.asset_files <= s.total_files);
}

#[test]
fn sort_by_count_is_stable_and_descending() {
    let t = vec![
        ("a".to_string(), 1),
        ("b".to_string(), 3),
        ("c".to_string(), 1),
        ("d".to_string(), 3),
        ("e".to_string(), 2),
    ];
    let s = sort_by_count(&t);
    let keys: Vec<&str> = s.iter().map(|e| e.0.as_str()).collect();
    assert_eq!(keys, vec!["b", "d", "e", "a", "c"]);
}

#[test]
fn stats_show_at_most_eight_extensions() {
    let mut root = TreeNode::new_dir("p".to_string(), "/p".to_string(), 0);
    for e in ["a", "b", "c", "d", "e", "f", "g", "h", "i", "j"] {
        root.children.push(TreeNode::new_file(
            format!("x.{}", e),
            format!("/p/x.{}", e),
            1,
            FileRole::Unknown,
            Some(e.to_string()),
        ));
    }
    let out = render_stats(&root, &plain_args(), false);
    assert!(out.contains("  exts: .a (1)  .b (1)  .c (1)  .d (1)  .e (1)  .f (1)  .g (1)  .h (1)\n"));
    assert!(!out.contains(".i (1)"));
}

#[test]
fn json_view_pretty_prints_sorted_keys() {
    let mut root = TreeNode::new_dir("proj".to_string(), "/p".to_string(), 0);
    root.children.push(TreeNode::new_file(
        "a.rs".to_string(),
        "/p/a.rs".to_string(),
        1,
        FileRole::Source,
        Some("rs".to_string()),
    ));
    let expected = "{\n  \"children\": [\n    {\n      \"ext\": \"rs\",\n      \"name\": \"a.rs\",\n      \"type\": \"file\"\n    }\n  ],\n  \"name\": \"proj\",\n  \"type\": \"dir\"\n}";
    assert_eq!(render_json(&root), expected);
}

#[test]
fn json_view_carries_roles_and_collapsed_counts() {
    let mut root = TreeNode::new_dir("r".to_string(), "/r".to_string(), 0);
    root.children.push(TreeNode::new_file(
        "page.tsx".to_string(),
        "/r/page.tsx".to_string(),
        1,
        FileRole::Page,
        None,
    ));
    root.children.push(TreeNode {
        name: "x".to_string(),
        path: "/r/x".to_string(),
        kind: NodeKind::Collapsed { count: 5, pattern: "x".to_string() },
        children: Vec::new(),
        role: FileRole::Unknown,
        ext: None,
        depth: 1,
    });
    let v: serde_json::Value = serde_json::from_str(&render_json(&root)).unwrap();
    assert_eq!(v["type"], "dir");
    assert_eq!(v["children"][0]["role"], "page");
    assert_eq!(v["children"][0]["name"], "page.tsx");
    assert!(v["children"][0].get("ext").is_none());
    assert_eq!(v["children"][1]["type"], "collapsed");
    assert_eq!(v["children"][1]["count"], 5);
    assert_eq!(v["children"][1]["pattern"], "x");
}

#[test]
fn body_selection_prefers_ai_then_flat_then_group_then_json() {
    let mut a = plain_args();
    assert_eq!(select_body(&a), BodyKind::Tree);
    a.format = OutputFormat::Json;
    assert_eq!(select_body(&a), BodyKind::Json);
    a.group = true;
    assert_eq!(select_body(&a), BodyKind::Group);
    a.format = OutputFormat::Flat;
    assert_eq!(select_body(&a), BodyKind::Flat);
    a.ai = true;
    assert_eq!(select_body(&a), BodyKind::Ai);
}

#[test]
fn output_adds_focus_breadcrumb_and_stats() {
    let mut a = plain_args();
    a.focus = Some("src".to_string());
    a.stats = true;
    a.flat = true;
    assert!(counts_fit_exec(&sample(), &a, "/p/proj"));
    let out = render_output(&sample(), &Framework::Rust, &a, false, "/p/proj", "/p/proj");
    let expected = format!(
        "# focus: ./\n# project root: proj/\n\n{}{}",
        render_flat(&sample(), "/p/proj", &a, false),
        render_stats(&sample(), &a, false)
    );
    assert_eq!(out, expected);
}

#[test]
fn focus_breadcrumb_names_subdirectory() {
    let mut a = plain_args();
    a.focus = Some("src".to_string());
    let out = render_output(&sample(), &Framework::Rust, &a, false, "/p/proj", "/p/proj/src");
    assert!(out.starts_with("# focus: ./src\n# project root: proj/\n\n"));
}

#[test]
fn json_output_never_has_stats() {
    let mut a = plain_args();
    a.format = OutputFormat::Json;
    a.stats = true;
    let out = render_output(&sample(), &Framework::Rust, &a, false, "/p/proj", "/p/proj");
    assert_eq!(out, render_json(&sample()));
}

#[test]
fn copied_output_is_plain_output_for_every_colored_view() {
    for kind in 0..4 {
        let mut a = plain_args();
        a.stats = true;
        a.focus = Some("src".to_string());
        match kind {
            0 => a.ai = true,
            1 => a.flat = true,
            2 => a.group = true,
            _ => {}
        }
        let colored = render_output(&sample(), &Framework::Rust, &a, true, "/p/proj", "/p/proj");
        let plain = render_output(&sample(), &Framework::Rust, &a, false, "/p/proj", "/p/proj");
        assert_ne!(colored, plain);
        assert_eq!(strip_ansi(&colored), plain);
    }
}

#[test]
fn failed_json_printing_gives_empty_object() {
    let err = serde_json::from_str::<serde_json::Value>("{").unwrap_err();
    assert_eq!(directree::json::json_or_empty(Err(err)), "{}");
    assert_eq!(directree::json::json_or_empty(Ok("[1]".to_string())), "[1]");
}

#[test]
fn collapsed_run_shows_its_name() {
    let mut root = TreeNode::new_dir("r".to_string(), "/r".to_string(), 0);
    root.children.push(TreeNode {
        name: "Button ×12 (similar structure)".to_string(),
        path: "/r/Button".to_string(),
        kind: NodeKind::Collapsed { count: 12, pattern: "Button".to_string() },
        children: Vec::new(),
        role: FileRole::Unknown,
        ext: None,
        depth: 1,
    });
    assert_eq!(render_tree(&root, &plain_args(), false), "r/\n└── Button ×12 (similar structure)\n");
}

#[test]
fn stripping_leaves_no_escape_and_is_idempotent() {
    let colored = "\x1b[1;34msrc\x1b[0m/ \x1b[2m(3 files)\x1b[0m \x1b[1m";
    let once = strip_ansi(colored);
    assert_eq!(once, "src/ (3 files) ");
    assert!(!once.contains('\x1b'));
    assert_eq!(strip_ansi(&once), once);
    assert_eq!(strip_ansi("\x1b[1;34mhello\x1b[0m"), "hello");
}

#[test]
fn directory_stats_add_up_over_children() {
    let root = sample();
    let whole = TreeStats::from_node(&root);
    let src = TreeStats::from_node(&root.children[0]);
    let cargo = TreeStats::from_node(&root.children[1]);
    assert_eq!(whole.total_dirs, 1 + src.total_dirs + cargo.total_dirs);
    assert_eq!(whole.total_files, src.total_files + cargo.total_files);
    assert_eq!(whole.source_files, src.source_files + cargo.source_files);
    assert_eq!(whole.config_files, src.config_files + cargo.config_files);
    let mut exts = src.by_ext.clone();
    exts.extend(cargo.by_ext.clone());
    exts.sort();
    assert_eq!(whole.by_ext, exts);
}

#[test]
fn annotations_for_lowercased_names() {
    let cv = |s: &str| s.chars().collect::<Vec<char>>();
    assert_eq!(annotation_for_lowered(&cv("components")), Some("ui-components"));
    assert_eq!(annotation_for_lowered(&cv("Components")), None);
    assert_eq!(annotation_for_lowered(&cv("__tests__")), Some("tests"));
    assert_eq!(dir_annotation("HOOKS"), annotation_for_lowered(&cv("hooks")));
}
