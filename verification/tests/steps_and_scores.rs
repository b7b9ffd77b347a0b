use directree::cli::Args;
use directree::clipboard::{copy_to_clipboard, ClipboardStep};
use directree::detector::Framework;
use directree::git::{changed_since, keep_changed, recent_commits, repo_root};
use directree::ignorer::Ignorer;
use directree::importance::{
    count_import_lines, grep_target, mark_important, parse_recency, score_file, score_files,
    ImportanceScore,
};
use directree::render::render_tree;
use directree::text::{chars_of, lower_chars, string_of};
use directree::tree::{NodeKind, TreeNode};
use directree::walker::{collapse_repeated, FsEntry, Walker};
use directree::watch::{skipped_while_watching, Watcher};

// ───────────── clipboard ─────────────

fn tried(step: ClipboardStep) -> (String, Vec<String>) {
    match step {
        ClipboardStep::Try(t) => (t.cmd.to_string(), t.args.iter().map(|a| a.to_string()).collect()),
        ClipboardStep::Done(_) => panic!("expected another tool"),
    }
}

#[test]
fn clipboard_tools_are_tried_in_order() {
    assert_eq!(tried(copy_to_clipboard(&vec![])), ("pbcopy".to_string(), vec![]));
    assert_eq!(tried(copy_to_clipboard(&vec![false])), ("wl-copy".to_string(), vec![]));
    assert_eq!(
        tried(copy_to_clipboard(&vec![false, false])),
        ("xclip".to_string(), vec!["-selection".to_string(), "clipboard".to_string()])
    );
    assert_eq!(
        tried(copy_to_clipboard(&vec![false, false, false])),
        ("xsel".to_string(), vec!["--clipboard".to_string(), "--input".to_string()])
    );
    assert_eq!(tried(copy_to_clipboard(&vec![false; 4])), ("clip.exe".to_string(), vec![]));
}

#[test]
fn clipboard_stops_at_first_success() {
    assert!(matches!(copy_to_clipboard(&vec![false, true]), ClipboardStep::Done(Ok(()))));
    assert!(matches!(copy_to_clipboard(&vec![true]), ClipboardStep::Done(Ok(()))));
}

#[test]
fn clipboard_fails_after_every_tool() {
    match copy_to_clipboard(&vec![false; 5]) {
        ClipboardStep::Done(Err(m)) => {
            assert_eq!(m, "no clipboard tool found (install pbcopy / xclip / wl-copy / xsel)")
        }
        _ => panic!("expected a failure"),
    }
}

// ───────────── git ─────────────

#[test]
fn changed_files_are_trimmed_and_distinct() {
    let outs = vec!["a.rs\n b.rs \n\n".to_string(), "a.rs\r\nc.rs".to_string(), String::new()];
    let files = changed_since(true, &outs).unwrap();
    assert_eq!(files, vec!["a.rs".to_string(), "b.rs".to_string(), "c.rs".to_string()]);
}

#[test]
fn changed_files_need_a_repository() {
    assert!(changed_since(false, &vec!["a.rs".to_string()]).is_none());
    assert_eq!(changed_since(true, &vec![]), Some(vec![]));
}

#[test]
fn repository_root_and_commits() {
    assert_eq!(repo_root(true, "/home/x/repo\n"), Some("/home/x/repo".to_string()));
    assert_eq!(repo_root(false, "/home/x/repo\n"), None);
    assert_eq!(
        recent_commits(true, "abc1234 fix bug\n def5678 add feature \n"),
        vec!["abc1234 fix bug".to_string(), "def5678 add feature".to_string()]
    );
    assert!(recent_commits(false, "abc\n").is_empty());
}

// ───────────── importance ─────────────

#[test]
fn entry_point_near_the_root() {
    let s = score_file("src/main.rs", None, None);
    assert_eq!(s.total_halves, 12);
    assert_eq!(s.reasons, vec!["entry-point".to_string()]);
    assert!(s.is_important());
    assert_eq!(s.label(), Some("★★"));
}

#[test]
fn key_config_changed_today_and_widely_imported() {
    let s = score_file("Cargo.toml", Some(0), Some(12));
    assert_eq!(s.total_halves, 24);
    assert_eq!(
        s.reasons,
        vec!["key-config".to_string(), "changed-today".to_string(), "imported-12x".to_string()]
    );
    assert_eq!(s.label(), Some("★★★"));
}

#[test]
fn deep_type_definitions_get_no_types_bonus() {
    let s = score_file("a/b/c/d/e/types/x.d.ts", Some(5), Some(3));
    assert_eq!(s.total_halves, 6);
    assert_eq!(s.reasons, vec!["changed-this-week".to_string(), "imported-3x".to_string()]);
    assert_eq!(s.label(), Some("★"));
    assert!(s.is_important());
}

#[test]
fn shallow_types_and_core_infra() {
    let t = score_file("src/types/api.ts", None, Some(1));
    assert_eq!(t.total_halves, 5);
    assert_eq!(t.reasons, vec!["types".to_string()]);
    assert!(!t.is_important());
    assert_eq!(t.label(), None);
    let a = score_file("lib/Auth.ts", Some(30), Some(6));
    assert_eq!(a.total_halves, 4 + 4 + 5);
    assert_eq!(a.reasons, vec!["core-infra".to_string(), "imported-6x".to_string()]);
}

#[test]
fn label_follows_importance() {
    for h in 0..50u32 {
        let s = ImportanceScore { total_halves: h, reasons: Vec::new() };
        assert_eq!(s.label().is_some(), s.is_important());
    }
}

#[test]
fn score_files_keeps_positive_scores_only() {
    let files = vec!["src/main.rs".to_string(), "x/y/z/w/q/r.txt".to_string()];
    let recency = vec![("src/main.rs".to_string(), 3u32)];
    let imports: Vec<(String, usize)> = Vec::new();
    let scored = score_files(&files, &recency, &imports);
    assert_eq!(scored.len(), 1);
    assert_eq!(scored[0].0, "src/main.rs");
    assert_eq!(scored[0].1.total_halves, 16);
    assert_eq!(scored[0].1.label(), Some("★★★"));
}

#[test]
fn recency_keeps_most_recent_change() {
    let log = "999000\nsrc/a.rs\n\n 913600 \nsrc/a.rs\nsrc/b.rs\n2000000\nsrc/c.rs\n";
    let t = parse_recency(1_000_000, log);
    assert_eq!(
        t,
        vec![("src/a.rs".to_string(), 0), ("src/b.rs".to_string(), 1), ("src/c.rs".to_string(), 0)]
    );
}

#[test]
fn recency_ignores_files_before_any_timestamp() {
    let t = parse_recency(1_000_000, "orphan.rs\n100\nx.rs\n");
    assert_eq!(t, vec![("x.rs".to_string(), 11)]);
}

#[test]
fn grep_counts_and_targets() {
    assert_eq!(count_import_lines("x\n\ny\n"), 2);
    assert_eq!(count_import_lines(""), 0);
    assert_eq!(grep_target("src/ab.rs"), None);
    assert_eq!(grep_target("src/main.rs"), Some("main".to_string()));
    assert_eq!(grep_target("src/é.rs"), None);
    assert_eq!(grep_target("src/éé.rs"), Some("éé".to_string()));
}

// ───────────── watch ─────────────

fn scan(v: &[(&str, i128)]) -> Vec<(String, i128)> {
    v.iter().map(|(p, t)| (p.to_string(), *t)).collect()
}

#[test]
fn watcher_reports_changes_only() {
    let mut w = Watcher::new(800);
    assert_eq!(w.interval_ms(), 800);
    w.snapshot(scan(&[("a", 1), ("b", 2)]));
    assert!(!w.poll(scan(&[("b", 2), ("a", 1)])));
    assert!(w.poll(scan(&[("a", 1), ("b", 3)])));
    assert!(!w.poll(scan(&[("a", 1), ("b", 3)])));
    assert!(w.poll(scan(&[("a", 1)])));
    assert!(w.poll(scan(&[("a", 1), ("c", 0)])));
}

#[test]
fn watcher_skips_noise_directories() {
    assert!(skipped_while_watching("node_modules"));
    assert!(skipped_while_watching(".git"));
    assert!(skipped_while_watching("target"));
    assert!(!skipped_while_watching("src"));
}

// ───────────── walker ─────────────

fn file(dir: &str, name: &str) -> FsEntry {
    FsEntry {
        name: name.to_string(),
        path: format!("{}/{}", dir, name),
        is_dir: false,
        listing: None,
        entry_count: 0,
    }
}

fn dir(parent: &str, name: &str, listing: Option<Vec<FsEntry>>, count: usize) -> FsEntry {
    FsEntry {
        name: name.to_string(),
        path: format!("{}/{}", parent, name),
        is_dir: true,
        listing,
        entry_count: count,
    }
}

fn walk(args: &Args, listing: &Vec<FsEntry>) -> String {
    let ig = Ignorer::build(&Framework::Rust, &Vec::new(), args.no_ignore, args.hidden);
    let w = Walker::new(args, "/p/proj".to_string(), "/p/proj".to_string(), Framework::Rust, ig, None);
    render_tree(&w.walk(listing), args, false)
}

#[test]
fn walk_sorts_dirs_first_and_skips_ignored() {
    let listing = vec![
        file("/p/proj", "b.rs"),
        dir("/p/proj", "src", Some(vec![file("/p/proj/src", "main.rs")]), 0),
        file("/p/proj", "A.md"),
        dir("/p/proj", "node_modules", Some(vec![file("/p/proj/node_modules", "x.js")]), 0),
        file("/p/proj", ".hidden"),
    ];
    let out = walk(&Args::default(), &listing);
    assert_eq!(out, "proj/\n├── src/\n│   └── main.rs\n├── A.md\n└── b.rs\n");
}

#[test]
fn walk_shows_counts_past_depth_limit() {
    let mut args = Args::default();
    args.depth = 1;
    let listing = vec![dir(
        "/p/proj",
        "src",
        Some(vec![dir("/p/proj/src", "deep", None, 3), file("/p/proj/src", "main.rs")]),
        0,
    )];
    let out = walk(&args, &listing);
    assert_eq!(out, "proj/\n└── src/\n    ├── deep/\n    │   └── … 3 more\n    └── main.rs\n");
}

#[test]
fn walk_only_keeps_listed_extensions() {
    let mut args = Args::default();
    args.only = Some(" .RS, ,md".to_string());
    let listing = vec![
        dir("/p/proj", "web", Some(vec![file("/p/proj/web", "a.ts")]), 0),
        dir("/p/proj", "src", Some(vec![file("/p/proj/src", "lib.rs")]), 0),
        file("/p/proj", "notes.md"),
        file("/p/proj", "x.ts"),
    ];
    let out = walk(&args, &listing);
    assert_eq!(out, "proj/\n├── src/\n│   └── lib.rs\n└── notes.md\n");
}

#[test]
fn walk_collapses_four_similar_directories() {
    let mut args = Args::default();
    args.collapse = true;
    let mut listing = Vec::new();
    for n in ["a", "b", "c", "d"] {
        let d = format!("/p/proj/{}", n);
        listing.push(dir("/p/proj", n, Some(vec![file(&d, "x.ts")]), 0));
    }
    listing.push(file("/p/proj", "z.md"));
    let out = walk(&args, &listing);
    assert_eq!(out, "proj/\n├── a ×4 (similar structure)\n└── z.md\n");
}

#[test]
fn walk_keeps_three_similar_directories() {
    let mut args = Args::default();
    args.collapse = true;
    let mut listing = Vec::new();
    for n in ["a", "b", "c"] {
        let d = format!("/p/proj/{}", n);
        listing.push(dir("/p/proj", n, Some(vec![file(&d, "x.ts")]), 0));
    }
    let out = walk(&args, &listing);
    assert!(out.contains("├── a/\n"));
    assert!(!out.contains("more"));
}

fn walk_tree(args: &Args, listing: &Vec<FsEntry>) -> TreeNode {
    let ig = Ignorer::build(&Framework::Rust, &Vec::new(), args.no_ignore, args.hidden);
    let w = Walker::new(args, "/p/proj".to_string(), "/p/proj".to_string(), Framework::Rust, ig, None);
    w.walk(listing)
}

fn collapsed_patterns(n: &TreeNode, out: &mut Vec<String>) {
    if let NodeKind::Collapsed { pattern, .. } = &n.kind {
        out.push(pattern.clone());
    }
    for c in &n.children {
        collapsed_patterns(c, out);
    }
}

fn similar_dirs() -> Vec<FsEntry> {
    let mut listing = Vec::new();
    for n in ["a", "b", "c", "d"] {
        let d = format!("/p/proj/{}", n);
        let inner = vec![
            dir(&d, "deep", None, 2),
            file(&d, "x.ts"),
        ];
        listing.push(dir("/p/proj", n, Some(inner), 0));
    }
    listing.push(file("/p/proj", "z.md"));
    listing
}

#[test]
fn collapsing_twice_changes_nothing() {
    let mut args = Args::default();
    args.collapse = true;
    let mut tree = walk_tree(&args, &similar_dirs());
    let once = render_tree(&tree, &args, false);
    let copy = tree.clone();
    collapse_repeated(&mut tree);
    assert_eq!(render_tree(&tree, &args, false), once);
    assert_eq!(render_tree(&copy, &args, false), once);
    assert_eq!(once, "proj/\n├── a ×4 (similar structure)\n└── z.md\n");
}

#[test]
fn walk_without_collapse_marks_only_depth_limits() {
    let mut args = Args::default();
    args.depth = 1;
    let tree = walk_tree(&args, &similar_dirs());
    let mut patterns = Vec::new();
    collapsed_patterns(&tree, &mut patterns);
    assert_eq!(patterns, vec!["depth-limit".to_string(); 4]);
}

#[test]
fn since_keeps_changed_files_and_their_directories() {
    let listing = vec![
        dir("/p/proj", "src", Some(vec![file("/p/proj/src", "main.rs"), file("/p/proj/src", "lib.rs")]), 0),
        dir("/p/proj", "docs", Some(vec![file("/p/proj/docs", "a.md")]), 0),
        file("/p/proj", "README.md"),
        file("/p/proj", "notes.txt"),
    ];
    let args = Args::default();
    let mut tree = walk_tree(&args, &listing);
    let changed = vec!["src/lib.rs".to_string(), "README.md".to_string()];
    keep_changed(&mut tree, &changed, "/p/proj");
    assert_eq!(render_tree(&tree, &args, false), "proj/\n├── src/\n│   └── lib.rs\n└── README.md\n");
}

#[test]
fn since_with_nothing_changed_keeps_only_the_root() {
    let listing = vec![dir("/p/proj", "src", Some(vec![file("/p/proj/src", "main.rs")]), 0)];
    let args = Args::default();
    let mut tree = walk_tree(&args, &listing);
    keep_changed(&mut tree, &vec!["other/x.rs".to_string()], "/p/proj");
    assert_eq!(render_tree(&tree, &args, false), "proj/\n");
}

#[test]
fn important_files_carry_their_stars() {
    let listing = vec![dir(
        "/p/proj",
        "src",
        Some(vec![file("/p/proj/src", "main.rs"), file("/p/proj/src", "util.rs"), file("/p/proj/src", "x.rs")]),
        0,
    )];
    let args = Args::default();
    let mut tree = walk_tree(&args, &listing);
    let score = |h: u32| ImportanceScore { total_halves: h, reasons: vec![] };
    let scores = vec![
        ("src/main.rs".to_string(), score(16)),
        ("src/util.rs".to_string(), score(6)),
        ("src/x.rs".to_string(), score(4)),
    ];
    mark_important(&mut tree, &scores, "/p/proj");
    assert_eq!(
        render_tree(&tree, &args, false),
        "proj/\n└── src/\n    ├── main.rs ★★★\n    ├── util.rs ★\n    └── x.rs\n"
    );
}

// ───────────── std wrappers ─────────────

#[test]
fn lowercase_and_string_building() {
    assert_eq!(string_of(&lower_chars(&chars_of("ÄbC"))), "äbc");
    assert_eq!(string_of(&vec!['a', 'é', '─']), "aé─");
    assert_eq!(chars_of("aé"), vec!['a', 'é']);
}

#[test]
fn annotated_next_project_as_in_the_readme() {
    let mut args = Args::default();
    args.ai = true;
    let app = "/w/my-app/src/app";
    let listing = vec![
        dir(
            "/w/my-app",
            "src",
            Some(vec![
                dir(
                    "/w/my-app/src",
                    "app",
                    Some(vec![file(app, "page.tsx"), file(app, "layout.tsx")]),
                    0,
                ),
                dir("/w/my-app/src", "lib", Some(vec![file("/w/my-app/src/lib", "supabase.ts")]), 0),
            ]),
            0,
        ),
        file("/w/my-app", "package.json"),
    ];
    let ig = Ignorer::build(&Framework::NextJs, &Vec::new(), false, false);
    let w = Walker::new(&args, "/w/my-app".to_string(), "/w/my-app".to_string(), Framework::NextJs, ig, None);
    let tree = w.walk(&listing);
    let out = directree::render::render_ai(&tree, &Framework::NextJs, &args, false);
    assert!(out.starts_with("<project_structure lang=\"typescript\" framework=\"nextjs\" files=\"4\" est_tokens=\""));
    assert!(out.contains("\nmy-app/\n├── src/  [source-root]\n│   ├── app/  [app-router]\n│   │   ├── layout.tsx  [layout]\n│   │   └── page.tsx  [page]\n│   └── lib/  [lib]\n│       └── supabase.ts  [db-client]\n└── package.json  [manifest]\n</project_structure>\n\ntokens: ~"));
    assert!(out.ends_with("  ·  files: 4  ·  ignored: node_modules .git dist build\n"));
}
