use directree::cli::{parse_args, Args, CliCommand, OutputFormat};
use directree::config::{parse_rc, parse_string_array, GlobalConfig};
use directree::detector::{
    classify_file, detect_framework, role_of_parts, FileCategory, FileRole, Framework, ProjectMarkers,
};
use directree::ignorer::{glob_match, Ignorer};
use directree::init::{completion_for_lowered, completion_script, generate_ignore_file, BASH_COMPLETIONS, FISH_COMPLETIONS, ZSH_COMPLETIONS};

fn toks(v: &[&str]) -> Vec<String> {
    v.iter().map(|s| s.to_string()).collect()
}

fn run(v: &[&str]) -> Args {
    match parse_args(&toks(v)) {
        CliCommand::Run(a) => a,
        _ => panic!("expected a run"),
    }
}

// ───────────── cli ─────────────

#[test]
fn defaults_without_arguments() {
    let a = run(&[]);
    assert_eq!(a.path, ".");
    assert_eq!(a.depth, 0);
    assert!(!a.ai && !a.flat && !a.group && !a.stats && !a.copy);
    assert_eq!(a.format, OutputFormat::Tree);
    assert!(a.focus.is_none() && a.only.is_none() && a.since.is_none());
}

#[test]
fn flags_values_and_path() {
    let a = run(&["src", "--ai", "--stats", "--depth", "3", "--only", "ts,tsx", "--format", "json"]);
    assert_eq!(a.path, "src");
    assert!(a.ai && a.stats);
    assert_eq!(a.depth, 3);
    assert_eq!(a.only.as_deref(), Some("ts,tsx"));
    assert_eq!(a.format, OutputFormat::Json);
}

#[test]
fn inline_and_spaced_values_agree() {
    let spaced = run(&["--focus", "src/components", "--since", "HEAD~1", "--depth", "2"]);
    let inline = run(&["--focus=src/components", "--since=HEAD~1", "--depth=2"]);
    assert_eq!(spaced.focus, inline.focus);
    assert_eq!(spaced.since, inline.since);
    assert_eq!(spaced.depth, inline.depth);
    assert_eq!(inline.focus.as_deref(), Some("src/components"));
    assert_eq!(inline.depth, 2);
}

#[test]
fn unparsable_depth_is_zero_and_unknown_format_is_tree() {
    let a = run(&["--depth", "many", "--format", "yaml"]);
    assert_eq!(a.depth, 0);
    assert_eq!(a.format, OutputFormat::Tree);
    let b = run(&["--depth=+7"]);
    assert_eq!(b.depth, 7);
}

#[test]
fn value_option_at_end_keeps_default() {
    let a = run(&["--depth"]);
    assert_eq!(a.depth, 0);
    let b = run(&["--focus"]);
    assert!(b.focus.is_none());
}

#[test]
fn help_version_and_unknown_options() {
    assert!(matches!(parse_args(&toks(&["-h"])), CliCommand::Help));
    assert!(matches!(parse_args(&toks(&["--ai", "--help"])), CliCommand::Help));
    assert!(matches!(parse_args(&toks(&["-V"])), CliCommand::Version));
    match parse_args(&toks(&["--ai", "--bogus"])) {
        CliCommand::UnknownOption(o) => assert_eq!(o, "--bogus"),
        _ => panic!("expected an unknown option"),
    }
}

#[test]
fn subcommands_init_and_completions() {
    assert!(run(&["init"]).init);
    assert_eq!(run(&["completions", "zsh"]).completions.as_deref(), Some("zsh"));
    assert_eq!(run(&["completions"]).completions.as_deref(), Some("bash"));
}

// ───────────── config ─────────────

#[test]
fn rc_file_depth_and_ignores() {
    let c = parse_rc("# comment\ndefault_depth = 4\nignore = [\"*.log\", 'tmp/', \"\"]\n");
    assert_eq!(c.default_depth, Some(4));
    assert_eq!(c.ignore, Some(vec!["*.log".to_string(), "tmp/".to_string()]));
    assert_eq!(c.extra_ignores(), vec!["*.log".to_string(), "tmp/".to_string()]);
}

#[test]
fn rc_file_bad_depth_is_none() {
    let c = parse_rc("default_depth = deep\n");
    assert_eq!(c.default_depth, None);
    assert!(c.ignore.is_none());
    assert!(c.extra_ignores().is_empty());
}

#[test]
fn string_array_trims_quotes_and_drops_empties() {
    assert_eq!(parse_string_array("[ \"a\" , 'b',, ]"), vec!["a".to_string(), "b".to_string()]);
}

#[test]
fn missing_config_file_is_default() {
    let c = GlobalConfig::load(None);
    assert_eq!(c.default_depth, None);
    assert!(c.ignore.is_none());
    let d = GlobalConfig::load(Some("default_depth=2"));
    assert_eq!(d.default_depth, Some(2));
}

// ───────────── detector ─────────────

fn markers() -> ProjectMarkers {
    ProjectMarkers {
        package_json: None,
        cargo_toml: false,
        go_mod: false,
        requirements_txt: false,
        pyproject_toml: false,
        setup_py: false,
        pom_xml: false,
        build_gradle: false,
        csproj: false,
        sln: false,
    }
}

#[test]
fn framework_from_package_json() {
    let mut m = markers();
    m.package_json = Some("{\"dependencies\": {\"next\": \"14\", \"react\": \"18\"}}".to_string());
    assert_eq!(detect_framework(&m), Framework::NextJs);
    m.package_json = Some("{\"dependencies\": {\"react\": \"18\"}}".to_string());
    assert_eq!(detect_framework(&m), Framework::React);
    m.package_json = Some("{}".to_string());
    m.cargo_toml = true;
    assert_eq!(detect_framework(&m), Framework::Node);
}

#[test]
fn framework_from_marker_files() {
    let mut m = markers();
    assert_eq!(detect_framework(&m), Framework::Unknown);
    m.setup_py = true;
    assert_eq!(detect_framework(&m), Framework::Python);
    m.go_mod = true;
    assert_eq!(detect_framework(&m), Framework::Go);
    m.cargo_toml = true;
    assert_eq!(detect_framework(&m), Framework::Rust);
}

#[test]
fn framework_names_languages_and_ignores() {
    assert_eq!(Framework::NextJs.name(), "nextjs");
    assert_eq!(Framework::NextJs.lang(), "typescript");
    assert_eq!(Framework::DotNet.lang(), "csharp");
    assert_eq!(Framework::Rust.extra_ignores(), vec!["target"]);
    assert_eq!(Framework::NextJs.extra_ignores(), vec![".next", "out", "next-env.d.ts", ".vercel"]);
    assert!(Framework::Unknown.extra_ignores().is_empty());
}

#[test]
fn classify_common_files() {
    let fw = Framework::NextJs;
    assert_eq!(classify_file("/p/package-lock.json", "/p", &fw), FileRole::Lockfile);
    assert_eq!(classify_file("/p/.env.local", "/p", &fw), FileRole::EnvFile);
    assert_eq!(classify_file("/p/Dockerfile", "/p", &fw), FileRole::Dockerfile);
    assert_eq!(classify_file("/p/.github/workflows/ci.yml", "/p", &fw), FileRole::CiConfig);
    assert_eq!(classify_file("/p/README.md", "/p", &fw), FileRole::Readme);
    assert_eq!(classify_file("/p/docs/guide.md", "/p", &fw), FileRole::Docs);
    assert_eq!(classify_file("/p/src/a.test.ts", "/p", &fw), FileRole::Test);
    assert_eq!(classify_file("/p/jest.config.ts", "/p", &fw), FileRole::TestUtil);
    assert_eq!(classify_file("/p/app/globals.css", "/p", &fw), FileRole::Style);
    assert_eq!(classify_file("/p/public/logo.svg", "/p", &fw), FileRole::Asset);
    assert_eq!(classify_file("/p/package.json", "/p", &fw), FileRole::Manifest);
    assert_eq!(classify_file("/p/tsconfig.json", "/p", &fw), FileRole::Config);
    assert_eq!(classify_file("/p/next.config.js", "/p", &fw), FileRole::Config);
}

#[test]
fn classify_framework_roles() {
    let next = Framework::NextJs;
    assert_eq!(classify_file("/p/src/app/layout.tsx", "/p", &next), FileRole::Layout);
    assert_eq!(classify_file("/p/src/app/page.tsx", "/p", &next), FileRole::Page);
    assert_eq!(classify_file("/p/src/app/api/users/handler.ts", "/p", &next), FileRole::ApiRoute);
    assert_eq!(classify_file("/p/src/components/Button.tsx", "/p", &next), FileRole::Component);
    assert_eq!(classify_file("/p/src/x/useThing.ts", "/p", &next), FileRole::Hook);
    assert_eq!(classify_file("/p/src/lib/supabase.ts", "/p", &next), FileRole::DbClient);
    assert_eq!(classify_file("/p/src/lib/format.ts", "/p", &next), FileRole::Lib);
    let rust = Framework::Rust;
    assert_eq!(classify_file("/p/src/main.rs", "/p", &rust), FileRole::SourceMain);
    assert_eq!(classify_file("/p/src/lib.rs", "/p", &rust), FileRole::Lib);
    assert_eq!(classify_file("/p/src/walker.rs", "/p", &rust), FileRole::Source);
    let py = Framework::Python;
    assert_eq!(classify_file("/p/app.py", "/p", &py), FileRole::SourceMain);
    assert_eq!(classify_file("/p/pkg/utils/x.py", "/p", &py), FileRole::Util);
    assert_eq!(classify_file("/p/notes.xyz", "/p", &py), FileRole::Unknown);
}

#[test]
fn roles_annotations_and_categories() {
    assert_eq!(FileRole::Component.annotation(), Some("ui-component"));
    assert_eq!(FileRole::Source.annotation(), None);
    assert_eq!(FileRole::Lockfile.category(), FileCategory::Config);
    assert_eq!(FileRole::TestUtil.category(), FileCategory::Test);
    assert_eq!(FileRole::Style.category(), FileCategory::Asset);
    assert_eq!(FileRole::Readme.category(), FileCategory::Docs);
    assert_eq!(FileRole::Unknown.category(), FileCategory::Source);
    assert_eq!(FileCategory::Test.label(), "tests");
    assert_eq!(FileRole::default(), FileRole::Unknown);
}

// ───────────── ignorer ─────────────

#[test]
fn glob_wildcards() {
    assert!(glob_match("*", "anything"));
    assert!(glob_match("*.log", "debug.log"));
    assert!(!glob_match("*.log", "debug.txt"));
    assert!(glob_match("?.rs", "a.rs"));
    assert!(!glob_match("?.rs", "ab.rs"));
    assert!(glob_match("dist/", "dist"));
    assert!(!glob_match("dist", "distance"));
}

#[test]
fn builtin_names_are_ignored_unless_switched_off() {
    let ig = Ignorer::build(&Framework::Unknown, &Vec::new(), false, false);
    assert!(ig.is_ignored("/p/node_modules", true));
    assert!(ig.is_ignored("/p/a/coverage", true));
    assert!(!ig.is_ignored("/p/src", true));
    let off = Ignorer::build(&Framework::Unknown, &Vec::new(), true, false);
    assert!(!off.is_ignored("/p/node_modules", true));
    assert!(off.rules.is_empty());
}

#[test]
fn hidden_entries_need_hidden_flag() {
    let ig = Ignorer::build(&Framework::Unknown, &Vec::new(), true, false);
    assert!(ig.is_ignored("/p/.config", false));
    assert!(!ig.is_ignored("/p/.config", true));
}

#[test]
fn framework_and_cli_rules_are_listed() {
    let extra = vec!["*.log".to_string(), "  ".to_string(), "# note".to_string(), "gen/out/".to_string()];
    let ig = Ignorer::build(&Framework::Rust, &extra, false, false);
    assert_eq!(ig.rules[0], ".git [built-in]");
    assert!(ig.rules.contains(&"target [rust]".to_string()));
    assert!(ig.rules.contains(&"*.log [cli --ignore]".to_string()));
    assert_eq!(ig.rules.len(), 17 + 1 + 2);
    assert!(ig.is_ignored("/p/target", true));
    assert!(ig.is_ignored("/p/x.log", true));
    assert!(ig.is_ignored("/p/gen/out/file.rs", true));
}

#[test]
fn local_ignore_file_adds_patterns() {
    let mut ig = Ignorer::build(&Framework::Unknown, &Vec::new(), true, false);
    ig.load_local_ignore(Some("# header\n\n*.tmp\nsecrets/\n"));
    assert_eq!(
        ig.rules,
        vec!["*.tmp [.directreeignore]".to_string(), "secrets/ [.directreeignore]".to_string()]
    );
    assert!(ig.is_ignored("/p/a.tmp", true));
    let mut none = Ignorer::build(&Framework::Unknown, &Vec::new(), true, false);
    none.load_local_ignore(None);
    assert!(none.rules.is_empty());
}

#[test]
fn ignoring_grows_with_patterns_and_without_hidden_or_no_ignore() {
    let one = Ignorer::build(&Framework::Unknown, &vec!["*.log".to_string()], false, false);
    let two = Ignorer::build(&Framework::Unknown, &vec!["*.log".to_string(), "*.tmp".to_string()], false, false);
    for p in ["/p/a.log", "/p/node_modules", "/p/.env"] {
        assert!(one.is_ignored(p, false));
        assert!(two.is_ignored(p, false));
    }
    assert!(!one.is_ignored("/p/b.tmp", false));
    assert!(two.is_ignored("/p/b.tmp", false));
    assert!(one.is_ignored("/p/.env", false));
    assert!(!one.is_ignored("/p/.env", true));
    let bare = Ignorer::build(&Framework::Unknown, &vec!["*.log".to_string()], true, false);
    assert!(bare.is_ignored("/p/a.log", true));
    assert!(!bare.is_ignored("/p/node_modules", true));
    assert!(one.is_ignored("/p/node_modules", true));
}

// ───────────── init ─────────────

#[test]
fn ignore_file_for_rust() {
    let s = generate_ignore_file(&Framework::Rust);
    assert!(s.starts_with("# .directreeignore — directree-specific ignores\n"));
    assert!(s.contains("\n**/*.generated.rs\nbuild.rs.out/\n"));
    assert!(s.contains("\n# ── Rust specific ───────────────────────────────\nbenches/\nexamples/\n"));
    assert!(s.ends_with("# ── Add your custom patterns below ──────────────\n\n"));
}

#[test]
fn ignore_file_for_unknown_framework() {
    let s = generate_ignore_file(&Framework::Unknown);
    assert!(s.contains("\n**/*.generated.*\n"));
    assert!(!s.contains(" specific ──"));
}

#[test]
fn completions_for_lowercased_names() {
    assert_eq!(completion_for_lowered(&cv("zsh")), Some(ZSH_COMPLETIONS));
    assert_eq!(completion_for_lowered(&cv("ZSH")), None);
    assert_eq!(completion_for_lowered(&cv("tcsh")), None);
}

#[test]
fn completions_by_shell_name() {
    assert_eq!(completion_script("bash"), Some(BASH_COMPLETIONS));
    assert_eq!(completion_script("ZSH"), Some(ZSH_COMPLETIONS));
    assert_eq!(completion_script("fish"), Some(FISH_COMPLETIONS));
    assert_eq!(completion_script("powershell"), None);
}

#[test]
fn type_definitions_and_types_directory() {
    let fw = Framework::NextJs;
    assert_eq!(classify_file("/my-app/src/global.d.ts", "/my-app", &fw), FileRole::Types);
    assert_eq!(classify_file("/my-app/src/types/user.ts", "/my-app", &fw), FileRole::Types);
    assert_eq!(classify_file("/my-app/src/hooks/useUser.ts", "/my-app", &fw), FileRole::Hook);
}

fn cv(s: &str) -> Vec<char> {
    s.chars().collect()
}

#[test]
fn roles_from_lowercased_parts() {
    let fw = Framework::NextJs;
    let role = |name: &str, stem: &str, ext: &str, p: &str| role_of_parts(&cv(name), &cv(stem), &cv(ext), &cv(p), fw);
    assert_eq!(role("global.d.ts", "global.d", "ts", "/src/global.d.ts"), FileRole::Types);
    assert_eq!(role("user.ts", "user", "ts", "/src/types/user.ts"), FileRole::Types);
    assert_eq!(role("useuser.ts", "useuser", "ts", "/src/hooks/useuser.ts"), FileRole::Hook);
    assert_eq!(role("package.json", "package", "json", "/package.json"), FileRole::Manifest);
    assert_eq!(role("page.tsx", "page", "tsx", "/app/page.tsx"), classify_file("/x/app/page.tsx", "/x", &fw));
}

#[test]
fn types_and_globals_stems_come_after_lib_and_hooks() {
    let fw = Framework::NextJs;
    assert_eq!(classify_file("/my-app/src/lib/types.ts", "/my-app", &fw), FileRole::Lib);
    assert_eq!(classify_file("/my-app/src/hooks/globals.ts", "/my-app", &fw), FileRole::Hook);
    assert_eq!(classify_file("/my-app/src/globals.ts", "/my-app", &fw), FileRole::Types);
    assert_eq!(classify_file("/my-app/src/types.ts", "/my-app", &fw), FileRole::Types);
}

#[test]
fn classification_ignores_ascii_case() {
    let fw = Framework::NextJs;
    let pairs = [
        ("/P/Src/Types/User.TS", "/P/src/types/user.ts"),
        ("/P/HOOKS/UseAuth.ts", "/P/hooks/useauth.ts"),
        ("/P/Package.JSON", "/P/package.json"),
        ("/P/README.md", "/P/readme.md"),
    ];
    for (a, b) in pairs {
        assert_eq!(classify_file(a, "/P", &fw), classify_file(b, "/P", &fw));
    }
    assert_eq!(classify_file("/P/Package.JSON", "/P", &fw), FileRole::Manifest);
}

#[test]
fn roles_read_the_path_inside_the_project() {
    let fw = Framework::NextJs;
    assert_eq!(classify_file("/home/u/src/my-app/package.json", "/home/u/src/my-app", &fw), FileRole::Manifest);
    assert_eq!(classify_file("/home/u/tests/app/lib.ts", "/home/u/tests/app", &fw), FileRole::Source);
    assert_eq!(classify_file("/home/u/app/src/settings.json", "/home/u/app", &fw), FileRole::Unknown);
}

#[test]
fn dotnet_from_project_files() {
    let mut m = markers();
    m.csproj = true;
    assert_eq!(detect_framework(&m), Framework::DotNet);
    let mut n = markers();
    n.sln = true;
    assert_eq!(detect_framework(&n), Framework::DotNet);
}

#[test]
fn double_star_patterns_match_paths() {
    let extra = vec!["**/*.generated.ts".to_string(), "**/migrations/".to_string(), "src/*.tmp".to_string()];
    let ig = Ignorer::build(&Framework::Unknown, &extra, false, false);
    assert!(ig.is_ignored("/p/src/api.generated.ts", false));
    assert!(ig.is_ignored("/p/api.generated.ts", false));
    assert!(ig.is_ignored("/p/app/migrations", false));
    assert!(ig.is_ignored("/p/src/a.tmp", false));
    assert!(!ig.is_ignored("/p/lib/a.tmp", false));
    assert!(!ig.is_ignored("/p/src/api.ts", false));
}
