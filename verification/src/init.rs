//! Scaffolding of a `.directreeignore` file, and the shell completion scripts.
use vstd::prelude::*;
use crate::detector::Framework;
use crate::text::{join, lowercase, chars_of, lower_chars, is_text, join_strs, extend_strs};

verus! {
pub open spec fn header_lines() -> Seq<Seq<char>> {
    seq![
        "# .directreeignore — directree-specific ignores"@,
        "# Syntax: same as .gitignore"@,
        "# These are ADDED on top of directree's built-in ignore rules."@,
        "# Run `directree --show-ignore` to see everything being filtered."@,
        ""@,
        "# ── Generated files ──────────────────────────────"@,
    ]
}

fn header_list() -> (r: Vec<&'static str>)
    ensures
        r@.map_values(|s: &str| s@) == header_lines(),
{
    let r = vec![
        "# .directreeignore — directree-specific ignores",
        "# Syntax: same as .gitignore",
        "# These are ADDED on top of directree's built-in ignore rules.",
        "# Run `directree --show-ignore` to see everything being filtered.",
        "",
        "# ── Generated files ──────────────────────────────",
    ];
    assert(r@.map_values(|s: &str| s@) =~= header_lines());
    r
}

pub open spec fn middle_lines() -> Seq<Seq<char>> {
    seq![
        ""@,
        "# ── Secrets / environment ────────────────────────"@,
        ".env.local"@,
        ".env.production"@,
        ".env.staging"@,
        "*.pem"@,
        "*.key"@,
        "secrets/"@,
        ""@,
        "# ── Large / binary assets ────────────────────────"@,
        "public/videos/"@,
        "public/fonts/"@,
        "assets/raw/"@,
        "*.mp4"@,
        "*.mov"@,
        ""@,
        "# ── Logs & temp ──────────────────────────────────"@,
        "logs/"@,
        "*.log"@,
        "*.tmp"@,
    ]
}

fn middle_list() -> (r: Vec<&'static str>)
    ensures
        r@.map_values(|s: &str| s@) == middle_lines(),
{
    let r = vec![
        "",
        "# ── Secrets / environment ────────────────────────",
        ".env.local",
        ".env.production",
        ".env.staging",
        "*.pem",
        "*.key",
        "secrets/",
        "",
        "# ── Large / binary assets ────────────────────────",
        "public/videos/",
        "public/fonts/",
        "assets/raw/",
        "*.mp4",
        "*.mov",
        "",
        "# ── Logs & temp ──────────────────────────────────",
        "logs/",
        "*.log",
        "*.tmp",
    ];
    assert(r@.map_values(|s: &str| s@) =~= middle_lines());
    r
}

pub open spec fn footer_lines() -> Seq<Seq<char>> {
    seq![
        ""@,
        "# ── Add your custom patterns below ──────────────"@,
        ""@,
    ]
}

fn footer_list() -> (r: Vec<&'static str>)
    ensures
        r@.map_values(|s: &str| s@) == footer_lines(),
{
    let r = vec![
        "",
        "# ── Add your custom patterns below ──────────────",
        "",
    ];
    assert(r@.map_values(|s: &str| s@) =~= footer_lines());
    r
}

/// The generated-file patterns for a framework.
pub open spec fn generated_lines(fw: Framework) -> Seq<Seq<char>> {
    match fw {
        Framework::NextJs | Framework::React | Framework::Vite => seq![
        "**/*.generated.ts"@,
        "**/*.generated.js"@,
        "src/graphql/generated/"@,
        "next-env.d.ts"@,
    ],
        Framework::Rust => seq![
        "**/*.generated.rs"@,
        "build.rs.out/"@,
    ],
        Framework::Python => seq![
        "**/*_pb2.py"@,
        "**/*_pb2_grpc.py"@,
        "**/migrations/"@,
    ],
        Framework::Go => seq![
        "**/*.pb.go"@,
        "**/*_gen.go"@,
    ],
        _ => seq![
        "**/*.generated.*"@,
    ],
    }
}

/// The framework-specific section, if the framework has one.
pub open spec fn specific_lines(fw: Framework) -> Seq<Seq<char>> {
    match fw {
        Framework::NextJs => seq![
        ""@,
        "# ── Next.js specific ────────────────────────────"@,
        "# Uncomment to hide storybook output:"@,
        "# storybook-static/"@,
        "# Uncomment to hide Prisma migrations:"@,
        "# prisma/migrations/"@,
    ],
        Framework::Rust => seq![
        ""@,
        "# ── Rust specific ───────────────────────────────"@,
        "benches/"@,
        "examples/"@,
        "# Uncomment to hide docs:"@,
        "# docs/"@,
    ],
        Framework::Python => seq![
        ""@,
        "# ── Python specific ─────────────────────────────"@,
        "*.pyc"@,
        "*.pyo"@,
        "__pycache__/"@,
        "*.egg-info/"@,
        "htmlcov/"@,
    ],
        _ => Seq::<Seq<char>>::empty(),
    }
}

fn generated_list(fw: Framework) -> (r: Vec<&'static str>)
    ensures
        r@.map_values(|s: &str| s@) == generated_lines(fw),
{
    let r = match fw {
        Framework::NextJs | Framework::React | Framework::Vite => vec![
            "**/*.generated.ts",
            "**/*.generated.js",
            "src/graphql/generated/",
            "next-env.d.ts",
        ],
        Framework::Rust => vec![
            "**/*.generated.rs",
            "build.rs.out/",
        ],
        Framework::Python => vec![
            "**/*_pb2.py",
            "**/*_pb2_grpc.py",
            "**/migrations/",
        ],
        Framework::Go => vec![
            "**/*.pb.go",
            "**/*_gen.go",
        ],
        _ => vec![
            "**/*.generated.*",
        ],
    };
    assert(r@.map_values(|s: &str| s@) =~= generated_lines(fw));
    r
}

fn specific_list(fw: Framework) -> (r: Vec<&'static str>)
    ensures
        r@.map_values(|s: &str| s@) == specific_lines(fw),
{
    let r = match fw {
        Framework::NextJs => vec![
            "",
            "# ── Next.js specific ────────────────────────────",
            "# Uncomment to hide storybook output:",
            "# storybook-static/",
            "# Uncomment to hide Prisma migrations:",
            "# prisma/migrations/",
        ],
        Framework::Rust => vec![
            "",
            "# ── Rust specific ───────────────────────────────",
            "benches/",
            "examples/",
            "# Uncomment to hide docs:",
            "# docs/",
        ],
        Framework::Python => vec![
            "",
            "# ── Python specific ─────────────────────────────",
            "*.pyc",
            "*.pyo",
            "__pycache__/",
            "*.egg-info/",
            "htmlcov/",
        ],
        _ => vec![],
    };
    assert(r@.map_values(|s: &str| s@) =~= specific_lines(fw));
    r
}

/// Every line of a scaffolded `.directreeignore` for a framework.
pub open spec fn ignore_file_lines(fw: Framework) -> Seq<Seq<char>> {
    header_lines() + generated_lines(fw) + middle_lines() + specific_lines(fw) + footer_lines()
}

/// The text of a `.directreeignore` for the framework: its lines, each
/// ending in a newline.
pub open spec fn ignore_file_spec(fw: Framework) -> Seq<char> {
    join(ignore_file_lines(fw), "\n"@) + "\n"@
}

/// The text of a `.directreeignore` scaffolded for `framework`.
pub fn generate_ignore_file(framework: &Framework) -> (r: String)
    ensures
        r@ == ignore_file_spec(*framework),
{
    let mut lines: Vec<&'static str> = Vec::new();
    extend_strs(&mut lines, &header_list());
    extend_strs(&mut lines, &generated_list(*framework));
    extend_strs(&mut lines, &middle_list());
    extend_strs(&mut lines, &specific_list(*framework));
    extend_strs(&mut lines, &footer_list());
    assert(lines@.map_values(|s: &str| s@) =~= ignore_file_lines(*framework));
    let mut r = join_strs(&lines, "\n");
    r.append("\n");
    r
}

// ───────────────────────────── shell completions ─────────────────────────────

pub const BASH_COMPLETIONS: &'static str = r#"# directree bash completions
# Add to ~/.bashrc:  source <(directree completions bash)

_directree_complete() {
    local cur prev opts
    COMPREPLY=()
    cur="${COMP_WORDS[COMP_CWORD]}"
    prev="${COMP_WORDS[COMP_CWORD-1]}"

    opts="--ai --flat --group --stats --collapse --no-color --hidden
          --show-ignore --no-ignore --copy --important --watch
          --depth --only --focus --since --ignore --format
          -h --help -V --version
          init completions"

    case "$prev" in
        --format)
            COMPREPLY=( $(compgen -W "tree flat json group" -- "$cur") )
            return 0 ;;
        --depth)
            COMPREPLY=( $(compgen -W "1 2 3 4 5 6" -- "$cur") )
            return 0 ;;
        --since)
            COMPREPLY=( $(compgen -W "HEAD HEAD~1 HEAD~2 main master develop" -- "$cur") )
            return 0 ;;
        completions)
            COMPREPLY=( $(compgen -W "bash zsh fish" -- "$cur") )
            return 0 ;;
    esac

    if [[ "$cur" == -* ]]; then
        COMPREPLY=( $(compgen -W "$opts" -- "$cur") )
    else
        COMPREPLY=( $(compgen -d -- "$cur") )
    fi
}

complete -F _directree_complete directree
complete -F _directree_complete dt
"#;

pub const ZSH_COMPLETIONS: &'static str = r#"#compdef directree dt
# directree zsh completions
# Add to ~/.zshrc:  source <(directree completions zsh)

_directree() {
    local -a opts dirs

    _arguments \
        '(-h --help)'{-h,--help}'[Show help]' \
        '(-V --version)'{-V,--version}'[Show version]' \
        '--ai[AI context-ready XML output]' \
        '--flat[Flat path list]' \
        '--group[Group files by type]' \
        '--stats[Show stats and token estimate]' \
        '--collapse[Collapse repeated sibling patterns]' \
        '--copy[Copy output to clipboard]' \
        '--important[Surface high-signal files]' \
        '--watch[Re-output on filesystem changes]' \
        '--no-color[Disable color]' \
        '--hidden[Show dotfiles]' \
        '--show-ignore[Print active ignore rules]' \
        '--no-ignore[Disable built-in ignore rules]' \
        '--depth[Max depth]:depth:(1 2 3 4 5 6 0)' \
        '--only[Extension filter]:extensions:' \
        '--focus[Subpath focus]:path:_files -/' \
        '--since[Changed since git ref]:git-ref:(HEAD HEAD~1 HEAD~2 main master develop)' \
        '--ignore[Extra ignore patterns]:patterns:' \
        '--format[Output format]:format:(tree flat json group)' \
        '1:directory:_files -/' \
        ':subcommands:(init completions)'
}

_directree
"#;

pub const FISH_COMPLETIONS: &'static str = r#"# directree fish completions
# Save to ~/.config/fish/completions/directree.fish

complete -c directree -f
complete -c directree -s h -l help       -d 'Show help'
complete -c directree -s V -l version    -d 'Show version'
complete -c directree -l ai              -d 'AI context-ready XML output with annotations'
complete -c directree -l flat            -d 'Flat list of relative paths'
complete -c directree -l group           -d 'Group files by type'
complete -c directree -l stats           -d 'Show stats and token estimate'
complete -c directree -l collapse        -d 'Collapse repeated sibling patterns'
complete -c directree -l copy            -d 'Copy output to clipboard'
complete -c directree -l important       -d 'Surface high-signal files'
complete -c directree -l watch           -d 'Re-output on filesystem changes'
complete -c directree -l no-color        -d 'Disable color output'
complete -c directree -l hidden          -d 'Show dotfiles'
complete -c directree -l show-ignore     -d 'Print active ignore rules'
complete -c directree -l no-ignore       -d 'Disable built-in ignore rules'
complete -c directree -l depth           -d 'Max recursion depth' -r
complete -c directree -l only            -d 'Filter extensions (e.g. ts,tsx)' -r
complete -c directree -l focus           -d 'Zoom into subpath' -r -a '(__fish_complete_directories)'
complete -c directree -l since           -d 'Changed since git ref' -r -a 'HEAD HEAD~1 HEAD~2 main master develop'
complete -c directree -l ignore          -d 'Extra ignore patterns' -r
complete -c directree -l format          -d 'Output format' -r -a 'tree flat json group'

# Subcommands
complete -c directree -n '__fish_use_subcommand' -a init        -d 'Scaffold .directreeignore'
complete -c directree -n '__fish_use_subcommand' -a completions -d 'Print shell completions'
complete -c directree -n '__fish_seen_subcommand_from completions' -a 'bash zsh fish'

# Directory completion
complete -c directree -a '(__fish_complete_directories)'
"#;

/// The completion script for a shell named case-insensitively, when it is
/// one of bash, zsh and fish.
pub open spec fn completion_spec(shell: Seq<char>) -> Option<Seq<char>> {
    completion_for(lowercase(shell))
}

/// The completion script for an already lowercased shell name.
pub open spec fn completion_for(l: Seq<char>) -> Option<Seq<char>> {
    if l == "bash"@ {
        Some(BASH_COMPLETIONS@)
    } else if l == "zsh"@ {
        Some(ZSH_COMPLETIONS@)
    } else if l == "fish"@ {
        Some(FISH_COMPLETIONS@)
    } else {
        None
    }
}

/// The completion script for `shell` (`bash`, `zsh` or `fish`, in any case).
pub fn completion_script(shell: &str) -> (r: Option<&'static str>)
    ensures
        match r {
            Some(s) => completion_spec(shell@) == Some(s@),
            None => completion_spec(shell@) is None,
        },
{
    let l = lower_chars(&chars_of(shell));
    completion_for_lowered(&l)
}

/// The completion script for a shell name that is already lowercased.
pub fn completion_for_lowered(l: &Vec<char>) -> (r: Option<&'static str>)
    ensures
        match r {
            Some(s) => completion_for(l@) == Some(s@),
            None => completion_for(l@) is None,
        },
{
    if is_text(l, "bash") {
        Some(BASH_COMPLETIONS)
    } else if is_text(l, "zsh") {
        Some(ZSH_COMPLETIONS)
    } else if is_text(l, "fish") {
        Some(FISH_COMPLETIONS)
    } else {
        None
    }
}

// ───────────────────────────── laws ─────────────────────────────

/// The generated-file patterns that the scaffolded ignore file lists for each
/// framework.
pub proof fn law_generated_patterns()
    ensures
        generated_lines(Framework::NextJs) == seq![ "**/*.generated.ts"@, "**/*.generated.js"@, "src/graphql/generated/"@, "next-env.d.ts"@, ],
        generated_lines(Framework::React) == seq![ "**/*.generated.ts"@, "**/*.generated.js"@, "src/graphql/generated/"@, "next-env.d.ts"@, ],
        generated_lines(Framework::Vue) == seq![ "**/*.generated.*"@, ],
        generated_lines(Framework::Svelte) == seq![ "**/*.generated.*"@, ],
        generated_lines(Framework::Astro) == seq![ "**/*.generated.*"@, ],
        generated_lines(Framework::Vite) == seq![ "**/*.generated.ts"@, "**/*.generated.js"@, "src/graphql/generated/"@, "next-env.d.ts"@, ],
        generated_lines(Framework::Rust) == seq![ "**/*.generated.rs"@, "build.rs.out/"@, ],
        generated_lines(Framework::Python) == seq![ "**/*_pb2.py"@, "**/*_pb2_grpc.py"@, "**/migrations/"@, ],
        generated_lines(Framework::Go) == seq![ "**/*.pb.go"@, "**/*_gen.go"@, ],
        generated_lines(Framework::Java) == seq![ "**/*.generated.*"@, ],
        generated_lines(Framework::DotNet) == seq![ "**/*.generated.*"@, ],
        generated_lines(Framework::Node) == seq![ "**/*.generated.*"@, ],
        generated_lines(Framework::Unknown) == seq![ "**/*.generated.*"@, ],
{
}

/// The scaffolded file lists the header, the framework's generated-file patterns,
/// the common section, the framework's own section and the footer, in that order.
pub proof fn law_ignore_file_sections(fw: Framework)
    ensures
        ignore_file_lines(fw).subrange(0, header_lines().len() as int) == header_lines(),
        ignore_file_lines(fw).subrange(
            header_lines().len() as int,
            (header_lines().len() + generated_lines(fw).len()) as int,
        ) == generated_lines(fw),
{
    let h = header_lines();
    let g = generated_lines(fw);
    let rest = middle_lines() + specific_lines(fw) + footer_lines();
    assert(ignore_file_lines(fw) =~= h + g + rest);
    assert((h + g + rest).subrange(0, h.len() as int) =~= h);
    assert((h + g + rest).subrange(h.len() as int, (h.len() + g.len()) as int) =~= g);
}

/// `bash`, `zsh` and `fish` (lowercased) get their scripts; other shells none.
pub proof fn law_completion_scripts(l: Seq<char>)
    ensures
        l == "bash"@ ==> completion_for(l) == Some(BASH_COMPLETIONS@),
        l == "zsh"@ ==> completion_for(l) == Some(ZSH_COMPLETIONS@),
        l == "fish"@ ==> completion_for(l) == Some(FISH_COMPLETIONS@),
        l != "bash"@ && l != "zsh"@ && l != "fish"@ ==> completion_for(l) is None,
{
    reveal_strlit("bash");
    reveal_strlit("zsh");
    reveal_strlit("fish");
    assert("bash"@.len() == 4 && "zsh"@.len() == 3 && "fish"@.len() == 4);
    assert("bash"@[0] == 'b' && "fish"@[0] == 'f');
}
} // verus!
