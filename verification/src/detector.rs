//! Framework detection and the file-role classifier.
use vstd::prelude::*;
use crate::text::{
    lowercase, replace_char, is_ascii_text, is_ascii_char, ascii_lower, lower_ascii_fn,
    lower_ascii_char, lemma_lower_ascii_char, contains_seq, has_prefix, has_suffix, chars_of, lower_chars,
    replace_char_exec, one_of, contains_text, starts_with_text, ends_with_text, is_text,
    slice_chars,
};
use crate::paths::{
    file_name, file_stem, extension, file_name_exec, stem_and_ext, rel_path, rel_path_exec,
    keeps_separators, lemma_file_parts_map, lemma_rel_path_skips, lemma_rel_skip_same, rel_skip,
};

verus! {

/// The project kinds that the tree knows about.
#[derive(Debug, Clone, Copy, PartialEq, Eq, Structural)]
pub enum Framework {
    NextJs,
    React,
    Vue,
    Svelte,
    Astro,
    Vite,
    Rust,
    Python,
    Go,
    Java,
    DotNet,
    Node,
    Unknown,
}

pub open spec fn framework_name(f: Framework) -> Seq<char> {
    match f {
        Framework::NextJs => "nextjs"@,
        Framework::React => "react"@,
        Framework::Vue => "vue"@,
        Framework::Svelte => "svelte"@,
        Framework::Astro => "astro"@,
        Framework::Vite => "vite"@,
        Framework::Rust => "rust"@,
        Framework::Python => "python"@,
        Framework::Go => "go"@,
        Framework::Java => "java"@,
        Framework::DotNet => "dotnet"@,
        Framework::Node => "node"@,
        Framework::Unknown => "unknown"@,
    }
}

pub open spec fn framework_lang(f: Framework) -> Seq<char> {
    match f {
        Framework::NextJs | Framework::React | Framework::Vue | Framework::Svelte
        | Framework::Astro | Framework::Vite | Framework::Node => "typescript"@,
        Framework::Rust => "rust"@,
        Framework::Python => "python"@,
        Framework::Go => "go"@,
        Framework::Java => "java"@,
        Framework::DotNet => "csharp"@,
        Framework::Unknown => "unknown"@,
    }
}

pub open spec fn framework_ignores(f: Framework) -> Seq<Seq<char>> {
    match f {
        Framework::NextJs => seq![".next"@, "out"@, "next-env.d.ts"@, ".vercel"@],
        Framework::React | Framework::Vite => seq!["dist"@, "build"@],
        Framework::Vue => seq!["dist"@, ".nuxt"@, ".output"@],
        Framework::Svelte => seq![".svelte-kit"@, "build"@],
        Framework::Astro => seq!["dist"@, ".astro"@],
        Framework::Rust => seq!["target"@],
        Framework::Python => seq![
            "__pycache__"@,
            ".venv"@,
            "venv"@,
            "env"@,
            ".eggs"@,
            "*.egg-info"@,
            "dist"@,
            "build"@,
            ".pytest_cache"@,
            ".mypy_cache"@,
            ".ruff_cache"@,
        ],
        Framework::Go => seq!["vendor"@],
        Framework::Java => seq!["target"@, "build"@, ".gradle"@, "out"@, "*.class"@],
        Framework::DotNet => seq!["bin"@, "obj"@, ".vs"@],
        _ => Seq::<Seq<char>>::empty(),
    }
}

impl Framework {
    pub fn name(&self) -> (r: &'static str)
        ensures
            r@ == framework_name(*self),
    {
        match self {
            Framework::NextJs => "nextjs",
            Framework::React => "react",
            Framework::Vue => "vue",
            Framework::Svelte => "svelte",
            Framework::Astro => "astro",
            Framework::Vite => "vite",
            Framework::Rust => "rust",
            Framework::Python => "python",
            Framework::Go => "go",
            Framework::Java => "java",
            Framework::DotNet => "dotnet",
            Framework::Node => "node",
            Framework::Unknown => "unknown",
        }
    }

    pub fn lang(&self) -> (r: &'static str)
        ensures
            r@ == framework_lang(*self),
    {
        match self {
            Framework::NextJs | Framework::React | Framework::Vue | Framework::Svelte
            | Framework::Astro | Framework::Vite | Framework::Node => "typescript",
            Framework::Rust => "rust",
            Framework::Python => "python",
            Framework::Go => "go",
            Framework::Java => "java",
            Framework::DotNet => "csharp",
            Framework::Unknown => "unknown",
        }
    }

    /// Extra directories/files to ignore for this framework.
    pub fn extra_ignores(&self) -> (r: Vec<&'static str>)
        ensures
            r@.map_values(|s: &str| s@) == framework_ignores(*self),
    {
        let r = match self {
            Framework::NextJs => vec![".next", "out", "next-env.d.ts", ".vercel"],
            Framework::React | Framework::Vite => vec!["dist", "build"],
            Framework::Vue => vec!["dist", ".nuxt", ".output"],
            Framework::Svelte => vec![".svelte-kit", "build"],
            Framework::Astro => vec!["dist", ".astro"],
            Framework::Rust => vec!["target"],
            Framework::Python => vec![
                "__pycache__",
                ".venv",
                "venv",
                "env",
                ".eggs",
                "*.egg-info",
                "dist",
                "build",
                ".pytest_cache",
                ".mypy_cache",
                ".ruff_cache",
            ],
            Framework::Go => vec!["vendor"],
            Framework::Java => vec!["target", "build", ".gradle", "out", "*.class"],
            Framework::DotNet => vec!["bin", "obj", ".vs"],
            _ => vec![],
        };
        assert(r@.map_values(|s: &str| s@) =~= framework_ignores(*self));
        r
    }
}

// ───────────────────────────── detection ─────────────────────────────

/// What the root directory holds that detection reads: the text of
/// `package.json` when it exists and can be read, and which marker files exist.
pub struct ProjectMarkers {
    pub package_json: Option<String>,
    pub cargo_toml: bool,
    pub go_mod: bool,
    pub requirements_txt: bool,
    pub pyproject_toml: bool,
    pub setup_py: bool,
    pub pom_xml: bool,
    pub build_gradle: bool,
    /// Some file of the root whose name ends in `.csproj`.
    pub csproj: bool,
    /// Some file of the root whose name ends in `.sln`.
    pub sln: bool,
}

pub open spec fn package_framework(pkg: Seq<char>) -> Framework {
    if contains_seq(pkg, "\"next\""@) {
        Framework::NextJs
    } else if contains_seq(pkg, "\"astro\""@) {
        Framework::Astro
    } else if contains_seq(pkg, "\"@sveltejs/kit\""@) || contains_seq(pkg, "\"svelte\""@) {
        Framework::Svelte
    } else if contains_seq(pkg, "\"vue\""@) {
        Framework::Vue
    } else if contains_seq(pkg, "\"vite\""@) {
        Framework::Vite
    } else if contains_seq(pkg, "\"react\""@) {
        Framework::React
    } else {
        Framework::Node
    }
}

pub open spec fn detect_spec(m: ProjectMarkers) -> Framework {
    match m.package_json {
        Some(pkg) => package_framework(pkg@),
        None => if m.cargo_toml {
            Framework::Rust
        } else if m.go_mod {
            Framework::Go
        } else if m.requirements_txt || m.pyproject_toml || m.setup_py {
            Framework::Python
        } else if m.pom_xml || m.build_gradle {
            Framework::Java
        } else if m.csproj || m.sln {
            Framework::DotNet
        } else {
            Framework::Unknown
        },
    }
}

/// The framework that the root's marker files indicate.
pub fn detect_framework(markers: &ProjectMarkers) -> (r: Framework)
    ensures
        r == detect_spec(*markers),
{
    match &markers.package_json {
        Some(pkg) => {
            let c = chars_of(pkg.as_str());
            if contains_text(&c, "\"next\"") {
                Framework::NextJs
            } else if contains_text(&c, "\"astro\"") {
                Framework::Astro
            } else if contains_text(&c, "\"@sveltejs/kit\"") || contains_text(&c, "\"svelte\"") {
                Framework::Svelte
            } else if contains_text(&c, "\"vue\"") {
                Framework::Vue
            } else if contains_text(&c, "\"vite\"") {
                Framework::Vite
            } else if contains_text(&c, "\"react\"") {
                Framework::React
            } else {
                Framework::Node
            }
        },
        None => {
            if markers.cargo_toml {
                Framework::Rust
            } else if markers.go_mod {
                Framework::Go
            } else if markers.requirements_txt || markers.pyproject_toml || markers.setup_py {
                Framework::Python
            } else if markers.pom_xml || markers.build_gradle {
                Framework::Java
            } else if markers.csproj || markers.sln {
                Framework::DotNet
            } else {
                Framework::Unknown
            }
        },
    }
}

// ───────────────────────────── file roles ─────────────────────────────

#[derive(Debug, Clone, Copy, PartialEq, Eq, Structural)]
pub enum FileRole {
    // Source
    SourceMain,
    Layout,
    Page,
    Component,
    Hook,
    Util,
    Lib,
    DbClient,
    ApiRoute,
    Middleware,
    Store,
    Types,
    // Config
    Config,
    Manifest,
    EnvFile,
    Lockfile,
    Dockerfile,
    CiConfig,
    // Test
    Test,
    TestUtil,
    // Asset
    Asset,
    Style,
    // Docs
    Readme,
    Docs,
    // Generic
    Source,
    Unknown,
}

impl Default for FileRole {
    fn default() -> (r: Self)
        ensures
            r == FileRole::Unknown,
    {
        FileRole::Unknown
    }
}

#[derive(Debug, Clone, Copy, PartialEq, Eq, Structural, PartialOrd, Ord)]
pub enum FileCategory {
    Source,
    Config,
    Test,
    Asset,
    Docs,
}

pub open spec fn role_annotation(r: FileRole) -> Option<Seq<char>> {
    match r {
        FileRole::Layout => Some("layout"@),
        FileRole::Page => Some("page"@),
        FileRole::Component => Some("ui-component"@),
        FileRole::Hook => Some("hook"@),
        FileRole::Util => Some("util"@),
        FileRole::Lib => Some("lib"@),
        FileRole::DbClient => Some("db-client"@),
        FileRole::ApiRoute => Some("api-route"@),
        FileRole::Middleware => Some("middleware"@),
        FileRole::Store => Some("store"@),
        FileRole::Types => Some("types"@),
        FileRole::Config => Some("config"@),
        FileRole::Manifest => Some("manifest"@),
        FileRole::EnvFile => Some("env"@),
        FileRole::Lockfile => Some("lockfile"@),
        FileRole::Dockerfile => Some("docker"@),
        FileRole::CiConfig => Some("ci"@),
        FileRole::Test => Some("test"@),
        FileRole::TestUtil => Some("test-util"@),
        FileRole::Style => Some("styles"@),
        FileRole::Readme => Some("readme"@),
        FileRole::Docs => Some("docs"@),
        FileRole::SourceMain => Some("entry"@),
        _ => None,
    }
}

pub open spec fn role_category(r: FileRole) -> FileCategory {
    match r {
        FileRole::Config | FileRole::Manifest | FileRole::EnvFile | FileRole::Lockfile
        | FileRole::Dockerfile | FileRole::CiConfig => FileCategory::Config,
        FileRole::Test | FileRole::TestUtil => FileCategory::Test,
        FileRole::Asset | FileRole::Style => FileCategory::Asset,
        FileRole::Readme | FileRole::Docs => FileCategory::Docs,
        _ => FileCategory::Source,
    }
}

pub open spec fn category_label(c: FileCategory) -> Seq<char> {
    match c {
        FileCategory::Source => "source"@,
        FileCategory::Config => "config"@,
        FileCategory::Test => "tests"@,
        FileCategory::Asset => "assets"@,
        FileCategory::Docs => "docs"@,
    }
}

impl FileRole {
    pub fn annotation(&self) -> (r: Option<&'static str>)
        ensures
            match r {
                Some(s) => role_annotation(*self) == Some(s@),
                None => role_annotation(*self) is None,
            },
    {
        match self {
            FileRole::Layout => Some("layout"),
            FileRole::Page => Some("page"),
            FileRole::Component => Some("ui-component"),
            FileRole::Hook => Some("hook"),
            FileRole::Util => Some("util"),
            FileRole::Lib => Some("lib"),
            FileRole::DbClient => Some("db-client"),
            FileRole::ApiRoute => Some("api-route"),
            FileRole::Middleware => Some("middleware"),
            FileRole::Store => Some("store"),
            FileRole::Types => Some("types"),
            FileRole::Config => Some("config"),
            FileRole::Manifest => Some("manifest"),
            FileRole::EnvFile => Some("env"),
            FileRole::Lockfile => Some("lockfile"),
            FileRole::Dockerfile => Some("docker"),
            FileRole::CiConfig => Some("ci"),
            FileRole::Test => Some("test"),
            FileRole::TestUtil => Some("test-util"),
            FileRole::Style => Some("styles"),
            FileRole::Readme => Some("readme"),
            FileRole::Docs => Some("docs"),
            FileRole::SourceMain => Some("entry"),
            _ => None,
        }
    }

    pub fn category(&self) -> (r: FileCategory)
        ensures
            r == role_category(*self),
    {
        match self {
            FileRole::Config | FileRole::Manifest | FileRole::EnvFile | FileRole::Lockfile
            | FileRole::Dockerfile | FileRole::CiConfig => FileCategory::Config,
            FileRole::Test | FileRole::TestUtil => FileCategory::Test,
            FileRole::Asset | FileRole::Style => FileCategory::Asset,
            FileRole::Readme | FileRole::Docs => FileCategory::Docs,
            _ => FileCategory::Source,
        }
    }
}

impl FileCategory {
    pub fn label(&self) -> (r: &'static str)
        ensures
            r@ == category_label(*self),
    {
        match self {
            FileCategory::Source => "source",
            FileCategory::Config => "config",
            FileCategory::Test => "tests",
            FileCategory::Asset => "assets",
            FileCategory::Docs => "docs",
        }
    }
}

// ───────────────────────────── classification ─────────────────────────────

pub open spec fn lockfile_names() -> Seq<Seq<char>> {
    seq![
        "package-lock.json"@,
        "yarn.lock"@,
        "pnpm-lock.yaml"@,
        "cargo.lock"@,
        "poetry.lock"@,
        "pipfile.lock"@,
        "go.sum"@,
    ]
}

pub open spec fn test_config_names() -> Seq<Seq<char>> {
    seq![
        "jest.config.js"@,
        "jest.config.ts"@,
        "vitest.config.ts"@,
        "vitest.config.js"@,
        "playwright.config.ts"@,
        "cypress.config.ts"@,
    ]
}

pub open spec fn style_exts() -> Seq<Seq<char>> {
    seq!["css"@, "scss"@, "sass"@, "less"@, "styl"@]
}

pub open spec fn asset_exts() -> Seq<Seq<char>> {
    seq![
        "png"@,
        "jpg"@,
        "jpeg"@,
        "gif"@,
        "svg"@,
        "webp"@,
        "ico"@,
        "woff"@,
        "woff2"@,
        "ttf"@,
        "eot"@,
        "mp4"@,
        "mp3"@,
        "pdf"@,
        "zip"@,
        "tar"@,
        "gz"@,
    ]
}

pub open spec fn config_exts() -> Seq<Seq<char>> {
    seq!["json"@, "yaml"@, "yml"@, "toml"@, "ini"@, "cfg"@, "conf"@]
}

pub open spec fn config_names() -> Seq<Seq<char>> {
    seq![
        "tailwind.config.ts"@,
        "tailwind.config.js"@,
        "next.config.js"@,
        "next.config.ts"@,
        "next.config.mjs"@,
        "vite.config.ts"@,
        "vite.config.js"@,
        "tsconfig.json"@,
        "eslint.config.js"@,
        ".eslintrc.js"@,
        ".eslintrc.json"@,
        ".prettierrc"@,
        ".babelrc"@,
        "babel.config.js"@,
        "webpack.config.js"@,
        "rollup.config.js"@,
        "astro.config.mjs"@,
        "svelte.config.js"@,
        "nuxt.config.ts"@,
    ]
}

pub open spec fn source_exts() -> Seq<Seq<char>> {
    seq![
        "rs"@,
        "go"@,
        "py"@,
        "js"@,
        "ts"@,
        "jsx"@,
        "tsx"@,
        "vue"@,
        "svelte"@,
        "java"@,
        "kt"@,
        "cs"@,
        "cpp"@,
        "c"@,
        "h"@,
        "rb"@,
        "php"@,
        "swift"@,
    ]
}

/// Roles that do not depend on the framework, decided in order.
pub open spec fn generic_role(name: Seq<char>, stem: Seq<char>, ext: Seq<char>, p: Seq<char>) -> Option<
    FileRole,
> {
    if lockfile_names().contains(name) {
        Some(FileRole::Lockfile)
    } else if has_prefix(name, ".env"@) {
        Some(FileRole::EnvFile)
    } else if name == "dockerfile"@ || has_prefix(name, "dockerfile."@) {
        Some(FileRole::Dockerfile)
    } else if contains_seq(p, "/.github/workflows/"@) || contains_seq(p, "/.circleci/"@) || name
        == ".gitlab-ci.yml"@ || name == "jenkinsfile"@ {
        Some(FileRole::CiConfig)
    } else if stem == "readme"@ {
        Some(FileRole::Readme)
    } else if seq!["md"@, "mdx"@, "rst"@, "txt"@].contains(ext) && (contains_seq(p, "/docs/"@)
        || contains_seq(p, "/doc/"@)) {
        Some(FileRole::Docs)
    } else if contains_seq(name, ".test."@) || contains_seq(name, ".spec."@) || has_suffix(
        name,
        "_test.rs"@,
    ) || has_suffix(name, "_test.go"@) || has_suffix(name, "_test.py"@) || contains_seq(
        p,
        "/__tests__/"@,
    ) || contains_seq(p, "/tests/"@) || contains_seq(p, "/test/"@) || contains_seq(p, "/spec/"@) {
        Some(FileRole::Test)
    } else if test_config_names().contains(name) {
        Some(FileRole::TestUtil)
    } else if style_exts().contains(ext) {
        Some(FileRole::Style)
    } else if asset_exts().contains(ext) {
        Some(FileRole::Asset)
    } else if config_exts().contains(ext) && !contains_seq(p, "/src/"@) {
        if name == "package.json"@ {
            Some(FileRole::Manifest)
        } else {
            Some(FileRole::Config)
        }
    } else if config_names().contains(name) {
        Some(FileRole::Config)
    } else {
        None
    }
}

/// Source roles that a framework gives names and directories.
pub open spec fn framework_role(
    name: Seq<char>,
    stem: Seq<char>,
    ext: Seq<char>,
    p: Seq<char>,
    fw: Framework,
) -> Option<FileRole> {
    match fw {
        Framework::NextJs | Framework::Astro => {
            if stem == "layout"@ {
                Some(FileRole::Layout)
            } else if stem == "page"@ || stem == "index"@ {
                Some(FileRole::Page)
            } else if contains_seq(p, "/api/"@) || contains_seq(p, "/route"@) {
                Some(FileRole::ApiRoute)
            } else if contains_seq(p, "/middleware"@) {
                Some(FileRole::Middleware)
            } else if contains_seq(p, "/components/"@) {
                Some(FileRole::Component)
            } else if contains_seq(p, "/types/"@) || has_suffix(name, ".d.ts"@) {
                Some(FileRole::Types)
            } else if contains_seq(p, "/hooks/"@) || has_prefix(stem, "use"@) {
                Some(FileRole::Hook)
            } else if contains_seq(p, "/store/"@) || contains_seq(p, "/stores/"@) || contains_seq(
                p,
                "/context/"@,
            ) {
                Some(FileRole::Store)
            } else if contains_seq(p, "/lib/"@) || contains_seq(p, "/utils/"@) {
                if contains_seq(name, "supabase"@) || contains_seq(name, "prisma"@) || contains_seq(
                    name,
                    "db"@,
                ) {
                    Some(FileRole::DbClient)
                } else {
                    Some(FileRole::Lib)
                }
            } else if stem == "types"@ || stem == "globals"@ {
                Some(FileRole::Types)
            } else {
                None
            }
        },
        Framework::Rust => {
            if stem == "main"@ {
                Some(FileRole::SourceMain)
            } else if stem == "lib"@ {
                Some(FileRole::Lib)
            } else if contains_seq(p, "/bin/"@) {
                Some(FileRole::SourceMain)
            } else {
                None
            }
        },
        Framework::Python => {
            if stem == "__main__"@ || stem == "main"@ || stem == "app"@ || stem == "wsgi"@ {
                Some(FileRole::SourceMain)
            } else if contains_seq(p, "/models/"@) || contains_seq(p, "/schemas/"@) {
                Some(FileRole::Types)
            } else if contains_seq(p, "/utils/"@) || contains_seq(p, "/helpers/"@) {
                Some(FileRole::Util)
            } else if contains_seq(p, "/db/"@) || contains_seq(p, "/database/"@) || contains_seq(
                name,
                "database"@,
            ) || contains_seq(name, "models"@) {
                Some(FileRole::DbClient)
            } else {
                None
            }
        },
        _ => None,
    }
}

pub open spec fn role_from_parts(
    name: Seq<char>,
    stem: Seq<char>,
    ext: Seq<char>,
    p: Seq<char>,
    fw: Framework,
) -> FileRole {
    match generic_role(name, stem, ext, p) {
        Some(r) => r,
        None => match framework_role(name, stem, ext, p, fw) {
            Some(r) => r,
            None => if source_exts().contains(ext) {
                FileRole::Source
            } else {
                FileRole::Unknown
            },
        },
    }
}

pub open spec fn or_empty(o: Option<Seq<char>>) -> Seq<char> {
    match o {
        Some(s) => s,
        None => Seq::<char>::empty(),
    }
}

/// The path as seen from the project: `/` and the path relative to `root`, or the
/// path itself when it lies outside `root`.
pub open spec fn in_project(path: Seq<char>, root: Seq<char>) -> Seq<char> {
    match rel_path(path, root) {
        Some(r) => seq!['/'] + r,
        None => path,
    }
}

/// The role of the file at `path` in the project at `root`: its name, stem and
/// extension lowercased, and its path from the project lowercased with `'\\'` read
/// as `'/'`.
pub open spec fn classify_spec(path: Seq<char>, root: Seq<char>, fw: Framework) -> FileRole {
    role_from_parts(
        lowercase(or_empty(file_name(path))),
        lowercase(or_empty(file_stem(path))),
        lowercase(or_empty(extension(path))),
        replace_char(lowercase(in_project(path, root)), '\\', '/'),
        fw,
    )
}

/// `classify_spec` on ASCII text, where lowering case is lowering `A`–`Z`.
pub open spec fn classify_ascii(path: Seq<char>, root: Seq<char>, fw: Framework) -> FileRole {
    role_from_parts(
        ascii_lower(or_empty(file_name(path))),
        ascii_lower(or_empty(file_stem(path))),
        ascii_lower(or_empty(extension(path))),
        replace_char(ascii_lower(in_project(path, root)), '\\', '/'),
        fw,
    )
}

pub open spec fn ascii_or_hash(c: char) -> char {
    if is_ascii_char(c) {
        c
    } else {
        '#'
    }
}

pub open spec fn ascii_or_hash_fn() -> spec_fn(char) -> char {
    |c: char| ascii_or_hash(c)
}

proof fn lemma_maps_keep_separators()
    ensures
        keeps_separators(lower_ascii_fn()),
        keeps_separators(ascii_or_hash_fn()),
{
    assert forall|c: char| #![trigger lower_ascii_fn()(c)] (lower_ascii_fn()(c) == '/' <==> c == '/') && (
    lower_ascii_fn()(c) == '.' <==> c == '.') by {
        lemma_lower_ascii_char(c);
    }
    assert forall|c: char| #![trigger ascii_or_hash_fn()(c)] (ascii_or_hash_fn()(c) == '/' <==> c == '/')
        && (ascii_or_hash_fn()(c) == '.' <==> c == '.') by {
        assert(('#' as u32) == 35);
    }
}

proof fn lemma_fixed_is_ascii(s: Seq<char>)
    requires
        s.map_values(ascii_or_hash_fn()) == s,
    ensures
        is_ascii_text(s),
{
    assert forall|i: int| 0 <= i < s.len() implies is_ascii_char(#[trigger] s[i]) by {
        assert(s.map_values(ascii_or_hash_fn())[i] == ascii_or_hash(s[i]));
        assert(('#' as u32) == 35);
    }
}

/// The parts of an ASCII path that classification reads are ASCII.
proof fn lemma_ascii_parts(p: Seq<char>, root: Seq<char>)
    requires
        is_ascii_text(p),
    ensures
        is_ascii_text(or_empty(file_name(p))),
        is_ascii_text(or_empty(file_stem(p))),
        is_ascii_text(or_empty(extension(p))),
        is_ascii_text(in_project(p, root)),
{
    let h = ascii_or_hash_fn();
    lemma_maps_keep_separators();
    assert(p.map_values(h) =~= p);
    lemma_file_parts_map(p, h);
    if let Some(n) = file_name(p) {
        lemma_fixed_is_ascii(n);
    }
    if let Some(n) = file_stem(p) {
        lemma_fixed_is_ascii(n);
    }
    if let Some(n) = extension(p) {
        lemma_fixed_is_ascii(n);
    }
    lemma_rel_path_skips(p, root);
    if rel_path(p, root) is Some {
        let t = seq!['/'] + p.skip(rel_skip(p, root));
        assert forall|i: int| 0 <= i < t.len() implies is_ascii_char(#[trigger] t[i]) by {
            if i > 0 {
                assert(t[i] == p[i - 1 + rel_skip(p, root)]);
            }
        }
    }
}

proof fn lemma_lower_or_empty(o: Option<Seq<char>>)
    ensures
        ascii_lower(or_empty(o)) == or_empty(
            match o {
                Some(n) => Some(n.map_values(lower_ascii_fn())),
                None => None,
            },
        ),
{
    if o is None {
        assert(ascii_lower(Seq::<char>::empty()) =~= Seq::<char>::empty());
    }
}

/// Classification does not see the case of ASCII letters: two paths that differ
/// only in it get the same role, as long as both lie in the project or both lie
/// outside it.
pub proof fn law_classification_ignores_case(p: Seq<char>, q: Seq<char>, root: Seq<char>, fw: Framework)
    requires
        ascii_lower(p) == ascii_lower(q),
        rel_path(p, root) is Some <==> rel_path(q, root) is Some,
    ensures
        classify_ascii(p, root, fw) == classify_ascii(q, root, fw),
{
    let l = lower_ascii_fn();
    lemma_maps_keep_separators();
    lemma_file_parts_map(p, l);
    lemma_file_parts_map(q, l);
    lemma_lower_or_empty(file_name(p));
    lemma_lower_or_empty(file_name(q));
    lemma_lower_or_empty(file_stem(p));
    lemma_lower_or_empty(file_stem(q));
    lemma_lower_or_empty(extension(p));
    lemma_lower_or_empty(extension(q));
    assert(p.len() == ascii_lower(p).len() && q.len() == ascii_lower(q).len());
    lemma_rel_path_skips(p, root);
    lemma_rel_path_skips(q, root);
    if rel_path(p, root) is Some {
        lemma_rel_skip_same(p, q, root);
        let k = rel_skip(p, root);
        lemma_lower_ascii_char('/');
        assert(ascii_lower(seq!['/'] + p.skip(k)) =~= seq!['/'] + ascii_lower(p).skip(k));
        assert(ascii_lower(seq!['/'] + q.skip(k)) =~= seq!['/'] + ascii_lower(q).skip(k));
    }
}

fn generic_role_exec(name: &Vec<char>, stem: &Vec<char>, ext: &Vec<char>, p: &Vec<char>) -> (r:
    Option<FileRole>)
    ensures
        r == generic_role(name@, stem@, ext@, p@),
{
    let r = if one_of(
        name,
        &[
            "package-lock.json",
            "yarn.lock",
            "pnpm-lock.yaml",
            "cargo.lock",
            "poetry.lock",
            "pipfile.lock",
            "go.sum",
        ],
    ) {
        Some(FileRole::Lockfile)
    } else if starts_with_text(name, ".env") {
        Some(FileRole::EnvFile)
    } else if is_text(name, "dockerfile") || starts_with_text(name, "dockerfile.") {
        Some(FileRole::Dockerfile)
    } else if contains_text(p, "/.github/workflows/") || contains_text(p, "/.circleci/") || is_text(
        name,
        ".gitlab-ci.yml",
    ) || is_text(name, "jenkinsfile") {
        Some(FileRole::CiConfig)
    } else if is_text(stem, "readme") {
        Some(FileRole::Readme)
    } else if one_of(ext, &["md", "mdx", "rst", "txt"]) && (contains_text(p, "/docs/")
        || contains_text(p, "/doc/")) {
        Some(FileRole::Docs)
    } else if contains_text(name, ".test.") || contains_text(name, ".spec.") || ends_with_text(
        name,
        "_test.rs",
    ) || ends_with_text(name, "_test.go") || ends_with_text(name, "_test.py") || contains_text(
        p,
        "/__tests__/",
    ) || contains_text(p, "/tests/") || contains_text(p, "/test/") || contains_text(p, "/spec/") {
        Some(FileRole::Test)
    } else if one_of(
        name,
        &[
            "jest.config.js",
            "jest.config.ts",
            "vitest.config.ts",
            "vitest.config.js",
            "playwright.config.ts",
            "cypress.config.ts",
        ],
    ) {
        Some(FileRole::TestUtil)
    } else if one_of(ext, &["css", "scss", "sass", "less", "styl"]) {
        Some(FileRole::Style)
    } else if one_of(
        ext,
        &[
            "png",
            "jpg",
            "jpeg",
            "gif",
            "svg",
            "webp",
            "ico",
            "woff",
            "woff2",
            "ttf",
            "eot",
            "mp4",
            "mp3",
            "pdf",
            "zip",
            "tar",
            "gz",
        ],
    ) {
        Some(FileRole::Asset)
    } else if one_of(ext, &["json", "yaml", "yml", "toml", "ini", "cfg", "conf"]) && !contains_text(
        p,
        "/src/",
    ) {
        if is_text(name, "package.json") {
            Some(FileRole::Manifest)
        } else {
            Some(FileRole::Config)
        }
    } else if one_of(
        name,
        &[
            "tailwind.config.ts",
            "tailwind.config.js",
            "next.config.js",
            "next.config.ts",
            "next.config.mjs",
            "vite.config.ts",
            "vite.config.js",
            "tsconfig.json",
            "eslint.config.js",
            ".eslintrc.js",
            ".eslintrc.json",
            ".prettierrc",
            ".babelrc",
            "babel.config.js",
            "webpack.config.js",
            "rollup.config.js",
            "astro.config.mjs",
            "svelte.config.js",
            "nuxt.config.ts",
        ],
    ) {
        Some(FileRole::Config)
    } else {
        None
    };
    proof {
        assert([
            "package-lock.json",
            "yarn.lock",
            "pnpm-lock.yaml",
            "cargo.lock",
            "poetry.lock",
            "pipfile.lock",
            "go.sum",
        ]@.map_values(|l: &str| l@) =~= lockfile_names());
        assert(["md", "mdx", "rst", "txt"]@.map_values(|l: &str| l@) =~= seq![
            "md"@,
            "mdx"@,
            "rst"@,
            "txt"@,
        ]);
        assert([
            "jest.config.js",
            "jest.config.ts",
            "vitest.config.ts",
            "vitest.config.js",
            "playwright.config.ts",
            "cypress.config.ts",
        ]@.map_values(|l: &str| l@) =~= test_config_names());
        assert(["css", "scss", "sass", "less", "styl"]@.map_values(|l: &str| l@) =~= style_exts());
        assert([
            "png",
            "jpg",
            "jpeg",
            "gif",
            "svg",
            "webp",
            "ico",
            "woff",
            "woff2",
            "ttf",
            "eot",
            "mp4",
            "mp3",
            "pdf",
            "zip",
            "tar",
            "gz",
        ]@.map_values(|l: &str| l@) =~= asset_exts());
        assert(["json", "yaml", "yml", "toml", "ini", "cfg", "conf"]@.map_values(|l: &str| l@)
            =~= config_exts());
        assert([
            "tailwind.config.ts",
            "tailwind.config.js",
            "next.config.js",
            "next.config.ts",
            "next.config.mjs",
            "vite.config.ts",
            "vite.config.js",
            "tsconfig.json",
            "eslint.config.js",
            ".eslintrc.js",
            ".eslintrc.json",
            ".prettierrc",
            ".babelrc",
            "babel.config.js",
            "webpack.config.js",
            "rollup.config.js",
            "astro.config.mjs",
            "svelte.config.js",
            "nuxt.config.ts",
        ]@.map_values(|l: &str| l@) =~= config_names());
    }
    r
}

fn framework_role_exec(
    name: &Vec<char>,
    stem: &Vec<char>,
    ext: &Vec<char>,
    p: &Vec<char>,
    fw: Framework,
) -> (r: Option<FileRole>)
    ensures
        r == framework_role(name@, stem@, ext@, p@, fw),
{
    match fw {
        Framework::NextJs | Framework::Astro => {
            if is_text(stem, "layout") {
                Some(FileRole::Layout)
            } else if is_text(stem, "page") || is_text(stem, "index") {
                Some(FileRole::Page)
            } else if contains_text(p, "/api/") || contains_text(p, "/route") {
                Some(FileRole::ApiRoute)
            } else if contains_text(p, "/middleware") {
                Some(FileRole::Middleware)
            } else if contains_text(p, "/components/") {
                Some(FileRole::Component)
            } else if contains_text(p, "/types/") || ends_with_text(name, ".d.ts") {
                Some(FileRole::Types)
            } else if contains_text(p, "/hooks/") || starts_with_text(stem, "use") {
                Some(FileRole::Hook)
            } else if contains_text(p, "/store/") || contains_text(p, "/stores/") || contains_text(
                p,
                "/context/",
            ) {
                Some(FileRole::Store)
            } else if contains_text(p, "/lib/") || contains_text(p, "/utils/") {
                if contains_text(name, "supabase") || contains_text(name, "prisma")
                    || contains_text(name, "db") {
                    Some(FileRole::DbClient)
                } else {
                    Some(FileRole::Lib)
                }
            } else if is_text(stem, "types") || is_text(stem, "globals") {
                Some(FileRole::Types)
            } else {
                None
            }
        },
        Framework::Rust => {
            if is_text(stem, "main") {
                Some(FileRole::SourceMain)
            } else if is_text(stem, "lib") {
                Some(FileRole::Lib)
            } else if contains_text(p, "/bin/") {
                Some(FileRole::SourceMain)
            } else {
                None
            }
        },
        Framework::Python => {
            if is_text(stem, "__main__") || is_text(stem, "main") || is_text(stem, "app") || is_text(
                stem,
                "wsgi",
            ) {
                Some(FileRole::SourceMain)
            } else if contains_text(p, "/models/") || contains_text(p, "/schemas/") {
                Some(FileRole::Types)
            } else if contains_text(p, "/utils/") || contains_text(p, "/helpers/") {
                Some(FileRole::Util)
            } else if contains_text(p, "/db/") || contains_text(p, "/database/") || contains_text(
                name,
                "database",
            ) || contains_text(name, "models") {
                Some(FileRole::DbClient)
            } else {
                None
            }
        },
        _ => None,
    }
}

/// The lowercase form of an optional text, the empty text standing for `None`.
fn lower_or_empty(o: &Option<Vec<char>>) -> (r: Vec<char>)
    ensures
        r@ == lowercase(
            match o {
                Some(v) => v@,
                None => Seq::<char>::empty(),
            },
        ),
        is_ascii_text(
            match o {
                Some(v) => v@,
                None => Seq::<char>::empty(),
            },
        ) ==> r@ == ascii_lower(
            match o {
                Some(v) => v@,
                None => Seq::<char>::empty(),
            },
        ),
{
    match o {
        Some(v) => lower_chars(v),
        None => {
            let e: Vec<char> = Vec::new();
            lower_chars(&e)
        },
    }
}

/// The role of a file from its lowercased name, stem, extension and path in the
/// project (with `/` separators).
pub fn role_of_parts(
    name: &Vec<char>,
    stem: &Vec<char>,
    ext: &Vec<char>,
    p: &Vec<char>,
    framework: Framework,
) -> (r: FileRole)
    ensures
        r == role_from_parts(name@, stem@, ext@, p@, framework),
{
    match generic_role_exec(name, stem, ext, p) {
        Some(r) => r,
        None => match framework_role_exec(name, stem, ext, p, framework) {
            Some(r) => r,
            None => {
                if source_ext_exec(ext) {
                    FileRole::Source
                } else {
                    FileRole::Unknown
                }
            },
        },
    }
}

fn in_project_exec(pc: &Vec<char>, root: &str) -> (r: Vec<char>)
    ensures
        r@ == in_project(pc@, root@),
{
    match rel_path_exec(pc, &chars_of(root)) {
        Some(rp) => {
            let mut v: Vec<char> = vec!['/'];
            let mut i: usize = 0;
            while i < rp.len()
                invariant
                    i <= rp.len(),
                    v@ == seq!['/'] + rp@.take(i as int),
                decreases rp.len() - i,
            {
                v.push(rp[i]);
                assert(rp@.take(i + 1) =~= rp@.take(i as int).push(rp@[i as int]));
                i += 1;
            }
            assert(rp@.take(rp.len() as int) =~= rp@);
            v
        },
        None => slice_chars(pc, 0, pc.len()),
    }
}

/// The role of the file at `path` in the project at `root`, for the given framework.
pub fn classify_file(path: &str, root: &str, framework: &Framework) -> (r: FileRole)
    ensures
        r == classify_spec(path@, root@, *framework),
        is_ascii_text(path@) ==> r == classify_ascii(path@, root@, *framework),
{
    let pc = chars_of(path);
    let fname = file_name_exec(&pc);
    let (stem_o, ext_o): (Option<Vec<char>>, Option<Vec<char>>) = match &fname {
        Some(n) => {
            let (s, e) = stem_and_ext(n);
            (Some(s), e)
        },
        None => (None, None),
    };
    let name = lower_or_empty(&fname);
    let stem = lower_or_empty(&stem_o);
    let ext = lower_or_empty(&ext_o);
    let ip = in_project_exec(&pc, root);
    proof {
        if is_ascii_text(path@) {
            lemma_ascii_parts(path@, root@);
        }
    }
    let lp = lower_chars(&ip);
    let p = replace_char_exec(&lp, '\\', '/');
    proof {
        assert(or_empty(file_name(path@)) == match fname {
            Some(v) => v@,
            None => Seq::<char>::empty(),
        });
        assert(or_empty(file_stem(path@)) == match stem_o {
            Some(v) => v@,
            None => Seq::<char>::empty(),
        });
        assert(or_empty(extension(path@)) == match ext_o {
            Some(v) => v@,
            None => Seq::<char>::empty(),
        });
    }
    role_of_parts(&name, &stem, &ext, &p, *framework)
}

fn source_ext_exec(ext: &Vec<char>) -> (r: bool)
    ensures
        r == source_exts().contains(ext@),
{
    let src = one_of(
                    ext,
                    &[
                        "rs",
                        "go",
                        "py",
                        "js",
                        "ts",
                        "jsx",
                        "tsx",
                        "vue",
                        "svelte",
                        "java",
                        "kt",
                        "cs",
                        "cpp",
                        "c",
                        "h",
                        "rb",
                        "php",
                        "swift",
                    ],
                );
                assert([
                    "rs",
                    "go",
                    "py",
                    "js",
                    "ts",
                    "jsx",
                    "tsx",
                    "vue",
                    "svelte",
                    "java",
                    "kt",
                    "cs",
                    "cpp",
                    "c",
                    "h",
                    "rb",
                    "php",
                    "swift",
                ]@.map_values(|l: &str| l@) =~= source_exts());
    src
}

// ───────────────────────────── laws ─────────────────────────────

/// With a `package.json`, the framework is the first that it names, in the order
/// Next.js, Astro, Svelte (or SvelteKit), Vue, Vite, React; Node when it names none.
/// The other markers do not count then.
pub proof fn law_package_json_names_the_framework(m: ProjectMarkers, pkg: Seq<char>)
    requires
        m.package_json is Some,
        m.package_json.unwrap()@ == pkg,
    ensures
        detect_spec(m) == package_framework(pkg),
        (contains_seq(pkg, "\"next\""@)) ==> package_framework(pkg) == Framework::NextJs,
        !(contains_seq(pkg, "\"next\""@)) && (contains_seq(pkg, "\"astro\""@)) ==> package_framework(pkg) == Framework::Astro,
        !(contains_seq(pkg, "\"next\""@)) && !(contains_seq(pkg, "\"astro\""@)) && (contains_seq(pkg, "\"@sveltejs/kit\""@) || contains_seq(pkg, "\"svelte\""@)) ==> package_framework(pkg) == Framework::Svelte,
        !(contains_seq(pkg, "\"next\""@)) && !(contains_seq(pkg, "\"astro\""@)) && !(contains_seq(pkg, "\"@sveltejs/kit\""@) || contains_seq(pkg, "\"svelte\""@)) && (contains_seq(pkg, "\"vue\""@)) ==> package_framework(pkg) == Framework::Vue,
        !(contains_seq(pkg, "\"next\""@)) && !(contains_seq(pkg, "\"astro\""@)) && !(contains_seq(pkg, "\"@sveltejs/kit\""@) || contains_seq(pkg, "\"svelte\""@)) && !(contains_seq(pkg, "\"vue\""@)) && (contains_seq(pkg, "\"vite\""@)) ==> package_framework(pkg) == Framework::Vite,
        !(contains_seq(pkg, "\"next\""@)) && !(contains_seq(pkg, "\"astro\""@)) && !(contains_seq(pkg, "\"@sveltejs/kit\""@) || contains_seq(pkg, "\"svelte\""@)) && !(contains_seq(pkg, "\"vue\""@)) && !(contains_seq(pkg, "\"vite\""@)) && (contains_seq(pkg, "\"react\""@)) ==> package_framework(pkg) == Framework::React,
        !(contains_seq(pkg, "\"next\""@)) && !(contains_seq(pkg, "\"astro\""@)) && !(contains_seq(pkg, "\"@sveltejs/kit\""@) || contains_seq(pkg, "\"svelte\""@)) && !(contains_seq(pkg, "\"vue\""@)) && !(contains_seq(pkg, "\"vite\""@)) && !(contains_seq(pkg, "\"react\""@)) ==> package_framework(pkg) == Framework::Node,
{
}

/// Without a `package.json`, the markers decide in the order Cargo.toml, go.mod,
/// Python files, Java build files, .NET project files; Unknown when there is none.
pub proof fn law_markers_without_package_json(m: ProjectMarkers)
    requires
        m.package_json is None,
    ensures
        (m.cargo_toml) ==> detect_spec(m) == Framework::Rust,
        !(m.cargo_toml) && (m.go_mod) ==> detect_spec(m) == Framework::Go,
        !(m.cargo_toml) && !(m.go_mod) && (m.requirements_txt || m.pyproject_toml || m.setup_py) ==> detect_spec(m) == Framework::Python,
        !(m.cargo_toml) && !(m.go_mod) && !(m.requirements_txt || m.pyproject_toml || m.setup_py) && (m.pom_xml || m.build_gradle) ==> detect_spec(m) == Framework::Java,
        !(m.cargo_toml) && !(m.go_mod) && !(m.requirements_txt || m.pyproject_toml || m.setup_py) && !(m.pom_xml || m.build_gradle) && (m.csproj || m.sln) ==> detect_spec(m) == Framework::DotNet,
        !(m.cargo_toml) && !(m.go_mod) && !(m.requirements_txt || m.pyproject_toml || m.setup_py) && !(m.pom_xml || m.build_gradle) && !(m.csproj || m.sln) ==> detect_spec(m) == Framework::Unknown,
{
}

/// The roles that Next.js and Astro give files, each to the files that no rule
/// before it claims.
pub proof fn law_next_and_astro_roles(name: Seq<char>, stem: Seq<char>, ext: Seq<char>, p: Seq<char>, fw: Framework)
    requires
        fw == Framework::NextJs || fw == Framework::Astro,
    ensures
        (stem == "layout"@) ==> framework_role(name, stem, ext, p, fw) == Some(FileRole::Layout),
        !(stem == "layout"@) && (stem == "page"@ || stem == "index"@) ==> framework_role(name, stem, ext, p, fw) == Some(FileRole::Page),
        !(stem == "layout"@) && !(stem == "page"@ || stem == "index"@) && (contains_seq(p, "/api/"@) || contains_seq(p, "/route"@)) ==> framework_role(name, stem, ext, p, fw) == Some(FileRole::ApiRoute),
        !(stem == "layout"@) && !(stem == "page"@ || stem == "index"@) && !(contains_seq(p, "/api/"@) || contains_seq(p, "/route"@)) && (contains_seq(p, "/middleware"@)) ==> framework_role(name, stem, ext, p, fw) == Some(FileRole::Middleware),
        !(stem == "layout"@) && !(stem == "page"@ || stem == "index"@) && !(contains_seq(p, "/api/"@) || contains_seq(p, "/route"@)) && !(contains_seq(p, "/middleware"@)) && (contains_seq(p, "/components/"@)) ==> framework_role(name, stem, ext, p, fw) == Some(FileRole::Component),
        !(stem == "layout"@) && !(stem == "page"@ || stem == "index"@) && !(contains_seq(p, "/api/"@) || contains_seq(p, "/route"@)) && !(contains_seq(p, "/middleware"@)) && !(contains_seq(p, "/components/"@)) && (contains_seq(p, "/types/"@) || has_suffix(name, ".d.ts"@)) ==> framework_role(name, stem, ext, p, fw) == Some(FileRole::Types),
        !(stem == "layout"@) && !(stem == "page"@ || stem == "index"@) && !(contains_seq(p, "/api/"@) || contains_seq(p, "/route"@)) && !(contains_seq(p, "/middleware"@)) && !(contains_seq(p, "/components/"@)) && !(contains_seq(p, "/types/"@) || has_suffix(name, ".d.ts"@)) && (contains_seq(p, "/hooks/"@) || has_prefix(stem, "use"@)) ==> framework_role(name, stem, ext, p, fw) == Some(FileRole::Hook),
        !(stem == "layout"@) && !(stem == "page"@ || stem == "index"@) && !(contains_seq(p, "/api/"@) || contains_seq(p, "/route"@)) && !(contains_seq(p, "/middleware"@)) && !(contains_seq(p, "/components/"@)) && !(contains_seq(p, "/types/"@) || has_suffix(name, ".d.ts"@)) && !(contains_seq(p, "/hooks/"@) || has_prefix(stem, "use"@)) && (contains_seq(p, "/store/"@) || contains_seq(p, "/stores/"@) || contains_seq(p, "/context/"@)) ==> framework_role(name, stem, ext, p, fw) == Some(FileRole::Store),
        !(stem == "layout"@) && !(stem == "page"@ || stem == "index"@) && !(contains_seq(p, "/api/"@) || contains_seq(p, "/route"@)) && !(contains_seq(p, "/middleware"@)) && !(contains_seq(p, "/components/"@)) && !(contains_seq(p, "/types/"@) || has_suffix(name, ".d.ts"@)) && !(contains_seq(p, "/hooks/"@) || has_prefix(stem, "use"@)) && !(contains_seq(p, "/store/"@) || contains_seq(p, "/stores/"@) || contains_seq(p, "/context/"@)) && ((contains_seq(p, "/lib/"@) || contains_seq(p, "/utils/"@)) && (contains_seq(name, "supabase"@) || contains_seq(name, "prisma"@) || contains_seq(name, "db"@))) ==> framework_role(name, stem, ext, p, fw) == Some(FileRole::DbClient),
        !(stem == "layout"@) && !(stem == "page"@ || stem == "index"@) && !(contains_seq(p, "/api/"@) || contains_seq(p, "/route"@)) && !(contains_seq(p, "/middleware"@)) && !(contains_seq(p, "/components/"@)) && !(contains_seq(p, "/types/"@) || has_suffix(name, ".d.ts"@)) && !(contains_seq(p, "/hooks/"@) || has_prefix(stem, "use"@)) && !(contains_seq(p, "/store/"@) || contains_seq(p, "/stores/"@) || contains_seq(p, "/context/"@)) && !((contains_seq(p, "/lib/"@) || contains_seq(p, "/utils/"@)) && (contains_seq(name, "supabase"@) || contains_seq(name, "prisma"@) || contains_seq(name, "db"@))) && (contains_seq(p, "/lib/"@) || contains_seq(p, "/utils/"@)) ==> framework_role(name, stem, ext, p, fw) == Some(FileRole::Lib),
        !(stem == "layout"@) && !(stem == "page"@ || stem == "index"@) && !(contains_seq(p, "/api/"@) || contains_seq(p, "/route"@)) && !(contains_seq(p, "/middleware"@)) && !(contains_seq(p, "/components/"@)) && !(contains_seq(p, "/types/"@) || has_suffix(name, ".d.ts"@)) && !(contains_seq(p, "/hooks/"@) || has_prefix(stem, "use"@)) && !(contains_seq(p, "/store/"@) || contains_seq(p, "/stores/"@) || contains_seq(p, "/context/"@)) && !((contains_seq(p, "/lib/"@) || contains_seq(p, "/utils/"@)) && (contains_seq(name, "supabase"@) || contains_seq(name, "prisma"@) || contains_seq(name, "db"@))) && !(contains_seq(p, "/lib/"@) || contains_seq(p, "/utils/"@)) && (stem == "types"@ || stem == "globals"@) ==> framework_role(name, stem, ext, p, fw) == Some(FileRole::Types),
        !(stem == "layout"@) && !(stem == "page"@ || stem == "index"@) && !(contains_seq(p, "/api/"@) || contains_seq(p, "/route"@)) && !(contains_seq(p, "/middleware"@)) && !(contains_seq(p, "/components/"@)) && !(contains_seq(p, "/types/"@) || has_suffix(name, ".d.ts"@)) && !(contains_seq(p, "/hooks/"@) || has_prefix(stem, "use"@)) && !(contains_seq(p, "/store/"@) || contains_seq(p, "/stores/"@) || contains_seq(p, "/context/"@)) && !((contains_seq(p, "/lib/"@) || contains_seq(p, "/utils/"@)) && (contains_seq(name, "supabase"@) || contains_seq(name, "prisma"@) || contains_seq(name, "db"@))) && !(contains_seq(p, "/lib/"@) || contains_seq(p, "/utils/"@)) && !(stem == "types"@ || stem == "globals"@) ==> framework_role(name, stem, ext, p, fw) is None,
{
}

/// The roles that Rust gives files.
pub proof fn law_rust_roles(name: Seq<char>, stem: Seq<char>, ext: Seq<char>, p: Seq<char>, fw: Framework)
    requires
        fw == Framework::Rust,
    ensures
        (stem == "main"@) ==> framework_role(name, stem, ext, p, fw) == Some(FileRole::SourceMain),
        !(stem == "main"@) && (stem == "lib"@) ==> framework_role(name, stem, ext, p, fw) == Some(FileRole::Lib),
        !(stem == "main"@) && !(stem == "lib"@) && (contains_seq(p, "/bin/"@)) ==> framework_role(name, stem, ext, p, fw) == Some(FileRole::SourceMain),
        !(stem == "main"@) && !(stem == "lib"@) && !(contains_seq(p, "/bin/"@)) ==> framework_role(name, stem, ext, p, fw) is None,
{
}

/// The roles that Python gives files.
pub proof fn law_python_roles(name: Seq<char>, stem: Seq<char>, ext: Seq<char>, p: Seq<char>, fw: Framework)
    requires
        fw == Framework::Python,
    ensures
        (stem == "__main__"@ || stem == "main"@ || stem == "app"@ || stem == "wsgi"@) ==> framework_role(name, stem, ext, p, fw) == Some(FileRole::SourceMain),
        !(stem == "__main__"@ || stem == "main"@ || stem == "app"@ || stem == "wsgi"@) && (contains_seq(p, "/models/"@) || contains_seq(p, "/schemas/"@)) ==> framework_role(name, stem, ext, p, fw) == Some(FileRole::Types),
        !(stem == "__main__"@ || stem == "main"@ || stem == "app"@ || stem == "wsgi"@) && !(contains_seq(p, "/models/"@) || contains_seq(p, "/schemas/"@)) && (contains_seq(p, "/utils/"@) || contains_seq(p, "/helpers/"@)) ==> framework_role(name, stem, ext, p, fw) == Some(FileRole::Util),
        !(stem == "__main__"@ || stem == "main"@ || stem == "app"@ || stem == "wsgi"@) && !(contains_seq(p, "/models/"@) || contains_seq(p, "/schemas/"@)) && !(contains_seq(p, "/utils/"@) || contains_seq(p, "/helpers/"@)) && (contains_seq(p, "/db/"@) || contains_seq(p, "/database/"@) || contains_seq(name, "database"@) || contains_seq(name, "models"@)) ==> framework_role(name, stem, ext, p, fw) == Some(FileRole::DbClient),
        !(stem == "__main__"@ || stem == "main"@ || stem == "app"@ || stem == "wsgi"@) && !(contains_seq(p, "/models/"@) || contains_seq(p, "/schemas/"@)) && !(contains_seq(p, "/utils/"@) || contains_seq(p, "/helpers/"@)) && !(contains_seq(p, "/db/"@) || contains_seq(p, "/database/"@) || contains_seq(name, "database"@) || contains_seq(name, "models"@)) ==> framework_role(name, stem, ext, p, fw) is None,
{
}

/// Other frameworks add no roles.
pub proof fn law_other_frameworks_add_no_roles(name: Seq<char>, stem: Seq<char>, ext: Seq<char>, p: Seq<char>, fw: Framework)
    requires
        fw != Framework::NextJs && fw != Framework::Astro && fw != Framework::Rust && fw != Framework::Python,
    ensures
        framework_role(name, stem, ext, p, fw) is None,
{
}

/// A role that holds whatever the framework wins; then the framework's roles; a
/// file that neither claims is Source or Unknown by its extension.
pub proof fn law_roles_in_order(name: Seq<char>, stem: Seq<char>, ext: Seq<char>, p: Seq<char>, fw: Framework)
    ensures
        generic_role(name, stem, ext, p) is Some ==> role_from_parts(name, stem, ext, p, fw)
            == generic_role(name, stem, ext, p).unwrap(),
        generic_role(name, stem, ext, p) is None && framework_role(name, stem, ext, p, fw) is Some
            ==> role_from_parts(name, stem, ext, p, fw) == framework_role(name, stem, ext, p, fw).unwrap(),
        generic_role(name, stem, ext, p) is None && framework_role(name, stem, ext, p, fw) is None
            ==> (role_from_parts(name, stem, ext, p, fw) == FileRole::Source || role_from_parts(
            name,
            stem,
            ext,
            p,
            fw,
        ) == FileRole::Unknown),
{
}
/// The roles that hold whatever the framework, each for the files that no rule
/// before it claims: lockfiles, `.env` files, Dockerfiles, CI configuration,
/// READMEs, docs, tests, test helpers, styles, assets, the manifest and configs.
pub proof fn law_generic_roles(name: Seq<char>, stem: Seq<char>, ext: Seq<char>, p: Seq<char>)
    ensures
        (lockfile_names().contains(name)) ==> generic_role(name, stem, ext, p) == Some(FileRole::Lockfile),
        !(lockfile_names().contains(name)) && (has_prefix(name, ".env"@)) ==> generic_role(name, stem, ext, p) == Some(FileRole::EnvFile),
        !(lockfile_names().contains(name)) && !(has_prefix(name, ".env"@)) && (name == "dockerfile"@ || has_prefix(name, "dockerfile."@)) ==> generic_role(name, stem, ext, p) == Some(FileRole::Dockerfile),
        !(lockfile_names().contains(name)) && !(has_prefix(name, ".env"@)) && !(name == "dockerfile"@ || has_prefix(name, "dockerfile."@)) && (contains_seq(p, "/.github/workflows/"@) || contains_seq(p, "/.circleci/"@) || name == ".gitlab-ci.yml"@ || name == "jenkinsfile"@) ==> generic_role(name, stem, ext, p) == Some(FileRole::CiConfig),
        !(lockfile_names().contains(name)) && !(has_prefix(name, ".env"@)) && !(name == "dockerfile"@ || has_prefix(name, "dockerfile."@)) && !(contains_seq(p, "/.github/workflows/"@) || contains_seq(p, "/.circleci/"@) || name == ".gitlab-ci.yml"@ || name == "jenkinsfile"@) && (stem == "readme"@) ==> generic_role(name, stem, ext, p) == Some(FileRole::Readme),
        !(lockfile_names().contains(name)) && !(has_prefix(name, ".env"@)) && !(name == "dockerfile"@ || has_prefix(name, "dockerfile."@)) && !(contains_seq(p, "/.github/workflows/"@) || contains_seq(p, "/.circleci/"@) || name == ".gitlab-ci.yml"@ || name == "jenkinsfile"@) && !(stem == "readme"@) && ((ext == "md"@ || ext == "mdx"@ || ext == "rst"@ || ext == "txt"@) && (contains_seq(p, "/docs/"@) || contains_seq(p, "/doc/"@))) ==> generic_role(name, stem, ext, p) == Some(FileRole::Docs),
        !(lockfile_names().contains(name)) && !(has_prefix(name, ".env"@)) && !(name == "dockerfile"@ || has_prefix(name, "dockerfile."@)) && !(contains_seq(p, "/.github/workflows/"@) || contains_seq(p, "/.circleci/"@) || name == ".gitlab-ci.yml"@ || name == "jenkinsfile"@) && !(stem == "readme"@) && !((ext == "md"@ || ext == "mdx"@ || ext == "rst"@ || ext == "txt"@) && (contains_seq(p, "/docs/"@) || contains_seq(p, "/doc/"@))) && (contains_seq(name, ".test."@) || contains_seq(name, ".spec."@) || has_suffix(name, "_test.rs"@) || has_suffix(name, "_test.go"@) || has_suffix(name, "_test.py"@) || contains_seq(p, "/__tests__/"@) || contains_seq(p, "/tests/"@) || contains_seq(p, "/test/"@) || contains_seq(p, "/spec/"@)) ==> generic_role(name, stem, ext, p) == Some(FileRole::Test),
        !(lockfile_names().contains(name)) && !(has_prefix(name, ".env"@)) && !(name == "dockerfile"@ || has_prefix(name, "dockerfile."@)) && !(contains_seq(p, "/.github/workflows/"@) || contains_seq(p, "/.circleci/"@) || name == ".gitlab-ci.yml"@ || name == "jenkinsfile"@) && !(stem == "readme"@) && !((ext == "md"@ || ext == "mdx"@ || ext == "rst"@ || ext == "txt"@) && (contains_seq(p, "/docs/"@) || contains_seq(p, "/doc/"@))) && !(contains_seq(name, ".test."@) || contains_seq(name, ".spec."@) || has_suffix(name, "_test.rs"@) || has_suffix(name, "_test.go"@) || has_suffix(name, "_test.py"@) || contains_seq(p, "/__tests__/"@) || contains_seq(p, "/tests/"@) || contains_seq(p, "/test/"@) || contains_seq(p, "/spec/"@)) && (test_config_names().contains(name)) ==> generic_role(name, stem, ext, p) == Some(FileRole::TestUtil),
        !(lockfile_names().contains(name)) && !(has_prefix(name, ".env"@)) && !(name == "dockerfile"@ || has_prefix(name, "dockerfile."@)) && !(contains_seq(p, "/.github/workflows/"@) || contains_seq(p, "/.circleci/"@) || name == ".gitlab-ci.yml"@ || name == "jenkinsfile"@) && !(stem == "readme"@) && !((ext == "md"@ || ext == "mdx"@ || ext == "rst"@ || ext == "txt"@) && (contains_seq(p, "/docs/"@) || contains_seq(p, "/doc/"@))) && !(contains_seq(name, ".test."@) || contains_seq(name, ".spec."@) || has_suffix(name, "_test.rs"@) || has_suffix(name, "_test.go"@) || has_suffix(name, "_test.py"@) || contains_seq(p, "/__tests__/"@) || contains_seq(p, "/tests/"@) || contains_seq(p, "/test/"@) || contains_seq(p, "/spec/"@)) && !(test_config_names().contains(name)) && (style_exts().contains(ext)) ==> generic_role(name, stem, ext, p) == Some(FileRole::Style),
        !(lockfile_names().contains(name)) && !(has_prefix(name, ".env"@)) && !(name == "dockerfile"@ || has_prefix(name, "dockerfile."@)) && !(contains_seq(p, "/.github/workflows/"@) || contains_seq(p, "/.circleci/"@) || name == ".gitlab-ci.yml"@ || name == "jenkinsfile"@) && !(stem == "readme"@) && !((ext == "md"@ || ext == "mdx"@ || ext == "rst"@ || ext == "txt"@) && (contains_seq(p, "/docs/"@) || contains_seq(p, "/doc/"@))) && !(contains_seq(name, ".test."@) || contains_seq(name, ".spec."@) || has_suffix(name, "_test.rs"@) || has_suffix(name, "_test.go"@) || has_suffix(name, "_test.py"@) || contains_seq(p, "/__tests__/"@) || contains_seq(p, "/tests/"@) || contains_seq(p, "/test/"@) || contains_seq(p, "/spec/"@)) && !(test_config_names().contains(name)) && !(style_exts().contains(ext)) && (asset_exts().contains(ext)) ==> generic_role(name, stem, ext, p) == Some(FileRole::Asset),
        !(lockfile_names().contains(name)) && !(has_prefix(name, ".env"@)) && !(name == "dockerfile"@ || has_prefix(name, "dockerfile."@)) && !(contains_seq(p, "/.github/workflows/"@) || contains_seq(p, "/.circleci/"@) || name == ".gitlab-ci.yml"@ || name == "jenkinsfile"@) && !(stem == "readme"@) && !((ext == "md"@ || ext == "mdx"@ || ext == "rst"@ || ext == "txt"@) && (contains_seq(p, "/docs/"@) || contains_seq(p, "/doc/"@))) && !(contains_seq(name, ".test."@) || contains_seq(name, ".spec."@) || has_suffix(name, "_test.rs"@) || has_suffix(name, "_test.go"@) || has_suffix(name, "_test.py"@) || contains_seq(p, "/__tests__/"@) || contains_seq(p, "/tests/"@) || contains_seq(p, "/test/"@) || contains_seq(p, "/spec/"@)) && !(test_config_names().contains(name)) && !(style_exts().contains(ext)) && !(asset_exts().contains(ext)) && (config_exts().contains(ext) && !contains_seq(p, "/src/"@) && name == "package.json"@) ==> generic_role(name, stem, ext, p) == Some(FileRole::Manifest),
        !(lockfile_names().contains(name)) && !(has_prefix(name, ".env"@)) && !(name == "dockerfile"@ || has_prefix(name, "dockerfile."@)) && !(contains_seq(p, "/.github/workflows/"@) || contains_seq(p, "/.circleci/"@) || name == ".gitlab-ci.yml"@ || name == "jenkinsfile"@) && !(stem == "readme"@) && !((ext == "md"@ || ext == "mdx"@ || ext == "rst"@ || ext == "txt"@) && (contains_seq(p, "/docs/"@) || contains_seq(p, "/doc/"@))) && !(contains_seq(name, ".test."@) || contains_seq(name, ".spec."@) || has_suffix(name, "_test.rs"@) || has_suffix(name, "_test.go"@) || has_suffix(name, "_test.py"@) || contains_seq(p, "/__tests__/"@) || contains_seq(p, "/tests/"@) || contains_seq(p, "/test/"@) || contains_seq(p, "/spec/"@)) && !(test_config_names().contains(name)) && !(style_exts().contains(ext)) && !(asset_exts().contains(ext)) && !(config_exts().contains(ext) && !contains_seq(p, "/src/"@) && name == "package.json"@) && (config_exts().contains(ext) && !contains_seq(p, "/src/"@)) ==> generic_role(name, stem, ext, p) == Some(FileRole::Config),
        !(lockfile_names().contains(name)) && !(has_prefix(name, ".env"@)) && !(name == "dockerfile"@ || has_prefix(name, "dockerfile."@)) && !(contains_seq(p, "/.github/workflows/"@) || contains_seq(p, "/.circleci/"@) || name == ".gitlab-ci.yml"@ || name == "jenkinsfile"@) && !(stem == "readme"@) && !((ext == "md"@ || ext == "mdx"@ || ext == "rst"@ || ext == "txt"@) && (contains_seq(p, "/docs/"@) || contains_seq(p, "/doc/"@))) && !(contains_seq(name, ".test."@) || contains_seq(name, ".spec."@) || has_suffix(name, "_test.rs"@) || has_suffix(name, "_test.go"@) || has_suffix(name, "_test.py"@) || contains_seq(p, "/__tests__/"@) || contains_seq(p, "/tests/"@) || contains_seq(p, "/test/"@) || contains_seq(p, "/spec/"@)) && !(test_config_names().contains(name)) && !(style_exts().contains(ext)) && !(asset_exts().contains(ext)) && !(config_exts().contains(ext) && !contains_seq(p, "/src/"@) && name == "package.json"@) && !(config_exts().contains(ext) && !contains_seq(p, "/src/"@)) && (config_names().contains(name)) ==> generic_role(name, stem, ext, p) == Some(FileRole::Config),
        !(lockfile_names().contains(name)) && !(has_prefix(name, ".env"@)) && !(name == "dockerfile"@ || has_prefix(name, "dockerfile."@)) && !(contains_seq(p, "/.github/workflows/"@) || contains_seq(p, "/.circleci/"@) || name == ".gitlab-ci.yml"@ || name == "jenkinsfile"@) && !(stem == "readme"@) && !((ext == "md"@ || ext == "mdx"@ || ext == "rst"@ || ext == "txt"@) && (contains_seq(p, "/docs/"@) || contains_seq(p, "/doc/"@))) && !(contains_seq(name, ".test."@) || contains_seq(name, ".spec."@) || has_suffix(name, "_test.rs"@) || has_suffix(name, "_test.go"@) || has_suffix(name, "_test.py"@) || contains_seq(p, "/__tests__/"@) || contains_seq(p, "/tests/"@) || contains_seq(p, "/test/"@) || contains_seq(p, "/spec/"@)) && !(test_config_names().contains(name)) && !(style_exts().contains(ext)) && !(asset_exts().contains(ext)) && !(config_exts().contains(ext) && !contains_seq(p, "/src/"@) && name == "package.json"@) && !(config_exts().contains(ext) && !contains_seq(p, "/src/"@)) && !(config_names().contains(name)) ==> generic_role(name, stem, ext, p) is None,
{
    assert(seq!["md"@, "mdx"@, "rst"@, "txt"@].contains(ext) <==> (ext == "md"@ || ext == "mdx"@
        || ext == "rst"@ || ext == "txt"@)) by {
        let l = seq!["md"@, "mdx"@, "rst"@, "txt"@];
        if l.contains(ext) {
            let i = choose|i: int| 0 <= i < l.len() && l[i] == ext;
        }
        if ext == "md"@ { assert(l[0] == ext); }
        if ext == "mdx"@ { assert(l[1] == ext); }
        if ext == "rst"@ { assert(l[2] == ext); }
        if ext == "txt"@ { assert(l[3] == ext); }
    }
}
/// The name and language that each framework goes by.
pub proof fn law_framework_names_and_languages()
    ensures
        framework_name(Framework::NextJs) == "nextjs"@,
        framework_name(Framework::React) == "react"@,
        framework_name(Framework::Vue) == "vue"@,
        framework_name(Framework::Svelte) == "svelte"@,
        framework_name(Framework::Astro) == "astro"@,
        framework_name(Framework::Vite) == "vite"@,
        framework_name(Framework::Rust) == "rust"@,
        framework_name(Framework::Python) == "python"@,
        framework_name(Framework::Go) == "go"@,
        framework_name(Framework::Java) == "java"@,
        framework_name(Framework::DotNet) == "dotnet"@,
        framework_name(Framework::Node) == "node"@,
        framework_name(Framework::Unknown) == "unknown"@,
        framework_lang(Framework::NextJs) == "typescript"@,
        framework_lang(Framework::React) == "typescript"@,
        framework_lang(Framework::Vue) == "typescript"@,
        framework_lang(Framework::Svelte) == "typescript"@,
        framework_lang(Framework::Astro) == "typescript"@,
        framework_lang(Framework::Vite) == "typescript"@,
        framework_lang(Framework::Rust) == "rust"@,
        framework_lang(Framework::Python) == "python"@,
        framework_lang(Framework::Go) == "go"@,
        framework_lang(Framework::Java) == "java"@,
        framework_lang(Framework::DotNet) == "csharp"@,
        framework_lang(Framework::Node) == "typescript"@,
        framework_lang(Framework::Unknown) == "unknown"@,
{
}

/// The annotation that each role carries; sources and unknown files carry none.
pub proof fn law_role_annotations()
    ensures
        role_annotation(FileRole::SourceMain) == Some("entry"@),
        role_annotation(FileRole::Layout) == Some("layout"@),
        role_annotation(FileRole::Page) == Some("page"@),
        role_annotation(FileRole::Component) == Some("ui-component"@),
        role_annotation(FileRole::Hook) == Some("hook"@),
        role_annotation(FileRole::Util) == Some("util"@),
        role_annotation(FileRole::Lib) == Some("lib"@),
        role_annotation(FileRole::DbClient) == Some("db-client"@),
        role_annotation(FileRole::ApiRoute) == Some("api-route"@),
        role_annotation(FileRole::Middleware) == Some("middleware"@),
        role_annotation(FileRole::Store) == Some("store"@),
        role_annotation(FileRole::Types) == Some("types"@),
        role_annotation(FileRole::Config) == Some("config"@),
        role_annotation(FileRole::Manifest) == Some("manifest"@),
        role_annotation(FileRole::EnvFile) == Some("env"@),
        role_annotation(FileRole::Lockfile) == Some("lockfile"@),
        role_annotation(FileRole::Dockerfile) == Some("docker"@),
        role_annotation(FileRole::CiConfig) == Some("ci"@),
        role_annotation(FileRole::Test) == Some("test"@),
        role_annotation(FileRole::TestUtil) == Some("test-util"@),
        role_annotation(FileRole::Asset) == None::<Seq<char>>,
        role_annotation(FileRole::Style) == Some("styles"@),
        role_annotation(FileRole::Readme) == Some("readme"@),
        role_annotation(FileRole::Docs) == Some("docs"@),
        role_annotation(FileRole::Source) == None::<Seq<char>>,
        role_annotation(FileRole::Unknown) == None::<Seq<char>>,
{
}

/// The category of each role, and the label of each category.
pub proof fn law_role_categories()
    ensures
        role_category(FileRole::SourceMain) == FileCategory::Source,
        role_category(FileRole::Layout) == FileCategory::Source,
        role_category(FileRole::Page) == FileCategory::Source,
        role_category(FileRole::Component) == FileCategory::Source,
        role_category(FileRole::Hook) == FileCategory::Source,
        role_category(FileRole::Util) == FileCategory::Source,
        role_category(FileRole::Lib) == FileCategory::Source,
        role_category(FileRole::DbClient) == FileCategory::Source,
        role_category(FileRole::ApiRoute) == FileCategory::Source,
        role_category(FileRole::Middleware) == FileCategory::Source,
        role_category(FileRole::Store) == FileCategory::Source,
        role_category(FileRole::Types) == FileCategory::Source,
        role_category(FileRole::Config) == FileCategory::Config,
        role_category(FileRole::Manifest) == FileCategory::Config,
        role_category(FileRole::EnvFile) == FileCategory::Config,
        role_category(FileRole::Lockfile) == FileCategory::Config,
        role_category(FileRole::Dockerfile) == FileCategory::Config,
        role_category(FileRole::CiConfig) == FileCategory::Config,
        role_category(FileRole::Test) == FileCategory::Test,
        role_category(FileRole::TestUtil) == FileCategory::Test,
        role_category(FileRole::Asset) == FileCategory::Asset,
        role_category(FileRole::Style) == FileCategory::Asset,
        role_category(FileRole::Readme) == FileCategory::Docs,
        role_category(FileRole::Docs) == FileCategory::Docs,
        role_category(FileRole::Source) == FileCategory::Source,
        role_category(FileRole::Unknown) == FileCategory::Source,
        category_label(FileCategory::Source) == "source"@,
        category_label(FileCategory::Config) == "config"@,
        category_label(FileCategory::Test) == "tests"@,
        category_label(FileCategory::Asset) == "assets"@,
        category_label(FileCategory::Docs) == "docs"@,
{
}

/// What each framework adds to the ignore list.
pub proof fn law_framework_ignores()
    ensures
        framework_ignores(Framework::NextJs) == seq![".next"@, "out"@, "next-env.d.ts"@, ".vercel"@],
        framework_ignores(Framework::React) == seq!["dist"@, "build"@],
        framework_ignores(Framework::Vue) == seq!["dist"@, ".nuxt"@, ".output"@],
        framework_ignores(Framework::Svelte) == seq![".svelte-kit"@, "build"@],
        framework_ignores(Framework::Astro) == seq!["dist"@, ".astro"@],
        framework_ignores(Framework::Vite) == seq!["dist"@, "build"@],
        framework_ignores(Framework::Rust) == seq!["target"@],
        framework_ignores(Framework::Python) == seq![ "__pycache__"@, ".venv"@, "venv"@, "env"@, ".eggs"@, "*.egg-info"@, "dist"@, "build"@, ".pytest_cache"@, ".mypy_cache"@, ".ruff_cache"@, ],
        framework_ignores(Framework::Go) == seq!["vendor"@],
        framework_ignores(Framework::Java) == seq!["target"@, "build"@, ".gradle"@, "out"@, "*.class"@],
        framework_ignores(Framework::DotNet) == seq!["bin"@, "obj"@, ".vs"@],
        framework_ignores(Framework::Node) == Seq::<Seq<char>>::empty(),
        framework_ignores(Framework::Unknown) == Seq::<Seq<char>>::empty(),
{
}
} // verus!
