//! Command-line arguments and their parser.
use vstd::prelude::*;
use crate::text::{
    has_prefix, parse_usize_spec, chars_of, string_of, is_text, starts_with_text, slice_chars,
    parse_usize,
};

verus! {

#[derive(Debug, Clone, Copy, PartialEq, Eq, Structural)]
pub enum OutputFormat {
    Tree,
    Flat,
    Json,
    Group,
}

/// Parsed CLI arguments.
#[derive(Debug, Clone)]
pub struct Args {
    pub path: String,
    pub depth: usize,
    pub ai: bool,
    pub flat: bool,
    pub group: bool,
    pub stats: bool,
    pub only: Option<String>,
    pub focus: Option<String>,
    pub collapse: bool,
    pub no_color: bool,
    pub hidden: bool,
    pub show_ignore: bool,
    pub no_ignore: bool,
    pub ignore: Option<String>,
    pub format: OutputFormat,
    pub copy: bool,
    pub since: Option<String>,
    pub important: bool,
    pub watch: bool,
    pub init: bool,
    pub completions: Option<String>,
}

/// What the arguments say, with text as character sequences.
pub struct ArgsView {
    pub path: Seq<char>,
    pub depth: usize,
    pub ai: bool,
    pub flat: bool,
    pub group: bool,
    pub stats: bool,
    pub only: Option<Seq<char>>,
    pub focus: Option<Seq<char>>,
    pub collapse: bool,
    pub no_color: bool,
    pub hidden: bool,
    pub show_ignore: bool,
    pub no_ignore: bool,
    pub ignore: Option<Seq<char>>,
    pub format: OutputFormat,
    pub copy: bool,
    pub since: Option<Seq<char>>,
    pub important: bool,
    pub watch: bool,
    pub init: bool,
    pub completions: Option<Seq<char>>,
}

pub open spec fn opt_view(o: Option<String>) -> Option<Seq<char>> {
    match o {
        Some(s) => Some(s@),
        None => None,
    }
}

impl View for Args {
    type V = ArgsView;

    open spec fn view(&self) -> ArgsView {
        ArgsView {
            path: self.path@,
            depth: self.depth,
            ai: self.ai,
            flat: self.flat,
            group: self.group,
            stats: self.stats,
            only: opt_view(self.only),
            focus: opt_view(self.focus),
            collapse: self.collapse,
            no_color: self.no_color,
            hidden: self.hidden,
            show_ignore: self.show_ignore,
            no_ignore: self.no_ignore,
            ignore: opt_view(self.ignore),
            format: self.format,
            copy: self.copy,
            since: opt_view(self.since),
            important: self.important,
            watch: self.watch,
            init: self.init,
            completions: opt_view(self.completions),
        }
    }
}

pub open spec fn default_args() -> ArgsView {
    ArgsView {
        path: "."@,
        depth: 0,
        ai: false,
        flat: false,
        group: false,
        stats: false,
        only: None,
        focus: None,
        collapse: false,
        no_color: false,
        hidden: false,
        show_ignore: false,
        no_ignore: false,
        ignore: None,
        format: OutputFormat::Tree,
        copy: false,
        since: None,
        important: false,
        watch: false,
        init: false,
        completions: None,
    }
}

impl Default for Args {
    fn default() -> (r: Self)
        ensures
            r@ == default_args(),
    {
        Args {
            path: String::from_str("."),
            depth: 0,
            ai: false,
            flat: false,
            group: false,
            stats: false,
            only: None,
            focus: None,
            collapse: false,
            no_color: false,
            hidden: false,
            show_ignore: false,
            no_ignore: false,
            ignore: None,
            format: OutputFormat::Tree,
            copy: false,
            since: None,
            important: false,
            watch: false,
            init: false,
            completions: None,
        }
    }
}

/// What the command line asks for.
pub enum CliCommand {
    Run(Args),
    /// `-h` / `--help`: print the help text and stop.
    Help,
    /// `-V` / `--version`: print the version and stop.
    Version,
    /// An option that is not known; the command stops with an error.
    UnknownOption(String),
}

pub enum CliModel {
    Run(ArgsView),
    Help,
    Version,
    UnknownOption(Seq<char>),
}

impl View for CliCommand {
    type V = CliModel;

    open spec fn view(&self) -> CliModel {
        match self {
            CliCommand::Run(a) => CliModel::Run(a@),
            CliCommand::Help => CliModel::Help,
            CliCommand::Version => CliModel::Version,
            CliCommand::UnknownOption(s) => CliModel::UnknownOption(s@),
        }
    }
}

/// The value of `--format`.
pub open spec fn format_of(v: Seq<char>) -> OutputFormat {
    if v == "flat"@ {
        OutputFormat::Flat
    } else if v == "json"@ {
        OutputFormat::Json
    } else if v == "group"@ {
        OutputFormat::Group
    } else {
        OutputFormat::Tree
    }
}

/// The value of `--depth`: the number, or 0 where it does not parse.
pub open spec fn depth_of(v: Seq<char>) -> usize {
    match parse_usize_spec(v) {
        Some(n) => n,
        None => 0,
    }
}

/// The token after position `i`, when there is one.
pub open spec fn next_token(raw: Seq<Seq<char>>, i: int) -> Option<Seq<char>> {
    if 0 <= i + 1 < raw.len() {
        Some(raw[i + 1])
    } else {
        None
    }
}

/// The text after an option's `=`, for a token that starts with `prefix`.
pub open spec fn after(t: Seq<char>, prefix: Seq<char>) -> Seq<char> {
    t.skip(prefix.len() as int)
}

/// The arguments after a switch that takes no value, when `t` is one.
pub open spec fn set_flag(t: Seq<char>, a: ArgsView) -> Option<ArgsView> {
    if t == "--ai"@ {
        Some(ArgsView { ai: true, ..a })
    } else if t == "--flat"@ {
        Some(ArgsView { flat: true, ..a })
    } else if t == "--group"@ {
        Some(ArgsView { group: true, ..a })
    } else if t == "--stats"@ {
        Some(ArgsView { stats: true, ..a })
    } else if t == "--collapse"@ {
        Some(ArgsView { collapse: true, ..a })
    } else if t == "--no-color"@ {
        Some(ArgsView { no_color: true, ..a })
    } else if t == "--hidden"@ {
        Some(ArgsView { hidden: true, ..a })
    } else if t == "--show-ignore"@ {
        Some(ArgsView { show_ignore: true, ..a })
    } else if t == "--no-ignore"@ {
        Some(ArgsView { no_ignore: true, ..a })
    } else if t == "--copy"@ {
        Some(ArgsView { copy: true, ..a })
    } else if t == "--important"@ {
        Some(ArgsView { important: true, ..a })
    } else if t == "--watch"@ {
        Some(ArgsView { watch: true, ..a })
    } else {
        None
    }
}

/// The arguments after an option `t` that takes the next token `v` as its
/// value, when `t` is one.
pub open spec fn set_value(t: Seq<char>, v: Option<Seq<char>>, a: ArgsView) -> Option<ArgsView> {
    if t == "--depth"@ {
        Some(
            match v {
                Some(x) => ArgsView { depth: depth_of(x), ..a },
                None => a,
            },
        )
    } else if t == "--only"@ {
        Some(ArgsView { only: v, ..a })
    } else if t == "--focus"@ {
        Some(ArgsView { focus: v, ..a })
    } else if t == "--ignore"@ {
        Some(ArgsView { ignore: v, ..a })
    } else if t == "--since"@ {
        Some(ArgsView { since: v, ..a })
    } else if t == "--format"@ {
        Some(
            match v {
                Some(x) => ArgsView { format: format_of(x), ..a },
                None => a,
            },
        )
    } else {
        None
    }
}

/// The arguments after a token that stands alone: the path, or an option in
/// `--option=value` form; `None` for an unknown option.
pub open spec fn set_inline(t: Seq<char>, a: ArgsView) -> Option<ArgsView> {
    if !has_prefix(t, "-"@) {
        Some(ArgsView { path: t, ..a })
    } else if has_prefix(t, "--depth="@) {
        Some(ArgsView { depth: depth_of(after(t, "--depth="@)), ..a })
    } else if has_prefix(t, "--only="@) {
        Some(ArgsView { only: Some(after(t, "--only="@)), ..a })
    } else if has_prefix(t, "--focus="@) {
        Some(ArgsView { focus: Some(after(t, "--focus="@)), ..a })
    } else if has_prefix(t, "--ignore="@) {
        Some(ArgsView { ignore: Some(after(t, "--ignore="@)), ..a })
    } else if has_prefix(t, "--since="@) {
        Some(ArgsView { since: Some(after(t, "--since="@)), ..a })
    } else if has_prefix(t, "--format="@) {
        Some(ArgsView { format: format_of(after(t, "--format="@)), ..a })
    } else {
        None
    }
}

pub open spec fn is_help(t: Seq<char>) -> bool {
    t == "-h"@ || t == "--help"@
}

pub open spec fn is_version(t: Seq<char>) -> bool {
    t == "-V"@ || t == "--version"@
}

/// The outcome of reading the tokens from position `i` on, with `a` read so far.
pub open spec fn parse_from(raw: Seq<Seq<char>>, i: int, a: ArgsView) -> CliModel
    decreases raw.len() + 2 - i,
{
    if i < 0 || i >= raw.len() {
        CliModel::Run(a)
    } else {
        let t = raw[i];
        if is_help(t) {
            CliModel::Help
        } else if is_version(t) {
            CliModel::Version
        } else {
            match set_flag(t, a) {
                Some(a2) => parse_from(raw, i + 1, a2),
                None => match set_value(t, next_token(raw, i), a) {
                    Some(a2) => parse_from(raw, i + 2, a2),
                    None => match set_inline(t, a) {
                        Some(a2) => parse_from(raw, i + 1, a2),
                        None => CliModel::UnknownOption(t),
                    },
                },
            }
        }
    }
}

/// What the whole command line asks for.
pub open spec fn parse_spec(raw: Seq<Seq<char>>) -> CliModel {
    if raw.len() > 0 && raw[0] == "init"@ {
        CliModel::Run(ArgsView { init: true, ..default_args() })
    } else if raw.len() > 0 && raw[0] == "completions"@ {
        CliModel::Run(
            ArgsView {
                completions: Some(
                    if raw.len() > 1 {
                        raw[1]
                    } else {
                        "bash"@
                    },
                ),
                ..default_args()
            },
        )
    } else {
        parse_from(raw, 0, default_args())
    }
}

fn format_exec(v: &Vec<char>) -> (r: OutputFormat)
    ensures
        r == format_of(v@),
{
    if is_text(v, "flat") {
        OutputFormat::Flat
    } else if is_text(v, "json") {
        OutputFormat::Json
    } else if is_text(v, "group") {
        OutputFormat::Group
    } else {
        OutputFormat::Tree
    }
}

fn depth_exec(v: &Vec<char>) -> (r: usize)
    ensures
        r == depth_of(v@),
{
    match parse_usize(v) {
        Some(n) => n,
        None => 0,
    }
}

/// The text after `prefix`, for a token known to start with it.
fn after_exec(t: &Vec<char>, prefix: &str) -> (r: Vec<char>)
    requires
        has_prefix(t@, prefix@),
    ensures
        r@ == after(t@, prefix@),
{
    let p = chars_of(prefix);
    slice_chars(t, p.len(), t.len())
}

#[verifier::rlimit(80)]
fn set_flag_exec(t: &Vec<char>, args: &mut Args) -> (r: bool)
    ensures
        match set_flag(t@, old(args)@) {
            Some(a2) => r && final(args)@ == a2,
            None => !r && final(args)@ == old(args)@,
        },
{
    if is_text(t, "--ai") {
        args.ai = true;
    } else if is_text(t, "--flat") {
        args.flat = true;
    } else if is_text(t, "--group") {
        args.group = true;
    } else if is_text(t, "--stats") {
        args.stats = true;
    } else if is_text(t, "--collapse") {
        args.collapse = true;
    } else if is_text(t, "--no-color") {
        args.no_color = true;
    } else if is_text(t, "--hidden") {
        args.hidden = true;
    } else if is_text(t, "--show-ignore") {
        args.show_ignore = true;
    } else if is_text(t, "--no-ignore") {
        args.no_ignore = true;
    } else if is_text(t, "--copy") {
        args.copy = true;
    } else if is_text(t, "--important") {
        args.important = true;
    } else if is_text(t, "--watch") {
        args.watch = true;
    } else {
        return false;
    }
    true
}

#[verifier::rlimit(80)]
fn set_value_exec(t: &Vec<char>, v: Option<&String>, args: &mut Args) -> (r: bool)
    ensures
        match set_value(
            t@,
            match v {
                Some(x) => Some(x@),
                None => None,
            },
            old(args)@,
        ) {
            Some(a2) => r && final(args)@ == a2,
            None => !r && final(args)@ == old(args)@,
        },
{
    let owned: Option<String> = match v {
        Some(x) => Some(x.clone()),
        None => None,
    };
    if is_text(t, "--depth") {
        if let Some(x) = v {
            args.depth = depth_exec(&chars_of(x.as_str()));
        }
    } else if is_text(t, "--only") {
        args.only = owned;
    } else if is_text(t, "--focus") {
        args.focus = owned;
    } else if is_text(t, "--ignore") {
        args.ignore = owned;
    } else if is_text(t, "--since") {
        args.since = owned;
    } else if is_text(t, "--format") {
        if let Some(x) = v {
            args.format = format_exec(&chars_of(x.as_str()));
        }
    } else {
        return false;
    }
    true
}

#[verifier::rlimit(80)]
fn set_inline_exec(t: &Vec<char>, token: &String, args: &mut Args) -> (r: bool)
    requires
        token@ == t@,
    ensures
        match set_inline(t@, old(args)@) {
            Some(a2) => r && final(args)@ == a2,
            None => !r && final(args)@ == old(args)@,
        },
{
    if !starts_with_text(t, "-") {
        args.path = token.clone();
    } else if starts_with_text(t, "--depth=") {
        args.depth = depth_exec(&after_exec(t, "--depth="));
    } else if starts_with_text(t, "--only=") {
        args.only = Some(string_of(&after_exec(t, "--only=")));
    } else if starts_with_text(t, "--focus=") {
        args.focus = Some(string_of(&after_exec(t, "--focus=")));
    } else if starts_with_text(t, "--ignore=") {
        args.ignore = Some(string_of(&after_exec(t, "--ignore=")));
    } else if starts_with_text(t, "--since=") {
        args.since = Some(string_of(&after_exec(t, "--since=")));
    } else if starts_with_text(t, "--format=") {
        args.format = format_exec(&after_exec(t, "--format="));
    } else {
        return false;
    }
    true
}

/// Reads the command line (without the program name).
pub fn parse_args(raw: &Vec<String>) -> (r: CliCommand)
    ensures
        r@ == parse_spec(raw@.map_values(|s: String| s@)),
{
    let ghost rv = raw@.map_values(|s: String| s@);
    let mut args = Args::default();
    if raw.len() > 0 {
        let first = chars_of(raw[0].as_str());
        assert(first@ == rv[0]);
        if is_text(&first, "init") {
            args.init = true;
            return CliCommand::Run(args);
        }
        if is_text(&first, "completions") {
            if raw.len() > 1 {
                args.completions = Some(raw[1].clone());
                assert(args.completions->0@ == rv[1]);
            } else {
                args.completions = Some(String::from_str("bash"));
            }
            return CliCommand::Run(args);
        }
    }
    let mut i: usize = 0;
    while i < raw.len()
        invariant
            rv == raw@.map_values(|s: String| s@),
            parse_spec(rv) == parse_from(rv, i as int, args@),
        decreases raw.len() - i,
    {
        let t = chars_of(raw[i].as_str());
        assert(t@ == rv[i as int]);
        let next: Option<&String> = if i + 1 < raw.len() {
            Some(&raw[i + 1])
        } else {
            None
        };
        proof {
            if i + 1 < raw.len() {
                assert(next_token(rv, i as int) == Some(raw@[i + 1]@));
            } else {
                assert(next_token(rv, i as int) is None);
            }
        }
        if is_text(&t, "-h") || is_text(&t, "--help") {
            return CliCommand::Help;
        }
        if is_text(&t, "-V") || is_text(&t, "--version") {
            return CliCommand::Version;
        }
        let ghost a = args@;
        let ghost i0 = i as int;
        assert(!is_help(rv[i0]) && !is_version(rv[i0]));
        if set_flag_exec(&t, &mut args) {
            assert(parse_from(rv, i0, a) == parse_from(rv, i0 + 1, args@));
            i += 1;
        } else if set_value_exec(&t, next, &mut args) {
            assert(parse_from(rv, i0, a) == parse_from(rv, i0 + 2, args@));
            if i + 1 < raw.len() {
                i += 2;
            } else {
                i = raw.len();
            }
        } else if set_inline_exec(&t, &raw[i], &mut args) {
            assert(parse_from(rv, i0, a) == parse_from(rv, i0 + 1, args@));
            i += 1;
        } else {
            return CliCommand::UnknownOption(raw[i].clone());
        }
    }
    CliCommand::Run(args)
}


// ───────────────────────────── laws ─────────────────────────────

/// The options that take a value, either as the next token or after `=`.
pub open spec fn value_option(name: Seq<char>) -> bool {
    name == "--depth"@ || name == "--only"@ || name == "--focus"@ || name == "--ignore"@ || name
        == "--since"@ || name == "--format"@
}

/// What is read from position `i` on depends only on the tokens from there.
proof fn lemma_parse_suffix(x: Seq<Seq<char>>, y: Seq<Seq<char>>, s: Seq<Seq<char>>, a: ArgsView)
    ensures
        parse_from(x + s, x.len() as int, a) == parse_from(y + s, y.len() as int, a),
    decreases s.len(),
{
    let rx = x + s;
    let ry = y + s;
    let i = x.len() as int;
    let j = y.len() as int;
    if s.len() > 0 {
        let t = s[0];
        assert(rx[i] == t);
        assert(ry[j] == t);
        if s.len() > 1 {
            assert(rx[i + 1] == s[1]);
            assert(ry[j + 1] == s[1]);
            assert(next_token(rx, i) == next_token(ry, j));
        } else {
            assert(next_token(rx, i) == next_token(ry, j));
        }
        let x1 = x + seq![t];
        let y1 = y + seq![t];
        let s1 = s.drop_first();
        assert(rx =~= x1 + s1);
        assert(ry =~= y1 + s1);
        if !is_help(t) && !is_version(t) {
            match set_flag(t, a) {
                Some(a2) => {
                    lemma_parse_suffix(x1, y1, s1, a2);
                },
                None => match set_value(t, next_token(rx, i), a) {
                    Some(a2) => {
                        if s.len() > 1 {
                            let x2 = x + s.take(2);
                            let y2 = y + s.take(2);
                            let s2 = s.skip(2);
                            assert(rx =~= x2 + s2);
                            assert(ry =~= y2 + s2);
                            lemma_parse_suffix(x2, y2, s2, a2);
                        } else {
                            assert(parse_from(rx, i + 2, a2) == CliModel::Run(a2));
                            assert(parse_from(ry, j + 2, a2) == CliModel::Run(a2));
                        }
                    },
                    None => match set_inline(t, a) {
                        Some(a2) => {
                            lemma_parse_suffix(x1, y1, s1, a2);
                        },
                        None => {},
                    },
                },
            }
        }
    }
}

/// Texts that differ at one of their third to fifth characters differ, and neither
/// starts with the other.
proof fn lemma_differ(s: Seq<char>, p: Seq<char>)
    ensures
        s.len() >= 5 && p.len() >= 4 && (s[2] != p[2] || s[3] != p[3] || (p.len() > 4 && s[4]
            != p[4])) ==> s != p && (p.len() <= s.len() ==> !has_prefix(s, p)),
{
    if s.len() >= 5 && p.len() >= 4 && p.len() <= s.len() && has_prefix(s, p) {
        assert(s.subrange(0, p.len() as int)[2] == s[2]);
        assert(s.subrange(0, p.len() as int)[3] == s[3]);
        if p.len() > 4 {
            assert(s.subrange(0, p.len() as int)[4] == s[4]);
        }
    }
}

/// The `--name=value` token reads as the `--name value` pair does.
proof fn lemma_inline_token(name: Seq<char>, v: Seq<char>, w: Option<Seq<char>>, a: ArgsView)
    requires
        value_option(name),
    ensures
        !is_help(name) && !is_version(name) && set_flag(name, a) is None,
        !is_help(name + "="@ + v) && !is_version(name + "="@ + v),
        set_flag(name + "="@ + v, a) is None,
        set_value(name + "="@ + v, w, a) is None,
        set_inline(name + "="@ + v, a) == set_value(name, Some(v), a),
{
    reveal_strlit("--depth");
    reveal_strlit("--only");
    reveal_strlit("--focus");
    reveal_strlit("--ignore");
    reveal_strlit("--since");
    reveal_strlit("--format");
    reveal_strlit("--depth=");
    reveal_strlit("--only=");
    reveal_strlit("--focus=");
    reveal_strlit("--ignore=");
    reveal_strlit("--since=");
    reveal_strlit("--format=");
    reveal_strlit("=");
    reveal_strlit("-");
    reveal_strlit("-h");
    reveal_strlit("--help");
    reveal_strlit("-V");
    reveal_strlit("--version");
    reveal_strlit("--ai");
    reveal_strlit("--flat");
    reveal_strlit("--group");
    reveal_strlit("--stats");
    reveal_strlit("--collapse");
    reveal_strlit("--no-color");
    reveal_strlit("--hidden");
    reveal_strlit("--show-ignore");
    reveal_strlit("--no-ignore");
    reveal_strlit("--copy");
    reveal_strlit("--important");
    reveal_strlit("--watch");
    let t = name + "="@ + v;
    let eq = name + "="@;
    assert(t =~= eq + v);
    assert(t[0] == '-' && t[1] == '-');
    assert(t[2] == name[2]);
    assert(t[3] == name[3]);
    assert(t[4] == name[4]);
    assert(t[name.len() as int] == '=');
    assert(has_prefix(t, "-"@)) by {
        assert(t.subrange(0, 1) =~= "-"@);
    }
    assert(has_prefix(t, eq)) by {
        assert(t.subrange(0, eq.len() as int) =~= eq);
    }
    assert(after(t, eq) =~= v);
    if name == "--depth"@ {
        assert(eq =~= "--depth="@);
    } else if name == "--only"@ {
        assert(eq =~= "--only="@);
    } else if name == "--focus"@ {
        assert(eq =~= "--focus="@);
    } else if name == "--ignore"@ {
        assert(eq =~= "--ignore="@);
    } else if name == "--since"@ {
        assert(eq =~= "--since="@);
    } else {
        assert(eq =~= "--format="@);
    }
    // every other flag and option name differs from `t` and `name` at a letter
    lemma_differ(t, "--depth"@);
    lemma_differ(t, "--depth="@);
    lemma_differ(t, "--only"@);
    lemma_differ(t, "--only="@);
    lemma_differ(t, "--focus"@);
    lemma_differ(t, "--focus="@);
    lemma_differ(t, "--ignore"@);
    lemma_differ(t, "--ignore="@);
    lemma_differ(t, "--since"@);
    lemma_differ(t, "--since="@);
    lemma_differ(t, "--format"@);
    lemma_differ(t, "--format="@);
    lemma_differ(t, "--ai"@);
    lemma_differ(t, "--flat"@);
    lemma_differ(t, "--group"@);
    lemma_differ(t, "--stats"@);
    lemma_differ(t, "--collapse"@);
    lemma_differ(t, "--no-color"@);
    lemma_differ(t, "--hidden"@);
    lemma_differ(t, "--show-ignore"@);
    lemma_differ(t, "--no-ignore"@);
    lemma_differ(t, "--copy"@);
    lemma_differ(t, "--important"@);
    lemma_differ(t, "--watch"@);
    lemma_differ(t, "--help"@);
    lemma_differ(t, "--version"@);
    lemma_differ(name, "--depth"@);
    lemma_differ(name, "--only"@);
    lemma_differ(name, "--focus"@);
    lemma_differ(name, "--ignore"@);
    lemma_differ(name, "--since"@);
    lemma_differ(name, "--format"@);
    lemma_differ(name, "--ai"@);
    lemma_differ(name, "--flat"@);
    lemma_differ(name, "--group"@);
    lemma_differ(name, "--stats"@);
    lemma_differ(name, "--collapse"@);
    lemma_differ(name, "--no-color"@);
    lemma_differ(name, "--hidden"@);
    lemma_differ(name, "--show-ignore"@);
    lemma_differ(name, "--no-ignore"@);
    lemma_differ(name, "--copy"@);
    lemma_differ(name, "--important"@);
    lemma_differ(name, "--watch"@);
    lemma_differ(name, "--help"@);
    lemma_differ(name, "--version"@);
}

/// An option's value may follow it as the next token or after `=` in the same
/// token: `--focus src` and `--focus=src` read alike, wherever they stand.
pub proof fn law_option_value_forms_agree(
    pre: Seq<Seq<char>>,
    post: Seq<Seq<char>>,
    name: Seq<char>,
    v: Seq<char>,
    a: ArgsView,
)
    requires
        value_option(name),
    ensures
        parse_from(pre + seq![name, v] + post, pre.len() as int, a) == parse_from(
            pre + seq![name + "="@ + v] + post,
            pre.len() as int,
            a,
        ),
{
    let spaced = pre + seq![name, v] + post;
    let joined = pre + seq![name + "="@ + v] + post;
    let i = pre.len() as int;
    lemma_inline_token(name, v, next_token(joined, i), a);
    assert(spaced[i] == name);
    assert(spaced[i + 1] == v);
    assert(next_token(spaced, i) == Some(v));
    assert(joined[i] == name + "="@ + v);
    let a2 = set_value(name, Some(v), a)->0;
    lemma_parse_suffix(pre + seq![name, v], pre + seq![name + "="@ + v], post, a2);
    assert(spaced =~= (pre + seq![name, v]) + post);
    assert(joined =~= (pre + seq![name + "="@ + v]) + post);
}
// ───────────────────────────── laws ─────────────────────────────

/// The lengths and third characters of the option tokens, which tell them apart.
proof fn lemma_reveal_switches()
    ensures
        "--ai"@.len() == 4,
        "--flat"@.len() == 6,
        "--group"@.len() == 7,
        "--stats"@.len() == 7,
        "--collapse"@.len() == 10,
        "--no-color"@.len() == 10,
        "--hidden"@.len() == 8,
        "--show-ignore"@.len() == 13,
        "--no-ignore"@.len() == 11,
        "--copy"@.len() == 6,
        "--important"@.len() == 11,
        "--watch"@.len() == 7,
        "-h"@.len() == 2,
        "--help"@.len() == 6,
        "-V"@.len() == 2,
        "--version"@.len() == 9,
        "init"@.len() == 4,
        "completions"@.len() == 11,
        "--ai"@[2] == 'a',
        "--flat"@[2] == 'f',
        "--group"@[2] == 'g',
        "--stats"@[2] == 's',
        "--collapse"@[2] == 'c',
        "--no-color"@[2] == 'n',
        "--hidden"@[2] == 'h',
        "--show-ignore"@[2] == 's',
        "--no-ignore"@[2] == 'n',
        "--copy"@[2] == 'c',
        "--important"@[2] == 'i',
        "--watch"@[2] == 'w',
        "--help"@[2] == 'h',
        "--version"@[2] == 'v',
        "init"@[0] == 'i',
        "completions"@[0] == 'c',
        "--ai"@[0] == '-',
        "--flat"@[0] == '-',
        "--group"@[0] == '-',
        "--stats"@[0] == '-',
        "--collapse"@[0] == '-',
        "--no-color"@[0] == '-',
        "--hidden"@[0] == '-',
        "--show-ignore"@[0] == '-',
        "--no-ignore"@[0] == '-',
        "--copy"@[0] == '-',
        "--important"@[0] == '-',
        "--watch"@[0] == '-',
        "--help"@[0] == '-',
        "--version"@[0] == '-',
{
    reveal_strlit("--ai");
    reveal_strlit("--flat");
    reveal_strlit("--group");
    reveal_strlit("--stats");
    reveal_strlit("--collapse");
    reveal_strlit("--no-color");
    reveal_strlit("--hidden");
    reveal_strlit("--show-ignore");
    reveal_strlit("--no-ignore");
    reveal_strlit("--copy");
    reveal_strlit("--important");
    reveal_strlit("--watch");
    reveal_strlit("-h");
    reveal_strlit("--help");
    reveal_strlit("-V");
    reveal_strlit("--version");
    reveal_strlit("init");
    reveal_strlit("completions");
}

/// Each switch turns on the field it names, and only that field.
pub proof fn law_each_switch_sets_its_field(a: ArgsView)
    ensures
        set_flag("--ai"@, a) == Some((ArgsView { ai: true, ..a })),
        set_flag("--flat"@, a) == Some((ArgsView { flat: true, ..a })),
        set_flag("--group"@, a) == Some((ArgsView { group: true, ..a })),
        set_flag("--stats"@, a) == Some((ArgsView { stats: true, ..a })),
        set_flag("--collapse"@, a) == Some((ArgsView { collapse: true, ..a })),
        set_flag("--no-color"@, a) == Some((ArgsView { no_color: true, ..a })),
        set_flag("--hidden"@, a) == Some((ArgsView { hidden: true, ..a })),
        set_flag("--show-ignore"@, a) == Some((ArgsView { show_ignore: true, ..a })),
        set_flag("--no-ignore"@, a) == Some((ArgsView { no_ignore: true, ..a })),
        set_flag("--copy"@, a) == Some((ArgsView { copy: true, ..a })),
        set_flag("--important"@, a) == Some((ArgsView { important: true, ..a })),
        set_flag("--watch"@, a) == Some((ArgsView { watch: true, ..a })),
{
    lemma_reveal_switches();
}

/// Tokens that are switches.
pub open spec fn is_switch(t: Seq<char>) -> bool {
    t == "--ai"@ || t == "--flat"@ || t == "--group"@ || t == "--stats"@ || t == "--collapse"@ || t
        == "--no-color"@ || t == "--hidden"@ || t == "--show-ignore"@ || t == "--no-ignore"@ || t
        == "--copy"@ || t == "--important"@ || t == "--watch"@
}

/// Only switches are read as switches, and none of them asks for help, the version
/// or a subcommand.
pub proof fn law_switches_are_switches(t: Seq<char>, a: ArgsView)
    ensures
        set_flag(t, a) is Some <==> is_switch(t),
        is_switch(t) ==> !is_help(t) && !is_version(t) && t != "init"@ && t != "completions"@,
{
    lemma_reveal_switches();
}

/// A switch anywhere on the command line is read on its own: the rest of the line
/// is read after it with the switch applied.
pub proof fn law_switch_is_read_in_place(raw: Seq<Seq<char>>, i: int, a: ArgsView)
    requires
        0 <= i < raw.len(),
        is_switch(raw[i]),
    ensures
        parse_from(raw, i, a) == parse_from(raw, i + 1, set_flag(raw[i], a).unwrap()),
{
    law_switches_are_switches(raw[i], a);
}

/// A lone switch gives the default arguments with the switch turned on.
pub proof fn law_lone_switch(t: Seq<char>)
    requires
        is_switch(t),
    ensures
        parse_spec(seq![t]) == CliModel::Run(set_flag(t, default_args()).unwrap()),
{
    law_switches_are_switches(t, default_args());
    let raw = seq![t];
    assert(raw[0] == t);
    assert(parse_from(raw, 1, set_flag(t, default_args()).unwrap()) == CliModel::Run(
        set_flag(t, default_args()).unwrap(),
    ));
}
/// Each option that takes a value stores the next token in the field it names,
/// and only there; `--depth` and `--format` read it as a number and a view.
pub proof fn law_each_value_option_sets_its_field(v: Seq<char>, a: ArgsView)
    ensures
        set_value("--depth"@, Some(v), a) == Some((ArgsView { depth: depth_of(v), ..a })),
        set_value("--only"@, Some(v), a) == Some((ArgsView { only: Some(v), ..a })),
        set_value("--focus"@, Some(v), a) == Some((ArgsView { focus: Some(v), ..a })),
        set_value("--ignore"@, Some(v), a) == Some((ArgsView { ignore: Some(v), ..a })),
        set_value("--since"@, Some(v), a) == Some((ArgsView { since: Some(v), ..a })),
        set_value("--format"@, Some(v), a) == Some((ArgsView { format: format_of(v), ..a })),
        set_value("--depth"@, None, a) == Some(a),
        set_value("--format"@, None, a) == Some(a),
{
    reveal_strlit("--depth");
    reveal_strlit("--only");
    reveal_strlit("--focus");
    reveal_strlit("--ignore");
    reveal_strlit("--since");
    reveal_strlit("--format");
    assert("--depth"@.len() == 7 && "--only"@.len() == 6 && "--focus"@.len() == 7);
    assert("--ignore"@.len() == 8 && "--since"@.len() == 7 && "--format"@.len() == 8);
    assert("--depth"@[2] == 'd' && "--only"@[2] == 'o' && "--focus"@[2] == 'f');
    assert("--ignore"@[2] == 'i' && "--since"@[2] == 's' && "--format"@[2] == 'f');
}

/// `--format` names the view: `flat`, `json` and `group` pick theirs, anything else
/// the tree.
pub proof fn law_format_names_the_view(v: Seq<char>)
    ensures
        v == "flat"@ ==> format_of(v) == OutputFormat::Flat,
        v == "json"@ ==> format_of(v) == OutputFormat::Json,
        v == "group"@ ==> format_of(v) == OutputFormat::Group,
        v != "flat"@ && v != "json"@ && v != "group"@ ==> format_of(v) == OutputFormat::Tree,
{
    reveal_strlit("flat");
    reveal_strlit("json");
    reveal_strlit("group");
    assert("flat"@.len() == 4 && "json"@.len() == 4 && "group"@.len() == 5);
    assert("flat"@[0] == 'f' && "json"@[0] == 'j');
}
} // verus!
