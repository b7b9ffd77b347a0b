//! The ignore engine: built-in, framework, `.directreeignore` and CLI rules.
use vstd::prelude::*;
use crate::detector::{Framework, framework_ignores, framework_name};
use crate::paths::{file_name, file_name_exec, after_last, strip_tail};
use crate::text::{
    CharClass, trim, trim_end_by, has_prefix, contains_seq, chars_of, string_of, concat_chars,
    trim_chars, trim_end_chars, contains_chars, contains_char, chars_eq, lines, trimmed_lines, decimal,
    decimal_chars, slice_chars, starts_with_text,
};

verus! {

/// Names that are always left out unless built-in rules are switched off.
pub open spec fn builtin_patterns() -> Seq<Seq<char>> {
    seq![
        ".git"@,
        ".svn"@,
        ".hg"@,
        "node_modules"@,
        ".DS_Store"@,
        "Thumbs.db"@,
        "desktop.ini"@,
        ".idea"@,
        ".vscode"@,
        ".cache"@,
        ".tmp"@,
        "tmp"@,
        "temp"@,
        ".turbo"@,
        ".parcel-cache"@,
        "coverage"@,
        ".nyc_output"@,
    ]
}

fn builtin_list() -> (r: Vec<&'static str>)
    ensures
        r@.map_values(|s: &str| s@) == builtin_patterns(),
{
    let r = vec![
        ".git",
        ".svn",
        ".hg",
        "node_modules",
        ".DS_Store",
        "Thumbs.db",
        "desktop.ini",
        ".idea",
        ".vscode",
        ".cache",
        ".tmp",
        "tmp",
        "temp",
        ".turbo",
        ".parcel-cache",
        "coverage",
        ".nyc_output",
    ];
    assert(r@.map_values(|s: &str| s@) =~= builtin_patterns());
    r
}

/// What the engine holds: the patterns it matches and, in the same order, the
/// rule lines that `--show-ignore` lists.
pub struct IgnoreRules {
    pub patterns: Seq<Seq<char>>,
    pub rules: Seq<Seq<char>>,
}

pub struct Ignorer {
    pub patterns: Vec<String>,
    pub rules: Vec<String>,
}

impl View for Ignorer {
    type V = IgnoreRules;

    open spec fn view(&self) -> IgnoreRules {
        IgnoreRules {
            patterns: self.patterns@.map_values(|s: String| s@),
            rules: self.rules@.map_values(|s: String| s@),
        }
    }
}

/// A rule line: the pattern and, in brackets, where it came from.
pub open spec fn rule_line(p: Seq<char>, source: Seq<char>) -> Seq<char> {
    p + " ["@ + source + "]"@
}

pub open spec fn rule_lines(ps: Seq<Seq<char>>, source: Seq<char>) -> Seq<Seq<char>> {
    ps.map_values(|p: Seq<char>| rule_line(p, source))
}

/// The user-given lines that become patterns: trimmed, without empty lines
/// and `#` comments.
pub open spec fn user_patterns(items: Seq<Seq<char>>) -> Seq<Seq<char>>
    decreases items.len(),
{
    if items.len() == 0 {
        Seq::<Seq<char>>::empty()
    } else {
        let rest = user_patterns(items.drop_last());
        let t = trim(items.last());
        if t.len() > 0 && !has_prefix(t, "#"@) {
            rest.push(t)
        } else {
            rest
        }
    }
}

pub open spec fn build_spec(fw: Framework, extra: Seq<Seq<char>>, no_ignore: bool) -> IgnoreRules {
    let cli = user_patterns(extra);
    let base_patterns = if no_ignore {
        Seq::<Seq<char>>::empty()
    } else {
        builtin_patterns() + framework_ignores(fw)
    };
    let base_rules = if no_ignore {
        Seq::<Seq<char>>::empty()
    } else {
        rule_lines(builtin_patterns(), "built-in"@) + rule_lines(
            framework_ignores(fw),
            framework_name(fw),
        )
    };
    IgnoreRules {
        patterns: base_patterns + cli,
        rules: base_rules + rule_lines(cli, "cli --ignore"@),
    }
}

/// The rules after the lines of a `.directreeignore` file are added.
pub open spec fn with_local_spec(r: IgnoreRules, content: Seq<char>) -> IgnoreRules {
    let local = user_patterns(lines(content));
    IgnoreRules {
        patterns: r.patterns + local,
        rules: r.rules + rule_lines(local, ".directreeignore"@),
    }
}

// ───────────────────────────── glob matching ─────────────────────────────

/// `*` matches any run of bytes, `?` any one byte, every other byte itself.
pub open spec fn glob(p: Seq<u8>, s: Seq<u8>) -> bool
    decreases p.len(), s.len(),
{
    if p.len() == 0 {
        s.len() == 0
    } else if p[0] == 42u8 {
        glob(p.drop_first(), s) || (s.len() > 0 && glob(p, s.drop_first()))
    } else if s.len() == 0 {
        false
    } else if p[0] == 63u8 {
        glob(p.drop_first(), s.drop_first())
    } else {
        p[0] == s[0] && glob(p.drop_first(), s.drop_first())
    }
}

/// A pattern matches a name when, without trailing `'/'`, it equals the name,
/// or it holds a wildcard and globs the name's UTF-8 bytes.
pub open spec fn glob_match_spec(pattern: Seq<char>, name: Seq<char>) -> bool {
    let pat = trim_end_by(pattern, CharClass::One('/'));
    pat == name || ((pat.contains('*') || pat.contains('?')) && glob(
        vstd::utf8::encode_utf8(pat),
        vstd::utf8::encode_utf8(name),
    ))
}

pub open spec fn has_wildcard(t: Seq<char>) -> bool {
    t.contains('*') || t.contains('?')
}

/// A path pattern without its leading `**/`: matching from any directory already
/// stands for "any leading directories".
pub open spec fn path_glob_of(t: Seq<char>) -> Seq<char> {
    if has_prefix(t, "**/"@) {
        t.skip(3)
    } else {
        t
    }
}

/// Whether the glob `g` matches the rest of `path` from its start or from just after
/// one of its `'/'`.
pub open spec fn glob_path(g: Seq<char>, path: Seq<char>) -> bool {
    exists|k: int|
        0 <= k <= path.len() && (k == 0 || path[k - 1] == '/') && #[trigger] glob(
            vstd::utf8::encode_utf8(g),
            vstd::utf8::encode_utf8(path.skip(k)),
        )
}

/// Whether one pattern leaves out the entry `name` at `path`. A pattern with a `'/'`
/// also matches the path: without wildcards when the path holds it, with wildcards
/// when it globs the path from the start of one of its components (`**/` meaning any
/// leading directories).
pub open spec fn pattern_hits(pat: Seq<char>, name: Seq<char>, path: Seq<char>) -> bool {
    let t = trim_end_by(pat, CharClass::One('/'));
    glob_match_spec(pat, name) || (pat.contains('/') && (contains_seq(path, t) || (has_wildcard(t)
        && glob_path(path_glob_of(t), path))))
}

pub open spec fn ignored_spec(patterns: Seq<Seq<char>>, path: Seq<char>, show_hidden: bool) -> bool {
    match file_name(path) {
        None => false,
        Some(name) => (!show_hidden && has_prefix(name, "."@)) || exists|i: int|
            0 <= i < patterns.len() && pattern_hits(#[trigger] patterns[i], name, path),
    }
}

fn glob_match_inner(p: &[u8], i: usize, s: &[u8], j: usize) -> (r: bool)
    requires
        i <= p@.len(),
        j <= s@.len(),
    ensures
        r == glob(p@.skip(i as int), s@.skip(j as int)),
    decreases p@.len() - i, s@.len() - j,
{
    proof {
        if i < p@.len() {
            assert(p@.skip(i as int).drop_first() =~= p@.skip(i + 1));
        }
        if j < s@.len() {
            assert(s@.skip(j as int).drop_first() =~= s@.skip(j + 1));
        }
    }
    if i == p.len() {
        j == s.len()
    } else if p[i] == 42u8 {
        if glob_match_inner(p, i + 1, s, j) {
            true
        } else {
            j < s.len() && glob_match_inner(p, i, s, j + 1)
        }
    } else if j == s.len() {
        false
    } else if p[i] == 63u8 {
        glob_match_inner(p, i + 1, s, j + 1)
    } else {
        p[i] == s[j] && glob_match_inner(p, i + 1, s, j + 1)
    }
}

fn glob_from_start(gb: &[u8], pc: &Vec<char>, k: usize) -> (r: bool)
    requires
        k <= pc@.len(),
    ensures
        r == glob(gb@, vstd::utf8::encode_utf8(pc@.skip(k as int))),
{
    let rest = string_of(&slice_chars(pc, k, pc.len()));
    assert(rest@ =~= pc@.skip(k as int));
    let rb = rest.as_str().as_bytes();
    assert(gb@.skip(0) =~= gb@);
    assert(rb@.skip(0) =~= rb@);
    glob_match_inner(gb, 0, rb, 0)
}

/// Whether the glob `g` matches `pc` from its start or from just after one of its `'/'`.
fn glob_path_exec(g: &Vec<char>, pc: &Vec<char>) -> (r: bool)
    ensures
        r == glob_path(g@, pc@),
{
    let gs = string_of(g);
    let gb = gs.as_str().as_bytes();
    if glob_from_start(gb, pc, 0) {
        return true;
    }
    let mut i: usize = 0;
    while i < pc.len()
        invariant
            i <= pc@.len(),
            gb@ == vstd::utf8::encode_utf8(g@),
            forall|k: int|
                0 <= k <= i && (k == 0 || pc@[k - 1] == '/') ==> !#[trigger] glob(
                    vstd::utf8::encode_utf8(g@),
                    vstd::utf8::encode_utf8(pc@.skip(k)),
                ),
        decreases pc@.len() - i,
    {
        if pc[i] == '/' {
            if glob_from_start(gb, pc, i + 1) {
                return true;
            }
        }
        i += 1;
    }
    false
}

/// Minimal glob matching: supports `*` and `?` wildcards.
pub fn glob_match(pattern: &str, name: &str) -> (r: bool)
    ensures
        r == glob_match_spec(pattern@, name@),
{
    let pc = chars_of(pattern);
    let pat = trim_end_chars(&pc, CharClass::One('/'));
    let nc = chars_of(name);
    if chars_eq(&pat, &nc) {
        return true;
    }
    if !contains_char(&pat, '*') && !contains_char(&pat, '?') {
        return false;
    }
    let ps = string_of(&pat);
    let pb = ps.as_str().as_bytes();
    let nb = name.as_bytes();
    assert(pb@.skip(0) =~= pb@);
    assert(nb@.skip(0) =~= nb@);
    glob_match_inner(pb, 0, nb, 0)
}

fn tagged(p: &Vec<char>, source: &Vec<char>) -> (r: String)
    ensures
        r@ == rule_line(p@, source@),
{
    let a = concat_chars(p, &chars_of(" ["));
    let b = concat_chars(&a, source);
    let c = concat_chars(&b, &chars_of("]"));
    string_of(&c)
}

impl Ignorer {
    /// Adds the user-given lines as patterns from `source`.
    fn add_user(&mut self, items: &Vec<Vec<char>>, source: &Vec<char>)
        ensures
            final(self)@.patterns == old(self)@.patterns + user_patterns(
                items@.map_values(|v: Vec<char>| v@),
            ),
            final(self)@.rules == old(self)@.rules + rule_lines(
                user_patterns(items@.map_values(|v: Vec<char>| v@)),
                source@,
            ),
    {
        let ghost items_v = items@.map_values(|v: Vec<char>| v@);
        let mut i: usize = 0;
        assert(items_v.take(0) =~= Seq::<Seq<char>>::empty());
        assert(old(self)@.patterns + user_patterns(items_v.take(0)) =~= old(self)@.patterns);
        assert(old(self)@.rules + rule_lines(user_patterns(items_v.take(0)), source@)
            =~= old(self)@.rules);
        while i < items.len()
            invariant
                items_v == items@.map_values(|v: Vec<char>| v@),
                i <= items.len(),
                self@.patterns == old(self)@.patterns + user_patterns(items_v.take(i as int)),
                self@.rules == old(self)@.rules + rule_lines(
                    user_patterns(items_v.take(i as int)),
                    source@,
                ),
            decreases items.len() - i,
        {
            let t = trim_chars(&items[i]);
            assert(items_v.take(i + 1).drop_last() =~= items_v.take(i as int));
            assert(items_v.take(i + 1).last() == items@[i as int]@);
            let keep = t.len() > 0 && !(t[0] == '#');
            proof {
                if t@.len() > 0 {
                    assert(has_prefix(t@, "#"@) == (t@[0] == '#')) by {
                        reveal_strlit("#");
                        assert("#"@.len() == 1 && "#"@[0] == '#');
                        if t@[0] == '#' {
                            assert(t@.subrange(0, 1) =~= "#"@);
                        }
                        if has_prefix(t@, "#"@) {
                            assert(t@.subrange(0, 1)[0] == t@[0]);
                        }
                    }
                }
            }
            if keep {
                let line = tagged(&t, source);
                let ghost pre_p = self@.patterns;
                let ghost pre_r = self@.rules;
                self.patterns.push(string_of(&t));
                self.rules.push(line);
                assert(self@.patterns =~= pre_p.push(t@));
                assert(self@.rules =~= pre_r.push(rule_line(t@, source@)));
                proof {
                    let prev = user_patterns(items_v.take(i as int));
                    assert(user_patterns(items_v.take(i + 1)) == prev.push(t@));
                    assert(rule_lines(prev.push(t@), source@) =~= rule_lines(prev, source@).push(
                        rule_line(t@, source@),
                    ));
                    assert(self@.patterns =~= old(self)@.patterns + prev.push(t@));
                    assert(self@.rules =~= old(self)@.rules + rule_lines(prev.push(t@), source@));
                }
            }
            i += 1;
        }
        assert(items_v.take(items.len() as int) =~= items_v);
    }

    /// The engine for a framework, extra patterns and the `--no-ignore` switch.
    pub fn build(framework: &Framework, extra_patterns: &Vec<String>, no_ignore: bool, _show_hidden: bool) -> (r: Self)
        ensures
            r@ == build_spec(*framework, extra_patterns@.map_values(|s: String| s@), no_ignore),
    {
        let mut ig = Ignorer { patterns: Vec::new(), rules: Vec::new() };
        assert(ig@.patterns =~= Seq::<Seq<char>>::empty());
        assert(ig@.rules =~= Seq::<Seq<char>>::empty());
        if !no_ignore {
            let builtin = builtin_list();
            let src = chars_of("built-in");
            let mut i: usize = 0;
            while i < builtin.len()
                invariant
                    builtin@.map_values(|s: &str| s@) == builtin_patterns(),
                    src@ == "built-in"@,
                    i <= builtin.len(),
                    ig@.patterns == builtin_patterns().take(i as int),
                    ig@.rules == rule_lines(builtin_patterns().take(i as int), "built-in"@),
                decreases builtin.len() - i,
            {
                let p = chars_of(builtin[i]);
                assert(p@ == builtin_patterns()[i as int]);
                let ghost pre_p = ig@.patterns;
                let ghost pre_r = ig@.rules;
                ig.rules.push(tagged(&p, &src));
                ig.patterns.push(string_of(&p));
                assert(ig@.patterns =~= pre_p.push(p@));
                assert(ig@.rules =~= pre_r.push(rule_line(p@, src@)));
                assert(builtin_patterns().take(i + 1) =~= builtin_patterns().take(i as int).push(p@));
                assert(ig@.patterns =~= builtin_patterns().take(i + 1));
                assert(ig@.rules =~= rule_lines(builtin_patterns().take(i + 1), "built-in"@));
                i += 1;
            }
            let fw = framework.extra_ignores();
            let name = chars_of(framework.name());
            let ghost base_p = ig@.patterns;
            let ghost base_r = ig@.rules;
            let mut k: usize = 0;
            while k < fw.len()
                invariant
                    fw@.map_values(|s: &str| s@) == framework_ignores(*framework),
                    name@ == framework_name(*framework),
                    k <= fw.len(),
                    ig@.patterns == base_p + framework_ignores(*framework).take(k as int),
                    ig@.rules == base_r + rule_lines(
                        framework_ignores(*framework).take(k as int),
                        framework_name(*framework),
                    ),
                decreases fw.len() - k,
            {
                let p = chars_of(fw[k]);
                assert(p@ == framework_ignores(*framework)[k as int]);
                let ghost pre_p = ig@.patterns;
                let ghost pre_r = ig@.rules;
                ig.rules.push(tagged(&p, &name));
                ig.patterns.push(string_of(&p));
                assert(ig@.patterns =~= pre_p.push(p@));
                assert(ig@.rules =~= pre_r.push(rule_line(p@, name@)));
                assert(framework_ignores(*framework).take(k + 1) =~= framework_ignores(*framework).take(k as int).push(p@));
                assert(ig@.patterns =~= base_p + framework_ignores(*framework).take(k + 1));
                assert(ig@.rules =~= base_r + rule_lines(
                    framework_ignores(*framework).take(k + 1),
                    framework_name(*framework),
                ));
                k += 1;
            }
            assert(builtin_patterns().take(builtin_patterns().len() as int) =~= builtin_patterns());
            assert(framework_ignores(*framework).take(fw@.len() as int) =~= framework_ignores(
                *framework,
            ));
        }
        let mut items: Vec<Vec<char>> = Vec::new();
        let mut j: usize = 0;
        while j < extra_patterns.len()
            invariant
                j <= extra_patterns.len(),
                items@.map_values(|v: Vec<char>| v@) == extra_patterns@.map_values(
                    |s: String| s@,
                ).take(j as int),
            decreases extra_patterns.len() - j,
        {
            let ghost pre = items@.map_values(|v: Vec<char>| v@);
            items.push(chars_of(extra_patterns[j].as_str()));
            assert(items@.map_values(|v: Vec<char>| v@) =~= pre.push(extra_patterns@[j as int]@));
            assert(items@.map_values(|v: Vec<char>| v@) =~= extra_patterns@.map_values(
                |s: String| s@,
            ).take(j + 1));
            j += 1;
        }
        assert(extra_patterns@.map_values(|s: String| s@).take(extra_patterns.len() as int)
            =~= extra_patterns@.map_values(|s: String| s@));
        let src = chars_of("cli --ignore");
        let ghost before = ig@;
        ig.add_user(&items, &src);
        proof {
            let spec = build_spec(*framework, extra_patterns@.map_values(|s: String| s@), no_ignore);
            if no_ignore {
                assert(before.patterns =~= Seq::<Seq<char>>::empty());
            }
            assert(ig@.patterns =~= spec.patterns);
            assert(ig@.rules =~= spec.rules);
        }
        ig
    }

    /// Adds the patterns of a `.directreeignore` file, given its text when the
    /// file exists and could be read.
    pub fn load_local_ignore(&mut self, content: Option<&str>)
        ensures
            match content {
                Some(c) => final(self)@ == with_local_spec(old(self)@, c@),
                None => final(self)@ == old(self)@,
            },
    {
        if let Some(c) = content {
            let cc = chars_of(c);
            let ls = trimmed_lines(&cc);
            let src = chars_of(".directreeignore");
            self.add_user(&ls, &src);
            proof {
                let lv = ls@.map_values(|v: Vec<char>| v@);
                lemma_user_patterns_trimmed(lines(c@), lv);
            }
        }
    }

    /// Whether the entry at `path` is left out of the tree.
    pub fn is_ignored(&self, path: &str, show_hidden: bool) -> (r: bool)
        ensures
            r == ignored_spec(self@.patterns, path@, show_hidden),
    {
        let pc = chars_of(path);
        let name = match file_name_exec(&pc) {
            Some(n) => n,
            None => return false,
        };
        if !show_hidden && name.len() > 0 && name[0] == '.' {
            proof {
                reveal_strlit(".");
                assert(name@.subrange(0, 1) =~= "."@);
            }
            return true;
        }
        proof {
            reveal_strlit(".");
            if has_prefix(name@, "."@) {
                assert(name@.subrange(0, 1)[0] == '.');
            }
        }
        let name_s = string_of(&name);
        let mut i: usize = 0;
        while i < self.patterns.len()
            invariant
                i <= self.patterns.len(),
                self@.patterns == self.patterns@.map_values(|s: String| s@),
                file_name(path@) == Some(name@),
                name_s@ == name@,
                pc@ == path@,
                forall|k: int| 0 <= k < i ==> !pattern_hits(#[trigger] self@.patterns[k], name@, path@),
            decreases self.patterns.len() - i,
        {
            let pat = &self.patterns[i];
            assert(self@.patterns[i as int] == pat@);
            if glob_match(pat.as_str(), name_s.as_str()) {
                return true;
            }
            let pcs = chars_of(pat.as_str());
            if contains_char(&pcs, '/') {
                let t = trim_end_chars(&pcs, CharClass::One('/'));
                if contains_chars(&pc, &t) {
                    return true;
                }
                if contains_char(&t, '*') || contains_char(&t, '?') {
                    let g = if starts_with_text(&t, "**/") {
                        proof {
                            reveal_strlit("**/");
                        }
                        slice_chars(&t, 3, t.len())
                    } else {
                        slice_chars(&t, 0, t.len())
                    };
                    assert(g@ =~= path_glob_of(t@));
                    if glob_path_exec(&g, &pc) {
                        return true;
                    }
                }
            }
            i += 1;
        }
        false
    }
}

/// Trimming the already-trimmed lines again changes nothing.
proof fn lemma_user_patterns_trimmed(ls: Seq<Seq<char>>, tl: Seq<Seq<char>>)
    requires
        tl.len() == ls.len(),
        forall|i: int| 0 <= i < tl.len() ==> #[trigger] tl[i] == trim(ls[i]),
    ensures
        user_patterns(tl) == user_patterns(ls),
    decreases ls.len(),
{
    if ls.len() > 0 {
        lemma_user_patterns_trimmed(ls.drop_last(), tl.drop_last());
        crate::text::lemma_trim_idempotent(ls.last());
    }
}

/// What `--show-ignore` prints: the number of rules, then each rule indented.
pub open spec fn rules_report_spec(rules: Seq<Seq<char>>) -> Seq<char> {
    "directree ignore rules ("@ + decimal(rules.len()) + " total):\n\n"@ + rule_listing(rules)
}

pub open spec fn rule_listing(rules: Seq<Seq<char>>) -> Seq<char>
    decreases rules.len(),
{
    if rules.len() == 0 {
        Seq::empty()
    } else {
        rule_listing(rules.drop_last()) + "  "@ + rules.last() + "\n"@
    }
}

/// The report of the active ignore rules.
pub fn rules_report(ignorer: &Ignorer) -> (r: String)
    ensures
        r@ == rules_report_spec(ignorer@.rules),
{
    let rules = &ignorer.rules;
    let ghost rv = rules@.map_values(|s: String| s@);
    assert(ignorer@.rules == rv);
    let mut out = String::from_str("directree ignore rules (");
    out.append(string_of(&decimal_chars(rules.len())).as_str());
    out.append(" total):\n\n");
    let ghost head = out@;
    let mut i: usize = 0;
    assert(rv.take(0) =~= Seq::<Seq<char>>::empty());
    assert(out@ =~= head + rule_listing(rv.take(0)));
    while i < rules.len()
        invariant
            rv == rules@.map_values(|s: String| s@),
            i <= rules.len(),
            out@ == head + rule_listing(rv.take(i as int)),
        decreases rules.len() - i,
    {
        assert(rv.take(i + 1).drop_last() =~= rv.take(i as int));
        assert(rv.take(i + 1).last() == rules@[i as int]@);
        out.append("  ");
        out.append(rules[i].as_str());
        out.append("\n");
        i += 1;
    }
    assert(rv.take(rules.len() as int) =~= rv);
    out
}

// ───────────────────────────── laws ─────────────────────────────

/// `*` matches every name.
pub proof fn law_star_matches_everything(s: Seq<u8>)
    ensures
        glob(seq![42u8], s),
    decreases s.len(),
{
    let p = seq![42u8];
    assert(p.drop_first() =~= Seq::<u8>::empty());
    if s.len() > 0 {
        law_star_matches_everything(s.drop_first());
        assert(glob(p, s.drop_first()));
    } else {
        assert(glob(p.drop_first(), s));
    }
}

/// A pattern without wildcards matches exactly the name it spells (trailing
/// `'/'` aside).
pub proof fn law_plain_pattern_matches_only_itself(pattern: Seq<char>, name: Seq<char>)
    requires
        !pattern.contains('*'),
        !pattern.contains('?'),
    ensures
        glob_match_spec(pattern, name) == (trim_end_by(pattern, CharClass::One('/')) == name),
{
    let pat = trim_end_by(pattern, CharClass::One('/'));
    crate::text::lemma_trim_end_subseq(pattern, CharClass::One('/'));
    if pat.contains('*') {
        let k = choose|k: int| 0 <= k < pat.len() && pat[k] == '*';
        assert(pattern[k] == '*');
    }
    if pat.contains('?') {
        let k = choose|k: int| 0 <= k < pat.len() && pat[k] == '?';
        assert(pattern[k] == '?');
    }
}

/// Hidden entries are left out whenever dotfiles are not shown.
pub proof fn law_hidden_entries_ignored(patterns: Seq<Seq<char>>, path: Seq<char>)
    requires
        file_name(path) matches Some(n) && has_prefix(n, "."@),
    ensures
        ignored_spec(patterns, path, false),
{
}

/// With built-in rules off and no other patterns, only hidden entries are left out.
pub proof fn law_no_ignore_keeps_visible(fw: Framework, path: Seq<char>)
    ensures
        !ignored_spec(build_spec(fw, Seq::<Seq<char>>::empty(), true).patterns, path, true),
{
    assert(build_spec(fw, Seq::<Seq<char>>::empty(), true).patterns =~= Seq::<Seq<char>>::empty());
}


proof fn lemma_after_last_lacks(s: Seq<char>, c: char)
    ensures
        !after_last(s, c).contains(c),
    decreases s.len(),
{
    if s.len() > 0 && s.last() != c {
        lemma_after_last_lacks(s.drop_last(), c);
        let r = after_last(s, c);
        if r.contains(c) {
            let j = choose|j: int| 0 <= j < r.len() && r[j] == c;
            if j < r.len() - 1 {
                assert(after_last(s.drop_last(), c)[j] == c);
            }
        }
    }
}

/// A built-in name (`node_modules`, `.git`, ...) is left out unless built-in rules
/// are switched off, whatever else is ignored, whether dotfiles are shown, and what a
/// `.directreeignore` file adds.
pub proof fn law_builtin_names_always_ignored(
    fw: Framework,
    extra: Seq<Seq<char>>,
    local: Seq<char>,
    path: Seq<char>,
    show_hidden: bool,
    k: int,
)
    requires
        0 <= k < builtin_patterns().len(),
        file_name(path) == Some(builtin_patterns()[k]),
    ensures
        ignored_spec(build_spec(fw, extra, false).patterns, path, show_hidden),
        ignored_spec(with_local_spec(build_spec(fw, extra, false), local).patterns, path, show_hidden),
{
    let name = builtin_patterns()[k];
    lemma_after_last_lacks(strip_tail(path), '/');
    assert(name.len() > 0);
    assert(name[name.len() - 1] != '/');
    assert(trim_end_by(name, CharClass::One('/')) == name);
    let ps = build_spec(fw, extra, false).patterns;
    assert(ps[k] == name);
    assert(pattern_hits(ps[k], name, path));
    let ls = with_local_spec(build_spec(fw, extra, false), local).patterns;
    assert(ls[k] == name);
    assert(pattern_hits(ls[k], name, path));
}
/// The user patterns of two lists of lines, one after the other, are those of
/// the first list followed by those of the second.
pub proof fn lemma_user_patterns_concat(a: Seq<Seq<char>>, b: Seq<Seq<char>>)
    ensures
        user_patterns(a + b) == user_patterns(a) + user_patterns(b),
    decreases b.len(),
{
    if b.len() == 0 {
        assert(a + b =~= a);
        assert(user_patterns(a) + user_patterns(b) =~= user_patterns(a));
    } else {
        assert((a + b).drop_last() =~= a + b.drop_last());
        assert((a + b).last() == b.last());
        lemma_user_patterns_concat(a, b.drop_last());
        let t = trim(b.last());
        if t.len() > 0 && !has_prefix(t, "#"@) {
            assert(user_patterns(a) + user_patterns(b.drop_last()).push(t) =~= (user_patterns(a)
                + user_patterns(b.drop_last())).push(t));
        }
    }
}

/// Showing hidden entries never leaves out more: what is left out with
/// `--hidden` is left out without it too.
pub proof fn law_showing_hidden_ignores_less(patterns: Seq<Seq<char>>, path: Seq<char>)
    ensures
        ignored_spec(patterns, path, true) ==> ignored_spec(patterns, path, false),
{
}

/// `--no-ignore` never leaves out more: an entry that the rules built with it
/// leave out, the rules built without it leave out too.
pub proof fn law_no_ignore_ignores_less(
    fw: Framework,
    extra: Seq<Seq<char>>,
    path: Seq<char>,
    show_hidden: bool,
)
    ensures
        ignored_spec(build_spec(fw, extra, true).patterns, path, show_hidden) ==> ignored_spec(
            build_spec(fw, extra, false).patterns,
            path,
            show_hidden,
        ),
{
    let small = build_spec(fw, extra, true).patterns;
    let big = build_spec(fw, extra, false).patterns;
    let base = builtin_patterns() + framework_ignores(fw);
    assert(small =~= Seq::<Seq<char>>::empty() + user_patterns(extra));
    assert(big == base + user_patterns(extra));
    if ignored_spec(small, path, show_hidden) {
        let name = file_name(path).unwrap();
        if !(!show_hidden && has_prefix(name, "."@)) {
            let i = choose|i: int| 0 <= i < small.len() && pattern_hits(#[trigger] small[i], name, path);
            assert(big[base.len() + i] == small[i]);
            assert(pattern_hits(big[base.len() + i], name, path));
        }
    }
}

/// More `--ignore` patterns never leave out less: an entry left out with the
/// patterns `extra` is left out with `extra` followed by `more`.
pub proof fn law_more_patterns_ignore_more(
    fw: Framework,
    extra: Seq<Seq<char>>,
    more: Seq<Seq<char>>,
    no_ignore: bool,
    path: Seq<char>,
    show_hidden: bool,
)
    ensures
        ignored_spec(build_spec(fw, extra, no_ignore).patterns, path, show_hidden) ==> ignored_spec(
            build_spec(fw, extra + more, no_ignore).patterns,
            path,
            show_hidden,
        ),
{
    let small = build_spec(fw, extra, no_ignore).patterns;
    let big = build_spec(fw, extra + more, no_ignore).patterns;
    lemma_user_patterns_concat(extra, more);
    assert(big =~= small + user_patterns(more));
    if ignored_spec(small, path, show_hidden) {
        let name = file_name(path).unwrap();
        if !(!show_hidden && has_prefix(name, "."@)) {
            let i = choose|i: int| 0 <= i < small.len() && pattern_hits(#[trigger] small[i], name, path);
            assert(big[i] == small[i]);
        }
    }
}
/// `?` stands for exactly one byte.
pub proof fn law_question_mark_matches_one_byte(s: Seq<u8>)
    ensures
        glob(seq![63u8], s) <==> s.len() == 1,
{
    let p = seq![63u8];
    assert(p.drop_first() =~= Seq::<u8>::empty());
    if s.len() > 0 {
        assert(glob(p.drop_first(), s.drop_first()) <==> s.drop_first().len() == 0);
    }
}

/// A byte other than `*` and `?` matches only itself.
pub proof fn law_plain_byte_matches_itself(b: u8, s: Seq<u8>)
    requires
        b != 42u8,
        b != 63u8,
    ensures
        glob(seq![b], s) <==> s == seq![b],
{
    let p = seq![b];
    assert(p.drop_first() =~= Seq::<u8>::empty());
    if s.len() > 0 {
        assert(glob(p.drop_first(), s.drop_first()) <==> s.drop_first().len() == 0);
        if s.len() == 1 && s[0] == b {
            assert(s =~= seq![b]);
        }
    }
}

/// The names that are always left out, unless `--no-ignore` is given.
pub proof fn law_builtin_names()
    ensures
        builtin_patterns() == seq![
            ".git"@,
            ".svn"@,
            ".hg"@,
            "node_modules"@,
            ".DS_Store"@,
            "Thumbs.db"@,
            "desktop.ini"@,
            ".idea"@,
            ".vscode"@,
            ".cache"@,
            ".tmp"@,
            "tmp"@,
            "temp"@,
            ".turbo"@,
            ".parcel-cache"@,
            "coverage"@,
            ".nyc_output"@,
        ],
        build_spec(Framework::Unknown, Seq::<Seq<char>>::empty(), false).patterns == builtin_patterns(),
        build_spec(Framework::Rust, Seq::<Seq<char>>::empty(), false).patterns == builtin_patterns()
            + seq!["target"@],
{
    assert(user_patterns(Seq::<Seq<char>>::empty()) =~= Seq::<Seq<char>>::empty());
    crate::detector::law_framework_ignores();
    assert(builtin_patterns() + Seq::<Seq<char>>::empty() + Seq::<Seq<char>>::empty()
        =~= builtin_patterns());
    assert(builtin_patterns() + seq!["target"@] + Seq::<Seq<char>>::empty() =~= builtin_patterns()
        + seq!["target"@]);
}
/// Without `--hidden`, every entry whose name starts with `.` is left out, whatever
/// the patterns; with it, such an entry is left out only by a pattern.
pub proof fn law_hidden_names_are_left_out(patterns: Seq<Seq<char>>, path: Seq<char>)
    ensures
        file_name(path) is Some && has_prefix(file_name(path).unwrap(), "."@) ==> ignored_spec(
            patterns,
            path,
            false,
        ),
        file_name(path) is None ==> !ignored_spec(patterns, path, false) && !ignored_spec(patterns, path, true),
        ignored_spec(patterns, path, true) ==> exists|i: int|
            0 <= i < patterns.len() && pattern_hits(#[trigger] patterns[i], file_name(path).unwrap(), path),
{
}

/// The patterns taken from user lines are the non-empty lines that are not
/// comments, in order.
pub proof fn law_user_patterns_skip_blanks_and_comments(items: Seq<Seq<char>>)
    ensures
        forall|i: int|
            0 <= i < user_patterns(items).len() ==> (#[trigger] user_patterns(items)[i]).len() > 0
                && !has_prefix(user_patterns(items)[i], "#"@),
        user_patterns(items).len() <= items.len(),
    decreases items.len(),
{
    if items.len() > 0 {
        law_user_patterns_skip_blanks_and_comments(items.drop_last());
    }
}
} // verus!
