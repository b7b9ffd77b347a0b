//! Importance scores: which files matter most, by name, place, recent changes
//! and how often other files mention them.
//!
//! Every bonus is a whole number of half points, so scores are kept in half
//! points: a total of 6 is three points.
use vstd::prelude::*;
use crate::text::{
    lowercase, lines, trim, has_suffix, contains_seq, replace_char, split, decimal, utf8_len,
    parse_u64_spec, lemma_utf8_len_bound, lemma_split_nonempty, chars_of, string_of, lower_chars,
    one_of, contains_text, ends_with_text, replace_char_exec, split_chars, decimal_chars,
    trimmed_lines, lines_of, parse_u64, chars_eq,
};
use crate::paths::{file_name, file_stem, file_name_exec, stem_and_ext, rel_path, rel_path_exec};
use crate::tree::{TreeNode, NodeKind, NodeView, view_node, view_list, lemma_view_list_push};

verus! {

/// How important a file is, in half points, and why.
pub struct ImportanceScore {
    pub total_halves: u32,
    pub reasons: Vec<String>,
}

pub struct ScoreModel {
    pub total: nat,
    pub reasons: Seq<Seq<char>>,
}

impl View for ImportanceScore {
    type V = ScoreModel;

    open spec fn view(&self) -> ScoreModel {
        ScoreModel {
            total: self.total_halves as nat,
            reasons: self.reasons@.map_values(|r: String| r@),
        }
    }
}

/// The stars shown for a score: three from 8 points, two from 5, one from 3.
pub open spec fn stars(halves: nat) -> Option<Seq<char>> {
    if halves >= 16 {
        Some("★★★"@)
    } else if halves >= 10 {
        Some("★★"@)
    } else if halves >= 6 {
        Some("★"@)
    } else {
        None
    }
}

/// A file is important from 3 points on.
pub open spec fn important(halves: nat) -> bool {
    halves >= 6
}

impl ImportanceScore {
    pub fn is_important(&self) -> (r: bool)
        ensures
            r == important(self@.total),
    {
        self.total_halves >= 6
    }

    pub fn label(&self) -> (r: Option<&'static str>)
        ensures
            match r {
                Some(s) => stars(self@.total) == Some(s@),
                None => stars(self@.total) is None,
            },
    {
        if self.total_halves >= 16 {
            Some("★★★")
        } else if self.total_halves >= 10 {
            Some("★★")
        } else if self.total_halves >= 6 {
            Some("★")
        } else {
            None
        }
    }
}

/// A score has stars exactly when it is important.
pub proof fn law_label_iff_important(halves: nat)
    ensures
        stars(halves) is Some <==> important(halves),
{
}

pub open spec fn star_count(halves: nat) -> nat {
    if halves >= 16 {
        3
    } else if halves >= 10 {
        2
    } else if halves >= 6 {
        1
    } else {
        0
    }
}

/// A higher score never shows fewer stars.
pub proof fn law_stars_grow_with_score(a: nat, b: nat)
    requires
        a <= b,
    ensures
        star_count(a) <= star_count(b),
        stars(a) is Some ==> stars(b) is Some,
{
}

// ───────────────────────────── path facts ─────────────────────────────

pub open spec fn normal_segments(ps: Seq<Seq<char>>) -> nat
    decreases ps.len(),
{
    if ps.len() == 0 {
        0
    } else {
        normal_segments(ps.drop_last()) + (if ps.last().len() > 0 && ps.last() != seq!['.'] {
            1nat
        } else {
            0nat
        })
    }
}

/// `Path::components().count()`: a leading root or `.`, then each segment that is
/// neither empty nor `.`.
pub open spec fn component_count(p: Seq<char>) -> nat {
    let ps = split(p, '/');
    let lead: nat = if p.len() > 0 && p[0] == '/' {
        1
    } else if ps[0] == seq!['.'] {
        1
    } else {
        0
    };
    lead + normal_segments(ps)
}

fn is_dot(v: &Vec<char>) -> (r: bool)
    ensures
        r == (v@ == seq!['.']),
{
    let r = v.len() == 1 && v[0] == '.';
    if r {
        assert(v@ =~= seq!['.']);
    }
    r
}

fn component_count_exec(p: &Vec<char>) -> (r: u128)
    ensures
        r == component_count(p@),
{
    let ps = split_chars(p, '/');
    proof {
        lemma_split_nonempty(p@, '/');
    }
    let ghost pv = split(p@, '/');
    assert(ps@[0]@ == pv[0]);
    let mut n: u128 = if p.len() > 0 && p[0] == '/' {
        1
    } else if is_dot(&ps[0]) {
        1
    } else {
        0
    };
    let ghost lead = n as nat;
    let mut i: usize = 0;
    assert(pv.take(0) =~= Seq::<Seq<char>>::empty());
    while i < ps.len()
        invariant
            ps@.map_values(|q: Vec<char>| q@) == pv,
            i <= ps.len(),
            n == lead + normal_segments(pv.take(i as int)),
            normal_segments(pv.take(i as int)) <= i,
            lead <= 1,
            i <= usize::MAX,
        decreases ps.len() - i,
    {
        assert(pv.take(i + 1).drop_last() =~= pv.take(i as int));
        assert(pv.take(i + 1).last() == ps@[i as int]@);
        if ps[i].len() > 0 && !is_dot(&ps[i]) {
            n = n + 1;
        }
        i += 1;
    }
    assert(pv.take(ps.len() as int) =~= pv);
    n
}

// ───────────────────────────── scoring ─────────────────────────────

pub open spec fn entry_stems() -> Seq<Seq<char>> {
    seq!["main"@, "index"@, "app"@, "server"@, "mod"@]
}

pub open spec fn route_stems() -> Seq<Seq<char>> {
    seq!["layout"@, "page"@, "_app"@, "_document"@]
}

pub open spec fn key_configs() -> Seq<Seq<char>> {
    seq![
        "package.json"@,
        "cargo.toml"@,
        "go.mod"@,
        "pyproject.toml"@,
        "next.config.js"@,
        "next.config.ts"@,
        "next.config.mjs"@,
        "vite.config.ts"@,
        "tailwind.config.ts"@,
        "tsconfig.json"@,
        "docker-compose.yml"@,
        "dockerfile"@,
        ".env.example"@,
    ]
}

/// Names of core infrastructure: database, auth, middleware.
pub open spec fn core_infra(name: Seq<char>) -> bool {
    contains_seq(name, "supabase"@) || contains_seq(name, "prisma"@) || contains_seq(name, "database"@)
        || contains_seq(name, "auth"@) || contains_seq(name, "middleware"@)
}

pub open spec fn add_if(s: ScoreModel, cond: bool, halves: nat, reason: Seq<char>) -> ScoreModel {
    if cond {
        ScoreModel { total: s.total + halves, reasons: s.reasons.push(reason) }
    } else {
        s
    }
}

/// Shallow files weigh more: one point up to two components, half a point up to four.
pub open spec fn depth_bonus(depth: nat) -> nat {
    if depth <= 2 {
        4
    } else if depth <= 4 {
        2
    } else {
        0
    }
}

pub open spec fn recency_bonus(s: ScoreModel, days: Option<u32>) -> ScoreModel {
    match days {
        Some(d) => if d <= 1 {
            add_if(s, true, 6, "changed-today"@)
        } else if d <= 7 {
            add_if(s, true, 4, "changed-this-week"@)
        } else {
            s
        },
        None => s,
    }
}

pub open spec fn imported_reason(c: nat) -> Seq<char> {
    "imported-"@ + decimal(c) + "x"@
}

pub open spec fn import_bonus(s: ScoreModel, imports: Option<usize>) -> ScoreModel {
    match imports {
        Some(c) => if c >= 10 {
            add_if(s, true, 8, imported_reason(c as nat))
        } else if c >= 5 {
            add_if(s, true, 5, imported_reason(c as nat))
        } else if c >= 2 {
            add_if(s, true, 2, imported_reason(c as nat))
        } else {
            s
        },
        None => s,
    }
}

pub open spec fn or_empty(o: Option<Seq<char>>) -> Seq<char> {
    match o {
        Some(x) => x,
        None => Seq::empty(),
    }
}

/// The score of the file at `path` (relative to the scanned directory), given how many
/// days ago git last saw it change and how many files mention its stem.
pub open spec fn score_spec(path: Seq<char>, days: Option<u32>, imports: Option<usize>) -> ScoreModel {
    let name = lowercase(or_empty(file_name(path)));
    let stem = lowercase(or_empty(file_stem(path)));
    let ps = replace_char(lowercase(path), '\\', '/');
    let depth = component_count(path);
    let s0 = ScoreModel { total: 0, reasons: Seq::empty() };
    let s1 = add_if(s0, entry_stems().contains(stem), 8, "entry-point"@);
    let s2 = add_if(s1, route_stems().contains(stem), 6, "route-root"@);
    let s3 = add_if(s2, key_configs().contains(name), 6, "key-config"@);
    let s4 = add_if(s3, core_infra(name), 4, "core-infra"@);
    let s5 = ScoreModel { total: s4.total + depth_bonus(depth), ..s4 };
    let s6 = recency_bonus(s5, days);
    let s7 = import_bonus(s6, imports);
    add_if(
        s7,
        (has_suffix(name, ".d.ts"@) || contains_seq(ps, "/types/"@)) && depth <= 4,
        3,
        "types"@,
    )
}

fn add_reason(s: &mut ImportanceScore, cond: bool, halves: u32, reason: &str)
    requires
        old(s).total_halves + halves <= u32::MAX,
    ensures
        final(s)@ == add_if(old(s)@, cond, halves as nat, reason@),
        final(s).total_halves <= old(s).total_halves + halves,
{
    if cond {
        s.total_halves = s.total_halves + halves;
        s.reasons.push(reason.to_owned());
        assert(s@.reasons =~= old(s)@.reasons.push(reason@));
    }
}

fn or_empty_exec(o: Option<Vec<char>>) -> (r: Vec<char>)
    ensures
        r@ == or_empty(
            match o {
                Some(v) => Some(v@),
                None => None,
            },
        ),
{
    match o {
        Some(v) => v,
        None => Vec::new(),
    }
}

fn imported_reason_exec(c: usize) -> (r: String)
    ensures
        r@ == imported_reason(c as nat),
{
    let mut r = String::from_str("imported-");
    r.append(string_of(&decimal_chars(c)).as_str());
    r.append("x");
    r
}

fn recency_exec(s: &mut ImportanceScore, days: Option<u32>)
    requires
        old(s).total_halves <= 1000,
    ensures
        final(s)@ == recency_bonus(old(s)@, days),
        final(s).total_halves <= old(s).total_halves + 6,
{
    match days {
        Some(d) => {
            if d <= 1 {
                add_reason(s, true, 6, "changed-today");
            } else if d <= 7 {
                add_reason(s, true, 4, "changed-this-week");
            }
        },
        None => {},
    }
}

fn imports_exec(s: &mut ImportanceScore, imports: Option<usize>)
    requires
        old(s).total_halves <= 1000,
    ensures
        final(s)@ == import_bonus(old(s)@, imports),
        final(s).total_halves <= old(s).total_halves + 8,
{
    match imports {
        Some(c) => {
            if c >= 10 {
                add_reason(s, true, 8, imported_reason_exec(c).as_str());
            } else if c >= 5 {
                add_reason(s, true, 5, imported_reason_exec(c).as_str());
            } else if c >= 2 {
                add_reason(s, true, 2, imported_reason_exec(c).as_str());
            }
        },
        None => {},
    }
}

/// The file's name and stem, lowercased.
fn name_and_stem(p: &Vec<char>) -> (r: (Vec<char>, Vec<char>))
    ensures
        r.0@ == lowercase(or_empty(file_name(p@))),
        r.1@ == lowercase(or_empty(file_stem(p@))),
{
    let name = file_name_exec(p);
    let stem = match &name {
        Some(n) => Some(stem_and_ext(n).0),
        None => None,
    };
    (lower_chars(&or_empty_exec(name)), lower_chars(&or_empty_exec(stem)))
}

/// The importance score of one file.
pub fn score_file(path: &str, days: Option<u32>, imports: Option<usize>) -> (r: ImportanceScore)
    ensures
        r@ == score_spec(path@, days, imports),
        r.total_halves <= 45,
{
    let p = chars_of(path);
    let (name, stem) = name_and_stem(&p);
    let ps = replace_char_exec(&lower_chars(&p), '\\', '/');
    let depth = component_count_exec(&p);
    let mut s = ImportanceScore { total_halves: 0, reasons: Vec::new() };
    assert(s@.reasons =~= Seq::<Seq<char>>::empty());
    let entry = one_of(&stem, &["main", "index", "app", "server", "mod"]);
    proof {
        assert([("main"), ("index"), ("app"), ("server"), ("mod")]@.map_values(|l: &str| l@)
            =~= entry_stems());
    }
    add_reason(&mut s, entry, 8, "entry-point");
    let route = one_of(&stem, &["layout", "page", "_app", "_document"]);
    proof {
        assert([("layout"), ("page"), ("_app"), ("_document")]@.map_values(|l: &str| l@)
            =~= route_stems());
    }
    add_reason(&mut s, route, 6, "route-root");
    let config = one_of(
        &name,
        &[
            "package.json",
            "cargo.toml",
            "go.mod",
            "pyproject.toml",
            "next.config.js",
            "next.config.ts",
            "next.config.mjs",
            "vite.config.ts",
            "tailwind.config.ts",
            "tsconfig.json",
            "docker-compose.yml",
            "dockerfile",
            ".env.example",
        ],
    );
    proof {
        assert([
            ("package.json"),
            ("cargo.toml"),
            ("go.mod"),
            ("pyproject.toml"),
            ("next.config.js"),
            ("next.config.ts"),
            ("next.config.mjs"),
            ("vite.config.ts"),
            ("tailwind.config.ts"),
            ("tsconfig.json"),
            ("docker-compose.yml"),
            ("dockerfile"),
            (".env.example"),
        ]@.map_values(|l: &str| l@) =~= key_configs());
    }
    add_reason(&mut s, config, 6, "key-config");
    let infra = contains_text(&name, "supabase") || contains_text(&name, "prisma") || contains_text(
        &name,
        "database",
    ) || contains_text(&name, "auth") || contains_text(&name, "middleware");
    add_reason(&mut s, infra, 4, "core-infra");
    if depth <= 2 {
        s.total_halves = s.total_halves + 4;
    } else if depth <= 4 {
        s.total_halves = s.total_halves + 2;
    }
    recency_exec(&mut s, days);
    imports_exec(&mut s, imports);
    let types = (ends_with_text(&name, ".d.ts") || contains_text(&ps, "/types/")) && depth <= 4;
    add_reason(&mut s, types, 3, "types");
    s
}

// ───────────────────────────── tables ─────────────────────────────

/// The index of the first entry with key `k`.
pub open spec fn key_index<T>(t: Seq<(Seq<char>, T)>, k: Seq<char>) -> Option<nat>
    decreases t.len(),
{
    if t.len() == 0 {
        None
    } else if t[0].0 == k {
        Some(0)
    } else {
        match key_index(t.drop_first(), k) {
            Some(i) => Some(i + 1),
            None => None,
        }
    }
}

/// The value of the first entry with key `k`.
pub open spec fn find_value<T>(t: Seq<(Seq<char>, T)>, k: Seq<char>) -> Option<T> {
    match key_index(t, k) {
        Some(i) => Some(t[i as int].1),
        None => None,
    }
}

proof fn lemma_key_index<T>(t: Seq<(Seq<char>, T)>, k: Seq<char>, i: int)
    requires
        0 <= i <= t.len(),
        forall|j: int| 0 <= j < i ==> t[j].0 != k,
    ensures
        i < t.len() && t[i].0 == k ==> key_index(t, k) == Some(i as nat),
        i == t.len() ==> key_index(t, k) is None,
    decreases i,
{
    if i > 0 {
        lemma_key_index(t.drop_first(), k, i - 1);
    }
}

pub open spec fn table_keys<T>(t: Seq<(String, T)>) -> Seq<(Seq<char>, T)> {
    t.map_values(|e: (String, T)| (e.0@, e.1))
}

/// Looks a key up in a table, by content; the first entry wins.
pub fn lookup<T: Copy>(t: &Vec<(String, T)>, k: &Vec<char>) -> (r: Option<T>)
    ensures
        r == find_value(table_keys(t@), k@),
{
    let ghost tv = table_keys(t@);
    let mut i: usize = 0;
    while i < t.len()
        invariant
            tv == table_keys(t@),
            i <= t.len(),
            forall|j: int| 0 <= j < i ==> tv[j].0 != k@,
        decreases t.len() - i,
    {
        if chars_eq(&chars_of(t[i].0.as_str()), k) {
            proof {
                lemma_key_index(tv, k@, i as int);
            }
            return Some(t[i].1);
        }
        i += 1;
    }
    proof {
        lemma_key_index(tv, k@, i as int);
    }
    None
}

pub open spec fn scored_view(v: Seq<(String, ImportanceScore)>) -> Seq<(Seq<char>, ScoreModel)> {
    v.map_values(|e: (String, ImportanceScore)| (e.0@, e.1@))
}

/// The files with a positive score, in order, each with its score.
pub open spec fn scores_spec(
    files: Seq<Seq<char>>,
    recency: Seq<(Seq<char>, u32)>,
    imports: Seq<(Seq<char>, usize)>,
) -> Seq<(Seq<char>, ScoreModel)>
    decreases files.len(),
{
    if files.len() == 0 {
        Seq::empty()
    } else {
        let rest = scores_spec(files.drop_last(), recency, imports);
        let f = files.last();
        let s = score_spec(f, find_value(recency, f), find_value(imports, f));
        if s.total > 0 {
            rest.push((f, s))
        } else {
            rest
        }
    }
}

/// Scores each file with what git and the mention counts say of it; only files that
/// score above zero are kept.
pub fn score_files(
    files: &Vec<String>,
    recency: &Vec<(String, u32)>,
    imports: &Vec<(String, usize)>,
) -> (r: Vec<(String, ImportanceScore)>)
    ensures
        scored_view(r@) == scores_spec(
            files@.map_values(|f: String| f@),
            table_keys(recency@),
            table_keys(imports@),
        ),
{
    let ghost fv = files@.map_values(|f: String| f@);
    let mut r: Vec<(String, ImportanceScore)> = Vec::new();
    let mut i: usize = 0;
    assert(fv.take(0) =~= Seq::<Seq<char>>::empty());
    while i < files.len()
        invariant
            fv == files@.map_values(|f: String| f@),
            i <= files.len(),
            scored_view(r@) == scores_spec(fv.take(i as int), table_keys(recency@), table_keys(imports@)),
        decreases files.len() - i,
    {
        assert(fv.take(i + 1).drop_last() =~= fv.take(i as int));
        assert(fv.take(i + 1).last() == files@[i as int]@);
        let key = chars_of(files[i].as_str());
        let days = lookup(recency, &key);
        let count = lookup(imports, &key);
        let s = score_file(files[i].as_str(), days, count);
        if s.total_halves > 0 {
            let ghost before = scored_view(r@);
            r.push((files[i].clone(), s));
            assert(scored_view(r@) =~= before.push((files@[i as int]@, s@)));
        }
        i += 1;
    }
    assert(fv.take(files.len() as int) =~= fv);
    r
}

// ───────────────────────────── what git and grep said ─────────────────────────────

pub open spec fn days_between(now: u64, ts: u64) -> u32 {
    let elapsed: int = if now >= ts {
        now - ts
    } else {
        0
    };
    (elapsed / 86400) as u32
}

/// The table with `d` recorded for `k`, keeping the smaller value where `k` is known.
pub open spec fn keep_min(t: Seq<(Seq<char>, u32)>, k: Seq<char>, d: u32) -> Seq<(Seq<char>, u32)> {
    match key_index(t, k) {
        Some(i) => if d < t[i as int].1 {
            t.update(i as int, (k, d))
        } else {
            t
        },
        None => t.push((k, d)),
    }
}

pub struct RecencyState {
    pub ts: Option<u64>,
    pub table: Seq<(Seq<char>, u32)>,
}

/// One line of `git log --name-only --format=%ct`: a commit time, or a file changed
/// by the commit whose time came last.
pub open spec fn recency_step(now: u64, st: RecencyState, raw: Seq<char>) -> RecencyState {
    let line = trim(raw);
    if line.len() == 0 {
        st
    } else {
        match parse_u64_spec(line) {
            Some(ts) => RecencyState { ts: Some(ts), ..st },
            None => match st.ts {
                Some(ts) => RecencyState { table: keep_min(st.table, line, days_between(now, ts)), ..st },
                None => st,
            },
        }
    }
}

pub open spec fn recency_lines(now: u64, ls: Seq<Seq<char>>) -> RecencyState
    decreases ls.len(),
{
    if ls.len() == 0 {
        RecencyState { ts: None, table: Seq::empty() }
    } else {
        recency_step(now, recency_lines(now, ls.drop_last()), ls.last())
    }
}

/// For each file in a git log, how many whole days before `now` it last changed.
pub open spec fn recency_spec(now: u64, log: Seq<char>) -> Seq<(Seq<char>, u32)> {
    recency_lines(now, lines(log)).table
}

fn days_between_exec(now: u64, ts: u64) -> (r: u32)
    ensures
        r == days_between(now, ts),
{
    let elapsed: u64 = if now >= ts {
        now - ts
    } else {
        0
    };
    #[verifier::truncate]
    ((elapsed / 86400) as u32)
}

fn keep_min_exec(t: &mut Vec<(String, u32)>, k: &Vec<char>, d: u32)
    ensures
        table_keys(final(t)@) == keep_min(table_keys(old(t)@), k@, d),
{
    let ghost tv = table_keys(t@);
    let mut i: usize = 0;
    while i < t.len()
        invariant
            tv == table_keys(t@),
            t@ == old(t)@,
            i <= t.len(),
            forall|j: int| 0 <= j < i ==> tv[j].0 != k@,
        decreases t.len() - i,
    {
        if chars_eq(&chars_of(t[i].0.as_str()), k) {
            proof {
                lemma_key_index(tv, k@, i as int);
            }
            if d < t[i].1 {
                t.set(i, (string_of(k), d));
                assert(table_keys(t@) =~= tv.update(i as int, (k@, d)));
            }
            return;
        }
        i += 1;
    }
    proof {
        lemma_key_index(tv, k@, i as int);
    }
    t.push((string_of(k), d));
    assert(table_keys(t@) =~= tv.push((k@, d)));
}

/// Reads `git log --name-only --format=%ct` output: for each file, the days since its
/// most recent change, counted from `now` (seconds since the epoch).
pub fn parse_recency(now: u64, log: &str) -> (r: Vec<(String, u32)>)
    ensures
        table_keys(r@) == recency_spec(now, log@),
{
    let ls = trimmed_lines(&chars_of(log));
    let ghost l = lines(log@);
    let mut table: Vec<(String, u32)> = Vec::new();
    let mut ts: Option<u64> = None;
    let mut i: usize = 0;
    assert(l.take(0) =~= Seq::<Seq<char>>::empty());
    assert(table_keys(table@) =~= Seq::<(Seq<char>, u32)>::empty());
    while i < ls.len()
        invariant
            ls@.len() == l.len(),
            forall|j: int| 0 <= j < ls@.len() ==> #[trigger] ls@[j]@ == trim(l[j]),
            i <= ls.len(),
            recency_lines(now, l.take(i as int)) == (RecencyState { ts, table: table_keys(table@) }),
        decreases ls.len() - i,
    {
        assert(l.take(i + 1).drop_last() =~= l.take(i as int));
        assert(l.take(i + 1).last() == l[i as int]);
        let line = &ls[i];
        if line.len() > 0 {
            match parse_u64(line) {
                Some(t) => {
                    ts = Some(t);
                },
                None => match ts {
                    Some(t) => {
                        keep_min_exec(&mut table, line, days_between_exec(now, t));
                    },
                    None => {},
                },
            }
        }
        i += 1;
    }
    assert(l.take(ls.len() as int) =~= l);
    table
}

pub open spec fn count_nonempty(ls: Seq<Seq<char>>) -> nat
    decreases ls.len(),
{
    if ls.len() == 0 {
        0
    } else {
        count_nonempty(ls.drop_last()) + (if ls.last().len() > 0 {
            1nat
        } else {
            0nat
        })
    }
}

/// How many files `grep -rl` listed: its non-empty output lines.
pub fn count_import_lines(stdout: &str) -> (r: usize)
    ensures
        r == count_nonempty(lines(stdout@)),
{
    let ls = lines_of(&chars_of(stdout));
    let ghost l = lines(stdout@);
    let mut n: usize = 0;
    let mut i: usize = 0;
    assert(l.take(0) =~= Seq::<Seq<char>>::empty());
    while i < ls.len()
        invariant
            ls@.map_values(|q: Vec<char>| q@) == l,
            i <= ls.len(),
            n == count_nonempty(l.take(i as int)),
            n <= i,
        decreases ls.len() - i,
    {
        assert(l.take(i + 1).drop_last() =~= l.take(i as int));
        assert(l.take(i + 1).last() == ls@[i as int]@);
        if ls[i].len() > 0 {
            n = n + 1;
        }
        i += 1;
    }
    assert(l.take(ls.len() as int) =~= l);
    n
}

/// The stem to search for in other files, unless it is missing or shorter than three
/// bytes (short stems match too much).
pub open spec fn grep_stem(path: Seq<char>) -> Option<Seq<char>> {
    match file_stem(path) {
        Some(s) => if utf8_len(s) < 3 {
            None
        } else {
            Some(s)
        },
        None => None,
    }
}

pub fn grep_target(path: &str) -> (r: Option<String>)
    ensures
        match r {
            Some(s) => grep_stem(path@) == Some(s@),
            None => grep_stem(path@) is None,
        },
{
    let p = chars_of(path);
    match file_name_exec(&p) {
        Some(n) => {
            let sv = stem_and_ext(&n).0;
            let stem = string_of(&sv);
            proof {
                lemma_utf8_len_bound(stem@);
            }
            if sv.len() >= 3 || stem.as_str().len() >= 3 {
                Some(stem)
            } else {
                None
            }
        },
        None => None,
    }
}

// ───────────────────────────── stars in the tree ─────────────────────────────

/// The stars of the file at `path`: those of the first score recorded for its path
/// relative to `base`.
pub open spec fn mark_of(path: Seq<char>, scored: Seq<(Seq<char>, ScoreModel)>, base: Seq<char>) -> Option<
    Seq<char>,
> {
    match rel_path(path, base) {
        Some(r) => match key_index(scored, r) {
            Some(i) => stars(scored[i as int].1.total),
            None => None,
        },
        None => None,
    }
}

/// The tree under `n` with each important file's name followed by a space and
/// its stars.
pub open spec fn marked_view(n: NodeView, scored: Seq<(Seq<char>, ScoreModel)>, base: Seq<char>) -> NodeView
    decreases n, 1nat,
{
    NodeView {
        name: if n.kind is File {
            match mark_of(n.path, scored, base) {
                Some(m) => n.name + " "@ + m,
                None => n.name,
            }
        } else {
            n.name
        },
        children: marked_list(n.children, scored, base),
        ..n
    }
}

pub open spec fn marked_list(cs: Seq<NodeView>, scored: Seq<(Seq<char>, ScoreModel)>, base: Seq<char>) -> Seq<
    NodeView,
>
    decreases cs, 0nat,
{
    if cs.len() == 0 {
        Seq::<NodeView>::empty()
    } else {
        marked_list(cs.drop_last(), scored, base).push(marked_view(cs.last(), scored, base))
    }
}

fn score_index(scores: &Vec<(String, ImportanceScore)>, k: &Vec<char>) -> (r: Option<usize>)
    ensures
        match r {
            Some(i) => i < scores.len() && key_index(scored_view(scores@), k@) == Some(i as nat),
            None => key_index(scored_view(scores@), k@) is None,
        },
{
    let ghost sv = scored_view(scores@);
    let mut i: usize = 0;
    while i < scores.len()
        invariant
            sv == scored_view(scores@),
            i <= scores.len(),
            forall|j: int| 0 <= j < i ==> sv[j].0 != k@,
        decreases scores.len() - i,
    {
        if chars_eq(&chars_of(scores[i].0.as_str()), k) {
            proof {
                lemma_key_index(sv, k@, i as int);
            }
            return Some(i);
        }
        i += 1;
    }
    proof {
        lemma_key_index(sv, k@, i as int);
    }
    None
}

/// Follows the name of every important file under `node` with its stars, going by
/// the scores recorded for paths relative to `base`.
pub fn mark_important(node: &mut TreeNode, scores: &Vec<(String, ImportanceScore)>, base: &str)
    ensures
        view_node(*final(node)) == marked_view(view_node(*old(node)), scored_view(scores@), base@),
    decreases *old(node),
{
    let ghost sv = scored_view(scores@);
    if let NodeKind::File = node.kind {
        let p = chars_of(node.path.as_str());
        let b = chars_of(base);
        if let Some(rel) = rel_path_exec(&p, &b) {
            if let Some(i) = score_index(scores, &rel) {
                assert(sv[i as int].1 == scores@[i as int].1@);
                if let Some(l) = scores[i].1.label() {
                    node.name.append(" ");
                    node.name.append(l);
                }
            }
        }
    }
    let mut kids: Vec<TreeNode> = Vec::new();
    std::mem::swap(&mut kids, &mut node.children);
    let ghost orig = kids@;
    assert(orig == old(node).children@);
    assert(orig.len() <= usize::MAX) by {
        assert(kids@.len() == kids.len());
    }
    let mut done: Vec<TreeNode> = Vec::new();
    let mut i: usize = 0;
    assert(orig.skip(0) =~= orig);
    assert(view_list(done@) =~= Seq::<NodeView>::empty());
    assert(orig.take(0) =~= Seq::<TreeNode>::empty());
    while kids.len() > 0
        invariant
            orig == old(node).children@,
            orig.len() <= usize::MAX,
            sv == scored_view(scores@),
            i <= orig.len(),
            kids@ == orig.skip(i as int),
            view_list(done@) == marked_list(view_list(orig.take(i as int)), sv, base@),
        decreases kids.len(),
    {
        assert(orig.skip(i as int).len() == orig.len() - i);
        let mut c = kids.remove(0);
        assert(c == orig[i as int]);
        assert(orig.skip(i as int).drop_first() =~= orig.skip(i + 1));
        proof {
            assert(decreases_to!(*old(node) => old(node).children));
            assert(decreases_to!(old(node).children => old(node).children@));
            assert(decreases_to!(old(node).children@ => old(node).children@[i as int]));
            lemma_view_list_push(orig.take(i as int), orig[i as int]);
            assert(orig.take(i as int).push(orig[i as int]) =~= orig.take(i + 1));
        }
        let ghost before = done@;
        let ghost prev = view_list(orig.take(i as int));
        assert(prev.push(view_node(c)).drop_last() =~= prev);
        mark_important(&mut c, scores, base);
        proof {
            lemma_view_list_push(before, c);
        }
        done.push(c);
        i += 1;
    }
    assert(orig.take(i as int) =~= orig);
    node.children = done;
}
proof fn lemma_unmarked_view(n: NodeView, base: Seq<char>)
    ensures
        marked_view(n, Seq::<(Seq<char>, ScoreModel)>::empty(), base) == n,
    decreases n, 1nat,
{
    assert(decreases_to!(n => n.children));
    lemma_unmarked_list(n.children, base);
    let e = Seq::<(Seq<char>, ScoreModel)>::empty();
    match rel_path(n.path, base) {
        Some(r) => {
            assert(key_index(e, r) is None);
        },
        None => {},
    }
}

proof fn lemma_unmarked_list(cs: Seq<NodeView>, base: Seq<char>)
    ensures
        marked_list(cs, Seq::<(Seq<char>, ScoreModel)>::empty(), base) == cs,
    decreases cs, 0nat,
{
    if cs.len() > 0 {
        lemma_unmarked_list(cs.drop_last(), base);
        assert(decreases_to!(cs => cs[cs.len() - 1]));
        lemma_unmarked_view(cs[cs.len() - 1], base);
        assert(cs.drop_last().push(cs.last()) =~= cs);
    } else {
        assert(marked_list(cs, Seq::<(Seq<char>, ScoreModel)>::empty(), base) =~= cs);
    }
}

/// Without any score, marking leaves the tree as it is.
pub proof fn law_no_scores_no_stars(n: NodeView, base: Seq<char>)
    ensures
        marked_view(n, Seq::<(Seq<char>, ScoreModel)>::empty(), base) == n,
{
    lemma_unmarked_view(n, base);
}
// ───────────────────────────── laws of the score ─────────────────────────────

pub open spec fn tag_if(c: bool, r: Seq<char>) -> Seq<Seq<char>> {
    if c {
        seq![r]
    } else {
        Seq::<Seq<char>>::empty()
    }
}

pub open spec fn halves_if(c: bool, h: nat) -> nat {
    if c {
        h
    } else {
        0
    }
}

proof fn lemma_key_config_names(name: Seq<char>)
    ensures
        key_configs().contains(name) <==> (name == "package.json"@ || name == "cargo.toml"@ || name == "go.mod"@ || name == "pyproject.toml"@ || name == "next.config.js"@ || name == "next.config.ts"@ || name == "next.config.mjs"@ || name == "vite.config.ts"@ || name == "tailwind.config.ts"@ || name == "tsconfig.json"@ || name == "docker-compose.yml"@ || name == "dockerfile"@ || name == ".env.example"@),
{
    let l = key_configs();
    if l.contains(name) {
        let i = choose|i: int| 0 <= i < l.len() && l[i] == name;
    }
    if name == "package.json"@ { assert(l[0] == name); }
    if name == "cargo.toml"@ { assert(l[1] == name); }
    if name == "go.mod"@ { assert(l[2] == name); }
    if name == "pyproject.toml"@ { assert(l[3] == name); }
    if name == "next.config.js"@ { assert(l[4] == name); }
    if name == "next.config.ts"@ { assert(l[5] == name); }
    if name == "next.config.mjs"@ { assert(l[6] == name); }
    if name == "vite.config.ts"@ { assert(l[7] == name); }
    if name == "tailwind.config.ts"@ { assert(l[8] == name); }
    if name == "tsconfig.json"@ { assert(l[9] == name); }
    if name == "docker-compose.yml"@ { assert(l[10] == name); }
    if name == "dockerfile"@ { assert(l[11] == name); }
    if name == ".env.example"@ { assert(l[12] == name); }
}

proof fn lemma_named_stems(stem: Seq<char>)
    ensures
        entry_stems().contains(stem) <==> (stem == "main"@ || stem == "index"@ || stem == "app"@
            || stem == "server"@ || stem == "mod"@),
        route_stems().contains(stem) <==> (stem == "layout"@ || stem == "page"@ || stem == "_app"@
            || stem == "_document"@),
{
    let l = entry_stems();
    if l.contains(stem) {
        let i = choose|i: int| 0 <= i < l.len() && l[i] == stem;
    }
    if stem == "main"@ { assert(l[0] == stem); }
    if stem == "index"@ { assert(l[1] == stem); }
    if stem == "app"@ { assert(l[2] == stem); }
    if stem == "server"@ { assert(l[3] == stem); }
    if stem == "mod"@ { assert(l[4] == stem); }
    let m = route_stems();
    if m.contains(stem) {
        let i = choose|i: int| 0 <= i < m.len() && m[i] == stem;
    }
    if stem == "layout"@ { assert(m[0] == stem); }
    if stem == "page"@ { assert(m[1] == stem); }
    if stem == "_app"@ { assert(m[2] == stem); }
    if stem == "_document"@ { assert(m[3] == stem); }
}

/// A file's score, bonus by bonus, from its lowercased stem `stem`, lowercased
/// name `name` and lowercased path `lp`, in half points: 8 for an entry point
/// (main, index, app, server, mod), 6 for a route root (layout, page, _app,
/// _document), 6 for a key config, 4 for core infrastructure, 4 or 2 for a path of
/// at most two or four components, 6 or 4 for a change today or this week, 8, 5 or
/// 2 for 10, 5 or 2 files that mention it, and 3 for type definitions at most four
/// deep.
pub proof fn law_score_adds_its_bonuses(
    path: Seq<char>,
    days: Option<u32>,
    imports: Option<usize>,
    stem: Seq<char>,
    name: Seq<char>,
    lp: Seq<char>,
)
    requires
        stem == lowercase(or_empty(file_stem(path))),
        name == lowercase(or_empty(file_name(path))),
        lp == replace_char(lowercase(path), '\\', '/'),
    ensures
        score_spec(path, days, imports).total == halves_if(
            stem == "main"@ || stem == "index"@ || stem == "app"@ || stem == "server"@ || stem == "mod"@,
            8,
        ) + halves_if(stem == "layout"@ || stem == "page"@ || stem == "_app"@ || stem == "_document"@, 6)
            + halves_if((name == "package.json"@ || name == "cargo.toml"@ || name == "go.mod"@ || name == "pyproject.toml"@ || name == "next.config.js"@ || name == "next.config.ts"@ || name == "next.config.mjs"@ || name == "vite.config.ts"@ || name == "tailwind.config.ts"@ || name == "tsconfig.json"@ || name == "docker-compose.yml"@ || name == "dockerfile"@ || name == ".env.example"@), 6) + halves_if((contains_seq(name, "supabase"@) || contains_seq(name, "prisma"@) || contains_seq(name, "database"@) || contains_seq(name, "auth"@) || contains_seq(name, "middleware"@)), 4) + (if component_count(path) <= 2 {
            4nat
        } else if component_count(path) <= 4 {
            2nat
        } else {
            0nat
        }) + (match days {
            Some(d) => if d <= 1 {
                6nat
            } else if d <= 7 {
                4nat
            } else {
                0nat
            },
            None => 0nat,
        }) + (match imports {
            Some(c) => if c >= 10 {
                8nat
            } else if c >= 5 {
                5nat
            } else if c >= 2 {
                2nat
            } else {
                0nat
            },
            None => 0nat,
        }) + halves_if(
            (has_suffix(name, ".d.ts"@) || contains_seq(lp, "/types/"@)) && component_count(path) <= 4,
            3,
        ),
{
    lemma_named_stems(stem);
    lemma_key_config_names(name);
}

/// The reasons of a file's score name its bonuses, in the order above.
pub proof fn law_score_reasons_name_its_bonuses(
    path: Seq<char>,
    days: Option<u32>,
    imports: Option<usize>,
    stem: Seq<char>,
    name: Seq<char>,
    lp: Seq<char>,
)
    requires
        stem == lowercase(or_empty(file_stem(path))),
        name == lowercase(or_empty(file_name(path))),
        lp == replace_char(lowercase(path), '\\', '/'),
    ensures
        score_spec(path, days, imports).reasons == tag_if(
            stem == "main"@ || stem == "index"@ || stem == "app"@ || stem == "server"@ || stem == "mod"@,
            "entry-point"@,
        ) + tag_if(stem == "layout"@ || stem == "page"@ || stem == "_app"@ || stem == "_document"@, "route-root"@)
            + tag_if((name == "package.json"@ || name == "cargo.toml"@ || name == "go.mod"@ || name == "pyproject.toml"@ || name == "next.config.js"@ || name == "next.config.ts"@ || name == "next.config.mjs"@ || name == "vite.config.ts"@ || name == "tailwind.config.ts"@ || name == "tsconfig.json"@ || name == "docker-compose.yml"@ || name == "dockerfile"@ || name == ".env.example"@), "key-config"@) + tag_if((contains_seq(name, "supabase"@) || contains_seq(name, "prisma"@) || contains_seq(name, "database"@) || contains_seq(name, "auth"@) || contains_seq(name, "middleware"@)), "core-infra"@) + (
        match days {
            Some(d) => if d <= 1 {
                seq!["changed-today"@]
            } else if d <= 7 {
                seq!["changed-this-week"@]
            } else {
                Seq::<Seq<char>>::empty()
            },
            None => Seq::<Seq<char>>::empty(),
        }) + (match imports {
            Some(c) => if c >= 2 {
                seq!["imported-"@ + decimal(c as nat) + "x"@]
            } else {
                Seq::<Seq<char>>::empty()
            },
            None => Seq::<Seq<char>>::empty(),
        }) + tag_if(
            (has_suffix(name, ".d.ts"@) || contains_seq(lp, "/types/"@)) && component_count(path) <= 4,
            "types"@,
        ),{
    let e = Seq::<Seq<char>>::empty();
    let entry = stem == "main"@ || stem == "index"@ || stem == "app"@ || stem == "server"@ || stem == "mod"@;
    let route = stem == "layout"@ || stem == "page"@ || stem == "_app"@ || stem == "_document"@;
    lemma_named_stems(stem);
    lemma_key_config_names(name);
    let depth = component_count(path);
    let s0 = ScoreModel { total: 0, reasons: e };
    let s1 = add_if(s0, entry_stems().contains(stem), 8, "entry-point"@);
    let r1 = tag_if(entry, "entry-point"@);
    assert(s1.reasons =~= r1);
    let s2 = add_if(s1, route_stems().contains(stem), 6, "route-root"@);
    let r2 = r1 + tag_if(route, "route-root"@);
    assert(s2.reasons =~= r2);
    let s3 = add_if(s2, key_configs().contains(name), 6, "key-config"@);
    let r3 = r2 + tag_if((name == "package.json"@ || name == "cargo.toml"@ || name == "go.mod"@ || name == "pyproject.toml"@ || name == "next.config.js"@ || name == "next.config.ts"@ || name == "next.config.mjs"@ || name == "vite.config.ts"@ || name == "tailwind.config.ts"@ || name == "tsconfig.json"@ || name == "docker-compose.yml"@ || name == "dockerfile"@ || name == ".env.example"@), "key-config"@);
    assert(s3.reasons =~= r3);
    let s4 = add_if(s3, core_infra(name), 4, "core-infra"@);
    let r4 = r3 + tag_if((contains_seq(name, "supabase"@) || contains_seq(name, "prisma"@) || contains_seq(name, "database"@) || contains_seq(name, "auth"@) || contains_seq(name, "middleware"@)), "core-infra"@);
    assert(s4.reasons =~= r4);
    let s5 = ScoreModel { total: s4.total + depth_bonus(depth), ..s4 };
    let s6 = recency_bonus(s5, days);
    let r6 = r4 + (match days {
        Some(d) => if d <= 1 {
            seq!["changed-today"@]
        } else if d <= 7 {
            seq!["changed-this-week"@]
        } else {
            Seq::<Seq<char>>::empty()
        },
        None => Seq::<Seq<char>>::empty(),
    });
    assert(s6.reasons =~= r6);
    let s7 = import_bonus(s6, imports);
    let r7 = r6 + (match imports {
        Some(c) => if c >= 2 {
            seq!["imported-"@ + decimal(c as nat) + "x"@]
        } else {
            Seq::<Seq<char>>::empty()
        },
        None => Seq::<Seq<char>>::empty(),
    });
    assert(s7.reasons =~= r7);
    let ty = (has_suffix(name, ".d.ts"@) || contains_seq(lp, "/types/"@)) && depth <= 4;
    let s8 = add_if(s7, ty, 3, "types"@);
    assert(s8.reasons =~= r7 + tag_if(ty, "types"@));
    assert(s8 == score_spec(path, days, imports));
}
/// Three stars from 8 points (16 halves), two from 5, one from 3, none below; a
/// file is important from 3 points on.
pub proof fn law_star_thresholds(h: nat)
    ensures
        h >= 16 ==> stars(h) == Some("★★★"@),
        10 <= h < 16 ==> stars(h) == Some("★★"@),
        6 <= h < 10 ==> stars(h) == Some("★"@),
        h < 6 ==> stars(h) is None,
        important(h) <==> h >= 6,
{
}
} // verus!
