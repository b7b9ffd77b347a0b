//! The global `~/.directreerc` configuration: a minimal TOML-like format.
//!
//! Supported lines:
//!   `default_depth = 4`
//!   `ignore = ["*.log", "tmp/"]`
use vstd::prelude::*;
use crate::cli::{Args, ArgsView};
use crate::text::{
    CharClass, trim, trim_by, split, lines, has_prefix, parse_usize_spec, chars_of, string_of,
    trim_chars, trim_chars_by, trim_start_chars, split_chars, starts_with_text, slice_chars,
    parse_usize, trimmed_lines,
};

verus! {

pub struct GlobalConfig {
    pub default_depth: Option<usize>,
    pub ignore: Option<Vec<String>>,
}

pub struct ConfigView {
    pub default_depth: Option<usize>,
    pub ignore: Option<Seq<Seq<char>>>,
}

impl View for GlobalConfig {
    type V = ConfigView;

    open spec fn view(&self) -> ConfigView {
        ConfigView {
            default_depth: self.default_depth,
            ignore: match self.ignore {
                Some(v) => Some(v@.map_values(|s: String| s@)),
                None => None,
            },
        }
    }
}

pub open spec fn default_config() -> ConfigView {
    ConfigView { default_depth: None, ignore: None }
}

impl Default for GlobalConfig {
    fn default() -> (r: Self)
        ensures
            r@ == default_config(),
    {
        GlobalConfig { default_depth: None, ignore: None }
    }
}

/// One entry of a string array: trimmed, then stripped of double and single quotes.
pub open spec fn array_item(p: Seq<char>) -> Seq<char> {
    trim_by(trim_by(trim(p), CharClass::One('"')), CharClass::One('\''))
}

/// The entries of the pieces, without the empty ones.
pub open spec fn array_items(parts: Seq<Seq<char>>) -> Seq<Seq<char>>
    decreases parts.len(),
{
    if parts.len() == 0 {
        Seq::<Seq<char>>::empty()
    } else {
        let rest = array_items(parts.drop_last());
        let item = array_item(parts.last());
        if item.len() > 0 {
            rest.push(item)
        } else {
            rest
        }
    }
}

/// `["a", "b", "c"]` read as its entries.
pub open spec fn string_array_spec(s: Seq<char>) -> Seq<Seq<char>> {
    array_items(split(trim_by(s, CharClass::Two('[', ']')), ','))
}

/// The value after a key: leading spaces and `=` signs dropped, then trimmed.
pub open spec fn value_after(rest: Seq<char>) -> Seq<char> {
    trim(crate::text::trim_start_by(rest, CharClass::Two(' ', '=')))
}

/// The configuration after reading one trimmed line.
pub open spec fn rc_line(cfg: ConfigView, line: Seq<char>) -> ConfigView {
    if line.len() == 0 || has_prefix(line, "#"@) {
        cfg
    } else if has_prefix(line, "default_depth"@) {
        ConfigView {
            default_depth: parse_usize_spec(value_after(line.skip("default_depth"@.len() as int))),
            ..cfg
        }
    } else if has_prefix(line, "ignore"@) {
        ConfigView {
            ignore: Some(string_array_spec(value_after(line.skip("ignore"@.len() as int)))),
            ..cfg
        }
    } else {
        cfg
    }
}

pub open spec fn rc_lines(ls: Seq<Seq<char>>) -> ConfigView
    decreases ls.len(),
{
    if ls.len() == 0 {
        default_config()
    } else {
        rc_line(rc_lines(ls.drop_last()), trim(ls.last()))
    }
}

/// The configuration that the text of a config file sets.
pub open spec fn parse_rc_spec(content: Seq<char>) -> ConfigView {
    rc_lines(lines(content))
}

/// Parses `["a", "b", "c"]` into its entries.
pub fn parse_string_array(s: &str) -> (r: Vec<String>)
    ensures
        r@.map_values(|x: String| x@) == string_array_spec(s@),
{
    let c = chars_of(s);
    let inner = trim_chars_by(&c, CharClass::Two('[', ']'));
    let parts = split_chars(&inner, ',');
    let ghost pv = parts@.map_values(|p: Vec<char>| p@);
    let mut out: Vec<String> = Vec::new();
    let mut i: usize = 0;
    assert(pv.take(0) =~= Seq::<Seq<char>>::empty());
    while i < parts.len()
        invariant
            pv == parts@.map_values(|p: Vec<char>| p@),
            i <= parts.len(),
            out@.map_values(|x: String| x@) == array_items(pv.take(i as int)),
        decreases parts.len() - i,
    {
        let t = trim_chars(&parts[i]);
        let t2 = trim_chars_by(&t, CharClass::One('"'));
        let item = trim_chars_by(&t2, CharClass::One('\''));
        assert(pv.take(i + 1).drop_last() =~= pv.take(i as int));
        assert(pv.take(i + 1).last() == parts@[i as int]@);
        if item.len() > 0 {
            let ghost pre = out@.map_values(|x: String| x@);
            out.push(string_of(&item));
            assert(out@.map_values(|x: String| x@) =~= pre.push(item@));
        }
        i += 1;
    }
    assert(pv.take(parts.len() as int) =~= pv);
    out
}

fn value_after_exec(line: &Vec<char>, key: &str) -> (r: Vec<char>)
    requires
        has_prefix(line@, key@),
    ensures
        r@ == value_after(line@.skip(key@.len() as int)),
{
    let k = chars_of(key);
    let rest = slice_chars(line, k.len(), line.len());
    assert(rest@ =~= line@.skip(key@.len() as int));
    let t = trim_start_chars(&rest, CharClass::Two(' ', '='));
    trim_chars(&t)
}

/// Parses the text of a config file.
pub fn parse_rc(content: &str) -> (r: GlobalConfig)
    ensures
        r@ == parse_rc_spec(content@),
{
    let c = chars_of(content);
    let ls = trimmed_lines(&c);
    let ghost lv = lines(content@);
    let mut cfg = GlobalConfig::default();
    let mut i: usize = 0;
    assert(lv.take(0) =~= Seq::<Seq<char>>::empty());
    while i < ls.len()
        invariant
            lv == lines(content@),
            ls@.len() == lv.len(),
            forall|j: int| 0 <= j < ls@.len() ==> #[trigger] ls@[j]@ == trim(lv[j]),
            i <= ls.len(),
            cfg@ == rc_lines(lv.take(i as int)),
        decreases ls.len() - i,
    {
        let line = &ls[i];
        assert(lv.take(i + 1).drop_last() =~= lv.take(i as int));
        assert(lv.take(i + 1).last() == lv[i as int]);
        assert(line@ == trim(lv[i as int]));
        let comment = line.len() > 0 && line[0] == '#';
        proof {
            reveal_strlit("#");
            if line@.len() > 0 {
                if line@[0] == '#' {
                    assert(line@.subrange(0, 1) =~= "#"@);
                }
                if has_prefix(line@, "#"@) {
                    assert(line@.subrange(0, 1)[0] == line@[0]);
                }
            }
        }
        if line.len() == 0 || comment {
        } else if starts_with_text(line, "default_depth") {
            let v = value_after_exec(line, "default_depth");
            cfg.default_depth = parse_usize(&v);
        } else if starts_with_text(line, "ignore") {
            let v = value_after_exec(line, "ignore");
            let vs = string_of(&v);
            cfg.ignore = Some(parse_string_array(vs.as_str()));
        }
        i += 1;
    }
    assert(lv.take(ls.len() as int) =~= lv);
    cfg
}

impl GlobalConfig {
    /// The configuration from the text of the config file, when the file
    /// exists and could be read; the defaults otherwise.
    pub fn load(content: Option<&str>) -> (r: Self)
        ensures
            r@ == match content {
                Some(c) => parse_rc_spec(c@),
                None => default_config(),
            },
    {
        match content {
            Some(c) => parse_rc(c),
            None => GlobalConfig::default(),
        }
    }

    /// The configured ignore patterns (none when unset).
    pub fn extra_ignores(&self) -> (r: Vec<String>)
        ensures
            r@.map_values(|s: String| s@) == match self@.ignore {
                Some(v) => v,
                None => Seq::<Seq<char>>::empty(),
            },
    {
        let mut out: Vec<String> = Vec::new();
        match &self.ignore {
            Some(v) => {
                let mut i: usize = 0;
                while i < v.len()
                    invariant
                        i <= v.len(),
                        out@.map_values(|s: String| s@) == v@.map_values(|s: String| s@).take(
                            i as int,
                        ),
                    decreases v.len() - i,
                {
                    let ghost pre = out@.map_values(|s: String| s@);
                    let item = v[i].clone();
                    assert(item@ == v@[i as int]@);
                    out.push(item);
                    assert(out@.map_values(|s: String| s@) =~= pre.push(v@[i as int]@));
                    assert(out@.map_values(|s: String| s@) =~= v@.map_values(|s: String| s@).take(
                        i + 1,
                    ));
                    i += 1;
                }
                assert(v@.map_values(|s: String| s@).take(v.len() as int) =~= v@.map_values(
                    |s: String| s@,
                ));
            },
            None => {
                assert(out@.map_values(|s: String| s@) =~= Seq::<Seq<char>>::empty());
            },
        }
        out
    }
}


/// The patterns given with `--ignore`: the comma-separated pieces, trimmed, without
/// the empty ones.
pub open spec fn cli_patterns(parts: Seq<Seq<char>>) -> Seq<Seq<char>>
    decreases parts.len(),
{
    if parts.len() == 0 {
        Seq::empty()
    } else {
        let t = trim(parts.last());
        cli_patterns(parts.drop_last()) + (if t.len() > 0 {
            seq![t]
        } else {
            Seq::<Seq<char>>::empty()
        })
    }
}

/// The extra ignore patterns of a run: the configured ones, then those of `--ignore`.
pub fn merge_ignores(config: &GlobalConfig, cli: Option<&str>) -> (r: Vec<String>)
    ensures
        r@.map_values(|s: String| s@) == (match config@.ignore {
            Some(v) => v,
            None => Seq::<Seq<char>>::empty(),
        }) + (match cli {
            Some(c) => cli_patterns(split(c@, ',')),
            None => Seq::<Seq<char>>::empty(),
        }),
{
    let mut out = config.extra_ignores();
    let ghost base = out@.map_values(|s: String| s@);
    match cli {
        Some(c) => {
            let parts = split_chars(&chars_of(c), ',');
            let ghost pv = split(c@, ',');
            let mut i: usize = 0;
            assert(pv.take(0) =~= Seq::<Seq<char>>::empty());
            assert(out@.map_values(|s: String| s@) =~= base + cli_patterns(pv.take(0)));
            while i < parts.len()
                invariant
                    parts@.map_values(|q: Vec<char>| q@) == pv,
                    i <= parts.len(),
                    out@.map_values(|s: String| s@) == base + cli_patterns(pv.take(i as int)),
                decreases parts.len() - i,
            {
                assert(pv.take(i + 1).drop_last() =~= pv.take(i as int));
                assert(pv.take(i + 1).last() == parts@[i as int]@);
                let t = trim_chars(&parts[i]);
                let ghost before = out@.map_values(|s: String| s@);
                if t.len() > 0 {
                    out.push(string_of(&t));
                    assert(out@.map_values(|s: String| s@) =~= before + seq![t@]);
                } else {
                    assert(before + Seq::<Seq<char>>::empty() =~= before);
                }
                assert(out@.map_values(|s: String| s@) =~= base + cli_patterns(pv.take(i + 1)));
                i += 1;
            }
            assert(pv.take(parts.len() as int) =~= pv);
        },
        None => {
            assert(base + Seq::<Seq<char>>::empty() =~= base);
        },
    }
    out
}

/// A depth given on the command line wins; without one (0), the configured default applies.
pub fn apply_config(args: &mut Args, config: &GlobalConfig)
    ensures
        final(args)@ == (if old(args)@.depth == 0 && config@.default_depth is Some {
            ArgsView { depth: config@.default_depth->0, ..old(args)@ }
        } else {
            old(args)@
        }),
{
    if args.depth == 0 {
        match config.default_depth {
            Some(d) => {
                args.depth = d;
            },
            None => {},
        }
    }
}
// ───────────────────────────── laws ─────────────────────────────

/// A config line sets at most the key it names: blank lines, comments and other
/// keys change nothing, a `default_depth` line sets only the default depth (from
/// the number after the key, spaces and `=`), an `ignore` line only the patterns
/// (from the array after it).
pub proof fn law_config_lines_set_their_key(cfg: ConfigView, line: Seq<char>)
    ensures
        line.len() == 0 || has_prefix(line, "#"@) ==> rc_line(cfg, line) == cfg,
        !has_prefix(line, "default_depth"@) && !has_prefix(line, "ignore"@) ==> rc_line(cfg, line)
            == cfg,
        line.len() > 0 && !has_prefix(line, "#"@) && has_prefix(line, "default_depth"@) ==> rc_line(
            cfg,
            line,
        ) == (ConfigView { default_depth: parse_usize_spec(value_after(line.skip(13))), ..cfg }),
        line.len() > 0 && !has_prefix(line, "#"@) && !has_prefix(line, "default_depth"@) && has_prefix(
            line,
            "ignore"@,
        ) ==> rc_line(cfg, line) == (ConfigView {
            ignore: Some(string_array_spec(value_after(line.skip(6)))),
            ..cfg
        }),
{
    reveal_strlit("default_depth");
    reveal_strlit("ignore");
    assert("default_depth"@.len() == 13);
    assert("ignore"@.len() == 6);
}

/// An empty config file sets nothing.
pub proof fn law_empty_config_sets_nothing()
    ensures
        rc_lines(Seq::<Seq<char>>::empty()) == default_config(),
        default_config().default_depth is None && default_config().ignore is None,
{
}
} // verus!
