//! ANSI color codes, and their removal for clipboard text.
use vstd::prelude::*;
use crate::detector::{FileRole, FileCategory, role_category};
use crate::text::{chars_of, string_of};

verus! {

pub open spec fn wrap(code: Seq<char>, s: Seq<char>) -> Seq<char> {
    "\x1b["@ + code + "m"@ + s + "\x1b[0m"@
}

pub open spec fn bold_blue(s: Seq<char>) -> Seq<char> {
    wrap("1;34"@, s)
}

pub open spec fn bright_white(s: Seq<char>) -> Seq<char> {
    wrap("97"@, s)
}

pub open spec fn yellow(s: Seq<char>) -> Seq<char> {
    wrap("33"@, s)
}

pub open spec fn magenta(s: Seq<char>) -> Seq<char> {
    wrap("35"@, s)
}

pub open spec fn cyan(s: Seq<char>) -> Seq<char> {
    wrap("36"@, s)
}

pub open spec fn dim(s: Seq<char>) -> Seq<char> {
    wrap("2"@, s)
}

pub open spec fn bright_purple(s: Seq<char>) -> Seq<char> {
    wrap("95"@, s)
}

pub open spec fn bright_green(s: Seq<char>) -> Seq<char> {
    wrap("92"@, s)
}

/// `s` in a color when colors are on, plain otherwise.
pub open spec fn paint(on: bool, colored: Seq<char>, s: Seq<char>) -> Seq<char> {
    if on {
        colored
    } else {
        s
    }
}

pub open spec fn c_dir(s: Seq<char>, col: bool) -> Seq<char> {
    paint(col, bold_blue(s), s)
}

pub open spec fn c_dim(s: Seq<char>, col: bool) -> Seq<char> {
    paint(col, dim(s), s)
}

pub open spec fn c_ai(s: Seq<char>, col: bool) -> Seq<char> {
    paint(col, bright_purple(s), s)
}

pub open spec fn c_green(s: Seq<char>, col: bool) -> Seq<char> {
    paint(col, bright_green(s), s)
}

/// A file name, colored by its category.
pub open spec fn c_file(s: Seq<char>, role: FileRole, col: bool) -> Seq<char> {
    if !col {
        s
    } else {
        match role_category(role) {
            FileCategory::Config => yellow(s),
            FileCategory::Test => magenta(s),
            FileCategory::Asset => cyan(s),
            _ => bright_white(s),
        }
    }
}

fn wrap_exec(code: &str, s: &str) -> (r: String)
    ensures
        r@ == wrap(code@, s@),
{
    let mut r = String::from_str("\x1b[");
    r.append(code);
    r.append("m");
    r.append(s);
    r.append("\x1b[0m");
    r
}

/// The color codes, as functions from text to colored text.
pub struct Color;

impl Color {
    pub fn bold_blue(s: &str) -> (r: String)
        ensures
            r@ == bold_blue(s@),
    {
        wrap_exec("1;34", s)
    }

    pub fn bright_white(s: &str) -> (r: String)
        ensures
            r@ == bright_white(s@),
    {
        wrap_exec("97", s)
    }

    pub fn yellow(s: &str) -> (r: String)
        ensures
            r@ == yellow(s@),
    {
        wrap_exec("33", s)
    }

    pub fn magenta(s: &str) -> (r: String)
        ensures
            r@ == magenta(s@),
    {
        wrap_exec("35", s)
    }

    pub fn cyan(s: &str) -> (r: String)
        ensures
            r@ == cyan(s@),
    {
        wrap_exec("36", s)
    }

    pub fn dim(s: &str) -> (r: String)
        ensures
            r@ == dim(s@),
    {
        wrap_exec("2", s)
    }

    pub fn bright_purple(s: &str) -> (r: String)
        ensures
            r@ == bright_purple(s@),
    {
        wrap_exec("95", s)
    }

    pub fn bright_green(s: &str) -> (r: String)
        ensures
            r@ == bright_green(s@),
    {
        wrap_exec("92", s)
    }
}

pub fn c_dir_exec(s: &str, col: bool) -> (r: String)
    ensures
        r@ == c_dir(s@, col),
{
    if col {
        Color::bold_blue(s)
    } else {
        s.to_owned()
    }
}

pub fn c_dim_exec(s: &str, col: bool) -> (r: String)
    ensures
        r@ == c_dim(s@, col),
{
    if col {
        Color::dim(s)
    } else {
        s.to_owned()
    }
}

pub fn c_ai_exec(s: &str, col: bool) -> (r: String)
    ensures
        r@ == c_ai(s@, col),
{
    if col {
        Color::bright_purple(s)
    } else {
        s.to_owned()
    }
}

pub fn c_green_exec(s: &str, col: bool) -> (r: String)
    ensures
        r@ == c_green(s@, col),
{
    if col {
        Color::bright_green(s)
    } else {
        s.to_owned()
    }
}

pub fn c_file_exec(s: &str, role: &FileRole, col: bool) -> (r: String)
    ensures
        r@ == c_file(s@, *role, col),
{
    if !col {
        return s.to_owned();
    }
    match role.category() {
        FileCategory::Config => Color::yellow(s),
        FileCategory::Test => Color::magenta(s),
        FileCategory::Asset => Color::cyan(s),
        _ => Color::bright_white(s),
    }
}

// ───────────────────────────── stripping ─────────────────────────────

pub open spec fn is_ascii_alpha(c: char) -> bool {
    ('a' <= c && c <= 'z') || ('A' <= c && c <= 'Z')
}

/// What follows an escape sequence: everything up to and including its first
/// ASCII letter is dropped.
pub open spec fn after_escape(s: Seq<char>) -> Seq<char>
    decreases s.len(),
{
    if s.len() == 0 {
        s
    } else if is_ascii_alpha(s[0]) {
        s.drop_first()
    } else {
        after_escape(s.drop_first())
    }
}

pub proof fn lemma_after_escape_len(s: Seq<char>)
    ensures
        after_escape(s).len() <= s.len(),
    decreases s.len(),
{
    if s.len() > 0 && !is_ascii_alpha(s[0]) {
        lemma_after_escape_len(s.drop_first());
    }
}

/// `s` without its ANSI escape sequences.
pub open spec fn strip_spec(s: Seq<char>) -> Seq<char>
    decreases s.len(),
{
    if s.len() == 0 {
        s
    } else if s[0] == '\x1b' {
        proof {
            lemma_after_escape_len(s.drop_first());
        }
        strip_spec(after_escape(s.drop_first()))
    } else {
        seq![s[0]] + strip_spec(s.drop_first())
    }
}

/// Removes ANSI escape codes, for clean clipboard content.
pub fn strip_ansi(s: &str) -> (r: String)
    ensures
        r@ == strip_spec(s@),
{
    let c = chars_of(s);
    let mut out: Vec<char> = Vec::new();
    let mut i: usize = 0;
    assert(c@.skip(0) =~= c@);
    assert(out@ + strip_spec(c@.skip(0)) =~= strip_spec(s@));
    while i < c.len()
        invariant
            c@ == s@,
            i <= c.len(),
            out@ + strip_spec(c@.skip(i as int)) == strip_spec(s@),
        decreases c.len() - i,
    {
        let ghost rest = c@.skip(i as int);
        assert(rest[0] == c@[i as int]);
        assert(rest.drop_first() =~= c@.skip(i + 1));
        if c[i] == '\x1b' {
            let mut j = i + 1;
            assert(after_escape(rest.drop_first()) == after_escape(c@.skip(j as int)));
            while j < c.len() && !(('a' <= c[j] && c[j] <= 'z') || ('A' <= c[j] && c[j] <= 'Z'))
                invariant
                    i < j <= c.len(),
                    after_escape(rest.drop_first()) == after_escape(c@.skip(j as int)),
                decreases c.len() - j,
            {
                assert(c@.skip(j as int)[0] == c@[j as int]);
                assert(c@.skip(j as int).drop_first() =~= c@.skip(j + 1));
                j += 1;
            }
            if j < c.len() {
                assert(c@.skip(j as int)[0] == c@[j as int]);
                assert(c@.skip(j as int).drop_first() =~= c@.skip(j + 1));
                i = j + 1;
            } else {
                assert(c@.skip(j as int) =~= Seq::<char>::empty());
                i = j;
            }
        } else {
            out.push(c[i]);
            assert(out@ + strip_spec(c@.skip(i as int)) =~= (out@.drop_last() + seq![c@[(i - 0) as int]])
                + strip_spec(c@.skip(i as int))) by {
                assert(out@.drop_last().push(c@[i as int]) =~= out@);
            }
            assert(strip_spec(rest) == seq![rest[0]] + strip_spec(rest.drop_first()));
            assert(out@.drop_last() + strip_spec(rest) =~= out@ + strip_spec(c@.skip(i + 1)));
            i += 1;
        }
    }
    assert(c@.skip(i as int) =~= Seq::<char>::empty());
    assert(out@ + strip_spec(c@.skip(i as int)) =~= out@);
    string_of(&out)
}

// ───────────────────────────── laws ─────────────────────────────

/// Text without escape characters is copied as it is.
pub proof fn law_strip_keeps_plain_text(s: Seq<char>)
    requires
        !s.contains('\x1b'),
    ensures
        strip_spec(s) == s,
    decreases s.len(),
{
    if s.len() > 0 {
        assert(s[0] != '\x1b');
        assert(!s.drop_first().contains('\x1b')) by {
            if s.drop_first().contains('\x1b') {
                let k = choose|k: int| 0 <= k < s.drop_first().len() && s.drop_first()[k] == '\x1b';
                assert(s[k + 1] == '\x1b');
            }
        }
        law_strip_keeps_plain_text(s.drop_first());
        assert(seq![s[0]] + s.drop_first() =~= s);
    }
}

/// Stripped text holds no escape character.
pub proof fn law_strip_leaves_no_escape(s: Seq<char>)
    ensures
        !strip_spec(s).contains('\x1b'),
    decreases s.len(),
{
    if s.len() > 0 {
        if s[0] == '\x1b' {
            lemma_after_escape_len(s.drop_first());
            law_strip_leaves_no_escape(after_escape(s.drop_first()));
        } else {
            law_strip_leaves_no_escape(s.drop_first());
            let r = strip_spec(s.drop_first());
            let t = seq![s[0]] + r;
            if t.contains('\x1b') {
                let k = choose|k: int| 0 <= k < t.len() && t[k] == '\x1b';
                if k > 0 {
                    assert(r[k - 1] == '\x1b');
                }
            }
        }
    }
}

/// Stripping twice gives what stripping once gave.
pub proof fn law_strip_is_idempotent(s: Seq<char>)
    ensures
        strip_spec(strip_spec(s)) == strip_spec(s),
{
    law_strip_leaves_no_escape(s);
    law_strip_keeps_plain_text(strip_spec(s));
}

/// Stripping distributes over text that ends outside any escape sequence.
pub proof fn lemma_strip_concat_plain(a: Seq<char>, b: Seq<char>)
    requires
        !a.contains('\x1b'),
    ensures
        strip_spec(a + b) == a + strip_spec(b),
    decreases a.len(),
{
    if a.len() > 0 {
        assert(a[0] != '\x1b');
        assert((a + b)[0] == a[0]);
        assert((a + b).drop_first() =~= a.drop_first() + b);
        assert(!a.drop_first().contains('\x1b')) by {
            if a.drop_first().contains('\x1b') {
                let k = choose|k: int| 0 <= k < a.drop_first().len() && a.drop_first()[k] == '\x1b';
                assert(a[k + 1] == '\x1b');
            }
        }
        lemma_strip_concat_plain(a.drop_first(), b);
        assert(seq![a[0]] + (a.drop_first() + strip_spec(b)) =~= a + strip_spec(b));
    } else {
        assert(a + b =~= b);
    }
}

} // verus!
