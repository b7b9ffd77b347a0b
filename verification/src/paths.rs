//! Paths as text: `'/'`-separated strings, read the way `std::path::Path`
//! reads their last component.
use vstd::prelude::*;
use crate::text::{CharClass, trim_end_by, has_prefix, slice_chars, chars_eq, occurs_at_exec, trim_end_chars};

verus! {

/// `p` without trailing `'/'` characters and trailing `"/."` components.
pub open spec fn strip_tail(p: Seq<char>) -> Seq<char>
    decreases p.len(),
{
    if p.len() > 0 && p.last() == '/' {
        strip_tail(p.drop_last())
    } else if p.len() >= 2 && p.last() == '.' && p[p.len() - 2] == '/' {
        strip_tail(p.take(p.len() - 2))
    } else {
        p
    }
}

/// The part of `s` after the last `c` (all of `s` when there is none).
pub open spec fn after_last(s: Seq<char>, c: char) -> Seq<char>
    decreases s.len(),
{
    if s.len() == 0 {
        s
    } else if s.last() == c {
        Seq::<char>::empty()
    } else {
        after_last(s.drop_last(), c).push(s.last())
    }
}

/// The part of `s` before the last `c` (empty when there is none).
pub open spec fn before_last(s: Seq<char>, c: char) -> Seq<char>
    decreases s.len(),
{
    if s.len() == 0 {
        s
    } else if s.last() == c {
        s.drop_last()
    } else {
        before_last(s.drop_last(), c)
    }
}

/// `Path::file_name`: the last component, unless there is none or it is `..`.
pub open spec fn file_name(p: Seq<char>) -> Option<Seq<char>> {
    let seg = after_last(strip_tail(p), '/');
    if seg.len() == 0 || seg == seq!['.'] || seg == seq!['.', '.'] {
        None
    } else {
        Some(seg)
    }
}

/// Whether a file name has a dot that splits it into stem and extension:
/// a last dot that is not its first character.
pub open spec fn splits_at_dot(name: Seq<char>) -> bool {
    name.contains('.') && before_last(name, '.').len() > 0
}

/// `Path::file_stem` applied to a file name.
pub open spec fn stem_of(name: Seq<char>) -> Seq<char> {
    if splits_at_dot(name) {
        before_last(name, '.')
    } else {
        name
    }
}

/// `Path::extension` applied to a file name.
pub open spec fn ext_of(name: Seq<char>) -> Option<Seq<char>> {
    if splits_at_dot(name) {
        Some(after_last(name, '.'))
    } else {
        None
    }
}

pub open spec fn file_stem(p: Seq<char>) -> Option<Seq<char>> {
    match file_name(p) {
        Some(n) => Some(stem_of(n)),
        None => None,
    }
}

pub open spec fn extension(p: Seq<char>) -> Option<Seq<char>> {
    match file_name(p) {
        Some(n) => ext_of(n),
        None => None,
    }
}

/// `Path::strip_prefix`: `p` relative to `base`, when `base` is a leading
/// run of whole components of `p`.
pub open spec fn rel_path(p: Seq<char>, base: Seq<char>) -> Option<Seq<char>> {
    let b = trim_end_by(base, CharClass::One('/'));
    if base.len() == 0 {
        Some(p)
    } else if b.len() == 0 {
        if has_prefix(p, seq!['/']) {
            Some(p.skip(1))
        } else {
            None
        }
    } else if p == b {
        Some(Seq::<char>::empty())
    } else if has_prefix(p, b.push('/')) {
        Some(p.skip(b.len() + 1 as int))
    } else {
        None
    }
}

// ───────────────────────────── proofs ─────────────────────────────

/// With `k` the last position of `c`, the two parts are the slices around it.
pub proof fn lemma_split_last(s: Seq<char>, c: char, k: int)
    requires
        0 <= k < s.len(),
        s[k] == c,
        forall|j: int| k < j < s.len() ==> s[j] != c,
    ensures
        after_last(s, c) == s.skip(k + 1),
        before_last(s, c) == s.take(k),
    decreases s.len(),
{
    if k < s.len() - 1 {
        lemma_split_last(s.drop_last(), c, k);
        assert(s.drop_last().skip(k + 1).push(s.last()) =~= s.skip(k + 1));
        assert(s.drop_last().take(k) =~= s.take(k));
    } else {
        assert(s.skip(k + 1) =~= Seq::<char>::empty());
        assert(s.drop_last() =~= s.take(k));
    }
}

pub proof fn lemma_no_char(s: Seq<char>, c: char)
    requires
        !s.contains(c),
    ensures
        after_last(s, c) == s,
    decreases s.len(),
{
    if s.len() > 0 {
        assert(!s.drop_last().contains(c)) by {
            if s.drop_last().contains(c) {
                let j = choose|j: int| 0 <= j < s.drop_last().len() && s.drop_last()[j] == c;
                assert(s[j] == c);
            }
        }
        lemma_no_char(s.drop_last(), c);
        assert(s.drop_last().push(s.last()) =~= s);
    }
}

// ───────────────────────────── executable ─────────────────────────────

/// The last position of `c` in `s`.
pub fn last_index_of(s: &Vec<char>, c: char) -> (r: Option<usize>)
    ensures
        match r {
            Some(k) => k < s@.len() && s@[k as int] == c && forall|j: int|
                k < j < s@.len() ==> s@[j] != c,
            None => !s@.contains(c),
        },
{
    let mut i = s.len();
    while i > 0
        invariant
            i <= s.len(),
            forall|j: int| i <= j < s@.len() ==> s@[j] != c,
        decreases i,
    {
        if s[i - 1] == c {
            return Some(i - 1);
        }
        i -= 1;
    }
    proof {
        if s@.contains(c) {
            let j = choose|j: int| 0 <= j < s@.len() && s@[j] == c;
            assert(s@[j] != c);
        }
    }
    None
}

/// The parts of `s` before and after its last `c`, when it has one.
pub fn split_last(s: &Vec<char>, c: char) -> (r: Option<(Vec<char>, Vec<char>)>)
    ensures
        match r {
            Some((a, b)) => s@.contains(c) && a@ == before_last(s@, c) && b@ == after_last(s@, c),
            None => !s@.contains(c) && after_last(s@, c) == s@,
        },
{
    match last_index_of(s, c) {
        Some(k) => {
            assert(k < s.len());
            proof {
                lemma_split_last(s@, c, k as int);
            }
            let a = slice_chars(s, 0, k);
            let b = slice_chars(s, k + 1, s.len());
            assert(a@ =~= s@.take(k as int));
            assert(b@ =~= s@.skip(k + 1));
            Some((a, b))
        },
        None => {
            proof {
                lemma_no_char(s@, c);
            }
            None
        },
    }
}

pub fn strip_tail_exec(p: &Vec<char>) -> (r: Vec<char>)
    ensures
        r@ == strip_tail(p@),
{
    let mut j = p.len();
    assert(p@.take(j as int) =~= p@);
    loop
        invariant
            j <= p.len(),
            strip_tail(p@) == strip_tail(p@.take(j as int)),
        ensures
            j <= p.len(),
            strip_tail(p@) == p@.take(j as int),
        decreases j,
    {
        if j > 0 && p[j - 1] == '/' {
            assert(p@.take(j as int).drop_last() =~= p@.take(j - 1));
            j -= 1;
        } else if j >= 2 && p[j - 1] == '.' && p[j - 2] == '/' {
            assert(p@.take(j as int).take(j - 2) =~= p@.take(j - 2));
            j -= 2;
        } else {
            proof {
                let t = p@.take(j as int);
                if t.len() > 0 {
                    assert(t.last() == p@[j - 1]);
                }
                if t.len() >= 2 {
                    assert(t[t.len() - 2] == p@[j - 2]);
                }
                assert(strip_tail(t) == t);
            }
            break;
        }
    }
    slice_chars(p, 0, j)
}

/// `Path::file_name`.
pub fn file_name_exec(p: &Vec<char>) -> (r: Option<Vec<char>>)
    ensures
        match r {
            Some(n) => file_name(p@) == Some(n@),
            None => file_name(p@) is None,
        },
{
    let t = strip_tail_exec(p);
    let seg = match split_last(&t, '/') {
        Some((_, b)) => b,
        None => t,
    };
    if seg.len() == 0 || (seg.len() == 1 && seg[0] == '.') || (seg.len() == 2 && seg[0] == '.'
        && seg[1] == '.') {
        proof {
            if seg.len() == 1 {
                assert(seg@ =~= seq!['.']);
            }
            if seg.len() == 2 {
                assert(seg@ =~= seq!['.', '.']);
            }
        }
        None
    } else {
        proof {
            if seg@ == seq!['.'] {
                assert(seg@[0] == '.');
            }
            if seg@ == seq!['.', '.'] {
                assert(seg@[0] == '.' && seg@[1] == '.');
            }
        }
        Some(seg)
    }
}

/// `Path::file_stem` and `Path::extension` of a file name.
pub fn stem_and_ext(name: &Vec<char>) -> (r: (Vec<char>, Option<Vec<char>>))
    ensures
        r.0@ == stem_of(name@),
        match r.1 {
            Some(e) => ext_of(name@) == Some(e@),
            None => ext_of(name@) is None,
        },
{
    match split_last(name, '.') {
        Some((a, b)) => {
            if a.len() > 0 {
                (a, Some(b))
            } else {
                (slice_chars(name, 0, name.len()), None)
            }
        },
        None => (slice_chars(name, 0, name.len()), None),
    }
}

/// `Path::strip_prefix`.
pub fn rel_path_exec(p: &Vec<char>, base: &Vec<char>) -> (r: Option<Vec<char>>)
    ensures
        match r {
            Some(q) => rel_path(p@, base@) == Some(q@),
            None => rel_path(p@, base@) is None,
        },
{
    let b = trim_end_chars(base, CharClass::One('/'));
    if base.len() == 0 {
        return Some(slice_chars(p, 0, p.len()));
    }
    if b.len() == 0 {
        if p.len() > 0 && p[0] == '/' {
            assert(p@.subrange(0, 1) =~= seq!['/']);
            return Some(slice_chars(p, 1, p.len()));
        } else {
            proof {
                if has_prefix(p@, seq!['/']) {
                    assert(p@.subrange(0, 1)[0] == '/');
                }
            }
            return None;
        }
    }
    if chars_eq(p, &b) {
        return Some(Vec::new());
    }
    let mut bs = slice_chars(&b, 0, b.len());
    bs.push('/');
    assert(bs@ =~= b@.push('/'));
    if occurs_at_exec(p, &bs, 0) {
        assert(p@.subrange(0, bs@.len() as int) == bs@);
        Some(slice_chars(p, b.len() + 1, p.len()))
    } else {
        None
    }
}

// ─────────────────── character maps that keep the separators ───────────────────

/// `f` maps `'/'` and `'.'` to themselves and no other character to either.
pub open spec fn keeps_separators(f: spec_fn(char) -> char) -> bool {
    forall|c: char| #![trigger f(c)] (f(c) == '/' <==> c == '/') && (f(c) == '.' <==> c == '.')
}

proof fn lemma_strip_tail_map(s: Seq<char>, f: spec_fn(char) -> char)
    requires
        keeps_separators(f),
    ensures
        strip_tail(s.map_values(f)) == strip_tail(s).map_values(f),
    decreases s.len(),
{
    let m = s.map_values(f);
    if s.len() > 0 {
        assert(m.last() == f(s.last()));
        if s.last() == '/' {
            assert(m.drop_last() =~= s.drop_last().map_values(f));
            lemma_strip_tail_map(s.drop_last(), f);
        } else if s.len() >= 2 && s.last() == '.' && s[s.len() - 2] == '/' {
            assert(m[m.len() - 2] == f(s[s.len() - 2]));
            assert(m.take(m.len() - 2) =~= s.take(s.len() - 2).map_values(f));
            lemma_strip_tail_map(s.take(s.len() - 2), f);
        } else {
            if s.len() >= 2 {
                assert(m[m.len() - 2] == f(s[s.len() - 2]));
            }
        }
    }
}

proof fn lemma_after_last_map(s: Seq<char>, c: char, f: spec_fn(char) -> char)
    requires
        forall|x: char| #![trigger f(x)] f(x) == c <==> x == c,
    ensures
        after_last(s.map_values(f), c) == after_last(s, c).map_values(f),
    decreases s.len(),
{
    let m = s.map_values(f);
    if s.len() == 0 {
        assert(m =~= s.map_values(f));
    } else {
        assert(m.last() == f(s.last()));
        assert(m.drop_last() =~= s.drop_last().map_values(f));
        lemma_after_last_map(s.drop_last(), c, f);
        if s.last() != c {
            assert(after_last(s.drop_last(), c).push(s.last()).map_values(f) =~= after_last(
                s.drop_last(),
                c,
            ).map_values(f).push(f(s.last())));
        } else {
            assert(Seq::<char>::empty().map_values(f) =~= Seq::<char>::empty());
        }
    }
}

proof fn lemma_before_last_map(s: Seq<char>, c: char, f: spec_fn(char) -> char)
    requires
        forall|x: char| #![trigger f(x)] f(x) == c <==> x == c,
    ensures
        before_last(s.map_values(f), c) == before_last(s, c).map_values(f),
    decreases s.len(),
{
    let m = s.map_values(f);
    if s.len() == 0 {
        assert(m =~= s.map_values(f));
    } else {
        assert(m.last() == f(s.last()));
        assert(m.drop_last() =~= s.drop_last().map_values(f));
        lemma_before_last_map(s.drop_last(), c, f);
    }
}

/// Mapping the characters of a path by `f` maps its file name, stem and extension
/// the same way.
pub proof fn lemma_file_parts_map(p: Seq<char>, f: spec_fn(char) -> char)
    requires
        keeps_separators(f),
    ensures
        file_name(p.map_values(f)) == (match file_name(p) {
            Some(n) => Some(n.map_values(f)),
            None => None,
        }),
        file_stem(p.map_values(f)) == (match file_stem(p) {
            Some(n) => Some(n.map_values(f)),
            None => None,
        }),
        extension(p.map_values(f)) == (match extension(p) {
            Some(n) => Some(n.map_values(f)),
            None => None,
        }),
{
    assert(forall|x: char| #![trigger f(x)] f(x) == '/' <==> x == '/');
    assert(forall|x: char| #![trigger f(x)] f(x) == '.' <==> x == '.');
    lemma_strip_tail_map(p, f);
    let seg = after_last(strip_tail(p), '/');
    lemma_after_last_map(strip_tail(p), '/', f);
    let mseg = seg.map_values(f);
    assert(mseg.len() == seg.len());
    assert(mseg == seq!['.'] <==> seg == seq!['.']) by {
        if seg == seq!['.'] {
            assert(mseg =~= seq!['.']);
        }
        if mseg == seq!['.'] {
            assert(mseg[0] == '.');
            assert(mseg[0] == f(seg[0]));
            assert(seg[0] == '.');
            assert(seg =~= seq!['.']);
        }
    }
    assert(mseg == seq!['.', '.'] <==> seg == seq!['.', '.']) by {
        if seg == seq!['.', '.'] {
            assert(mseg =~= seq!['.', '.']);
        }
        if mseg == seq!['.', '.'] {
            assert(mseg[0] == '.' && mseg[1] == '.');
            assert(mseg[0] == f(seg[0]) && mseg[1] == f(seg[1]));
            assert(seg[0] == '.' && seg[1] == '.');
            assert(seg =~= seq!['.', '.']);
        }
    }
    if file_name(p) is Some {
        let n = seg;
        lemma_before_last_map(n, '.', f);
        lemma_after_last_map(n, '.', f);
        assert(mseg.contains('.') <==> n.contains('.')) by {
            if n.contains('.') {
                let i = choose|i: int| 0 <= i < n.len() && n[i] == '.';
                assert(mseg[i] == f(n[i]));
            }
            if mseg.contains('.') {
                let i = choose|i: int| 0 <= i < mseg.len() && mseg[i] == '.';
                assert(mseg[i] == f(n[i]));
            }
        }
        assert(splits_at_dot(mseg) == splits_at_dot(n));
    }
}

/// How many leading characters `rel_path` drops from `p` when it succeeds.
pub open spec fn rel_skip(p: Seq<char>, base: Seq<char>) -> int {
    let b = trim_end_by(base, CharClass::One('/'));
    if base.len() == 0 {
        0
    } else if b.len() == 0 {
        1
    } else if p == b {
        p.len() as int
    } else {
        b.len() + 1int
    }
}

/// A path relative to a base is what is left after the base's characters.
pub proof fn lemma_rel_path_skips(p: Seq<char>, base: Seq<char>)
    ensures
        rel_path(p, base) is Some ==> 0 <= rel_skip(p, base) <= p.len() && rel_path(p, base) == Some(
            p.skip(rel_skip(p, base)),
        ),
{
    let b = trim_end_by(base, CharClass::One('/'));
    if rel_path(p, base) is Some {
        if base.len() == 0 {
            assert(p.skip(0) =~= p);
        } else if b.len() == 0 {
        } else if p == b {
            assert(p.skip(p.len() as int) =~= Seq::<char>::empty());
        } else {
        }
    }
}

/// Two paths of the same length that both lie in `base` drop the same number of
/// leading characters.
pub proof fn lemma_rel_skip_same(p: Seq<char>, q: Seq<char>, base: Seq<char>)
    requires
        p.len() == q.len(),
        rel_path(p, base) is Some,
        rel_path(q, base) is Some,
    ensures
        rel_skip(p, base) == rel_skip(q, base),
{
    let b = trim_end_by(base, CharClass::One('/'));
    if base.len() != 0 && b.len() != 0 {
        if p == b && q != b {
            assert(has_prefix(q, b.push('/')));
        }
        if q == b && p != b {
            assert(has_prefix(p, b.push('/')));
        }
    }
}
} // verus!
