//! The walker: from a listing of the file system to the tree, and the
//! collapse of repeated sibling directories.
use vstd::prelude::*;
use crate::cli::Args;
use crate::detector::{Framework, FileRole, classify_spec, classify_file};
use crate::ignorer::{Ignorer, IgnoreRules, ignored_spec, with_local_spec};
use crate::paths::{file_name, extension, file_name_exec, stem_and_ext};
use crate::text::{
    CharClass, trim, trim_start_by, split, lowercase, seq_lt, decimal, chars_of, string_of,
    lower_chars, chars_lt, chars_eq, trim_chars, trim_start_chars, split_chars, concat_chars,
    decimal_chars, join_chars, lemma_seq_lt_total, lemma_seq_lt_trans, lemma_seq_lt_asym,
};
use crate::tree::{TreeNode, NodeKind, NodeView, KindView, view_node, view_list, lemma_view_list_len};

verus! {

/// One entry of a directory as the file system reported it.
pub struct FsEntry {
    /// The entry's file name.
    pub name: String,
    /// The entry's full path.
    pub path: String,
    /// Whether the entry is a directory (links followed).
    pub is_dir: bool,
    /// For a directory that is read: its entries in the order the file system
    /// gave them, or `None` where it could not be read.
    pub listing: Option<Vec<FsEntry>>,
    /// For a directory at the depth limit: how many entries it holds (0 where
    /// it could not be read).
    pub entry_count: usize,
}

pub struct Walker {
    root: String,
    project: String,
    framework: Framework,
    ignorer: Ignorer,
    max_depth: usize,
    show_hidden: bool,
    only_exts: Option<Vec<String>>,
    collapse: bool,
}

/// The walker's settings.
pub struct WalkerView {
    pub root: Seq<char>,
    /// The project that the scanned directory lies in; file roles read paths from it.
    pub project: Seq<char>,
    pub framework: Framework,
    /// The ignore patterns, and the rule lines that `--show-ignore` lists for them.
    pub patterns: Seq<Seq<char>>,
    pub rule_lines: Seq<Seq<char>>,
    /// 0 for no limit.
    pub max_depth: nat,
    pub show_hidden: bool,
    pub only: Option<Seq<Seq<char>>>,
    pub collapse: bool,
}

impl View for Walker {
    type V = WalkerView;

    closed spec fn view(&self) -> WalkerView {
        WalkerView {
            root: self.root@,
            project: self.project@,
            framework: self.framework,
            patterns: self.ignorer@.patterns,
            rule_lines: self.ignorer@.rules,
            max_depth: self.max_depth as nat,
            show_hidden: self.show_hidden,
            only: match self.only_exts {
                Some(v) => Some(v@.map_values(|s: String| s@)),
                None => None,
            },
            collapse: self.collapse,
        }
    }
}

// ───────────────────────────── settings ─────────────────────────────

/// The extensions that `--only` names: split at commas, trimmed, leading dots
/// dropped, lowercased, empty ones left out.
pub open spec fn only_items(parts: Seq<Seq<char>>) -> Seq<Seq<char>>
    decreases parts.len(),
{
    if parts.len() == 0 {
        Seq::<Seq<char>>::empty()
    } else {
        let rest = only_items(parts.drop_last());
        let e = lowercase(trim_start_by(trim(parts.last()), CharClass::One('.')));
        if e.len() > 0 {
            rest.push(e)
        } else {
            rest
        }
    }
}

pub open spec fn only_spec(only: Option<Seq<char>>) -> Option<Seq<Seq<char>>> {
    match only {
        Some(s) => Some(only_items(split(s, ','))),
        None => None,
    }
}

// ───────────────────────────── the walk ─────────────────────────────

pub open spec fn entry_ignored(w: WalkerView, e: FsEntry) -> bool {
    ignored_spec(w.patterns, e.path@, w.show_hidden)
}

/// The positions of the entries that are kept and are (or are not) directories.
pub open spec fn kept(w: WalkerView, es: Seq<FsEntry>, dirs: bool) -> Seq<int>
    decreases es.len(),
{
    if es.len() == 0 {
        Seq::<int>::empty()
    } else {
        let rest = kept(w, es.drop_last(), dirs);
        let e = es.last();
        if !entry_ignored(w, e) && e.is_dir == dirs {
            rest.push(es.len() - 1)
        } else {
            rest
        }
    }
}

/// Entries are ordered by their lowercased names.
pub open spec fn sort_key(e: FsEntry) -> Seq<char> {
    lowercase(e.name@)
}

/// `k` placed after every position whose key is not greater than its own.
pub open spec fn insert_idx(es: Seq<FsEntry>, s: Seq<int>, k: int) -> Seq<int>
    decreases s.len(),
{
    if s.len() == 0 {
        seq![k]
    } else if seq_lt(sort_key(es[k]), sort_key(es[s[0]])) {
        seq![k] + s
    } else {
        seq![s[0]] + insert_idx(es, s.drop_first(), k)
    }
}

/// The positions `ks` stably sorted by key.
pub open spec fn sort_idx(es: Seq<FsEntry>, ks: Seq<int>) -> Seq<int>
    decreases ks.len(),
{
    if ks.len() == 0 {
        Seq::<int>::empty()
    } else {
        insert_idx(es, sort_idx(es, ks.drop_last()), ks.last())
    }
}

/// Whether a directory at depth `d` has its entries listed.
pub open spec fn reads_at(w: WalkerView, d: nat) -> bool {
    w.max_depth == 0 || d <= w.max_depth
}

/// The node that marks a directory cut off by the depth limit.
pub open spec fn depth_limit_node(e: FsEntry, d: nat) -> NodeView {
    NodeView {
        name: "… "@ + decimal(e.entry_count as nat) + " more"@,
        path: e.path@,
        kind: KindView::Collapsed { count: e.entry_count as nat, pattern: "depth-limit"@ },
        children: Seq::<NodeView>::empty(),
        role: FileRole::Unknown,
        ext: None,
        depth: d + 1,
    }
}

pub open spec fn lower_opt(o: Option<Seq<char>>) -> Option<Seq<char>> {
    match o {
        Some(e) => Some(lowercase(e)),
        None => None,
    }
}

pub open spec fn file_view(w: WalkerView, e: FsEntry, d: nat) -> NodeView {
    NodeView {
        name: e.name@,
        path: e.path@,
        kind: KindView::File,
        children: Seq::<NodeView>::empty(),
        role: classify_spec(e.path@, w.project, w.framework),
        ext: lower_opt(extension(e.path@)),
        depth: d,
    }
}

/// The node for entry `e` at depth `d`.
pub open spec fn entry_view(w: WalkerView, e: FsEntry, d: nat) -> NodeView
    decreases e, 1nat,
{
    if e.is_dir {
        NodeView {
            name: e.name@,
            path: e.path@,
            kind: KindView::Dir,
            children: if reads_at(w, d) {
                match e.listing {
                    Some(l) => {
                        proof {
                            assert(decreases_to!(e => e.listing));
                        }
                        arrange(w, l@, listing_views(w, l@, d + 1))
                    },
                    None => Seq::<NodeView>::empty(),
                }
            } else if e.entry_count > 0 {
                seq![depth_limit_node(e, d)]
            } else {
                Seq::<NodeView>::empty()
            },
            role: FileRole::Unknown,
            ext: None,
            depth: d,
        }
    } else {
        file_view(w, e, d)
    }
}

/// The node of every entry, in listing order.
pub open spec fn listing_views(w: WalkerView, es: Seq<FsEntry>, d: nat) -> Seq<NodeView>
    decreases es, 0nat,
{
    if es.len() == 0 {
        Seq::<NodeView>::empty()
    } else {
        listing_views(w, es.drop_last(), d).push(entry_view(w, es.last(), d))
    }
}

pub open spec fn pick(vs: Seq<NodeView>, ks: Seq<int>) -> Seq<NodeView> {
    Seq::new(ks.len(), |j: int| vs[ks[j]])
}

/// Whether an extension passes the `--only` filter.
pub open spec fn ext_passes(only: Option<Seq<Seq<char>>>, ext: Option<Seq<char>>) -> bool {
    match only {
        None => true,
        Some(set) => match ext {
            Some(e) => set.contains(e),
            None => false,
        },
    }
}

/// Whether a file passes the `--only` filter.
pub open spec fn passes_only(only: Option<Seq<Seq<char>>>, n: NodeView) -> bool {
    ext_passes(only, n.ext)
}

pub open spec fn only_filter(only: Option<Seq<Seq<char>>>, ns: Seq<NodeView>) -> Seq<NodeView>
    decreases ns.len(),
{
    if ns.len() == 0 {
        Seq::<NodeView>::empty()
    } else {
        let rest = only_filter(only, ns.drop_last());
        if passes_only(only, ns.last()) {
            rest.push(ns.last())
        } else {
            rest
        }
    }
}

pub open spec fn is_empty_dir_view(n: NodeView) -> bool {
    n.kind is Dir && n.children.len() == 0
}

pub open spec fn drop_empty_dirs(ns: Seq<NodeView>) -> Seq<NodeView>
    decreases ns.len(),
{
    if ns.len() == 0 {
        Seq::<NodeView>::empty()
    } else {
        let rest = drop_empty_dirs(ns.drop_last());
        if is_empty_dir_view(ns.last()) {
            rest
        } else {
            rest.push(ns.last())
        }
    }
}

/// The children of a directory from its entries and their nodes: kept
/// directories then kept files, each sorted by lowercased name, files filtered
/// by `--only`, and with `--only` empty directories dropped.
pub open spec fn arrange(w: WalkerView, es: Seq<FsEntry>, vs: Seq<NodeView>) -> Seq<NodeView> {
    let ds = pick(vs, sort_idx(es, kept(w, es, true)));
    let fs = only_filter(w.only, pick(vs, sort_idx(es, kept(w, es, false))));
    match w.only {
        Some(_) => drop_empty_dirs(ds + fs),
        None => ds + fs,
    }
}

/// How deep the listing nests.
pub open spec fn height(e: FsEntry) -> nat
    decreases e, 1nat,
{
    match e.listing {
        Some(l) => {
            proof {
                assert(decreases_to!(e => e.listing));
            }
            1 + list_height(l@)
        },
        None => 0,
    }
}

pub open spec fn list_height(es: Seq<FsEntry>) -> nat
    decreases es, 0nat,
{
    if es.len() == 0 {
        0
    } else {
        let a = list_height(es.drop_last());
        let b = height(es.last());
        if a >= b {
            a
        } else {
            b
        }
    }
}

fn checked_height(e: &FsEntry) -> (r: Option<usize>)
    ensures
        match r {
            Some(h) => h == height(*e),
            None => height(*e) > usize::MAX,
        },
    decreases e, 1nat,
{
    match &e.listing {
        Some(l) => {
            proof {
                assert(decreases_to!(e => e.listing));
            }
            match checked_list_height(l) {
                Some(h) => h.checked_add(1),
                None => None,
            }
        },
        None => Some(0),
    }
}

/// How deeply the listing nests, or `None` where that does not fit in a `usize`.
pub fn checked_list_height(es: &Vec<FsEntry>) -> (r: Option<usize>)
    ensures
        match r {
            Some(h) => h == list_height(es@),
            None => list_height(es@) > usize::MAX,
        },
    decreases es, 0nat,
{
    let mut h: usize = 0;
    let mut i: usize = 0;
    assert(es@.take(0) =~= Seq::<FsEntry>::empty());
    while i < es.len()
        invariant
            i <= es@.len(),
            h == list_height(es@.take(i as int)),
        decreases es@.len() - i,
    {
        proof {
            assert(decreases_to!(es => es@));
            assert(decreases_to!(es@ => es@[i as int]));
            assert(es@.take(i + 1).drop_last() =~= es@.take(i as int));
            assert(es@.take(i + 1).last() == es@[i as int]);
        }
        match checked_height(&es[i]) {
            Some(b) => {
                if b > h {
                    h = b;
                }
            },
            None => {
                proof {
                    lemma_list_height_ge(es@, i as int);
                }
                return None;
            },
        }
        i += 1;
    }
    assert(es@.take(es@.len() as int) =~= es@);
    Some(h)
}

proof fn lemma_list_height_ge(es: Seq<FsEntry>, i: int)
    requires
        0 <= i < es.len(),
    ensures
        list_height(es) >= height(es[i]),
    decreases es.len(),
{
    if i < es.len() - 1 {
        lemma_list_height_ge(es.drop_last(), i);
        assert(es.drop_last()[i] == es[i]);
    }
}

/// The root node before collapsing.
pub open spec fn raw_tree(w: WalkerView, listing: Seq<FsEntry>) -> NodeView {
    NodeView {
        name: match file_name(w.root) {
            Some(n) => n,
            None => "."@,
        },
        path: w.root,
        kind: KindView::Dir,
        children: arrange(w, listing, listing_views(w, listing, 1)),
        role: FileRole::Unknown,
        ext: None,
        depth: 0,
    }
}

// ───────────────────────────── proofs ─────────────────────────────

pub open spec fn as_ints(v: Seq<usize>) -> Seq<int> {
    v.map_values(|x: usize| x as int)
}

proof fn lemma_listing_views(w: WalkerView, es: Seq<FsEntry>, d: nat)
    ensures
        listing_views(w, es, d).len() == es.len(),
        forall|k: int|
            0 <= k < es.len() ==> #[trigger] listing_views(w, es, d)[k] == entry_view(w, es[k], d),
    decreases es.len(),
{
    if es.len() > 0 {
        lemma_listing_views(w, es.drop_last(), d);
    }
}

proof fn lemma_list_height(es: Seq<FsEntry>, k: int)
    requires
        0 <= k < es.len(),
    ensures
        height(es[k]) <= list_height(es),
    decreases es.len(),
{
    if k < es.len() - 1 {
        lemma_list_height(es.drop_last(), k);
    }
}

proof fn lemma_kept_bounds(w: WalkerView, es: Seq<FsEntry>, dirs: bool)
    ensures
        forall|j: int|
            0 <= j < kept(w, es, dirs).len() ==> 0 <= #[trigger] kept(w, es, dirs)[j] < es.len()
                && es[kept(w, es, dirs)[j]].is_dir == dirs,
    decreases es.len(),
{
    if es.len() > 0 {
        lemma_kept_bounds(w, es.drop_last(), dirs);
    }
}

proof fn lemma_insert_idx_elems(es: Seq<FsEntry>, s: Seq<int>, k: int)
    ensures
        insert_idx(es, s, k).len() == s.len() + 1,
        forall|j: int|
            0 <= j < insert_idx(es, s, k).len() ==> (#[trigger] insert_idx(es, s, k)[j] == k
                || s.contains(insert_idx(es, s, k)[j])),
    decreases s.len(),
{
    if s.len() > 0 && !seq_lt(sort_key(es[k]), sort_key(es[s[0]])) {
        lemma_insert_idx_elems(es, s.drop_first(), k);
        let r = insert_idx(es, s, k);
        assert forall|j: int| 0 <= j < r.len() implies (#[trigger] r[j] == k || s.contains(r[j])) by {
            if j > 0 {
                let x = r[j];
                assert(x == insert_idx(es, s.drop_first(), k)[j - 1]);
                if x != k {
                    let m = choose|m: int| 0 <= m < s.drop_first().len() && s.drop_first()[m] == x;
                    assert(s[m + 1] == x);
                }
            } else {
                assert(s[0] == r[0]);
            }
        }
    } else if s.len() > 0 {
        let r = insert_idx(es, s, k);
        assert forall|j: int| 0 <= j < r.len() implies (#[trigger] r[j] == k || s.contains(r[j])) by {
            if j > 0 {
                assert(r[j] == s[j - 1]);
            }
        }
    }
}

/// The positions in `s` come in order of their entries' lowercased names.
pub open spec fn keys_ordered(es: Seq<FsEntry>, s: Seq<int>) -> bool {
    forall|i: int, j: int|
        0 <= i < j < s.len() ==> !seq_lt(sort_key(es[s[j]]), sort_key(es[s[i]]))
}

proof fn lemma_insert_idx_ordered(es: Seq<FsEntry>, s: Seq<int>, k: int)
    requires
        keys_ordered(es, s),
    ensures
        keys_ordered(es, insert_idx(es, s, k)),
    decreases s.len(),
{
    lemma_insert_idx_elems(es, s, k);
    let r = insert_idx(es, s, k);
    if s.len() == 0 {
    } else if seq_lt(sort_key(es[k]), sort_key(es[s[0]])) {
        assert forall|i: int, j: int| 0 <= i < j < r.len() implies !seq_lt(
            sort_key(es[r[j]]),
            sort_key(es[r[i]]),
        ) by {
            assert(r[j] == s[j - 1]);
            if i == 0 {
                if j > 1 {
                    assert(!seq_lt(sort_key(es[s[j - 1]]), sort_key(es[s[0]])));
                    if seq_lt(sort_key(es[s[j - 1]]), sort_key(es[k])) {
                        lemma_seq_lt_trans(sort_key(es[s[j - 1]]), sort_key(es[k]), sort_key(es[s[0]]));
                    }
                } else {
                    lemma_seq_lt_asym(sort_key(es[k]), sort_key(es[s[0]]));
                }
            } else {
                assert(r[i] == s[i - 1]);
            }
        }
    } else {
        let rest = s.drop_first();
        assert(keys_ordered(es, rest)) by {
            assert forall|i: int, j: int| 0 <= i < j < rest.len() implies !seq_lt(
                sort_key(es[rest[j]]),
                sort_key(es[rest[i]]),
            ) by {
                assert(rest[i] == s[i + 1] && rest[j] == s[j + 1]);
            }
        }
        lemma_insert_idx_ordered(es, rest, k);
        let rr = insert_idx(es, rest, k);
        lemma_insert_idx_elems(es, rest, k);
        assert forall|i: int, j: int| 0 <= i < j < r.len() implies !seq_lt(
            sort_key(es[r[j]]),
            sort_key(es[r[i]]),
        ) by {
            assert(r[j] == rr[j - 1]);
            if i == 0 {
                assert(r[0] == s[0]);
                if rr[j - 1] != k {
                    let m = choose|m: int| 0 <= m < rest.len() && rest[m] == rr[j - 1];
                    assert(s[m + 1] == rr[j - 1]);
                }
            } else {
                assert(r[i] == rr[i - 1]);
            }
        }
    }
}

/// Siblings are listed in order of their lowercased names: the sort of any
/// positions orders them so.
pub proof fn law_siblings_sorted_by_name(es: Seq<FsEntry>, ks: Seq<int>)
    ensures
        keys_ordered(es, sort_idx(es, ks)),
    decreases ks.len(),
{
    if ks.len() > 0 {
        law_siblings_sorted_by_name(es, ks.drop_last());
        lemma_insert_idx_ordered(es, sort_idx(es, ks.drop_last()), ks.last());
    }
}

/// Sorting keeps the positions inside `es` and those of one kind.
proof fn lemma_sort_idx_elems(es: Seq<FsEntry>, ks: Seq<int>, dirs: bool)
    requires
        forall|j: int| 0 <= j < ks.len() ==> 0 <= #[trigger] ks[j] < es.len() && es[ks[j]].is_dir == dirs,
    ensures
        sort_idx(es, ks).len() == ks.len(),
        forall|j: int|
            0 <= j < sort_idx(es, ks).len() ==> 0 <= #[trigger] sort_idx(es, ks)[j] < es.len()
                && es[sort_idx(es, ks)[j]].is_dir == dirs,
    decreases ks.len(),
{
    if ks.len() > 0 {
        lemma_sort_idx_elems(es, ks.drop_last(), dirs);
        let s = sort_idx(es, ks.drop_last());
        lemma_insert_idx_elems(es, s, ks.last());
        let r = sort_idx(es, ks);
        assert forall|j: int| 0 <= j < r.len() implies 0 <= #[trigger] r[j] < es.len() && es[r[j]].is_dir
            == dirs by {
            if r[j] != ks.last() {
                let m = choose|m: int| 0 <= m < s.len() && s[m] == r[j];
                assert(s[m] == r[j]);
            }
        }
    }
}

// ───────────────────────────── executable ─────────────────────────────

impl Walker {
    fn kept_exec(&self, es: &Vec<FsEntry>, dirs: bool) -> (r: Vec<usize>)
        ensures
            as_ints(r@) == kept(self@, es@, dirs),
    {
        let mut r: Vec<usize> = Vec::new();
        let mut i: usize = 0;
        assert(es@.take(0) =~= Seq::<FsEntry>::empty());
        assert(as_ints(r@) =~= Seq::<int>::empty());
        while i < es.len()
            invariant
                i <= es.len(),
                as_ints(r@) == kept(self@, es@.take(i as int), dirs),
            decreases es.len() - i,
        {
            let e = &es[i];
            assert(es@.take(i + 1).drop_last() =~= es@.take(i as int));
            assert(es@.take(i + 1).last() == *e);
            let ign = self.ignorer.is_ignored(e.path.as_str(), self.show_hidden);
            if !ign && e.is_dir == dirs {
                let ghost pre = as_ints(r@);
                r.push(i);
                assert(as_ints(r@) =~= pre.push(i as int));
            }
            i += 1;
        }
        assert(es@.take(es.len() as int) =~= es@);
        r
    }

    /// Places position `k` into the sorted positions `s`.
    fn insert_exec(keys: &Vec<Vec<char>>, s: &mut Vec<usize>, k: usize, Ghost(es): Ghost<Seq<FsEntry>>)
        requires
            keys@.len() == es.len(),
            forall|m: int| 0 <= m < keys@.len() ==> #[trigger] keys@[m]@ == sort_key(es[m]),
            k < es.len(),
            forall|m: int| 0 <= m < old(s)@.len() ==> #[trigger] old(s)@[m] < es.len(),
        ensures
            as_ints(final(s)@) == insert_idx(es, as_ints(old(s)@), k as int),
    {
        let ghost t = as_ints(old(s)@);
        let mut j: usize = 0;
        assert(t.skip(0) =~= t);
        assert(t.take(0) + insert_idx(es, t.skip(0), k as int) =~= insert_idx(es, t, k as int));
        while j < s.len()
            invariant
                s@ == old(s)@,
                t == as_ints(old(s)@),
                keys@.len() == es.len(),
                forall|m: int| 0 <= m < keys@.len() ==> #[trigger] keys@[m]@ == sort_key(es[m]),
                k < es.len(),
                forall|m: int| 0 <= m < old(s)@.len() ==> #[trigger] old(s)@[m] < es.len(),
                j <= s.len(),
                insert_idx(es, t, k as int) == t.take(j as int) + insert_idx(es, t.skip(j as int), k as int),
            decreases s.len() - j,
        {
            let sj = s[j];
            assert(t.skip(j as int)[0] == sj as int);
            if chars_lt(&keys[k], &keys[sj]) {
                s.insert(j, k);
                assert(as_ints(s@) =~= t.take(j as int) + (seq![k as int] + t.skip(j as int)));
                return;
            }
            assert(t.skip(j as int).drop_first() =~= t.skip(j + 1));
            assert(t.take(j as int) + (seq![t[j as int]] + insert_idx(es, t.skip(j + 1), k as int))
                =~= t.take(j + 1) + insert_idx(es, t.skip(j + 1), k as int));
            j += 1;
        }
        s.push(k);
        assert(t.skip(j as int) =~= Seq::<int>::empty());
        assert(as_ints(s@) =~= t.take(j as int) + seq![k as int]);
    }

    /// The positions `ks` stably sorted by lowercased name.
    fn sort_exec(es: &Vec<FsEntry>, ks: &Vec<usize>) -> (r: Vec<usize>)
        requires
            forall|m: int| 0 <= m < ks@.len() ==> #[trigger] ks@[m] < es@.len(),
        ensures
            as_ints(r@) == sort_idx(es@, as_ints(ks@)),
    {
        let mut keys: Vec<Vec<char>> = Vec::new();
        let mut m: usize = 0;
        while m < es.len()
            invariant
                m <= es.len(),
                keys@.len() == m,
                forall|q: int| 0 <= q < m ==> #[trigger] keys@[q]@ == sort_key(es@[q]),
            decreases es.len() - m,
        {
            keys.push(lower_chars(&chars_of(es[m].name.as_str())));
            m += 1;
        }
        let ghost kv = as_ints(ks@);
        let mut r: Vec<usize> = Vec::new();
        let mut i: usize = 0;
        assert(kv.take(0) =~= Seq::<int>::empty());
        assert(as_ints(r@) =~= Seq::<int>::empty());
        while i < ks.len()
            invariant
                kv == as_ints(ks@),
                forall|q: int| 0 <= q < ks@.len() ==> #[trigger] ks@[q] < es@.len(),
                keys@.len() == es@.len(),
                forall|q: int| 0 <= q < keys@.len() ==> #[trigger] keys@[q]@ == sort_key(es@[q]),
                i <= ks.len(),
                as_ints(r@) == sort_idx(es@, kv.take(i as int)),
                forall|q: int| 0 <= q < r@.len() ==> #[trigger] r@[q] < es@.len(),
            decreases ks.len() - i,
        {
            assert(kv.take(i + 1).drop_last() =~= kv.take(i as int));
            assert(kv.take(i + 1).last() == ks@[i as int] as int);
            let ghost before = as_ints(r@);
            let ghost old_r = r@;
            Self::insert_exec(&keys, &mut r, ks[i], Ghost(es@));
            proof {
                lemma_insert_idx_elems(es@, before, ks@[i as int] as int);
                assert forall|q: int| 0 <= q < r@.len() implies #[trigger] r@[q] < es@.len() by {
                    assert(as_ints(r@)[q] == r@[q] as int);
                    if r@[q] as int != ks@[i as int] as int {
                        let mm = choose|mm: int| 0 <= mm < before.len() && before[mm] == as_ints(r@)[q];
                        assert(before[mm] == old_r[mm] as int);
                        assert(old_r[mm] < es@.len());
                    }
                }
            }
            i += 1;
        }
        assert(kv.take(ks.len() as int) =~= kv);
        r
    }
}

proof fn lemma_only_filter_none(ns: Seq<NodeView>)
    ensures
        only_filter(None, ns) == ns,
    decreases ns.len(),
{
    if ns.len() > 0 {
        lemma_only_filter_none(ns.drop_last());
        assert(ns.drop_last().push(ns.last()) =~= ns);
    }
}

proof fn lemma_only_filter_files(only: Option<Seq<Seq<char>>>, ns: Seq<NodeView>)
    requires
        forall|i: int| 0 <= i < ns.len() ==> (#[trigger] ns[i]).kind is File,
    ensures
        forall|i: int|
            0 <= i < only_filter(only, ns).len() ==> (#[trigger] only_filter(only, ns)[i]).kind is File,
    decreases ns.len(),
{
    if ns.len() > 0 {
        lemma_only_filter_files(only, ns.drop_last());
    }
}

proof fn lemma_drop_empty_dirs_concat(a: Seq<NodeView>, b: Seq<NodeView>)
    ensures
        drop_empty_dirs(a + b) == drop_empty_dirs(a) + drop_empty_dirs(b),
    decreases b.len(),
{
    if b.len() == 0 {
        assert(a + b =~= a);
        assert(drop_empty_dirs(a) + drop_empty_dirs(b) =~= drop_empty_dirs(a));
    } else {
        lemma_drop_empty_dirs_concat(a, b.drop_last());
        assert((a + b).drop_last() =~= a + b.drop_last());
        assert((a + b).last() == b.last());
        if is_empty_dir_view(b.last()) {
        } else {
            assert(drop_empty_dirs(a) + drop_empty_dirs(b.drop_last()).push(b.last()) =~= (
            drop_empty_dirs(a) + drop_empty_dirs(b.drop_last())).push(b.last()));
        }
    }
}

proof fn lemma_drop_empty_dirs_files(ns: Seq<NodeView>)
    requires
        forall|i: int| 0 <= i < ns.len() ==> (#[trigger] ns[i]).kind is File,
    ensures
        drop_empty_dirs(ns) == ns,
    decreases ns.len(),
{
    if ns.len() > 0 {
        lemma_drop_empty_dirs_files(ns.drop_last());
        assert(ns.drop_last().push(ns.last()) =~= ns);
    }
}

/// Among siblings, every directory comes before every other node.
pub open spec fn dirs_first(ns: Seq<NodeView>) -> bool {
    forall|i: int, j: int|
        0 <= i < j < ns.len() && (#[trigger] ns[j]).kind is Dir ==> (#[trigger] ns[i]).kind is Dir
}

proof fn lemma_drop_empty_dirs_keeps_dirs(ns: Seq<NodeView>)
    requires
        forall|i: int| 0 <= i < ns.len() ==> (#[trigger] ns[i]).kind is Dir,
    ensures
        forall|i: int| 0 <= i < drop_empty_dirs(ns).len() ==> (#[trigger] drop_empty_dirs(ns)[i]).kind is Dir,
    decreases ns.len(),
{
    if ns.len() > 0 {
        lemma_drop_empty_dirs_keeps_dirs(ns.drop_last());
        assert(ns[ns.len() - 1].kind is Dir);
    }
}

proof fn lemma_picked_kinds(w: WalkerView, es: Seq<FsEntry>, d: nat, dirs: bool)
    ensures
        forall|j: int|
            0 <= j < pick(listing_views(w, es, d), sort_idx(es, kept(w, es, dirs))).len() ==> (
            #[trigger] pick(listing_views(w, es, d), sort_idx(es, kept(w, es, dirs)))[j]).kind == (if dirs {
                KindView::Dir
            } else {
                KindView::File
            }),
{
    lemma_listing_views(w, es, d);
    lemma_kept_bounds(w, es, dirs);
    lemma_sort_idx_elems(es, kept(w, es, dirs), dirs);
    let ks = sort_idx(es, kept(w, es, dirs));
    assert forall|j: int| 0 <= j < pick(listing_views(w, es, d), ks).len() implies (
    #[trigger] pick(listing_views(w, es, d), ks)[j]).kind == (if dirs {
        KindView::Dir
    } else {
        KindView::File
    }) by {
        let k = ks[j];
        assert(listing_views(w, es, d)[k] == entry_view(w, es[k], d));
    }
}

/// A directory's directories are listed before its files.
pub proof fn law_directories_before_files(w: WalkerView, es: Seq<FsEntry>, d: nat)
    ensures
        dirs_first(arrange(w, es, listing_views(w, es, d))),
{
    let vs = listing_views(w, es, d);
    let ds = pick(vs, sort_idx(es, kept(w, es, true)));
    let raw_fs = pick(vs, sort_idx(es, kept(w, es, false)));
    let fs = only_filter(w.only, raw_fs);
    lemma_picked_kinds(w, es, d, true);
    lemma_picked_kinds(w, es, d, false);
    lemma_only_filter_files(w.only, raw_fs);
    let front = match w.only {
        Some(_) => drop_empty_dirs(ds),
        None => ds,
    };
    if w.only is Some {
        lemma_drop_empty_dirs_concat(ds, fs);
        lemma_drop_empty_dirs_files(fs);
        lemma_drop_empty_dirs_keeps_dirs(ds);
    }
    let r = arrange(w, es, vs);
    assert(r == front + fs);
    assert forall|i: int, j: int| 0 <= i < j < r.len() && (#[trigger] r[j]).kind is Dir implies (
    #[trigger] r[i]).kind is Dir by {
        if j >= front.len() {
            assert(r[j] == fs[j - front.len()]);
        } else {
            assert(r[i] == front[i]);
        }
    }
}

/// How many levels of nodes hang below `n`.
pub open spec fn view_height(n: NodeView) -> nat
    decreases n, 1nat,
{
    if n.children.len() == 0 {
        0
    } else {
        1 + views_height(n.children)
    }
}

pub open spec fn views_height(cs: Seq<NodeView>) -> nat
    decreases cs, 0nat,
{
    if cs.len() == 0 {
        0
    } else {
        let a = views_height(cs.drop_last());
        let b = view_height(cs.last());
        if a >= b {
            a
        } else {
            b
        }
    }
}

pub open spec fn bounded(ns: Seq<NodeView>, b: nat) -> bool {
    forall|i: int| 0 <= i < ns.len() ==> view_height(#[trigger] ns[i]) <= b
}

proof fn lemma_views_height_bounded(cs: Seq<NodeView>, b: nat)
    requires
        bounded(cs, b),
    ensures
        views_height(cs) <= b,
    decreases cs.len(),
{
    if cs.len() > 0 {
        assert(bounded(cs.drop_last(), b)) by {
            assert forall|i: int| 0 <= i < cs.drop_last().len() implies view_height(
                #[trigger] cs.drop_last()[i],
            ) <= b by {
                assert(cs.drop_last()[i] == cs[i]);
            }
        }
        lemma_views_height_bounded(cs.drop_last(), b);
        assert(view_height(cs[cs.len() - 1]) <= b);
    }
}

proof fn lemma_only_filter_bounded(only: Option<Seq<Seq<char>>>, ns: Seq<NodeView>, b: nat)
    requires
        bounded(ns, b),
    ensures
        bounded(only_filter(only, ns), b),
    decreases ns.len(),
{
    if ns.len() > 0 {
        assert(bounded(ns.drop_last(), b)) by {
            assert forall|i: int| 0 <= i < ns.drop_last().len() implies view_height(
                #[trigger] ns.drop_last()[i],
            ) <= b by {
                assert(ns.drop_last()[i] == ns[i]);
            }
        }
        lemma_only_filter_bounded(only, ns.drop_last(), b);
        assert(view_height(ns[ns.len() - 1]) <= b);
    }
}

proof fn lemma_drop_empty_dirs_bounded(ns: Seq<NodeView>, b: nat)
    requires
        bounded(ns, b),
    ensures
        bounded(drop_empty_dirs(ns), b),
    decreases ns.len(),
{
    if ns.len() > 0 {
        assert(bounded(ns.drop_last(), b)) by {
            assert forall|i: int| 0 <= i < ns.drop_last().len() implies view_height(
                #[trigger] ns.drop_last()[i],
            ) <= b by {
                assert(ns.drop_last()[i] == ns[i]);
            }
        }
        lemma_drop_empty_dirs_bounded(ns.drop_last(), b);
        assert(view_height(ns[ns.len() - 1]) <= b);
    }
}

proof fn lemma_arrange_bounded(w: WalkerView, es: Seq<FsEntry>, vs: Seq<NodeView>, b: nat)
    requires
        vs.len() == es.len(),
        bounded(vs, b),
    ensures
        bounded(arrange(w, es, vs), b),
{
    lemma_kept_bounds(w, es, true);
    lemma_kept_bounds(w, es, false);
    lemma_sort_idx_elems(es, kept(w, es, true), true);
    lemma_sort_idx_elems(es, kept(w, es, false), false);
    let ds = pick(vs, sort_idx(es, kept(w, es, true)));
    let raw_fs = pick(vs, sort_idx(es, kept(w, es, false)));
    assert(bounded(ds, b)) by {
        assert forall|i: int| 0 <= i < ds.len() implies view_height(#[trigger] ds[i]) <= b by {
            assert(ds[i] == vs[sort_idx(es, kept(w, es, true))[i]]);
        }
    }
    assert(bounded(raw_fs, b)) by {
        assert forall|i: int| 0 <= i < raw_fs.len() implies view_height(#[trigger] raw_fs[i]) <= b by {
            assert(raw_fs[i] == vs[sort_idx(es, kept(w, es, false))[i]]);
        }
    }
    let fs = only_filter(w.only, raw_fs);
    lemma_only_filter_bounded(w.only, raw_fs, b);
    assert(bounded(ds + fs, b)) by {
        assert forall|i: int| 0 <= i < (ds + fs).len() implies view_height(#[trigger] (ds + fs)[i]) <= b by {
            if i < ds.len() {
                assert((ds + fs)[i] == ds[i]);
            } else {
                assert((ds + fs)[i] == fs[i - ds.len()]);
            }
        }
    }
    if w.only is Some {
        lemma_drop_empty_dirs_bounded(ds + fs, b);
    }
}

proof fn lemma_entry_height(w: WalkerView, e: FsEntry, d: nat)
    requires
        w.max_depth > 0,
        1 <= d <= w.max_depth + 1,
    ensures
        view_height(entry_view(w, e, d)) <= w.max_depth + 2 - d,
    decreases e, 1nat,
{
    let n = entry_view(w, e, d);
    if e.is_dir {
        if reads_at(w, d) {
            match e.listing {
                Some(l) => {
                    assert(decreases_to!(e => e.listing));
                    lemma_listing_height(w, l@, d + 1);
                    lemma_listing_views(w, l@, d + 1);
                    lemma_arrange_bounded(
                        w,
                        l@,
                        listing_views(w, l@, d + 1),
                        (w.max_depth + 2 - (d + 1)) as nat,
                    );
                    lemma_views_height_bounded(n.children, (w.max_depth + 2 - (d + 1)) as nat);
                },
                None => {},
            }
        } else if e.entry_count > 0 {
            assert(bounded(n.children, 0)) by {
                assert forall|i: int| 0 <= i < n.children.len() implies view_height(
                    #[trigger] n.children[i],
                ) <= 0 by {
                    assert(n.children[i] == depth_limit_node(e, d));
                }
            }
            lemma_views_height_bounded(n.children, 0);
        }
    }
}

proof fn lemma_listing_height(w: WalkerView, es: Seq<FsEntry>, d: nat)
    requires
        w.max_depth > 0,
        1 <= d <= w.max_depth + 1,
    ensures
        bounded(listing_views(w, es, d), (w.max_depth + 2 - d) as nat),
    decreases es, 0nat,
{
    lemma_listing_views(w, es, d);
    assert forall|k: int| 0 <= k < listing_views(w, es, d).len() implies view_height(
        #[trigger] listing_views(w, es, d)[k],
    ) <= (w.max_depth + 2 - d) as nat by {
        assert(decreases_to!(es => es[k]));
        lemma_entry_height(w, es[k], d);
    }
}

/// With a depth limit `N`, no directory below level `N` is read: the tree nests at
/// most `N + 2` levels deep, the last level being the entry counts of the directories
/// at level `N + 1`.
pub proof fn law_depth_limit_bounds_nesting(w: WalkerView, listing: Seq<FsEntry>)
    requires
        w.max_depth > 0,
    ensures
        view_height(raw_tree(w, listing)) <= w.max_depth + 2,
{
    lemma_listing_height(w, listing, 1);
    lemma_listing_views(w, listing, 1);
    lemma_arrange_bounded(w, listing, listing_views(w, listing, 1), (w.max_depth + 1) as nat);
    lemma_views_height_bounded(raw_tree(w, listing).children, (w.max_depth + 1) as nat);
}

impl Walker {
    fn passes_only_exec(&self, ext: &Option<String>) -> (r: bool)
        ensures
            r == ext_passes(
                self@.only,
                match ext {
                    Some(e) => Some(e@),
                    None => None,
                },
            ),
    {
        match &self.only_exts {
            None => true,
            Some(set) => match ext {
                None => false,
                Some(e) => {
                    assert(self@.only == Some(set@.map_values(|s: String| s@)));
                    let ec = chars_of(e.as_str());
                    let mut i: usize = 0;
                    while i < set.len()
                        invariant
                            i <= set.len(),
                            ec@ == e@,
                            self@.only == Some(set@.map_values(|s: String| s@)),
                            *ext == Some(*e),
                            forall|q: int| 0 <= q < i ==> set@[q]@ != e@,
                        decreases set.len() - i,
                    {
                        if chars_eq(&chars_of(set[i].as_str()), &ec) {
                            assert(set@.map_values(|s: String| s@)[i as int] == e@);
                            assert(set@.map_values(|s: String| s@).contains(e@));
                            return true;
                        }
                        i += 1;
                    }
                    proof {
                        let m = set@.map_values(|s: String| s@);
                        if m.contains(e@) {
                            let q = choose|q: int| 0 <= q < m.len() && m[q] == e@;
                            assert(set@[q]@ == e@);
                        }
                    }
                    false
                },
            },
        }
    }

    fn file_node(&self, e: &FsEntry, d: usize) -> (r: TreeNode)
        ensures
            view_node(r) == file_view(self@, *e, d as nat),
            r.kind is File,
    {
        let role = classify_file(e.path.as_str(), self.project.as_str(), &self.framework);
        let pc = chars_of(e.path.as_str());
        let ext: Option<String> = match file_name_exec(&pc) {
            Some(n) => match stem_and_ext(&n).1 {
                Some(x) => Some(string_of(&lower_chars(&x))),
                None => None,
            },
            None => None,
        };
        let r = TreeNode::new_file(e.name.clone(), e.path.clone(), d, role, ext);
        assert(r.children@ =~= Seq::<TreeNode>::empty());
        assert(view_list(r.children@) =~= Seq::<NodeView>::empty());
        r
    }

    fn dir_node(&self, e: &FsEntry, d: usize) -> (r: TreeNode)
        requires
            e.is_dir,
            d + height(*e) + 1 <= usize::MAX,
        ensures
            view_node(r) == entry_view(self@, *e, d as nat),
            r.kind is Dir,
        decreases e, 1nat,
    {
        let mut node = TreeNode::new_dir(e.name.clone(), e.path.clone(), d);
        assert(view_list(node.children@) =~= Seq::<NodeView>::empty());
        if self.max_depth == 0 || d <= self.max_depth {
            match &e.listing {
                Some(l) => {
                    proof {
                        assert(decreases_to!(e => e.listing));
                    }
                    let cs = self.walk_dir(l, d + 1);
                    node.children = cs;
                },
                None => {},
            }
        } else if e.entry_count > 0 {
            let a = concat_chars(&chars_of("… "), &decimal_chars(e.entry_count));
            let name = concat_chars(&a, &chars_of(" more"));
            let marker = TreeNode {
                name: string_of(&name),
                path: e.path.clone(),
                kind: NodeKind::Collapsed {
                    count: e.entry_count,
                    pattern: String::from_str("depth-limit"),
                },
                children: Vec::new(),
                role: FileRole::Unknown,
                ext: None,
                depth: d + 1,
            };
            assert(view_list(marker.children@) =~= Seq::<NodeView>::empty());
            node.children.push(marker);
            proof {
                crate::tree::lemma_view_list_push(Seq::<TreeNode>::empty(), marker);
                assert(Seq::<TreeNode>::empty().push(marker) =~= node.children@);
                assert(view_node(marker) == depth_limit_node(*e, d as nat));
            }
        }
        node
    }

    /// The nodes of the directory entries at positions `ds`, empty ones
    /// dropped under `--only`.
    fn dir_nodes(&self, es: &Vec<FsEntry>, ds: &Vec<usize>, d: usize) -> (r: Vec<TreeNode>)
        requires
            forall|q: int| 0 <= q < ds@.len() ==> #[trigger] ds@[q] < es@.len() && es@[ds@[q] as int].is_dir,
            d + list_height(es@) + 1 <= usize::MAX,
        ensures
            view_list(r@) == (if self@.only is Some {
                drop_empty_dirs(pick(listing_views(self@, es@, d as nat), as_ints(ds@)))
            } else {
                pick(listing_views(self@, es@, d as nat), as_ints(ds@))
            }),
        decreases es, 0nat,
    {
        let ghost w = self@;
        let ghost vs = listing_views(w, es@, d as nat);
        let ghost dn = pick(vs, as_ints(ds@));
        proof {
            lemma_listing_views(w, es@, d as nat);
        }
        let only = self.only_exts.is_some();
        let mut out: Vec<TreeNode> = Vec::new();
        let mut j: usize = 0;
        assert(dn.take(0) =~= Seq::<NodeView>::empty());
        assert(view_list(out@) =~= Seq::<NodeView>::empty());
        while j < ds.len()
            invariant
                w == self@,
                vs == listing_views(w, es@, d as nat),
                vs.len() == es@.len(),
                forall|k: int| 0 <= k < es@.len() ==> #[trigger] vs[k] == entry_view(w, es@[k], d as nat),
                forall|q: int| 0 <= q < ds@.len() ==> #[trigger] ds@[q] < es@.len() && es@[ds@[q] as int].is_dir,
                dn == pick(vs, as_ints(ds@)),
                only == (w.only is Some),
                d + list_height(es@) + 1 <= usize::MAX,
                j <= ds.len(),
                view_list(out@) == (if only {
                    drop_empty_dirs(dn.take(j as int))
                } else {
                    dn.take(j as int)
                }),
            decreases ds.len() - j,
        {
            let k = ds[j];
            let e = &es[k];
            proof {
                lemma_list_height(es@, k as int);
                assert(decreases_to!(es => es@));
                assert(decreases_to!(es@ => es@[k as int]));
            }
            let n = self.dir_node(e, d);
            assert(as_ints(ds@)[j as int] == k as int);
            assert(view_node(n) == dn[j as int]);
            assert(dn.take(j + 1) =~= dn.take(j as int).push(dn[j as int]));
            assert(dn.take(j + 1).drop_last() =~= dn.take(j as int));
            proof {
                lemma_view_list_len(n.children@);
            }
            if !only || n.children.len() > 0 {
                let ghost pre = out@;
                out.push(n);
                proof {
                    crate::tree::lemma_view_list_push(pre, n);
                }
            }
            j += 1;
        }
        assert(dn.take(ds.len() as int) =~= dn);
        out
    }

    /// Appends the nodes of the file entries at positions `fs` that pass `--only`.
    fn file_nodes(&self, es: &Vec<FsEntry>, fs: &Vec<usize>, d: usize, out: &mut Vec<TreeNode>)
        requires
            forall|q: int| 0 <= q < fs@.len() ==> #[trigger] fs@[q] < es@.len() && !es@[fs@[q] as int].is_dir,
        ensures
            view_list(final(out)@) == view_list(old(out)@) + only_filter(
                self@.only,
                pick(listing_views(self@, es@, d as nat), as_ints(fs@)),
            ),
    {
        let ghost w = self@;
        let ghost vs = listing_views(w, es@, d as nat);
        let ghost fn_ = pick(vs, as_ints(fs@));
        let ghost start = view_list(out@);
        proof {
            lemma_listing_views(w, es@, d as nat);
        }
        let mut i: usize = 0;
        assert(fn_.take(0) =~= Seq::<NodeView>::empty());
        assert(start + only_filter(w.only, fn_.take(0)) =~= start);
        while i < fs.len()
            invariant
                w == self@,
                vs == listing_views(w, es@, d as nat),
                vs.len() == es@.len(),
                forall|k: int| 0 <= k < es@.len() ==> #[trigger] vs[k] == entry_view(w, es@[k], d as nat),
                forall|q: int| 0 <= q < fs@.len() ==> #[trigger] fs@[q] < es@.len() && !es@[fs@[q] as int].is_dir,
                fn_ == pick(vs, as_ints(fs@)),
                i <= fs.len(),
                view_list(out@) == start + only_filter(w.only, fn_.take(i as int)),
            decreases fs.len() - i,
        {
            let k = fs[i];
            let e = &es[k];
            let n = self.file_node(e, d);
            assert(as_ints(fs@)[i as int] == k as int);
            assert(view_node(n) == fn_[i as int]);
            assert(fn_.take(i + 1).drop_last() =~= fn_.take(i as int));
            assert(fn_.take(i + 1).last() == fn_[i as int]);
            if self.passes_only_exec(&n.ext) {
                let ghost pre = out@;
                out.push(n);
                proof {
                    crate::tree::lemma_view_list_push(pre, n);
                    assert(start + only_filter(w.only, fn_.take(i as int)).push(fn_[i as int]) =~= (
                    start + only_filter(w.only, fn_.take(i as int))).push(fn_[i as int]));
                }
            }
            i += 1;
        }
        assert(fn_.take(fs.len() as int) =~= fn_);
    }

    /// The children of a directory at depth `d - 1` whose entries are `es`.
    fn walk_dir(&self, es: &Vec<FsEntry>, d: usize) -> (r: Vec<TreeNode>)
        requires
            d + list_height(es@) + 1 <= usize::MAX,
        ensures
            view_list(r@) == arrange(self@, es@, listing_views(self@, es@, d as nat)),
        decreases es, 1nat,
    {
        let ghost w = self@;
        let ghost vs = listing_views(w, es@, d as nat);
        proof {
            lemma_listing_views(w, es@, d as nat);
            lemma_kept_bounds(w, es@, true);
            lemma_kept_bounds(w, es@, false);
        }
        let dk = self.kept_exec(es, true);
        let fk = self.kept_exec(es, false);
        assert forall|m: int| 0 <= m < dk@.len() implies #[trigger] dk@[m] < es@.len() by {
            assert(as_ints(dk@)[m] == dk@[m] as int);
        }
        assert forall|m: int| 0 <= m < fk@.len() implies #[trigger] fk@[m] < es@.len() by {
            assert(as_ints(fk@)[m] == fk@[m] as int);
        }
        let ds = Self::sort_exec(es, &dk);
        let fs = Self::sort_exec(es, &fk);
        proof {
            lemma_sort_idx_elems(es@, kept(w, es@, true), true);
            lemma_sort_idx_elems(es@, kept(w, es@, false), false);
            assert forall|q: int| 0 <= q < ds@.len() implies #[trigger] ds@[q] < es@.len() && es@[ds@[q] as int].is_dir by {
                assert(as_ints(ds@)[q] == ds@[q] as int);
            }
            assert forall|q: int| 0 <= q < fs@.len() implies #[trigger] fs@[q] < es@.len() && !es@[fs@[q] as int].is_dir by {
                assert(as_ints(fs@)[q] == fs@[q] as int);
            }
        }
        let mut out = self.dir_nodes(es, &ds, d);
        self.file_nodes(es, &fs, d, &mut out);
        proof {
            let fn_ = pick(vs, as_ints(fs@));
            let dn = pick(vs, as_ints(ds@));
            assert forall|q: int| 0 <= q < fn_.len() implies (#[trigger] fn_[q]).kind is File by {
                assert(fn_[q] == vs[as_ints(fs@)[q]]);
                assert(as_ints(fs@)[q] == fs@[q] as int);
            }
            lemma_only_filter_files(w.only, fn_);
            if w.only is Some {
                lemma_drop_empty_dirs_concat(dn, only_filter(w.only, fn_));
                lemma_drop_empty_dirs_files(only_filter(w.only, fn_));
            } else {
                lemma_only_filter_none(fn_);
            }
        }
        out
    }
}

// ───────────────────────────── collapsing ─────────────────────────────

/// The extensions of the nodes, in order, for those that have one.
pub open spec fn ext_list(cs: Seq<NodeView>) -> Seq<Seq<char>>
    decreases cs.len(),
{
    if cs.len() == 0 {
        Seq::<Seq<char>>::empty()
    } else {
        match cs.last().ext {
            Some(e) => ext_list(cs.drop_last()).push(e),
            None => ext_list(cs.drop_last()),
        }
    }
}

/// `x` added to an ordered list of distinct texts.
pub open spec fn insert_unique(s: Seq<Seq<char>>, x: Seq<char>) -> Seq<Seq<char>>
    decreases s.len(),
{
    if s.len() == 0 {
        seq![x]
    } else if s[0] == x {
        s
    } else if seq_lt(x, s[0]) {
        seq![x] + s
    } else {
        seq![s[0]] + insert_unique(s.drop_first(), x)
    }
}

/// The distinct texts of `xs` in order: what a sort followed by a dedup gives.
pub open spec fn sorted_set(xs: Seq<Seq<char>>) -> Seq<Seq<char>>
    decreases xs.len(),
{
    if xs.len() == 0 {
        Seq::<Seq<char>>::empty()
    } else {
        insert_unique(sorted_set(xs.drop_last()), xs.last())
    }
}

/// A directory's shape: the distinct extensions of its entries, in order,
/// joined with commas.
pub open spec fn shape(n: NodeView) -> Seq<char> {
    crate::text::join(sorted_set(ext_list(n.children)), ","@)
}

/// Directories with entries take part in collapsing.
pub open spec fn candidate(n: NodeView) -> bool {
    n.kind is Dir && n.children.len() > 0
}

pub open spec fn same_group(a: NodeView, b: NodeView) -> bool {
    candidate(a) && candidate(b) && shape(a) == shape(b)
}

/// How many of the first `k` siblings share the shape of `c`.
pub open spec fn group_count(cs: Seq<NodeView>, k: int, c: NodeView) -> nat
    decreases k,
{
    if k <= 0 {
        0
    } else {
        group_count(cs, k - 1, c) + if same_group(cs[k - 1], c) {
            1nat
        } else {
            0nat
        }
    }
}

/// Whether no earlier sibling shares the shape of `cs[i]`.
pub open spec fn first_of_group(cs: Seq<NodeView>, i: int) -> bool {
    group_count(cs, i, cs[i]) == 0
}

/// The node that stands for `count` similar directories, the first being `c`.
pub open spec fn collapsed_node(c: NodeView, count: nat) -> NodeView {
    NodeView {
        name: c.name + " ×"@ + decimal(count) + " (similar structure)"@,
        path: c.path,
        kind: KindView::Collapsed { count, pattern: c.name },
        children: Seq::<NodeView>::empty(),
        role: FileRole::Unknown,
        ext: None,
        depth: c.depth,
    }
}

/// The first `k` siblings after collapsing: four or more directories of one
/// shape become one collapsed node at the place of the first of them.
pub open spec fn regroup_upto(cs: Seq<NodeView>, k: int) -> Seq<NodeView>
    decreases k,
{
    if k <= 0 {
        Seq::<NodeView>::empty()
    } else {
        let rest = regroup_upto(cs, k - 1);
        let c = cs[k - 1];
        let n = group_count(cs, cs.len() as int, c);
        if candidate(c) && n >= 4 {
            if first_of_group(cs, k - 1) {
                rest.push(collapsed_node(c, n))
            } else {
                rest
            }
        } else {
            rest.push(c)
        }
    }
}

pub open spec fn regroup(cs: Seq<NodeView>) -> Seq<NodeView> {
    regroup_upto(cs, cs.len() as int)
}

/// A tree with repeated sibling patterns collapsed, deepest levels first.
pub open spec fn collapse_view(n: NodeView) -> NodeView
    decreases n, 1nat,
{
    NodeView { children: regroup(collapse_list(n.children)), ..n }
}

pub open spec fn collapse_list(cs: Seq<NodeView>) -> Seq<NodeView>
    decreases cs, 0nat,
{
    if cs.len() == 0 {
        Seq::<NodeView>::empty()
    } else {
        let c = cs.last();
        collapse_list(cs.drop_last()).push(
            if c.kind is Dir {
                collapse_view(c)
            } else {
                c
            },
        )
    }
}

/// Whether some shape is shared by four or more sibling directories.
pub open spec fn has_repeats(cs: Seq<NodeView>) -> bool {
    exists|i: int| 0 <= i < cs.len() && candidate(#[trigger] cs[i]) && group_count(cs, cs.len() as int, cs[i]) >= 4
}

/// Each node after collapsing is a sibling kept as it was, or one collapsed node
/// standing for the four or more directories that share the shape of a sibling.
pub open spec fn regrouped_from(cs: Seq<NodeView>, r: Seq<NodeView>) -> bool {
    forall|i: int|
        0 <= i < r.len() ==> exists|j: int|
            0 <= j < cs.len() && (#[trigger] r[i] == cs[j] || (group_count(cs, cs.len() as int, cs[j]) >= 4
                && r[i] == collapsed_node(cs[j], group_count(cs, cs.len() as int, cs[j]))))
}

proof fn lemma_regroup_upto_plain(cs: Seq<NodeView>, k: int)
    requires
        0 <= k <= cs.len(),
        !has_repeats(cs),
    ensures
        regroup_upto(cs, k) == cs.take(k),
    decreases k,
{
    if k > 0 {
        lemma_regroup_upto_plain(cs, k - 1);
        assert(!(candidate(cs[k - 1]) && group_count(cs, cs.len() as int, cs[k - 1]) >= 4));
        assert(cs.take(k - 1).push(cs[k - 1]) =~= cs.take(k));
    } else {
        assert(cs.take(0) =~= Seq::<NodeView>::empty());
    }
}

proof fn lemma_regroup_upto_from(cs: Seq<NodeView>, k: int)
    requires
        0 <= k <= cs.len(),
    ensures
        regrouped_from(cs, regroup_upto(cs, k)),
    decreases k,
{
    if k > 0 {
        lemma_regroup_upto_from(cs, k - 1);
        let rest = regroup_upto(cs, k - 1);
        let r = regroup_upto(cs, k);
        let c = cs[k - 1];
        assert forall|i: int| 0 <= i < r.len() implies exists|j: int|
            0 <= j < cs.len() && (#[trigger] r[i] == cs[j] || (group_count(cs, cs.len() as int, cs[j]) >= 4
                && r[i] == collapsed_node(cs[j], group_count(cs, cs.len() as int, cs[j])))) by {
            if i < rest.len() {
                assert(r[i] == rest[i]);
            } else {
                assert(cs[k - 1] == c);
            }
        }
    }
}

/// Collapsing leaves siblings alone unless four or more directories share a shape,
/// and every node it makes stands for four or more such directories.
pub proof fn law_collapse_needs_four_alike(cs: Seq<NodeView>)
    ensures
        !has_repeats(cs) ==> regroup(cs) == cs,
        regrouped_from(cs, regroup(cs)),
{
    if !has_repeats(cs) {
        lemma_regroup_upto_plain(cs, cs.len() as int);
        assert(cs.take(cs.len() as int) =~= cs);
    }
    lemma_regroup_upto_from(cs, cs.len() as int);
}

// ─────────────────── collapsing a second time ───────────────────

proof fn lemma_group_count_push(s: Seq<NodeView>, y: NodeView, k: int, c: NodeView)
    requires
        0 <= k <= s.len(),
    ensures
        group_count(s.push(y), k, c) == group_count(s, k, c),
    decreases k,
{
    if k > 0 {
        lemma_group_count_push(s, y, k - 1, c);
        assert(s.push(y)[k - 1] == s[k - 1]);
    }
}

/// Regrouping never makes a shape more frequent among the siblings.
proof fn lemma_regroup_upto_count(cs: Seq<NodeView>, k: int, c: NodeView)
    requires
        0 <= k <= cs.len(),
    ensures
        group_count(regroup_upto(cs, k), regroup_upto(cs, k).len() as int, c) <= group_count(cs, k, c),
    decreases k,
{
    if k > 0 {
        lemma_regroup_upto_count(cs, k - 1, c);
        let rest = regroup_upto(cs, k - 1);
        let r = regroup_upto(cs, k);
        if r.len() == rest.len() + 1 {
            assert(r =~= rest.push(r.last()));
            lemma_group_count_push(rest, r.last(), rest.len() as int, c);
            assert(r[rest.len() as int] == r.last());
        }
    }
}

/// Every directory that regrouping keeps was a sibling whose shape fewer than four
/// siblings share.
proof fn lemma_regroup_upto_kept(cs: Seq<NodeView>, k: int)
    requires
        0 <= k <= cs.len(),
    ensures
        forall|i: int|
            0 <= i < regroup_upto(cs, k).len() && candidate(#[trigger] regroup_upto(cs, k)[i])
                ==> exists|j: int|
                0 <= j < cs.len() && regroup_upto(cs, k)[i] == cs[j] && group_count(
                    cs,
                    cs.len() as int,
                    cs[j],
                ) < 4,
    decreases k,
{
    if k > 0 {
        lemma_regroup_upto_kept(cs, k - 1);
        let rest = regroup_upto(cs, k - 1);
        let r = regroup_upto(cs, k);
        assert forall|i: int| 0 <= i < r.len() && candidate(#[trigger] r[i]) implies exists|j: int|
            0 <= j < cs.len() && r[i] == cs[j] && group_count(cs, cs.len() as int, cs[j]) < 4 by {
            if i < rest.len() {
                assert(r[i] == rest[i]);
            } else {
                assert(r[i] == cs[k - 1]);
            }
        }
    }
}

/// After regrouping, no shape is shared by four or more sibling directories.
proof fn lemma_regroup_has_no_repeats(cs: Seq<NodeView>)
    ensures
        !has_repeats(regroup(cs)),
{
    let r = regroup(cs);
    lemma_regroup_upto_kept(cs, cs.len() as int);
    if has_repeats(r) {
        let i = choose|i: int|
            0 <= i < r.len() && candidate(#[trigger] r[i]) && group_count(r, r.len() as int, r[i]) >= 4;
        let j = choose|j: int|
            0 <= j < cs.len() && r[i] == cs[j] && group_count(cs, cs.len() as int, cs[j]) < 4;
        lemma_regroup_upto_count(cs, cs.len() as int, r[i]);
    }
}

proof fn lemma_collapse_list_at(cs: Seq<NodeView>, i: int)
    requires
        0 <= i < cs.len(),
    ensures
        collapse_list(cs).len() == cs.len(),
        collapse_list(cs)[i] == (if cs[i].kind is Dir {
            collapse_view(cs[i])
        } else {
            cs[i]
        }),
    decreases cs.len(),
{
    lemma_collapse_list_len(cs);
    if i < cs.len() - 1 {
        lemma_collapse_list_at(cs.drop_last(), i);
        lemma_collapse_list_len(cs.drop_last());
    }
}

/// A list whose directories are already collapsed is left as it is.
proof fn lemma_collapse_list_fixed(cs: Seq<NodeView>)
    requires
        forall|i: int| 0 <= i < cs.len() && (#[trigger] cs[i]).kind is Dir ==> collapse_view(cs[i]) == cs[i],
    ensures
        collapse_list(cs) == cs,
    decreases cs.len(),
{
    if cs.len() > 0 {
        lemma_collapse_list_fixed(cs.drop_last());
        assert(cs.drop_last().push(cs.last()) =~= cs);
    } else {
        assert(collapse_list(cs) =~= cs);
    }
}

proof fn lemma_collapse_twice(n: NodeView)
    ensures
        collapse_view(collapse_view(n)) == collapse_view(n),
    decreases n, 1nat,
{
    assert(decreases_to!(n => n.children));
    lemma_collapse_list_twice(n.children);
    let x = collapse_list(n.children);
    let r = regroup(x);
    lemma_collapse_list_len(n.children);
    law_collapse_needs_four_alike(x);
    assert forall|i: int| 0 <= i < r.len() && (#[trigger] r[i]).kind is Dir implies collapse_view(r[i])
        == r[i] by {
        let j = choose|j: int|
            0 <= j < x.len() && (r[i] == x[j] || (group_count(x, x.len() as int, x[j]) >= 4 && r[i]
                == collapsed_node(x[j], group_count(x, x.len() as int, x[j]))));
        assert(r[i] == x[j]);
        lemma_collapse_list_at(n.children, j);
    }
    lemma_collapse_list_fixed(r);
    lemma_regroup_has_no_repeats(x);
    law_collapse_needs_four_alike(r);
}

proof fn lemma_collapse_list_twice(cs: Seq<NodeView>)
    ensures
        forall|i: int|
            0 <= i < cs.len() ==> collapse_view(collapse_view(#[trigger] cs[i])) == collapse_view(cs[i]),
    decreases cs, 0nat,
{
    assert forall|i: int| 0 <= i < cs.len() implies collapse_view(collapse_view(#[trigger] cs[i]))
        == collapse_view(cs[i]) by {
        assert(decreases_to!(cs => cs[i]));
        lemma_collapse_twice(cs[i]);
    }
}

/// Collapsing a collapsed tree changes nothing.
pub proof fn law_collapse_is_idempotent(n: NodeView)
    ensures
        collapse_view(collapse_view(n)) == collapse_view(n),
{
    lemma_collapse_twice(n);
}

// ─────────────────── what marks a plain walk leaves ───────────────────

/// Whether `n` and every node below it that stands for left-out entries marks a
/// directory cut off by the depth limit.
pub open spec fn marks_depth_limit_only(n: NodeView) -> bool
    decreases n, 1nat,
{
    (n.kind is Collapsed ==> n.kind->pattern == "depth-limit"@) && all_mark_depth_limit_only(
        n.children,
    )
}

pub open spec fn all_mark_depth_limit_only(cs: Seq<NodeView>) -> bool
    decreases cs, 0nat,
{
    if cs.len() == 0 {
        true
    } else {
        all_mark_depth_limit_only(cs.drop_last()) && marks_depth_limit_only(cs.last())
    }
}

pub open spec fn each_marks_depth_limit_only(ns: Seq<NodeView>) -> bool {
    forall|i: int| 0 <= i < ns.len() ==> marks_depth_limit_only(#[trigger] ns[i])
}

proof fn lemma_all_mark_depth_limit_only(cs: Seq<NodeView>)
    requires
        each_marks_depth_limit_only(cs),
    ensures
        all_mark_depth_limit_only(cs),
    decreases cs.len(),
{
    if cs.len() > 0 {
        assert(each_marks_depth_limit_only(cs.drop_last())) by {
            assert forall|i: int| 0 <= i < cs.drop_last().len() implies marks_depth_limit_only(
                #[trigger] cs.drop_last()[i],
            ) by {
                assert(cs.drop_last()[i] == cs[i]);
            }
        }
        lemma_all_mark_depth_limit_only(cs.drop_last());
        assert(marks_depth_limit_only(cs[cs.len() - 1]));
    }
}

proof fn lemma_only_filter_marks(only: Option<Seq<Seq<char>>>, ns: Seq<NodeView>)
    requires
        each_marks_depth_limit_only(ns),
    ensures
        each_marks_depth_limit_only(only_filter(only, ns)),
    decreases ns.len(),
{
    if ns.len() > 0 {
        assert(each_marks_depth_limit_only(ns.drop_last())) by {
            assert forall|i: int| 0 <= i < ns.drop_last().len() implies marks_depth_limit_only(
                #[trigger] ns.drop_last()[i],
            ) by {
                assert(ns.drop_last()[i] == ns[i]);
            }
        }
        lemma_only_filter_marks(only, ns.drop_last());
        assert(marks_depth_limit_only(ns[ns.len() - 1]));
    }
}

proof fn lemma_drop_empty_dirs_marks(ns: Seq<NodeView>)
    requires
        each_marks_depth_limit_only(ns),
    ensures
        each_marks_depth_limit_only(drop_empty_dirs(ns)),
    decreases ns.len(),
{
    if ns.len() > 0 {
        assert(each_marks_depth_limit_only(ns.drop_last())) by {
            assert forall|i: int| 0 <= i < ns.drop_last().len() implies marks_depth_limit_only(
                #[trigger] ns.drop_last()[i],
            ) by {
                assert(ns.drop_last()[i] == ns[i]);
            }
        }
        lemma_drop_empty_dirs_marks(ns.drop_last());
        assert(marks_depth_limit_only(ns[ns.len() - 1]));
    }
}

proof fn lemma_arrange_marks(w: WalkerView, es: Seq<FsEntry>, vs: Seq<NodeView>)
    requires
        vs.len() == es.len(),
        each_marks_depth_limit_only(vs),
    ensures
        each_marks_depth_limit_only(arrange(w, es, vs)),
{
    lemma_kept_bounds(w, es, true);
    lemma_kept_bounds(w, es, false);
    lemma_sort_idx_elems(es, kept(w, es, true), true);
    lemma_sort_idx_elems(es, kept(w, es, false), false);
    let ds = pick(vs, sort_idx(es, kept(w, es, true)));
    let raw_fs = pick(vs, sort_idx(es, kept(w, es, false)));
    assert(each_marks_depth_limit_only(ds)) by {
        assert forall|i: int| 0 <= i < ds.len() implies marks_depth_limit_only(#[trigger] ds[i]) by {
            assert(ds[i] == vs[sort_idx(es, kept(w, es, true))[i]]);
        }
    }
    assert(each_marks_depth_limit_only(raw_fs)) by {
        assert forall|i: int| 0 <= i < raw_fs.len() implies marks_depth_limit_only(
            #[trigger] raw_fs[i],
        ) by {
            assert(raw_fs[i] == vs[sort_idx(es, kept(w, es, false))[i]]);
        }
    }
    let fs = only_filter(w.only, raw_fs);
    lemma_only_filter_marks(w.only, raw_fs);
    assert(each_marks_depth_limit_only(ds + fs)) by {
        assert forall|i: int| 0 <= i < (ds + fs).len() implies marks_depth_limit_only(
            #[trigger] (ds + fs)[i],
        ) by {
            if i < ds.len() {
                assert((ds + fs)[i] == ds[i]);
            } else {
                assert((ds + fs)[i] == fs[i - ds.len()]);
            }
        }
    }
    if w.only is Some {
        lemma_drop_empty_dirs_marks(ds + fs);
    }
}

proof fn lemma_entry_marks(w: WalkerView, e: FsEntry, d: nat)
    ensures
        marks_depth_limit_only(entry_view(w, e, d)),
    decreases e, 1nat,
{
    let n = entry_view(w, e, d);
    if e.is_dir {
        if reads_at(w, d) {
            match e.listing {
                Some(l) => {
                    assert(decreases_to!(e => e.listing));
                    lemma_listing_marks(w, l@, d + 1);
                    lemma_listing_views(w, l@, d + 1);
                    lemma_arrange_marks(w, l@, listing_views(w, l@, d + 1));
                    lemma_all_mark_depth_limit_only(n.children);
                },
                None => {},
            }
        } else if e.entry_count > 0 {
            let c = depth_limit_node(e, d);
            assert(all_mark_depth_limit_only(c.children));
            assert(marks_depth_limit_only(c));
            assert(n.children =~= seq![c]);
            assert(n.children.drop_last() =~= Seq::<NodeView>::empty());
        }
    }
}

proof fn lemma_listing_marks(w: WalkerView, es: Seq<FsEntry>, d: nat)
    ensures
        each_marks_depth_limit_only(listing_views(w, es, d)),
    decreases es, 0nat,
{
    lemma_listing_views(w, es, d);
    assert forall|k: int| 0 <= k < listing_views(w, es, d).len() implies marks_depth_limit_only(
        #[trigger] listing_views(w, es, d)[k],
    ) by {
        assert(decreases_to!(es => es[k]));
        lemma_entry_marks(w, es[k], d);
    }
}

/// Without `--collapse`, the only nodes that stand for left-out entries are those
/// of directories cut off by the depth limit.
pub proof fn law_plain_walk_marks_only_depth_limits(w: WalkerView, listing: Seq<FsEntry>)
    requires
        !w.collapse,
    ensures
        marks_depth_limit_only(walk_spec(w, listing)),
{
    lemma_listing_marks(w, listing, 1);
    lemma_listing_views(w, listing, 1);
    lemma_arrange_marks(w, listing, listing_views(w, listing, 1));
    lemma_all_mark_depth_limit_only(raw_tree(w, listing).children);
}

/// The tree that the walk builds from the root's listing.
pub open spec fn walk_spec(w: WalkerView, listing: Seq<FsEntry>) -> NodeView {
    if w.collapse {
        collapse_view(raw_tree(w, listing))
    } else {
        raw_tree(w, listing)
    }
}

proof fn lemma_collapse_list_push(cs: Seq<NodeView>, c: NodeView)
    ensures
        collapse_list(cs.push(c)) == collapse_list(cs).push(
            if c.kind is Dir {
                collapse_view(c)
            } else {
                c
            },
        ),
{
    assert(cs.push(c).drop_last() =~= cs);
}

proof fn lemma_collapse_list_len(cs: Seq<NodeView>)
    ensures
        collapse_list(cs).len() == cs.len(),
    decreases cs.len(),
{
    if cs.len() > 0 {
        lemma_collapse_list_len(cs.drop_last());
    }
}

fn ext_list_exec(cs: &Vec<TreeNode>) -> (r: Vec<Vec<char>>)
    ensures
        r@.map_values(|v: Vec<char>| v@) == ext_list(view_list(cs@)),
{
    let mut r: Vec<Vec<char>> = Vec::new();
    let mut i: usize = 0;
    proof {
        lemma_view_list_len(cs@);
    }
    assert(view_list(cs@.take(0)) =~= Seq::<NodeView>::empty());
    assert(r@.map_values(|v: Vec<char>| v@) =~= Seq::<Seq<char>>::empty());
    while i < cs.len()
        invariant
            i <= cs.len(),
            r@.map_values(|v: Vec<char>| v@) == ext_list(view_list(cs@.take(i as int))),
        decreases cs.len() - i,
    {
        proof {
            crate::tree::lemma_view_list_push(cs@.take(i as int), cs@[i as int]);
            assert(cs@.take(i as int).push(cs@[i as int]) =~= cs@.take(i + 1));
            let v = view_list(cs@.take(i + 1));
            assert(v.drop_last() =~= view_list(cs@.take(i as int)));
        }
        match &cs[i].ext {
            Some(e) => {
                let ghost pre = r@.map_values(|v: Vec<char>| v@);
                r.push(chars_of(e.as_str()));
                assert(r@.map_values(|v: Vec<char>| v@) =~= pre.push(e@));
            },
            None => {},
        }
        i += 1;
    }
    assert(cs@.take(cs.len() as int) =~= cs@);
    r
}

fn insert_unique_exec(s: &mut Vec<Vec<char>>, x: Vec<char>)
    ensures
        final(s)@.map_values(|v: Vec<char>| v@) == insert_unique(
            old(s)@.map_values(|v: Vec<char>| v@),
            x@,
        ),
{
    let ghost t = old(s)@.map_values(|v: Vec<char>| v@);
    let mut j: usize = 0;
    assert(t.skip(0) =~= t);
    assert(t.take(0) + insert_unique(t.skip(0), x@) =~= insert_unique(t, x@));
    while j < s.len()
        invariant
            s@ == old(s)@,
            t == old(s)@.map_values(|v: Vec<char>| v@),
            j <= s.len(),
            insert_unique(t, x@) == t.take(j as int) + insert_unique(t.skip(j as int), x@),
        decreases s.len() - j,
    {
        assert(t.skip(j as int)[0] == s@[j as int]@);
        if chars_eq(&s[j], &x) {
            assert(t.take(j as int) + t.skip(j as int) =~= t);
            return;
        }
        if chars_lt(&x, &s[j]) {
            s.insert(j, x);
            assert(s@.map_values(|v: Vec<char>| v@) =~= t.take(j as int) + (seq![x@] + t.skip(
                j as int,
            )));
            return;
        }
        assert(t.skip(j as int).drop_first() =~= t.skip(j + 1));
        assert(t.take(j as int) + (seq![t[j as int]] + insert_unique(t.skip(j + 1), x@)) =~= t.take(
            j + 1,
        ) + insert_unique(t.skip(j + 1), x@));
        j += 1;
    }
    let ghost xv = x@;
    s.push(x);
    assert(t.skip(j as int) =~= Seq::<Seq<char>>::empty());
    assert(s@.map_values(|v: Vec<char>| v@) =~= t.take(j as int) + seq![xv]);
}

/// The shape of a directory node.
fn dir_shape(n: &TreeNode) -> (r: Vec<char>)
    ensures
        r@ == shape(view_node(*n)),
{
    let exts = ext_list_exec(&n.children);
    let ghost ev = exts@.map_values(|v: Vec<char>| v@);
    let mut set: Vec<Vec<char>> = Vec::new();
    let mut i: usize = 0;
    assert(ev.take(0) =~= Seq::<Seq<char>>::empty());
    assert(set@.map_values(|v: Vec<char>| v@) =~= Seq::<Seq<char>>::empty());
    while i < exts.len()
        invariant
            ev == exts@.map_values(|v: Vec<char>| v@),
            i <= exts.len(),
            set@.map_values(|v: Vec<char>| v@) == sorted_set(ev.take(i as int)),
        decreases exts.len() - i,
    {
        assert(ev.take(i + 1).drop_last() =~= ev.take(i as int));
        assert(ev.take(i + 1).last() == exts@[i as int]@);
        let x = slice_all(&exts[i]);
        insert_unique_exec(&mut set, x);
        i += 1;
    }
    assert(ev.take(exts.len() as int) =~= ev);
    join_chars(&set, &chars_of(","))
}

fn slice_all(v: &Vec<char>) -> (r: Vec<char>)
    ensures
        r@ == v@,
{
    crate::text::slice_chars(v, 0, v.len())
}

/// The shape of each node that takes part in collapsing.
fn shapes_of(cs: &Vec<TreeNode>) -> (r: Vec<Option<Vec<char>>>)
    ensures
        r@.len() == cs@.len(),
        forall|j: int|
            0 <= j < cs@.len() ==> match #[trigger] r@[j] {
                Some(v) => candidate(view_node(cs@[j])) && v@ == shape(view_node(cs@[j])),
                None => !candidate(view_node(cs@[j])),
            },
{
    let mut r: Vec<Option<Vec<char>>> = Vec::new();
    let mut i: usize = 0;
    while i < cs.len()
        invariant
            i <= cs.len(),
            r@.len() == i,
            forall|j: int|
                0 <= j < i ==> match #[trigger] r@[j] {
                    Some(v) => candidate(view_node(cs@[j])) && v@ == shape(view_node(cs@[j])),
                    None => !candidate(view_node(cs@[j])),
                },
        decreases cs.len() - i,
    {
        let c = &cs[i];
        proof {
            lemma_view_list_len(c.children@);
        }
        if c.is_dir() && c.children.len() > 0 {
            r.push(Some(dir_shape(c)));
        } else {
            r.push(None);
        }
        i += 1;
    }
    r
}

fn same_shape(a: &Option<Vec<char>>, b: &Option<Vec<char>>) -> (r: bool)
    ensures
        r == (a is Some && b is Some && a->0@ == b->0@),
{
    match (a, b) {
        (Some(x), Some(y)) => chars_eq(x, y),
        _ => false,
    }
}

/// How many siblings among the first `k` share the shape at position `i`.
fn group_count_exec(shapes: &Vec<Option<Vec<char>>>, i: usize, k: usize, Ghost(cs): Ghost<Seq<NodeView>>) -> (r: usize)
    requires
        shapes@.len() == cs.len(),
        i < cs.len(),
        k <= cs.len(),
        forall|j: int|
            0 <= j < cs.len() ==> match #[trigger] shapes@[j] {
                Some(v) => candidate(cs[j]) && v@ == shape(cs[j]),
                None => !candidate(cs[j]),
            },
    ensures
        shapes@[i as int] is Some ==> r == group_count(cs, k as int, cs[i as int]),
        shapes@[i as int] is Some ==> r <= k,
{
    let mut n: usize = 0;
    let mut j: usize = 0;
    while j < k
        invariant
            shapes@.len() == cs.len(),
            i < cs.len(),
            k <= cs.len(),
            forall|q: int|
                0 <= q < cs.len() ==> match #[trigger] shapes@[q] {
                    Some(v) => candidate(cs[q]) && v@ == shape(cs[q]),
                    None => !candidate(cs[q]),
                },
            j <= k,
            n <= j,
            shapes@[i as int] is Some ==> n == group_count(cs, j as int, cs[i as int]),
        decreases k - j,
    {
        let same = same_shape(&shapes[j], &shapes[i]);
        proof {
            let a = shapes@[j as int];
            let b = shapes@[i as int];
            assert(same == same_group(cs[j as int], cs[i as int]) || b is None);
        }
        if same {
            n += 1;
        }
        j += 1;
    }
    n
}

/// Collapses repeated sibling patterns under `node`, deepest levels first.
pub fn collapse_repeated(node: &mut TreeNode)
    ensures
        view_node(*final(node)) == collapse_view(view_node(*old(node))),
    decreases *old(node),
{
    let mut kids: Vec<TreeNode> = Vec::new();
    std::mem::swap(&mut kids, &mut node.children);
    let ghost orig = kids@;
    assert(orig == old(node).children@);
    assert(orig.len() <= usize::MAX) by {
        assert(kids@.len() == kids.len());
    }
    let mut done: Vec<TreeNode> = Vec::new();
    let mut i: usize = 0;
    assert(orig.take(0) =~= Seq::<TreeNode>::empty());
    assert(orig.skip(0) =~= orig);
    assert(view_list(done@) =~= Seq::<NodeView>::empty());
    assert(view_list(orig.take(0)) =~= Seq::<NodeView>::empty());
    while kids.len() > 0
        invariant
            orig == old(node).children@,
            orig.len() <= usize::MAX,
            i <= orig.len(),
            kids@ == orig.skip(i as int),
            view_list(done@) == collapse_list(view_list(orig.take(i as int))),
        decreases kids.len(),
    {
        assert(orig.skip(i as int).len() == orig.len() - i);
        assert(i < orig.len());
        let mut c = kids.remove(0);
        assert(c == orig[i as int]);
        assert(orig.skip(i as int).drop_first() =~= orig.skip(i + 1));
        proof {
            assert(decreases_to!(*old(node) => old(node).children));
            assert(decreases_to!(old(node).children => old(node).children@));
            assert(decreases_to!(old(node).children@ => old(node).children@[i as int]));
        }
        let ghost cv = view_node(c);
        if c.is_dir() {
            collapse_repeated(&mut c);
        }
        let ghost pre = done@;
        done.push(c);
        proof {
            crate::tree::lemma_view_list_push(pre, c);
            crate::tree::lemma_view_list_push(orig.take(i as int), orig[i as int]);
            assert(orig.take(i as int).push(orig[i as int]) =~= orig.take(i + 1));
            lemma_collapse_list_push(view_list(orig.take(i as int)), cv);
        }
        i += 1;
    }
    assert(orig.take(i as int) =~= orig);
    let ghost cs = view_list(done@);
    proof {
        lemma_view_list_len(done@);
        lemma_view_list_len(orig);
        lemma_collapse_list_len(view_list(orig));
    }
    let shapes = shapes_of(&done);
    assert forall|j: int| 0 <= j < cs.len() implies match #[trigger] shapes@[j] {
        Some(v) => candidate(cs[j]) && v@ == shape(cs[j]),
        None => !candidate(cs[j]),
    } by {
        assert(cs[j] == view_node(done@[j]));
    }
    let total = done.len();
    let mut out: Vec<TreeNode> = Vec::new();
    let mut k: usize = 0;
    assert(view_list(out@) =~= Seq::<NodeView>::empty());
    assert(done@.skip(0) =~= done@);
    let ghost all = done@;
    while done.len() > 0
        invariant
            all.len() == total,
            cs == view_list(all),
            cs.len() == total,
            forall|j: int| 0 <= j < cs.len() ==> #[trigger] cs[j] == view_node(all[j]),
            shapes@.len() == cs.len(),
            forall|j: int|
                0 <= j < cs.len() ==> match #[trigger] shapes@[j] {
                    Some(v) => candidate(cs[j]) && v@ == shape(cs[j]),
                    None => !candidate(cs[j]),
                },
            k <= total,
            done@ == all.skip(k as int),
            view_list(out@) == regroup_upto(cs, k as int),
        decreases done.len(),
    {
        let c = done.remove(0);
        assert(c == all[k as int]);
        assert(all.skip(k as int).drop_first() =~= all.skip(k + 1));
        let n = group_count_exec(&shapes, k, total, Ghost(cs));
        let first = group_count_exec(&shapes, k, k, Ghost(cs));
        let ghost pre = out@;
        if shapes[k].is_some() && n >= 4 {
            if first == 0 {
                let a = concat_chars(&chars_of(c.name.as_str()), &chars_of(" ×"));
                let b = concat_chars(&a, &decimal_chars(n));
                let name = concat_chars(&b, &chars_of(" (similar structure)"));
                let marker = TreeNode {
                    name: string_of(&name),
                    path: c.path.clone(),
                    kind: NodeKind::Collapsed { count: n, pattern: c.name.clone() },
                    children: Vec::new(),
                    role: FileRole::Unknown,
                    ext: None,
                    depth: c.depth,
                };
                assert(view_list(marker.children@) =~= Seq::<NodeView>::empty());
                out.push(marker);
                proof {
                    crate::tree::lemma_view_list_push(pre, marker);
                    assert(view_node(marker) == collapsed_node(cs[k as int], n as nat));
                }
            }
        } else {
            out.push(c);
            proof {
                crate::tree::lemma_view_list_push(pre, c);
            }
        }
        k += 1;
    }
    node.children = out;
    assert(view_node(*node).children == regroup(collapse_list(view_node(*old(node)).children)));
}

/// The extensions that `--only` names.
fn parse_only(s: &String) -> (r: Vec<String>)
    ensures
        r@.map_values(|x: String| x@) == only_items(split(s@, ',')),
{
    let parts = split_chars(&chars_of(s.as_str()), ',');
    let ghost pv = parts@.map_values(|p: Vec<char>| p@);
    let mut out: Vec<String> = Vec::new();
    let mut i: usize = 0;
    assert(pv.take(0) =~= Seq::<Seq<char>>::empty());
    assert(out@.map_values(|x: String| x@) =~= Seq::<Seq<char>>::empty());
    while i < parts.len()
        invariant
            pv == parts@.map_values(|p: Vec<char>| p@),
            pv == split(s@, ','),
            i <= parts.len(),
            out@.map_values(|x: String| x@) == only_items(pv.take(i as int)),
        decreases parts.len() - i,
    {
        assert(pv.take(i + 1).drop_last() =~= pv.take(i as int));
        assert(pv.take(i + 1).last() == parts@[i as int]@);
        let t = trim_chars(&parts[i]);
        let t2 = trim_start_chars(&t, CharClass::One('.'));
        let e = lower_chars(&t2);
        if e.len() > 0 {
            let ghost pre = out@.map_values(|x: String| x@);
            out.push(string_of(&e));
            assert(out@.map_values(|x: String| x@) =~= pre.push(e@));
        }
        i += 1;
    }
    assert(pv.take(parts.len() as int) =~= pv);
    out
}

pub open spec fn new_spec(
    args: crate::cli::ArgsView,
    root: Seq<char>,
    project: Seq<char>,
    framework: Framework,
    rules: IgnoreRules,
) -> WalkerView {
    WalkerView {
        root,
        project,
        framework,
        patterns: rules.patterns,
        rule_lines: rules.rules,
        max_depth: args.depth as nat,
        show_hidden: args.hidden,
        only: only_spec(args.only),
        collapse: args.collapse,
    }
}

impl Walker {
    /// A walker for the tree under `root`, inside the project at `project`, with the
    /// rules of `ignorer` and the lines of the root's `.directreeignore` when it exists
    /// and could be read.
    pub fn new(
        args: &Args,
        root: String,
        project: String,
        framework: Framework,
        ignorer: Ignorer,
        local_ignore: Option<&str>,
    ) -> (r: Self)
        ensures
            r@ == new_spec(
                args@,
                root@,
                project@,
                framework,
                match local_ignore {
                    Some(c) => with_local_spec(ignorer@, c@),
                    None => ignorer@,
                },
            ),
    {
        let mut ignorer = ignorer;
        ignorer.load_local_ignore(local_ignore);
        let only_exts = match &args.only {
            Some(s) => Some(parse_only(s)),
            None => None,
        };
        Walker {
            root,
            project,
            framework,
            ignorer,
            max_depth: args.depth,
            show_hidden: args.hidden,
            only_exts,
            collapse: args.collapse,
        }
    }

    /// Whether the entry at `path` is left out of the tree.
    pub fn ignores(&self, path: &str) -> (r: bool)
        ensures
            r == ignored_spec(self@.patterns, path@, self@.show_hidden),
    {
        self.ignorer.is_ignored(path, self.show_hidden)
    }

    /// Whether a directory at depth `d` (the root's entries being at depth 1)
    /// has its entries listed; otherwise only their number is shown.
    pub fn reads_at_depth(&self, d: usize) -> (r: bool)
        ensures
            r == reads_at(self@, d as nat),
    {
        self.max_depth == 0 || d <= self.max_depth
    }

    /// Builds the tree from the root's listing.
    pub fn walk(&self, listing: &Vec<FsEntry>) -> (r: TreeNode)
        requires
            list_height(listing@) + 2 <= usize::MAX,
        ensures
            view_node(r) == walk_spec(self@, listing@),
    {
        let rc = chars_of(self.root.as_str());
        let root_name = match file_name_exec(&rc) {
            Some(n) => string_of(&n),
            None => String::from_str("."),
        };
        let mut root_node = TreeNode::new_dir(root_name, self.root.clone(), 0);
        root_node.children = self.walk_dir(listing, 1);
        assert(view_node(root_node) == raw_tree(self@, listing@));
        if self.collapse {
            collapse_repeated(&mut root_node);
        }
        root_node
    }
}

// ───────────────────────────── laws of the walk ─────────────────────────────

/// A directory at depth `d` has its entries listed when there is no depth limit
/// or `d` is within it; past the limit it shows one `… N more` node for its `N`
/// entries (none when it is empty).
pub proof fn law_depth_limit_cuts_directories(w: WalkerView, e: FsEntry, d: nat)
    requires
        e.is_dir,
    ensures
        (w.max_depth == 0 || d <= w.max_depth) && e.listing is Some ==> entry_view(w, e, d).children
            == arrange(w, e.listing.unwrap()@, listing_views(w, e.listing.unwrap()@, d + 1)),
        (w.max_depth == 0 || d <= w.max_depth) && e.listing is None ==> entry_view(w, e, d).children
            == Seq::<NodeView>::empty(),
        !(w.max_depth == 0 || d <= w.max_depth) && e.entry_count > 0 ==> entry_view(w, e, d).children
            == seq![
            NodeView {
                name: "… "@ + decimal(e.entry_count as nat) + " more"@,
                path: e.path@,
                kind: KindView::Collapsed { count: e.entry_count as nat, pattern: "depth-limit"@ },
                children: Seq::<NodeView>::empty(),
                role: FileRole::Unknown,
                ext: None,
                depth: d + 1,
            },
        ],
        !(w.max_depth == 0 || d <= w.max_depth) && e.entry_count == 0 ==> entry_view(w, e, d).children
            == Seq::<NodeView>::empty(),
{
}

/// `--only` keeps a file exactly when it has an extension among those listed;
/// without `--only` every file passes.
pub proof fn law_only_keeps_listed_extensions(only: Option<Seq<Seq<char>>>, ext: Option<Seq<char>>)
    ensures
        only is None ==> ext_passes(only, ext),
        only is Some && ext is None ==> !ext_passes(only, ext),
        only is Some && ext is Some ==> (ext_passes(only, ext) <==> only.unwrap().contains(
            ext.unwrap(),
        )),
{
}

/// Siblings stay as they are when no shape is shared by more than three sibling
/// directories with entries.
pub proof fn law_three_alike_stay(cs: Seq<NodeView>)
    requires
        forall|i: int|
            0 <= i < cs.len() && #[trigger] candidate(cs[i]) ==> group_count(cs, cs.len() as int, cs[i])
                <= 3,
    ensures
        regroup(cs) == cs,
{
    law_collapse_needs_four_alike(cs);
}

proof fn lemma_regroup_upto_keeps(cs: Seq<NodeView>, k: int, k2: int, x: NodeView)
    requires
        0 <= k <= k2 <= cs.len(),
        regroup_upto(cs, k).contains(x),
    ensures
        regroup_upto(cs, k2).contains(x),
    decreases k2 - k,
{
    if k < k2 {
        lemma_regroup_upto_keeps(cs, k, k2 - 1, x);
        let rest = regroup_upto(cs, k2 - 1);
        let j = choose|j: int| 0 <= j < rest.len() && rest[j] == x;
        let r = regroup_upto(cs, k2);
        if r.len() == rest.len() + 1 {
            assert(r[j] == x);
        }
    }
}

/// Four or more sibling directories with entries and one shape become one node,
/// at the place of the first of them: named after it with `×` and their number,
/// standing for that many entries.
pub proof fn law_four_alike_collapse(cs: Seq<NodeView>, i: int)
    requires
        0 <= i < cs.len(),
        cs[i].kind is Dir,
        cs[i].children.len() > 0,
        group_count(cs, cs.len() as int, cs[i]) >= 4,
        group_count(cs, i, cs[i]) == 0,
    ensures
        regroup(cs).contains(
            NodeView {
                name: cs[i].name + " ×"@ + decimal(group_count(cs, cs.len() as int, cs[i])) + " (similar structure)"@,
                path: cs[i].path,
                kind: KindView::Collapsed {
                    count: group_count(cs, cs.len() as int, cs[i]),
                    pattern: cs[i].name,
                },
                children: Seq::<NodeView>::empty(),
                role: FileRole::Unknown,
                ext: None,
                depth: cs[i].depth,
            },
        ),
        !regroup(cs).contains(cs[i]),
{
    let n = group_count(cs, cs.len() as int, cs[i]);
    let c = collapsed_node(cs[i], n);
    let r1 = regroup_upto(cs, i + 1);
    assert(r1.last() == c);
    assert(r1.contains(c)) by {
        assert(r1[r1.len() - 1] == c);
    }
    lemma_regroup_upto_keeps(cs, i + 1, cs.len() as int, c);
    lemma_regroup_has_no_repeats(cs);
    let r = regroup(cs);
    if r.contains(cs[i]) {
        let j = choose|j: int| 0 <= j < r.len() && r[j] == cs[i];
        lemma_regroup_upto_kept(cs, cs.len() as int);
        let k = choose|k: int|
            0 <= k < cs.len() && regroup_upto(cs, cs.len() as int)[j] == cs[k] && group_count(
                cs,
                cs.len() as int,
                cs[k],
            ) < 4;
        assert(candidate(r[j]));
    }
}
proof fn lemma_insert_idx_multiset(es: Seq<FsEntry>, s: Seq<int>, k: int)
    ensures
        insert_idx(es, s, k).to_multiset() =~= s.to_multiset().insert(k),
    decreases s.len(),
{
    broadcast use vstd::seq_lib::group_to_multiset_ensures;

    assert(seq![k] =~= Seq::<int>::empty().push(k));
    assert(Seq::<int>::empty().to_multiset() =~= vstd::multiset::Multiset::<int>::empty());
    if s.len() == 0 {
    } else if seq_lt(sort_key(es[k]), sort_key(es[s[0]])) {
        vstd::seq_lib::lemma_multiset_commutative(seq![k], s);
    } else {
        let t = s.drop_first();
        lemma_insert_idx_multiset(es, t, k);
        assert(seq![s[0]] =~= Seq::<int>::empty().push(s[0]));
        assert(s =~= seq![s[0]] + t);
        vstd::seq_lib::lemma_multiset_commutative(seq![s[0]], t);
        vstd::seq_lib::lemma_multiset_commutative(seq![s[0]], insert_idx(es, t, k));
    }
}

/// Sorting neither drops nor repeats a position: it gives the same positions,
/// each as often as before.
pub proof fn law_sorting_keeps_every_entry(es: Seq<FsEntry>, ks: Seq<int>)
    ensures
        sort_idx(es, ks).to_multiset() =~= ks.to_multiset(),
    decreases ks.len(),
{
    broadcast use vstd::seq_lib::group_to_multiset_ensures;

    if ks.len() > 0 {
        law_sorting_keeps_every_entry(es, ks.drop_last());
        lemma_insert_idx_multiset(es, sort_idx(es, ks.drop_last()), ks.last());
        assert(ks =~= ks.drop_last().push(ks.last()));
    } else {
        assert(ks =~= Seq::<int>::empty());
    }
}

/// The entries kept at one level are exactly those of the wanted kind
/// (directories or files) that no ignore rule leaves out, in listing order.
pub proof fn law_kept_entries(w: WalkerView, es: Seq<FsEntry>, dirs: bool, i: int)
    requires
        0 <= i < es.len(),
    ensures
        kept(w, es, dirs).contains(i) <==> (!ignored_spec(w.patterns, es[i].path@, w.show_hidden)
            && es[i].is_dir == dirs),
    decreases es.len(),
{
    let r = kept(w, es, dirs);
    lemma_kept_bounds(w, es.drop_last(), dirs);
    if i < es.len() - 1 {
        law_kept_entries(w, es.drop_last(), dirs, i);
        assert(es.drop_last()[i] == es[i]);
        let rest = kept(w, es.drop_last(), dirs);
        if rest.contains(i) {
            let j = choose|j: int| 0 <= j < rest.len() && rest[j] == i;
            if r.len() > rest.len() {
                assert(r[j] == i);
            }
        }
        if r.contains(i) {
            let j = choose|j: int| 0 <= j < r.len() && r[j] == i;
            if j < rest.len() {
                assert(rest[j] == i);
            }
        }
    } else {
        let rest = kept(w, es.drop_last(), dirs);
        if !entry_ignored(w, es.last()) && es.last().is_dir == dirs {
            assert(r[rest.len() as int] == i);
        } else if r.contains(i) {
            let j = choose|j: int| 0 <= j < r.len() && r[j] == i;
            assert(rest[j] < es.drop_last().len());
        }
    }
}
/// Siblings are compared by their names lowercased, so case does not decide their
/// order.
pub proof fn law_order_ignores_case(es: Seq<FsEntry>)
    ensures
        forall|i: int| 0 <= i < es.len() ==> #[trigger] sort_key(es[i]) == lowercase(es[i].name@),
{
}
} // verus!
