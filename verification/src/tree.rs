//! The tree data structure and its statistics.
use vstd::prelude::*;
use crate::detector::{FileRole, FileCategory, role_category};
use crate::paths::{rel_path, rel_path_exec};
use crate::text::{
    chars_of, string_of, seq_lt, chars_eq, chars_lt, lemma_seq_lt_trans, lemma_seq_lt_total,
};

verus! {

#[derive(Debug, Clone)]
pub enum NodeKind {
    Dir,
    File,
    Collapsed { count: usize, pattern: String },
}

#[derive(Debug)]
pub struct TreeNode {
    pub name: String,
    pub path: String,
    pub kind: NodeKind,
    pub children: Vec<TreeNode>,
    pub role: FileRole,
    pub ext: Option<String>,
    pub depth: usize,
}

pub open spec fn is_dir_node(n: TreeNode) -> bool {
    n.kind is Dir
}

// ───────────────────────────── flat paths ─────────────────────────────

/// The paths of the files under `n`, relative to `base`, in tree order;
/// files outside `base` are left out.
pub open spec fn flat_node(n: TreeNode, base: Seq<char>) -> Seq<Seq<char>>
    decreases n, 1nat,
{
    match n.kind {
        NodeKind::File => match rel_path(n.path@, base) {
            Some(r) => seq![r],
            None => Seq::<Seq<char>>::empty(),
        },
        NodeKind::Dir => flat_list(n.children@, base),
        NodeKind::Collapsed { .. } => Seq::<Seq<char>>::empty(),
    }
}

pub open spec fn flat_list(cs: Seq<TreeNode>, base: Seq<char>) -> Seq<Seq<char>>
    decreases cs, 0nat,
{
    if cs.len() == 0 {
        Seq::<Seq<char>>::empty()
    } else {
        flat_list(cs.drop_last(), base) + flat_node(cs.last(), base)
    }
}

impl TreeNode {
    pub fn new_dir(name: String, path: String, depth: usize) -> (r: Self)
        ensures
            r.name == name,
            r.path == path,
            r.kind is Dir,
            r.children@.len() == 0,
            r.role == FileRole::Unknown,
            r.ext is None,
            r.depth == depth,
    {
        TreeNode {
            name,
            path,
            kind: NodeKind::Dir,
            children: Vec::new(),
            role: FileRole::Unknown,
            ext: None,
            depth,
        }
    }

    pub fn new_file(name: String, path: String, depth: usize, role: FileRole, ext: Option<String>) -> (r: Self)
        ensures
            r.name == name,
            r.path == path,
            r.kind is File,
            r.children@.len() == 0,
            r.role == role,
            r.ext == ext,
            r.depth == depth,
    {
        TreeNode { name, path, kind: NodeKind::File, children: Vec::new(), role, ext, depth }
    }

    pub fn is_dir(&self) -> (r: bool)
        ensures
            r == is_dir_node(*self),
    {
        match self.kind {
            NodeKind::Dir => true,
            _ => false,
        }
    }

    pub fn is_empty_dir(&self) -> (r: bool)
        ensures
            r == (is_dir_node(*self) && self.children@.len() == 0),
    {
        self.is_dir() && self.children.len() == 0
    }

    /// The paths of the files in the tree, relative to `base`.
    pub fn flat_paths(&self, base: &str) -> (r: Vec<String>)
        ensures
            r@.map_values(|s: String| s@) == flat_node(*self, base@),
    {
        let mut out: Vec<String> = Vec::new();
        let b = chars_of(base);
        self.collect_flat(&b, &mut out);
        assert(out@.map_values(|s: String| s@) =~= flat_node(*self, base@));
        out
    }

    fn collect_flat(&self, base: &Vec<char>, out: &mut Vec<String>)
        ensures
            final(out)@.map_values(|s: String| s@) == old(out)@.map_values(|s: String| s@)
                + flat_node(*self, base@),
        decreases self,
    {
        match &self.kind {
            NodeKind::File => {
                let p = chars_of(self.path.as_str());
                match rel_path_exec(&p, base) {
                    Some(r) => {
                        let ghost pre = out@.map_values(|s: String| s@);
                        out.push(string_of(&r));
                        assert(out@.map_values(|s: String| s@) =~= pre + seq![r@]);
                    },
                    None => {
                        assert(old(out)@.map_values(|s: String| s@) + Seq::<Seq<char>>::empty()
                            =~= old(out)@.map_values(|s: String| s@));
                    },
                }
            },
            NodeKind::Dir => {
                let ghost start = out@.map_values(|s: String| s@);
                let mut i: usize = 0;
                assert(self.children@.take(0) =~= Seq::<TreeNode>::empty());
                assert(start + flat_list(self.children@.take(0), base@) =~= start);
                while i < self.children.len()
                    invariant
                        i <= self.children@.len(),
                        out@.map_values(|s: String| s@) == start + flat_list(
                            self.children@.take(i as int),
                            base@,
                        ),
                    decreases self.children@.len() - i,
                {
                    let c = &self.children[i];
                    proof {
                        assert(decreases_to!(self => self.children));
                        assert(decreases_to!(self.children => self.children@));
                        assert(decreases_to!(self.children@ => self.children@[i as int]));
                    }
                    c.collect_flat(base, out);
                    assert(self.children@.take(i + 1).drop_last() =~= self.children@.take(
                        i as int,
                    ));
                    i += 1;
                }
                assert(self.children@.take(self.children@.len() as int) =~= self.children@);
            },
            _ => {
                assert(old(out)@.map_values(|s: String| s@) + Seq::<Seq<char>>::empty()
                    =~= old(out)@.map_values(|s: String| s@));
            },
        }
    }
}

// ───────────────────────────── statistics ─────────────────────────────

/// File and directory counts, the files per extension and per category.
pub struct TreeStats {
    pub total_files: usize,
    pub total_dirs: usize,
    /// Files per extension, ordered by extension.
    pub by_ext: Vec<(String, usize)>,
    pub source_files: usize,
    pub config_files: usize,
    pub test_files: usize,
    pub asset_files: usize,
}

pub struct StatsModel {
    pub files: nat,
    pub dirs: nat,
    pub by_ext: Seq<(Seq<char>, nat)>,
    pub source: nat,
    pub config: nat,
    pub test: nat,
    pub asset: nat,
}

impl View for TreeStats {
    type V = StatsModel;

    open spec fn view(&self) -> StatsModel {
        StatsModel {
            files: self.total_files as nat,
            dirs: self.total_dirs as nat,
            by_ext: self.by_ext@.map_values(|e: (String, usize)| (e.0@, e.1 as nat)),
            source: self.source_files as nat,
            config: self.config_files as nat,
            test: self.test_files as nat,
            asset: self.asset_files as nat,
        }
    }
}

pub open spec fn zero_stats() -> StatsModel {
    StatsModel {
        files: 0,
        dirs: 0,
        by_ext: Seq::<(Seq<char>, nat)>::empty(),
        source: 0,
        config: 0,
        test: 0,
        asset: 0,
    }
}

/// One more file with extension `e` in an extension table ordered by extension.
pub open spec fn bump(t: Seq<(Seq<char>, nat)>, e: Seq<char>) -> Seq<(Seq<char>, nat)>
    decreases t.len(),
{
    if t.len() == 0 {
        seq![(e, 1nat)]
    } else if t[0].0 == e {
        t.update(0, (e, t[0].1 + 1))
    } else if seq_lt(e, t[0].0) {
        seq![(e, 1nat)] + t
    } else {
        seq![t[0]] + bump(t.drop_first(), e)
    }
}

/// Statistics after counting `n` on top of `acc`.
pub open spec fn add_node(acc: StatsModel, n: TreeNode) -> StatsModel
    decreases n, 1nat,
{
    match n.kind {
        NodeKind::Dir => add_list(StatsModel { dirs: acc.dirs + 1, ..acc }, n.children@),
        NodeKind::File => {
            let a = StatsModel {
                files: acc.files + 1,
                by_ext: match n.ext {
                    Some(e) => bump(acc.by_ext, e@),
                    None => acc.by_ext,
                },
                ..acc
            };
            match role_category(n.role) {
                FileCategory::Source => StatsModel { source: a.source + 1, ..a },
                FileCategory::Config => StatsModel { config: a.config + 1, ..a },
                FileCategory::Test => StatsModel { test: a.test + 1, ..a },
                FileCategory::Asset => StatsModel { asset: a.asset + 1, ..a },
                FileCategory::Docs => a,
            }
        },
        NodeKind::Collapsed { count, .. } => StatsModel { files: acc.files + count as nat, ..acc },
    }
}

pub open spec fn add_list(acc: StatsModel, cs: Seq<TreeNode>) -> StatsModel
    decreases cs, 0nat,
{
    if cs.len() == 0 {
        acc
    } else {
        add_node(add_list(acc, cs.drop_last()), cs.last())
    }
}

/// The statistics of the tree under `n`.
pub open spec fn stats_spec(n: TreeNode) -> StatsModel {
    add_node(zero_stats(), n)
}

/// How far any counter can grow while `n` is counted: one per node, and the
/// hidden count of a collapsed node.
pub open spec fn weight(n: TreeNode) -> nat
    decreases n, 1nat,
{
    match n.kind {
        NodeKind::Dir => 1 + weight_list(n.children@),
        NodeKind::File => 1,
        NodeKind::Collapsed { count, .. } => count as nat,
    }
}

pub open spec fn weight_list(cs: Seq<TreeNode>) -> nat
    decreases cs, 0nat,
{
    if cs.len() == 0 {
        0
    } else {
        weight_list(cs.drop_last()) + weight(cs.last())
    }
}

pub open spec fn counts_le(t: Seq<(Seq<char>, nat)>, bound: nat) -> bool {
    forall|i: int| 0 <= i < t.len() ==> #[trigger] t[i].1 <= bound
}

/// Every counter of `a` is at most that of `b`, and at most `w` below it.
pub open spec fn grew_by_at_most(a: StatsModel, b: StatsModel, w: nat) -> bool {
    &&& a.files <= b.files <= a.files + w
    &&& a.dirs <= b.dirs <= a.dirs + w
    &&& a.source <= b.source <= a.source + w
    &&& a.config <= b.config <= a.config + w
    &&& a.test <= b.test <= a.test + w
    &&& a.asset <= b.asset <= a.asset + w
}

pub open spec fn fits(a: StatsModel, w: nat) -> bool {
    &&& a.files + w <= usize::MAX
    &&& a.dirs + w <= usize::MAX
    &&& a.source + w <= usize::MAX
    &&& a.config + w <= usize::MAX
    &&& a.test + w <= usize::MAX
    &&& a.asset + w <= usize::MAX
    &&& counts_le(a.by_ext, a.files)
}

proof fn lemma_bump_counts(t: Seq<(Seq<char>, nat)>, e: Seq<char>, bound: nat)
    requires
        counts_le(t, bound),
    ensures
        counts_le(bump(t, e), bound + 1),
    decreases t.len(),
{
    if t.len() > 0 && t[0].0 != e && !seq_lt(e, t[0].0) {
        lemma_bump_counts(t.drop_first(), e, bound);
        let r = bump(t.drop_first(), e);
        assert forall|i: int| 0 <= i < bump(t, e).len() implies #[trigger] bump(t, e)[i].1 <= bound
            + 1 by {
            if i > 0 {
                assert(bump(t, e)[i] == r[i - 1]);
            }
        }
    } else if t.len() > 0 && t[0].0 == e {
        assert forall|i: int| 0 <= i < bump(t, e).len() implies #[trigger] bump(t, e)[i].1 <= bound
            + 1 by {
            if i > 0 {
                assert(bump(t, e)[i] == t[i]);
            }
        }
    } else if t.len() > 0 {
        assert forall|i: int| 0 <= i < bump(t, e).len() implies #[trigger] bump(t, e)[i].1 <= bound
            + 1 by {
            if i > 0 {
                assert(bump(t, e)[i] == t[i - 1]);
            }
        }
    }
}

proof fn lemma_counts_le_mono(t: Seq<(Seq<char>, nat)>, a: nat, b: nat)
    requires
        counts_le(t, a),
        a <= b,
    ensures
        counts_le(t, b),
{
}

proof fn lemma_add_node_bounds(acc: StatsModel, n: TreeNode)
    requires
        counts_le(acc.by_ext, acc.files),
    ensures
        grew_by_at_most(acc, add_node(acc, n), weight(n)),
        counts_le(add_node(acc, n).by_ext, add_node(acc, n).files),
    decreases n, 1nat,
{
    match n.kind {
        NodeKind::Dir => {
            assert(decreases_to!(n => n.children));
            lemma_add_list_bounds(StatsModel { dirs: acc.dirs + 1, ..acc }, n.children@);
        },
        NodeKind::File => {
            match n.ext {
                Some(e) => lemma_bump_counts(acc.by_ext, e@, acc.files),
                None => lemma_counts_le_mono(acc.by_ext, acc.files, acc.files + 1),
            }
        },
        NodeKind::Collapsed { count, .. } => {
            lemma_counts_le_mono(acc.by_ext, acc.files, acc.files + count as nat);
        },
    }
}

proof fn lemma_add_list_bounds(acc: StatsModel, cs: Seq<TreeNode>)
    requires
        counts_le(acc.by_ext, acc.files),
    ensures
        grew_by_at_most(acc, add_list(acc, cs), weight_list(cs)),
        counts_le(add_list(acc, cs).by_ext, add_list(acc, cs).files),
    decreases cs, 0nat,
{
    if cs.len() > 0 {
        lemma_add_list_bounds(acc, cs.drop_last());
        lemma_add_node_bounds(add_list(acc, cs.drop_last()), cs.last());
    }
}

proof fn lemma_weight_list_prefix(cs: Seq<TreeNode>, i: int)
    requires
        0 <= i <= cs.len(),
    ensures
        weight_list(cs.take(i)) <= weight_list(cs),
    decreases cs.len() - i,
{
    if i < cs.len() {
        lemma_weight_list_prefix(cs, i + 1);
        assert(cs.take(i + 1).drop_last() =~= cs.take(i));
    } else {
        assert(cs.take(i) =~= cs);
    }
}

/// One more file with extension `e`.
fn bump_exec(table: &mut Vec<(String, usize)>, e: &Vec<char>)
    requires
        forall|i: int| 0 <= i < old(table)@.len() ==> #[trigger] old(table)@[i].1 < usize::MAX,
    ensures
        final(table)@.map_values(|x: (String, usize)| (x.0@, x.1 as nat)) == bump(
            old(table)@.map_values(|x: (String, usize)| (x.0@, x.1 as nat)),
            e@,
        ),
{
    let ghost t = old(table)@.map_values(|x: (String, usize)| (x.0@, x.1 as nat));
    let mut i: usize = 0;
    assert(t.skip(0) =~= t);
    assert(t.take(0) + bump(t.skip(0), e@) =~= bump(t, e@));
    while i < table.len()
        invariant
            table@ == old(table)@,
            t == old(table)@.map_values(|x: (String, usize)| (x.0@, x.1 as nat)),
            forall|j: int| 0 <= j < old(table)@.len() ==> #[trigger] old(table)@[j].1 < usize::MAX,
            i <= table.len(),
            bump(t, e@) == t.take(i as int) + bump(t.skip(i as int), e@),
        decreases table.len() - i,
    {
        let k = chars_of(table[i].0.as_str());
        assert(t.skip(i as int)[0] == t[i as int]);
        if chars_eq(&k, e) {
            let c = table[i].1;
            let name = table[i].0.clone();
            table.set(i, (name, c + 1));
            assert(table@.map_values(|x: (String, usize)| (x.0@, x.1 as nat)) =~= t.take(i as int)
                + t.skip(i as int).update(0, (e@, t[i as int].1 + 1)));
            return;
        }
        if chars_lt(e, &k) {
            table.insert(i, (string_of(e), 1));
            assert(table@.map_values(|x: (String, usize)| (x.0@, x.1 as nat)) =~= t.take(i as int)
                + (seq![(e@, 1nat)] + t.skip(i as int)));
            return;
        }
        assert(t.skip(i as int).drop_first() =~= t.skip(i + 1));
        assert(t.take(i as int) + (seq![t[i as int]] + bump(t.skip(i + 1), e@)) =~= t.take(i + 1)
            + bump(t.skip(i + 1), e@));
        i += 1;
    }
    table.push((string_of(e), 1));
    assert(t.skip(i as int) =~= Seq::<(Seq<char>, nat)>::empty());
    assert(table@.map_values(|x: (String, usize)| (x.0@, x.1 as nat)) =~= t.take(i as int) + seq![
        (e@, 1nat),
    ]);
}

fn collect_stats(node: &TreeNode, s: &mut TreeStats)
    requires
        fits(old(s)@, weight(*node)),
    ensures
        final(s)@ == add_node(old(s)@, *node),
        sum_of(old(s)@, stats_spec(*node), final(s)@),
    decreases node,
{
    proof {
        lemma_add_node_bounds(old(s)@, *node);
        lemma_add_node_sum(old(s)@, *node);
    }
    match &node.kind {
        NodeKind::Dir => {
            s.total_dirs = s.total_dirs + 1;
            let ghost start = s@;
            assert(fits(start, weight_list(node.children@)));
            let mut i: usize = 0;
            assert(node.children@.take(0) =~= Seq::<TreeNode>::empty());
            while i < node.children.len()
                invariant
                    i <= node.children@.len(),
                    fits(start, weight_list(node.children@)),
                    s@ == add_list(start, node.children@.take(i as int)),
                decreases node.children@.len() - i,
            {
                let c = &node.children[i];
                proof {
                    assert(decreases_to!(node => node.children));
                    lemma_add_list_bounds(start, node.children@.take(i as int));
                    lemma_weight_list_prefix(node.children@, i + 1);
                    assert(node.children@.take(i + 1).drop_last() =~= node.children@.take(
                        i as int,
                    ));
                    assert(node.children@.take(i + 1).last() == *c);
                }
                collect_stats(c, s);
                i += 1;
            }
            assert(node.children@.take(node.children@.len() as int) =~= node.children@);
        },
        NodeKind::File => {
            s.total_files = s.total_files + 1;
            match &node.ext {
                Some(e) => {
                    let ec = chars_of(e.as_str());
                    assert forall|i: int| 0 <= i < s.by_ext@.len() implies #[trigger] s.by_ext@[i].1
                        < usize::MAX by {
                        assert(old(s)@.by_ext[i].1 == s.by_ext@[i].1);
                    }
                    bump_exec(&mut s.by_ext, &ec);
                },
                None => {},
            }
            match node.role.category() {
                FileCategory::Source => s.source_files = s.source_files + 1,
                FileCategory::Config => s.config_files = s.config_files + 1,
                FileCategory::Test => s.test_files = s.test_files + 1,
                FileCategory::Asset => s.asset_files = s.asset_files + 1,
                FileCategory::Docs => {},
            }
        },
        NodeKind::Collapsed { count, .. } => {
            s.total_files = s.total_files + *count;
        },
    }
}

/// The weight of the tree, or `None` where it does not fit in a `usize`.
pub fn checked_weight(n: &TreeNode) -> (r: Option<usize>)
    ensures
        match r {
            Some(w) => w == weight(*n),
            None => weight(*n) > usize::MAX,
        },
    decreases n,
{
    match &n.kind {
        NodeKind::File => Some(1),
        NodeKind::Collapsed { count, .. } => Some(*count),
        NodeKind::Dir => {
            let mut total: usize = 1;
            let mut i: usize = 0;
            assert(n.children@.take(0) =~= Seq::<TreeNode>::empty());
            while i < n.children.len()
                invariant
                    n.kind is Dir,
                    i <= n.children@.len(),
                    total == 1 + weight_list(n.children@.take(i as int)),
                decreases n.children@.len() - i,
            {
                proof {
                    assert(decreases_to!(n => n.children));
                    assert(n.children@.take(i + 1).drop_last() =~= n.children@.take(i as int));
                    assert(n.children@.take(i + 1).last() == n.children@[i as int]);
                    lemma_weight_list_prefix(n.children@, i + 1);
                }
                match checked_weight(&n.children[i]) {
                    Some(w) => match total.checked_add(w) {
                        Some(t) => {
                            total = t;
                        },
                        None => {
                            return None;
                        },
                    },
                    None => {
                        proof {
                            lemma_weight_list_prefix(n.children@, i + 1);
                        }
                        return None;
                    },
                }
                i += 1;
            }
            assert(n.children@.take(n.children@.len() as int) =~= n.children@);
            Some(total)
        },
    }
}

impl TreeStats {
    /// The statistics of the tree under `root`.
    pub fn from_node(root: &TreeNode) -> (r: Self)
        requires
            weight(*root) <= usize::MAX,
        ensures
            r@ == stats_spec(*root),
    {
        let mut s = TreeStats {
            total_files: 0,
            total_dirs: 0,
            by_ext: Vec::new(),
            source_files: 0,
            config_files: 0,
            test_files: 0,
            asset_files: 0,
        };
        assert(s@.by_ext =~= Seq::<(Seq<char>, nat)>::empty());
        collect_stats(root, &mut s);
        s
    }
}

// ───────────────────────────── views ─────────────────────────────

pub enum KindView {
    Dir,
    File,
    Collapsed { count: nat, pattern: Seq<char> },
}

/// A tree node with its text read as character sequences.
pub struct NodeView {
    pub name: Seq<char>,
    pub path: Seq<char>,
    pub kind: KindView,
    pub children: Seq<NodeView>,
    pub role: FileRole,
    pub ext: Option<Seq<char>>,
    pub depth: nat,
}

pub open spec fn kind_view(k: NodeKind) -> KindView {
    match k {
        NodeKind::Dir => KindView::Dir,
        NodeKind::File => KindView::File,
        NodeKind::Collapsed { count, pattern } => KindView::Collapsed {
            count: count as nat,
            pattern: pattern@,
        },
    }
}

pub open spec fn view_node(n: TreeNode) -> NodeView
    decreases n, 1nat,
{
    NodeView {
        name: n.name@,
        path: n.path@,
        kind: kind_view(n.kind),
        children: view_list(n.children@),
        role: n.role,
        ext: match n.ext {
            Some(e) => Some(e@),
            None => None,
        },
        depth: n.depth as nat,
    }
}

pub open spec fn view_list(cs: Seq<TreeNode>) -> Seq<NodeView>
    decreases cs, 0nat,
{
    if cs.len() == 0 {
        Seq::<NodeView>::empty()
    } else {
        view_list(cs.drop_last()).push(view_node(cs.last()))
    }
}

fn clone_kind(k: &NodeKind) -> (r: NodeKind)
    ensures
        kind_view(r) == kind_view(*k),
{
    match k {
        NodeKind::Dir => NodeKind::Dir,
        NodeKind::File => NodeKind::File,
        NodeKind::Collapsed { count, pattern } => NodeKind::Collapsed {
            count: *count,
            pattern: pattern.clone(),
        },
    }
}

fn clone_node(n: &TreeNode) -> (r: TreeNode)
    ensures
        view_node(r) == view_node(*n),
    decreases n,
{
    let mut children: Vec<TreeNode> = Vec::new();
    let mut i: usize = 0;
    while i < n.children.len()
        invariant
            i <= n.children.len(),
            view_list(children@) == view_list(n.children@.take(i as int)),
        decreases n.children.len() - i,
    {
        proof {
            assert(decreases_to!(n => n.children));
            assert(decreases_to!(n.children => n.children@));
            assert(decreases_to!(n.children@ => n.children@[i as int]));
        }
        let c = clone_node(&n.children[i]);
        proof {
            lemma_view_list_push(children@, c);
            lemma_view_list_push(n.children@.take(i as int), n.children@[i as int]);
            assert(n.children@.take(i as int).push(n.children@[i as int]) =~= n.children@.take(i + 1));
        }
        children.push(c);
        i += 1;
    }
    assert(n.children@.take(n.children.len() as int) =~= n.children@);
    TreeNode {
        name: n.name.clone(),
        path: n.path.clone(),
        kind: clone_kind(&n.kind),
        children,
        role: n.role,
        ext: match &n.ext {
            Some(e) => Some(e.clone()),
            None => None,
        },
        depth: n.depth,
    }
}

impl Clone for TreeNode {
    /// A copy of the whole tree under the node.
    fn clone(&self) -> (r: Self)
        ensures
            view_node(r) == view_node(*self),
    {
        clone_node(self)
    }
}

pub proof fn lemma_view_list_len(cs: Seq<TreeNode>)
    ensures
        view_list(cs).len() == cs.len(),
        forall|i: int| 0 <= i < cs.len() ==> #[trigger] view_list(cs)[i] == view_node(cs[i]),
    decreases cs.len(),
{
    if cs.len() > 0 {
        lemma_view_list_len(cs.drop_last());
    }
}

pub proof fn lemma_view_list_push(cs: Seq<TreeNode>, n: TreeNode)
    ensures
        view_list(cs.push(n)) == view_list(cs).push(view_node(n)),
{
    assert(cs.push(n).drop_last() =~= cs);
}


// ───────────────────────────── laws ─────────────────────────────

/// The extension table is ordered by extension, each extension once.
pub open spec fn ext_sorted(t: Seq<(Seq<char>, nat)>) -> bool {
    forall|i: int, j: int| 0 <= i < j < t.len() ==> seq_lt(t[i].0, t[j].0)
}

/// The categorized files never outnumber the files.
pub open spec fn categories_fit(a: StatsModel) -> bool {
    a.source + a.config + a.test + a.asset <= a.files
}

proof fn lemma_bump_sorted(t: Seq<(Seq<char>, nat)>, e: Seq<char>)
    requires
        ext_sorted(t),
    ensures
        ext_sorted(bump(t, e)),
        forall|i: int|
            0 <= i < bump(t, e).len() ==> #[trigger] bump(t, e)[i].0 == e || exists|j: int|
                0 <= j < t.len() && t[j].0 == bump(t, e)[i].0,
    decreases t.len(),
{
    let b = bump(t, e);
    if t.len() == 0 {
    } else if t[0].0 == e {
        assert forall|i: int| 0 <= i < b.len() implies #[trigger] b[i].0 == e || exists|j: int|
            0 <= j < t.len() && t[j].0 == b[i].0 by {
            if i > 0 {
                assert(t[i].0 == b[i].0);
            }
        }
    } else if seq_lt(e, t[0].0) {
        assert forall|i: int, j: int| 0 <= i < j < b.len() implies seq_lt(b[i].0, b[j].0) by {
            if i == 0 {
                assert(b[j] == t[j - 1]);
                if j > 1 {
                    lemma_seq_lt_trans(e, t[0].0, t[j - 1].0);
                }
            } else {
                assert(b[i] == t[i - 1] && b[j] == t[j - 1]);
            }
        }
        assert forall|i: int| 0 <= i < b.len() implies #[trigger] b[i].0 == e || exists|j: int|
            0 <= j < t.len() && t[j].0 == b[i].0 by {
            if i > 0 {
                assert(t[i - 1].0 == b[i].0);
            }
        }
    } else {
        let rest = t.drop_first();
        assert(ext_sorted(rest)) by {
            assert forall|i: int, j: int| 0 <= i < j < rest.len() implies seq_lt(rest[i].0, rest[j].0) by {
                assert(rest[i] == t[i + 1] && rest[j] == t[j + 1]);
            }
        }
        lemma_bump_sorted(rest, e);
        let br = bump(rest, e);
        lemma_seq_lt_total(e, t[0].0);
        assert(seq_lt(t[0].0, e));
        assert forall|i: int| 0 <= i < br.len() implies seq_lt(t[0].0, #[trigger] br[i].0) by {
            if br[i].0 != e {
                let j = choose|j: int| 0 <= j < rest.len() && rest[j].0 == br[i].0;
                assert(rest[j] == t[j + 1]);
            }
        }
        assert forall|i: int, j: int| 0 <= i < j < b.len() implies seq_lt(b[i].0, b[j].0) by {
            assert(b[j] == br[j - 1]);
            if i > 0 {
                assert(b[i] == br[i - 1]);
            }
        }
        assert forall|i: int| 0 <= i < b.len() implies #[trigger] b[i].0 == e || exists|j: int|
            0 <= j < t.len() && t[j].0 == b[i].0 by {
            if i > 0 {
                assert(b[i] == br[i - 1]);
                if br[i - 1].0 != e {
                    let j = choose|j: int| 0 <= j < rest.len() && rest[j].0 == br[i - 1].0;
                    assert(t[j + 1].0 == b[i].0);
                }
            } else {
                assert(t[0].0 == b[0].0);
            }
        }
    }
}

proof fn lemma_add_node_laws(acc: StatsModel, n: TreeNode)
    requires
        ext_sorted(acc.by_ext),
        categories_fit(acc),
    ensures
        ext_sorted(add_node(acc, n).by_ext),
        categories_fit(add_node(acc, n)),
    decreases n, 1nat,
{
    match n.kind {
        NodeKind::Dir => {
            assert(decreases_to!(n => n.children));
            lemma_add_list_laws(StatsModel { dirs: acc.dirs + 1, ..acc }, n.children@);
        },
        NodeKind::File => {
            if let Some(e) = n.ext {
                lemma_bump_sorted(acc.by_ext, e@);
            }
        },
        NodeKind::Collapsed { .. } => {},
    }
}

proof fn lemma_add_list_laws(acc: StatsModel, cs: Seq<TreeNode>)
    requires
        ext_sorted(acc.by_ext),
        categories_fit(acc),
    ensures
        ext_sorted(add_list(acc, cs).by_ext),
        categories_fit(add_list(acc, cs)),
    decreases cs, 0nat,
{
    if cs.len() > 0 {
        lemma_add_list_laws(acc, cs.drop_last());
        lemma_add_node_laws(add_list(acc, cs.drop_last()), cs.last());
    }
}

/// The statistics list each extension once, ordered by extension, and count no more
/// source, config, test and asset files together than files.
pub proof fn law_stats_are_consistent(root: TreeNode)
    ensures
        ext_sorted(stats_spec(root).by_ext),
        categories_fit(stats_spec(root)),
{
    lemma_add_node_laws(zero_stats(), root);
}
/// How many files with extension `x` an extension table counts.
pub open spec fn ext_count(t: Seq<(Seq<char>, nat)>, x: Seq<char>) -> nat
    decreases t.len(),
{
    if t.len() == 0 {
        0
    } else {
        (if t[0].0 == x {
            t[0].1
        } else {
            0
        }) + ext_count(t.drop_first(), x)
    }
}

/// `r` is what `acc` and `d` count together: counter by counter, and
/// extension by extension.
pub open spec fn sum_of(acc: StatsModel, d: StatsModel, r: StatsModel) -> bool {
    &&& r.files == acc.files + d.files
    &&& r.dirs == acc.dirs + d.dirs
    &&& r.source == acc.source + d.source
    &&& r.config == acc.config + d.config
    &&& r.test == acc.test + d.test
    &&& r.asset == acc.asset + d.asset
    &&& forall|x: Seq<char>| #[trigger] ext_count(r.by_ext, x) == ext_count(acc.by_ext, x) + ext_count(d.by_ext, x)
}

proof fn lemma_bump_count(t: Seq<(Seq<char>, nat)>, e: Seq<char>, x: Seq<char>)
    ensures
        ext_count(bump(t, e), x) == ext_count(t, x) + (if x == e {
            1nat
        } else {
            0nat
        }),
    decreases t.len(),
{
    let b = bump(t, e);
    if t.len() == 0 {
        assert(b.drop_first() =~= Seq::<(Seq<char>, nat)>::empty());
        assert(ext_count(b.drop_first(), x) == 0);
    } else if t[0].0 == e {
        assert(b.drop_first() =~= t.drop_first());
        assert(b[0] == (e, t[0].1 + 1));
    } else if seq_lt(e, t[0].0) {
        assert(b.drop_first() =~= t);
        assert(b[0] == (e, 1nat));
    } else {
        lemma_bump_count(t.drop_first(), e, x);
        assert(b.drop_first() =~= bump(t.drop_first(), e));
        assert(b[0] == t[0]);
    }
}

proof fn lemma_sum_of_zero(acc: StatsModel)
    ensures
        sum_of(zero_stats(), acc, acc),
{
}

proof fn lemma_add_node_sum(acc: StatsModel, n: TreeNode)
    ensures
        sum_of(acc, stats_spec(n), add_node(acc, n)),
    decreases n, 1nat,
{
    match n.kind {
        NodeKind::Dir => {
            assert(decreases_to!(n => n.children));
            let a1 = StatsModel { dirs: acc.dirs + 1, ..acc };
            let z1 = StatsModel { dirs: 1, ..zero_stats() };
            lemma_add_list_sum(a1, n.children@);
            lemma_add_list_sum(z1, n.children@);
            let l = add_list(zero_stats(), n.children@);
            let r = add_node(acc, n);
            let d = stats_spec(n);
            assert forall|x: Seq<char>| #[trigger] ext_count(r.by_ext, x) == ext_count(acc.by_ext, x)
                + ext_count(d.by_ext, x) by {
                assert(ext_count(r.by_ext, x) == ext_count(a1.by_ext, x) + ext_count(l.by_ext, x));
                assert(ext_count(d.by_ext, x) == ext_count(z1.by_ext, x) + ext_count(l.by_ext, x));
            }
        },
        NodeKind::File => {
            let r = add_node(acc, n);
            let d = stats_spec(n);
            assert forall|x: Seq<char>| #[trigger] ext_count(r.by_ext, x) == ext_count(acc.by_ext, x)
                + ext_count(d.by_ext, x) by {
                if let Some(e) = n.ext {
                    lemma_bump_count(acc.by_ext, e@, x);
                    lemma_bump_count(zero_stats().by_ext, e@, x);
                }
            }
        },
        NodeKind::Collapsed { .. } => {},
    }
}

proof fn lemma_add_list_sum(acc: StatsModel, cs: Seq<TreeNode>)
    ensures
        sum_of(acc, add_list(zero_stats(), cs), add_list(acc, cs)),
    decreases cs, 0nat,
{
    if cs.len() > 0 {
        lemma_add_list_sum(acc, cs.drop_last());
        let a = add_list(acc, cs.drop_last());
        let z = add_list(zero_stats(), cs.drop_last());
        lemma_add_node_sum(a, cs.last());
        lemma_add_node_sum(z, cs.last());
        let r = add_list(acc, cs);
        let d = add_list(zero_stats(), cs);
        let sn = stats_spec(cs.last());
        assert forall|x: Seq<char>| #[trigger] ext_count(r.by_ext, x) == ext_count(acc.by_ext, x)
            + ext_count(d.by_ext, x) by {
            assert(ext_count(r.by_ext, x) == ext_count(a.by_ext, x) + ext_count(sn.by_ext, x));
            assert(ext_count(d.by_ext, x) == ext_count(z.by_ext, x) + ext_count(sn.by_ext, x));
            assert(ext_count(a.by_ext, x) == ext_count(acc.by_ext, x) + ext_count(z.by_ext, x));
        }
    } else {
        lemma_sum_of_zero(acc);
    }
}

/// Counting a tree on top of counts already made adds the tree's own counts,
/// counter by counter and extension by extension.
pub proof fn law_counting_adds_up(acc: StatsModel, n: TreeNode)
    ensures
        sum_of(acc, stats_spec(n), add_node(acc, n)),
{
    lemma_add_node_sum(acc, n);
}

/// The statistics of an empty directory.
pub open spec fn one_dir() -> StatsModel {
    StatsModel { dirs: 1, ..zero_stats() }
}

/// A directory counts as one directory and nothing more while it is empty, and
/// each child added to it adds that child's statistics: `m` is the directory `n`
/// without its last child.
pub proof fn law_directory_stats_add_up(n: TreeNode, m: TreeNode)
    requires
        is_dir_node(n),
        is_dir_node(m),
        n.children@.len() > 0,
        m.children@ == n.children@.drop_last(),
    ensures
        stats_spec(m).dirs >= 1,
        m.children@.len() == 0 ==> stats_spec(m) == one_dir(),
        sum_of(stats_spec(m), stats_spec(n.children@.last()), stats_spec(n)),
{
    assert(add_list(StatsModel { dirs: 1, ..zero_stats() }, n.children@) == add_node(
        add_list(StatsModel { dirs: 1, ..zero_stats() }, n.children@.drop_last()),
        n.children@.last(),
    ));
    lemma_add_node_sum(stats_spec(m), n.children@.last());
    lemma_add_list_sum(StatsModel { dirs: 1, ..zero_stats() }, m.children@);
}
/// How many files lie under `n`: each file node counts one, each collapsed run the
/// entries it stands for, directories none themselves.
pub open spec fn files_below(n: TreeNode) -> nat
    decreases n, 1nat,
{
    match n.kind {
        NodeKind::File => 1,
        NodeKind::Collapsed { count, .. } => count as nat,
        NodeKind::Dir => files_in(n.children@),
    }
}

pub open spec fn files_in(cs: Seq<TreeNode>) -> nat
    decreases cs, 0nat,
{
    if cs.len() == 0 {
        0
    } else {
        files_in(cs.drop_last()) + files_below(cs.last())
    }
}

proof fn lemma_add_node_files(acc: StatsModel, n: TreeNode)
    ensures
        add_node(acc, n).files == acc.files + files_below(n),
    decreases n, 1nat,
{
    match n.kind {
        NodeKind::Dir => {
            assert(decreases_to!(n => n.children));
            lemma_add_list_files(StatsModel { dirs: acc.dirs + 1, ..acc }, n.children@);
        },
        _ => {},
    }
}

proof fn lemma_add_list_files(acc: StatsModel, cs: Seq<TreeNode>)
    ensures
        add_list(acc, cs).files == acc.files + files_in(cs),
    decreases cs, 0nat,
{
    if cs.len() > 0 {
        lemma_add_list_files(acc, cs.drop_last());
        assert(decreases_to!(cs => cs[cs.len() - 1]));
        lemma_add_node_files(add_list(acc, cs.drop_last()), cs[cs.len() - 1]);
    }
}

/// The statistics count the files under the node: its file nodes and the entries
/// of its collapsed runs, not its directories.
pub proof fn law_stats_count_the_files(n: TreeNode)
    ensures
        stats_spec(n).files == files_below(n),
{
    lemma_add_node_files(zero_stats(), n);
}
/// How many directories the tree under `n` holds, `n` included when it is one.
pub open spec fn dirs_below(n: TreeNode) -> nat
    decreases n, 1nat,
{
    match n.kind {
        NodeKind::Dir => 1 + dirs_in(n.children@),
        _ => 0,
    }
}

pub open spec fn dirs_in(cs: Seq<TreeNode>) -> nat
    decreases cs, 0nat,
{
    if cs.len() == 0 {
        0
    } else {
        dirs_in(cs.drop_last()) + dirs_below(cs.last())
    }
}

proof fn lemma_add_node_dirs(acc: StatsModel, n: TreeNode)
    ensures
        add_node(acc, n).dirs == acc.dirs + dirs_below(n),
    decreases n, 1nat,
{
    match n.kind {
        NodeKind::Dir => {
            assert(decreases_to!(n => n.children));
            lemma_add_list_dirs(StatsModel { dirs: acc.dirs + 1, ..acc }, n.children@);
        },
        NodeKind::File => {
            let a = StatsModel {
                files: acc.files + 1,
                by_ext: match n.ext {
                    Some(e) => bump(acc.by_ext, e@),
                    None => acc.by_ext,
                },
                ..acc
            };
            assert(a.dirs == acc.dirs);
        },
        _ => {},
    }
}

proof fn lemma_add_list_dirs(acc: StatsModel, cs: Seq<TreeNode>)
    ensures
        add_list(acc, cs).dirs == acc.dirs + dirs_in(cs),
    decreases cs, 0nat,
{
    if cs.len() > 0 {
        lemma_add_list_dirs(acc, cs.drop_last());
        assert(decreases_to!(cs => cs[cs.len() - 1]));
        lemma_add_node_dirs(add_list(acc, cs.drop_last()), cs[cs.len() - 1]);
    }
}

/// The statistics count the directories of the tree, the root included.
pub proof fn law_stats_count_the_dirs(n: TreeNode)
    ensures
        stats_spec(n).dirs == dirs_below(n),
{
    lemma_add_node_dirs(zero_stats(), n);
}
} // verus!
