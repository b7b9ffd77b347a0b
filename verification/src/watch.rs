//! A polling watcher: it keeps the modification times of the last scan and tells
//! whether a new scan differs. Scanning the file system and sleeping between scans
//! are left to the caller.
use vstd::prelude::*;
use crate::text::{chars_of, one_of};

verus! {

/// Directories that are skipped while watching, for faster polling.
pub open spec fn noisy_names() -> Seq<Seq<char>> {
    seq![".git"@, "node_modules"@, "target"@, ".next"@, "dist"@, "build"@]
}

/// Whether the watcher's scan skips an entry of this name.
pub fn skipped_while_watching(name: &str) -> (r: bool)
    ensures
        r == noisy_names().contains(name@),
{
    let r = one_of(&chars_of(name), &[".git", "node_modules", "target", ".next", "dist", "build"]);
    proof {
        assert([(".git"), ("node_modules"), ("target"), (".next"), ("dist"), ("build")]@.map_values(
            |l: &str| l@,
        ) =~= noisy_names());
    }
    r
}

/// A scan as a map from path to modification time; a later entry for the same path wins.
pub open spec fn table_map(t: Seq<(Seq<char>, i128)>) -> Map<Seq<char>, i128>
    decreases t.len(),
{
    if t.len() == 0 {
        Map::empty()
    } else {
        table_map(t.drop_last()).insert(t.last().0, t.last().1)
    }
}

pub open spec fn scan_view(v: Seq<(String, i128)>) -> Seq<(Seq<char>, i128)> {
    v.map_values(|e: (String, i128)| (e.0@, e.1))
}

/// The time recorded last for `k` in a scan.
pub open spec fn last_value(t: Seq<(Seq<char>, i128)>, k: Seq<char>) -> Option<i128>
    decreases t.len(),
{
    if t.len() == 0 {
        None
    } else if t.last().0 == k {
        Some(t.last().1)
    } else {
        last_value(t.drop_last(), k)
    }
}

proof fn lemma_table_map(t: Seq<(Seq<char>, i128)>, k: Seq<char>)
    ensures
        table_map(t).dom().contains(k) <==> last_value(t, k) is Some,
        last_value(t, k) matches Some(v) ==> table_map(t)[k] == v,
        last_value(t, k) is Some ==> exists|i: int| 0 <= i < t.len() && #[trigger] t[i].0 == k,
    decreases t.len(),
{
    if t.len() > 0 {
        lemma_table_map(t.drop_last(), k);
        if t.last().0 != k && last_value(t, k) is Some {
            let i = choose|i: int| 0 <= i < t.drop_last().len() && #[trigger] t.drop_last()[i].0 == k;
            assert(t[i] == t.drop_last()[i]);
        }
        if t.last().0 == k {
            assert(t[t.len() - 1].0 == k);
        }
    }
}

fn find_last(t: &Vec<(String, i128)>, k: &String) -> (r: Option<i128>)
    ensures
        r == last_value(scan_view(t@), k@),
{
    let ghost tv = scan_view(t@);
    let mut i: usize = t.len();
    assert(tv.take(i as int) =~= tv);
    while i > 0
        invariant
            tv == scan_view(t@),
            i <= t.len(),
            last_value(tv, k@) == last_value(tv.take(i as int), k@),
        decreases i,
    {
        assert(tv.take(i as int).drop_last() =~= tv.take(i - 1));
        assert(tv.take(i as int).last() == (t@[i - 1].0@, t@[i - 1].1));
        if t[i - 1].0 == *k {
            return Some(t[i - 1].1);
        }
        i -= 1;
    }
    None
}

/// Whether every path of `a` has the same last time in `b` as in `a`.
fn agrees_on(a: &Vec<(String, i128)>, b: &Vec<(String, i128)>) -> (r: bool)
    ensures
        r <==> forall|i: int|
            0 <= i < a@.len() ==> last_value(scan_view(b@), #[trigger] a@[i].0@) == last_value(
                scan_view(a@),
                a@[i].0@,
            ),
{
    let mut i: usize = 0;
    while i < a.len()
        invariant
            i <= a.len(),
            forall|j: int|
                0 <= j < i ==> last_value(scan_view(b@), #[trigger] a@[j].0@) == last_value(
                    scan_view(a@),
                    a@[j].0@,
                ),
        decreases a.len() - i,
    {
        if find_last(b, &a[i].0) != find_last(a, &a[i].0) {
            return false;
        }
        i += 1;
    }
    true
}

/// Whether two scans record the same time for the same set of paths.
fn same_scan(a: &Vec<(String, i128)>, b: &Vec<(String, i128)>) -> (r: bool)
    ensures
        r == (table_map(scan_view(a@)) == table_map(scan_view(b@))),
{
    let ghost av = scan_view(a@);
    let ghost bv = scan_view(b@);
    let ab = agrees_on(a, b);
    let ba = agrees_on(b, a);
    proof {
        if ab && ba {
            assert forall|k: Seq<char>| #[trigger] table_map(av).dom().contains(k) <==> table_map(
                bv,
            ).dom().contains(k) by {
                lemma_table_map(av, k);
                lemma_table_map(bv, k);
                if last_value(av, k) is Some {
                    let i = choose|i: int| 0 <= i < av.len() && #[trigger] av[i].0 == k;
                    assert(a@[i].0@ == k);
                }
                if last_value(bv, k) is Some {
                    let i = choose|i: int| 0 <= i < bv.len() && #[trigger] bv[i].0 == k;
                    assert(b@[i].0@ == k);
                }
            }
            assert forall|k: Seq<char>| #[trigger] table_map(av).dom().contains(k) implies table_map(
                av,
            )[k] == table_map(bv)[k] by {
                lemma_table_map(av, k);
                lemma_table_map(bv, k);
                let i = choose|i: int| 0 <= i < av.len() && #[trigger] av[i].0 == k;
                assert(a@[i].0@ == k);
            }
            assert(table_map(av) =~= table_map(bv));
        }
        if !ab {
            let i = choose|i: int|
                0 <= i < a@.len() && !(last_value(bv, #[trigger] a@[i].0@) == last_value(av, a@[i].0@));
            let k = a@[i].0@;
            lemma_table_map(av, k);
            lemma_table_map(bv, k);
            assert(av[i].0 == k);
            if table_map(av) == table_map(bv) {
                assert(table_map(av).dom().contains(k));
            }
        }
        if !ba {
            let i = choose|i: int|
                0 <= i < b@.len() && !(last_value(av, #[trigger] b@[i].0@) == last_value(bv, b@[i].0@));
            let k = b@[i].0@;
            lemma_table_map(av, k);
            lemma_table_map(bv, k);
            assert(bv[i].0 == k);
            if table_map(av) == table_map(bv) {
                assert(table_map(bv).dom().contains(k));
            }
        }
    }
    ab && ba
}

/// A polling file-system watcher.
pub struct Watcher {
    snapshots: Vec<(String, i128)>,
    interval_ms: u64,
}

pub struct WatcherView {
    /// The modification time of each path in the last scan.
    pub snapshots: Map<Seq<char>, i128>,
    /// How long to wait between scans.
    pub interval_ms: u64,
}

impl View for Watcher {
    type V = WatcherView;

    closed spec fn view(&self) -> WatcherView {
        WatcherView { snapshots: table_map(scan_view(self.snapshots@)), interval_ms: self.interval_ms }
    }
}

impl Watcher {
    /// A watcher with no scan yet, polling every `interval_ms` milliseconds.
    pub fn new(interval_ms: u64) -> (r: Self)
        ensures
            r@.snapshots == Map::<Seq<char>, i128>::empty(),
            r@.interval_ms == interval_ms,
    {
        let r = Watcher { snapshots: Vec::new(), interval_ms };
        assert(scan_view(r.snapshots@) =~= Seq::<(Seq<char>, i128)>::empty());
        r
    }

    /// How long to wait between scans, in milliseconds.
    pub fn interval_ms(&self) -> (r: u64)
        ensures
            r == self@.interval_ms,
    {
        self.interval_ms
    }

    /// Takes `scan` (paths with their modification times) as the reference.
    pub fn snapshot(&mut self, scan: Vec<(String, i128)>)
        ensures
            final(self)@.snapshots == table_map(scan_view(scan@)),
            final(self)@.interval_ms == old(self)@.interval_ms,
    {
        self.snapshots = scan;
    }

    /// Compares a fresh scan with the reference and keeps it: `true` when something
    /// changed, when the waiting is over.
    pub fn poll(&mut self, scan: Vec<(String, i128)>) -> (changed: bool)
        ensures
            changed == (table_map(scan_view(scan@)) != old(self)@.snapshots),
            final(self)@.snapshots == table_map(scan_view(scan@)),
            final(self)@.interval_ms == old(self)@.interval_ms,
    {
        let same = same_scan(&scan, &self.snapshots);
        self.snapshots = scan;
        !same
    }
}

/// Two scans differ exactly when some path appears in one and not the other, or
/// carries another modification time: what `poll` reports against the last scan.
pub proof fn law_change_is_a_path_difference(a: Seq<(Seq<char>, i128)>, b: Seq<(Seq<char>, i128)>)
    ensures
        table_map(a) != table_map(b) <==> exists|k: Seq<char>| #[trigger] last_value(a, k) != last_value(b, k),
{
    if exists|k: Seq<char>| #[trigger] last_value(a, k) != last_value(b, k) {
        let k = choose|k: Seq<char>| #[trigger] last_value(a, k) != last_value(b, k);
        lemma_table_map(a, k);
        lemma_table_map(b, k);
    } else {
        assert forall|k: Seq<char>| #[trigger] table_map(a).dom().contains(k) <==> table_map(b).dom().contains(k) by {
            lemma_table_map(a, k);
            lemma_table_map(b, k);
            assert(last_value(a, k) == last_value(b, k));
        }
        assert forall|k: Seq<char>| #[trigger] table_map(a).dom().contains(k) implies table_map(a)[k] == table_map(b)[k] by {
            lemma_table_map(a, k);
            lemma_table_map(b, k);
            assert(last_value(a, k) == last_value(b, k));
        }
        assert(table_map(a) =~= table_map(b));
    }
}

/// While watching, the directories skipped are `.git`, `node_modules`, `target`,
/// `.next`, `dist` and `build`.
pub proof fn law_watch_skips_noisy_directories(name: Seq<char>)
    ensures
        noisy_names().contains(name) <==> (name == ".git"@ || name == "node_modules"@ || name
            == "target"@ || name == ".next"@ || name == "dist"@ || name == "build"@),
{
    let l = noisy_names();
    if l.contains(name) {
        let i = choose|i: int| 0 <= i < l.len() && l[i] == name;
    }
    if name == ".git"@ { assert(l[0] == name); }
    if name == "node_modules"@ { assert(l[1] == name); }
    if name == "target"@ { assert(l[2] == name); }
    if name == ".next"@ { assert(l[3] == name); }
    if name == "dist"@ { assert(l[4] == name); }
    if name == "build"@ { assert(l[5] == name); }
}
} // verus!
