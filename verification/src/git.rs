//! What the library makes of git's answers: changed files, the repository root
//! and recent commits. Running git is left to the caller, who hands over whether
//! each command succeeded and what it printed.
use vstd::prelude::*;
use crate::text::{lines, trim, chars_of, string_of, trimmed_lines, chars_eq, trim_chars};
use crate::paths::{rel_path, rel_path_exec};
use crate::tree::{
    TreeNode, NodeKind, NodeView, KindView, view_node, view_list, lemma_view_list_push,
};

verus! {

/// `t` with `x` added at the end unless it is empty or already there.
pub open spec fn add_unique(t: Seq<Seq<char>>, x: Seq<char>) -> Seq<Seq<char>> {
    if x.len() == 0 || t.contains(x) {
        t
    } else {
        t.push(x)
    }
}

/// The trimmed lines of `ls`, added one by one to `acc`.
pub open spec fn add_lines(acc: Seq<Seq<char>>, ls: Seq<Seq<char>>) -> Seq<Seq<char>>
    decreases ls.len(),
{
    if ls.len() == 0 {
        acc
    } else {
        add_unique(add_lines(acc, ls.drop_last()), trim(ls.last()))
    }
}

/// The changed files listed in git's outputs: each non-empty trimmed line, once,
/// in the order of first appearance.
pub open spec fn changed_files(outputs: Seq<Seq<char>>) -> Seq<Seq<char>>
    decreases outputs.len(),
{
    if outputs.len() == 0 {
        Seq::empty()
    } else {
        add_lines(changed_files(outputs.drop_last()), lines(outputs.last()))
    }
}

pub open spec fn strings_view(v: Seq<String>) -> Seq<Seq<char>> {
    v.map_values(|s: String| s@)
}

/// Whether `t` holds `x`, compared by content.
fn holds(t: &Vec<String>, x: &Vec<char>) -> (r: bool)
    ensures
        r == strings_view(t@).contains(x@),
{
    let mut i: usize = 0;
    while i < t.len()
        invariant
            i <= t.len(),
            forall|j: int| 0 <= j < i ==> t@[j]@ != x@,
        decreases t.len() - i,
    {
        if chars_eq(&chars_of(t[i].as_str()), x) {
            assert(strings_view(t@)[i as int] == x@);
            return true;
        }
        i += 1;
    }
    proof {
        if strings_view(t@).contains(x@) {
            let j = choose|j: int| 0 <= j < strings_view(t@).len() && strings_view(t@)[j] == x@;
            assert(t@[j]@ == x@);
        }
    }
    false
}

fn add_output(acc: &mut Vec<String>, out: &str)
    ensures
        strings_view(final(acc)@) == add_lines(strings_view(old(acc)@), lines(out@)),
{
    let ls = trimmed_lines(&chars_of(out));
    let ghost l = lines(out@);
    let mut i: usize = 0;
    assert(l.take(0) =~= Seq::<Seq<char>>::empty());
    while i < ls.len()
        invariant
            ls@.len() == l.len(),
            forall|j: int| 0 <= j < ls@.len() ==> #[trigger] ls@[j]@ == trim(l[j]),
            i <= ls.len(),
            strings_view(acc@) == add_lines(strings_view(old(acc)@), l.take(i as int)),
        decreases ls.len() - i,
    {
        let t = &ls[i];
        assert(l.take(i + 1).drop_last() =~= l.take(i as int));
        assert(l.take(i + 1).last() == l[i as int]);
        let ghost before = strings_view(acc@);
        if t.len() > 0 && !holds(acc, t) {
            acc.push(string_of(t));
            assert(strings_view(acc@) =~= before.push(t@));
        }
        i += 1;
    }
    assert(l.take(ls.len() as int) =~= l);
}

/// The files changed since a git ref. `in_repo` says whether the directory is in a
/// git repository; `outputs` are what git printed for the diff against the ref, the
/// staged diff and the untracked files. Outside a repository there is no answer.
pub fn changed_since(in_repo: bool, outputs: &Vec<String>) -> (r: Option<Vec<String>>)
    ensures
        r is Some <==> in_repo,
        r matches Some(v) ==> strings_view(v@) == changed_files(strings_view(outputs@)),
{
    if !in_repo {
        return None;
    }
    let ghost ov = strings_view(outputs@);
    let mut files: Vec<String> = Vec::new();
    let mut i: usize = 0;
    assert(ov.take(0) =~= Seq::<Seq<char>>::empty());
    while i < outputs.len()
        invariant
            ov == strings_view(outputs@),
            i <= outputs.len(),
            strings_view(files@) == changed_files(ov.take(i as int)),
        decreases outputs.len() - i,
    {
        assert(ov.take(i + 1).drop_last() =~= ov.take(i as int));
        assert(ov.take(i + 1).last() == outputs@[i as int]@);
        add_output(&mut files, outputs[i].as_str());
        i += 1;
    }
    assert(ov.take(outputs.len() as int) =~= ov);
    Some(files)
}

/// The repository root that `git rev-parse --show-toplevel` printed, trimmed; none
/// where the command failed.
pub fn repo_root(succeeded: bool, stdout: &str) -> (r: Option<String>)
    ensures
        r is Some <==> succeeded,
        r matches Some(p) ==> p@ == trim(stdout@),
{
    if succeeded {
        Some(string_of(&trim_chars(&chars_of(stdout))))
    } else {
        None
    }
}

/// The commit lines that `git log --oneline` printed, each trimmed; none where the
/// command failed.
pub fn recent_commits(succeeded: bool, stdout: &str) -> (r: Vec<String>)
    ensures
        succeeded ==> strings_view(r@) == lines(stdout@).map_values(|l: Seq<char>| trim(l)),
        !succeeded ==> r@.len() == 0,
{
    let mut r: Vec<String> = Vec::new();
    if !succeeded {
        return r;
    }
    let ls = trimmed_lines(&chars_of(stdout));
    let mut i: usize = 0;
    while i < ls.len()
        invariant
            ls@.len() == lines(stdout@).len(),
            forall|j: int| 0 <= j < ls@.len() ==> #[trigger] ls@[j]@ == trim(lines(stdout@)[j]),
            i <= ls.len(),
            r@.len() == i,
            forall|j: int| 0 <= j < i ==> #[trigger] r@[j]@ == trim(lines(stdout@)[j]),
        decreases ls.len() - i,
    {
        r.push(string_of(&ls[i]));
        i += 1;
    }
    assert(strings_view(r@) =~= lines(stdout@).map_values(|l: Seq<char>| trim(l)));
    r
}

/// The changed files hold no duplicates and no empty names, and a name is among
/// them exactly when it is a trimmed line of one of git's outputs.
pub proof fn law_changed_files_are_distinct_trimmed_lines(outputs: Seq<Seq<char>>)
    ensures
        forall|i: int, j: int|
            0 <= i < j < changed_files(outputs).len() ==> changed_files(outputs)[i]
                != changed_files(outputs)[j],
        forall|i: int| 0 <= i < changed_files(outputs).len() ==> #[trigger] changed_files(outputs)[i].len() > 0,
        forall|x: Seq<char>|
            #[trigger] changed_files(outputs).contains(x) <==> x.len() > 0 && exists|k: int, m: int|
                0 <= k < outputs.len() && 0 <= m < lines(outputs[k]).len() && #[trigger] trim(
                    lines(outputs[k])[m],
                ) == x,
    decreases outputs.len(),
{
    if outputs.len() > 0 {
        let init = outputs.drop_last();
        law_changed_files_are_distinct_trimmed_lines(init);
        lemma_add_lines(changed_files(init), lines(outputs.last()));
        assert forall|x: Seq<char>|
            changed_files(outputs).contains(x) <==> x.len() > 0 && exists|k: int, m: int|
                0 <= k < outputs.len() && 0 <= m < lines(outputs[k]).len() && #[trigger] trim(
                    lines(outputs[k])[m],
                ) == x by {
            if changed_files(init).contains(x) {
                let (k, m) = choose|k: int, m: int|
                    0 <= k < init.len() && 0 <= m < lines(init[k]).len() && #[trigger] trim(
                        lines(init[k])[m],
                    ) == x;
                assert(outputs[k] == init[k]);
            }
            if x.len() > 0 && exists|k: int, m: int|
                0 <= k < outputs.len() && 0 <= m < lines(outputs[k]).len() && #[trigger] trim(
                    lines(outputs[k])[m],
                ) == x {
                let (k, m) = choose|k: int, m: int|
                    0 <= k < outputs.len() && 0 <= m < lines(outputs[k]).len() && #[trigger] trim(
                        lines(outputs[k])[m],
                    ) == x;
                if k < init.len() {
                    assert(init[k] == outputs[k]);
                    assert(trim(lines(init[k])[m]) == x);
                } else {
                    assert(outputs[k] == outputs.last());
                }
            }
        }
    }
}

/// Adding lines keeps the table free of duplicates and empty names, and adds
/// exactly the non-empty trimmed lines.
proof fn lemma_add_lines(acc: Seq<Seq<char>>, ls: Seq<Seq<char>>)
    requires
        forall|i: int, j: int| 0 <= i < j < acc.len() ==> acc[i] != acc[j],
        forall|i: int| 0 <= i < acc.len() ==> #[trigger] acc[i].len() > 0,
    ensures
        forall|i: int, j: int|
            0 <= i < j < add_lines(acc, ls).len() ==> add_lines(acc, ls)[i] != add_lines(acc, ls)[j],
        forall|i: int| 0 <= i < add_lines(acc, ls).len() ==> #[trigger] add_lines(acc, ls)[i].len() > 0,
        forall|x: Seq<char>|
            #[trigger] add_lines(acc, ls).contains(x) <==> acc.contains(x) || (x.len() > 0 && exists|m: int|
                0 <= m < ls.len() && #[trigger] trim(ls[m]) == x),
    decreases ls.len(),
{
    if ls.len() > 0 {
        let init = ls.drop_last();
        lemma_add_lines(acc, init);
        let t = add_lines(acc, init);
        let x = trim(ls.last());
        assert forall|y: Seq<char>|
            add_lines(acc, ls).contains(y) <==> acc.contains(y) || (y.len() > 0 && exists|m: int|
                0 <= m < ls.len() && #[trigger] trim(ls[m]) == y) by {
            if y.len() > 0 && exists|m: int| 0 <= m < ls.len() && #[trigger] trim(ls[m]) == y {
                let m = choose|m: int| 0 <= m < ls.len() && #[trigger] trim(ls[m]) == y;
                if m < init.len() {
                    assert(init[m] == ls[m]);
                    assert(trim(init[m]) == y);
                    assert(t.contains(y));
                }
                if add_unique(t, x) != t {
                    assert(add_unique(t, x)[t.len() as int] == x);
                }
            }
            if t.contains(y) && !acc.contains(y) {
                let m = choose|m: int| 0 <= m < init.len() && #[trigger] trim(init[m]) == y;
                assert(ls[m] == init[m]);
            }
            if add_lines(acc, ls).contains(y) && !t.contains(y) {
                assert(y == x);
                assert(trim(ls[ls.len() - 1]) == y);
            }
            if t.contains(y) {
                let i = choose|i: int| 0 <= i < t.len() && t[i] == y;
                if add_unique(t, x) != t {
                    assert(add_unique(t, x)[i] == y);
                }
            }
        }
    }
}

// ───────────────────────────── only what changed ─────────────────────────────

/// Whether the file at `path` is one of the `changed` paths, which are written
/// relative to the repository root `repo`.
pub open spec fn is_changed(path: Seq<char>, changed: Seq<Seq<char>>, repo: Seq<char>) -> bool {
    match rel_path(path, repo) {
        Some(r) => changed.contains(r),
        None => false,
    }
}

/// The tree under `n` cut down to the changed files and the directories that lead
/// to them.
pub open spec fn changed_view(n: NodeView, changed: Seq<Seq<char>>, repo: Seq<char>) -> NodeView
    decreases n, 1nat,
{
    NodeView { children: changed_list(n.children, changed, repo), ..n }
}

/// The siblings that stay, each cut down: changed files, and directories that still
/// hold something once cut down; collapsed runs stand for files nobody looked at
/// and go.
pub open spec fn changed_list(cs: Seq<NodeView>, changed: Seq<Seq<char>>, repo: Seq<char>) -> Seq<
    NodeView,
>
    decreases cs, 0nat,
{
    if cs.len() == 0 {
        Seq::<NodeView>::empty()
    } else {
        let rest = changed_list(cs.drop_last(), changed, repo);
        let c = cs.last();
        match c.kind {
            KindView::Dir => {
                let v = changed_view(c, changed, repo);
                if v.children.len() > 0 {
                    rest.push(v)
                } else {
                    rest
                }
            },
            KindView::File => if is_changed(c.path, changed, repo) {
                rest.push(c)
            } else {
                rest
            },
            KindView::Collapsed { .. } => rest,
        }
    }
}

fn is_changed_exec(path: &str, changed: &Vec<String>, repo: &Vec<char>) -> (r: bool)
    ensures
        r == is_changed(path@, changed@.map_values(|s: String| s@), repo@),
{
    let ghost cv = changed@.map_values(|s: String| s@);
    let p = chars_of(path);
    match rel_path_exec(&p, repo) {
        None => false,
        Some(rel) => {
            let mut i: usize = 0;
            while i < changed.len()
                invariant
                    cv == changed@.map_values(|s: String| s@),
                    i <= changed.len(),
                    rel_path(path@, repo@) == Some(rel@),
                    forall|j: int| 0 <= j < i ==> cv[j] != rel@,
                decreases changed.len() - i,
            {
                if chars_eq(&chars_of(changed[i].as_str()), &rel) {
                    assert(cv[i as int] == rel@);
                    assert(cv.contains(rel@));
                    return true;
                }
                i += 1;
            }
            assert(!cv.contains(rel@)) by {
                if cv.contains(rel@) {
                    let j = choose|j: int| 0 <= j < cv.len() && cv[j] == rel@;
                }
            }
            false
        },
    }
}

/// Cuts the tree under `node` down to the files changed since a git ref, given as
/// paths relative to the repository root `repo_root`, and the directories that lead
/// to them. The node itself stays, whatever it holds.
pub fn keep_changed(node: &mut TreeNode, changed: &Vec<String>, repo_root: &str)
    ensures
        view_node(*final(node)) == changed_view(
            view_node(*old(node)),
            changed@.map_values(|s: String| s@),
            repo_root@,
        ),
    decreases *old(node),
{
    let ghost cv = changed@.map_values(|s: String| s@);
    let repo = chars_of(repo_root);
    let mut kids: Vec<TreeNode> = Vec::new();
    std::mem::swap(&mut kids, &mut node.children);
    let ghost orig = kids@;
    assert(orig == old(node).children@);
    assert(orig.len() <= usize::MAX) by {
        assert(kids@.len() == kids.len());
    }
    let mut done: Vec<TreeNode> = Vec::new();
    let mut i: usize = 0;
    assert(orig.skip(0) =~= orig);
    assert(view_list(done@) =~= Seq::<NodeView>::empty());
    assert(orig.take(0) =~= Seq::<TreeNode>::empty());
    while kids.len() > 0
        invariant
            orig == old(node).children@,
            orig.len() <= usize::MAX,
            cv == changed@.map_values(|s: String| s@),
            repo@ == repo_root@,
            i <= orig.len(),
            kids@ == orig.skip(i as int),
            view_list(done@) == changed_list(view_list(orig.take(i as int)), cv, repo_root@),
        decreases kids.len(),
    {
        assert(orig.skip(i as int).len() == orig.len() - i);
        let mut c = kids.remove(0);
        assert(c == orig[i as int]);
        assert(orig.skip(i as int).drop_first() =~= orig.skip(i + 1));
        proof {
            assert(decreases_to!(*old(node) => old(node).children));
            assert(decreases_to!(old(node).children => old(node).children@));
            assert(decreases_to!(old(node).children@ => old(node).children@[i as int]));
            lemma_view_list_push(orig.take(i as int), orig[i as int]);
            assert(orig.take(i as int).push(orig[i as int]) =~= orig.take(i + 1));
        }
        let ghost before = done@;
        let ghost cview = view_node(c);
        let ghost prev = view_list(orig.take(i as int));
        assert(prev.push(cview).drop_last() =~= prev);
        if c.is_dir() {
            keep_changed(&mut c, changed, repo_root);
            proof {
                crate::tree::lemma_view_list_len(c.children@);
            }
            if c.children.len() > 0 {
                proof {
                    lemma_view_list_push(before, c);
                }
                done.push(c);
            }
        } else if is_file(&c) {
            if is_changed_exec(c.path.as_str(), changed, &repo) {
                proof {
                    lemma_view_list_push(before, c);
                }
                done.push(c);
            }
        }
        i += 1;
    }
    assert(orig.take(i as int) =~= orig);
    node.children = done;
}

fn is_file(n: &TreeNode) -> (r: bool)
    ensures
        r == (n.kind is File),
{
    match n.kind {
        NodeKind::File => true,
        _ => false,
    }
}
/// Whether `c` may stay once the tree is cut down: a changed file, or a directory
/// that holds something and whose entries may all stay.
pub open spec fn stays(c: NodeView, changed: Seq<Seq<char>>, repo: Seq<char>) -> bool
    decreases c, 1nat,
{
    match c.kind {
        KindView::File => is_changed(c.path, changed, repo),
        KindView::Dir => c.children.len() > 0 && all_stay(c.children, changed, repo),
        KindView::Collapsed { .. } => false,
    }
}

pub open spec fn all_stay(cs: Seq<NodeView>, changed: Seq<Seq<char>>, repo: Seq<char>) -> bool
    decreases cs, 0nat,
{
    if cs.len() == 0 {
        true
    } else {
        all_stay(cs.drop_last(), changed, repo) && stays(cs.last(), changed, repo)
    }
}

proof fn lemma_changed_view_stays(c: NodeView, changed: Seq<Seq<char>>, repo: Seq<char>)
    ensures
        all_stay(changed_view(c, changed, repo).children, changed, repo),
    decreases c, 1nat,
{
    assert(decreases_to!(c => c.children));
    lemma_changed_list_stays(c.children, changed, repo);
}

proof fn lemma_changed_list_stays(cs: Seq<NodeView>, changed: Seq<Seq<char>>, repo: Seq<char>)
    ensures
        all_stay(changed_list(cs, changed, repo), changed, repo),
    decreases cs, 0nat,
{
    if cs.len() > 0 {
        lemma_changed_list_stays(cs.drop_last(), changed, repo);
        let rest = changed_list(cs.drop_last(), changed, repo);
        let c = cs[cs.len() - 1];
        assert(decreases_to!(cs => cs[cs.len() - 1]));
        lemma_changed_view_stays(c, changed, repo);
        let v = changed_view(c, changed, repo);
        assert(rest.push(v).drop_last() =~= rest);
        assert(rest.push(c).drop_last() =~= rest);
        assert(cs.last() == c);
        match c.kind {
            KindView::Dir => {
                if v.children.len() > 0 {
                    assert(v.kind == c.kind);
                    assert(stays(v, changed, repo));
                    assert(rest.push(v).last() == v);
                    assert(all_stay(rest.push(v), changed, repo));
                }
            },
            KindView::File => {
                if is_changed(c.path, changed, repo) {
                    assert(stays(c, changed, repo));
                    assert(rest.push(c).last() == c);
                    assert(all_stay(rest.push(c), changed, repo));
                }
            },
            KindView::Collapsed { .. } => {},
        }
    }
}

/// With `--since`, what is left below the root is changed files and the non-empty
/// directories that lead to them: nothing unchanged, and no collapsed run.
pub proof fn law_since_leaves_only_changed_files(n: NodeView, changed: Seq<Seq<char>>, repo: Seq<char>)
    ensures
        all_stay(changed_view(n, changed, repo).children, changed, repo),
{
    lemma_changed_view_stays(n, changed, repo);
}
} // verus!
