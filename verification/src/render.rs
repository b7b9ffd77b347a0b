//! The renderers: tree, AI, flat, group and stats.
use vstd::prelude::*;
use crate::ansi::{
    c_dir, c_dim, c_ai, c_green, c_file, c_dir_exec, c_dim_exec, c_ai_exec, c_green_exec,
    c_file_exec, yellow, magenta, cyan, bright_white, Color,
};
use crate::cli::{Args, ArgsView};
use crate::detector::{
    Framework, FileRole, FileCategory, framework_lang, framework_name, role_annotation,
    role_category, category_label,
};
use crate::text::{has_prefix, has_suffix, checked_utf8_len, join, utf8_len, lemma_utf8_len_bound, decimal, lowercase, chars_of, string_of, lower_chars, is_text, decimal_chars};
use crate::tree::{
    TreeNode, NodeKind, TreeStats, StatsModel, stats_spec, weight, flat_node, files_below,
    law_stats_count_the_files, dirs_below, law_stats_count_the_dirs,
};
use crate::paths::{rel_path, rel_path_exec};

verus! {

/// Colors are used unless switched off, and only on a terminal.
pub open spec fn use_color_spec(args: ArgsView, tty: bool) -> bool {
    !args.no_color && tty
}

pub fn use_color(args: &Args, tty: bool) -> (r: bool)
    ensures
        r == use_color_spec(args@, tty),
{
    if args.no_color {
        return false;
    }
    tty
}

pub open spec fn connector(last: bool) -> Seq<char> {
    if last {
        "└── "@
    } else {
        "├── "@
    }
}

pub open spec fn next_prefix(prefix: Seq<char>, last: bool) -> Seq<char> {
    prefix + (if last {
        " "@
    } else {
        "│"@
    }) + "   "@
}


// ───────────────────────────── tree ─────────────────────────────

/// The line of `n` and, for a directory, the lines below it.
pub open spec fn tree_line(n: TreeNode, prefix: Seq<char>, last: bool, col: bool) -> Seq<char>
    decreases n, 0nat,
{
    match n.kind {
        NodeKind::File => prefix + connector(last) + c_file(n.name@, n.role, col) + "\n"@,
        NodeKind::Dir => prefix + connector(last) + c_dir(n.name@ + "/"@, col) + "\n"@ + (
        if n.children@.len() > 0 {
            tree_lines(n.children@, next_prefix(prefix, last), col, n.children@.len())
        } else {
            Seq::<char>::empty()
        }),
        NodeKind::Collapsed { .. } => prefix + connector(last) + c_dim(n.name@, col) + "\n"@,
    }
}

/// The lines of the first `k` of the siblings `cs`.
pub open spec fn tree_lines(cs: Seq<TreeNode>, prefix: Seq<char>, col: bool, k: nat) -> Seq<char>
    decreases cs, k,
{
    if k == 0 || k > cs.len() {
        Seq::<char>::empty()
    } else {
        tree_lines(cs, prefix, col, (k - 1) as nat) + tree_line(
            cs[k - 1],
            prefix,
            k - 1 == cs.len() - 1,
            col,
        )
    }
}

pub open spec fn render_tree_spec(root: TreeNode, col: bool) -> Seq<char> {
    c_dir(root.name@ + "/"@, col) + "\n"@ + tree_lines(root.children@, Seq::<char>::empty(), col, root.children@.len())
}

fn connector_exec(last: bool) -> (r: &'static str)
    ensures
        r@ == connector(last),
{
    if last {
        "└── "
    } else {
        "├── "
    }
}

fn next_prefix_exec(prefix: &String, last: bool) -> (r: String)
    ensures
        r@ == next_prefix(prefix@, last),
{
    let mut r = prefix.clone();
    if last {
        r.append(" ");
    } else {
        r.append("│");
    }
    r.append("   ");
    r
}


fn slash_name(name: &String) -> (r: String)
    ensures
        r@ == name@ + "/"@,
{
    let mut r = name.clone();
    r.append("/");
    r
}

fn render_node(node: &TreeNode, prefix: &String, last: bool, col: bool, out: &mut String)
    ensures
        final(out)@ == old(out)@ + tree_line(*node, prefix@, last, col),
    decreases node, 0nat,
{
    out.append(prefix.as_str());
    out.append(connector_exec(last));
    match &node.kind {
        NodeKind::File => {
            let f = c_file_exec(node.name.as_str(), &node.role, col);
            out.append(f.as_str());
            out.append("\n");
        },
        NodeKind::Dir => {
            let d = c_dir_exec(slash_name(&node.name).as_str(), col);
            out.append(d.as_str());
            out.append("\n");
            let ghost mid = out@;
            if node.children.len() > 0 {
                let np = next_prefix_exec(prefix, last);
                proof {
                    assert(decreases_to!(node => node.children));
                }
                render_children(&node.children, &np, col, out);
            } else {
                assert(out@ =~= mid + Seq::<char>::empty());
            }
        },
        NodeKind::Collapsed { .. } => {
            let m = c_dim_exec(node.name.as_str(), col);
            out.append(m.as_str());
            out.append("\n");
        },
    }
}

fn render_children(children: &Vec<TreeNode>, prefix: &String, col: bool, out: &mut String)
    ensures
        final(out)@ == old(out)@ + tree_lines(children@, prefix@, col, children@.len()),
    decreases children, children@.len() + 1,
{
    let n = children.len();
    let mut i: usize = 0;
    assert(old(out)@ + tree_lines(children@, prefix@, col, 0) =~= old(out)@);
    while i < n
        invariant
            n == children@.len(),
            i <= n,
            out@ == old(out)@ + tree_lines(children@, prefix@, col, i as nat),
        decreases n - i,
    {
        let node = &children[i];
        let last = i == n - 1;
        let ghost before = out@;
        proof {
            assert(decreases_to!(children => children@));
            assert(decreases_to!(children@ => children@[i as int]));
        }
        render_node(node, prefix, last, col, out);
        assert(out@ =~= old(out)@ + tree_lines(children@, prefix@, col, (i + 1) as nat));
        i += 1;
    }
}

/// The tree with box-drawing connectors.
pub fn render_tree(root: &TreeNode, args: &Args, tty: bool) -> (r: String)
    ensures
        r@ == render_tree_spec(*root, use_color_spec(args@, tty)),
{
    let col = use_color(args, tty);
    let mut out = c_dir_exec(slash_name(&root.name).as_str(), col);
    out.append("\n");
    render_children(&root.children, &String::new(), col, &mut out);
    out
}

// ───────────────────────────── AI ─────────────────────────────

/// The annotation of a directory, by its lowercased name.
pub open spec fn dir_annotation_spec(name: Seq<char>) -> Option<Seq<char>> {
    annotation_for(lowercase(name))
}

/// The annotation for an already lowercased directory name.
pub open spec fn annotation_for(l: Seq<char>) -> Option<Seq<char>> {
    if l == "components"@ {
        Some("ui-components"@)
    } else if l == "hooks"@ {
        Some("react-hooks"@)
    } else if l == "lib"@ || l == "libs"@ {
        Some("lib"@)
    } else if l == "utils"@ || l == "helpers"@ {
        Some("utils"@)
    } else if l == "api"@ {
        Some("api-routes"@)
    } else if l == "app"@ {
        Some("app-router"@)
    } else if l == "pages"@ {
        Some("pages-router"@)
    } else if l == "store"@ || l == "stores"@ {
        Some("state"@)
    } else if l == "context"@ {
        Some("context"@)
    } else if l == "types"@ || l == "typings"@ {
        Some("type-defs"@)
    } else if l == "styles"@ || l == "css"@ {
        Some("styles"@)
    } else if l == "public"@ {
        Some("static-assets"@)
    } else if l == "assets"@ {
        Some("assets"@)
    } else if l == "scripts"@ {
        Some("scripts"@)
    } else if l == "config"@ {
        Some("config"@)
    } else if l == "migrations"@ {
        Some("db-migrations"@)
    } else if l == "tests"@ || l == "__tests__"@ || l == "spec"@ {
        Some("tests"@)
    } else if l == "middleware"@ {
        Some("middleware"@)
    } else if l == "models"@ {
        Some("models"@)
    } else if l == "services"@ {
        Some("services"@)
    } else if l == "controllers"@ {
        Some("controllers"@)
    } else if l == "routes"@ {
        Some("routes"@)
    } else if l == "db"@ || l == "database"@ {
        Some("db"@)
    } else if l == "bin"@ {
        Some("binaries"@)
    } else if l == "src"@ {
        Some("source-root"@)
    } else {
        None
    }
}

/// The annotation of a directory, by its lowercased name.
pub fn dir_annotation(name: &str) -> (r: Option<&'static str>)
    ensures
        match r {
            Some(a) => dir_annotation_spec(name@) == Some(a@),
            None => dir_annotation_spec(name@) is None,
        },
{
    let l = lower_chars(&chars_of(name));
    annotation_for_lowered(&l)
}

/// The annotation for a directory name that is already lowercased.
pub fn annotation_for_lowered(l: &Vec<char>) -> (r: Option<&'static str>)
    ensures
        match r {
            Some(a) => annotation_for(l@) == Some(a@),
            None => annotation_for(l@) is None,
        },
{
    if is_text(l, "components") {
        Some("ui-components")
    } else if is_text(l, "hooks") {
        Some("react-hooks")
    } else if is_text(l, "lib") || is_text(l, "libs") {
        Some("lib")
    } else if is_text(l, "utils") || is_text(l, "helpers") {
        Some("utils")
    } else if is_text(l, "api") {
        Some("api-routes")
    } else if is_text(l, "app") {
        Some("app-router")
    } else if is_text(l, "pages") {
        Some("pages-router")
    } else if is_text(l, "store") || is_text(l, "stores") {
        Some("state")
    } else if is_text(l, "context") {
        Some("context")
    } else if is_text(l, "types") || is_text(l, "typings") {
        Some("type-defs")
    } else if is_text(l, "styles") || is_text(l, "css") {
        Some("styles")
    } else if is_text(l, "public") {
        Some("static-assets")
    } else if is_text(l, "assets") {
        Some("assets")
    } else if is_text(l, "scripts") {
        Some("scripts")
    } else if is_text(l, "config") {
        Some("config")
    } else if is_text(l, "migrations") {
        Some("db-migrations")
    } else if is_text(l, "tests") || is_text(l, "__tests__") || is_text(l, "spec") {
        Some("tests")
    } else if is_text(l, "middleware") {
        Some("middleware")
    } else if is_text(l, "models") {
        Some("models")
    } else if is_text(l, "services") {
        Some("services")
    } else if is_text(l, "controllers") {
        Some("controllers")
    } else if is_text(l, "routes") {
        Some("routes")
    } else if is_text(l, "db") || is_text(l, "database") {
        Some("db")
    } else if is_text(l, "bin") {
        Some("binaries")
    } else if is_text(l, "src") {
        Some("source-root")
    } else {
        None
    }
}

pub open spec fn ann_text(a: Option<Seq<char>>, col: bool) -> Seq<char> {
    match a {
        Some(x) => c_dim("  ["@ + x + "]"@, col),
        None => Seq::<char>::empty(),
    }
}

fn ann_exec(a: Option<&'static str>, col: bool) -> (r: String)
    ensures
        r@ == ann_text(
            match a {
                Some(x) => Some(x@),
                None => None,
            },
            col,
        ),
{
    match a {
        Some(x) => {
            let mut t = String::from_str("  [");
            t.append(x);
            t.append("]");
            c_dim_exec(t.as_str(), col)
        },
        None => String::new(),
    }
}

/// The bracketed annotation after a file's name.
#[verifier::opaque]
pub open spec fn file_ann_text(role: FileRole, col: bool) -> Seq<char> {
    ann_text(role_annotation(role), col)
}

/// The bracketed annotation after a directory's name.
#[verifier::opaque]
pub open spec fn dir_ann_text(name: Seq<char>, col: bool) -> Seq<char> {
    ann_text(dir_annotation_spec(name), col)
}

fn file_ann(role: &FileRole, col: bool) -> (r: String)
    ensures
        r@ == file_ann_text(*role, col),
{
    reveal(file_ann_text);
    ann_exec(role.annotation(), col)
}

fn dir_ann(name: &str, col: bool) -> (r: String)
    ensures
        r@ == dir_ann_text(name@, col),
{
    reveal(dir_ann_text);
    ann_exec(dir_annotation(name), col)
}

/// The part of a node's annotated line after its connector: name, annotation, newline.
pub open spec fn ai_head(n: TreeNode, col: bool) -> Seq<char> {
    match n.kind {
        NodeKind::File => c_file(n.name@, n.role, col) + file_ann_text(n.role, col) + "\n"@,
        NodeKind::Dir => c_dir(n.name@ + "/"@, col) + dir_ann_text(n.name@, col) + "\n"@,
        NodeKind::Collapsed { .. } => c_dim(n.name@, col) + "\n"@,
    }
}

/// The line of `n` with its annotation and, for a directory, the lines below it.
pub open spec fn ai_line(n: TreeNode, prefix: Seq<char>, last: bool, col: bool) -> Seq<char>
    decreases n, 0nat,
{
    prefix + connector(last) + ai_head(n, col) + (if n.kind is Dir && n.children@.len() > 0 {
        ai_lines(n.children@, next_prefix(prefix, last), col, n.children@.len())
    } else {
        Seq::<char>::empty()
    })
}

pub open spec fn ai_lines(cs: Seq<TreeNode>, prefix: Seq<char>, col: bool, k: nat) -> Seq<char>
    decreases cs, k,
{
    if k == 0 || k > cs.len() {
        Seq::<char>::empty()
    } else {
        ai_lines(cs, prefix, col, (k - 1) as nat) + ai_line(cs[k - 1], prefix, k - 1 == cs.len() - 1, col)
    }
}

fn ai_head_exec(node: &TreeNode, col: bool) -> (r: String)
    ensures
        r@ == ai_head(*node, col),
{
    let mut r;
    match &node.kind {
        NodeKind::File => {
            r = c_file_exec(node.name.as_str(), &node.role, col);
            let a = file_ann(&node.role, col);
            r.append(a.as_str());
        },
        NodeKind::Dir => {
            r = c_dir_exec(slash_name(&node.name).as_str(), col);
            let a = dir_ann(node.name.as_str(), col);
            r.append(a.as_str());
        },
        NodeKind::Collapsed { .. } => {
            r = c_dim_exec(node.name.as_str(), col);
        },
    }
    r.append("\n");
    r
}

fn render_ai_node(node: &TreeNode, prefix: &String, last: bool, col: bool, out: &mut String)
    ensures
        final(out)@ == old(out)@ + ai_line(*node, prefix@, last, col),
    decreases node, 0nat,
{
    out.append(prefix.as_str());
    out.append(connector_exec(last));
    let h = ai_head_exec(node, col);
    out.append(h.as_str());
    let ghost mid = out@;
    let is_dir = match &node.kind {
        NodeKind::Dir => true,
        _ => false,
    };
    if is_dir && node.children.len() > 0 {
        let np = next_prefix_exec(prefix, last);
        proof {
            assert(decreases_to!(node => node.children));
        }
        render_ai_children(&node.children, &np, col, out);
    } else {
        assert(out@ =~= mid + Seq::<char>::empty());
    }
}

fn render_ai_children(children: &Vec<TreeNode>, prefix: &String, col: bool, out: &mut String)
    ensures
        final(out)@ == old(out)@ + ai_lines(children@, prefix@, col, children@.len()),
    decreases children, children@.len() + 1,
{
    let n = children.len();
    let mut i: usize = 0;
    assert(old(out)@ + ai_lines(children@, prefix@, col, 0) =~= old(out)@);
    while i < n
        invariant
            n == children@.len(),
            i <= n,
            out@ == old(out)@ + ai_lines(children@, prefix@, col, i as nat),
        decreases n - i,
    {
        let node = &children[i];
        let last = i == n - 1;
        proof {
            assert(decreases_to!(children => children@));
            assert(decreases_to!(children@ => children@[i as int]));
        }
        render_ai_node(node, prefix, last, col, out);
        assert(out@ =~= old(out)@ + ai_lines(children@, prefix@, col, (i + 1) as nat));
        i += 1;
    }
}

// ───────────────────────────── token estimate ─────────────────────────────


/// The characters that the tree takes: each name's bytes and six more per node.
pub open spec fn tree_chars(n: TreeNode) -> nat
    decreases n, 1nat,
{
    utf8_len(n.name@) + 6 + chars_list(n.children@)
}

pub open spec fn chars_list(cs: Seq<TreeNode>) -> nat
    decreases cs, 0nat,
{
    if cs.len() == 0 {
        0
    } else {
        chars_list(cs.drop_last()) + tree_chars(cs.last())
    }
}

/// About 1.3 characters per token-quarter: `max(1, ⌊c·1.3⌋ / 4)`.
pub open spec fn token_estimate(c: nat) -> nat {
    let t = (c * 13 / 10) / 4;
    if t >= 1 {
        t
    } else {
        1
    }
}

proof fn lemma_chars_list_prefix(cs: Seq<TreeNode>, i: int)
    requires
        0 <= i <= cs.len(),
    ensures
        chars_list(cs.take(i)) <= chars_list(cs),
    decreases cs.len() - i,
{
    if i < cs.len() {
        lemma_chars_list_prefix(cs, i + 1);
        assert(cs.take(i + 1).drop_last() =~= cs.take(i));
    } else {
        assert(cs.take(i) =~= cs);
    }
}

fn count_chars(n: &TreeNode) -> (r: usize)
    requires
        tree_chars(*n) <= usize::MAX,
    ensures
        r == tree_chars(*n),
    decreases n,
{
    let mut total: usize = n.name.as_str().len() + 6;
    let mut i: usize = 0;
    assert(n.children@.take(0) =~= Seq::<TreeNode>::empty());
    while i < n.children.len()
        invariant
            i <= n.children@.len(),
            tree_chars(*n) <= usize::MAX,
            total == utf8_len(n.name@) + 6 + chars_list(n.children@.take(i as int)),
        decreases n.children@.len() - i,
    {
        let c = &n.children[i];
        proof {
            assert(decreases_to!(n => n.children));
            lemma_chars_list_prefix(n.children@, i + 1);
            assert(n.children@.take(i + 1).drop_last() =~= n.children@.take(i as int));
            assert(n.children@.take(i + 1).last() == *c);
        }
        let k = count_chars(c);
        total = total + k;
        i += 1;
    }
    assert(n.children@.take(n.children@.len() as int) =~= n.children@);
    total
}

/// The characters that the tree takes, or `None` where they do not fit in a `usize`.
pub fn checked_tree_chars(n: &TreeNode) -> (r: Option<usize>)
    ensures
        match r {
            Some(c) => c == tree_chars(*n),
            None => tree_chars(*n) > usize::MAX,
        },
    decreases n,
{
    let own = match checked_utf8_len(&chars_of(n.name.as_str())) {
        Some(b) => b.checked_add(6),
        None => None,
    };
    let mut total: usize = match own {
        Some(t) => t,
        None => {
            return None;
        },
    };
    let mut i: usize = 0;
    assert(n.children@.take(0) =~= Seq::<TreeNode>::empty());
    while i < n.children.len()
        invariant
            i <= n.children@.len(),
            total == utf8_len(n.name@) + 6 + chars_list(n.children@.take(i as int)),
        decreases n.children@.len() - i,
    {
        proof {
            assert(decreases_to!(n => n.children));
            assert(n.children@.take(i + 1).drop_last() =~= n.children@.take(i as int));
            assert(n.children@.take(i + 1).last() == n.children@[i as int]);
            lemma_chars_list_prefix(n.children@, i + 1);
        }
        match checked_tree_chars(&n.children[i]) {
            Some(c) => match total.checked_add(c) {
                Some(t) => {
                    total = t;
                },
                None => {
                    return None;
                },
            },
            None => {
                return None;
            },
        }
        i += 1;
    }
    assert(n.children@.take(n.children@.len() as int) =~= n.children@);
    Some(total)
}

/// The estimated token cost of the tree.
pub fn estimate_tokens(root: &TreeNode) -> (r: usize)
    requires
        tree_chars(*root) <= usize::MAX,
    ensures
        r == token_estimate(tree_chars(*root)),
{
    let c = count_chars(root) as u128;
    let t = (c * 13 / 10) / 4;
    if t >= 1 {
        t as usize
    } else {
        1
    }
}

// ───────────────────────────── AI view ─────────────────────────────

pub open spec fn ai_tag(fw: Framework, files: nat, tokens: nat) -> Seq<char> {
    "<project_structure lang=\""@ + framework_lang(fw) + "\" framework=\""@ + framework_name(fw)
        + "\" files=\""@ + decimal(files) + "\" est_tokens=\""@ + decimal(tokens) + "\">"@
}

pub open spec fn render_ai_spec(root: TreeNode, fw: Framework, col: bool) -> Seq<char> {
    let files = stats_spec(root).files;
    let tokens = token_estimate(tree_chars(root));
    c_ai(ai_tag(fw, files, tokens), col) + "\n"@ + c_dir(root.name@ + "/"@, col) + "\n"@ + ai_lines(
        root.children@,
        Seq::<char>::empty(),
        col,
        root.children@.len(),
    ) + c_ai("</project_structure>"@, col) + "\n"@ + "\n"@ + c_dim(
        "tokens: ~"@ + decimal(tokens) + "  ·  files: "@ + decimal(files)
            + "  ·  ignored: node_modules .git dist build"@,
        col,
    ) + "\n"@
}

fn append_decimal(out: &mut String, n: usize)
    ensures
        final(out)@ == old(out)@ + decimal(n as nat),
{
    let d = string_of(&decimal_chars(n));
    out.append(d.as_str());
}

/// The tree wrapped in `<project_structure>` with annotations and a token estimate.
pub fn render_ai(root: &TreeNode, framework: &Framework, args: &Args, tty: bool) -> (r: String)
    requires
        weight(*root) <= usize::MAX,
        tree_chars(*root) <= usize::MAX,
    ensures
        r@ == render_ai_spec(*root, *framework, use_color_spec(args@, tty)),
{
    let col = use_color(args, tty);
    let stats = TreeStats::from_node(root);
    let tokens = estimate_tokens(root);
    let mut tag = String::from_str("<project_structure lang=\"");
    tag.append(framework.lang());
    tag.append("\" framework=\"");
    tag.append(framework.name());
    tag.append("\" files=\"");
    append_decimal(&mut tag, stats.total_files);
    tag.append("\" est_tokens=\"");
    append_decimal(&mut tag, tokens);
    tag.append("\">");
    let mut out = c_ai_exec(tag.as_str(), col);
    out.append("\n");
    let d = c_dir_exec(slash_name(&root.name).as_str(), col);
    out.append(d.as_str());
    out.append("\n");
    render_ai_children(&root.children, &String::new(), col, &mut out);
    let close = c_ai_exec("</project_structure>", col);
    out.append(close.as_str());
    out.append("\n");
    out.append("\n");
    let mut foot = String::from_str("tokens: ~");
    append_decimal(&mut foot, tokens);
    foot.append("  ·  files: ");
    append_decimal(&mut foot, stats.total_files);
    foot.append("  ·  ignored: node_modules .git dist build");
    let f = c_dim_exec(foot.as_str(), col);
    out.append(f.as_str());
    out.append("\n");
    out
}

// ───────────────────────────── flat ─────────────────────────────

pub open spec fn sum_utf8(ps: Seq<Seq<char>>) -> nat
    decreases ps.len(),
{
    if ps.len() == 0 {
        0
    } else {
        sum_utf8(ps.drop_last()) + utf8_len(ps.last())
    }
}

/// Each path on a line of its own.
pub open spec fn path_lines(ps: Seq<Seq<char>>) -> Seq<char>
    decreases ps.len(),
{
    if ps.len() == 0 {
        Seq::<char>::empty()
    } else {
        path_lines(ps.drop_last()) + ps.last() + "\n"@
    }
}

/// About four bytes per token, and two tokens per path for the separators.
pub open spec fn flat_tokens(ps: Seq<Seq<char>>) -> nat {
    sum_utf8(ps) / 4 + ps.len() * 2
}

pub open spec fn render_flat_spec(root: TreeNode, base: Seq<char>, col: bool) -> Seq<char> {
    let ps = flat_node(root, base);
    c_dim("# directree --flat  ("@ + decimal(ps.len()) + " paths)\n"@, col) + path_lines(ps) + "\n"@
        + c_dim(decimal(ps.len()) + " paths  ·  ~"@ + decimal(flat_tokens(ps)) + " tokens"@, col)
        + "\n"@
}

proof fn lemma_sum_utf8_prefix(ps: Seq<Seq<char>>, i: int)
    requires
        0 <= i <= ps.len(),
    ensures
        sum_utf8(ps.take(i)) <= sum_utf8(ps),
    decreases ps.len() - i,
{
    if i < ps.len() {
        lemma_sum_utf8_prefix(ps, i + 1);
        assert(ps.take(i + 1).drop_last() =~= ps.take(i));
    } else {
        assert(ps.take(i) =~= ps);
    }
}

/// The bytes of the flat paths plus two per path, or `None` where that does not fit
/// in a `usize`.
pub fn checked_flat_cost(root: &TreeNode, base: &str) -> (r: Option<usize>)
    ensures
        match r {
            Some(c) => c == sum_utf8(flat_node(*root, base@)) + 2 * flat_node(*root, base@).len(),
            None => sum_utf8(flat_node(*root, base@)) + 2 * flat_node(*root, base@).len() > usize::MAX,
        },
{
    let paths = root.flat_paths(base);
    let ghost ps = flat_node(*root, base@);
    let mut total: usize = 0;
    let mut i: usize = 0;
    assert(ps.take(0) =~= Seq::<Seq<char>>::empty());
    while i < paths.len()
        invariant
            ps == paths@.map_values(|s: String| s@),
            ps == flat_node(*root, base@),
            i <= paths.len(),
            total == sum_utf8(ps.take(i as int)) + 2 * i,
        decreases paths.len() - i,
    {
        assert(ps.take(i + 1).drop_last() =~= ps.take(i as int));
        assert(ps.take(i + 1).last() == paths@[i as int]@);
        proof {
            lemma_sum_utf8_prefix(ps, i + 1);
            lemma_sum_utf8_prefix_len(ps, i + 1);
        }
        let step = match checked_utf8_len(&chars_of(paths[i].as_str())) {
            Some(b) => b.checked_add(2),
            None => None,
        };
        match step {
            Some(b) => match total.checked_add(b) {
                Some(t) => {
                    total = t;
                },
                None => {
                    return None;
                },
            },
            None => {
                return None;
            },
        }
        i += 1;
    }
    assert(ps.take(paths.len() as int) =~= ps);
    Some(total)
}

proof fn lemma_sum_utf8_prefix_len(ps: Seq<Seq<char>>, i: int)
    requires
        0 <= i <= ps.len(),
    ensures
        sum_utf8(ps.take(i)) + 2 * i <= sum_utf8(ps) + 2 * ps.len(),
{
    lemma_sum_utf8_prefix(ps, i);
}

/// The relative paths of the files, one per line, with a count and a token estimate.
pub fn render_flat(root: &TreeNode, base: &str, args: &Args, tty: bool) -> (r: String)
    requires
        sum_utf8(flat_node(*root, base@)) + 2 * flat_node(*root, base@).len() <= usize::MAX,
    ensures
        r@ == render_flat_spec(*root, base@, use_color_spec(args@, tty)),
{
    let col = use_color(args, tty);
    let paths = root.flat_paths(base);
    let ghost ps = flat_node(*root, base@);
    let n = paths.len();
    let mut head = String::from_str("# directree --flat  (");
    append_decimal(&mut head, n);
    head.append(" paths)\n");
    let mut out = c_dim_exec(head.as_str(), col);
    let ghost start = out@;
    let mut bytes: usize = 0;
    let mut i: usize = 0;
    assert(ps.take(0) =~= Seq::<Seq<char>>::empty());
    assert(out@ =~= start + path_lines(ps.take(0)));
    while i < n
        invariant
            n == paths@.len(),
            ps == paths@.map_values(|s: String| s@),
            sum_utf8(ps) + 2 * ps.len() <= usize::MAX,
            i <= n,
            out@ == start + path_lines(ps.take(i as int)),
            bytes == sum_utf8(ps.take(i as int)),
        decreases n - i,
    {
        assert(ps.take(i + 1).drop_last() =~= ps.take(i as int));
        assert(ps.take(i + 1).last() == paths@[i as int]@);
        proof {
            lemma_sum_utf8_prefix(ps, i + 1);
        }
        out.append(paths[i].as_str());
        out.append("\n");
        bytes = bytes + paths[i].as_str().len();
        i += 1;
    }
    assert(ps.take(n as int) =~= ps);
    let tok = bytes / 4 + n * 2;
    out.append("\n");
    let mut foot = String::new();
    append_decimal(&mut foot, n);
    foot.append(" paths  ·  ~");
    append_decimal(&mut foot, tok);
    foot.append(" tokens");
    let f = c_dim_exec(foot.as_str(), col);
    out.append(f.as_str());
    out.append("\n");
    out
}

// ───────────────────────────── group ─────────────────────────────

/// The files under `n` with their paths relative to `base` and their roles, in tree order.
pub open spec fn file_entries(n: TreeNode, base: Seq<char>) -> Seq<(Seq<char>, FileRole)>
    decreases n, 1nat,
{
    match n.kind {
        NodeKind::File => match rel_path(n.path@, base) {
            Some(r) => seq![(r, n.role)],
            None => Seq::<(Seq<char>, FileRole)>::empty(),
        },
        NodeKind::Dir => file_entries_list(n.children@, base),
        NodeKind::Collapsed { .. } => Seq::<(Seq<char>, FileRole)>::empty(),
    }
}

pub open spec fn file_entries_list(cs: Seq<TreeNode>, base: Seq<char>) -> Seq<(Seq<char>, FileRole)>
    decreases cs, 0nat,
{
    if cs.len() == 0 {
        Seq::<(Seq<char>, FileRole)>::empty()
    } else {
        file_entries_list(cs.drop_last(), base) + file_entries(cs.last(), base)
    }
}

/// The entries of one category, in order.
pub open spec fn in_category(es: Seq<(Seq<char>, FileRole)>, c: FileCategory) -> Seq<(Seq<char>, FileRole)>
    decreases es.len(),
{
    if es.len() == 0 {
        es
    } else {
        let rest = in_category(es.drop_last(), c);
        if role_category(es.last().1) == c {
            rest.push(es.last())
        } else {
            rest
        }
    }
}

pub open spec fn repeat_text(s: Seq<char>, n: nat) -> Seq<char>
    decreases n,
{
    if n == 0 {
        Seq::<char>::empty()
    } else {
        repeat_text(s, (n - 1) as nat) + s
    }
}

/// The header of a group: its label, filled with `─` to 44 bytes.
pub open spec fn group_header(c: FileCategory) -> Seq<char> {
    let h = "── "@ + category_label(c) + " "@;
    let pad: nat = if utf8_len(h) < 44 {
        (44 - utf8_len(h)) as nat
    } else {
        0
    };
    h + repeat_text("─"@, pad) + "\n"@
}

pub open spec fn group_color(c: FileCategory, s: Seq<char>, col: bool) -> Seq<char> {
    if !col {
        s
    } else {
        match c {
            FileCategory::Config => yellow(s),
            FileCategory::Test => magenta(s),
            FileCategory::Asset => cyan(s),
            _ => bright_white(s),
        }
    }
}

pub open spec fn group_lines(items: Seq<(Seq<char>, FileRole)>, c: FileCategory, col: bool) -> Seq<char>
    decreases items.len(),
{
    if items.len() == 0 {
        Seq::<char>::empty()
    } else {
        let (p, role) = items.last();
        group_lines(items.drop_last(), c, col) + group_color(c, p, col) + file_ann_text(role, col)
            + "\n"@
    }
}

pub open spec fn group_section(es: Seq<(Seq<char>, FileRole)>, c: FileCategory, col: bool) -> Seq<char> {
    let items = in_category(es, c);
    if items.len() == 0 {
        Seq::<char>::empty()
    } else {
        c_dim(group_header(c), col) + group_lines(items, c, col) + "\n"@
    }
}

pub open spec fn render_group_spec(root: TreeNode, base: Seq<char>, col: bool) -> Seq<char> {
    let es = file_entries(root, base);
    group_section(es, FileCategory::Source, col) + group_section(es, FileCategory::Config, col)
        + group_section(es, FileCategory::Test, col) + group_section(es, FileCategory::Asset, col)
        + group_section(es, FileCategory::Docs, col)
}

fn collect_by_cat(node: &TreeNode, base: &Vec<char>, out: &mut Vec<(String, FileRole)>)
    ensures
        final(out)@.map_values(|e: (String, FileRole)| (e.0@, e.1)) == old(out)@.map_values(
            |e: (String, FileRole)| (e.0@, e.1),
        ) + file_entries(*node, base@),
    decreases node,
{
    let ghost pre = old(out)@.map_values(|e: (String, FileRole)| (e.0@, e.1));
    match &node.kind {
        NodeKind::File => {
            let p = chars_of(node.path.as_str());
            match rel_path_exec(&p, base) {
                Some(r) => {
                    out.push((string_of(&r), node.role));
                    assert(out@.map_values(|e: (String, FileRole)| (e.0@, e.1)) =~= pre + seq![
                        (r@, node.role),
                    ]);
                },
                None => {
                    assert(pre + Seq::<(Seq<char>, FileRole)>::empty() =~= pre);
                },
            }
        },
        NodeKind::Dir => {
            let mut i: usize = 0;
            assert(node.children@.take(0) =~= Seq::<TreeNode>::empty());
            assert(pre + file_entries_list(node.children@.take(0), base@) =~= pre);
            while i < node.children.len()
                invariant
                    i <= node.children@.len(),
                    pre == old(out)@.map_values(|e: (String, FileRole)| (e.0@, e.1)),
                    out@.map_values(|e: (String, FileRole)| (e.0@, e.1)) == pre
                        + file_entries_list(node.children@.take(i as int), base@),
                decreases node.children@.len() - i,
            {
                proof {
                    assert(decreases_to!(node => node.children));
                    assert(node.children@.take(i + 1).drop_last() =~= node.children@.take(i as int));
                }
                collect_by_cat(&node.children[i], base, out);
                i += 1;
            }
            assert(node.children@.take(node.children@.len() as int) =~= node.children@);
        },
        _ => {
            assert(pre + Seq::<(Seq<char>, FileRole)>::empty() =~= pre);
        },
    }
}

fn repeat_exec(s: &str, n: usize) -> (r: String)
    ensures
        r@ == repeat_text(s@, n as nat),
{
    let mut r = String::new();
    let mut i: usize = 0;
    while i < n
        invariant
            i <= n,
            r@ == repeat_text(s@, i as nat),
        decreases n - i,
    {
        r.append(s);
        i += 1;
    }
    r
}

fn group_header_exec(c: FileCategory) -> (r: String)
    ensures
        r@ == group_header(c),
{
    let mut h = String::from_str("── ");
    h.append(c.label());
    h.append(" ");
    proof {
        reveal_strlit("── ");
        reveal_strlit(" ");
        reveal_strlit("source");
        reveal_strlit("config");
        reveal_strlit("tests");
        reveal_strlit("assets");
        reveal_strlit("docs");
        lemma_utf8_len_bound(h@);
    }
    let len = h.as_str().len();
    let pad = if len < 44 {
        44 - len
    } else {
        0
    };
    let p = repeat_exec("─", pad);
    h.append(p.as_str());
    h.append("\n");
    h
}

fn group_color_exec(c: FileCategory, s: &str, col: bool) -> (r: String)
    ensures
        r@ == group_color(c, s@, col),
{
    if !col {
        return s.to_owned();
    }
    match c {
        FileCategory::Config => Color::yellow(s),
        FileCategory::Test => Color::magenta(s),
        FileCategory::Asset => Color::cyan(s),
        _ => Color::bright_white(s),
    }
}

fn group_section_exec(es: &Vec<(String, FileRole)>, c: FileCategory, col: bool, out: &mut String)
    ensures
        final(out)@ == old(out)@ + group_section(
            es@.map_values(|e: (String, FileRole)| (e.0@, e.1)),
            c,
            col,
        ),
{
    let ghost ev = es@.map_values(|e: (String, FileRole)| (e.0@, e.1));
    let mut lines = String::new();
    let mut count: usize = 0;
    let mut i: usize = 0;
    assert(ev.take(0) =~= Seq::<(Seq<char>, FileRole)>::empty());
    while i < es.len()
        invariant
            ev == es@.map_values(|e: (String, FileRole)| (e.0@, e.1)),
            i <= es.len(),
            count == in_category(ev.take(i as int), c).len(),
            count <= i,
            lines@ == group_lines(in_category(ev.take(i as int), c), c, col),
        decreases es.len() - i,
    {
        assert(ev.take(i + 1).drop_last() =~= ev.take(i as int));
        assert(ev.take(i + 1).last() == (es@[i as int].0@, es@[i as int].1));
        let (p, role) = &es[i];
        if role.category() == c {
            let g = group_color_exec(c, p.as_str(), col);
            lines.append(g.as_str());
            let a = file_ann(role, col);
            lines.append(a.as_str());
            lines.append("\n");
            let ghost items = in_category(ev.take(i + 1), c);
            assert(items.drop_last() =~= in_category(ev.take(i as int), c));
            count = count + 1;
        }
        i += 1;
    }
    assert(ev.take(es.len() as int) =~= ev);
    if count > 0 {
        let h = c_dim_exec(group_header_exec(c).as_str(), col);
        out.append(h.as_str());
        out.append(lines.as_str());
        out.append("\n");
    } else {
        assert(old(out)@ + Seq::<char>::empty() =~= old(out)@);
    }
}

/// The files grouped by category: source, config, tests, assets, docs.
pub fn render_group(root: &TreeNode, base: &str, args: &Args, tty: bool) -> (r: String)
    ensures
        r@ == render_group_spec(*root, base@, use_color_spec(args@, tty)),
{
    let col = use_color(args, tty);
    let mut es: Vec<(String, FileRole)> = Vec::new();
    collect_by_cat(root, &chars_of(base), &mut es);
    assert(es@.map_values(|e: (String, FileRole)| (e.0@, e.1)) =~= file_entries(*root, base@));
    let mut out = String::new();
    group_section_exec(&es, FileCategory::Source, col, &mut out);
    group_section_exec(&es, FileCategory::Config, col, &mut out);
    group_section_exec(&es, FileCategory::Test, col, &mut out);
    group_section_exec(&es, FileCategory::Asset, col, &mut out);
    group_section_exec(&es, FileCategory::Docs, col, &mut out);
    out
}


// ───────────────────────────── stats ─────────────────────────────

/// The index before which `x` goes in a table ordered by count, highest first:
/// after every entry whose count is at least `c`.
pub open spec fn first_below(t: Seq<(Seq<char>, nat)>, c: nat) -> nat
    decreases t.len(),
{
    if t.len() == 0 {
        0
    } else if t[0].1 < c {
        0
    } else {
        1 + first_below(t.drop_first(), c)
    }
}

pub open spec fn insert_by_count(t: Seq<(Seq<char>, nat)>, x: (Seq<char>, nat)) -> Seq<(Seq<char>, nat)> {
    let k = first_below(t, x.1) as int;
    t.take(k) + seq![x] + t.skip(k)
}

/// The table ordered by count, highest first; entries with equal counts keep their order.
pub open spec fn by_count(t: Seq<(Seq<char>, nat)>) -> Seq<(Seq<char>, nat)>
    decreases t.len(),
{
    if t.len() == 0 {
        t
    } else {
        insert_by_count(by_count(t.drop_last()), t.last())
    }
}

pub open spec fn ext_entry(e: (Seq<char>, nat)) -> Seq<char> {
    "."@ + e.0 + " ("@ + decimal(e.1) + ")"@
}

/// The eight most frequent extensions, as `.ext (n)` joined by two spaces.
pub open spec fn top_exts(t: Seq<(Seq<char>, nat)>) -> Seq<char> {
    let s = by_count(t);
    let top = if s.len() <= 8 {
        s
    } else {
        s.take(8)
    };
    join(top.map_values(|e: (Seq<char>, nat)| ext_entry(e)), "  "@)
}

pub open spec fn stats_rule_top() -> Seq<char> {
    "── stats ─────────────────────────────────────\n"@
}

pub open spec fn stats_rule_bottom() -> Seq<char> {
    "──────────────────────────────────────────────\n"@
}

/// The line with the file, directory, source and test counts.
pub open spec fn counts_line(st: StatsModel, col: bool) -> Seq<char> {
    "  "@ + c_dim("files"@, col) + " "@ + c_green(decimal(st.files), col) + "   "@ + c_dim(
        "dirs"@,
        col,
    ) + " "@ + c_green(decimal(st.dirs), col) + "   "@ + c_dim("src"@, col) + " "@ + c_green(
        decimal(st.source),
        col,
    ) + "   "@ + c_dim("tests"@, col) + " "@ + c_green(decimal(st.test), col) + "\n"@
}

/// The line with the most frequent extensions, absent when no file has one.
pub open spec fn exts_line(t: Seq<(Seq<char>, nat)>, col: bool) -> Seq<char> {
    if t.len() > 0 {
        "  "@ + c_dim("exts:"@, col) + " "@ + c_dim(top_exts(t), col) + "\n"@
    } else {
        Seq::<char>::empty()
    }
}

pub open spec fn tokens_line(tokens: nat, col: bool) -> Seq<char> {
    "  "@ + c_dim("est. tokens:"@, col) + " "@ + c_green("~"@ + decimal(tokens), col) + "\n"@
}

pub open spec fn render_stats_spec(root: TreeNode, col: bool) -> Seq<char> {
    let st = stats_spec(root);
    "\n"@ + c_dim(stats_rule_top(), col) + counts_line(st, col) + exts_line(st.by_ext, col)
        + tokens_line(token_estimate(tree_chars(root)), col) + c_dim(stats_rule_bottom(), col)
}

pub open spec fn table_view(v: Seq<(String, usize)>) -> Seq<(Seq<char>, nat)> {
    v.map_values(|e: (String, usize)| (e.0@, e.1 as nat))
}

proof fn lemma_first_below(t: Seq<(Seq<char>, nat)>, c: nat, k: int)
    requires
        0 <= k <= t.len(),
        forall|j: int| 0 <= j < k ==> t[j].1 >= c,
        k == t.len() || t[k].1 < c,
    ensures
        first_below(t, c) == k,
    decreases k,
{
    if k > 0 {
        lemma_first_below(t.drop_first(), c, k - 1);
    }
}

/// Counts never grow along the table.
pub open spec fn counts_descending(t: Seq<(Seq<char>, nat)>) -> bool {
    forall|i: int, j: int| 0 <= i < j < t.len() ==> t[i].1 >= t[j].1
}

proof fn lemma_first_below_bounds(t: Seq<(Seq<char>, nat)>, c: nat)
    ensures
        first_below(t, c) <= t.len(),
        forall|j: int| 0 <= j < first_below(t, c) ==> #[trigger] t[j].1 >= c,
        first_below(t, c) < t.len() ==> t[first_below(t, c) as int].1 < c,
    decreases t.len(),
{
    if t.len() > 0 && t[0].1 >= c {
        lemma_first_below_bounds(t.drop_first(), c);
        assert forall|j: int| 0 <= j < first_below(t, c) implies #[trigger] t[j].1 >= c by {
            if j > 0 {
                assert(t[j] == t.drop_first()[j - 1]);
            }
        }
    }
}

proof fn lemma_insert_by_count_sorted(t: Seq<(Seq<char>, nat)>, x: (Seq<char>, nat))
    requires
        counts_descending(t),
    ensures
        counts_descending(insert_by_count(t, x)),
{
    lemma_first_below_bounds(t, x.1);
    let k = first_below(t, x.1) as int;
    let r = insert_by_count(t, x);
    assert(r.len() == t.len() + 1);
    assert forall|j: int| 0 <= j < r.len() implies #[trigger] r[j] == (if j < k {
        t[j]
    } else if j == k {
        x
    } else {
        t[j - 1]
    }) by {}
    assert forall|i: int, j: int| 0 <= i < j < r.len() implies r[i].1 >= r[j].1 by {
        if j > k && i < k {
            assert(t[i].1 >= t[j - 1].1);
        } else if j > k && i == k {
            assert(t[k].1 >= t[j - 1].1);
        } else if j > k {
            assert(t[i - 1].1 >= t[j - 1].1);
        }
    }
}

/// The most frequent extensions come first: ordering by count leaves no count above
/// an earlier one.
pub proof fn law_by_count_descending(t: Seq<(Seq<char>, nat)>)
    ensures
        counts_descending(by_count(t)),
    decreases t.len(),
{
    if t.len() > 0 {
        law_by_count_descending(t.drop_last());
        lemma_insert_by_count_sorted(by_count(t.drop_last()), t.last());
    }
}

/// Every estimate is at least one token.
pub proof fn law_token_estimate_positive(c: nat)
    ensures
        token_estimate(c) >= 1,
{
}

/// Orders an extension table by count, highest first, keeping the order of ties.
pub fn sort_by_count(t: &Vec<(String, usize)>) -> (r: Vec<(String, usize)>)
    ensures
        table_view(r@) == by_count(table_view(t@)),
{
    let ghost tv = table_view(t@);
    let mut r: Vec<(String, usize)> = Vec::new();
    let mut i: usize = 0;
    assert(tv.take(0) =~= Seq::<(Seq<char>, nat)>::empty());
    while i < t.len()
        invariant
            tv == table_view(t@),
            i <= t.len(),
            table_view(r@) == by_count(tv.take(i as int)),
        decreases t.len() - i,
    {
        let c = t[i].1;
        let ghost rv = table_view(r@);
        let mut k: usize = 0;
        while k < r.len() && r[k].1 >= c
            invariant
                rv == table_view(r@),
                k <= r.len(),
                forall|j: int| 0 <= j < k ==> rv[j].1 >= c,
            decreases r.len() - k,
        {
            k += 1;
        }
        proof {
            lemma_first_below(rv, c as nat, k as int);
            assert(tv.take(i + 1).drop_last() =~= tv.take(i as int));
            assert(tv.take(i + 1).last() == (t@[i as int].0@, c as nat));
        }
        let name = t[i].0.clone();
        r.insert(k, (name, c));
        assert(table_view(r@) =~= insert_by_count(rv, (t@[i as int].0@, c as nat)));
        i += 1;
    }
    assert(tv.take(t.len() as int) =~= tv);
    r
}

fn ext_entry_exec(e: &(String, usize)) -> (r: String)
    ensures
        r@ == ext_entry((e.0@, e.1 as nat)),
{
    let mut r = String::from_str(".");
    r.append(e.0.as_str());
    r.append(" (");
    append_decimal(&mut r, e.1);
    r.append(")");
    r
}

fn top_exts_exec(t: &Vec<(String, usize)>) -> (r: String)
    ensures
        r@ == top_exts(table_view(t@)),
{
    let s = sort_by_count(t);
    let ghost sv = table_view(s@);
    let ghost top = if sv.len() <= 8 {
        sv
    } else {
        sv.take(8)
    };
    let ghost parts = top.map_values(|e: (Seq<char>, nat)| ext_entry(e));
    let m: usize = if s.len() <= 8 {
        s.len()
    } else {
        8
    };
    let mut r = String::new();
    let mut i: usize = 0;
    assert(parts.take(0) =~= Seq::<Seq<char>>::empty());
    while i < m
        invariant
            sv == table_view(s@),
            m == top.len(),
            m <= s@.len(),
            top == (if sv.len() <= 8 {
                sv
            } else {
                sv.take(8)
            }),
            parts == top.map_values(|e: (Seq<char>, nat)| ext_entry(e)),
            i <= m,
            r@ == join(parts.take(i as int), "  "@),
        decreases m - i,
    {
        if i > 0 {
            r.append("  ");
        }
        let e = ext_entry_exec(&s[i]);
        r.append(e.as_str());
        proof {
            let p = parts.take(i + 1);
            assert(p.drop_last() =~= parts.take(i as int));
            assert(p.last() == e@);
            if i == 0 {
                assert(parts.take(i as int) =~= Seq::<Seq<char>>::empty());
                assert(r@ =~= p[0]);
            }
        }
        i += 1;
    }
    assert(parts.take(m as int) =~= parts);
    r
}

fn green_count(n: usize, col: bool) -> (r: String)
    ensures
        r@ == c_green(decimal(n as nat), col),
{
    c_green_exec(string_of(&decimal_chars(n)).as_str(), col)
}

fn counts_line_exec(stats: &TreeStats, col: bool) -> (r: String)
    ensures
        r@ == counts_line(stats@, col),
{
    let mut out = String::from_str("  ");
    out.append(c_dim_exec("files", col).as_str());
    out.append(" ");
    out.append(green_count(stats.total_files, col).as_str());
    out.append("   ");
    out.append(c_dim_exec("dirs", col).as_str());
    out.append(" ");
    out.append(green_count(stats.total_dirs, col).as_str());
    out.append("   ");
    out.append(c_dim_exec("src", col).as_str());
    out.append(" ");
    out.append(green_count(stats.source_files, col).as_str());
    out.append("   ");
    out.append(c_dim_exec("tests", col).as_str());
    out.append(" ");
    out.append(green_count(stats.test_files, col).as_str());
    out.append("\n");
    out
}

fn exts_line_exec(stats: &TreeStats, col: bool) -> (r: String)
    ensures
        r@ == exts_line(stats@.by_ext, col),
{
    if stats.by_ext.len() > 0 {
        let mut out = String::from_str("  ");
        out.append(c_dim_exec("exts:", col).as_str());
        out.append(" ");
        let joined = top_exts_exec(&stats.by_ext);
        out.append(c_dim_exec(joined.as_str(), col).as_str());
        out.append("\n");
        out
    } else {
        String::new()
    }
}

fn tokens_line_exec(tokens: usize, col: bool) -> (r: String)
    ensures
        r@ == tokens_line(tokens as nat, col),
{
    let mut out = String::from_str("  ");
    out.append(c_dim_exec("est. tokens:", col).as_str());
    out.append(" ");
    let mut tk = String::from_str("~");
    append_decimal(&mut tk, tokens);
    out.append(c_green_exec(tk.as_str(), col).as_str());
    out.append("\n");
    out
}

/// The statistics block: counts, the most frequent extensions and the token estimate.
pub fn render_stats(root: &TreeNode, args: &Args, tty: bool) -> (r: String)
    requires
        weight(*root) <= usize::MAX,
        tree_chars(*root) <= usize::MAX,
    ensures
        r@ == render_stats_spec(*root, use_color_spec(args@, tty)),
{
    let col = use_color(args, tty);
    let stats = TreeStats::from_node(root);
    let tokens = estimate_tokens(root);
    let mut out = String::from_str("\n");
    out.append(c_dim_exec("── stats ─────────────────────────────────────\n", col).as_str());
    out.append(counts_line_exec(&stats, col).as_str());
    out.append(exts_line_exec(&stats, col).as_str());
    out.append(tokens_line_exec(tokens, col).as_str());
    out.append(c_dim_exec("──────────────────────────────────────────────\n", col).as_str());
    out
}

/// The AI view opens with the `<project_structure>` tag and ends with the footer,
/// both giving the number of files under the root (file nodes and the entries of
/// collapsed runs) and the token estimate of the tree.
pub proof fn law_ai_view_counts_the_files(root: TreeNode, fw: Framework, col: bool)
    ensures
        has_prefix(
            render_ai_spec(root, fw, col),
            c_ai(ai_tag(fw, files_below(root), token_estimate(tree_chars(root))), col),
        ),
        has_suffix(
            render_ai_spec(root, fw, col),
            c_dim(
                "tokens: ~"@ + decimal(token_estimate(tree_chars(root))) + "  ·  files: "@ + decimal(
                    files_below(root),
                ) + "  ·  ignored: node_modules .git dist build"@,
                col,
            ) + "\n"@,
        ),
{
    law_stats_count_the_files(root);
    let r = render_ai_spec(root, fw, col);
    let tokens = token_estimate(tree_chars(root));
    let head = c_ai(ai_tag(fw, files_below(root), tokens), col);
    let tail = c_dim(
        "tokens: ~"@ + decimal(tokens) + "  ·  files: "@ + decimal(files_below(root))
            + "  ·  ignored: node_modules .git dist build"@,
        col,
    ) + "\n"@;
    let mid = "\n"@ + c_dir(root.name@ + "/"@, col) + "\n"@ + ai_lines(
        root.children@,
        Seq::<char>::empty(),
        col,
        root.children@.len(),
    ) + c_ai("</project_structure>"@, col) + "\n"@ + "\n"@;
    assert(r =~= head + mid + tail);
    assert((head + mid + tail).subrange(0, head.len() as int) =~= head);
    assert((head + mid + tail).subrange((head + mid + tail).len() - tail.len(), (head + mid
        + tail).len() as int) =~= tail);
}
/// The annotation that each directory name (already lowercased) carries, the first
/// that matches winning; other names carry none.
pub proof fn law_directory_annotations(l: Seq<char>)
    ensures
        (l == "components"@) ==> annotation_for(l) == Some("ui-components"@),
        !(l == "components"@) && (l == "hooks"@) ==> annotation_for(l) == Some("react-hooks"@),
        !(l == "components"@) && !(l == "hooks"@) && (l == "lib"@ || l == "libs"@) ==> annotation_for(l) == Some("lib"@),
        !(l == "components"@) && !(l == "hooks"@) && !(l == "lib"@ || l == "libs"@) && (l == "utils"@ || l == "helpers"@) ==> annotation_for(l) == Some("utils"@),
        !(l == "components"@) && !(l == "hooks"@) && !(l == "lib"@ || l == "libs"@) && !(l == "utils"@ || l == "helpers"@) && (l == "api"@) ==> annotation_for(l) == Some("api-routes"@),
        !(l == "components"@) && !(l == "hooks"@) && !(l == "lib"@ || l == "libs"@) && !(l == "utils"@ || l == "helpers"@) && !(l == "api"@) && (l == "app"@) ==> annotation_for(l) == Some("app-router"@),
        !(l == "components"@) && !(l == "hooks"@) && !(l == "lib"@ || l == "libs"@) && !(l == "utils"@ || l == "helpers"@) && !(l == "api"@) && !(l == "app"@) && (l == "pages"@) ==> annotation_for(l) == Some("pages-router"@),
        !(l == "components"@) && !(l == "hooks"@) && !(l == "lib"@ || l == "libs"@) && !(l == "utils"@ || l == "helpers"@) && !(l == "api"@) && !(l == "app"@) && !(l == "pages"@) && (l == "store"@ || l == "stores"@) ==> annotation_for(l) == Some("state"@),
        !(l == "components"@) && !(l == "hooks"@) && !(l == "lib"@ || l == "libs"@) && !(l == "utils"@ || l == "helpers"@) && !(l == "api"@) && !(l == "app"@) && !(l == "pages"@) && !(l == "store"@ || l == "stores"@) && (l == "context"@) ==> annotation_for(l) == Some("context"@),
        !(l == "components"@) && !(l == "hooks"@) && !(l == "lib"@ || l == "libs"@) && !(l == "utils"@ || l == "helpers"@) && !(l == "api"@) && !(l == "app"@) && !(l == "pages"@) && !(l == "store"@ || l == "stores"@) && !(l == "context"@) && (l == "types"@ || l == "typings"@) ==> annotation_for(l) == Some("type-defs"@),
        !(l == "components"@) && !(l == "hooks"@) && !(l == "lib"@ || l == "libs"@) && !(l == "utils"@ || l == "helpers"@) && !(l == "api"@) && !(l == "app"@) && !(l == "pages"@) && !(l == "store"@ || l == "stores"@) && !(l == "context"@) && !(l == "types"@ || l == "typings"@) && (l == "styles"@ || l == "css"@) ==> annotation_for(l) == Some("styles"@),
        !(l == "components"@) && !(l == "hooks"@) && !(l == "lib"@ || l == "libs"@) && !(l == "utils"@ || l == "helpers"@) && !(l == "api"@) && !(l == "app"@) && !(l == "pages"@) && !(l == "store"@ || l == "stores"@) && !(l == "context"@) && !(l == "types"@ || l == "typings"@) && !(l == "styles"@ || l == "css"@) && (l == "public"@) ==> annotation_for(l) == Some("static-assets"@),
        !(l == "components"@) && !(l == "hooks"@) && !(l == "lib"@ || l == "libs"@) && !(l == "utils"@ || l == "helpers"@) && !(l == "api"@) && !(l == "app"@) && !(l == "pages"@) && !(l == "store"@ || l == "stores"@) && !(l == "context"@) && !(l == "types"@ || l == "typings"@) && !(l == "styles"@ || l == "css"@) && !(l == "public"@) && (l == "assets"@) ==> annotation_for(l) == Some("assets"@),
        !(l == "components"@) && !(l == "hooks"@) && !(l == "lib"@ || l == "libs"@) && !(l == "utils"@ || l == "helpers"@) && !(l == "api"@) && !(l == "app"@) && !(l == "pages"@) && !(l == "store"@ || l == "stores"@) && !(l == "context"@) && !(l == "types"@ || l == "typings"@) && !(l == "styles"@ || l == "css"@) && !(l == "public"@) && !(l == "assets"@) && (l == "scripts"@) ==> annotation_for(l) == Some("scripts"@),
        !(l == "components"@) && !(l == "hooks"@) && !(l == "lib"@ || l == "libs"@) && !(l == "utils"@ || l == "helpers"@) && !(l == "api"@) && !(l == "app"@) && !(l == "pages"@) && !(l == "store"@ || l == "stores"@) && !(l == "context"@) && !(l == "types"@ || l == "typings"@) && !(l == "styles"@ || l == "css"@) && !(l == "public"@) && !(l == "assets"@) && !(l == "scripts"@) && (l == "config"@) ==> annotation_for(l) == Some("config"@),
        !(l == "components"@) && !(l == "hooks"@) && !(l == "lib"@ || l == "libs"@) && !(l == "utils"@ || l == "helpers"@) && !(l == "api"@) && !(l == "app"@) && !(l == "pages"@) && !(l == "store"@ || l == "stores"@) && !(l == "context"@) && !(l == "types"@ || l == "typings"@) && !(l == "styles"@ || l == "css"@) && !(l == "public"@) && !(l == "assets"@) && !(l == "scripts"@) && !(l == "config"@) && (l == "migrations"@) ==> annotation_for(l) == Some("db-migrations"@),
        !(l == "components"@) && !(l == "hooks"@) && !(l == "lib"@ || l == "libs"@) && !(l == "utils"@ || l == "helpers"@) && !(l == "api"@) && !(l == "app"@) && !(l == "pages"@) && !(l == "store"@ || l == "stores"@) && !(l == "context"@) && !(l == "types"@ || l == "typings"@) && !(l == "styles"@ || l == "css"@) && !(l == "public"@) && !(l == "assets"@) && !(l == "scripts"@) && !(l == "config"@) && !(l == "migrations"@) && (l == "tests"@ || l == "__tests__"@ || l == "spec"@) ==> annotation_for(l) == Some("tests"@),
        !(l == "components"@) && !(l == "hooks"@) && !(l == "lib"@ || l == "libs"@) && !(l == "utils"@ || l == "helpers"@) && !(l == "api"@) && !(l == "app"@) && !(l == "pages"@) && !(l == "store"@ || l == "stores"@) && !(l == "context"@) && !(l == "types"@ || l == "typings"@) && !(l == "styles"@ || l == "css"@) && !(l == "public"@) && !(l == "assets"@) && !(l == "scripts"@) && !(l == "config"@) && !(l == "migrations"@) && !(l == "tests"@ || l == "__tests__"@ || l == "spec"@) && (l == "middleware"@) ==> annotation_for(l) == Some("middleware"@),
        !(l == "components"@) && !(l == "hooks"@) && !(l == "lib"@ || l == "libs"@) && !(l == "utils"@ || l == "helpers"@) && !(l == "api"@) && !(l == "app"@) && !(l == "pages"@) && !(l == "store"@ || l == "stores"@) && !(l == "context"@) && !(l == "types"@ || l == "typings"@) && !(l == "styles"@ || l == "css"@) && !(l == "public"@) && !(l == "assets"@) && !(l == "scripts"@) && !(l == "config"@) && !(l == "migrations"@) && !(l == "tests"@ || l == "__tests__"@ || l == "spec"@) && !(l == "middleware"@) && (l == "models"@) ==> annotation_for(l) == Some("models"@),
        !(l == "components"@) && !(l == "hooks"@) && !(l == "lib"@ || l == "libs"@) && !(l == "utils"@ || l == "helpers"@) && !(l == "api"@) && !(l == "app"@) && !(l == "pages"@) && !(l == "store"@ || l == "stores"@) && !(l == "context"@) && !(l == "types"@ || l == "typings"@) && !(l == "styles"@ || l == "css"@) && !(l == "public"@) && !(l == "assets"@) && !(l == "scripts"@) && !(l == "config"@) && !(l == "migrations"@) && !(l == "tests"@ || l == "__tests__"@ || l == "spec"@) && !(l == "middleware"@) && !(l == "models"@) && (l == "services"@) ==> annotation_for(l) == Some("services"@),
        !(l == "components"@) && !(l == "hooks"@) && !(l == "lib"@ || l == "libs"@) && !(l == "utils"@ || l == "helpers"@) && !(l == "api"@) && !(l == "app"@) && !(l == "pages"@) && !(l == "store"@ || l == "stores"@) && !(l == "context"@) && !(l == "types"@ || l == "typings"@) && !(l == "styles"@ || l == "css"@) && !(l == "public"@) && !(l == "assets"@) && !(l == "scripts"@) && !(l == "config"@) && !(l == "migrations"@) && !(l == "tests"@ || l == "__tests__"@ || l == "spec"@) && !(l == "middleware"@) && !(l == "models"@) && !(l == "services"@) && (l == "controllers"@) ==> annotation_for(l) == Some("controllers"@),
        !(l == "components"@) && !(l == "hooks"@) && !(l == "lib"@ || l == "libs"@) && !(l == "utils"@ || l == "helpers"@) && !(l == "api"@) && !(l == "app"@) && !(l == "pages"@) && !(l == "store"@ || l == "stores"@) && !(l == "context"@) && !(l == "types"@ || l == "typings"@) && !(l == "styles"@ || l == "css"@) && !(l == "public"@) && !(l == "assets"@) && !(l == "scripts"@) && !(l == "config"@) && !(l == "migrations"@) && !(l == "tests"@ || l == "__tests__"@ || l == "spec"@) && !(l == "middleware"@) && !(l == "models"@) && !(l == "services"@) && !(l == "controllers"@) && (l == "routes"@) ==> annotation_for(l) == Some("routes"@),
        !(l == "components"@) && !(l == "hooks"@) && !(l == "lib"@ || l == "libs"@) && !(l == "utils"@ || l == "helpers"@) && !(l == "api"@) && !(l == "app"@) && !(l == "pages"@) && !(l == "store"@ || l == "stores"@) && !(l == "context"@) && !(l == "types"@ || l == "typings"@) && !(l == "styles"@ || l == "css"@) && !(l == "public"@) && !(l == "assets"@) && !(l == "scripts"@) && !(l == "config"@) && !(l == "migrations"@) && !(l == "tests"@ || l == "__tests__"@ || l == "spec"@) && !(l == "middleware"@) && !(l == "models"@) && !(l == "services"@) && !(l == "controllers"@) && !(l == "routes"@) && (l == "db"@ || l == "database"@) ==> annotation_for(l) == Some("db"@),
        !(l == "components"@) && !(l == "hooks"@) && !(l == "lib"@ || l == "libs"@) && !(l == "utils"@ || l == "helpers"@) && !(l == "api"@) && !(l == "app"@) && !(l == "pages"@) && !(l == "store"@ || l == "stores"@) && !(l == "context"@) && !(l == "types"@ || l == "typings"@) && !(l == "styles"@ || l == "css"@) && !(l == "public"@) && !(l == "assets"@) && !(l == "scripts"@) && !(l == "config"@) && !(l == "migrations"@) && !(l == "tests"@ || l == "__tests__"@ || l == "spec"@) && !(l == "middleware"@) && !(l == "models"@) && !(l == "services"@) && !(l == "controllers"@) && !(l == "routes"@) && !(l == "db"@ || l == "database"@) && (l == "bin"@) ==> annotation_for(l) == Some("binaries"@),
        !(l == "components"@) && !(l == "hooks"@) && !(l == "lib"@ || l == "libs"@) && !(l == "utils"@ || l == "helpers"@) && !(l == "api"@) && !(l == "app"@) && !(l == "pages"@) && !(l == "store"@ || l == "stores"@) && !(l == "context"@) && !(l == "types"@ || l == "typings"@) && !(l == "styles"@ || l == "css"@) && !(l == "public"@) && !(l == "assets"@) && !(l == "scripts"@) && !(l == "config"@) && !(l == "migrations"@) && !(l == "tests"@ || l == "__tests__"@ || l == "spec"@) && !(l == "middleware"@) && !(l == "models"@) && !(l == "services"@) && !(l == "controllers"@) && !(l == "routes"@) && !(l == "db"@ || l == "database"@) && !(l == "bin"@) && (l == "src"@) ==> annotation_for(l) == Some("source-root"@),
        !(l == "components"@) && !(l == "hooks"@) && !(l == "lib"@ || l == "libs"@) && !(l == "utils"@ || l == "helpers"@) && !(l == "api"@) && !(l == "app"@) && !(l == "pages"@) && !(l == "store"@ || l == "stores"@) && !(l == "context"@) && !(l == "types"@ || l == "typings"@) && !(l == "styles"@ || l == "css"@) && !(l == "public"@) && !(l == "assets"@) && !(l == "scripts"@) && !(l == "config"@) && !(l == "migrations"@) && !(l == "tests"@ || l == "__tests__"@ || l == "spec"@) && !(l == "middleware"@) && !(l == "models"@) && !(l == "services"@) && !(l == "controllers"@) && !(l == "routes"@) && !(l == "db"@ || l == "database"@) && !(l == "bin"@) && !(l == "src"@) ==> annotation_for(l) is None,
{
}
/// Without colors, a node's line is the prefix, `└── ` for the last sibling or
/// `├── ` for the others, and its name (with `/` for a directory); a directory's
/// entries follow, drawn with the prefix grown by four spaces below a last
/// sibling and by `│` and three spaces below the others.
pub proof fn law_plain_tree_drawing(n: TreeNode, prefix: Seq<char>, last: bool)
    ensures
        !(n.kind is Dir) ==> tree_line(n, prefix, last, false) == prefix + (if last {
            "└── "@
        } else {
            "├── "@
        }) + n.name@ + "\n"@,
        n.kind is Dir ==> tree_line(n, prefix, last, false) == prefix + (if last {
            "└── "@
        } else {
            "├── "@
        }) + n.name@ + "/"@ + "\n"@ + tree_lines(
            n.children@,
            prefix + (if last {
                "    "@
            } else {
                "│   "@
            }),
            false,
            n.children@.len(),
        ),
{
    reveal_strlit(" ");
    reveal_strlit("│");
    reveal_strlit("   ");
    reveal_strlit("    ");
    reveal_strlit("│   ");
    assert(" "@ + "   "@ =~= "    "@);
    assert("│"@ + "   "@ =~= "│   "@);
    let q = next_prefix(prefix, last);
    assert(q =~= prefix + (if last {
        "    "@
    } else {
        "│   "@
    }));
    if n.kind is Dir && n.children@.len() == 0 {
        assert(tree_lines(n.children@, q, false, 0) =~= Seq::<char>::empty());
    }
}

/// Siblings are drawn in order, and only the last one as the last: each earlier
/// sibling's line uses `├── `.
pub proof fn law_only_the_last_sibling_closes(cs: Seq<TreeNode>, prefix: Seq<char>, col: bool, k: nat)
    requires
        k < cs.len(),
    ensures
        tree_lines(cs, prefix, col, k + 1) == tree_lines(cs, prefix, col, k) + tree_line(
            cs[k as int],
            prefix,
            k + 1 == cs.len(),
            col,
        ),
{
}

/// The tree view starts with the root's name and `/`, then draws its entries with
/// an empty prefix.
pub proof fn law_tree_view_starts_at_the_root(root: TreeNode)
    ensures
        render_tree_spec(root, false) == root.name@ + "/"@ + "\n"@ + tree_lines(
            root.children@,
            Seq::<char>::empty(),
            false,
            root.children@.len(),
        ),
{
}
/// Without colors, the statistics block's first line gives the files under the
/// root (file nodes and the entries of collapsed runs), its directories (the root
/// included), then its source and test files.
pub proof fn law_stats_line_counts_the_tree(root: TreeNode)
    ensures
        counts_line(stats_spec(root), false) == "  files "@ + decimal(files_below(root)) + "   dirs "@
            + decimal(dirs_below(root)) + "   src "@ + decimal(stats_spec(root).source) + "   tests "@
            + decimal(stats_spec(root).test) + "\n"@,
        has_prefix(
            render_stats_spec(root, false),
            "\n"@ + stats_rule_top() + counts_line(stats_spec(root), false),
        ),
{
    law_stats_count_the_files(root);
    law_stats_count_the_dirs(root);
    reveal_strlit("  ");
    reveal_strlit(" ");
    reveal_strlit("   ");
    reveal_strlit("files");
    reveal_strlit("dirs");
    reveal_strlit("src");
    reveal_strlit("tests");
    reveal_strlit("  files ");
    reveal_strlit("   dirs ");
    reveal_strlit("   src ");
    reveal_strlit("   tests ");
    assert("  "@ + "files"@ + " "@ =~= "  files "@);
    assert("   "@ + "dirs"@ + " "@ =~= "   dirs "@);
    assert("   "@ + "src"@ + " "@ =~= "   src "@);
    assert("   "@ + "tests"@ + " "@ =~= "   tests "@);
    let st = stats_spec(root);
    let a = decimal(st.files);
    let b = decimal(st.dirs);
    let c = decimal(st.source);
    let d = decimal(st.test);
    assert(counts_line(st, false) =~= "  files "@ + a + "   dirs "@ + b + "   src "@ + c + "   tests "@ + d
        + "\n"@);
    let head = "\n"@ + stats_rule_top() + counts_line(st, false);
    let rest = exts_line(st.by_ext, false) + tokens_line(token_estimate(tree_chars(root)), false)
        + c_dim(stats_rule_bottom(), false);
    assert(render_stats_spec(root, false) =~= head + rest);
    assert((head + rest).subrange(0, head.len() as int) =~= head);
}
/// The token estimate is a quarter of 1.3 times the characters, rounded down, and
/// at least one: `t` tokens for `c` characters means `4t <= 1.3c < 4t + 4` once
/// `1.3c` reaches 4.
pub proof fn law_token_estimate_is_thirteen_fortieths(c: nat)
    ensures
        token_estimate(c) >= 1,
        (c * 13) / 10 >= 4 ==> 4 * token_estimate(c) <= (c * 13) / 10 < 4 * token_estimate(c) + 4,
        (c * 13) / 10 < 4 ==> token_estimate(c) == 1,
        10 * ((c * 13) / 10) <= 13 * c < 10 * ((c * 13) / 10) + 10,
{
    let m = (c * 13) / 10;
    assert(10 * m <= 13 * c < 10 * m + 10) by (nonlinear_arith)
        requires
            m == (c * 13) / 10,
    ;
}
/// Without colors, an AI-view line is the tree line's prefix and connector, the
/// name (with `/` for a directory) and, where the file's role or the directory's
/// name carries an annotation, two spaces and the annotation in brackets.
pub proof fn law_ai_lines_carry_annotations(n: TreeNode, prefix: Seq<char>, last: bool)
    ensures
        n.kind is File ==> ai_line(n, prefix, last, false) == prefix + (if last {
            "└── "@
        } else {
            "├── "@
        }) + n.name@ + (match role_annotation(n.role) {
            Some(a) => "  ["@ + a + "]"@,
            None => Seq::<char>::empty(),
        }) + "\n"@,
        n.kind is Dir ==> has_prefix(
            ai_line(n, prefix, last, false),
            prefix + (if last {
                "└── "@
            } else {
                "├── "@
            }) + n.name@ + "/"@ + (match dir_annotation_spec(n.name@) {
                Some(a) => "  ["@ + a + "]"@,
                None => Seq::<char>::empty(),
            }) + "\n"@,
        ),
{
    reveal(dir_ann_text);
    reveal(file_ann_text);
    let conn = connector(last);
    if n.kind is File {
        assert(ai_line(n, prefix, last, false) =~= prefix + conn + n.name@ + (match role_annotation(n.role) {
            Some(a) => "  ["@ + a + "]"@,
            None => Seq::<char>::empty(),
        }) + "\n"@);
    }
    if n.kind is Dir {
        let head = prefix + conn + n.name@ + "/"@ + (match dir_annotation_spec(n.name@) {
            Some(a) => "  ["@ + a + "]"@,
            None => Seq::<char>::empty(),
        }) + "\n"@;
        let rest = if n.children@.len() > 0 {
            ai_lines(n.children@, next_prefix(prefix, last), false, n.children@.len())
        } else {
            Seq::<char>::empty()
        };
        assert(ai_line(n, prefix, last, false) =~= head + rest);
        assert((head + rest).subrange(0, head.len() as int) =~= head);
    }
}
/// A category's section holds exactly the entries whose role falls in that
/// category, in their order.
pub proof fn law_sections_hold_their_category(es: Seq<(Seq<char>, FileRole)>, c: FileCategory)
    ensures
        forall|e: (Seq<char>, FileRole)| #[trigger] in_category(es, c).contains(e) <==> (es.contains(e)
            && role_category(e.1) == c),
    decreases es.len(),
{
    if es.len() > 0 {
        law_sections_hold_their_category(es.drop_last(), c);
        let rest = in_category(es.drop_last(), c);
        assert forall|e: (Seq<char>, FileRole)| #[trigger] in_category(es, c).contains(e) <==> (
        es.contains(e) && role_category(e.1) == c) by {
            if es.contains(e) && role_category(e.1) == c {
                let i = choose|i: int| 0 <= i < es.len() && es[i] == e;
                if i < es.len() - 1 {
                    assert(es.drop_last()[i] == e);
                    assert(es.drop_last().contains(e));
                    assert(rest.contains(e));
                    let j = choose|j: int| 0 <= j < rest.len() && rest[j] == e;
                    if role_category(es.last().1) == c {
                        assert(rest.push(es.last())[j] == e);
                    }
                } else {
                    assert(rest.push(es.last())[rest.len() as int] == e);
                }
            }
            if in_category(es, c).contains(e) {
                let r = in_category(es, c);
                let j = choose|j: int| 0 <= j < r.len() && r[j] == e;
                if j < rest.len() {
                    assert(r[j] == rest[j]);
                    assert(rest.contains(e));
                    assert(es.drop_last().contains(e));
                    let i = choose|i: int| 0 <= i < es.drop_last().len() && es.drop_last()[i] == e;
                    assert(es[i] == e);
                } else {
                    assert(e == es.last());
                    assert(es[es.len() - 1] == e);
                }
            }
        }
    }
}

/// The grouped view lists the sections in the order source, config, tests, assets,
/// docs.
pub proof fn law_group_sections_in_order(root: TreeNode, base: Seq<char>, col: bool)
    ensures
        render_group_spec(root, base, col) == group_section(file_entries(root, base), FileCategory::Source, col)
            + group_section(file_entries(root, base), FileCategory::Config, col) + group_section(
            file_entries(root, base),
            FileCategory::Test,
            col,
        ) + group_section(file_entries(root, base), FileCategory::Asset, col) + group_section(
            file_entries(root, base),
            FileCategory::Docs,
            col,
        ),
{
}
} // verus!
