//! One run's output: the focus breadcrumb, the body the arguments ask for, and the
//! statistics block.
use vstd::prelude::*;
use crate::cli::{Args, ArgsView, OutputFormat};
use crate::detector::Framework;
use crate::tree::{TreeNode, weight, checked_weight, flat_node};
use crate::paths::{rel_path, file_name, rel_path_exec, file_name_exec};
use crate::text::{chars_of, string_of, has_prefix, has_suffix};
use crate::render::{
    render_tree, render_ai, render_flat, render_group, render_stats, render_tree_spec,
    render_ai_spec, render_flat_spec, render_group_spec, render_stats_spec, use_color_spec,
    tree_chars, sum_utf8, checked_tree_chars, checked_flat_cost,
};
use crate::json::{render_json, json_pretty, tree_json};

verus! {

/// The kinds of body a run can print.
#[derive(Debug, Clone, Copy, PartialEq, Eq, Structural)]
pub enum BodyKind {
    Ai,
    Flat,
    Group,
    Json,
    Tree,
}

/// `--ai` wins, then the flat and grouped views (by flag or format), then JSON,
/// and the tree otherwise.
pub open spec fn body_kind(a: ArgsView) -> BodyKind {
    if a.ai {
        BodyKind::Ai
    } else if a.flat || a.format == OutputFormat::Flat {
        BodyKind::Flat
    } else if a.group || a.format == OutputFormat::Group {
        BodyKind::Group
    } else if a.format == OutputFormat::Json {
        BodyKind::Json
    } else {
        BodyKind::Tree
    }
}

pub fn select_body(args: &Args) -> (r: BodyKind)
    ensures
        r == body_kind(args@),
{
    if args.ai {
        BodyKind::Ai
    } else if args.flat || args.format == OutputFormat::Flat {
        BodyKind::Flat
    } else if args.group || args.format == OutputFormat::Group {
        BodyKind::Group
    } else if args.format == OutputFormat::Json {
        BodyKind::Json
    } else {
        BodyKind::Tree
    }
}

/// The statistics block follows the body unless the output is JSON.
pub open spec fn shows_stats(a: ArgsView) -> bool {
    a.stats && a.format != OutputFormat::Json
}

/// Where the scan is narrowed to a subdirectory: which one, and the project it is in.
pub open spec fn focus_header(root: Seq<char>, scan_root: Seq<char>) -> Seq<char> {
    "# focus: ./"@ + (match rel_path(scan_root, root) {
        Some(r) => r,
        None => Seq::empty(),
    }) + "\n# project root: "@ + (match file_name(root) {
        Some(n) => n,
        None => "."@,
    }) + "/\n\n"@
}

pub open spec fn body_spec(
    tree: TreeNode,
    fw: Framework,
    a: ArgsView,
    col: bool,
    scan_root: Seq<char>,
) -> Seq<char> {
    match body_kind(a) {
        BodyKind::Ai => render_ai_spec(tree, fw, col),
        BodyKind::Flat => render_flat_spec(tree, scan_root, col),
        BodyKind::Group => render_group_spec(tree, scan_root, col),
        BodyKind::Json => match json_pretty(tree_json(tree)) {
            Some(s) => s,
            None => "{}"@,
        },
        BodyKind::Tree => render_tree_spec(tree, col),
    }
}

/// The whole output of one run over `tree`, scanned from `scan_root` inside the
/// project at `root`; `tty` says whether standard output is a terminal.
pub open spec fn output_spec(
    tree: TreeNode,
    fw: Framework,
    a: ArgsView,
    tty: bool,
    root: Seq<char>,
    scan_root: Seq<char>,
) -> Seq<char> {
    let col = use_color_spec(a, tty);
    (if a.focus is Some {
        focus_header(root, scan_root)
    } else {
        Seq::empty()
    }) + body_spec(tree, fw, a, col, scan_root) + (if shows_stats(a) {
        render_stats_spec(tree, col)
    } else {
        Seq::empty()
    })
}

/// What a run must be able to count: the tree's weight and characters for the AI
/// view and the statistics, the bytes of the paths for the flat view.
pub open spec fn counts_fit(tree: TreeNode, a: ArgsView, scan_root: Seq<char>) -> bool {
    &&& (body_kind(a) == BodyKind::Ai || shows_stats(a)) ==> weight(tree) <= usize::MAX
        && tree_chars(tree) <= usize::MAX
    &&& body_kind(a) == BodyKind::Flat ==> sum_utf8(flat_node(tree, scan_root)) + 2 * flat_node(
        tree,
        scan_root,
    ).len() <= usize::MAX
}

/// Whether the counts of a run fit in machine words.
pub fn counts_fit_exec(tree: &TreeNode, args: &Args, scan_root: &str) -> (r: bool)
    ensures
        r == counts_fit(*tree, args@, scan_root@),
{
    let kind = select_body(args);
    let stats = args.stats && args.format != OutputFormat::Json;
    if kind == BodyKind::Ai || stats {
        if checked_weight(tree).is_none() || checked_tree_chars(tree).is_none() {
            return false;
        }
    }
    if kind == BodyKind::Flat {
        if checked_flat_cost(tree, scan_root).is_none() {
            return false;
        }
    }
    true
}

fn focus_header_exec(root: &str, scan_root: &str) -> (r: String)
    ensures
        r@ == focus_header(root@, scan_root@),
{
    let rc = chars_of(root);
    let mut out = String::from_str("# focus: ./");
    match rel_path_exec(&chars_of(scan_root), &rc) {
        Some(r) => out.append(string_of(&r).as_str()),
        None => {},
    }
    out.append("\n# project root: ");
    match file_name_exec(&rc) {
        Some(n) => out.append(string_of(&n).as_str()),
        None => out.append("."),
    }
    out.append("/\n\n");
    out
}

/// The output of one run: the focus breadcrumb when focused, the selected body,
/// and the statistics when asked for (never after JSON).
pub fn render_output(
    tree: &TreeNode,
    framework: &Framework,
    args: &Args,
    tty: bool,
    root: &str,
    scan_root: &str,
) -> (r: String)
    requires
        counts_fit(*tree, args@, scan_root@),
    ensures
        r@ == output_spec(*tree, *framework, args@, tty, root@, scan_root@),
{
    let mut out = String::new();
    if args.focus.is_some() {
        out = focus_header_exec(root, scan_root);
    }
    let body = match select_body(args) {
        BodyKind::Ai => render_ai(tree, framework, args, tty),
        BodyKind::Flat => render_flat(tree, scan_root, args, tty),
        BodyKind::Group => render_group(tree, scan_root, args, tty),
        BodyKind::Json => render_json(tree),
        BodyKind::Tree => render_tree(tree, args, tty),
    };
    out.append(body.as_str());
    if args.stats && args.format != OutputFormat::Json {
        let s = render_stats(tree, args, tty);
        out.append(s.as_str());
    }
    out
}

// ───────────────────────────── laws ─────────────────────────────

/// The view printed: `--ai` wins over everything; then the flat view (by flag or
/// `--format flat`), then the grouped view (by flag or `--format group`), then JSON
/// for `--format json`; the tree otherwise.
pub proof fn law_which_view_is_printed(a: ArgsView)
    ensures
        a.ai ==> body_kind(a) == BodyKind::Ai,
        !a.ai && (a.flat || a.format == OutputFormat::Flat) ==> body_kind(a) == BodyKind::Flat,
        !a.ai && !(a.flat || a.format == OutputFormat::Flat) && (a.group || a.format
            == OutputFormat::Group) ==> body_kind(a) == BodyKind::Group,
        !a.ai && !a.flat && !a.group && a.format == OutputFormat::Json ==> body_kind(a)
            == BodyKind::Json,
        !a.ai && !a.flat && !a.group && a.format == OutputFormat::Tree ==> body_kind(a)
            == BodyKind::Tree,
{
}

/// Each view prints its own rendering of the tree.
pub proof fn law_views_render_the_tree(
    tree: TreeNode,
    fw: Framework,
    a: ArgsView,
    col: bool,
    scan_root: Seq<char>,
)
    ensures
        body_kind(a) == BodyKind::Ai ==> body_spec(tree, fw, a, col, scan_root) == render_ai_spec(
            tree,
            fw,
            col,
        ),
        body_kind(a) == BodyKind::Flat ==> body_spec(tree, fw, a, col, scan_root) == render_flat_spec(
            tree,
            scan_root,
            col,
        ),
        body_kind(a) == BodyKind::Group ==> body_spec(tree, fw, a, col, scan_root)
            == render_group_spec(tree, scan_root, col),
        body_kind(a) == BodyKind::Tree ==> body_spec(tree, fw, a, col, scan_root) == render_tree_spec(
            tree,
            col,
        ),
{
}

/// A run's output: the focus header when `--focus` is given, the view, and the
/// statistics block when `--stats` is given and the output is not JSON.
pub proof fn law_output_is_header_view_and_stats(
    tree: TreeNode,
    fw: Framework,
    a: ArgsView,
    tty: bool,
    root: Seq<char>,
    scan_root: Seq<char>,
)
    ensures
        a.focus is None && !a.stats ==> output_spec(tree, fw, a, tty, root, scan_root) == body_spec(
            tree,
            fw,
            a,
            !a.no_color && tty,
            scan_root,
        ),
        a.focus is None && a.format == OutputFormat::Json ==> output_spec(tree, fw, a, tty, root, scan_root)
            == body_spec(tree, fw, a, !a.no_color && tty, scan_root),
        a.focus is Some ==> has_prefix(
            output_spec(tree, fw, a, tty, root, scan_root),
            focus_header(root, scan_root),
        ),
        a.stats && a.format != OutputFormat::Json ==> has_suffix(
            output_spec(tree, fw, a, tty, root, scan_root),
            render_stats_spec(tree, !a.no_color && tty),
        ),
{
    let col = use_color_spec(a, tty);
    let h = if a.focus is Some {
        focus_header(root, scan_root)
    } else {
        Seq::<char>::empty()
    };
    let b = body_spec(tree, fw, a, col, scan_root);
    let t = if shows_stats(a) {
        render_stats_spec(tree, col)
    } else {
        Seq::<char>::empty()
    };
    let o = output_spec(tree, fw, a, tty, root, scan_root);
    assert(o =~= h + b + t);
    assert((h + b + t).subrange(0, h.len() as int) =~= h);
    assert((h + b + t).subrange((h + b + t).len() - t.len(), (h + b + t).len() as int) =~= t);
    if a.focus is None {
        assert(h + b =~= b);
        assert(b + Seq::<char>::empty() =~= b);
    }
}
} // verus!
