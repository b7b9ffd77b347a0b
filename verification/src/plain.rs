//! Colored output, once its escape codes are stripped for the clipboard, is the
//! plain output.
use vstd::prelude::*;
use crate::ansi::{
    strip_spec, after_escape, is_ascii_alpha, wrap, c_dir, c_dim, c_ai, c_green, c_file,
    lemma_strip_concat_plain,
};
use crate::detector::{
    FileRole, FileCategory, Framework, role_annotation, framework_name, framework_lang,
    category_label,
};
use crate::text::{decimal, digit_char, CharClass, trim_end_by, seq_lt, join, utf8_len};
use crate::tree::{TreeNode, NodeKind};
use crate::render::{
    tree_line, tree_lines, render_tree_spec, connector, next_prefix, group_color,
    dir_annotation_spec, ai_head, ai_line, ai_lines, render_ai_spec, ai_tag, file_ann_text,
    dir_ann_text, tree_chars, token_estimate, render_flat_spec, path_lines, flat_tokens,
    file_entries, file_entries_list, in_category, repeat_text, group_header, group_lines,
    group_section, render_group_spec, counts_line, exts_line, tokens_line, render_stats_spec,
    stats_rule_top, stats_rule_bottom, top_exts, ext_entry, by_count, insert_by_count, first_below,
    use_color_spec,
};
use crate::tree::{stats_spec, flat_node, flat_list, StatsModel, bump, add_node, add_list, zero_stats};
use crate::paths::{rel_path, file_name, after_last, strip_tail};
use crate::output::{focus_header, output_spec, body_spec, body_kind, shows_stats, BodyKind};
use crate::cli::ArgsView;

verus! {

/// Text without an escape character.
pub open spec fn plain(s: Seq<char>) -> bool {
    !s.contains('\x1b')
}

pub open spec fn no_alpha(s: Seq<char>) -> bool {
    forall|i: int| 0 <= i < s.len() ==> !is_ascii_alpha(#[trigger] s[i])
}

proof fn lemma_plain_concat(a: Seq<char>, b: Seq<char>)
    requires
        plain(a),
        plain(b),
    ensures
        plain(a + b),
{
    if (a + b).contains('\x1b') {
        let k = choose|k: int| 0 <= k < (a + b).len() && (a + b)[k] == '\x1b';
        if k < a.len() {
            assert(a[k] == '\x1b');
        } else {
            assert(b[k - a.len()] == '\x1b');
        }
    }
}

/// An escape sequence ends at its first letter.
proof fn lemma_after_escape_skips(x: Seq<char>, y: Seq<char>)
    requires
        no_alpha(x),
    ensures
        after_escape(x + seq!['m'] + y) == y,
    decreases x.len(),
{
    if x.len() > 0 {
        assert(!is_ascii_alpha(x[0]));
        assert((x + seq!['m'] + y).drop_first() =~= x.drop_first() + seq!['m'] + y);
        assert(no_alpha(x.drop_first())) by {
            assert forall|i: int| 0 <= i < x.drop_first().len() implies !is_ascii_alpha(
                #[trigger] x.drop_first()[i],
            ) by {
                assert(x.drop_first()[i] == x[i + 1]);
            }
        }
        lemma_after_escape_skips(x.drop_first(), y);
    } else {
        assert(x + seq!['m'] + y =~= seq!['m'] + y);
        assert((seq!['m'] + y).drop_first() =~= y);
    }
}

/// Stripping a wrapped text leaves the text.
proof fn lemma_strip_wrap(code: Seq<char>, s: Seq<char>, rest: Seq<char>)
    requires
        no_alpha(code),
        plain(s),
    ensures
        strip_spec(wrap(code, s) + rest) == s + strip_spec(rest),
{
    reveal_strlit("\x1b[");
    reveal_strlit("m");
    reveal_strlit("\x1b[0m");
    let tail = s + "\x1b[0m"@ + rest;
    let w = wrap(code, s) + rest;
    assert(w =~= seq!['\x1b'] + ((seq!['['] + code) + seq!['m'] + tail));
    assert(w[0] == '\x1b');
    assert(w.drop_first() =~= (seq!['['] + code) + seq!['m'] + tail);
    assert(no_alpha(seq!['['] + code)) by {
        assert forall|i: int| 0 <= i < (seq!['['] + code).len() implies !is_ascii_alpha(
            #[trigger] (seq!['['] + code)[i],
        ) by {
            if i > 0 {
                assert((seq!['['] + code)[i] == code[i - 1]);
            }
        }
    }
    lemma_after_escape_skips(seq!['['] + code, tail);
    assert(tail =~= s + ("\x1b[0m"@ + rest));
    lemma_strip_concat_plain(s, "\x1b[0m"@ + rest);
    let r = "\x1b[0m"@ + rest;
    assert(r[0] == '\x1b');
    assert(r.drop_first() =~= seq!['[', '0'] + seq!['m'] + rest);
    assert(no_alpha(seq!['[', '0']));
    lemma_after_escape_skips(seq!['[', '0'], rest);
}

proof fn lemma_decimal_plain(n: nat)
    ensures
        plain(decimal(n)),
    decreases n,
{
    if n >= 10 {
        lemma_decimal_plain(n / 10);
        let d = decimal(n / 10).push(digit_char(n % 10));
        if d.contains('\x1b') {
            let k = choose|k: int| 0 <= k < d.len() && d[k] == '\x1b';
            if k < d.len() - 1 {
                assert(decimal(n / 10)[k] == '\x1b');
            }
        }
    } else {
        if decimal(n).contains('\x1b') {
            let k = choose|k: int| 0 <= k < decimal(n).len() && decimal(n)[k] == '\x1b';
            assert(k == 0);
        }
    }
}

/// Literal pieces of the tree drawing hold no escape character.
proof fn lemma_drawing_plain(prefix: Seq<char>, last: bool)
    requires
        plain(prefix),
    ensures
        plain(connector(last)),
        plain(next_prefix(prefix, last)),
        plain("\n"@),
        plain("/"@),
        plain(Seq::<char>::empty()),
{
    reveal_strlit("└── ");
    reveal_strlit("├── ");
    reveal_strlit(" ");
    reveal_strlit("│");
    reveal_strlit("   ");
    reveal_strlit("\n");
    reveal_strlit("/");
    assert(!connector(last).contains('\x1b')) by {
        if connector(last).contains('\x1b') {
            let k = choose|k: int| 0 <= k < connector(last).len() && connector(last)[k] == '\x1b';
        }
    }
    let mid: Seq<char> = if last {
        " "@
    } else {
        "│"@
    };
    assert(plain(mid)) by {
        if mid.contains('\x1b') {
            let k = choose|k: int| 0 <= k < mid.len() && mid[k] == '\x1b';
        }
    }
    assert(plain("   "@)) by {
        if "   "@.contains('\x1b') {
            let k = choose|k: int| 0 <= k < "   "@.len() && "   "@[k] == '\x1b';
        }
    }
    lemma_plain_concat(prefix, mid);
    lemma_plain_concat(prefix + mid, "   "@);
    assert(plain("\n"@)) by {
        if "\n"@.contains('\x1b') {
            let k = choose|k: int| 0 <= k < "\n"@.len() && "\n"@[k] == '\x1b';
        }
    }
    assert(plain("/"@)) by {
        if "/"@.contains('\x1b') {
            let k = choose|k: int| 0 <= k < "/"@.len() && "/"@[k] == '\x1b';
        }
    }
}


/// Every name in the tree is free of escape characters.
pub open spec fn plain_tree(n: TreeNode) -> bool
    decreases n, 1nat,
{
    plain(n.name@) && plain_trees(n.children@)
}

pub open spec fn plain_trees(cs: Seq<TreeNode>) -> bool
    decreases cs, 0nat,
{
    if cs.len() == 0 {
        true
    } else {
        plain_trees(cs.drop_last()) && plain_tree(cs.last())
    }
}

proof fn lemma_plain_trees_at(cs: Seq<TreeNode>, i: int)
    requires
        plain_trees(cs),
        0 <= i < cs.len(),
    ensures
        plain_tree(cs[i]),
    decreases cs.len(),
{
    if i < cs.len() - 1 {
        lemma_plain_trees_at(cs.drop_last(), i);
        assert(cs.drop_last()[i] == cs[i]);
    }
}

// ───────────────────────────── composing ─────────────────────────────

/// Stripping `c` in front of any text leaves `p` in front of that text stripped.
pub open spec fn strips_to(c: Seq<char>, p: Seq<char>) -> bool {
    forall|r: Seq<char>| #[trigger] strip_spec(c + r) == p + strip_spec(r)
}

proof fn lemma_strips_plain(s: Seq<char>)
    requires
        plain(s),
    ensures
        strips_to(s, s),
{
    assert forall|r: Seq<char>| #[trigger] strip_spec(s + r) == s + strip_spec(r) by {
        lemma_strip_concat_plain(s, r);
    }
}

proof fn lemma_strips_concat(c1: Seq<char>, p1: Seq<char>, c2: Seq<char>, p2: Seq<char>)
    requires
        strips_to(c1, p1),
        strips_to(c2, p2),
    ensures
        strips_to(c1 + c2, p1 + p2),
{
    assert forall|r: Seq<char>| #[trigger] strip_spec((c1 + c2) + r) == (p1 + p2) + strip_spec(r) by {
        assert((c1 + c2) + r =~= c1 + (c2 + r));
        assert(strip_spec(c1 + (c2 + r)) == p1 + strip_spec(c2 + r));
        assert(strip_spec(c2 + r) == p2 + strip_spec(r));
        assert(p1 + (p2 + strip_spec(r)) =~= (p1 + p2) + strip_spec(r));
    }
}

proof fn lemma_strips_whole(c: Seq<char>, p: Seq<char>)
    requires
        strips_to(c, p),
    ensures
        strip_spec(c) == p,
{
    let e = Seq::<char>::empty();
    assert(c + e =~= c);
    assert(strip_spec(c + e) == p + strip_spec(e));
    assert(p + e =~= p);
}

proof fn lemma_strips_wrap(code: Seq<char>, s: Seq<char>)
    requires
        no_alpha(code),
        plain(s),
    ensures
        strips_to(wrap(code, s), s),
{
    assert forall|r: Seq<char>| #[trigger] strip_spec(wrap(code, s) + r) == s + strip_spec(r) by {
        lemma_strip_wrap(code, s, r);
    }
}

/// A color code wrapped round plain text is removed whole: the text is left.
pub proof fn law_strip_removes_color(code: Seq<char>, s: Seq<char>)
    requires
        no_alpha(code),
        plain(s),
    ensures
        strip_spec(wrap(code, s)) == s,
{
    lemma_strips_wrap(code, s);
    lemma_strips_whole(wrap(code, s), s);
}

/// Every coloring of plain text strips to the text.
proof fn lemma_strips_colors(s: Seq<char>, col: bool, role: FileRole, cat: FileCategory)
    requires
        plain(s),
    ensures
        strips_to(c_dim(s, col), s),
        strips_to(c_dir(s, col), s),
        strips_to(c_ai(s, col), s),
        strips_to(c_green(s, col), s),
        strips_to(c_file(s, role, col), s),
        strips_to(group_color(cat, s, col), s),
{
    reveal_strlit("2");
    reveal_strlit("1;34");
    reveal_strlit("95");
    reveal_strlit("92");
    reveal_strlit("33");
    reveal_strlit("35");
    reveal_strlit("36");
    reveal_strlit("97");
    lemma_strips_plain(s);
    lemma_strips_wrap("2"@, s);
    lemma_strips_wrap("1;34"@, s);
    lemma_strips_wrap("95"@, s);
    lemma_strips_wrap("92"@, s);
    lemma_strips_wrap("33"@, s);
    lemma_strips_wrap("35"@, s);
    lemma_strips_wrap("36"@, s);
    lemma_strips_wrap("97"@, s);
}

proof fn lemma_role_annotation_plain(r: FileRole)
    ensures
        role_annotation(r) matches Some(x) ==> plain(x),
{
    reveal_strlit("layout");
    assert(plain("layout"@)) by {
        if "layout"@.contains('\x1b') {
            let k = choose|k: int| 0 <= k < "layout"@.len() && "layout"@[k] == '\x1b';
        }
    }
    reveal_strlit("page");
    assert(plain("page"@)) by {
        if "page"@.contains('\x1b') {
            let k = choose|k: int| 0 <= k < "page"@.len() && "page"@[k] == '\x1b';
        }
    }
    reveal_strlit("ui-component");
    assert(plain("ui-component"@)) by {
        if "ui-component"@.contains('\x1b') {
            let k = choose|k: int| 0 <= k < "ui-component"@.len() && "ui-component"@[k] == '\x1b';
        }
    }
    reveal_strlit("hook");
    assert(plain("hook"@)) by {
        if "hook"@.contains('\x1b') {
            let k = choose|k: int| 0 <= k < "hook"@.len() && "hook"@[k] == '\x1b';
        }
    }
    reveal_strlit("util");
    assert(plain("util"@)) by {
        if "util"@.contains('\x1b') {
            let k = choose|k: int| 0 <= k < "util"@.len() && "util"@[k] == '\x1b';
        }
    }
    reveal_strlit("lib");
    assert(plain("lib"@)) by {
        if "lib"@.contains('\x1b') {
            let k = choose|k: int| 0 <= k < "lib"@.len() && "lib"@[k] == '\x1b';
        }
    }
    reveal_strlit("db-client");
    assert(plain("db-client"@)) by {
        if "db-client"@.contains('\x1b') {
            let k = choose|k: int| 0 <= k < "db-client"@.len() && "db-client"@[k] == '\x1b';
        }
    }
    reveal_strlit("api-route");
    assert(plain("api-route"@)) by {
        if "api-route"@.contains('\x1b') {
            let k = choose|k: int| 0 <= k < "api-route"@.len() && "api-route"@[k] == '\x1b';
        }
    }
    reveal_strlit("middleware");
    assert(plain("middleware"@)) by {
        if "middleware"@.contains('\x1b') {
            let k = choose|k: int| 0 <= k < "middleware"@.len() && "middleware"@[k] == '\x1b';
        }
    }
    reveal_strlit("store");
    assert(plain("store"@)) by {
        if "store"@.contains('\x1b') {
            let k = choose|k: int| 0 <= k < "store"@.len() && "store"@[k] == '\x1b';
        }
    }
    reveal_strlit("types");
    assert(plain("types"@)) by {
        if "types"@.contains('\x1b') {
            let k = choose|k: int| 0 <= k < "types"@.len() && "types"@[k] == '\x1b';
        }
    }
    reveal_strlit("config");
    assert(plain("config"@)) by {
        if "config"@.contains('\x1b') {
            let k = choose|k: int| 0 <= k < "config"@.len() && "config"@[k] == '\x1b';
        }
    }
    reveal_strlit("manifest");
    assert(plain("manifest"@)) by {
        if "manifest"@.contains('\x1b') {
            let k = choose|k: int| 0 <= k < "manifest"@.len() && "manifest"@[k] == '\x1b';
        }
    }
    reveal_strlit("env");
    assert(plain("env"@)) by {
        if "env"@.contains('\x1b') {
            let k = choose|k: int| 0 <= k < "env"@.len() && "env"@[k] == '\x1b';
        }
    }
    reveal_strlit("lockfile");
    assert(plain("lockfile"@)) by {
        if "lockfile"@.contains('\x1b') {
            let k = choose|k: int| 0 <= k < "lockfile"@.len() && "lockfile"@[k] == '\x1b';
        }
    }
    reveal_strlit("docker");
    assert(plain("docker"@)) by {
        if "docker"@.contains('\x1b') {
            let k = choose|k: int| 0 <= k < "docker"@.len() && "docker"@[k] == '\x1b';
        }
    }
    reveal_strlit("ci");
    assert(plain("ci"@)) by {
        if "ci"@.contains('\x1b') {
            let k = choose|k: int| 0 <= k < "ci"@.len() && "ci"@[k] == '\x1b';
        }
    }
    reveal_strlit("test");
    assert(plain("test"@)) by {
        if "test"@.contains('\x1b') {
            let k = choose|k: int| 0 <= k < "test"@.len() && "test"@[k] == '\x1b';
        }
    }
    reveal_strlit("test-util");
    assert(plain("test-util"@)) by {
        if "test-util"@.contains('\x1b') {
            let k = choose|k: int| 0 <= k < "test-util"@.len() && "test-util"@[k] == '\x1b';
        }
    }
    reveal_strlit("styles");
    assert(plain("styles"@)) by {
        if "styles"@.contains('\x1b') {
            let k = choose|k: int| 0 <= k < "styles"@.len() && "styles"@[k] == '\x1b';
        }
    }
    reveal_strlit("readme");
    assert(plain("readme"@)) by {
        if "readme"@.contains('\x1b') {
            let k = choose|k: int| 0 <= k < "readme"@.len() && "readme"@[k] == '\x1b';
        }
    }
    reveal_strlit("docs");
    assert(plain("docs"@)) by {
        if "docs"@.contains('\x1b') {
            let k = choose|k: int| 0 <= k < "docs"@.len() && "docs"@[k] == '\x1b';
        }
    }
    reveal_strlit("entry");
    assert(plain("entry"@)) by {
        if "entry"@.contains('\x1b') {
            let k = choose|k: int| 0 <= k < "entry"@.len() && "entry"@[k] == '\x1b';
        }
    }
}

proof fn lemma_dir_annotation_plain(name: Seq<char>)
    ensures
        dir_annotation_spec(name) matches Some(x) ==> plain(x),
{
    reveal_strlit("api-routes");
    assert(plain("api-routes"@)) by {
        if "api-routes"@.contains('\x1b') {
            let k = choose|k: int| 0 <= k < "api-routes"@.len() && "api-routes"@[k] == '\x1b';
        }
    }
    reveal_strlit("app-router");
    assert(plain("app-router"@)) by {
        if "app-router"@.contains('\x1b') {
            let k = choose|k: int| 0 <= k < "app-router"@.len() && "app-router"@[k] == '\x1b';
        }
    }
    reveal_strlit("assets");
    assert(plain("assets"@)) by {
        if "assets"@.contains('\x1b') {
            let k = choose|k: int| 0 <= k < "assets"@.len() && "assets"@[k] == '\x1b';
        }
    }
    reveal_strlit("binaries");
    assert(plain("binaries"@)) by {
        if "binaries"@.contains('\x1b') {
            let k = choose|k: int| 0 <= k < "binaries"@.len() && "binaries"@[k] == '\x1b';
        }
    }
    reveal_strlit("config");
    assert(plain("config"@)) by {
        if "config"@.contains('\x1b') {
            let k = choose|k: int| 0 <= k < "config"@.len() && "config"@[k] == '\x1b';
        }
    }
    reveal_strlit("context");
    assert(plain("context"@)) by {
        if "context"@.contains('\x1b') {
            let k = choose|k: int| 0 <= k < "context"@.len() && "context"@[k] == '\x1b';
        }
    }
    reveal_strlit("controllers");
    assert(plain("controllers"@)) by {
        if "controllers"@.contains('\x1b') {
            let k = choose|k: int| 0 <= k < "controllers"@.len() && "controllers"@[k] == '\x1b';
        }
    }
    reveal_strlit("db");
    assert(plain("db"@)) by {
        if "db"@.contains('\x1b') {
            let k = choose|k: int| 0 <= k < "db"@.len() && "db"@[k] == '\x1b';
        }
    }
    reveal_strlit("db-migrations");
    assert(plain("db-migrations"@)) by {
        if "db-migrations"@.contains('\x1b') {
            let k = choose|k: int| 0 <= k < "db-migrations"@.len() && "db-migrations"@[k] == '\x1b';
        }
    }
    reveal_strlit("lib");
    assert(plain("lib"@)) by {
        if "lib"@.contains('\x1b') {
            let k = choose|k: int| 0 <= k < "lib"@.len() && "lib"@[k] == '\x1b';
        }
    }
    reveal_strlit("middleware");
    assert(plain("middleware"@)) by {
        if "middleware"@.contains('\x1b') {
            let k = choose|k: int| 0 <= k < "middleware"@.len() && "middleware"@[k] == '\x1b';
        }
    }
    reveal_strlit("models");
    assert(plain("models"@)) by {
        if "models"@.contains('\x1b') {
            let k = choose|k: int| 0 <= k < "models"@.len() && "models"@[k] == '\x1b';
        }
    }
    reveal_strlit("pages-router");
    assert(plain("pages-router"@)) by {
        if "pages-router"@.contains('\x1b') {
            let k = choose|k: int| 0 <= k < "pages-router"@.len() && "pages-router"@[k] == '\x1b';
        }
    }
    reveal_strlit("react-hooks");
    assert(plain("react-hooks"@)) by {
        if "react-hooks"@.contains('\x1b') {
            let k = choose|k: int| 0 <= k < "react-hooks"@.len() && "react-hooks"@[k] == '\x1b';
        }
    }
    reveal_strlit("routes");
    assert(plain("routes"@)) by {
        if "routes"@.contains('\x1b') {
            let k = choose|k: int| 0 <= k < "routes"@.len() && "routes"@[k] == '\x1b';
        }
    }
    reveal_strlit("scripts");
    assert(plain("scripts"@)) by {
        if "scripts"@.contains('\x1b') {
            let k = choose|k: int| 0 <= k < "scripts"@.len() && "scripts"@[k] == '\x1b';
        }
    }
    reveal_strlit("services");
    assert(plain("services"@)) by {
        if "services"@.contains('\x1b') {
            let k = choose|k: int| 0 <= k < "services"@.len() && "services"@[k] == '\x1b';
        }
    }
    reveal_strlit("source-root");
    assert(plain("source-root"@)) by {
        if "source-root"@.contains('\x1b') {
            let k = choose|k: int| 0 <= k < "source-root"@.len() && "source-root"@[k] == '\x1b';
        }
    }
    reveal_strlit("state");
    assert(plain("state"@)) by {
        if "state"@.contains('\x1b') {
            let k = choose|k: int| 0 <= k < "state"@.len() && "state"@[k] == '\x1b';
        }
    }
    reveal_strlit("static-assets");
    assert(plain("static-assets"@)) by {
        if "static-assets"@.contains('\x1b') {
            let k = choose|k: int| 0 <= k < "static-assets"@.len() && "static-assets"@[k] == '\x1b';
        }
    }
    reveal_strlit("styles");
    assert(plain("styles"@)) by {
        if "styles"@.contains('\x1b') {
            let k = choose|k: int| 0 <= k < "styles"@.len() && "styles"@[k] == '\x1b';
        }
    }
    reveal_strlit("tests");
    assert(plain("tests"@)) by {
        if "tests"@.contains('\x1b') {
            let k = choose|k: int| 0 <= k < "tests"@.len() && "tests"@[k] == '\x1b';
        }
    }
    reveal_strlit("type-defs");
    assert(plain("type-defs"@)) by {
        if "type-defs"@.contains('\x1b') {
            let k = choose|k: int| 0 <= k < "type-defs"@.len() && "type-defs"@[k] == '\x1b';
        }
    }
    reveal_strlit("ui-components");
    assert(plain("ui-components"@)) by {
        if "ui-components"@.contains('\x1b') {
            let k = choose|k: int| 0 <= k < "ui-components"@.len() && "ui-components"@[k] == '\x1b';
        }
    }
    reveal_strlit("utils");
    assert(plain("utils"@)) by {
        if "utils"@.contains('\x1b') {
            let k = choose|k: int| 0 <= k < "utils"@.len() && "utils"@[k] == '\x1b';
        }
    }
}

proof fn lemma_framework_plain(fw: Framework)
    ensures
        plain(framework_name(fw)),
        plain(framework_lang(fw)),
{
    reveal_strlit("nextjs");
    assert(plain("nextjs"@)) by {
        if "nextjs"@.contains('\x1b') {
            let k = choose|k: int| 0 <= k < "nextjs"@.len() && "nextjs"@[k] == '\x1b';
        }
    }
    reveal_strlit("react");
    assert(plain("react"@)) by {
        if "react"@.contains('\x1b') {
            let k = choose|k: int| 0 <= k < "react"@.len() && "react"@[k] == '\x1b';
        }
    }
    reveal_strlit("vue");
    assert(plain("vue"@)) by {
        if "vue"@.contains('\x1b') {
            let k = choose|k: int| 0 <= k < "vue"@.len() && "vue"@[k] == '\x1b';
        }
    }
    reveal_strlit("svelte");
    assert(plain("svelte"@)) by {
        if "svelte"@.contains('\x1b') {
            let k = choose|k: int| 0 <= k < "svelte"@.len() && "svelte"@[k] == '\x1b';
        }
    }
    reveal_strlit("astro");
    assert(plain("astro"@)) by {
        if "astro"@.contains('\x1b') {
            let k = choose|k: int| 0 <= k < "astro"@.len() && "astro"@[k] == '\x1b';
        }
    }
    reveal_strlit("vite");
    assert(plain("vite"@)) by {
        if "vite"@.contains('\x1b') {
            let k = choose|k: int| 0 <= k < "vite"@.len() && "vite"@[k] == '\x1b';
        }
    }
    reveal_strlit("rust");
    assert(plain("rust"@)) by {
        if "rust"@.contains('\x1b') {
            let k = choose|k: int| 0 <= k < "rust"@.len() && "rust"@[k] == '\x1b';
        }
    }
    reveal_strlit("python");
    assert(plain("python"@)) by {
        if "python"@.contains('\x1b') {
            let k = choose|k: int| 0 <= k < "python"@.len() && "python"@[k] == '\x1b';
        }
    }
    reveal_strlit("go");
    assert(plain("go"@)) by {
        if "go"@.contains('\x1b') {
            let k = choose|k: int| 0 <= k < "go"@.len() && "go"@[k] == '\x1b';
        }
    }
    reveal_strlit("java");
    assert(plain("java"@)) by {
        if "java"@.contains('\x1b') {
            let k = choose|k: int| 0 <= k < "java"@.len() && "java"@[k] == '\x1b';
        }
    }
    reveal_strlit("dotnet");
    assert(plain("dotnet"@)) by {
        if "dotnet"@.contains('\x1b') {
            let k = choose|k: int| 0 <= k < "dotnet"@.len() && "dotnet"@[k] == '\x1b';
        }
    }
    reveal_strlit("node");
    assert(plain("node"@)) by {
        if "node"@.contains('\x1b') {
            let k = choose|k: int| 0 <= k < "node"@.len() && "node"@[k] == '\x1b';
        }
    }
    reveal_strlit("unknown");
    assert(plain("unknown"@)) by {
        if "unknown"@.contains('\x1b') {
            let k = choose|k: int| 0 <= k < "unknown"@.len() && "unknown"@[k] == '\x1b';
        }
    }
    reveal_strlit("csharp");
    assert(plain("csharp"@)) by {
        if "csharp"@.contains('\x1b') {
            let k = choose|k: int| 0 <= k < "csharp"@.len() && "csharp"@[k] == '\x1b';
        }
    }
    reveal_strlit("typescript");
    assert(plain("typescript"@)) by {
        if "typescript"@.contains('\x1b') {
            let k = choose|k: int| 0 <= k < "typescript"@.len() && "typescript"@[k] == '\x1b';
        }
    }
}


/// The fixed texts of the views hold no escape character.
proof fn lemma_view_literals()
    ensures
        plain("\n"@),
        plain("/"@),
        plain("  ["@),
        plain("]"@),
        plain("<project_structure lang=\""@),
        plain("\" framework=\""@),
        plain("\" files=\""@),
        plain("\" est_tokens=\""@),
        plain("\">"@),
        plain("</project_structure>"@),
        plain("tokens: ~"@),
        plain("  ·  files: "@),
        plain("  ·  ignored: node_modules .git dist build"@),
        plain("# directree --flat  ("@),
        plain(" paths)\n"@),
        plain(" paths  ·  ~"@),
        plain(" tokens"@),
        plain("# focus: ./"@),
        plain("\n# project root: "@),
        plain("/\n\n"@),
        plain("."@),
        plain("── "@),
        plain("─"@),
        plain(" "@),
        plain("  "@),
        plain("   "@),
        plain("files"@),
        plain("dirs"@),
        plain("src"@),
        plain("tests"@),
        plain("exts:"@),
        plain("est. tokens:"@),
        plain("~"@),
        plain(" ("@),
        plain(")"@),
        plain("source"@),
        plain("config"@),
        plain("assets"@),
        plain("docs"@),
        plain("── stats ─────────────────────────────────────\n"@),
        plain("──────────────────────────────────────────────\n"@),
{
    reveal_strlit("── ");
    assert(plain("── "@)) by {
        if "── "@.contains('\x1b') {
            let k = choose|k: int| 0 <= k < "── "@.len() && "── "@[k] == '\x1b';
        }
    }
    reveal_strlit("─");
    assert(plain("─"@)) by {
        if "─"@.contains('\x1b') {
            let k = choose|k: int| 0 <= k < "─"@.len() && "─"@[k] == '\x1b';
        }
    }
    reveal_strlit(" ");
    assert(plain(" "@)) by {
        if " "@.contains('\x1b') {
            let k = choose|k: int| 0 <= k < " "@.len() && " "@[k] == '\x1b';
        }
    }
    reveal_strlit("  ");
    assert(plain("  "@)) by {
        if "  "@.contains('\x1b') {
            let k = choose|k: int| 0 <= k < "  "@.len() && "  "@[k] == '\x1b';
        }
    }
    reveal_strlit("   ");
    assert(plain("   "@)) by {
        if "   "@.contains('\x1b') {
            let k = choose|k: int| 0 <= k < "   "@.len() && "   "@[k] == '\x1b';
        }
    }
    reveal_strlit("files");
    assert(plain("files"@)) by {
        if "files"@.contains('\x1b') {
            let k = choose|k: int| 0 <= k < "files"@.len() && "files"@[k] == '\x1b';
        }
    }
    reveal_strlit("dirs");
    assert(plain("dirs"@)) by {
        if "dirs"@.contains('\x1b') {
            let k = choose|k: int| 0 <= k < "dirs"@.len() && "dirs"@[k] == '\x1b';
        }
    }
    reveal_strlit("src");
    assert(plain("src"@)) by {
        if "src"@.contains('\x1b') {
            let k = choose|k: int| 0 <= k < "src"@.len() && "src"@[k] == '\x1b';
        }
    }
    reveal_strlit("tests");
    assert(plain("tests"@)) by {
        if "tests"@.contains('\x1b') {
            let k = choose|k: int| 0 <= k < "tests"@.len() && "tests"@[k] == '\x1b';
        }
    }
    reveal_strlit("exts:");
    assert(plain("exts:"@)) by {
        if "exts:"@.contains('\x1b') {
            let k = choose|k: int| 0 <= k < "exts:"@.len() && "exts:"@[k] == '\x1b';
        }
    }
    reveal_strlit("est. tokens:");
    assert(plain("est. tokens:"@)) by {
        if "est. tokens:"@.contains('\x1b') {
            let k = choose|k: int| 0 <= k < "est. tokens:"@.len() && "est. tokens:"@[k] == '\x1b';
        }
    }
    reveal_strlit("~");
    assert(plain("~"@)) by {
        if "~"@.contains('\x1b') {
            let k = choose|k: int| 0 <= k < "~"@.len() && "~"@[k] == '\x1b';
        }
    }
    reveal_strlit(" (");
    assert(plain(" ("@)) by {
        if " ("@.contains('\x1b') {
            let k = choose|k: int| 0 <= k < " ("@.len() && " ("@[k] == '\x1b';
        }
    }
    reveal_strlit(")");
    assert(plain(")"@)) by {
        if ")"@.contains('\x1b') {
            let k = choose|k: int| 0 <= k < ")"@.len() && ")"@[k] == '\x1b';
        }
    }
    reveal_strlit("source");
    assert(plain("source"@)) by {
        if "source"@.contains('\x1b') {
            let k = choose|k: int| 0 <= k < "source"@.len() && "source"@[k] == '\x1b';
        }
    }
    reveal_strlit("config");
    assert(plain("config"@)) by {
        if "config"@.contains('\x1b') {
            let k = choose|k: int| 0 <= k < "config"@.len() && "config"@[k] == '\x1b';
        }
    }
    reveal_strlit("assets");
    assert(plain("assets"@)) by {
        if "assets"@.contains('\x1b') {
            let k = choose|k: int| 0 <= k < "assets"@.len() && "assets"@[k] == '\x1b';
        }
    }
    reveal_strlit("docs");
    assert(plain("docs"@)) by {
        if "docs"@.contains('\x1b') {
            let k = choose|k: int| 0 <= k < "docs"@.len() && "docs"@[k] == '\x1b';
        }
    }
    reveal_strlit("── stats ─────────────────────────────────────\n");
    assert(plain("── stats ─────────────────────────────────────\n"@)) by {
        if "── stats ─────────────────────────────────────\n"@.contains('\x1b') {
            let k = choose|k: int| 0 <= k < "── stats ─────────────────────────────────────\n"@.len() && "── stats ─────────────────────────────────────\n"@[k] == '\x1b';
        }
    }
    reveal_strlit("──────────────────────────────────────────────\n");
    assert(plain("──────────────────────────────────────────────\n"@)) by {
        if "──────────────────────────────────────────────\n"@.contains('\x1b') {
            let k = choose|k: int| 0 <= k < "──────────────────────────────────────────────\n"@.len() && "──────────────────────────────────────────────\n"@[k] == '\x1b';
        }
    }
    reveal_strlit("# directree --flat  (");
    assert(plain("# directree --flat  ("@)) by {
        if "# directree --flat  ("@.contains('\x1b') {
            let k = choose|k: int| 0 <= k < "# directree --flat  ("@.len() && "# directree --flat  ("@[k] == '\x1b';
        }
    }
    reveal_strlit(" paths)\n");
    assert(plain(" paths)\n"@)) by {
        if " paths)\n"@.contains('\x1b') {
            let k = choose|k: int| 0 <= k < " paths)\n"@.len() && " paths)\n"@[k] == '\x1b';
        }
    }
    reveal_strlit(" paths  ·  ~");
    assert(plain(" paths  ·  ~"@)) by {
        if " paths  ·  ~"@.contains('\x1b') {
            let k = choose|k: int| 0 <= k < " paths  ·  ~"@.len() && " paths  ·  ~"@[k] == '\x1b';
        }
    }
    reveal_strlit(" tokens");
    assert(plain(" tokens"@)) by {
        if " tokens"@.contains('\x1b') {
            let k = choose|k: int| 0 <= k < " tokens"@.len() && " tokens"@[k] == '\x1b';
        }
    }
    reveal_strlit("# focus: ./");
    assert(plain("# focus: ./"@)) by {
        if "# focus: ./"@.contains('\x1b') {
            let k = choose|k: int| 0 <= k < "# focus: ./"@.len() && "# focus: ./"@[k] == '\x1b';
        }
    }
    reveal_strlit("\n# project root: ");
    assert(plain("\n# project root: "@)) by {
        if "\n# project root: "@.contains('\x1b') {
            let k = choose|k: int| 0 <= k < "\n# project root: "@.len() && "\n# project root: "@[k] == '\x1b';
        }
    }
    reveal_strlit("/\n\n");
    assert(plain("/\n\n"@)) by {
        if "/\n\n"@.contains('\x1b') {
            let k = choose|k: int| 0 <= k < "/\n\n"@.len() && "/\n\n"@[k] == '\x1b';
        }
    }
    reveal_strlit(".");
    assert(plain("."@)) by {
        if "."@.contains('\x1b') {
            let k = choose|k: int| 0 <= k < "."@.len() && "."@[k] == '\x1b';
        }
    }
    reveal_strlit("\n");
    assert(plain("\n"@)) by {
        if "\n"@.contains('\x1b') {
            let k = choose|k: int| 0 <= k < "\n"@.len() && "\n"@[k] == '\x1b';
        }
    }
    reveal_strlit("/");
    assert(plain("/"@)) by {
        if "/"@.contains('\x1b') {
            let k = choose|k: int| 0 <= k < "/"@.len() && "/"@[k] == '\x1b';
        }
    }
    reveal_strlit("  [");
    assert(plain("  ["@)) by {
        if "  ["@.contains('\x1b') {
            let k = choose|k: int| 0 <= k < "  ["@.len() && "  ["@[k] == '\x1b';
        }
    }
    reveal_strlit("]");
    assert(plain("]"@)) by {
        if "]"@.contains('\x1b') {
            let k = choose|k: int| 0 <= k < "]"@.len() && "]"@[k] == '\x1b';
        }
    }
    reveal_strlit("<project_structure lang=\"");
    assert(plain("<project_structure lang=\""@)) by {
        if "<project_structure lang=\""@.contains('\x1b') {
            let k = choose|k: int| 0 <= k < "<project_structure lang=\""@.len() && "<project_structure lang=\""@[k] == '\x1b';
        }
    }
    reveal_strlit("\" framework=\"");
    assert(plain("\" framework=\""@)) by {
        if "\" framework=\""@.contains('\x1b') {
            let k = choose|k: int| 0 <= k < "\" framework=\""@.len() && "\" framework=\""@[k] == '\x1b';
        }
    }
    reveal_strlit("\" files=\"");
    assert(plain("\" files=\""@)) by {
        if "\" files=\""@.contains('\x1b') {
            let k = choose|k: int| 0 <= k < "\" files=\""@.len() && "\" files=\""@[k] == '\x1b';
        }
    }
    reveal_strlit("\" est_tokens=\"");
    assert(plain("\" est_tokens=\""@)) by {
        if "\" est_tokens=\""@.contains('\x1b') {
            let k = choose|k: int| 0 <= k < "\" est_tokens=\""@.len() && "\" est_tokens=\""@[k] == '\x1b';
        }
    }
    reveal_strlit("\">");
    assert(plain("\">"@)) by {
        if "\">"@.contains('\x1b') {
            let k = choose|k: int| 0 <= k < "\">"@.len() && "\">"@[k] == '\x1b';
        }
    }
    reveal_strlit("</project_structure>");
    assert(plain("</project_structure>"@)) by {
        if "</project_structure>"@.contains('\x1b') {
            let k = choose|k: int| 0 <= k < "</project_structure>"@.len() && "</project_structure>"@[k] == '\x1b';
        }
    }
    reveal_strlit("tokens: ~");
    assert(plain("tokens: ~"@)) by {
        if "tokens: ~"@.contains('\x1b') {
            let k = choose|k: int| 0 <= k < "tokens: ~"@.len() && "tokens: ~"@[k] == '\x1b';
        }
    }
    reveal_strlit("  ·  files: ");
    assert(plain("  ·  files: "@)) by {
        if "  ·  files: "@.contains('\x1b') {
            let k = choose|k: int| 0 <= k < "  ·  files: "@.len() && "  ·  files: "@[k] == '\x1b';
        }
    }
    reveal_strlit("  ·  ignored: node_modules .git dist build");
    assert(plain("  ·  ignored: node_modules .git dist build"@)) by {
        if "  ·  ignored: node_modules .git dist build"@.contains('\x1b') {
            let k = choose|k: int| 0 <= k < "  ·  ignored: node_modules .git dist build"@.len() && "  ·  ignored: node_modules .git dist build"@[k] == '\x1b';
        }
    }
}

proof fn lemma_plain3(a: Seq<char>, b: Seq<char>, c: Seq<char>)
    requires
        plain(a),
        plain(b),
        plain(c),
    ensures
        plain(a + b + c),
{
    lemma_plain_concat(a, b);
    lemma_plain_concat(a + b, c);
}

proof fn lemma_strips3(c1: Seq<char>, p1: Seq<char>, c2: Seq<char>, p2: Seq<char>, c3: Seq<char>, p3: Seq<char>)
    requires
        strips_to(c1, p1),
        strips_to(c2, p2),
        strips_to(c3, p3),
    ensures
        strips_to(c1 + c2 + c3, p1 + p2 + p3),
{
    lemma_strips_concat(c1, p1, c2, p2);
    lemma_strips_concat(c1 + c2, p1 + p2, c3, p3);
}

proof fn lemma_strips_file_ann(role: FileRole, col: bool)
    ensures
        strips_to(file_ann_text(role, col), file_ann_text(role, false)),
{
    reveal(file_ann_text);
    lemma_role_annotation_plain(role);
    lemma_view_literals();
    match role_annotation(role) {
        Some(x) => {
            lemma_plain3("  ["@, x, "]"@);
            lemma_strips_colors("  ["@ + x + "]"@, col, role, FileCategory::Source);
        },
        None => {
            lemma_strips_plain(Seq::<char>::empty());
        },
    }
}

proof fn lemma_strips_dir_ann(name: Seq<char>, col: bool)
    ensures
        strips_to(dir_ann_text(name, col), dir_ann_text(name, false)),
{
    reveal(dir_ann_text);
    lemma_dir_annotation_plain(name);
    lemma_view_literals();
    match dir_annotation_spec(name) {
        Some(x) => {
            lemma_plain3("  ["@, x, "]"@);
            lemma_strips_colors("  ["@ + x + "]"@, col, FileRole::Unknown, FileCategory::Source);
        },
        None => {
            lemma_strips_plain(Seq::<char>::empty());
        },
    }
}

proof fn lemma_strips_ai_head(n: TreeNode, col: bool)
    requires
        plain(n.name@),
    ensures
        strips_to(ai_head(n, col), ai_head(n, false)),
{
    lemma_view_literals();
    lemma_strips_plain("\n"@);
    match n.kind {
        NodeKind::File => {
            lemma_strips_colors(n.name@, col, n.role, FileCategory::Source);
            lemma_strips_file_ann(n.role, col);
            lemma_strips3(
                c_file(n.name@, n.role, col),
                n.name@,
                file_ann_text(n.role, col),
                file_ann_text(n.role, false),
                "\n"@,
                "\n"@,
            );
        },
        NodeKind::Dir => {
            lemma_plain_concat(n.name@, "/"@);
            lemma_strips_colors(n.name@ + "/"@, col, n.role, FileCategory::Source);
            lemma_strips_dir_ann(n.name@, col);
            lemma_strips3(
                c_dir(n.name@ + "/"@, col),
                n.name@ + "/"@,
                dir_ann_text(n.name@, col),
                dir_ann_text(n.name@, false),
                "\n"@,
                "\n"@,
            );
        },
        NodeKind::Collapsed { .. } => {
            lemma_strips_colors(n.name@, col, n.role, FileCategory::Source);
            lemma_strips_concat(c_dim(n.name@, col), n.name@, "\n"@, "\n"@);
        },
    }
}

pub open spec fn ai_kids(n: TreeNode, prefix: Seq<char>, last: bool, col: bool) -> Seq<char> {
    if n.kind is Dir && n.children@.len() > 0 {
        ai_lines(n.children@, next_prefix(prefix, last), col, n.children@.len())
    } else {
        Seq::<char>::empty()
    }
}

proof fn lemma_strips_ai_line(n: TreeNode, prefix: Seq<char>, last: bool, col: bool)
    requires
        plain_tree(n),
        plain(prefix),
    ensures
        strips_to(ai_line(n, prefix, last, col), ai_line(n, prefix, last, false)),
    decreases n, 0nat,
{
    lemma_drawing_plain(prefix, last);
    lemma_strips_plain(prefix);
    lemma_strips_plain(connector(last));
    lemma_strips_ai_head(n, col);
    if n.kind is Dir && n.children@.len() > 0 {
        assert(decreases_to!(n => n.children));
        lemma_strips_ai_lines(n.children@, next_prefix(prefix, last), col, n.children@.len());
    } else {
        lemma_strips_plain(Seq::<char>::empty());
    }
    assert(ai_line(n, prefix, last, col) == prefix + connector(last) + ai_head(n, col) + ai_kids(n, prefix, last, col));
    assert(ai_line(n, prefix, last, false) == prefix + connector(last) + ai_head(n, false) + ai_kids(n, prefix, last, false));
    lemma_strips_concat(prefix, prefix, connector(last), connector(last));
    lemma_strips3(
        prefix + connector(last),
        prefix + connector(last),
        ai_head(n, col),
        ai_head(n, false),
        ai_kids(n, prefix, last, col),
        ai_kids(n, prefix, last, false),
    );
}

proof fn lemma_strips_ai_lines(cs: Seq<TreeNode>, prefix: Seq<char>, col: bool, k: nat)
    requires
        plain_trees(cs),
        plain(prefix),
    ensures
        strips_to(ai_lines(cs, prefix, col, k), ai_lines(cs, prefix, false, k)),
    decreases cs, k,
{
    if k == 0 || k > cs.len() {
        lemma_strips_plain(Seq::<char>::empty());
    } else {
        let last = k - 1 == cs.len() - 1;
        lemma_plain_trees_at(cs, k - 1);
        lemma_strips_ai_line(cs[k - 1], prefix, last, col);
        lemma_strips_ai_lines(cs, prefix, col, (k - 1) as nat);
        lemma_strips_concat(
            ai_lines(cs, prefix, col, (k - 1) as nat),
            ai_lines(cs, prefix, false, (k - 1) as nat),
            ai_line(cs[k - 1], prefix, last, col),
            ai_line(cs[k - 1], prefix, last, false),
        );
    }
}

/// Copying the colored AI view (escape codes stripped) gives the AI view without
/// colors, provided no name holds an escape character.
pub proof fn law_stripped_ai_view_is_plain_ai_view(root: TreeNode, fw: Framework)
    requires
        plain_tree(root),
    ensures
        strip_spec(render_ai_spec(root, fw, true)) == render_ai_spec(root, fw, false),
{
    lemma_strips_ai_view(root, fw, true);
    lemma_strips_whole(render_ai_spec(root, fw, true), render_ai_spec(root, fw, false));
}

proof fn lemma_strips_ai_view(root: TreeNode, fw: Framework, col: bool)
    requires
        plain_tree(root),
    ensures
        strips_to(render_ai_spec(root, fw, col), render_ai_spec(root, fw, false)),
{
    let files = stats_spec(root).files;
    let tokens = token_estimate(tree_chars(root));
    let e = Seq::<char>::empty();
    lemma_view_literals();
    lemma_framework_plain(fw);
    lemma_decimal_plain(files);
    lemma_decimal_plain(tokens);
    let tag = ai_tag(fw, files, tokens);
    assert(plain(tag)) by {
        lemma_plain3("<project_structure lang=\""@, framework_lang(fw), "\" framework=\""@);
        lemma_plain3(
            "<project_structure lang=\""@ + framework_lang(fw) + "\" framework=\""@,
            framework_name(fw),
            "\" files=\""@,
        );
        lemma_plain3(
            "<project_structure lang=\""@ + framework_lang(fw) + "\" framework=\""@ + framework_name(fw)
                + "\" files=\""@,
            decimal(files),
            "\" est_tokens=\""@,
        );
        lemma_plain3(
            "<project_structure lang=\""@ + framework_lang(fw) + "\" framework=\""@ + framework_name(fw)
                + "\" files=\""@ + decimal(files) + "\" est_tokens=\""@,
            decimal(tokens),
            "\">"@,
        );
    }
    let foot = "tokens: ~"@ + decimal(tokens) + "  ·  files: "@ + decimal(files)
        + "  ·  ignored: node_modules .git dist build"@;
    assert(plain(foot)) by {
        lemma_plain3("tokens: ~"@, decimal(tokens), "  ·  files: "@);
        lemma_plain3(
            "tokens: ~"@ + decimal(tokens) + "  ·  files: "@,
            decimal(files),
            "  ·  ignored: node_modules .git dist build"@,
        );
    }
    lemma_plain_concat(root.name@, "/"@);
    lemma_strips_colors(tag, col, root.role, FileCategory::Source);
    lemma_strips_colors(root.name@ + "/"@, col, root.role, FileCategory::Source);
    lemma_strips_colors("</project_structure>"@, col, root.role, FileCategory::Source);
    lemma_strips_colors(foot, col, root.role, FileCategory::Source);
    lemma_strips_plain("\n"@);
    lemma_drawing_plain(e, true);
    lemma_strips_ai_lines(root.children@, e, col, root.children@.len());
    let a1 = c_ai(tag, col) + "\n"@;
    lemma_strips_concat(c_ai(tag, col), tag, "\n"@, "\n"@);
    let a2 = c_dir(root.name@ + "/"@, col) + "\n"@;
    lemma_strips_concat(c_dir(root.name@ + "/"@, col), root.name@ + "/"@, "\n"@, "\n"@);
    let kids = ai_lines(root.children@, e, col, root.children@.len());
    let kids0 = ai_lines(root.children@, e, false, root.children@.len());
    let a3 = c_ai("</project_structure>"@, col) + "\n"@ + "\n"@;
    lemma_strips3(c_ai("</project_structure>"@, col), "</project_structure>"@, "\n"@, "\n"@, "\n"@, "\n"@);
    let a4 = c_dim(foot, col) + "\n"@;
    lemma_strips_concat(c_dim(foot, col), foot, "\n"@, "\n"@);
    lemma_strips3(a1, tag + "\n"@, a2, root.name@ + "/"@ + "\n"@, kids, kids0);
    lemma_strips3(
        a1 + a2 + kids,
        tag + "\n"@ + (root.name@ + "/"@ + "\n"@) + kids0,
        a3,
        "</project_structure>"@ + "\n"@ + "\n"@,
        a4,
        foot + "\n"@,
    );
    assert(render_ai_spec(root, fw, col) =~= a1 + a2 + kids + a3 + a4);
    assert(render_ai_spec(root, fw, false) =~= tag + "\n"@ + (root.name@ + "/"@ + "\n"@) + kids0 + (
    "</project_structure>"@ + "\n"@ + "\n"@) + (foot + "\n"@));
}


// ───────────────────────────── tree view ─────────────────────────────

proof fn lemma_strips_tree_line(n: TreeNode, prefix: Seq<char>, last: bool, col: bool)
    requires
        plain_tree(n),
        plain(prefix),
    ensures
        strips_to(tree_line(n, prefix, last, col), tree_line(n, prefix, last, false)),
    decreases n, 0nat,
{
    lemma_drawing_plain(prefix, last);
    lemma_view_literals();
    lemma_strips_plain(prefix);
    lemma_strips_plain(connector(last));
    lemma_strips_plain("\n"@);
    lemma_strips_concat(prefix, prefix, connector(last), connector(last));
    let head = prefix + connector(last);
    match n.kind {
        NodeKind::File => {
            lemma_strips_colors(n.name@, col, n.role, FileCategory::Source);
            lemma_strips3(head, head, c_file(n.name@, n.role, col), n.name@, "\n"@, "\n"@);
        },
        NodeKind::Dir => {
            lemma_plain_concat(n.name@, "/"@);
            lemma_strips_colors(n.name@ + "/"@, col, n.role, FileCategory::Source);
            lemma_strips3(head, head, c_dir(n.name@ + "/"@, col), n.name@ + "/"@, "\n"@, "\n"@);
            let kids: Seq<char> = if n.children@.len() > 0 {
                tree_lines(n.children@, next_prefix(prefix, last), col, n.children@.len())
            } else {
                Seq::<char>::empty()
            };
            let kids0: Seq<char> = if n.children@.len() > 0 {
                tree_lines(n.children@, next_prefix(prefix, last), false, n.children@.len())
            } else {
                Seq::<char>::empty()
            };
            if n.children@.len() > 0 {
                assert(decreases_to!(n => n.children));
                lemma_strips_tree_lines(n.children@, next_prefix(prefix, last), col, n.children@.len());
            } else {
                lemma_strips_plain(Seq::<char>::empty());
            }
            lemma_strips_concat(
                head + c_dir(n.name@ + "/"@, col) + "\n"@,
                head + (n.name@ + "/"@) + "\n"@,
                kids,
                kids0,
            );
        },
        NodeKind::Collapsed { .. } => {
            lemma_strips_colors(n.name@, col, n.role, FileCategory::Source);
            lemma_strips3(head, head, c_dim(n.name@, col), n.name@, "\n"@, "\n"@);
        },
    }
}

proof fn lemma_strips_tree_lines(cs: Seq<TreeNode>, prefix: Seq<char>, col: bool, k: nat)
    requires
        plain_trees(cs),
        plain(prefix),
    ensures
        strips_to(tree_lines(cs, prefix, col, k), tree_lines(cs, prefix, false, k)),
    decreases cs, k,
{
    if k == 0 || k > cs.len() {
        lemma_strips_plain(Seq::<char>::empty());
    } else {
        let last = k - 1 == cs.len() - 1;
        lemma_plain_trees_at(cs, k - 1);
        lemma_strips_tree_line(cs[k - 1], prefix, last, col);
        lemma_strips_tree_lines(cs, prefix, col, (k - 1) as nat);
        lemma_strips_concat(
            tree_lines(cs, prefix, col, (k - 1) as nat),
            tree_lines(cs, prefix, false, (k - 1) as nat),
            tree_line(cs[k - 1], prefix, last, col),
            tree_line(cs[k - 1], prefix, last, false),
        );
    }
}

proof fn lemma_strips_tree_view(root: TreeNode, col: bool)
    requires
        plain_tree(root),
    ensures
        strips_to(render_tree_spec(root, col), render_tree_spec(root, false)),
{
    let e = Seq::<char>::empty();
    lemma_drawing_plain(e, true);
    lemma_view_literals();
    lemma_plain_concat(root.name@, "/"@);
    lemma_strips_colors(root.name@ + "/"@, col, root.role, FileCategory::Source);
    lemma_strips_plain("\n"@);
    lemma_strips_tree_lines(root.children@, e, col, root.children@.len());
    lemma_strips3(
        c_dir(root.name@ + "/"@, col),
        root.name@ + "/"@,
        "\n"@,
        "\n"@,
        tree_lines(root.children@, e, col, root.children@.len()),
        tree_lines(root.children@, e, false, root.children@.len()),
    );
}

/// Copying the colored tree (with its escape codes stripped) gives the tree as printed
/// without colors, provided no name holds an escape character.
pub proof fn law_stripped_tree_is_plain_tree(root: TreeNode)
    requires
        plain_tree(root),
    ensures
        strip_spec(render_tree_spec(root, true)) == render_tree_spec(root, false),
{
    lemma_strips_tree_view(root, true);
    lemma_strips_whole(render_tree_spec(root, true), render_tree_spec(root, false));
}


// ───────────────────────────── flat view and focus ─────────────────────────────

/// No name, path or extension in the tree holds an escape character.
pub open spec fn clean_tree(n: TreeNode) -> bool
    decreases n, 1nat,
{
    &&& plain(n.name@)
    &&& plain(n.path@)
    &&& (n.ext matches Some(e) ==> plain(e@))
    &&& clean_trees(n.children@)
}

pub open spec fn clean_trees(cs: Seq<TreeNode>) -> bool
    decreases cs, 0nat,
{
    if cs.len() == 0 {
        true
    } else {
        clean_trees(cs.drop_last()) && clean_tree(cs.last())
    }
}

proof fn lemma_clean_is_plain(n: TreeNode)
    requires
        clean_tree(n),
    ensures
        plain_tree(n),
    decreases n, 1nat,
{
    assert(decreases_to!(n => n.children));
    lemma_clean_trees_plain(n.children@);
}

proof fn lemma_clean_trees_plain(cs: Seq<TreeNode>)
    requires
        clean_trees(cs),
    ensures
        plain_trees(cs),
    decreases cs, 0nat,
{
    if cs.len() > 0 {
        lemma_clean_trees_plain(cs.drop_last());
        lemma_clean_is_plain(cs.last());
    }
}

/// Every text of `ps` is plain.
pub open spec fn all_plain(ps: Seq<Seq<char>>) -> bool {
    forall|i: int| 0 <= i < ps.len() ==> plain(#[trigger] ps[i])
}

proof fn lemma_all_plain_concat(a: Seq<Seq<char>>, b: Seq<Seq<char>>)
    requires
        all_plain(a),
        all_plain(b),
    ensures
        all_plain(a + b),
{
    assert forall|i: int| 0 <= i < (a + b).len() implies plain(#[trigger] (a + b)[i]) by {
        if i < a.len() {
            assert((a + b)[i] == a[i]);
        } else {
            assert((a + b)[i] == b[i - a.len()]);
        }
    }
}

proof fn lemma_plain_skip(p: Seq<char>, k: int)
    requires
        plain(p),
        0 <= k <= p.len(),
    ensures
        plain(p.skip(k)),
{
    if p.skip(k).contains('\x1b') {
        let j = choose|j: int| 0 <= j < p.skip(k).len() && p.skip(k)[j] == '\x1b';
        assert(p[j + k] == '\x1b');
    }
}

proof fn lemma_plain_take(p: Seq<char>, k: int)
    requires
        plain(p),
        0 <= k <= p.len(),
    ensures
        plain(p.take(k)),
{
    if p.take(k).contains('\x1b') {
        let j = choose|j: int| 0 <= j < p.take(k).len() && p.take(k)[j] == '\x1b';
        assert(p[j] == '\x1b');
    }
}

proof fn lemma_plain_rel_path(p: Seq<char>, base: Seq<char>)
    requires
        plain(p),
    ensures
        rel_path(p, base) matches Some(r) ==> plain(r),
{
    let b = trim_end_by(base, CharClass::One('/'));
    if p.len() >= 1 {
        lemma_plain_skip(p, 1);
    }
    if b.len() + 1 <= p.len() {
        lemma_plain_skip(p, b.len() + 1 as int);
    }
    lemma_plain_take(p, 0);
    assert(p.take(0) =~= Seq::<char>::empty());
}

proof fn lemma_plain_strip_tail(p: Seq<char>)
    requires
        plain(p),
    ensures
        plain(strip_tail(p)),
    decreases p.len(),
{
    if p.len() > 0 && p.last() == '/' {
        lemma_plain_take(p, p.len() - 1);
        assert(p.drop_last() =~= p.take(p.len() - 1));
        lemma_plain_strip_tail(p.drop_last());
    } else if p.len() >= 2 && p.last() == '.' && p[p.len() - 2] == '/' {
        lemma_plain_take(p, p.len() - 2);
        lemma_plain_strip_tail(p.take(p.len() - 2));
    }
}

proof fn lemma_plain_after_last(s: Seq<char>, c: char)
    requires
        plain(s),
    ensures
        plain(after_last(s, c)),
    decreases s.len(),
{
    if s.len() > 0 && s.last() != c {
        lemma_plain_take(s, s.len() - 1);
        assert(s.drop_last() =~= s.take(s.len() - 1));
        lemma_plain_after_last(s.drop_last(), c);
        let r = after_last(s, c);
        if r.contains('\x1b') {
            let j = choose|j: int| 0 <= j < r.len() && r[j] == '\x1b';
            if j < r.len() - 1 {
                assert(after_last(s.drop_last(), c)[j] == '\x1b');
            } else {
                assert(s[s.len() - 1] == '\x1b');
            }
        }
    } else if s.len() > 0 {
        assert(!Seq::<char>::empty().contains('\x1b'));
    }
}

proof fn lemma_plain_file_name(p: Seq<char>)
    requires
        plain(p),
    ensures
        file_name(p) matches Some(n) ==> plain(n),
{
    lemma_plain_strip_tail(p);
    lemma_plain_after_last(strip_tail(p), '/');
}

proof fn lemma_flat_plain(n: TreeNode, base: Seq<char>)
    requires
        clean_tree(n),
    ensures
        all_plain(flat_node(n, base)),
    decreases n, 1nat,
{
    match n.kind {
        NodeKind::File => {
            lemma_plain_rel_path(n.path@, base);
        },
        NodeKind::Dir => {
            assert(decreases_to!(n => n.children));
            lemma_flat_list_plain(n.children@, base);
        },
        NodeKind::Collapsed { .. } => {},
    }
}

proof fn lemma_flat_list_plain(cs: Seq<TreeNode>, base: Seq<char>)
    requires
        clean_trees(cs),
    ensures
        all_plain(flat_list(cs, base)),
    decreases cs, 0nat,
{
    if cs.len() > 0 {
        lemma_flat_list_plain(cs.drop_last(), base);
        lemma_flat_plain(cs.last(), base);
        lemma_all_plain_concat(flat_list(cs.drop_last(), base), flat_node(cs.last(), base));
    }
}

proof fn lemma_path_lines_plain(ps: Seq<Seq<char>>)
    requires
        all_plain(ps),
    ensures
        plain(path_lines(ps)),
    decreases ps.len(),
{
    lemma_view_literals();
    if ps.len() > 0 {
        assert(all_plain(ps.drop_last())) by {
            assert forall|i: int| 0 <= i < ps.drop_last().len() implies plain(
                #[trigger] ps.drop_last()[i],
            ) by {
                assert(ps.drop_last()[i] == ps[i]);
            }
        }
        lemma_path_lines_plain(ps.drop_last());
        assert(plain(ps[ps.len() - 1]));
        lemma_plain3(path_lines(ps.drop_last()), ps.last(), "\n"@);
    } else {
        assert(!Seq::<char>::empty().contains('\x1b'));
    }
}

proof fn lemma_strips_flat_view(root: TreeNode, base: Seq<char>, col: bool)
    requires
        clean_tree(root),
    ensures
        strips_to(render_flat_spec(root, base, col), render_flat_spec(root, base, false)),
{
    let ps = flat_node(root, base);
    lemma_view_literals();
    lemma_flat_plain(root, base);
    lemma_path_lines_plain(ps);
    lemma_decimal_plain(ps.len());
    lemma_decimal_plain(flat_tokens(ps));
    let h = "# directree --flat  ("@ + decimal(ps.len()) + " paths)\n"@;
    lemma_plain3("# directree --flat  ("@, decimal(ps.len()), " paths)\n"@);
    let f = decimal(ps.len()) + " paths  ·  ~"@ + decimal(flat_tokens(ps)) + " tokens"@;
    lemma_plain3(decimal(ps.len()), " paths  ·  ~"@, decimal(flat_tokens(ps)));
    lemma_plain_concat(decimal(ps.len()) + " paths  ·  ~"@ + decimal(flat_tokens(ps)), " tokens"@);
    lemma_strips_colors(h, col, root.role, FileCategory::Source);
    lemma_strips_colors(f, col, root.role, FileCategory::Source);
    lemma_strips_plain(path_lines(ps));
    lemma_strips_plain("\n"@);
    lemma_strips3(c_dim(h, col), h, path_lines(ps), path_lines(ps), "\n"@, "\n"@);
    lemma_strips3(
        c_dim(h, col) + path_lines(ps) + "\n"@,
        h + path_lines(ps) + "\n"@,
        c_dim(f, col),
        f,
        "\n"@,
        "\n"@,
    );
}

/// Copying the colored flat view (escape codes stripped) gives the flat view without
/// colors, provided no path holds an escape character.
pub proof fn law_stripped_flat_view_is_plain_flat_view(root: TreeNode, base: Seq<char>)
    requires
        clean_tree(root),
    ensures
        strip_spec(render_flat_spec(root, base, true)) == render_flat_spec(root, base, false),
{
    lemma_strips_flat_view(root, base, true);
    lemma_strips_whole(render_flat_spec(root, base, true), render_flat_spec(root, base, false));
}

proof fn lemma_focus_header_plain(root: Seq<char>, scan_root: Seq<char>)
    requires
        plain(root),
        plain(scan_root),
    ensures
        plain(focus_header(root, scan_root)),
{
    lemma_view_literals();
    lemma_plain_rel_path(scan_root, root);
    lemma_plain_file_name(root);
    let r: Seq<char> = match rel_path(scan_root, root) {
        Some(x) => x,
        None => Seq::empty(),
    };
    let n: Seq<char> = match file_name(root) {
        Some(x) => x,
        None => "."@,
    };
    assert(!Seq::<char>::empty().contains('\x1b'));
    lemma_plain3("# focus: ./"@, r, "\n# project root: "@);
    lemma_plain3("# focus: ./"@ + r + "\n# project root: "@, n, "/\n\n"@);
}


// ───────────────────────────── group view ─────────────────────────────

pub open spec fn entries_plain(es: Seq<(Seq<char>, FileRole)>) -> bool {
    forall|i: int| 0 <= i < es.len() ==> plain(#[trigger] es[i].0)
}

proof fn lemma_entries_plain_concat(a: Seq<(Seq<char>, FileRole)>, b: Seq<(Seq<char>, FileRole)>)
    requires
        entries_plain(a),
        entries_plain(b),
    ensures
        entries_plain(a + b),
{
    assert forall|i: int| 0 <= i < (a + b).len() implies plain(#[trigger] (a + b)[i].0) by {
        if i < a.len() {
            assert((a + b)[i] == a[i]);
        } else {
            assert((a + b)[i] == b[i - a.len()]);
        }
    }
}

proof fn lemma_file_entries_plain(n: TreeNode, base: Seq<char>)
    requires
        clean_tree(n),
    ensures
        entries_plain(file_entries(n, base)),
    decreases n, 1nat,
{
    match n.kind {
        NodeKind::File => {
            lemma_plain_rel_path(n.path@, base);
        },
        NodeKind::Dir => {
            assert(decreases_to!(n => n.children));
            lemma_file_entries_list_plain(n.children@, base);
        },
        NodeKind::Collapsed { .. } => {},
    }
}

proof fn lemma_file_entries_list_plain(cs: Seq<TreeNode>, base: Seq<char>)
    requires
        clean_trees(cs),
    ensures
        entries_plain(file_entries_list(cs, base)),
    decreases cs, 0nat,
{
    if cs.len() > 0 {
        lemma_file_entries_list_plain(cs.drop_last(), base);
        lemma_file_entries_plain(cs.last(), base);
        lemma_entries_plain_concat(file_entries_list(cs.drop_last(), base), file_entries(cs.last(), base));
    }
}

proof fn lemma_in_category_plain(es: Seq<(Seq<char>, FileRole)>, c: FileCategory)
    requires
        entries_plain(es),
    ensures
        entries_plain(in_category(es, c)),
    decreases es.len(),
{
    if es.len() > 0 {
        assert(entries_plain(es.drop_last())) by {
            assert forall|i: int| 0 <= i < es.drop_last().len() implies plain(
                #[trigger] es.drop_last()[i].0,
            ) by {
                assert(es.drop_last()[i] == es[i]);
            }
        }
        lemma_in_category_plain(es.drop_last(), c);
        assert(plain(es[es.len() - 1].0));
    }
}

proof fn lemma_repeat_plain(s: Seq<char>, n: nat)
    requires
        plain(s),
    ensures
        plain(repeat_text(s, n)),
    decreases n,
{
    if n > 0 {
        lemma_repeat_plain(s, (n - 1) as nat);
        lemma_plain_concat(repeat_text(s, (n - 1) as nat), s);
    } else {
        assert(!Seq::<char>::empty().contains('\x1b'));
    }
}

proof fn lemma_group_header_plain(c: FileCategory)
    ensures
        plain(group_header(c)),
{
    lemma_view_literals();
    let h = "── "@ + category_label(c) + " "@;
    lemma_plain3("── "@, category_label(c), " "@);
    let pad: nat = if utf8_len(h) < 44 {
        (44 - utf8_len(h)) as nat
    } else {
        0
    };
    lemma_repeat_plain("─"@, pad);
    lemma_plain3(h, repeat_text("─"@, pad), "\n"@);
}

proof fn lemma_strips_group_lines(items: Seq<(Seq<char>, FileRole)>, c: FileCategory, col: bool)
    requires
        entries_plain(items),
    ensures
        strips_to(group_lines(items, c, col), group_lines(items, c, false)),
    decreases items.len(),
{
    lemma_view_literals();
    if items.len() == 0 {
        lemma_strips_plain(Seq::<char>::empty());
    } else {
        let (p, role) = items.last();
        assert(plain(items[items.len() - 1].0));
        assert(entries_plain(items.drop_last())) by {
            assert forall|i: int| 0 <= i < items.drop_last().len() implies plain(
                #[trigger] items.drop_last()[i].0,
            ) by {
                assert(items.drop_last()[i] == items[i]);
            }
        }
        lemma_strips_group_lines(items.drop_last(), c, col);
        lemma_strips_colors(p, col, role, c);
        lemma_strips_file_ann(role, col);
        lemma_strips_plain("\n"@);
        lemma_strips3(
            group_lines(items.drop_last(), c, col),
            group_lines(items.drop_last(), c, false),
            group_color(c, p, col),
            p,
            file_ann_text(role, col),
            file_ann_text(role, false),
        );
        lemma_strips_concat(
            group_lines(items.drop_last(), c, col) + group_color(c, p, col) + file_ann_text(role, col),
            group_lines(items.drop_last(), c, false) + p + file_ann_text(role, false),
            "\n"@,
            "\n"@,
        );
    }
}

proof fn lemma_strips_group_section(es: Seq<(Seq<char>, FileRole)>, c: FileCategory, col: bool)
    requires
        entries_plain(es),
    ensures
        strips_to(group_section(es, c, col), group_section(es, c, false)),
{
    lemma_view_literals();
    let items = in_category(es, c);
    if items.len() == 0 {
        lemma_strips_plain(Seq::<char>::empty());
    } else {
        lemma_in_category_plain(es, c);
        lemma_group_header_plain(c);
        lemma_strips_colors(group_header(c), col, FileRole::Unknown, c);
        lemma_strips_group_lines(items, c, col);
        lemma_strips_plain("\n"@);
        lemma_strips3(
            c_dim(group_header(c), col),
            group_header(c),
            group_lines(items, c, col),
            group_lines(items, c, false),
            "\n"@,
            "\n"@,
        );
    }
}

proof fn lemma_strips_group_view(root: TreeNode, base: Seq<char>, col: bool)
    requires
        clean_tree(root),
    ensures
        strips_to(render_group_spec(root, base, col), render_group_spec(root, base, false)),
{
    let es = file_entries(root, base);
    lemma_file_entries_plain(root, base);
    lemma_strips_group_section(es, FileCategory::Source, col);
    lemma_strips_group_section(es, FileCategory::Config, col);
    lemma_strips_group_section(es, FileCategory::Test, col);
    lemma_strips_group_section(es, FileCategory::Asset, col);
    lemma_strips_group_section(es, FileCategory::Docs, col);
    lemma_strips3(
        group_section(es, FileCategory::Source, col),
        group_section(es, FileCategory::Source, false),
        group_section(es, FileCategory::Config, col),
        group_section(es, FileCategory::Config, false),
        group_section(es, FileCategory::Test, col),
        group_section(es, FileCategory::Test, false),
    );
    lemma_strips3(
        group_section(es, FileCategory::Source, col) + group_section(es, FileCategory::Config, col)
            + group_section(es, FileCategory::Test, col),
        group_section(es, FileCategory::Source, false) + group_section(es, FileCategory::Config, false)
            + group_section(es, FileCategory::Test, false),
        group_section(es, FileCategory::Asset, col),
        group_section(es, FileCategory::Asset, false),
        group_section(es, FileCategory::Docs, col),
        group_section(es, FileCategory::Docs, false),
    );
}

/// Copying the colored grouped view (escape codes stripped) gives the grouped view
/// without colors, provided no path holds an escape character.
pub proof fn law_stripped_group_view_is_plain_group_view(root: TreeNode, base: Seq<char>)
    requires
        clean_tree(root),
    ensures
        strip_spec(render_group_spec(root, base, true)) == render_group_spec(root, base, false),
{
    lemma_strips_group_view(root, base, true);
    lemma_strips_whole(render_group_spec(root, base, true), render_group_spec(root, base, false));
}

// ───────────────────────────── statistics ─────────────────────────────

pub open spec fn keys_plain(t: Seq<(Seq<char>, nat)>) -> bool {
    forall|i: int| 0 <= i < t.len() ==> plain(#[trigger] t[i].0)
}

proof fn lemma_bump_plain(t: Seq<(Seq<char>, nat)>, e: Seq<char>)
    requires
        keys_plain(t),
        plain(e),
    ensures
        keys_plain(bump(t, e)),
    decreases t.len(),
{
    let b = bump(t, e);
    if t.len() == 0 {
    } else if t[0].0 == e {
        assert forall|i: int| 0 <= i < b.len() implies plain(#[trigger] b[i].0) by {
            if i > 0 {
                assert(b[i] == t[i]);
            }
        }
    } else if seq_lt(e, t[0].0) {
        assert forall|i: int| 0 <= i < b.len() implies plain(#[trigger] b[i].0) by {
            if i > 0 {
                assert(b[i] == t[i - 1]);
            }
        }
    } else {
        let rest = t.drop_first();
        assert(keys_plain(rest)) by {
            assert forall|i: int| 0 <= i < rest.len() implies plain(#[trigger] rest[i].0) by {
                assert(rest[i] == t[i + 1]);
            }
        }
        lemma_bump_plain(rest, e);
        assert forall|i: int| 0 <= i < b.len() implies plain(#[trigger] b[i].0) by {
            if i > 0 {
                assert(b[i] == bump(rest, e)[i - 1]);
            } else {
                assert(b[0] == t[0]);
            }
        }
    }
}

proof fn lemma_stats_node_plain(acc: StatsModel, n: TreeNode)
    requires
        keys_plain(acc.by_ext),
        clean_tree(n),
    ensures
        keys_plain(add_node(acc, n).by_ext),
    decreases n, 1nat,
{
    match n.kind {
        NodeKind::Dir => {
            assert(decreases_to!(n => n.children));
            lemma_stats_list_plain(StatsModel { dirs: acc.dirs + 1, ..acc }, n.children@);
        },
        NodeKind::File => {
            if let Some(e) = n.ext {
                lemma_bump_plain(acc.by_ext, e@);
            }
        },
        NodeKind::Collapsed { .. } => {},
    }
}

proof fn lemma_stats_list_plain(acc: StatsModel, cs: Seq<TreeNode>)
    requires
        keys_plain(acc.by_ext),
        clean_trees(cs),
    ensures
        keys_plain(add_list(acc, cs).by_ext),
    decreases cs, 0nat,
{
    if cs.len() > 0 {
        lemma_stats_list_plain(acc, cs.drop_last());
        lemma_stats_node_plain(add_list(acc, cs.drop_last()), cs.last());
    }
}

proof fn lemma_first_below_le(t: Seq<(Seq<char>, nat)>, c: nat)
    ensures
        first_below(t, c) <= t.len(),
    decreases t.len(),
{
    if t.len() > 0 && t[0].1 >= c {
        lemma_first_below_le(t.drop_first(), c);
    }
}

proof fn lemma_by_count_plain(t: Seq<(Seq<char>, nat)>)
    requires
        keys_plain(t),
    ensures
        keys_plain(by_count(t)),
    decreases t.len(),
{
    if t.len() > 0 {
        assert(keys_plain(t.drop_last())) by {
            assert forall|i: int| 0 <= i < t.drop_last().len() implies plain(#[trigger] t.drop_last()[i].0) by {
                assert(t.drop_last()[i] == t[i]);
            }
        }
        lemma_by_count_plain(t.drop_last());
        let s = by_count(t.drop_last());
        let x = t.last();
        assert(plain(t[t.len() - 1].0));
        lemma_first_below_le(s, x.1);
        let k = first_below(s, x.1) as int;
        let r = insert_by_count(s, x);
        assert(r.len() == s.len() + 1);
        assert forall|i: int| 0 <= i < r.len() implies plain(#[trigger] r[i].0) by {
            if i < k {
                assert(r[i] == s[i]);
            } else if i > k {
                assert(r[i] == s[i - 1]);
            }
        }
    }
}

proof fn lemma_join_plain(parts: Seq<Seq<char>>, sep: Seq<char>)
    requires
        all_plain(parts),
        plain(sep),
    ensures
        plain(join(parts, sep)),
    decreases parts.len(),
{
    if parts.len() == 0 {
        assert(!Seq::<char>::empty().contains('\x1b'));
    } else if parts.len() > 1 {
        assert(all_plain(parts.drop_last())) by {
            assert forall|i: int| 0 <= i < parts.drop_last().len() implies plain(
                #[trigger] parts.drop_last()[i],
            ) by {
                assert(parts.drop_last()[i] == parts[i]);
            }
        }
        lemma_join_plain(parts.drop_last(), sep);
        assert(plain(parts[parts.len() - 1]));
        lemma_plain3(join(parts.drop_last(), sep), sep, parts.last());
    } else {
        assert(plain(parts[0]));
    }
}

proof fn lemma_top_exts_plain(t: Seq<(Seq<char>, nat)>)
    requires
        keys_plain(t),
    ensures
        plain(top_exts(t)),
{
    lemma_view_literals();
    lemma_by_count_plain(t);
    let s = by_count(t);
    let top = if s.len() <= 8 {
        s
    } else {
        s.take(8)
    };
    assert(keys_plain(top)) by {
        assert forall|i: int| 0 <= i < top.len() implies plain(#[trigger] top[i].0) by {
            assert(top[i] == s[i]);
        }
    }
    let parts = top.map_values(|e: (Seq<char>, nat)| ext_entry(e));
    assert(all_plain(parts)) by {
        assert forall|i: int| 0 <= i < parts.len() implies plain(#[trigger] parts[i]) by {
            let e = top[i];
            assert(plain(e.0));
            lemma_decimal_plain(e.1);
            lemma_plain3("."@, e.0, " ("@);
            lemma_plain3("."@ + e.0 + " ("@, decimal(e.1), ")"@);
        }
    }
    lemma_join_plain(parts, "  "@);
}

proof fn lemma_strips_counts_line(st: StatsModel, col: bool)
    ensures
        strips_to(counts_line(st, col), counts_line(st, false)),
{
    lemma_view_literals();
    lemma_decimal_plain(st.files);
    lemma_decimal_plain(st.dirs);
    lemma_decimal_plain(st.source);
    lemma_decimal_plain(st.test);
    lemma_strips_plain("  "@);
    lemma_strips_plain("   "@);
    lemma_strips_plain(" "@);
    lemma_strips_plain("\n"@);
    lemma_strips_colors("files"@, col, FileRole::Unknown, FileCategory::Source);
    lemma_strips_colors("dirs"@, col, FileRole::Unknown, FileCategory::Source);
    lemma_strips_colors("src"@, col, FileRole::Unknown, FileCategory::Source);
    lemma_strips_colors("tests"@, col, FileRole::Unknown, FileCategory::Source);
    lemma_strips_colors(decimal(st.files), col, FileRole::Unknown, FileCategory::Source);
    lemma_strips_colors(decimal(st.dirs), col, FileRole::Unknown, FileCategory::Source);
    lemma_strips_colors(decimal(st.source), col, FileRole::Unknown, FileCategory::Source);
    lemma_strips_colors(decimal(st.test), col, FileRole::Unknown, FileCategory::Source);
    lemma_strips_concat("  "@, "  "@, c_dim("files"@, col), "files"@);
    lemma_strips_concat("  "@ + c_dim("files"@, col), "  "@ + "files"@, " "@, " "@);
    lemma_strips_concat("  "@ + c_dim("files"@, col) + " "@, "  "@ + "files"@ + " "@, c_green(decimal(st.files), col), decimal(st.files));
    lemma_strips_concat("  "@ + c_dim("files"@, col) + " "@ + c_green(decimal(st.files), col), "  "@ + "files"@ + " "@ + decimal(st.files), "   "@, "   "@);
    lemma_strips_concat("  "@ + c_dim("files"@, col) + " "@ + c_green(decimal(st.files), col) + "   "@, "  "@ + "files"@ + " "@ + decimal(st.files) + "   "@, c_dim("dirs"@, col), "dirs"@);
    lemma_strips_concat("  "@ + c_dim("files"@, col) + " "@ + c_green(decimal(st.files), col) + "   "@ + c_dim("dirs"@, col), "  "@ + "files"@ + " "@ + decimal(st.files) + "   "@ + "dirs"@, " "@, " "@);
    lemma_strips_concat("  "@ + c_dim("files"@, col) + " "@ + c_green(decimal(st.files), col) + "   "@ + c_dim("dirs"@, col) + " "@, "  "@ + "files"@ + " "@ + decimal(st.files) + "   "@ + "dirs"@ + " "@, c_green(decimal(st.dirs), col), decimal(st.dirs));
    lemma_strips_concat("  "@ + c_dim("files"@, col) + " "@ + c_green(decimal(st.files), col) + "   "@ + c_dim("dirs"@, col) + " "@ + c_green(decimal(st.dirs), col), "  "@ + "files"@ + " "@ + decimal(st.files) + "   "@ + "dirs"@ + " "@ + decimal(st.dirs), "   "@, "   "@);
    lemma_strips_concat("  "@ + c_dim("files"@, col) + " "@ + c_green(decimal(st.files), col) + "   "@ + c_dim("dirs"@, col) + " "@ + c_green(decimal(st.dirs), col) + "   "@, "  "@ + "files"@ + " "@ + decimal(st.files) + "   "@ + "dirs"@ + " "@ + decimal(st.dirs) + "   "@, c_dim("src"@, col), "src"@);
    lemma_strips_concat("  "@ + c_dim("files"@, col) + " "@ + c_green(decimal(st.files), col) + "   "@ + c_dim("dirs"@, col) + " "@ + c_green(decimal(st.dirs), col) + "   "@ + c_dim("src"@, col), "  "@ + "files"@ + " "@ + decimal(st.files) + "   "@ + "dirs"@ + " "@ + decimal(st.dirs) + "   "@ + "src"@, " "@, " "@);
    lemma_strips_concat("  "@ + c_dim("files"@, col) + " "@ + c_green(decimal(st.files), col) + "   "@ + c_dim("dirs"@, col) + " "@ + c_green(decimal(st.dirs), col) + "   "@ + c_dim("src"@, col) + " "@, "  "@ + "files"@ + " "@ + decimal(st.files) + "   "@ + "dirs"@ + " "@ + decimal(st.dirs) + "   "@ + "src"@ + " "@, c_green(decimal(st.source), col), decimal(st.source));
    lemma_strips_concat("  "@ + c_dim("files"@, col) + " "@ + c_green(decimal(st.files), col) + "   "@ + c_dim("dirs"@, col) + " "@ + c_green(decimal(st.dirs), col) + "   "@ + c_dim("src"@, col) + " "@ + c_green(decimal(st.source), col), "  "@ + "files"@ + " "@ + decimal(st.files) + "   "@ + "dirs"@ + " "@ + decimal(st.dirs) + "   "@ + "src"@ + " "@ + decimal(st.source), "   "@, "   "@);
    lemma_strips_concat("  "@ + c_dim("files"@, col) + " "@ + c_green(decimal(st.files), col) + "   "@ + c_dim("dirs"@, col) + " "@ + c_green(decimal(st.dirs), col) + "   "@ + c_dim("src"@, col) + " "@ + c_green(decimal(st.source), col) + "   "@, "  "@ + "files"@ + " "@ + decimal(st.files) + "   "@ + "dirs"@ + " "@ + decimal(st.dirs) + "   "@ + "src"@ + " "@ + decimal(st.source) + "   "@, c_dim("tests"@, col), "tests"@);
    lemma_strips_concat("  "@ + c_dim("files"@, col) + " "@ + c_green(decimal(st.files), col) + "   "@ + c_dim("dirs"@, col) + " "@ + c_green(decimal(st.dirs), col) + "   "@ + c_dim("src"@, col) + " "@ + c_green(decimal(st.source), col) + "   "@ + c_dim("tests"@, col), "  "@ + "files"@ + " "@ + decimal(st.files) + "   "@ + "dirs"@ + " "@ + decimal(st.dirs) + "   "@ + "src"@ + " "@ + decimal(st.source) + "   "@ + "tests"@, " "@, " "@);
    lemma_strips_concat("  "@ + c_dim("files"@, col) + " "@ + c_green(decimal(st.files), col) + "   "@ + c_dim("dirs"@, col) + " "@ + c_green(decimal(st.dirs), col) + "   "@ + c_dim("src"@, col) + " "@ + c_green(decimal(st.source), col) + "   "@ + c_dim("tests"@, col) + " "@, "  "@ + "files"@ + " "@ + decimal(st.files) + "   "@ + "dirs"@ + " "@ + decimal(st.dirs) + "   "@ + "src"@ + " "@ + decimal(st.source) + "   "@ + "tests"@ + " "@, c_green(decimal(st.test), col), decimal(st.test));
    lemma_strips_concat("  "@ + c_dim("files"@, col) + " "@ + c_green(decimal(st.files), col) + "   "@ + c_dim("dirs"@, col) + " "@ + c_green(decimal(st.dirs), col) + "   "@ + c_dim("src"@, col) + " "@ + c_green(decimal(st.source), col) + "   "@ + c_dim("tests"@, col) + " "@ + c_green(decimal(st.test), col), "  "@ + "files"@ + " "@ + decimal(st.files) + "   "@ + "dirs"@ + " "@ + decimal(st.dirs) + "   "@ + "src"@ + " "@ + decimal(st.source) + "   "@ + "tests"@ + " "@ + decimal(st.test), "\n"@, "\n"@);
}

proof fn lemma_strips_stats_view(root: TreeNode, col: bool)
    requires
        clean_tree(root),
    ensures
        strips_to(render_stats_spec(root, col), render_stats_spec(root, false)),
{
    let st = stats_spec(root);
    let tokens = token_estimate(tree_chars(root));
    lemma_view_literals();
    assert(keys_plain(zero_stats().by_ext));
    lemma_stats_node_plain(zero_stats(), root);
    lemma_strips_counts_line(st, col);
    lemma_strips_plain("  "@);
    lemma_strips_plain(" "@);
    lemma_strips_plain("\n"@);
    if st.by_ext.len() > 0 {
        lemma_top_exts_plain(st.by_ext);
        lemma_strips_colors("exts:"@, col, FileRole::Unknown, FileCategory::Source);
        lemma_strips_colors(top_exts(st.by_ext), col, FileRole::Unknown, FileCategory::Source);
        lemma_strips3("  "@, "  "@, c_dim("exts:"@, col), "exts:"@, " "@, " "@);
        lemma_strips3(
            "  "@ + c_dim("exts:"@, col) + " "@,
            "  "@ + "exts:"@ + " "@,
            c_dim(top_exts(st.by_ext), col),
            top_exts(st.by_ext),
            "\n"@,
            "\n"@,
        );
    } else {
        lemma_strips_plain(Seq::<char>::empty());
    }
    lemma_decimal_plain(tokens);
    lemma_plain_concat("~"@, decimal(tokens));
    lemma_strips_colors("est. tokens:"@, col, FileRole::Unknown, FileCategory::Source);
    lemma_strips_colors("~"@ + decimal(tokens), col, FileRole::Unknown, FileCategory::Source);
    lemma_strips3("  "@, "  "@, c_dim("est. tokens:"@, col), "est. tokens:"@, " "@, " "@);
    lemma_strips3(
        "  "@ + c_dim("est. tokens:"@, col) + " "@,
        "  "@ + "est. tokens:"@ + " "@,
        c_green("~"@ + decimal(tokens), col),
        "~"@ + decimal(tokens),
        "\n"@,
        "\n"@,
    );
    lemma_strips_colors(stats_rule_top(), col, FileRole::Unknown, FileCategory::Source);
    lemma_strips_colors(stats_rule_bottom(), col, FileRole::Unknown, FileCategory::Source);
    lemma_strips3(
        "\n"@,
        "\n"@,
        c_dim(stats_rule_top(), col),
        stats_rule_top(),
        counts_line(st, col),
        counts_line(st, false),
    );
    lemma_strips3(
        "\n"@ + c_dim(stats_rule_top(), col) + counts_line(st, col),
        "\n"@ + stats_rule_top() + counts_line(st, false),
        exts_line(st.by_ext, col),
        exts_line(st.by_ext, false),
        tokens_line(tokens, col),
        tokens_line(tokens, false),
    );
    lemma_strips_concat(
        "\n"@ + c_dim(stats_rule_top(), col) + counts_line(st, col) + exts_line(st.by_ext, col)
            + tokens_line(tokens, col),
        "\n"@ + stats_rule_top() + counts_line(st, false) + exts_line(st.by_ext, false) + tokens_line(
            tokens,
            false,
        ),
        c_dim(stats_rule_bottom(), col),
        stats_rule_bottom(),
    );
}

/// Copying the colored statistics block (escape codes stripped) gives the block without
/// colors, provided no extension holds an escape character.
pub proof fn law_stripped_stats_are_plain_stats(root: TreeNode)
    requires
        clean_tree(root),
    ensures
        strip_spec(render_stats_spec(root, true)) == render_stats_spec(root, false),
{
    lemma_strips_stats_view(root, true);
    lemma_strips_whole(render_stats_spec(root, true), render_stats_spec(root, false));
}


// ───────────────────────────── a whole run ─────────────────────────────

/// What `--copy` puts on the clipboard: a run's colored output with its escape codes
/// stripped is the output the run prints without colors, whichever view it shows
/// (JSON aside, whose text `serde_json` writes), provided no name, path or extension,
/// nor the project and scanned directories, hold an escape character.
pub proof fn law_copied_output_is_plain_output(
    tree: TreeNode,
    fw: Framework,
    a: ArgsView,
    root: Seq<char>,
    scan_root: Seq<char>,
)
    requires
        clean_tree(tree),
        plain(root),
        plain(scan_root),
        body_kind(a) != BodyKind::Json,
    ensures
        strip_spec(output_spec(tree, fw, a, true, root, scan_root)) == output_spec(
            tree,
            fw,
            a,
            false,
            root,
            scan_root,
        ),
{
    let col = use_color_spec(a, true);
    let e = Seq::<char>::empty();
    lemma_clean_is_plain(tree);
    let head: Seq<char> = if a.focus is Some {
        focus_header(root, scan_root)
    } else {
        e
    };
    if a.focus is Some {
        lemma_focus_header_plain(root, scan_root);
        lemma_strips_plain(focus_header(root, scan_root));
    } else {
        lemma_strips_plain(e);
    }
    match body_kind(a) {
        BodyKind::Ai => lemma_strips_ai_view(tree, fw, col),
        BodyKind::Flat => lemma_strips_flat_view(tree, scan_root, col),
        BodyKind::Group => lemma_strips_group_view(tree, scan_root, col),
        BodyKind::Tree => lemma_strips_tree_view(tree, col),
        BodyKind::Json => {},
    }
    if shows_stats(a) {
        lemma_strips_stats_view(tree, col);
    } else {
        lemma_strips_plain(e);
    }
    let tail: Seq<char> = if shows_stats(a) {
        render_stats_spec(tree, col)
    } else {
        e
    };
    let tail0: Seq<char> = if shows_stats(a) {
        render_stats_spec(tree, false)
    } else {
        e
    };
    lemma_strips3(
        head,
        head,
        body_spec(tree, fw, a, col, scan_root),
        body_spec(tree, fw, a, false, scan_root),
        tail,
        tail0,
    );
    lemma_strips_whole(output_spec(tree, fw, a, true, root, scan_root), output_spec(tree, fw, a, false, root, scan_root));
}

} // verus!
