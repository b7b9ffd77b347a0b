//! The JSON rendering of a tree, built with `serde_json`.
use vstd::prelude::*;
use crate::detector::role_annotation;
use crate::tree::{TreeNode, NodeKind};

verus! {

#[verifier::external_type_specification]
#[verifier::external_body]
pub struct ExJsonValue(serde_json::Value);

#[verifier::external_type_specification]
#[verifier::external_body]
pub struct ExJsonError(serde_json::Error);

/// The JSON string value holding the given text.
pub uninterp spec fn json_text_value(s: Seq<char>) -> serde_json::Value;

/// The JSON number value of a count.
pub uninterp spec fn json_count_value(n: usize) -> serde_json::Value;

/// The JSON array of the given values, in order.
pub uninterp spec fn json_array_value(items: Seq<serde_json::Value>) -> serde_json::Value;

/// The JSON object holding the given fields (its map is ordered by key).
pub uninterp spec fn json_object_value(fields: Seq<(Seq<char>, serde_json::Value)>) -> serde_json::Value;

/// The pretty-printed text of a JSON value, `None` where printing it fails.
pub uninterp spec fn json_pretty(v: serde_json::Value) -> Option<Seq<char>>;

/// `serde_json::Value::String`: the string value holding `s`. Its result is taken
/// as a function of `s` alone.
#[verifier::external_body]
fn json_text(s: &str) -> (v: serde_json::Value)
    ensures
        v == json_text_value(s@),
{
    serde_json::Value::String(s.to_string())
}

/// `serde_json::Value::from(usize)`: the number value of `n`, a function of `n` alone.
#[verifier::external_body]
fn json_count(n: usize) -> (v: serde_json::Value)
    ensures
        v == json_count_value(n),
{
    serde_json::Value::from(n)
}

/// `serde_json::Value::Array`: the array of `items`, in their order.
#[verifier::external_body]
fn json_array(items: Vec<serde_json::Value>) -> (v: serde_json::Value)
    ensures
        v == json_array_value(items@),
{
    serde_json::Value::Array(items)
}

/// `serde_json::Value::Object` over a `serde_json::Map` collected from `fields`
/// (a map ordered by key, a later field winning over an earlier one of the same key):
/// a function of the fields alone.
#[verifier::external_body]
fn json_object(fields: Vec<(String, serde_json::Value)>) -> (v: serde_json::Value)
    ensures
        v == json_object_value(fields@.map_values(|f: (String, serde_json::Value)| (f.0@, f.1))),
{
    serde_json::Value::Object(fields.into_iter().collect())
}

/// `serde_json::to_string_pretty` on a value: its text when printing succeeds.
/// Whether it succeeds, and the text, are taken as functions of the value alone.
#[verifier::external_body]
fn pretty(v: &serde_json::Value) -> (r: Result<String, serde_json::Error>)
    ensures
        match r {
            Ok(s) => json_pretty(*v) == Some(s@),
            Err(_) => json_pretty(*v) is None,
        },
{
    serde_json::to_string_pretty(v)
}

pub open spec fn field(key: Seq<char>, v: serde_json::Value) -> (Seq<char>, serde_json::Value) {
    (key, v)
}

/// The JSON value of a node: files carry their extension and role annotation when
/// they have one, directories their children, collapsed runs their pattern and count.
pub open spec fn tree_json(n: TreeNode) -> serde_json::Value
    decreases n, 1nat,
{
    match n.kind {
        NodeKind::File => json_object_value(
            seq![
                field("type"@, json_text_value("file"@)),
                field("name"@, json_text_value(n.name@)),
            ] + (match n.ext {
                Some(e) => seq![field("ext"@, json_text_value(e@))],
                None => Seq::empty(),
            }) + (match role_annotation(n.role) {
                Some(a) => seq![field("role"@, json_text_value(a))],
                None => Seq::empty(),
            }),
        ),
        NodeKind::Dir => json_object_value(
            seq![
                field("type"@, json_text_value("dir"@)),
                field("name"@, json_text_value(n.name@)),
                field("children"@, json_array_value(tree_json_list(n.children@))),
            ],
        ),
        NodeKind::Collapsed { count, pattern } => json_object_value(
            seq![
                field("type"@, json_text_value("collapsed"@)),
                field("pattern"@, json_text_value(pattern@)),
                field("count"@, json_count_value(count)),
            ],
        ),
    }
}

pub open spec fn tree_json_list(cs: Seq<TreeNode>) -> Seq<serde_json::Value>
    decreases cs, 0nat,
{
    if cs.len() == 0 {
        Seq::empty()
    } else {
        tree_json_list(cs.drop_last()).push(tree_json(cs.last()))
    }
}

fn keyed(key: &str, v: serde_json::Value) -> (r: (String, serde_json::Value))
    ensures
        r.0@ == key@,
        r.1 == v,
{
    (key.to_owned(), v)
}

/// The JSON value of a node and everything below it.
pub fn node_to_json(node: &TreeNode) -> (v: serde_json::Value)
    ensures
        v == tree_json(*node),
    decreases node,
{
    let mut fields: Vec<(String, serde_json::Value)> = Vec::new();
    match &node.kind {
        NodeKind::File => {
            fields.push(keyed("type", json_text("file")));
            fields.push(keyed("name", json_text(node.name.as_str())));
            match &node.ext {
                Some(e) => fields.push(keyed("ext", json_text(e.as_str()))),
                None => {},
            }
            match node.role.annotation() {
                Some(a) => fields.push(keyed("role", json_text(a))),
                None => {},
            }
        },
        NodeKind::Dir => {
            let mut items: Vec<serde_json::Value> = Vec::new();
            let mut i: usize = 0;
            assert(node.children@.take(0) =~= Seq::<TreeNode>::empty());
            while i < node.children.len()
                invariant
                    i <= node.children@.len(),
                    items@ == tree_json_list(node.children@.take(i as int)),
                decreases node.children@.len() - i,
            {
                proof {
                    assert(decreases_to!(node => node.children));
                    assert(node.children@.take(i + 1).drop_last() =~= node.children@.take(i as int));
                }
                let c = node_to_json(&node.children[i]);
                items.push(c);
                i += 1;
            }
            assert(node.children@.take(node.children@.len() as int) =~= node.children@);
            fields.push(keyed("type", json_text("dir")));
            fields.push(keyed("name", json_text(node.name.as_str())));
            fields.push(keyed("children", json_array(items)));
        },
        NodeKind::Collapsed { count, pattern } => {
            fields.push(keyed("type", json_text("collapsed")));
            fields.push(keyed("pattern", json_text(pattern.as_str())));
            fields.push(keyed("count", json_count(*count)));
        },
    }
    let ghost fv = fields@.map_values(|f: (String, serde_json::Value)| (f.0@, f.1));
    proof {
        let n: TreeNode = *node;
        match n.kind {
            NodeKind::File => {
                let want = seq![
                    field("type"@, json_text_value("file"@)),
                    field("name"@, json_text_value(n.name@)),
                ] + (match n.ext {
                    Some(e) => seq![field("ext"@, json_text_value(e@))],
                    None => Seq::empty(),
                }) + (match role_annotation(n.role) {
                    Some(a) => seq![field("role"@, json_text_value(a))],
                    None => Seq::empty(),
                });
                assert(fv =~= want);
            },
            NodeKind::Dir => {
                assert(fv =~= seq![
                    field("type"@, json_text_value("dir"@)),
                    field("name"@, json_text_value(node.name@)),
                    field("children"@, json_array_value(tree_json_list(node.children@))),
                ]);
            },
            NodeKind::Collapsed { count, pattern } => {
                assert(fv =~= seq![
                    field("type"@, json_text_value("collapsed"@)),
                    field("pattern"@, json_text_value(pattern@)),
                    field("count"@, json_count_value(count)),
                ]);
            },
        }
    }
    json_object(fields)
}

/// The text of a pretty-printed JSON value, or `{}` where printing failed.
pub fn json_or_empty(printed: Result<String, serde_json::Error>) -> (r: String)
    ensures
        match printed {
            Ok(s) => r@ == s@,
            Err(_) => r@ == "{}"@,
        },
{
    match printed {
        Ok(s) => s,
        Err(_) => String::from_str("{}"),
    }
}

/// The tree as pretty-printed JSON; `{}` where printing fails.
pub fn render_json(root: &TreeNode) -> (r: String)
    ensures
        r@ == match json_pretty(tree_json(*root)) {
            Some(s) => s,
            None => "{}"@,
        },
{
    let v = node_to_json(root);
    json_or_empty(pretty(&v))
}

/// A node's JSON object: `type` then `name`, plus `ext` and `role` for a file that
/// has them and `children` for a directory; a collapsed run gives `type`,
/// `pattern` and `count`.
pub proof fn law_json_fields(n: TreeNode)
    ensures
        n.kind is File && n.ext is None && role_annotation(n.role) is None ==> tree_json(n)
            == json_object_value(
            seq![("type"@, json_text_value("file"@)), ("name"@, json_text_value(n.name@))],
        ),
        n.kind is File && n.ext is Some && role_annotation(n.role) is Some ==> tree_json(n)
            == json_object_value(
            seq![
                ("type"@, json_text_value("file"@)),
                ("name"@, json_text_value(n.name@)),
                ("ext"@, json_text_value(n.ext.unwrap()@)),
                ("role"@, json_text_value(role_annotation(n.role).unwrap())),
            ],
        ),
        n.kind is Dir ==> tree_json(n) == json_object_value(
            seq![
                ("type"@, json_text_value("dir"@)),
                ("name"@, json_text_value(n.name@)),
                ("children"@, json_array_value(tree_json_list(n.children@))),
            ],
        ),
        n.kind matches NodeKind::Collapsed { count, pattern } ==> tree_json(n) == json_object_value(
            seq![
                ("type"@, json_text_value("collapsed"@)),
                ("pattern"@, json_text_value(n.kind->pattern@)),
                ("count"@, json_count_value(n.kind->count)),
            ],
        ),
{
    if n.kind is File {
        let base = seq![("type"@, json_text_value("file"@)), ("name"@, json_text_value(n.name@))];
        let e = Seq::<(Seq<char>, serde_json::Value)>::empty();
        assert(base + e + e =~= base);
        if n.ext is Some && role_annotation(n.role) is Some {
            assert(base + seq![("ext"@, json_text_value(n.ext.unwrap()@))] + seq![
                ("role"@, json_text_value(role_annotation(n.role).unwrap())),
            ] =~= seq![
                ("type"@, json_text_value("file"@)),
                ("name"@, json_text_value(n.name@)),
                ("ext"@, json_text_value(n.ext.unwrap()@)),
                ("role"@, json_text_value(role_annotation(n.role).unwrap())),
            ]);
        }
    }
}
} // verus!
