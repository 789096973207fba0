use bundless::merge::merge_json_values;
use bundless::{Kind, Node};

fn n(kind: Kind, text: &str, children: Vec<Node>) -> Node {
    Node { kind, text: text.to_string(), ctxt: 0, children }
}

fn num(v: i64) -> Node {
    n(Kind::Num, &v.to_string(), vec![])
}

fn string(s: &str) -> Node {
    n(Kind::Str, s, vec![])
}

fn boolean(b: bool) -> Node {
    n(Kind::Bool, if b { "true" } else { "false" }, vec![])
}

fn arr(items: Vec<Node>) -> Node {
    n(Kind::Array, "", items)
}

fn obj(props: Vec<(&str, Node)>) -> Node {
    n(Kind::Object, "", props.into_iter().map(|(k, v)| n(Kind::Prop, k, vec![v])).collect())
}

/// The value with object keys in sorted order, so that objects compare as maps.
fn canon(v: &Node) -> Node {
    let mut children: Vec<Node> = v.children.iter().map(canon).collect();
    if v.kind == Kind::Object {
        children.sort_by(|a, b| a.text.cmp(&b.text));
    }
    Node { kind: v.kind, text: v.text.clone(), ctxt: v.ctxt, children }
}

fn assert_json_eq(a: &Node, b: &Node) {
    assert_eq!(canon(a), canon(b));
}

#[test]
fn test_merge_objects_deeply() {
    let mut base = obj(vec![("foo", obj(vec![("bar", num(3))]))]);
    let overlay = obj(vec![("foo", obj(vec![("baz", num(4))])), ("quux", num(5))]);
    merge_json_values(&mut base, &overlay);
    assert_json_eq(&base, &obj(vec![("foo", obj(vec![("bar", num(3)), ("baz", num(4))])), ("quux", num(5))]));
}

#[test]
fn test_merge_arrays_concatenate() {
    let mut base = obj(vec![("array", arr(vec![num(1), num(2), num(3)]))]);
    let overlay = obj(vec![("array", arr(vec![num(4), num(5), num(6)]))]);
    merge_json_values(&mut base, &overlay);
    assert_json_eq(&base, &obj(vec![("array", arr(vec![num(1), num(2), num(3), num(4), num(5), num(6)]))]));
}

#[test]
fn test_merge_primitives_replace() {
    let mut base = obj(vec![("minify", boolean(true)), ("count", num(42))]);
    let overlay = obj(vec![("minify", boolean(false)), ("count", num(100))]);
    merge_json_values(&mut base, &overlay);
    assert_json_eq(&base, &obj(vec![("minify", boolean(false)), ("count", num(100))]));
}

#[test]
fn test_merge_complex_example() {
    let mut base = obj(vec![
        ("foo", obj(vec![("bar", num(3))])),
        ("array", arr(vec![obj(vec![("does", string("work")), ("too", arr(vec![num(1), num(2), num(3)]))])])),
    ]);
    let overlay = obj(vec![
        ("foo", obj(vec![("baz", num(4))])),
        ("quux", num(5)),
        (
            "array",
            arr(vec![
                obj(vec![("does", string("work")), ("too", arr(vec![num(4), num(5), num(6)]))]),
                obj(vec![("really", string("yes"))]),
            ]),
        ),
    ]);
    merge_json_values(&mut base, &overlay);
    let expected = obj(vec![
        ("foo", obj(vec![("bar", num(3)), ("baz", num(4))])),
        ("quux", num(5)),
        (
            "array",
            arr(vec![
                obj(vec![("does", string("work")), ("too", arr(vec![num(1), num(2), num(3)]))]),
                obj(vec![("does", string("work")), ("too", arr(vec![num(4), num(5), num(6)]))]),
                obj(vec![("really", string("yes"))]),
            ]),
        ),
    ]);
    assert_json_eq(&base, &expected);
}

#[test]
fn test_merge_nested_arrays() {
    let plugin = |name: &str, enabled: bool| {
        obj(vec![("name", string(name)), ("options", obj(vec![("enabled", boolean(enabled))]))])
    };
    let mut base = obj(vec![("plugins", arr(vec![plugin("plugin-a", true)]))]);
    let overlay = obj(vec![("plugins", arr(vec![plugin("plugin-b", false)]))]);
    merge_json_values(&mut base, &overlay);
    let expected = obj(vec![("plugins", arr(vec![plugin("plugin-a", true), plugin("plugin-b", false)]))]);
    assert_json_eq(&base, &expected);
}

#[test]
fn test_merge_empty_objects() {
    let mut base = obj(vec![]);
    let overlay = obj(vec![("foo", string("bar"))]);
    merge_json_values(&mut base, &overlay);
    assert_json_eq(&base, &obj(vec![("foo", string("bar"))]));
}

#[test]
fn test_merge_type_mismatch_replaces() {
    let mut base = obj(vec![("value", arr(vec![num(1), num(2), num(3)]))]);
    let overlay = obj(vec![("value", string("string now"))]);
    merge_json_values(&mut base, &overlay);
    assert_json_eq(&base, &obj(vec![("value", string("string now"))]));
}

#[test]
fn merged_keys_keep_base_order() {
    let mut base = obj(vec![("b", num(1)), ("a", num(2))]);
    merge_json_values(&mut base, &obj(vec![("c", num(3)), ("a", num(4))]));
    assert_eq!(base, obj(vec![("b", num(1)), ("a", num(4)), ("c", num(3))]));
}
