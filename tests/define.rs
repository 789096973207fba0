use bundless::define::{literal_exec, transform_define, TransformDefine};
use bundless::{Kind, Node};

fn n(kind: Kind, text: &str, children: Vec<Node>) -> Node {
    Node { kind, text: text.to_string(), ctxt: 0, children }
}

fn id(name: &str) -> Node {
    n(Kind::Ident, name, vec![])
}

fn stmt(e: Node) -> Node {
    n(Kind::ExprStmt, "", vec![e])
}

fn member(obj: Node, prop: &str) -> Node {
    n(Kind::Member, prop, vec![obj])
}

fn prop(key: &str, value: Node) -> Node {
    n(Kind::Prop, key, vec![value])
}

fn table(entries: Vec<(&str, Node)>) -> Vec<(String, Node)> {
    entries.into_iter().map(|(k, v)| (k.to_string(), v)).collect()
}

fn module(items: Vec<Node>) -> Node {
    n(Kind::Module, "", items)
}

#[test]
fn fn_ident() {
    let options = table(vec![
        ("STR", n(Kind::Str, "string", vec![])),
        ("NUM", n(Kind::Num, "0", vec![])),
        ("BOOL", n(Kind::Bool, "false", vec![])),
        ("ARR", n(Kind::Array, "", vec![])),
        ("OBJ", n(Kind::Object, "", vec![])),
    ]);
    let assign = |value: Node| {
        stmt(n(Kind::Assign, "=", vec![member(id("window"), "aaa"), n(Kind::Object, "", vec![prop("version", value)])]))
    };
    let decl = assign(id("STR"));
    let input = module(vec![
        stmt(id("STR")),
        stmt(id("NUM")),
        stmt(id("BOOL")),
        stmt(id("ARR")),
        stmt(id("OBJ")),
        stmt(id("NOT_DEF")),
        decl,
    ]);
    let decl_out = assign(n(Kind::Str, "string", vec![]));
    let expected = module(vec![
        stmt(n(Kind::Str, "string", vec![])),
        stmt(n(Kind::Num, "0", vec![])),
        stmt(n(Kind::Bool, "false", vec![])),
        stmt(n(Kind::Array, "", vec![])),
        stmt(n(Kind::Object, "", vec![])),
        stmt(id("NOT_DEF")),
        decl_out,
    ]);
    assert_eq!(transform_define(&options, &input), expected);
}

#[test]
fn member_path_exact_key() {
    let options = table(vec![("process.env.NODE_ENV", n(Kind::Str, "production", vec![]))]);
    let input = stmt(member(member(id("process"), "env"), "NODE_ENV"));
    assert_eq!(transform_define(&options, &input), stmt(n(Kind::Str, "production", vec![])));
}

#[test]
fn member_path_walks_nested_objects() {
    let env = n(Kind::Object, "", vec![prop("NODE_ENV", n(Kind::Str, "test", vec![]))]);
    let options = table(vec![("process", n(Kind::Object, "", vec![prop("env", env)]))]);
    let input = stmt(member(member(id("process"), "env"), "NODE_ENV"));
    assert_eq!(transform_define(&options, &input), stmt(n(Kind::Str, "test", vec![])));
}

#[test]
fn typeof_is_replaced() {
    let options = table(vec![("typeof window", n(Kind::Str, "object", vec![]))]);
    let input = module(vec![stmt(n(Kind::TypeOf, "", vec![id("window")])), stmt(n(Kind::TypeOf, "", vec![id("document")]))]);
    let expected = module(vec![stmt(n(Kind::Str, "object", vec![])), stmt(n(Kind::TypeOf, "", vec![id("document")]))]);
    assert_eq!(transform_define(&options, &input), expected);
}

#[test]
fn null_value_leaves_source_unchanged() {
    let options = table(vec![("DEBUG", n(Kind::Null, "", vec![])), ("a.b", n(Kind::Null, "", vec![]))]);
    let input = module(vec![stmt(id("DEBUG")), stmt(member(id("a"), "b")), stmt(id("MISSING"))]);
    let expected = module(vec![stmt(id("DEBUG")), stmt(member(id("a"), "b")), stmt(id("MISSING"))]);
    assert_eq!(transform_define(&options, &input), expected);
}

#[test]
fn arrays_and_objects_drop_null_members() {
    let arr = n(Kind::Array, "", vec![n(Kind::Num, "1", vec![]), n(Kind::Null, "", vec![]), n(Kind::Bool, "true", vec![])]);
    let obj = n(Kind::Object, "", vec![prop("a", n(Kind::Null, "", vec![])), prop("b", n(Kind::Str, "x", vec![]))]);
    let options = table(vec![("ARR", arr), ("OBJ", obj)]);
    let input = module(vec![stmt(id("ARR")), stmt(id("OBJ"))]);
    let expected = module(vec![
        stmt(n(Kind::Array, "", vec![n(Kind::Num, "1", vec![]), n(Kind::Bool, "true", vec![])])),
        stmt(n(Kind::Object, "", vec![prop("b", n(Kind::Str, "x", vec![]))])),
    ]);
    assert_eq!(transform_define(&options, &input), expected);
    assert_eq!(literal_exec(&n(Kind::Null, "", vec![])), None);
}

#[test]
fn import_bindings_are_never_renamed() {
    let options = table(vec![("VERSION", n(Kind::Str, "1.0.0", vec![]))]);
    let import = n(Kind::ImportDecl, "./v", vec![n(Kind::ImportNamed, "", vec![id("VERSION")])]);
    let input = module(vec![import, stmt(id("VERSION"))]);
    let import_out = n(Kind::ImportDecl, "./v", vec![n(Kind::ImportNamed, "", vec![id("VERSION")])]);
    let expected = module(vec![import_out, stmt(n(Kind::Str, "1.0.0", vec![]))]);
    let pass = TransformDefine::new(options);
    assert_eq!(pass.apply(&input), expected);
}

#[test]
fn fn_typeof() {
    let options = table(vec![("typeof window", n(Kind::Str, "object", vec![]))]);
    let typeof_window = || n(Kind::TypeOf, "", vec![id("window")]);
    let input = module(vec![
        stmt(typeof_window()),
        stmt(n(Kind::Binary, "===", vec![typeof_window(), n(Kind::Str, "object", vec![])])),
    ]);
    let object = || n(Kind::Str, "object", vec![]);
    let expected = module(vec![stmt(object()), stmt(n(Kind::Binary, "===", vec![object(), object()]))]);
    assert_eq!(transform_define(&options, &input), expected);
}

#[test]
fn absent_middle_segment_leaves_chain() {
    let options = table(vec![("NODE_ENV", n(Kind::Str, "x", vec![]))]);
    let input = stmt(member(member(id("process"), "env"), "NODE_ENV"));
    let expected = stmt(member(member(id("process"), "env"), "NODE_ENV"));
    assert_eq!(transform_define(&options, &input), expected);
}

#[test]
fn chain_not_rooted_at_identifier_is_kept() {
    let options = table(vec![("b", n(Kind::Str, "x", vec![]))]);
    let call = n(Kind::Call, "", vec![id("foo")]);
    let input = stmt(member(call, "b"));
    let expected = stmt(member(n(Kind::Call, "", vec![id("foo")]), "b"));
    assert_eq!(transform_define(&options, &input), expected);
}

#[test]
fn typeof_with_null_value_is_kept() {
    let options = table(vec![("typeof window", n(Kind::Null, "", vec![]))]);
    let input = stmt(n(Kind::TypeOf, "", vec![id("window")]));
    let expected = stmt(n(Kind::TypeOf, "", vec![id("window")]));
    assert_eq!(transform_define(&options, &input), expected);
}

#[test]
fn assignment_targets_are_not_replaced() {
    let options = table(vec![("X", n(Kind::Num, "1", vec![])), ("a.b", n(Kind::Num, "2", vec![]))]);
    let input = module(vec![
        stmt(n(Kind::Assign, "=", vec![id("X"), id("X")])),
        stmt(n(Kind::Assign, "=", vec![member(id("a"), "b"), member(id("a"), "b")])),
    ]);
    let expected = module(vec![
        stmt(n(Kind::Assign, "=", vec![id("X"), n(Kind::Num, "1", vec![])])),
        stmt(n(Kind::Assign, "=", vec![member(id("a"), "b"), n(Kind::Num, "2", vec![])])),
    ]);
    assert_eq!(transform_define(&options, &input), expected);
}
