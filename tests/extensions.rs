use bundless::extensions::{replace_extension, transform_extensions, Config};
use bundless::{Kind, Node};

fn n(kind: Kind, text: &str, children: Vec<Node>) -> Node {
    Node { kind, text: text.to_string(), ctxt: 0, children }
}

fn import_default(source: &str, local: &str) -> Node {
    n(Kind::ImportDecl, source, vec![n(Kind::ImportDefault, "", vec![n(Kind::Ident, local, vec![])])])
}

fn dyn_import(source: &str) -> Node {
    n(Kind::ExprStmt, "", vec![n(Kind::DynImport, "", vec![n(Kind::Str, source, vec![])])])
}

fn sample(a: &str, b: &str, c: &str, d: &str) -> Node {
    n(Kind::Module, "", vec![import_default(a, "a"), import_default(b, "b"), dyn_import(c), dyn_import(d)])
}

fn config(pairs: &[(&str, &str)]) -> Config {
    Config {
        extensions: pairs.iter().map(|(k, v)| (k.to_string(), v.to_string())).collect(),
        source_dir: None,
        current_dir: None,
    }
}

#[test]
fn fn_esm2cjs() {
    let c = config(&[(".js", ".cjs"), (".mjs", ".cjs")]);
    let out = transform_extensions(&c, &sample("./a.js", "./b.mjs", "./c.js", "./d.mjs"));
    assert_eq!(out, sample("./a.cjs", "./b.cjs", "./c.cjs", "./d.cjs"));
}

#[test]
fn fn_esm2cjs_only_src() {
    let mut c = config(&[(".js", ".cjs"), (".mjs", ".cjs")]);
    c.source_dir = Some("/project/src".to_string());
    c.current_dir = Some("/project/src".to_string());
    let input = sample("../compiled/xxx/a.js", "../compiled/xxx/b.mjs", "../compiled/xxx/c.js", "../compiled/xxx/d.mjs");
    let expected =
        sample("../compiled/xxx/a.js", "../compiled/xxx/b.mjs", "../compiled/xxx/c.js", "../compiled/xxx/d.mjs");
    assert_eq!(transform_extensions(&c, &input), expected);
}

#[test]
fn root_boundary_rewrites_inside_only() {
    let mut c = config(&[(".js", ".cjs")]);
    c.source_dir = Some("/project/src".to_string());
    c.current_dir = Some("/project/src".to_string());
    assert_eq!(replace_extension("../compiled/xxx/a.js", &c), None);
    assert_eq!(replace_extension("./a.js", &c), Some("./a.cjs".to_string()));
    assert_eq!(replace_extension("./lib/../a.js", &c), Some("./lib/../a.cjs".to_string()));
    c.current_dir = Some("/project/src/pages".to_string());
    assert_eq!(replace_extension("../a.js", &c), Some("../a.cjs".to_string()));
    assert_eq!(replace_extension("../../a.js", &c), None);
}

#[test]
fn source_dir_is_matched_by_whole_components() {
    let mut c = config(&[(".js", ".cjs")]);
    c.source_dir = Some("/project/src".to_string());
    c.current_dir = Some("/project/srcx".to_string());
    assert_eq!(replace_extension("./a.js", &c), None);
}

#[test]
fn fn_esm2esm() {
    let c = config(&[(".js", ".js"), (".mjs", ".js")]);
    let out = transform_extensions(&c, &sample("./a.js", "./b.mjs", "./c.js", "./d.mjs"));
    assert_eq!(out, sample("./a.js", "./b.js", "./c.js", "./d.js"));
}

#[test]
fn fn_cjs2esm() {
    let c = config(&[(".cjs", ".mjs"), (".js", ".mjs")]);
    let out = transform_extensions(&c, &sample("./a.cjs", "./b.js", "./c.cjs", "./d.js"));
    assert_eq!(out, sample("./a.mjs", "./b.mjs", "./c.mjs", "./d.mjs"));
}

#[test]
fn fn_cjs2cjs() {
    let c = config(&[(".cjs", ".js"), (".js", ".js")]);
    let out = transform_extensions(&c, &sample("./a.cjs", "./b.js", "./c.cjs", "./d.js"));
    assert_eq!(out, sample("./a.js", "./b.js", "./c.js", "./d.js"));
}

#[test]
fn reexports_are_rewritten() {
    let c = config(&[(".ts", ".js")]);
    let spec = n(Kind::ExportSpec, "", vec![n(Kind::Ident, "foo", vec![])]);
    let input = n(Kind::Module, "", vec![n(Kind::ExportAll, "./all.ts", vec![]), n(Kind::ExportFrom, "../foo.ts", vec![spec])]);
    let spec_out = n(Kind::ExportSpec, "", vec![n(Kind::Ident, "foo", vec![])]);
    let expected =
        n(Kind::Module, "", vec![n(Kind::ExportAll, "./all.js", vec![]), n(Kind::ExportFrom, "../foo.js", vec![spec_out])]);
    assert_eq!(transform_extensions(&c, &input), expected);
}

#[test]
fn bare_and_unmapped_specifiers_pass_through() {
    let c = config(&[(".js", ".cjs")]);
    assert_eq!(replace_extension("react.js", &c), None);
    assert_eq!(replace_extension(".hidden.js", &c), None);
    assert_eq!(replace_extension("./style.css", &c), None);
    assert_eq!(replace_extension("/abs/a.js", &c), None);
    let input = sample("lodash", "./b.ts", "pkg/c.js", "./d");
    assert_eq!(transform_extensions(&c, &input), sample("lodash", "./b.ts", "pkg/c.js", "./d"));
}

#[test]
fn dynamic_import_of_non_string_is_kept() {
    let c = config(&[(".js", ".cjs")]);
    let arg = n(Kind::Ident, "path", vec![]);
    let input = n(Kind::DynImport, "", vec![arg]);
    let expected = n(Kind::DynImport, "", vec![n(Kind::Ident, "path", vec![])]);
    assert_eq!(transform_extensions(&c, &input), expected);
}

#[test]
fn extension_match_is_exact_and_order_free() {
    let a = config(&[("js", "X"), ("mjs", "Y")]);
    let b = config(&[("mjs", "Y"), ("js", "X")]);
    for c in [&a, &b] {
        assert_eq!(replace_extension("./a.mjs", c), Some("./a.Y".to_string()));
        assert_eq!(replace_extension("./a.js", c), Some("./a.X".to_string()));
        assert_eq!(replace_extension("./a.cjs", c), None);
    }
    let dotted = config(&[(".js", ".cjs"), ("js", "mjs")]);
    assert_eq!(replace_extension("./a.js", &dotted), Some("./a.cjs".to_string()));
    assert_eq!(replace_extension("./dir.js/file", &dotted), None);
    assert_eq!(replace_extension("./.js", &dotted), None);
}

#[test]
fn relative_current_dir_is_not_rewritten() {
    let mut c = config(&[(".js", ".cjs")]);
    c.source_dir = Some("/project/src".to_string());
    c.current_dir = Some("".to_string());
    assert_eq!(replace_extension("./", &c), None);
    assert_eq!(replace_extension("./a.js", &c), None);
    c.current_dir = Some("src".to_string());
    assert_eq!(replace_extension("../a.js", &c), None);
}

#[test]
fn rewrite_after_confinement_decision() {
    let exts = vec![(".js".to_string(), ".cjs".to_string())];
    assert_eq!(bundless::extensions::rewrite_specifier("./a.js", &exts, true), Some("./a.cjs".to_string()));
    assert_eq!(bundless::extensions::rewrite_specifier("./a.js", &exts, false), None);
    assert_eq!(bundless::extensions::rewrite_specifier("a.js", &exts, true), None);
}
