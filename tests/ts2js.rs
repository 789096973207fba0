use bundless::ts2js::{replace_ts_extension, transform_ts2js, Config};
use bundless::{Kind, Node};

fn n(kind: Kind, text: &str, children: Vec<Node>) -> Node {
    Node { kind, text: text.to_string(), ctxt: 0, children }
}

fn id(name: &str) -> Node {
    n(Kind::Ident, name, vec![])
}

fn sample(src: &str) -> Node {
    n(
        Kind::Module,
        "",
        vec![
            n(Kind::ImportDecl, src, vec![n(Kind::ImportDefault, "", vec![id("a")])]),
            n(Kind::ImportDecl, src, vec![n(Kind::ImportNamed, "", vec![id("b")])]),
            n(Kind::ExportAll, src, vec![]),
            n(Kind::ExportFrom, src, vec![n(Kind::ExportSpec, "", vec![id("foo")])]),
            n(Kind::ExprStmt, "", vec![n(Kind::DynImport, "", vec![n(Kind::Str, src, vec![])])]),
        ],
    )
}

#[test]
fn fn_ts() {
    assert_eq!(transform_ts2js(&Config::new(), &sample("./foo.ts")), sample("./foo.js"));
}

#[test]
fn fn_tsx() {
    assert_eq!(transform_ts2js(&Config::new(), &sample("./foo.tsx")), sample("./foo.js"));
}

#[test]
fn fn_js() {
    assert_eq!(transform_ts2js(&Config::new(), &sample("./foo.js")), sample("./foo.js"));
}

#[test]
fn fn_mts() {
    assert_eq!(transform_ts2js(&Config::new(), &sample("./foo.mts")), sample("./foo.js"));
}

#[test]
fn fn_mts_preserve() {
    let c = Config { preserve_import_extension: true };
    assert_eq!(transform_ts2js(&c, &sample("./foo.mts")), sample("./foo.mjs"));
    assert_eq!(transform_ts2js(&c, &sample("./foo.cts")), sample("./foo.cjs"));
}

#[test]
fn declaration_files_and_packages_are_kept() {
    let c = Config::new();
    assert_eq!(replace_ts_extension("./types.d.ts", &c), None);
    assert_eq!(replace_ts_extension("pkg/index.ts", &c), None);
    assert_eq!(replace_ts_extension("../up.cts", &c), Some("../up.js".to_string()));
}
