use bundless::extensions::Config as ExtConfig;
use bundless::pipeline::{run_pipeline, PassConfig};
use bundless::shims::{Config, Target};
use bundless::{Kind, Node};

fn n(kind: Kind, text: &str, children: Vec<Node>) -> Node {
    Node { kind, text: text.to_string(), ctxt: 0, children }
}

fn plain(t: &Node) -> Node {
    Node { kind: t.kind, text: t.text.clone(), ctxt: 0, children: t.children.iter().map(plain).collect() }
}

#[test]
fn passes_run_in_order() {
    let input = n(
        Kind::Module,
        "",
        vec![
            n(Kind::ImportDecl, "./a.js", vec![]),
            n(Kind::ExprStmt, "", vec![n(Kind::Ident, "VERSION", vec![])]),
            n(Kind::ExprStmt, "", vec![n(Kind::Member, "dirname", vec![n(Kind::MetaProp, "import.meta", vec![])])]),
        ],
    );
    let config = PassConfig {
        define: Some(vec![("VERSION".to_string(), n(Kind::Str, "1.2.3", vec![]))]),
        extensions: Some(ExtConfig {
            extensions: vec![(".js".to_string(), ".cjs".to_string())],
            source_dir: None,
            current_dir: None,
        }),
        shims: Some(Config { legacy: false, target: Target::CJS }),
    };
    let expected = n(
        Kind::Module,
        "",
        vec![
            n(Kind::ImportDecl, "./a.cjs", vec![]),
            n(Kind::ExprStmt, "", vec![n(Kind::Str, "1.2.3", vec![])]),
            n(Kind::ExprStmt, "", vec![n(Kind::Ident, "__dirname", vec![])]),
        ],
    );
    assert_eq!(plain(&run_pipeline(&config, &input)), expected);
    let none = PassConfig { define: None, extensions: None, shims: None };
    assert_eq!(plain(&run_pipeline(&none, &input)), plain(&input));
}
