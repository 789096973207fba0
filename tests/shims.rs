use bundless::shims::{transform_shims, Config, Target};
use bundless::syntax::TOP_LEVEL;
use bundless::{Kind, Node};

fn n(kind: Kind, text: &str, children: Vec<Node>) -> Node {
    Node { kind, text: text.to_string(), ctxt: 0, children }
}

fn id(name: &str) -> Node {
    n(Kind::Ident, name, vec![])
}

fn string(value: &str) -> Node {
    n(Kind::Str, value, vec![])
}

fn meta() -> Node {
    n(Kind::MetaProp, "import.meta", vec![])
}

fn member(obj: Node, prop: &str) -> Node {
    n(Kind::Member, prop, vec![obj])
}

fn call(callee: Node, args: Vec<Node>) -> Node {
    let mut children = vec![callee];
    children.extend(args);
    n(Kind::Call, "", children)
}

fn new_expr(callee: Node, args: Vec<Node>) -> Node {
    let mut children = vec![callee];
    children.extend(args);
    n(Kind::New, "", children)
}

fn log(args: Vec<Node>) -> Node {
    n(Kind::ExprStmt, "", vec![call(member(id("console"), "log"), args)])
}

fn declarator(pat: Node, init: Node) -> Node {
    n(Kind::Declarator, "", vec![pat, init])
}

fn const_decl(name: &str, init: Node) -> Node {
    n(Kind::VarDecl, "const", vec![declarator(id(name), init)])
}

fn arrow() -> Node {
    n(Kind::Arrow, "", vec![n(Kind::Params, "", vec![]), n(Kind::Block, "", vec![])])
}

fn block(stmts: Vec<Node>) -> Node {
    n(Kind::Block, "", stmts)
}

fn fn_decl(name: &str, params: Vec<Node>, body: Vec<Node>) -> Node {
    n(Kind::FnDecl, "", vec![id(name), n(Kind::Params, "", params), block(body)])
}

fn module(items: Vec<Node>) -> Node {
    n(Kind::Module, "", items)
}

fn import_named(source: &str, imported: &str, local: &str) -> Node {
    n(Kind::ImportDecl, source, vec![n(Kind::ImportNamed, imported, vec![id(local)])])
}

fn key_value(key: &str, local: &str) -> Node {
    n(Kind::KeyValuePat, key, vec![id(local)])
}

fn shorthand(name: &str) -> Node {
    n(Kind::AssignPat, "", vec![id(name)])
}

fn object_pat(props: Vec<Node>) -> Node {
    n(Kind::ObjectPat, "", props)
}

/// The tree with every scope token cleared.
fn plain(t: &Node) -> Node {
    Node { kind: t.kind, text: t.text.clone(), ctxt: 0, children: t.children.iter().map(plain).collect() }
}

fn esm() -> Config {
    Config { legacy: false, target: Target::ESM }
}

fn esm_legacy() -> Config {
    Config { legacy: true, target: Target::ESM }
}

fn cjs() -> Config {
    Config { legacy: false, target: Target::CJS }
}

fn run(config: Config, m: Node) -> Node {
    plain(&transform_shims(&config, &m))
}

fn require_prelude(require: &str, create: &str) -> Vec<Node> {
    vec![
        import_named("node:module", "createRequire", create),
        const_decl(require, call(id(create), vec![member(meta(), "url")])),
    ]
}

fn cjs_url() -> Node {
    let req = call(id("require"), vec![string("url")]);
    call(member(call(member(req, "pathToFileURL"), vec![id("__filename")]), "toString"), vec![])
}

#[test]
fn fn_shims_esm() {
    let input = module(vec![log(vec![id("__dirname")]), log(vec![id("__filename")])]);
    let expected = module(vec![log(vec![member(meta(), "dirname")]), log(vec![member(meta(), "filename")])]);
    assert_eq!(run(esm(), input), expected);
}

#[test]
fn shadowed_parameter_is_untouched() {
    let input = module(vec![
        log(vec![id("__dirname")]),
        fn_decl("f", vec![id("__dirname")], vec![log(vec![id("__dirname")])]),
        log(vec![id("__dirname")]),
    ]);
    let expected = module(vec![
        log(vec![member(meta(), "dirname")]),
        fn_decl("f", vec![id("__dirname")], vec![log(vec![id("__dirname")])]),
        log(vec![member(meta(), "dirname")]),
    ]);
    assert_eq!(run(esm(), input), expected);
}

#[test]
fn fn_shims_esm_dirname_shadowing_block_scope() {
    let input = module(vec![
        log(vec![id("__dirname")]),
        block(vec![const_decl("__dirname", string("block")), log(vec![id("__dirname")])]),
        log(vec![id("__dirname")]),
    ]);
    let expected = module(vec![
        log(vec![member(meta(), "dirname")]),
        block(vec![const_decl("__dirname", string("block")), log(vec![id("__dirname")])]),
        log(vec![member(meta(), "dirname")]),
    ]);
    assert_eq!(run(esm(), input), expected);
}

#[test]
fn fn_shims_esm_dirname_shadowing_nested() {
    let inner = fn_decl("inner", vec![], vec![const_decl("__dirname", string("inner")), log(vec![id("__dirname")])]);
    let input = module(vec![
        log(vec![id("__dirname")]),
        fn_decl("outer", vec![], vec![log(vec![id("__dirname")]), inner, log(vec![id("__dirname")])]),
    ]);
    let inner_out =
        fn_decl("inner", vec![], vec![const_decl("__dirname", string("inner")), log(vec![id("__dirname")])]);
    let expected = module(vec![
        log(vec![member(meta(), "dirname")]),
        fn_decl(
            "outer",
            vec![],
            vec![log(vec![member(meta(), "dirname")]), inner_out, log(vec![member(meta(), "dirname")])],
        ),
    ]);
    assert_eq!(run(esm(), input), expected);
}

#[test]
fn resolver_tokens_separate_bindings() {
    let input = module(vec![
        log(vec![id("__dirname")]),
        fn_decl("f", vec![id("__dirname")], vec![log(vec![id("__dirname")])]),
    ]);
    let (resolved, unresolved) = bundless::resolver::resolve_module_tree(&input);
    let free = &resolved.children[0].children[0].children[1];
    assert_eq!(free.ctxt, unresolved);
    let f = &resolved.children[1];
    assert_eq!(f.children[0].ctxt, TOP_LEVEL);
    let param = &f.children[1].children[0];
    let use_in_body = &f.children[2].children[0].children[0].children[1];
    assert_ne!(param.ctxt, unresolved);
    assert_eq!(param.ctxt, use_in_body.ctxt);
}

#[test]
fn fn_shims_esm_legacy() {
    let input = module(vec![
        const_decl("fileURLToPath", arrow()),
        log(vec![id("__dirname")]),
        log(vec![id("__filename")]),
    ]);
    let helper = "fileURLToPath1";
    let dirname = call(id(helper), vec![new_expr(id("URL"), vec![string("."), member(meta(), "url")])]);
    let filename = call(id(helper), vec![member(meta(), "url")]);
    let expected = module(vec![
        import_named("node:url", "fileURLToPath", helper),
        const_decl("fileURLToPath", arrow()),
        log(vec![dirname]),
        log(vec![filename]),
    ]);
    assert_eq!(run(esm_legacy(), input), expected);
}

#[test]
fn fn_shims_esm_legacy_2() {
    let input = module(vec![
        import_named("node:url", "", "fileURLToPath"),
        log(vec![id("__dirname")]),
        log(vec![id("__filename")]),
    ]);
    let dirname = call(id("fileURLToPath"), vec![new_expr(id("URL"), vec![string("."), member(meta(), "url")])]);
    let expected = module(vec![
        import_named("node:url", "", "fileURLToPath"),
        log(vec![dirname]),
        log(vec![call(id("fileURLToPath"), vec![member(meta(), "url")])]),
    ]);
    assert_eq!(run(esm_legacy(), input), expected);
}

#[test]
fn legacy_without_dirname_adds_nothing() {
    let input = module(vec![log(vec![string("x")])]);
    let expected = module(vec![log(vec![string("x")])]);
    assert_eq!(run(esm_legacy(), input), expected);
}

#[test]
fn fn_shims_esm_require() {
    let input = module(vec![
        const_decl("fs", call(id("require"), vec![string("fs")])),
        const_decl("path", call(id("require"), vec![string("path")])),
        log(vec![id("fs"), id("path")]),
    ]);
    let mut items = require_prelude("__require", "_createRequire");
    items.push(const_decl("fs", call(id("__require"), vec![string("fs")])));
    items.push(const_decl("path", call(id("__require"), vec![string("path")])));
    items.push(log(vec![id("fs"), id("path")]));
    assert_eq!(run(esm(), input), module(items));
}

#[test]
fn require_hoisting_is_once_for_many() {
    let mut stmts = vec![];
    for i in 0..5 {
        stmts.push(log(vec![call(id("require"), vec![string(&format!("m{i}"))])]));
    }
    let out = run(esm(), module(stmts));
    assert_eq!(out.children.len(), 7);
    let imports = out.children.iter().filter(|c| c.kind == Kind::ImportDecl).count();
    assert_eq!(imports, 1);
    assert_eq!(&out.children[..2], &require_prelude("__require", "_createRequire")[..]);
    for stmt in &out.children[2..] {
        assert_eq!(stmt.children[0].children[1].children[0], id("__require"));
    }
}

#[test]
fn no_require_no_injection() {
    let input = module(vec![log(vec![id("fs")])]);
    assert_eq!(run(esm(), input), module(vec![log(vec![id("fs")])]));
}

#[test]
fn fn_shims_esm_require_2() {
    let body = vec![n(Kind::Return, "", vec![call(id("require"), vec![string("./module.js")])])];
    let input = module(vec![fn_decl("loadModule", vec![], body)]);
    let mut items = require_prelude("__require", "_createRequire");
    let body_out = vec![n(Kind::Return, "", vec![call(id("__require"), vec![string("./module.js")])])];
    items.push(fn_decl("loadModule", vec![], body_out));
    assert_eq!(run(esm(), input), module(items));
}

#[test]
fn fn_shims_esm_require_4() {
    let input = module(vec![
        const_decl("__require", arrow()),
        const_decl("_createRequire", arrow()),
        const_decl("fs", call(id("require"), vec![string("fs")])),
    ]);
    let mut items = require_prelude("__require1", "_createRequire1");
    items.push(const_decl("__require", arrow()));
    items.push(const_decl("_createRequire", arrow()));
    items.push(const_decl("fs", call(id("__require1"), vec![string("fs")])));
    assert_eq!(run(esm(), input), module(items));
}

#[test]
fn fn_shims_esm_require_create_require_conflict() {
    let input = module(vec![
        const_decl("createRequire", arrow()),
        const_decl("fs", call(id("require"), vec![string("fs")])),
    ]);
    let mut items = require_prelude("__require", "_createRequire");
    items.push(const_decl("createRequire", arrow()));
    items.push(const_decl("fs", call(id("__require"), vec![string("fs")])));
    assert_eq!(run(esm(), input), module(items));
}

#[test]
fn existing_create_require_import_is_reused() {
    let input = module(vec![
        import_named("node:module", "", "createRequire"),
        const_decl("fs", call(id("require"), vec![string("fs")])),
    ]);
    let expected = module(vec![
        const_decl("__require", call(id("createRequire"), vec![member(meta(), "url")])),
        import_named("node:module", "", "createRequire"),
        const_decl("fs", call(id("__require"), vec![string("fs")])),
    ]);
    assert_eq!(run(esm(), input), expected);
}

#[test]
fn fn_shims_esm_require_and_dirname() {
    let input = module(vec![
        const_decl("fs", call(id("require"), vec![string("fs")])),
        log(vec![id("__dirname")]),
    ]);
    let mut items = require_prelude("__require", "_createRequire");
    items.push(const_decl("fs", call(id("__require"), vec![string("fs")])));
    items.push(log(vec![member(meta(), "dirname")]));
    assert_eq!(run(esm(), input), module(items));
}

#[test]
fn fn_shims_cjs() {
    let input = module(vec![
        const_decl("__dirname", string("1")),
        const_decl("__filename", string("2")),
        log(vec![id("__dirname"), id("__filename")]),
        log(vec![member(meta(), "dirname")]),
        log(vec![member(meta(), "filename")]),
    ]);
    let expected = module(vec![
        const_decl("__dirname1", string("1")),
        const_decl("__filename1", string("2")),
        log(vec![id("__dirname1"), id("__filename1")]),
        log(vec![id("__dirname")]),
        log(vec![id("__filename")]),
    ]);
    let out = transform_shims(&cjs(), &input);
    assert_eq!(plain(&out), expected);
    // The inserted references are free; the renamed bindings are not.
    assert_eq!(out.children[3].children[0].children[1].ctxt, bundless::syntax::UNRESOLVED);
    assert_eq!(out.children[0].children[0].children[0].ctxt, TOP_LEVEL);
}

#[test]
fn cjs_destructure_round_trip() {
    let pat = object_pat(vec![shorthand("dirname"), shorthand("filename"), shorthand("url")]);
    let input = module(vec![
        n(Kind::VarDecl, "const", vec![declarator(pat, meta())]),
        log(vec![id("dirname"), id("filename"), id("url")]),
    ]);
    let expected = module(vec![log(vec![id("__dirname"), id("__filename"), cjs_url()])]);
    assert_eq!(run(cjs(), input), expected);
}

#[test]
fn fn_shims_cjs_2() {
    let outer = object_pat(vec![shorthand("dirname"), shorthand("filename")]);
    let inner = object_pat(vec![shorthand("dirname"), shorthand("filename"), shorthand("url")]);
    let input = module(vec![
        n(Kind::VarDecl, "const", vec![declarator(outer, n(Kind::Object, "", vec![]))]),
        block(vec![
            n(Kind::VarDecl, "const", vec![declarator(inner, meta())]),
            log(vec![id("dirname")]),
            log(vec![id("filename")]),
            log(vec![id("url")]),
        ]),
        log(vec![id("dirname")]),
    ]);
    let outer_out = object_pat(vec![shorthand("dirname"), shorthand("filename")]);
    let expected = module(vec![
        n(Kind::VarDecl, "const", vec![declarator(outer_out, n(Kind::Object, "", vec![]))]),
        block(vec![log(vec![id("__dirname")]), log(vec![id("__filename")]), log(vec![cjs_url()])]),
        log(vec![id("dirname")]),
    ]);
    assert_eq!(run(cjs(), input), expected);
}

#[test]
fn fn_shims_cjs_3() {
    let pat = object_pat(vec![key_value("dirname", "d1"), key_value("filename", "f1"), key_value("url", "u1")]);
    let input = module(vec![
        const_decl("d1", string("1")),
        const_decl("f1", string("2")),
        block(vec![
            n(Kind::VarDecl, "const", vec![declarator(pat, meta())]),
            log(vec![id("d1")]),
            log(vec![id("f1")]),
            log(vec![id("u1")]),
        ]),
        log(vec![id("d1")]),
    ]);
    let expected = module(vec![
        const_decl("d1", string("1")),
        const_decl("f1", string("2")),
        block(vec![log(vec![id("__dirname")]), log(vec![id("__filename")]), log(vec![cjs_url()])]),
        log(vec![id("d1")]),
    ]);
    assert_eq!(run(cjs(), input), expected);
}

#[test]
fn cjs_keeps_other_declarators() {
    let pat = object_pat(vec![shorthand("dirname")]);
    let input = module(vec![
        n(Kind::VarDecl, "const", vec![declarator(id("a"), string("x")), declarator(pat, meta())]),
        log(vec![id("a"), id("dirname")]),
    ]);
    let expected = module(vec![
        n(Kind::VarDecl, "const", vec![declarator(id("a"), string("x"))]),
        log(vec![id("a"), id("__dirname")]),
    ]);
    assert_eq!(run(cjs(), input), expected);
}

#[test]
fn unknown_target_changes_nothing() {
    let input = module(vec![log(vec![id("__dirname"), call(id("require"), vec![string("fs")])])]);
    let expected = module(vec![log(vec![id("__dirname"), call(id("require"), vec![string("fs")])])]);
    let config = Config { legacy: false, target: Target::UNKNOWN };
    assert_eq!(run(config, input), expected);
    assert_eq!(Config::new().target, Target::UNKNOWN);
}

#[test]
fn var_in_nested_block_shadows_whole_function() {
    let var_decl = n(Kind::VarDecl, "var", vec![declarator(id("__dirname"), string("x"))]);
    let input = module(vec![
        fn_decl("f", vec![], vec![block(vec![var_decl]), log(vec![id("__dirname")])]),
        log(vec![id("__dirname")]),
    ]);
    let var_out = n(Kind::VarDecl, "var", vec![declarator(id("__dirname"), string("x"))]);
    let expected = module(vec![
        fn_decl("f", vec![], vec![block(vec![var_out]), log(vec![id("__dirname")])]),
        log(vec![member(meta(), "dirname")]),
    ]);
    assert_eq!(run(esm(), input), expected);
}

#[test]
fn top_level_var_in_block_shadows_module() {
    let var_decl = n(Kind::VarDecl, "var", vec![declarator(id("__filename"), string("x"))]);
    let input = module(vec![block(vec![var_decl]), log(vec![id("__filename")])]);
    let var_out = n(Kind::VarDecl, "var", vec![declarator(id("__filename"), string("x"))]);
    let expected = module(vec![block(vec![var_out]), log(vec![id("__filename")])]);
    assert_eq!(run(esm(), input), expected);
}

fn export_decl(decl: Node) -> Node {
    n(Kind::ExportDecl, "", vec![decl])
}

#[test]
fn fn_shims_esm_legacy_exported_helper_name() {
    let input = module(vec![
        export_decl(const_decl("fileURLToPath", arrow())),
        log(vec![id("__dirname")]),
        log(vec![id("__filename")]),
        n(Kind::ExportNamed, "", vec![]),
    ]);
    let helper = "fileURLToPath1";
    let dirname = call(id(helper), vec![new_expr(id("URL"), vec![string("."), member(meta(), "url")])]);
    let expected = module(vec![
        import_named("node:url", "fileURLToPath", helper),
        export_decl(const_decl("fileURLToPath", arrow())),
        log(vec![dirname]),
        log(vec![call(id(helper), vec![member(meta(), "url")])]),
        n(Kind::ExportNamed, "", vec![]),
    ]);
    assert_eq!(run(esm_legacy(), input), expected);
}

#[test]
fn exported_declarations_bind_at_top_level() {
    let input = module(vec![export_decl(const_decl("__dirname", string("x"))), log(vec![id("__dirname")])]);
    let expected = module(vec![export_decl(const_decl("__dirname", string("x"))), log(vec![id("__dirname")])]);
    assert_eq!(run(esm(), input), expected);
}

#[test]
fn loop_head_and_if_branches_scope_correctly() {
    let head = n(Kind::VarDecl, "let", vec![declarator(id("__dirname"), string("x"))]);
    let empty = || n(Kind::Empty, "", vec![]);
    let for_loop = n(Kind::For, "", vec![head, empty(), empty(), block(vec![log(vec![id("__dirname")])])]);
    let test = n(Kind::Binary, "===", vec![id("__filename"), string("a")]);
    let if_stmt = n(Kind::If, "", vec![test, block(vec![log(vec![id("__dirname")])])]);
    let out = run(esm(), module(vec![for_loop, if_stmt]));
    let head_out = n(Kind::VarDecl, "let", vec![declarator(id("__dirname"), string("x"))]);
    let for_out = n(Kind::For, "", vec![head_out, empty(), empty(), block(vec![log(vec![id("__dirname")])])]);
    let test_out = n(Kind::Binary, "===", vec![member(meta(), "filename"), string("a")]);
    let if_out = n(Kind::If, "", vec![test_out, block(vec![log(vec![member(meta(), "dirname")])])]);
    assert_eq!(out, module(vec![for_out, if_out]));
}

#[test]
fn cjs_renames_user_require_binding() {
    let pat = object_pat(vec![shorthand("url")]);
    let input = module(vec![
        const_decl("require", arrow()),
        n(Kind::VarDecl, "const", vec![declarator(pat, meta())]),
        log(vec![id("url"), call(id("require"), vec![])]),
    ]);
    let expected = module(vec![const_decl("require1", arrow()), log(vec![cjs_url(), call(id("require1"), vec![])])]);
    assert_eq!(run(cjs(), input), expected);
}

#[test]
fn cjs_drops_exported_destructure() {
    let pat = object_pat(vec![shorthand("dirname")]);
    let input = module(vec![export_decl(n(Kind::VarDecl, "const", vec![declarator(pat, meta())])), log(vec![id("x")])]);
    assert_eq!(run(cjs(), input), module(vec![log(vec![id("x")])]));
}

#[test]
fn cjs_without_clash_renames_nothing() {
    let input = module(vec![
        const_decl("__dirname", string("1")),
        fn_decl("require", vec![], vec![]),
        log(vec![id("__dirname"), call(id("require"), vec![])]),
    ]);
    let expected = module(vec![
        const_decl("__dirname", string("1")),
        fn_decl("require", vec![], vec![]),
        log(vec![id("__dirname"), call(id("require"), vec![])]),
    ]);
    assert_eq!(run(cjs(), input), expected);
}

#[test]
fn cjs_emptied_declaration_in_single_statement_position() {
    let pat = object_pat(vec![shorthand("dirname")]);
    let var_decl = n(Kind::VarDecl, "var", vec![declarator(pat, meta())]);
    let input = module(vec![n(Kind::If, "", vec![id("x"), var_decl]), log(vec![id("dirname")])]);
    let expected = module(vec![n(Kind::If, "", vec![id("x"), n(Kind::Empty, "", vec![])]), log(vec![id("__dirname")])]);
    assert_eq!(run(cjs(), input), expected);
}

#[test]
fn cjs_keeps_exported_binding_name() {
    let input = module(vec![export_decl(const_decl("__dirname", string("1"))), log(vec![member(meta(), "dirname")])]);
    let expected = module(vec![export_decl(const_decl("__dirname", string("1"))), log(vec![id("__dirname")])]);
    assert_eq!(run(cjs(), input), expected);
}

#[test]
fn cjs_rename_keeps_export_specifier_name() {
    let spec = n(Kind::ExportSpec, "", vec![id("__dirname")]);
    let input = module(vec![
        const_decl("__dirname", string("1")),
        n(Kind::ExportNamed, "", vec![spec]),
        log(vec![member(meta(), "dirname")]),
    ]);
    let spec_out = n(Kind::ExportSpec, "__dirname", vec![id("__dirname1")]);
    let expected = module(vec![
        const_decl("__dirname1", string("1")),
        n(Kind::ExportNamed, "", vec![spec_out]),
        log(vec![id("__dirname")]),
    ]);
    assert_eq!(run(cjs(), input), expected);
}

#[test]
fn cjs_rename_keeps_shorthand_key() {
    let pat = object_pat(vec![shorthand("__filename")]);
    let input = module(vec![
        n(Kind::VarDecl, "const", vec![declarator(pat, id("obj"))]),
        log(vec![id("__filename"), member(meta(), "filename")]),
    ]);
    let pat_out = object_pat(vec![n(Kind::KeyValuePat, "__filename", vec![shorthand("__filename1")])]);
    let expected = module(vec![
        n(Kind::VarDecl, "const", vec![declarator(pat_out, id("obj"))]),
        log(vec![id("__filename1"), id("__filename")]),
    ]);
    assert_eq!(run(cjs(), input), expected);
}
