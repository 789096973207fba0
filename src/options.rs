//! Build options, and the per-file pass settings derived from them.
use vstd::prelude::*;

use crate::extensions;
use crate::shims;
use crate::text::{has_prefix, join2, owned, starts_with};

verus! {

/// Whether shims run, given as a flag or as an object with a legacy flag.
#[derive(Debug, Clone)]
pub enum Shims {
    Boolean(bool),
    Object { legacy: Option<bool> },
}

impl Default for Shims {
    fn default() -> (r: Self)
        ensures
            r == Shims::Boolean(false),
    {
        Shims::Boolean(false)
    }
}

impl Shims {
    pub fn is_enabled(&self) -> (r: bool)
        ensures
            r == match self {
                Shims::Boolean(v) => *v,
                Shims::Object { .. } => true,
            },
    {
        match self {
            Shims::Boolean(value) => *value,
            Shims::Object { .. } => true,
        }
    }

    pub fn legacy(&self) -> (r: bool)
        ensures
            r == match self {
                Shims::Boolean(_) => false,
                Shims::Object { legacy } => *legacy == Some(true),
            },
    {
        match self {
            Shims::Boolean(_) => false,
            Shims::Object { legacy } => match legacy {
                Some(v) => *v,
                None => false,
            },
        }
    }
}

#[derive(Debug, Clone, Copy, PartialEq, Eq, Structural)]
pub enum JsxRuntime {
    Automatic,
    Classic,
}

impl Default for JsxRuntime {
    fn default() -> (r: Self)
        ensures
            r == JsxRuntime::Classic,
    {
        JsxRuntime::Classic
    }
}

/// The classic JSX runtime, the default of `React`.
pub fn default_jsx_runtime() -> (r: Option<JsxRuntime>)
    ensures
        r == Some(JsxRuntime::Classic),
{
    Some(JsxRuntime::Classic)
}

#[derive(Debug, Clone)]
pub struct React {
    pub jsx_runtime: Option<JsxRuntime>,
}

impl Default for React {
    fn default() -> (r: Self)
        ensures
            r.jsx_runtime == Some(JsxRuntime::Classic),
    {
        React { jsx_runtime: default_jsx_runtime() }
    }
}

/// The module format of the output.
#[derive(Debug, Clone, Copy, PartialEq, Eq, Structural)]
pub enum ModuleType {
    ESM,
    CJS,
}

impl Default for ModuleType {
    fn default() -> (r: Self)
        ensures
            r == ModuleType::ESM,
    {
        ModuleType::ESM
    }
}

impl ModuleType {
    /// The module type name that the compiler's configuration uses.
    pub fn to_string(&self) -> (r: String)
        ensures
            r@ == match self {
                ModuleType::ESM => "es6"@,
                ModuleType::CJS => "commonjs"@,
            },
    {
        match self {
            ModuleType::ESM => owned("es6"),
            ModuleType::CJS => owned("commonjs"),
        }
    }

    /// The short name of the format.
    pub fn get_type(&self) -> (r: String)
        ensures
            r@ == match self {
                ModuleType::ESM => "esm"@,
                ModuleType::CJS => "cjs"@,
            },
    {
        match self {
            ModuleType::ESM => owned("esm"),
            ModuleType::CJS => owned("cjs"),
        }
    }
}

#[derive(Debug, Clone)]
pub struct CSS {
    pub css_modules: Option<String>,
    pub less_compile: bool,
}

impl Default for CSS {
    fn default() -> (r: Self)
        ensures
            r.css_modules is None,
            !r.less_compile,
    {
        CSS { css_modules: None, less_compile: false }
    }
}

impl CSS {
    pub fn css_modules(self, css_modules: &str) -> (r: Self)
        ensures
            r.css_modules matches Some(s) && s@ == css_modules@,
            r.less_compile == self.less_compile,
    {
        CSS { css_modules: Some(owned(css_modules)), ..self }
    }

    pub fn less_compile(self, less_compile: bool) -> (r: Self)
        ensures
            r.less_compile == less_compile,
            r.css_modules == self.css_modules,
    {
        CSS { less_compile, ..self }
    }
}

/// Path aliases: alias name to directory.
#[derive(Debug, Clone)]
pub struct Alias {
    pub paths: Vec<(String, String)>,
}

impl Default for Alias {
    fn default() -> (r: Self)
        ensures
            r.paths@.len() == 1,
            r.paths@[0].0@ == "@"@,
            r.paths@[0].1@ == "./src"@,
    {
        Alias { paths: vec![(owned("@"), owned("./src"))] }
    }
}

/// The default alias table, `@` for `./src`.
pub fn default_alias() -> (r: Option<Alias>)
    ensures
        r matches Some(a) && a.paths@.len() == 1 && a.paths@[0].0@ == "@"@ && a.paths@[0].1@ == "./src"@,
{
    Some(Alias::default())
}

/// Compile-time variables: name to source text.
#[derive(Debug, Clone)]
pub struct Define {
    pub variables: Vec<(String, String)>,
}

impl Default for Define {
    fn default() -> (r: Self)
        ensures
            r.variables@.len() == 0,
    {
        Define { variables: Vec::new() }
    }
}

/// `s` without its trailing slashes.
pub open spec fn trim_slashes(s: Seq<char>) -> Seq<char>
    decreases s.len(),
{
    if s.len() > 0 && s.last() == '/' { trim_slashes(s.drop_last()) } else { s }
}

/// A directory as a relative path pattern base: trailing slashes removed,
/// and `./` put in front unless it starts with a dot.
pub open spec fn formatted_path(s: Seq<char>) -> Seq<char> {
    let t = trim_slashes(s);
    if has_prefix(t, "."@) { t } else { "./"@ + t }
}

pub fn format_path(path: &str) -> (r: String)
    ensures
        r@ == formatted_path(path@),
{
    let mut n = path.unicode_len();
    proof { assert(path@.subrange(0, n as int) =~= path@); }
    while n > 0 && path.get_char(n - 1) == '/'
        invariant
            n <= path@.len(),
            trim_slashes(path@) == trim_slashes(path@.subrange(0, n as int)),
        decreases n,
    {
        proof { assert(path@.subrange(0, n as int).drop_last() =~= path@.subrange(0, n - 1)); }
        n -= 1;
    }
    let t = path.substring_char(0, n);
    proof {
        if n > 0 {
            assert(path@.subrange(0, n as int).last() == path@[n - 1]);
        }
        assert(trim_slashes(path@.subrange(0, n as int)) == path@.subrange(0, n as int));
    }
    if starts_with(t, ".") {
        owned(t)
    } else {
        join2("./", t)
    }
}

impl Alias {
    /// The path patterns of the aliases: `<name>/*` to `<formatted path>/*`.
    pub fn ts_paths(&self) -> (r: Vec<(String, String)>)
        ensures
            r@.len() == self.paths@.len(),
            forall|i: int| 0 <= i < r@.len() ==> {
                &&& #[trigger] r@[i].0@ == self.paths@[i].0@ + "/*"@
                &&& r@[i].1@ == formatted_path(self.paths@[i].1@) + "/*"@
            },
    {
        let mut r: Vec<(String, String)> = Vec::new();
        let mut i: usize = 0;
        while i < self.paths.len()
            invariant
                i <= self.paths@.len(),
                r@.len() == i,
                forall|j: int| 0 <= j < i ==> {
                    &&& #[trigger] r@[j].0@ == self.paths@[j].0@ + "/*"@
                    &&& r@[j].1@ == formatted_path(self.paths@[j].1@) + "/*"@
                },
            decreases self.paths@.len() - i,
        {
            let (name, path) = &self.paths[i];
            let key = join2(name.as_str(), "/*");
            let value = join2(format_path(path.as_str()).as_str(), "/*");
            let ghost before = r@;
            r.push((key, value));
            proof {
                assert(forall|j: int| 0 <= j < i ==> r@[j] == before[j]);
                assert(r@[i as int].0@ == self.paths@[i as int].0@ + "/*"@);
            }
            i += 1;
        }
        r
    }
}

/// The extension of output files: `js` unless the target is node; for node,
/// `mjs` for ESM output in a package that is not a module, `cjs` for CJS
/// output in one that is, `js` otherwise.
pub open spec fn out_ext_spec(format: ModuleType, is_module: bool, is_node: bool) -> Seq<char> {
    if !is_node {
        "js"@
    } else if format == ModuleType::ESM && !is_module {
        "mjs"@
    } else if format == ModuleType::CJS && is_module {
        "cjs"@
    } else {
        "js"@
    }
}

pub fn get_out_ext(format: ModuleType, is_module: bool, is_node: bool) -> (r: String)
    ensures
        r@ == out_ext_spec(format, is_module, is_node),
{
    if !is_node {
        owned("js")
    } else if format == ModuleType::ESM && !is_module {
        owned("mjs")
    } else if format == ModuleType::CJS && is_module {
        owned("cjs")
    } else {
        owned("js")
    }
}

/// Whether a build's format is the package's own: ESM in a module package,
/// CJS in one that is not.
pub fn is_default_format(format: ModuleType, is_module: bool) -> (r: bool)
    ensures
        r == ((format == ModuleType::ESM && is_module) || (format == ModuleType::CJS && !is_module)),
{
    match (format, is_module) {
        (ModuleType::ESM, true) => true,
        (ModuleType::CJS, false) => true,
        _ => false,
    }
}

/// The shims settings of a build in `format`: legacy helpers, lowering for
/// that format.
pub fn shims_config_for(format: ModuleType) -> (r: shims::Config)
    ensures
        r.legacy,
        r.target == match format {
            ModuleType::ESM => shims::Target::ESM,
            ModuleType::CJS => shims::Target::CJS,
        },
{
    shims::Config {
        legacy: true,
        target: match format {
            ModuleType::ESM => shims::Target::ESM,
            ModuleType::CJS => shims::Target::CJS,
        },
    }
}

/// The extension settings of a build: `js`, `mjs` and `cjs` specifiers take
/// the output extension, and `less` becomes `css` when less is compiled.
pub fn extensions_config_for(out_ext: &str, css: &Option<CSS>) -> (r: extensions::Config)
    ensures
        r.source_dir is None,
        r.current_dir is None,
        r.extensions@.len() == if css matches Some(c) && c.less_compile { 4int } else { 3int },
        r.extensions@[0].0@ == "js"@ && r.extensions@[0].1@ == out_ext@,
        r.extensions@[1].0@ == "mjs"@ && r.extensions@[1].1@ == out_ext@,
        r.extensions@[2].0@ == "cjs"@ && r.extensions@[2].1@ == out_ext@,
        css matches Some(c) && c.less_compile ==> r.extensions@[3].0@ == "less"@ && r.extensions@[3].1@ == "css"@,
{
    let mut extensions: Vec<(String, String)> = Vec::new();
    extensions.push((owned("js"), owned(out_ext)));
    extensions.push((owned("mjs"), owned(out_ext)));
    extensions.push((owned("cjs"), owned(out_ext)));
    match css {
        Some(c) => {
            if c.less_compile {
                extensions.push((owned("less"), owned("css")));
            }
        },
        None => {},
    }
    extensions::Config { extensions, source_dir: None, current_dir: None }
}

} // verus!
