//! Source-to-source rewrite passes over a JavaScript program tree: scope
//! resolution, module-format shims, specifier extension rewriting and
//! compile-time constant folding, run in a fixed order per file.

pub mod define;
pub mod extensions;
pub mod hygiene;
pub mod js_compiler;
pub mod lint;
pub mod merge;
pub mod options;
pub mod pipeline;
pub mod resolver;
pub mod shims;
pub mod syntax;
pub mod text;
pub mod ts2js;
pub mod walk_patterns;

pub use options::{default_alias, default_jsx_runtime, Alias, Define, JsxRuntime, ModuleType, React, Shims, CSS};
pub use js_compiler::JsCompiler;
pub use shims::Target;
pub use walk_patterns::WalkPatterns;
pub use syntax::{Kind, Node, Term};
