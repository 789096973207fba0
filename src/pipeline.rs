//! The per-file pipeline: scope resolution, then the define, extension and
//! shims passes, each where it is configured.
use vstd::prelude::*;

use crate::define::{define, entries_of, transform_define};
use crate::extensions::{ext, transform_extensions};
use crate::resolver::{resolve_module, resolve_module_tree};
use crate::shims::{shims, shims_pass};
use crate::syntax::{Node, Term, UNRESOLVED};

verus! {

/// The passes configured for one file.
pub struct PassConfig {
    pub define: Option<Vec<(String, Node)>>,
    pub extensions: Option<crate::extensions::Config>,
    pub shims: Option<crate::shims::Config>,
}

/// The result of the pipeline on module `m`.
pub open spec fn pipeline(c: PassConfig, m: Term) -> Term {
    let resolved = resolve_module(m);
    let defined = match c.define {
        Some(options) => define(entries_of(options@), resolved, true),
        None => resolved,
    };
    let extended = match c.extensions {
        Some(e) => ext(e.settings(), defined),
        None => defined,
    };
    match c.shims {
        Some(s) => shims(s, UNRESOLVED, extended),
        None => extended,
    }
}

/// Runs the configured passes on module `m`, in order.
pub fn run_pipeline(config: &PassConfig, m: &Node) -> (r: Node)
    ensures
        r@ == pipeline(*config, m@),
{
    let (resolved, unresolved) = resolve_module_tree(m);
    let defined = match &config.define {
        Some(options) => transform_define(options, &resolved),
        None => resolved,
    };
    let extended = match &config.extensions {
        Some(e) => transform_extensions(e, &defined),
        None => defined,
    };
    match &config.shims {
        Some(s) => shims_pass(s, unresolved, &extended),
        None => extended,
    }
}

} // verus!
