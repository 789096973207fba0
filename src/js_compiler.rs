//! The stages of compiling one file.
use vstd::prelude::*;

verus! {

/// A file to compile: its path and its source text.
#[derive(Debug)]
pub struct JsCompiler {
    pub source_code: String,
    pub file_path: String,
}

impl JsCompiler {
    pub fn new(file_path: String, source_code: String) -> (r: Self)
        ensures
            r.file_path == file_path,
            r.source_code == source_code,
    {
        JsCompiler { source_code, file_path }
    }

    /// Prepares the compilation; there is nothing to prepare.
    pub fn pre_compile(&self) -> (r: Result<(), String>)
        ensures
            r is Ok,
    {
        Ok(())
    }

    /// Compiles; no stage transforms yet.
    pub fn compile(&self) -> (r: Result<(), String>)
        ensures
            r is Ok,
    {
        Ok(())
    }

    /// Finishes the compilation; there is nothing to finish.
    pub fn post_compile(&self) -> (r: Result<(), String>)
        ensures
            r is Ok,
    {
        Ok(())
    }

    /// Runs the three stages in order, stopping at the first failure.
    pub fn run(&self) -> (r: Result<(), String>)
        ensures
            r is Ok,
    {
        match self.pre_compile() {
            Ok(()) => {},
            Err(e) => return Err(e),
        }
        match self.compile() {
            Ok(()) => {},
            Err(e) => return Err(e),
        }
        match self.post_compile() {
            Ok(()) => {},
            Err(e) => return Err(e),
        }
        Ok(())
    }
}

} // verus!
