//! The glob patterns that select source, ignored, test and declaration files.
use vstd::prelude::*;

verus! {

/// Glob patterns of a walk over a project.
#[derive(Debug, Clone, Copy)]
pub struct WalkPatterns<'a> {
    pub walk: &'a str,
    pub ignore: &'a [&'a str],
    pub testing: &'a [&'a str],
    pub dts: &'a [&'a str],
}

impl<'a> WalkPatterns<'a> {
    pub fn with_walk(self, walk: &'a str) -> (r: Self)
        ensures
            r == (WalkPatterns { walk, ..self }),
    {
        WalkPatterns { walk, ..self }
    }

    pub fn with_ignore(self, ignore: &'a [&'a str]) -> (r: Self)
        ensures
            r == (WalkPatterns { ignore, ..self }),
    {
        WalkPatterns { ignore, ..self }
    }

    pub fn with_testing(self, testing: &'a [&'a str]) -> (r: Self)
        ensures
            r == (WalkPatterns { testing, ..self }),
    {
        WalkPatterns { testing, ..self }
    }

    pub fn with_dts(self, dts: &'a [&'a str]) -> (r: Self)
        ensures
            r == (WalkPatterns { dts, ..self }),
    {
        WalkPatterns { dts, ..self }
    }

    pub fn build(self) -> (r: Self)
        ensures
            r == self,
    {
        self
    }
}

impl Default for WalkPatterns<'static> {
    fn default() -> (r: Self)
        ensures
            r.walk@ == "**/*.{js,jsx,ts,tsx,cjs,mjs,cts,mts}"@,
            r.ignore@.len() == 6,
            r.testing@.len() == 11,
            r.dts@.len() == 1,
    {
        WalkPatterns {
            walk: "**/*.{js,jsx,ts,tsx,cjs,mjs,cts,mts}",
            ignore: &["**/node_modules/**", "**/dist/**", "**/build/**", "**/coverage/**", "**/*.d.ts", "node_modules"],
            testing: &[
                "**/test/**",
                "**/tests/**",
                "**/spec/**",
                "**/specs/**",
                "*.spec.ts",
                "*.spec.tsx",
                "*.test.ts",
                "*.test.tsx",
                "*.min.js",
                "*.min.css",
                "*.d.ts",
            ],
            dts: &["**/*.d.ts"],
        }
    }
}

} // verus!
