//! Lint rule settings.
use vstd::prelude::*;

verus! {

/// The severity of a rule.
#[derive(Clone, Copy, PartialEq, Eq, Structural, Debug)]
pub enum AllowWarnDeny {
    Allow,
    Warn,
    Deny,
}

impl AllowWarnDeny {
    /// The numeric level of the severity: off, warning, error.
    pub fn level(&self) -> (r: u8)
        ensures
            r == match self {
                AllowWarnDeny::Allow => 0u8,
                AllowWarnDeny::Warn => 1u8,
                AllowWarnDeny::Deny => 2u8,
            },
    {
        match self {
            AllowWarnDeny::Allow => 0,
            AllowWarnDeny::Warn => 1,
            AllowWarnDeny::Deny => 2,
        }
    }
}

/// Options of the unused-variables rule.
#[derive(Debug)]
pub struct NoUnusedVarsArgs {
    pub vars: AllowWarnDeny,
    pub args: AllowWarnDeny,
    pub caught_errors: AllowWarnDeny,
    pub vars_ignore_pattern: Option<String>,
    pub args_ignore_pattern: Option<String>,
    pub caught_errors_ignore_pattern: Option<String>,
    pub destructured_array_ignore_pattern: Option<String>,
    pub ignore_rest_siblings: bool,
    pub ignore_class_with_static_init_block: bool,
    pub report_used_ignore_pattern: bool,
}

/// The unused-variables rule with its severity and options.
#[derive(Debug)]
pub struct NoUnusedVars {
    pub allow_warn_deny: AllowWarnDeny,
    pub args: NoUnusedVarsArgs,
}

impl NoUnusedVars {
    pub fn allow(args: NoUnusedVarsArgs) -> (r: Self)
        ensures
            r.allow_warn_deny == AllowWarnDeny::Allow,
            r.args == args,
    {
        NoUnusedVars { allow_warn_deny: AllowWarnDeny::Allow, args }
    }

    pub fn warn(args: NoUnusedVarsArgs) -> (r: Self)
        ensures
            r.allow_warn_deny == AllowWarnDeny::Warn,
            r.args == args,
    {
        NoUnusedVars { allow_warn_deny: AllowWarnDeny::Warn, args }
    }

    pub fn deny(args: NoUnusedVarsArgs) -> (r: Self)
        ensures
            r.allow_warn_deny == AllowWarnDeny::Deny,
            r.args == args,
    {
        NoUnusedVars { allow_warn_deny: AllowWarnDeny::Deny, args }
    }
}

/// Options of the constant-condition rule; it has none.
#[derive(Debug)]
pub struct NoConstantConditionOptions {}

/// Severities of individual rules.
#[derive(Debug, Clone, Copy, PartialEq, Eq, Structural)]
pub struct RuleBuilder {
    pub no_constant_condition: AllowWarnDeny,
    pub no_empty_static_block: AllowWarnDeny,
    pub radix: AllowWarnDeny,
}

impl RuleBuilder {
    /// Every rule off.
    pub fn new() -> (r: Self)
        ensures
            r.no_constant_condition == AllowWarnDeny::Allow,
            r.no_empty_static_block == AllowWarnDeny::Allow,
            r.radix == AllowWarnDeny::Allow,
    {
        RuleBuilder {
            no_constant_condition: AllowWarnDeny::Allow,
            no_empty_static_block: AllowWarnDeny::Allow,
            radix: AllowWarnDeny::Allow,
        }
    }

    pub fn no_constant_condition(&mut self, value: AllowWarnDeny) -> (r: &mut Self)
        ensures
            *r == (RuleBuilder { no_constant_condition: value, ..*old(self) }),
            *final(self) == *final(r),
    {
        self.no_constant_condition = value;
        self
    }

    pub fn no_empty_static_block(&mut self, value: AllowWarnDeny) -> (r: &mut Self)
        ensures
            *r == (RuleBuilder { no_empty_static_block: value, ..*old(self) }),
            *final(self) == *final(r),
    {
        self.no_empty_static_block = value;
        self
    }

    pub fn radix(&mut self, value: AllowWarnDeny) -> (r: &mut Self)
        ensures
            *r == (RuleBuilder { radix: value, ..*old(self) }),
            *final(self) == *final(r),
    {
        self.radix = value;
        self
    }

    pub fn build(self) -> (r: Self)
        ensures
            r == self,
    {
        self
    }
}

/// The runtime that JSX compiles for.
#[derive(Debug, PartialEq, Eq, Structural, Clone, Copy)]
pub enum ReactRuntime {
    Classic,
    Automatic,
}

#[derive(Debug, Clone, Copy)]
pub struct ReactConfig {
    pub runtime: ReactRuntime,
}

impl Default for ReactConfig {
    fn default() -> (r: Self)
        ensures
            r.runtime == ReactRuntime::Automatic,
    {
        ReactConfig { runtime: ReactRuntime::Automatic }
    }
}

impl ReactConfig {
    pub fn with_runtime(self, runtime: ReactRuntime) -> (r: Self)
        ensures
            r.runtime == runtime,
    {
        ReactConfig { runtime }
    }
}

/// TypeScript rule settings; there are none to choose.
#[derive(Debug, Clone, Copy)]
pub struct TypescriptConfig {}

/// The rule set of the 2025-06-01 edition.
#[derive(Debug, Clone, Copy)]
pub struct Category20250601 {
    pub react: Option<ReactConfig>,
    pub typescript: Option<TypescriptConfig>,
}

impl Default for Category20250601 {
    fn default() -> (r: Self)
        ensures
            r.react is None,
            r.typescript is None,
    {
        Category20250601 { react: None, typescript: None }
    }
}

impl Category20250601 {
    pub fn with_react(self, react: ReactConfig) -> (r: Self)
        ensures
            r.react == Some(react),
            r.typescript == self.typescript,
    {
        Category20250601 { react: Some(react), ..self }
    }

    pub fn with_typescript(self, typescript: TypescriptConfig) -> (r: Self)
        ensures
            r.typescript == Some(typescript),
            r.react == self.react,
    {
        Category20250601 { typescript: Some(typescript), ..self }
    }
}

/// A rule-set edition.
#[derive(Debug, Clone, Copy)]
pub enum Category {
    V20250601(Category20250601),
}

/// The unicorn plugin's rules.
#[derive(Debug)]
pub struct UnicornRuleGetter {}

impl UnicornRuleGetter {
    pub fn new() -> (r: Self) {
        UnicornRuleGetter {}
    }
}

/// The jest plugin's rules.
#[derive(Debug)]
pub struct JestRuleGetter {}

impl Default for JestRuleGetter {
    fn default() -> (r: Self) {
        JestRuleGetter {}
    }
}

/// The promise plugin's rules.
#[derive(Debug)]
pub struct PromiseRuleGetter {}

impl Default for PromiseRuleGetter {
    fn default() -> (r: Self) {
        PromiseRuleGetter {}
    }
}

/// The react plugin's rules, for a runtime.
#[derive(Debug)]
pub struct ReactRuleGetter {
    pub config: ReactConfig,
}

impl Default for ReactRuleGetter {
    fn default() -> (r: Self)
        ensures
            r.config.runtime == ReactRuntime::Automatic,
    {
        ReactRuleGetter { config: ReactConfig::default() }
    }
}

impl ReactRuleGetter {
    pub fn with_runtime(self, runtime: ReactRuntime) -> (r: Self)
        ensures
            r.config.runtime == runtime,
    {
        ReactRuleGetter { config: ReactConfig { runtime } }
    }
}

/// The kind of application a project is.
#[derive(Debug, Clone, Copy, PartialEq, Eq, Structural)]
pub enum Environment {
    WebApp,
    NodeApp,
    DesktopApp,
    WebExtensionsApp,
    GreaseMonkeyApp,
}

/// A source file: its path and its text.
#[derive(Debug, Clone)]
pub struct PathWithSource {
    pub file_path: String,
    pub source_code: String,
}

impl PathWithSource {
    pub fn new(file_path: String, source_code: String) -> (r: Self)
        ensures
            r.file_path == file_path,
            r.source_code == source_code,
    {
        PathWithSource { file_path, source_code }
    }
}

} // verus!
