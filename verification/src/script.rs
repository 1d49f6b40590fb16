//! Script engine support types: languages, errors, execution context, and
//! the no-op engine used when no scripting is configured.
//!
//! The pluggable engines themselves live in the embedding application;
//! this library supplies the shared vocabulary.

use vstd::prelude::*;

verus! {

/// Script execution errors.
#[derive(Debug, Clone)]
pub enum ScriptError {
    ParseError(String),
    RuntimeError(String),
    CapabilityDenied { operation: String, reason: String },
    Timeout,
    MemoryLimitExceeded,
    UnsupportedLanguage(String),
}

/// Whether an event was handled by script.
pub enum EventHandled {
    /// Script consumed the event.
    Handled,
    /// Pass to normal DOM handling.
    Propagate,
}

/// Language identifiers.
#[derive(Debug, Clone, Copy, PartialEq, Eq, Structural)]
pub enum ScriptLanguage {
    JavaScript,
    TypeScript,
    Lua,
    Python,
    /// Direct CASM execution for optimized code.
    Casm,
}

impl ScriptLanguage {
    /// The language's lower-case name.
    pub fn as_str(&self) -> (r: &'static str)
        ensures
            self == ScriptLanguage::JavaScript ==> r@ == "javascript"@,
            self == ScriptLanguage::TypeScript ==> r@ == "typescript"@,
            self == ScriptLanguage::Lua ==> r@ == "lua"@,
            self == ScriptLanguage::Python ==> r@ == "python"@,
            self == ScriptLanguage::Casm ==> r@ == "casm"@,
    {
        match self {
            ScriptLanguage::JavaScript => "javascript",
            ScriptLanguage::TypeScript => "typescript",
            ScriptLanguage::Lua => "lua",
            ScriptLanguage::Python => "python",
            ScriptLanguage::Casm => "casm",
        }
    }
}

/// Context for script execution.
#[derive(Debug, Clone)]
pub struct ExecutionContext {
    pub source_url: Option<String>,
    pub line_number: u32,
    pub is_module: bool,
}

impl Default for ExecutionContext {
    fn default() -> (c: ExecutionContext)
        ensures
            c.source_url is None,
            c.line_number == 1,
            c.is_module == false,
    {
        ExecutionContext { source_url: None, line_number: 1, is_module: false }
    }
}

/// A no-op script engine for when no scripting is needed.
pub struct NoopScriptEngine;

impl NoopScriptEngine {
    /// Executing any code is unsupported: the language's name comes back
    /// in the error.
    pub fn execute(&mut self, _code: &str, language: ScriptLanguage) -> (r: Result<
        (),
        ScriptError,
    >)
        ensures
            r matches Err(e) && e is UnsupportedLanguage,
    {
        Err(ScriptError::UnsupportedLanguage(language.as_str().to_owned()))
    }

    /// Events are never consumed.
    pub fn handle_event(&mut self) -> (r: EventHandled)
        ensures
            r is Propagate,
    {
        EventHandled::Propagate
    }

    /// There is never pending work.
    pub fn tick(&mut self) -> (r: Result<bool, ScriptError>)
        ensures
            r == Result::<bool, ScriptError>::Ok(false),
    {
        Ok(false)
    }
}

} // verus!
