//! The editor-integration boundary: plain data types for editor
//! events, the integration interface, and a recording mock for tests.

pub mod ide;
pub mod interface;
pub mod mock;
pub mod ui;

use vstd::prelude::*;

verus! {

/// Position in a text document.
#[derive(Debug, Clone, Copy, PartialEq, Eq, Structural)]
pub struct Position {
    pub line: u32,
    pub character: u32,
}

/// Range in a text document.
#[derive(Debug, Clone, Copy, PartialEq, Eq, Structural)]
pub struct Range {
    pub start: Position,
    pub end: Position,
}

/// Configuration for the editor integration.
#[derive(Debug, Clone, Copy, PartialEq, Eq, Structural)]
pub struct WindsurfConfig {
    pub real_time_enabled: bool,
}

impl Default for WindsurfConfig {
    fn default() -> (r: Self)
        ensures
            r.real_time_enabled == false,
    {
        WindsurfConfig { real_time_enabled: false }
    }
}

/// Identity of the editor plugin.
#[derive(Debug)]
pub struct WindsurfPlugin {
    pub name: String,
    pub version: String,
}

impl Default for WindsurfPlugin {
    fn default() -> (r: Self)
        ensures
            r.name@ == "Windsurf"@,
            r.version@ == "0.1.0"@,
    {
        WindsurfPlugin { name: "Windsurf".to_owned(), version: "0.1.0".to_owned() }
    }
}

impl Clone for WindsurfPlugin {
    fn clone(&self) -> (r: Self)
        ensures
            r.name@ == self.name@,
            r.version@ == self.version@,
    {
        WindsurfPlugin { name: self.name.clone(), version: self.version.clone() }
    }
}

/// A file of the workspace.
#[derive(Debug)]
pub struct WorkspaceFile {
    pub path: String,
    pub content: String,
}

/// One change in a text document.
#[derive(Debug)]
pub struct TextChange {
    pub range: Range,
    pub text: String,
}

/// A command offered in the editor.
#[derive(Debug)]
pub struct CommandInfo {
    pub id: String,
    pub title: String,
    pub description: Option<String>,
}

/// Severity of an editor diagnostic.
#[derive(Debug, Clone, Copy, PartialEq, Eq, Structural)]
pub enum DiagnosticSeverity {
    Error,
    Warning,
    Information,
    Hint,
}

/// A diagnostic shown in the editor.
#[derive(Debug)]
pub struct Diagnostic {
    pub range: Range,
    pub message: String,
    pub severity: DiagnosticSeverity,
}

} // verus!
