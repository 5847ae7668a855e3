//! The external code editors a project can be opened in, and which of them
//! to prefer. Probing for installed editors and launching them is done by
//! the caller; the choices here take the probe results.

use vstd::prelude::*;

verus! {

/// Why opening a project in an external editor failed.
#[derive(Debug)]
pub enum EditorError {
    /// The named editor is not installed.
    NotInstalled(String),
    /// The editor could not be launched.
    LaunchFailed(String),
    /// The path to open does not exist.
    PathNotFound(String),
}

impl EditorError {
    /// The error as a sentence for the user.
    pub fn message(&self) -> (r: String)
        ensures
            r@ == match self {
                EditorError::NotInstalled(editor) => editor@ + " is not installed or not in PATH"@,
                EditorError::LaunchFailed(msg) => "Failed to launch editor: "@ + msg@,
                EditorError::PathNotFound(path) => "Path not found: "@ + path@,
            },
    {
        match self {
            EditorError::NotInstalled(editor) => editor.clone().concat(" is not installed or not in PATH"),
            EditorError::LaunchFailed(msg) => String::from_str("Failed to launch editor: ").concat(msg.as_str()),
            EditorError::PathNotFound(path) => String::from_str("Path not found: ").concat(path.as_str()),
        }
    }
}

/// An external editor.
#[derive(Debug, Clone, Copy, PartialEq, Eq, Structural)]
pub enum PreferredEditor {
    VSCode,
    Cursor,
    SystemDefault,
}

impl Default for PreferredEditor {
    fn default() -> (r: Self)
        ensures
            r == PreferredEditor::VSCode,
    {
        PreferredEditor::VSCode
    }
}

/// Whether an editor can be used, given whether VS Code and Cursor were
/// found installed.
pub open spec fn available(e: PreferredEditor, vscode_installed: bool, cursor_installed: bool) -> bool {
    match e {
        PreferredEditor::VSCode => vscode_installed,
        PreferredEditor::Cursor => cursor_installed,
        PreferredEditor::SystemDefault => true,
    }
}

impl PreferredEditor {
    /// Every editor, in order of preference.
    pub fn all() -> (r: Vec<PreferredEditor>)
        ensures
            r@ == seq![PreferredEditor::VSCode, PreferredEditor::Cursor, PreferredEditor::SystemDefault],
    {
        let r = vec![PreferredEditor::VSCode, PreferredEditor::Cursor, PreferredEditor::SystemDefault];
        assert(r@ =~= seq![PreferredEditor::VSCode, PreferredEditor::Cursor, PreferredEditor::SystemDefault]);
        r
    }

    /// The name shown to the user.
    pub fn display_name(&self) -> (r: &'static str)
        ensures
            r@ == match self {
                PreferredEditor::VSCode => "VS Code"@,
                PreferredEditor::Cursor => "Cursor"@,
                PreferredEditor::SystemDefault => "System Default"@,
            },
    {
        match self {
            PreferredEditor::VSCode => "VS Code",
            PreferredEditor::Cursor => "Cursor",
            PreferredEditor::SystemDefault => "System Default",
        }
    }

    /// Whether this editor can be used, given whether VS Code and Cursor
    /// were found installed; the system default is always there.
    pub fn is_available(&self, vscode_installed: bool, cursor_installed: bool) -> (r: bool)
        ensures
            r == available(*self, vscode_installed, cursor_installed),
    {
        match self {
            PreferredEditor::VSCode => vscode_installed,
            PreferredEditor::Cursor => cursor_installed,
            PreferredEditor::SystemDefault => true,
        }
    }
}

/// The first available editor in order of preference, given whether VS
/// Code and Cursor were found installed.
pub fn detect_best_editor(vscode_installed: bool, cursor_installed: bool) -> (r: PreferredEditor)
    ensures
        r == (if vscode_installed {
            PreferredEditor::VSCode
        } else if cursor_installed {
            PreferredEditor::Cursor
        } else {
            PreferredEditor::SystemDefault
        }),
        available(r, vscode_installed, cursor_installed),
{
    if vscode_installed {
        PreferredEditor::VSCode
    } else if cursor_installed {
        PreferredEditor::Cursor
    } else {
        PreferredEditor::SystemDefault
    }
}

} // verus!
