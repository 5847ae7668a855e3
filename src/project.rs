//! Small types of the editor's project model: layer kinds, project file
//! errors, the code preview tabs and the game settings dialog's requests.

use vstd::prelude::*;

verus! {

/// The kind of a map layer.
#[derive(Debug, Clone, Copy, PartialEq, Eq, Structural)]
pub enum LayerType {
    Tiles,
    Objects,
}

/// Why loading or saving a project failed.
#[derive(Debug)]
pub enum ProjectError {
    IoError(String),
    ParseError(String),
    SerializeError(String),
    /// The project has no file path yet.
    NoPath,
    CodegenError(String),
}

impl ProjectError {
    /// The error as a sentence for the user.
    pub fn message(&self) -> (r: String)
        ensures
            r@ == match self {
                ProjectError::IoError(e) => "IO error: "@ + e@,
                ProjectError::ParseError(e) => "Parse error: "@ + e@,
                ProjectError::SerializeError(e) => "Serialize error: "@ + e@,
                ProjectError::NoPath => "No file path set"@,
                ProjectError::CodegenError(e) => "Code generation error: "@ + e@,
            },
    {
        match self {
            ProjectError::IoError(e) => String::from_str("IO error: ").concat(e.as_str()),
            ProjectError::ParseError(e) => String::from_str("Parse error: ").concat(e.as_str()),
            ProjectError::SerializeError(e) => String::from_str("Serialize error: ").concat(e.as_str()),
            ProjectError::NoPath => String::from_str("No file path set"),
            ProjectError::CodegenError(e) => String::from_str("Code generation error: ").concat(e.as_str()),
        }
    }
}

/// A tab of the generated-code preview.
#[derive(Debug, Clone, Copy, PartialEq, Eq, Structural)]
pub enum CodePreviewTab {
    Entities,
    Enums,
    Stubs,
    Behaviors,
}

impl Default for CodePreviewTab {
    fn default() -> (r: Self)
        ensures
            r == CodePreviewTab::Entities,
    {
        CodePreviewTab::Entities
    }
}

impl CodePreviewTab {
    /// Every tab, in display order.
    pub fn all() -> (r: Vec<CodePreviewTab>)
        ensures
            r@ == seq![CodePreviewTab::Entities, CodePreviewTab::Enums, CodePreviewTab::Stubs, CodePreviewTab::Behaviors],
    {
        let r = vec![CodePreviewTab::Entities, CodePreviewTab::Enums, CodePreviewTab::Stubs, CodePreviewTab::Behaviors];
        assert(r@ =~= seq![CodePreviewTab::Entities, CodePreviewTab::Enums, CodePreviewTab::Stubs, CodePreviewTab::Behaviors]);
        r
    }

    /// The tab's title.
    pub fn label(&self) -> (r: &'static str)
        ensures
            r@ == match self {
                CodePreviewTab::Entities => "Entities"@,
                CodePreviewTab::Enums => "Enums"@,
                CodePreviewTab::Stubs => "Stubs"@,
                CodePreviewTab::Behaviors => "Behaviors"@,
            },
    {
        match self {
            CodePreviewTab::Entities => "Entities",
            CodePreviewTab::Enums => "Enums",
            CodePreviewTab::Stubs => "Stubs",
            CodePreviewTab::Behaviors => "Behaviors",
        }
    }
}

/// What the user asked for in the game settings dialog.
#[derive(Debug, Clone, Copy, PartialEq, Eq, Default)]
pub struct GameSettingsDialogResult {
    pub save_requested: bool,
    pub create_project_requested: bool,
    pub create_level_requested: bool,
    pub install_cli_requested: bool,
    pub generate_code_requested: bool,
    pub preview_code_requested: bool,
    pub open_in_editor_requested: bool,
}

} // verus!
