use wang_autotile::editor::{detect_best_editor, EditorError, PreferredEditor};
use wang_autotile::project::{CodePreviewTab, GameSettingsDialogResult, LayerType, ProjectError};

#[test]
fn test_preferred_editor() {
    let editors = PreferredEditor::all();
    assert_eq!(editors.len(), 3);

    assert_eq!(PreferredEditor::VSCode.display_name(), "VS Code");
    assert_eq!(PreferredEditor::Cursor.display_name(), "Cursor");
    assert_eq!(PreferredEditor::SystemDefault.display_name(), "System Default");
}

#[test]
fn test_detect_best_editor() {
    assert_eq!(detect_best_editor(true, true), PreferredEditor::VSCode);
    assert_eq!(detect_best_editor(true, false), PreferredEditor::VSCode);
    assert_eq!(detect_best_editor(false, true), PreferredEditor::Cursor);
    assert_eq!(detect_best_editor(false, false), PreferredEditor::SystemDefault);
}

#[test]
fn editor_availability_follows_probes() {
    assert!(PreferredEditor::VSCode.is_available(true, false));
    assert!(!PreferredEditor::VSCode.is_available(false, true));
    assert!(PreferredEditor::Cursor.is_available(false, true));
    assert!(!PreferredEditor::Cursor.is_available(true, false));
    assert!(PreferredEditor::SystemDefault.is_available(false, false));
    assert_eq!(PreferredEditor::default(), PreferredEditor::VSCode);
}

#[test]
fn editor_error_messages() {
    assert_eq!(EditorError::NotInstalled("code".to_string()).message(), "code is not installed or not in PATH");
    assert_eq!(EditorError::LaunchFailed("boom".to_string()).message(), "Failed to launch editor: boom");
    assert_eq!(EditorError::PathNotFound("/x".to_string()).message(), "Path not found: /x");
}

#[test]
fn test_code_preview_tab() {
    assert_eq!(CodePreviewTab::all().len(), 4);
    assert_eq!(CodePreviewTab::Entities.label(), "Entities");
}

#[test]
fn code_preview_tabs_in_order() {
    assert_eq!(
        CodePreviewTab::all(),
        vec![CodePreviewTab::Entities, CodePreviewTab::Enums, CodePreviewTab::Stubs, CodePreviewTab::Behaviors]
    );
    assert_eq!(CodePreviewTab::Enums.label(), "Enums");
    assert_eq!(CodePreviewTab::Stubs.label(), "Stubs");
    assert_eq!(CodePreviewTab::Behaviors.label(), "Behaviors");
    assert_eq!(CodePreviewTab::default(), CodePreviewTab::Entities);
}

#[test]
fn project_error_messages() {
    assert_eq!(ProjectError::NoPath.message(), "No file path set");
    assert_eq!(ProjectError::IoError("disk".to_string()).message(), "IO error: disk");
    assert_eq!(ProjectError::ParseError("p".to_string()).message(), "Parse error: p");
    assert_eq!(ProjectError::SerializeError("s".to_string()).message(), "Serialize error: s");
    assert_eq!(ProjectError::CodegenError("c".to_string()).message(), "Code generation error: c");
}

#[test]
fn small_project_types() {
    assert_ne!(LayerType::Tiles, LayerType::Objects);
    let r = GameSettingsDialogResult::default();
    assert!(!r.save_requested && !r.open_in_editor_requested);
}
