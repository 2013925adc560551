use bevy_map_editor::external_editor::{
    detect_best_editor, get_default_vscode_path, is_vscode_available, is_vscode_installed,
    open_file_at_line_vscode, open_in_vscode, open_in_vscode_with_custom_path, open_with_default,
    vscode_install_candidates, EditorError, Platform, PreferredEditor, TargetPath, VsCodeProbe,
};

fn no_vscode() -> VsCodeProbe {
    VsCodeProbe { code_on_path: false, default_path: None }
}

fn target(p: &str, exists: bool) -> TargetPath {
    TargetPath { display: p.to_string(), exists }
}

#[test]
fn test_preferred_editor() {
    let editors = PreferredEditor::all();
    assert_eq!(editors.len(), 2);

    assert_eq!(PreferredEditor::VSCode.display_name(), "VS Code");
    assert_eq!(PreferredEditor::SystemDefault.display_name(), "File Browser");
}

#[test]
fn test_detect_best_editor() {
    // This test just ensures the function runs without panicking
    let _ = detect_best_editor(&no_vscode());
}

#[test]
fn best_editor_follows_installation() {
    assert_eq!(detect_best_editor(&no_vscode()), PreferredEditor::SystemDefault);
    let on_path = VsCodeProbe { code_on_path: true, default_path: None };
    assert_eq!(detect_best_editor(&on_path), PreferredEditor::VSCode);
    let installed = VsCodeProbe { code_on_path: false, default_path: Some("C:/VS/Code.exe".to_string()) };
    assert_eq!(detect_best_editor(&installed), PreferredEditor::VSCode);
}

#[test]
fn availability_of_editors() {
    assert!(!is_vscode_installed(&no_vscode()));
    assert!(is_vscode_available(Some("/opt/code"), true, &no_vscode()));
    assert!(!is_vscode_available(Some("/opt/code"), false, &no_vscode()));
    assert!(!is_vscode_available(Some(""), true, &no_vscode()));
    assert!(PreferredEditor::SystemDefault.is_available(&no_vscode()));
    assert!(!PreferredEditor::VSCode.is_available(&no_vscode()));
}

#[test]
fn default_vscode_path_is_first_existing_candidate() {
    let c = vscode_install_candidates(Some("C:/Users/a/AppData/Local"), Some("C:/Program Files"));
    assert_eq!(c.len(), 2);
    assert_eq!(c[0], "C:/Users/a/AppData/Local/Programs/Microsoft VS Code/Code.exe");
    assert_eq!(c[1], "C:/Program Files/Microsoft VS Code/Code.exe");
    let cands = vec![(c[0].clone(), false), (c[1].clone(), true)];
    assert_eq!(get_default_vscode_path(&cands), Some(c[1].clone()));
    let none = vec![(c[0].clone(), false)];
    assert_eq!(get_default_vscode_path(&none), None);
}

#[test]
fn open_in_vscode_launches_code() {
    let on_path = VsCodeProbe { code_on_path: true, default_path: None };
    let l = open_in_vscode(&target("/games/my_game", true), &on_path).unwrap();
    assert_eq!(l.program, "code");
    assert_eq!(l.args, vec!["/games/my_game".to_string()]);

    let installed = VsCodeProbe { code_on_path: false, default_path: Some("/apps/code".to_string()) };
    let l = open_in_vscode(&target("/games/my_game", true), &installed).unwrap();
    assert_eq!(l.program, "/apps/code");

    let l = open_in_vscode_with_custom_path(&target("/g", true), Some("/my/code"), true, &on_path).unwrap();
    assert_eq!(l.program, "/my/code");
    let l = open_in_vscode_with_custom_path(&target("/g", true), Some("/my/code"), false, &on_path).unwrap();
    assert_eq!(l.program, "code");
}

#[test]
fn missing_path_is_an_error() {
    match open_in_vscode(&target("/nowhere", false), &no_vscode()) {
        Err(EditorError::PathNotFound(p)) => assert_eq!(p, "/nowhere"),
        other => panic!("unexpected {:?}", other),
    }
    match open_with_default(&target("/nowhere", false), Platform::Linux) {
        Err(e) => assert_eq!(e.message(), "Path not found: /nowhere"),
        Ok(_) => panic!("expected an error"),
    }
}

#[test]
fn default_opener_per_platform() {
    let t = target("/p", true);
    assert_eq!(open_with_default(&t, Platform::Windows).unwrap().program, "explorer");
    assert_eq!(open_with_default(&t, Platform::MacOs).unwrap().program, "open");
    assert_eq!(open_with_default(&t, Platform::Linux).unwrap().program, "xdg-open");
    match open_with_default(&t, Platform::Other) {
        Err(e) => assert_eq!(e.message(), "Failed to launch editor: Platform not supported"),
        Ok(_) => panic!("expected an error"),
    }
    let l = PreferredEditor::SystemDefault.open(&t, &no_vscode(), Platform::Linux).unwrap();
    assert_eq!(l.program, "xdg-open");
}

#[test]
fn open_at_line() {
    let l = open_file_at_line_vscode(&target("src/main.rs", true), 42).unwrap();
    assert_eq!(l.program, "code");
    assert_eq!(l.args, vec!["-g".to_string(), "src/main.rs:42".to_string()]);
}

#[test]
fn editor_error_messages() {
    assert_eq!(EditorError::NotInstalled("VS Code".to_string()).message(), "VS Code is not installed or not in PATH");
    assert_eq!(EditorError::LaunchFailed("boom".to_string()).message(), "Failed to launch editor: boom");
}
