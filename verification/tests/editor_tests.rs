use libvirtmanager::editor::{EditAction, EditError, EditEvent, edit_step, resolve_editor};

#[test]
fn resolve_prefers_visual() {
    assert_eq!(
        resolve_editor(Some("vim".to_string()), Some("nano".to_string())),
        Some("vim".to_string())
    );
    assert_eq!(resolve_editor(None, Some("nano".to_string())), Some("nano".to_string()));
    assert_eq!(resolve_editor(Some("vim".to_string()), None), Some("vim".to_string()));
    assert_eq!(resolve_editor(None, None), None);
}

#[test]
fn no_editor_short_circuits_without_spawn() {
    let resolved = resolve_editor(None, None);
    let action = edit_step(EditEvent::EditorResolved(resolved));
    assert!(matches!(action, EditAction::Fail(EditError::NoEditorConfigured)));
}

#[test]
fn session_happy_path() {
    assert!(matches!(edit_step(EditEvent::FileCreated(true)), EditAction::WriteFile));
    assert!(matches!(edit_step(EditEvent::FileWritten(true)), EditAction::PersistFile));
    assert!(matches!(edit_step(EditEvent::FilePersisted(true)), EditAction::ResolveEditor));
    match edit_step(EditEvent::EditorResolved(Some("vi".to_string()))) {
        EditAction::SpawnEditor(cmd) => assert_eq!(cmd, "vi"),
        _ => panic!("expected a spawn"),
    }
    assert!(matches!(edit_step(EditEvent::EditorSpawned(true)), EditAction::AwaitExit));
    assert!(matches!(edit_step(EditEvent::EditorExited(true)), EditAction::ReadFile));
    match edit_step(EditEvent::FileRead(Some("<graphics/>".to_string()))) {
        EditAction::Deliver(text) => assert_eq!(text, "<graphics/>"),
        _ => panic!("expected delivery"),
    }
}

#[test]
fn each_failure_maps_to_its_error() {
    assert!(matches!(
        edit_step(EditEvent::FileCreated(false)),
        EditAction::Fail(EditError::TempFileCreate)
    ));
    assert!(matches!(
        edit_step(EditEvent::FileWritten(false)),
        EditAction::Fail(EditError::TempFileWrite)
    ));
    assert!(matches!(
        edit_step(EditEvent::FilePersisted(false)),
        EditAction::Fail(EditError::TempFilePersist)
    ));
    assert!(matches!(
        edit_step(EditEvent::EditorSpawned(false)),
        EditAction::Fail(EditError::EditorLaunch)
    ));
    assert!(matches!(
        edit_step(EditEvent::EditorExited(false)),
        EditAction::Fail(EditError::EditorWait)
    ));
    assert!(matches!(
        edit_step(EditEvent::FileRead(None)),
        EditAction::Fail(EditError::TempFileRead)
    ));
}

#[test]
fn message_prefixes_are_distinct() {
    let errs = [
        EditError::TempFileCreate,
        EditError::TempFileWrite,
        EditError::TempFilePersist,
        EditError::NoEditorConfigured,
        EditError::EditorLaunch,
        EditError::EditorWait,
        EditError::TempFileRead,
    ];
    for (i, a) in errs.iter().enumerate() {
        for (j, b) in errs.iter().enumerate() {
            if i != j {
                assert_ne!(a.message_prefix(), b.message_prefix());
            }
        }
    }
}
