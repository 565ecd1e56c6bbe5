//! Decision logic of one external-editor session.
//!
//! The session writes the encoded XML to a temporary file, launches the
//! user's editor on it, waits for the editor to exit, and reads the file
//! back.  All of that work is I/O and is performed by the caller; this
//! module holds the verified decisions: which editor command to use, and
//! what to do after each step's outcome.  The caller drives the loop:
//! it performs the work one action asks for, reports the outcome as an
//! event, and asks for the next action.

use vstd::prelude::*;

verus! {

/// The failure points of one edit session.
#[derive(Debug, Clone, Copy, PartialEq, Eq, Structural)]
pub enum EditError {
    TempFileCreate,
    TempFileWrite,
    TempFilePersist,
    NoEditorConfigured,
    EditorLaunch,
    EditorWait,
    TempFileRead,
}

pub open spec fn spec_message_prefix(e: EditError) -> Seq<char> {
    match e {
        EditError::TempFileCreate => "Failed to create temp file: "@,
        EditError::TempFileWrite => "Failed writing temp XML: "@,
        EditError::TempFilePersist => "Failed to persist temp XML: "@,
        EditError::NoEditorConfigured => "No default editor set (VISUAL/EDITOR). Please set one to edit XML."@,
        EditError::EditorLaunch => "Failed to launch editor: "@,
        EditError::EditorWait => "Editor wait failed: "@,
        EditError::TempFileRead => "Read temp file failed: "@,
    }
}

impl EditError {
    /// The user-visible message for this failure; the caller appends the
    /// operating system's own description where there is one.
    pub fn message_prefix(&self) -> (r: &'static str)
        ensures
            r@ == spec_message_prefix(*self),
    {
        match self {
            EditError::TempFileCreate => "Failed to create temp file: ",
            EditError::TempFileWrite => "Failed writing temp XML: ",
            EditError::TempFilePersist => "Failed to persist temp XML: ",
            EditError::NoEditorConfigured => "No default editor set (VISUAL/EDITOR). Please set one to edit XML.",
            EditError::EditorLaunch => "Failed to launch editor: ",
            EditError::EditorWait => "Editor wait failed: ",
            EditError::TempFileRead => "Read temp file failed: ",
        }
    }
}

/// The outcome of one step's outside work, reported by the caller.
/// `EditorExited` carries whether waiting succeeded; the editor's exit
/// code itself is deliberately not inspected.
pub enum EditEvent {
    FileCreated(bool),
    FileWritten(bool),
    FilePersisted(bool),
    EditorResolved(Option<String>),
    EditorSpawned(bool),
    EditorExited(bool),
    FileRead(Option<String>),
}

/// What the caller must do next.  The session starts by creating the
/// temporary file; `Deliver` hands the edited text to the reconciler and
/// `Fail` surfaces the error, both ending the session.
pub enum EditAction {
    WriteFile,
    PersistFile,
    ResolveEditor,
    SpawnEditor(String),
    AwaitExit,
    ReadFile,
    Deliver(String),
    Fail(EditError),
}

pub open spec fn spec_resolve_editor(visual: Option<String>, editor: Option<String>) -> Option<
    String,
> {
    if visual is Some {
        visual
    } else {
        editor
    }
}

/// Picks the editor command from the two environment values:
/// `VISUAL` is preferred, `EDITOR` is the fallback.
pub fn resolve_editor(visual: Option<String>, editor: Option<String>) -> (r: Option<String>)
    ensures
        r == spec_resolve_editor(visual, editor),
{
    match visual {
        Some(v) => Some(v),
        None => editor,
    }
}

/// The next action after each outcome: a failure becomes its error, a
/// success moves to the following step of the session.
pub open spec fn spec_edit_step(ev: EditEvent) -> EditAction {
    match ev {
        EditEvent::FileCreated(ok) => if ok {
            EditAction::WriteFile
        } else {
            EditAction::Fail(EditError::TempFileCreate)
        },
        EditEvent::FileWritten(ok) => if ok {
            EditAction::PersistFile
        } else {
            EditAction::Fail(EditError::TempFileWrite)
        },
        EditEvent::FilePersisted(ok) => if ok {
            EditAction::ResolveEditor
        } else {
            EditAction::Fail(EditError::TempFilePersist)
        },
        EditEvent::EditorResolved(cmd) => match cmd {
            Some(c) => EditAction::SpawnEditor(c),
            None => EditAction::Fail(EditError::NoEditorConfigured),
        },
        EditEvent::EditorSpawned(ok) => if ok {
            EditAction::AwaitExit
        } else {
            EditAction::Fail(EditError::EditorLaunch)
        },
        EditEvent::EditorExited(ok) => if ok {
            EditAction::ReadFile
        } else {
            EditAction::Fail(EditError::EditorWait)
        },
        EditEvent::FileRead(contents) => match contents {
            Some(text) => EditAction::Deliver(text),
            None => EditAction::Fail(EditError::TempFileRead),
        },
    }
}

/// Decides what the caller does after one step's outcome.
pub fn edit_step(ev: EditEvent) -> (r: EditAction)
    ensures
        r == spec_edit_step(ev),
{
    match ev {
        EditEvent::FileCreated(ok) => if ok {
            EditAction::WriteFile
        } else {
            EditAction::Fail(EditError::TempFileCreate)
        },
        EditEvent::FileWritten(ok) => if ok {
            EditAction::PersistFile
        } else {
            EditAction::Fail(EditError::TempFileWrite)
        },
        EditEvent::FilePersisted(ok) => if ok {
            EditAction::ResolveEditor
        } else {
            EditAction::Fail(EditError::TempFilePersist)
        },
        EditEvent::EditorResolved(cmd) => match cmd {
            Some(c) => EditAction::SpawnEditor(c),
            None => EditAction::Fail(EditError::NoEditorConfigured),
        },
        EditEvent::EditorSpawned(ok) => if ok {
            EditAction::AwaitExit
        } else {
            EditAction::Fail(EditError::EditorLaunch)
        },
        EditEvent::EditorExited(ok) => if ok {
            EditAction::ReadFile
        } else {
            EditAction::Fail(EditError::EditorWait)
        },
        EditEvent::FileRead(contents) => match contents {
            Some(text) => EditAction::Deliver(text),
            None => EditAction::Fail(EditError::TempFileRead),
        },
    }
}

/// No-editor short-circuit: with neither `VISUAL` nor `EDITOR` set the
/// session fails with `NoEditorConfigured`, and no event other than a
/// successfully resolved editor ever asks for a process to be spawned —
/// so no child process is created.
pub proof fn lemma_no_editor_short_circuit(ev: EditEvent)
    ensures
        spec_edit_step(EditEvent::EditorResolved(spec_resolve_editor(None, None)))
            == EditAction::Fail(EditError::NoEditorConfigured),
        spec_edit_step(ev) matches EditAction::SpawnEditor(cmd) ==> ev
            == EditEvent::EditorResolved(Some(cmd)),
{
}

/// Every failure has its own message: two different errors are never
/// reported with the same text.
pub proof fn lemma_error_messages_distinct(a: EditError, b: EditError)
    requires
        a != b,
    ensures
        spec_message_prefix(a) != spec_message_prefix(b),
{
    reveal_strlit("Failed to create temp file: ");
    reveal_strlit("Failed writing temp XML: ");
    reveal_strlit("Failed to persist temp XML: ");
    reveal_strlit("No default editor set (VISUAL/EDITOR). Please set one to edit XML.");
    reveal_strlit("Failed to launch editor: ");
    reveal_strlit("Editor wait failed: ");
    reveal_strlit("Read temp file failed: ");
    assert("Failed to create temp file: "@.len() == 28);
    assert("Failed writing temp XML: "@.len() == 25);
    assert("Failed to persist temp XML: "@.len() == 28);
    assert("No default editor set (VISUAL/EDITOR). Please set one to edit XML."@.len() == 66);
    assert("Failed to launch editor: "@.len() == 25);
    assert("Editor wait failed: "@.len() == 20);
    assert("Read temp file failed: "@.len() == 23);
    assert("Failed to create temp file: "@[10] == 'c');
    assert("Failed to persist temp XML: "@[10] == 'p');
    assert("Failed writing temp XML: "@[7] == 'w');
    assert("Failed to launch editor: "@[7] == 't');
}

} // verus!
