//! The StarParse XML import section of the settings: a small state machine
//! from "idle" through a preview of the file to the import itself.
use vstd::prelude::*;

use crate::records::{StarParseImportResult, StarParsePreview};

verus! {

/// Where the import section stands.
pub enum ImportState {
    /// Waiting for the user to pick a file.
    Idle,
    /// The chosen file is being parsed for a preview.
    Previewing,
    /// The preview of the file at the path is shown, awaiting confirmation.
    Ready(String, StarParsePreview),
    /// The import is running.
    Importing,
    /// The import finished with this result.
    Done(StarParseImportResult),
    /// Parsing or importing failed with this message.
    Error(String),
}

/// What happened in the import section.
pub enum ImportEvent {
    /// The user picked a file to import.
    FileChosen(String),
    /// The picked file was parsed into a preview.
    PreviewLoaded(String, StarParsePreview),
    /// The picked file could not be parsed.
    PreviewFailed(String),
    /// The user confirmed the import of the previewed file.
    Confirm,
    /// The import finished.
    ImportFinished(StarParseImportResult),
    /// The import failed.
    ImportFailed(String),
    /// The user cancelled the preview or asked to import another file.
    Reset,
}

/// Work to start after a transition.
pub enum ImportAction {
    /// Nothing to start.
    Nothing,
    /// Parse the file at the path for a preview.
    StartPreview(String),
    /// Import the file at the path.
    StartImport(String),
}

/// Apply an event to the import section. Events the current state does not
/// expect leave it unchanged and start nothing:
/// - a chosen file, when idle or after an error, starts its preview;
/// - while previewing, a preview shows it, and a failure shows the error;
/// - a shown preview is imported on confirmation, or dropped on reset;
/// - while importing, the result or the failure is shown;
/// - after a result, reset returns to idle.
pub fn step(state: ImportState, event: ImportEvent) -> (r: (ImportState, ImportAction))
    ensures
        match (state, event) {
            (ImportState::Idle, ImportEvent::FileChosen(p)) | (ImportState::Error(_), ImportEvent::FileChosen(p)) =>
                {
                &&& r.0 is Previewing
                &&& r.1 matches ImportAction::StartPreview(q) && q@ == p@
            },
            (ImportState::Previewing, ImportEvent::PreviewLoaded(p, v)) =>
                r.0 matches ImportState::Ready(q, w) && q@ == p@ && w == v && r.1 is Nothing,
            (ImportState::Previewing, ImportEvent::PreviewFailed(m)) =>
                r.0 matches ImportState::Error(e) && e@ == m@ && r.1 is Nothing,
            (ImportState::Ready(p, _), ImportEvent::Confirm) =>
                {
                &&& r.0 is Importing
                &&& r.1 matches ImportAction::StartImport(q) && q@ == p@
            },
            (ImportState::Ready(..), ImportEvent::Reset) => r.0 is Idle && r.1 is Nothing,
            (ImportState::Importing, ImportEvent::ImportFinished(res)) =>
                r.0 == ImportState::Done(res) && r.1 is Nothing,
            (ImportState::Importing, ImportEvent::ImportFailed(m)) =>
                r.0 matches ImportState::Error(e) && e@ == m@ && r.1 is Nothing,
            (ImportState::Done(..), ImportEvent::Reset) => r.0 is Idle && r.1 is Nothing,
            (s, _) => r.0 == s && r.1 is Nothing,
        },
{
    match (state, event) {
        (ImportState::Idle, ImportEvent::FileChosen(p)) => (ImportState::Previewing, ImportAction::StartPreview(p)),
        (ImportState::Error(_), ImportEvent::FileChosen(p)) => (ImportState::Previewing, ImportAction::StartPreview(p)),
        (ImportState::Previewing, ImportEvent::PreviewLoaded(p, v)) => (ImportState::Ready(p, v), ImportAction::Nothing),
        (ImportState::Previewing, ImportEvent::PreviewFailed(m)) => (ImportState::Error(m), ImportAction::Nothing),
        (ImportState::Ready(p, _), ImportEvent::Confirm) => (ImportState::Importing, ImportAction::StartImport(p)),
        (ImportState::Ready(..), ImportEvent::Reset) => (ImportState::Idle, ImportAction::Nothing),
        (ImportState::Importing, ImportEvent::ImportFinished(res)) => (ImportState::Done(res), ImportAction::Nothing),
        (ImportState::Importing, ImportEvent::ImportFailed(m)) => (ImportState::Error(m), ImportAction::Nothing),
        (ImportState::Done(..), ImportEvent::Reset) => (ImportState::Idle, ImportAction::Nothing),
        (s, _) => (s, ImportAction::Nothing),
    }
}

} // verus!
