//! What the application is asked to do after a key: work outside the state.

use vstd::prelude::*;
use crate::model::{LibraryPaper, MetadataPrompt, PaperNote, PaperTarget, Project, RemotePaper};

verus! {

/// What follows once the edited project file has been written.
#[derive(Debug, Clone, Copy, PartialEq, Eq, Structural)]
pub enum AfterSave {
    Stay,
    CloseProject,
    ReturnToFileTree,
}

/// Where completion candidates for the terminal come from.
#[derive(Debug, Clone, Copy, PartialEq, Eq, Structural)]
pub enum CandidateKind {
    Commands,
    Paths,
}

#[allow(inconsistent_fields)]
#[derive(Debug)]
pub enum UiAction {
    Search(String),
    RetryDiscoverMore,
    OpenPaper(RemotePaper),
    OpenBrowser(String),
    Download(RemotePaper),
    Reindex,
    OpenPdf { paper_id: i64, path: String },
    OpenNote(PaperTarget),
    SaveNote(PaperNote),
    Prompt(PaperTarget),
    RenameCollection(i64),
    CreateCollection,
    SubmitPrompt(MetadataPrompt),
    Bookmark(PaperTarget),
    OpenCollection(i64),
    OpenAuthor(i64),
    OpenDownload(String),
    RenamePdf(i64),
    MarkUnread(i64),
    CopyCitation(PaperTarget),
    InsertProjectCitation(LibraryPaper),
    InsertProjectRemoteCitation(RemotePaper),
    SearchProjectCitationsOnline(String),
    ConfirmDeletePaper { paper_id: i64, title: String, path: Option<String> },
    ConfirmDeleteCollection { collection_id: i64, name: String, path: Option<String> },
    DeletePaper { paper_id: i64, path: Option<String> },
    DeleteCollection { collection_id: i64, path: Option<String> },
    AddToQueue(i64),
    RemoveFromQueue(i64),
    MoveQueueItemUp(i64),
    MoveQueueItemDown(i64),
    ClosePdf,
    CloseProject,
    RetryDownload { id: String, paper: RemotePaper },
    RefreshProjects,
    CreateProject { name: String, compiler: String },
    CreateProjectFile(String),
    OpenProject(Project),
    OpenProjectFile(String),
    ConfirmDeleteProjectEntry(String),
    DeleteProjectEntry(String),
    RenameProject { project: Project, name: String },
    ConfirmDeleteProject(Project),
    DeleteProject(Project),
    RenameProjectEntry { path: String, name: String },
    /// Write the edited project file.
    SaveProjectEditor(AfterSave),
    /// List a folder of the project; `previous` is the entry to select.
    ListProjectFolder { path: String, previous: Option<String> },
    /// Open the source file a diagnostic points to, at a line.
    OpenDiagnostic { path: String, line: usize },
    /// Find the citation key that is being typed, and complete it.
    AcceptProjectCompletion,
    /// Read the clipboard and paste it.
    PasteClipboard,
    /// Put a text on the clipboard.
    CopyText(String),
    /// Run a shell command.
    RunTerminalCommand(String),
    /// Change the directory of the terminal palette.
    ChangeTerminalDirectory(String),
    /// Look up completions for a token of the terminal command.
    CompleteTerminal { token: String, token_start: usize, kind: CandidateKind },
}

} // verus!
