//! Papers, projects and the other records that the application shows.

use vstd::prelude::*;

verus! {

/// A copy of an optional text.
pub fn clone_text(text: &Option<String>) -> (r: Option<String>)
    ensures
        r == *text,
{
    match text {
        Some(s) => Some(s.clone()),
        None => None,
    }
}

/// The characters of an optional text.
pub open spec fn opt_text(text: Option<String>) -> Option<Seq<char>> {
    match text {
        Some(s) => Some(s@),
        None => None,
    }
}

/// A copy of a list of texts.
pub fn clone_texts(v: &Vec<String>) -> (r: Vec<String>)
    ensures
        r@ == v@,
{
    let mut r: Vec<String> = Vec::new();
    let mut i: usize = 0;
    while i < v.len()
        invariant
            i <= v@.len(),
            r@ == v@.take(i as int),
        decreases v.len() - i,
    {
        r.push(v[i].clone());
        i = i + 1;
        assert(r@ =~= v@.take(i as int));
    }
    assert(v@.take(v@.len() as int) =~= v@);
    r
}

/// A paper of the local library.
#[derive(Debug)]
pub struct LibraryPaper {
    pub id: i64,
    pub title: String,
    pub authors: String,
    pub doi: Option<String>,
    pub arxiv_id: Option<String>,
    pub pdf_path: Option<String>,
    /// `pdf_path` with every link resolved, where the file exists.
    pub canonical_path: Option<String>,
    pub file_size: Option<u64>,
    pub reading_status: String,
    pub is_favorite: bool,
}

impl Clone for LibraryPaper {
    fn clone(&self) -> (r: LibraryPaper)
        ensures
            r == *self,
    {
        LibraryPaper {
            id: self.id,
            title: self.title.clone(),
            authors: self.authors.clone(),
            doi: clone_text(&self.doi),
            arxiv_id: clone_text(&self.arxiv_id),
            pdf_path: clone_text(&self.pdf_path),
            canonical_path: clone_text(&self.canonical_path),
            file_size: self.file_size,
            reading_status: self.reading_status.clone(),
            is_favorite: self.is_favorite,
        }
    }
}

/// A paper that a search or the daily feed found online. Dates are seconds
/// since the Unix epoch.
#[derive(Debug)]
pub struct RemotePaper {
    pub id: String,
    pub title: String,
    pub authors: Vec<String>,
    pub abstract_text: String,
    pub published: i64,
    pub updated: i64,
    pub categories: Vec<String>,
    pub pdf_url: Option<String>,
    pub doi: Option<String>,
    pub journal_ref: Option<String>,
}

/// What a remote paper holds.
#[verifier::ext_equal]
pub struct RemotePaperView {
    pub id: Seq<char>,
    pub title: Seq<char>,
    pub authors: Seq<String>,
    pub abstract_text: Seq<char>,
    pub published: i64,
    pub updated: i64,
    pub categories: Seq<String>,
    pub pdf_url: Option<String>,
    pub doi: Option<String>,
    pub journal_ref: Option<String>,
}

impl View for RemotePaper {
    type V = RemotePaperView;

    open spec fn view(&self) -> RemotePaperView {
        RemotePaperView {
            id: self.id@,
            title: self.title@,
            authors: self.authors@,
            abstract_text: self.abstract_text@,
            published: self.published,
            updated: self.updated,
            categories: self.categories@,
            pdf_url: self.pdf_url,
            doi: self.doi,
            journal_ref: self.journal_ref,
        }
    }
}

impl Clone for RemotePaper {
    fn clone(&self) -> (r: RemotePaper)
        ensures
            r@ == self@,
    {
        RemotePaper {
            id: self.id.clone(),
            title: self.title.clone(),
            authors: clone_texts(&self.authors),
            abstract_text: self.abstract_text.clone(),
            published: self.published,
            updated: self.updated,
            categories: clone_texts(&self.categories),
            pdf_url: clone_text(&self.pdf_url),
            doi: clone_text(&self.doi),
            journal_ref: clone_text(&self.journal_ref),
        }
    }
}

/// A paper that an action is about: one of the library, or one found online.
#[derive(Debug)]
pub enum PaperTarget {
    Local(i64),
    Remote(RemotePaper),
}

/// A named group of papers.
#[derive(Debug)]
pub struct CollectionSummary {
    pub id: i64,
    pub name: String,
    pub paper_count: u64,
    pub folder_path: Option<String>,
}

impl Clone for CollectionSummary {
    fn clone(&self) -> (r: CollectionSummary)
        ensures
            r == *self,
    {
        CollectionSummary {
            id: self.id,
            name: self.name.clone(),
            paper_count: self.paper_count,
            folder_path: clone_text(&self.folder_path),
        }
    }
}

/// An author and how many papers of theirs the library has.
#[derive(Debug)]
pub struct AuthorSummary {
    pub id: i64,
    pub name: String,
    pub paper_count: u64,
}

impl Clone for AuthorSummary {
    fn clone(&self) -> (r: AuthorSummary)
        ensures
            r == *self,
    {
        AuthorSummary { id: self.id, name: self.name.clone(), paper_count: self.paper_count }
    }
}

/// A bookmarked paper.
#[derive(Debug)]
pub struct BookmarkSummary {
    pub id: i64,
    pub paper_id: i64,
    pub paper_title: String,
    pub authors: String,
    pub year: Option<String>,
    pub journal: Option<String>,
    pub doi: Option<String>,
    pub pdf_path: String,
    pub page: Option<u64>,
    pub label: Option<String>,
}

/// The note of a paper, with the cursor of its editor.
#[derive(Debug)]
pub struct PaperNote {
    pub paper_id: i64,
    pub title: String,
    pub body: String,
    pub cursor: usize,
}

impl Clone for PaperNote {
    fn clone(&self) -> (r: PaperNote)
        ensures
            r == *self,
    {
        PaperNote {
            paper_id: self.paper_id,
            title: self.title.clone(),
            body: self.body.clone(),
            cursor: self.cursor,
        }
    }
}

/// A writing project.
#[derive(Debug, PartialEq, Eq)]
pub struct Project {
    pub name: String,
    pub path: String,
    pub opened_at: i64,
}

impl Clone for Project {
    fn clone(&self) -> (r: Project)
        ensures
            r == *self,
    {
        Project { name: self.name.clone(), path: self.path.clone(), opened_at: self.opened_at }
    }
}

/// An entry of the project file tree.
#[derive(Debug)]
pub struct ProjectEntry {
    pub path: String,
    pub is_dir: bool,
}

impl Clone for ProjectEntry {
    fn clone(&self) -> (r: ProjectEntry)
        ensures
            r == *self,
    {
        ProjectEntry { path: self.path.clone(), is_dir: self.is_dir }
    }
}

#[derive(Debug, Clone, Copy, PartialEq, Eq, Structural)]
pub enum ProjectDiagnosticSeverity {
    Error,
    Warning,
    Info,
}

/// A message of a compiler about a source file.
#[derive(Debug)]
pub struct ProjectBuildDiagnostic {
    pub severity: ProjectDiagnosticSeverity,
    pub title: String,
    pub description: String,
    pub file: Option<String>,
    pub line: Option<usize>,
    pub col: Option<usize>,
    pub code: Option<String>,
    pub hint: Option<String>,
}

/// A completion that the editor offers.
#[derive(Debug)]
pub struct CompletionItem {
    pub label: String,
    pub insert_text: String,
}

/// How far a download is.
#[derive(Debug)]
pub enum DownloadStatus {
    Starting,
    Running,
    ExtractingMetadata,
    Enriching,
    Renaming,
    Completed,
    Failed(String),
}

/// A download, past or present. `failed_at` is in milliseconds of the
/// application's clock.
#[derive(Debug)]
pub struct DownloadTask {
    pub id: String,
    pub title: String,
    pub downloaded: u64,
    pub total: Option<u64>,
    pub paper_id: Option<i64>,
    pub pdf_path: Option<String>,
    /// `pdf_path` with every link resolved, where the file exists.
    pub canonical_path: Option<String>,
    pub status: DownloadStatus,
    pub remote_paper: Option<RemotePaper>,
    pub failed_at: Option<u64>,
}

/// A question that asks for a name: of a collection, or of a PDF file.
#[derive(Debug)]
pub struct MetadataPrompt {
    pub paper_id: Option<i64>,
    pub rename_collection_id: Option<i64>,
    pub rename_paper_id: Option<i64>,
    pub value: String,
    pub cursor: usize,
    pub selected: usize,
    pub current_collection: Option<String>,
}

/// What the user is about to delete.
#[allow(inconsistent_fields)]
#[derive(Debug)]
pub enum DeletionTarget {
    Project { project: Project },
    Paper { id: i64, title: String, path: Option<String> },
    Collection { id: i64, name: String, path: Option<String> },
    ProjectEntry { path: String, name: String, is_directory: bool },
}

/// A result of the citation search of a project.
#[derive(Debug)]
pub enum ProjectCitationResult {
    Local(LibraryPaper),
    Online(RemotePaper),
}

/// A page to open in the browser from the Credits page.
#[derive(Debug)]
pub struct CreditsItem {
    pub label: String,
    pub url: String,
}

} // verus!
