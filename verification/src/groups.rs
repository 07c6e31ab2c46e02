//! Names that the user gives: to collections of papers and to PDF files.

use vstd::prelude::*;
use crate::chars::{
    ends_with, ends_with_text, eq_ignore_ascii_case, is_blank, join, joined_with,
    lemma_blank_is_trimmed_empty, lowercase, same_ignoring_ascii_case, to_lowercase, trim, trimmed,
};
use crate::config_editor::message;
use crate::downloads::{find_paper_task, law_tasks_are_found_by_paper, paper_task_at};
use crate::library::{
    collection_at, find_collection, law_collections_are_found_by_identifier,
};
use crate::model::{
    opt_text, CollectionSummary, DownloadStatus, DownloadTask, LibraryPaper, MetadataPrompt,
    RemotePaper,
};
use crate::papers::paper_with_id;
use crate::path_laws::{law_names_stand_below_their_folder, law_paths_end_in_their_file_name};
use crate::paths::{
    file_name, is_below, joined, parent, path_eq, path_file_name, path_join, path_parent,
    path_with_file_name, same_path, with_file_name,
};
use crate::state::{App, AppMode};
use crate::text::{group_points, to_chars};
use crate::viewer::Platform;

verus! {

broadcast use group_points;

/// An empty question for a name.
pub open spec fn is_empty_prompt(p: MetadataPrompt) -> bool {
    p.value@.len() == 0 && p.cursor == 0 && p.selected == 0
}

/// A question for a name is open.
pub open spec fn prompt_opened(pre: App, post: App) -> bool {
    &&& post == App { mode: AppMode::Prompt, metadata_prompt: post.metadata_prompt, ..pre }
    &&& (post.metadata_prompt matches Some(p) && is_empty_prompt(p))
}

/// Asks for the new name of a collection or of a PDF file.
pub fn open_rename_prompt(app: &mut App, collection_id: Option<i64>, paper_id: Option<i64>)
    ensures
        prompt_opened(*old(app), *final(app)),
        final(app).metadata_prompt matches Some(p) && p.paper_id is None && p.rename_collection_id
            == collection_id && p.rename_paper_id == paper_id && p.current_collection is None,
        old(app).wf() ==> final(app).wf(),
{
    let value = String::new();
    proof {
        crate::text::lemma_ends(value@);
    }
    app.metadata_prompt = Some(
        MetadataPrompt {
            paper_id: None,
            rename_collection_id: collection_id,
            rename_paper_id: paper_id,
            value,
            cursor: 0,
            selected: 0,
            current_collection: None,
        },
    );
    app.mode = AppMode::Prompt;
}

/// Asks for the name of a collection: a new one, another name for one, or the one
/// that a paper goes to.
pub fn show_collection_prompt(
    app: &mut App,
    paper_id: Option<i64>,
    rename_id: Option<i64>,
    current_collection: Option<String>,
)
    ensures
        prompt_opened(*old(app), *final(app)),
        final(app).metadata_prompt matches Some(p) && p.paper_id == paper_id
            && p.rename_collection_id == rename_id && p.rename_paper_id is None
            && p.current_collection == current_collection,
        old(app).wf() ==> final(app).wf(),
{
    let value = String::new();
    proof {
        crate::text::lemma_ends(value@);
    }
    app.metadata_prompt = Some(
        MetadataPrompt {
            paper_id,
            rename_collection_id: rename_id,
            rename_paper_id: None,
            value,
            cursor: 0,
            selected: 0,
            current_collection,
        },
    );
    app.mode = AppMode::Prompt;
}

/// What an answered question asks for. All but the first two need a name that a
/// collection can have.
#[allow(inconsistent_fields)]
#[derive(Debug)]
pub enum PromptRequest {
    Nothing,
    RenamePdf { paper_id: i64, name: String },
    RenameCollection { collection_id: i64, name: String },
    CreateCollection { name: String },
    AssignPaper { paper_id: i64, name: String },
}

/// What an answered question asks for: the name without the space round it
/// counts, and an empty one asks for nothing.
pub open spec fn prompt_asks(prompt: MetadataPrompt, request: PromptRequest) -> bool {
    let given = trimmed(prompt.value@);
    if given.len() == 0 {
        request is Nothing
    } else {
        match (prompt.rename_paper_id, prompt.rename_collection_id, prompt.paper_id) {
            (Some(id), _, _) => request matches PromptRequest::RenamePdf { paper_id, name }
                && paper_id == id && name@ == given,
            (None, Some(id), _) => request matches PromptRequest::RenameCollection {
                collection_id,
                name,
            } && collection_id == id && name@ == given,
            (None, None, None) => request matches PromptRequest::CreateCollection { name } && name@
                == given,
            (None, None, Some(id)) => request matches PromptRequest::AssignPaper { paper_id, name }
                && paper_id == id && name@ == given,
        }
    }
}

/// What an answered question asks for.
pub fn apply_collection_prompt(prompt: &MetadataPrompt) -> (request: PromptRequest)
    ensures
        prompt_asks(*prompt, request),
{
    let name = trim(prompt.value.as_str());
    if name.as_str().is_empty() {
        return PromptRequest::Nothing;
    }
    match (prompt.rename_paper_id, prompt.rename_collection_id, prompt.paper_id) {
        (Some(paper_id), _, _) => PromptRequest::RenamePdf { paper_id, name },
        (None, Some(collection_id), _) => PromptRequest::RenameCollection { collection_id, name },
        (None, None, None) => PromptRequest::CreateCollection { name },
        (None, None, Some(paper_id)) => PromptRequest::AssignPaper { paper_id, name },
    }
}

/// A name with a path separator in it.
pub open spec fn has_separator(name: Seq<char>) -> bool {
    name.contains('/') || name.contains('\\')
}

fn contains_separator(name: &str) -> (r: bool)
    ensures
        r == has_separator(name@),
{
    let v = to_chars(name);
    let mut i: usize = 0;
    while i < v.len()
        invariant
            i <= v@.len(),
            v@ == name@,
            forall|k: int| 0 <= k < i ==> v@[k] != '/' && v@[k] != '\\',
        decreases v.len() - i,
    {
        if v[i] == '/' || v[i] == '\\' {
            assert(name@.contains(v@[i as int]));
            return true;
        }
        i = i + 1;
    }
    false
}

/// A name with the extension of a PDF file.
pub open spec fn pdf_name(name: Seq<char>) -> Seq<char> {
    if ends_with_text(lowercase(name), ".pdf"@) {
        name
    } else {
        name + ".pdf"@
    }
}

/// A PDF file that is to be renamed.
#[derive(Debug)]
pub struct PdfRename {
    pub source: String,
    pub destination: String,
}

/// Where the PDF file of a paper goes under a new name: nowhere, where it has that
/// name, or why it cannot be renamed.
pub open spec fn rename_plan(
    os: Platform,
    papers: Seq<LibraryPaper>,
    paper_id: i64,
    name: Seq<char>,
) -> Result<
    Option<(Seq<char>, Seq<char>)>,
    Seq<char>,
> {
    if has_separator(name) {
        Err("filename must not contain path separators"@)
    } else {
        match paper_with_id(papers, paper_id, 0) {
            None => Err("paper not found"@),
            Some(paper) => match paper.pdf_path {
                None => Err("paper has no local PDF"@),
                Some(source) => {
                    let destination = with_file_name(os, source@, pdf_name(name));
                    if same_path(os, source@, destination) {
                        Ok(None)
                    } else {
                        Ok(Some((source@, destination)))
                    }
                },
            },
        }
    }
}

/// A rename by its views.
pub open spec fn rename_view(r: Result<Option<PdfRename>, String>) -> Result<
    Option<(Seq<char>, Seq<char>)>,
    Seq<char>,
> {
    match r {
        Ok(Some(rename)) => Ok(Some((rename.source@, rename.destination@))),
        Ok(None) => Ok(None),
        Err(error) => Err(error@),
    }
}

/// The paper with the identifier.
fn find_paper(papers: &Vec<LibraryPaper>, id: i64) -> (r: Option<usize>)
    ensures
        match r {
            Some(i) => i < papers@.len() && paper_with_id(papers@, id, 0) == Some(
                papers@[i as int],
            ),
            None => paper_with_id(papers@, id, 0) is None,
        },
{
    let mut i: usize = 0;
    while i < papers.len()
        invariant
            i <= papers@.len(),
            paper_with_id(papers@, id, 0) == paper_with_id(papers@, id, i as int),
        decreases papers.len() - i,
    {
        if papers[i].id == id {
            return Some(i);
        }
        i = i + 1;
    }
    None
}

/// Where the PDF file of a paper goes under a new name.
pub fn rename_paper_pdf(app: &App, paper_id: i64, name: &str) -> (r: Result<
    Option<PdfRename>,
    String,
>)
    ensures
        rename_view(r) == rename_plan(app.platform, app.library.papers@, paper_id, name@),
{
    if contains_separator(name) {
        return Err("filename must not contain path separators".to_owned());
    }
    let new_name = if ends_with(to_lowercase(name).as_str(), ".pdf") {
        name.to_owned()
    } else {
        message(name, ".pdf")
    };
    match find_paper(&app.library.papers, paper_id) {
        None => Err("paper not found".to_owned()),
        Some(i) => match &app.library.papers[i].pdf_path {
            None => Err("paper has no local PDF".to_owned()),
            Some(source) => {
                let destination = path_with_file_name(
                    app.platform,
                    source.as_str(),
                    new_name.as_str(),
                );
                if path_eq(app.platform, source.as_str(), destination.as_str()) {
                    Ok(None)
                } else {
                    Ok(Some(PdfRename { source: source.clone(), destination }))
                }
            },
        },
    }
}

/// The first download of the paper has the status.
pub open spec fn with_status(
    tasks: Seq<DownloadTask>,
    paper_id: i64,
    status: DownloadStatus,
) -> Seq<DownloadTask> {
    match paper_task_at(tasks, paper_id, 0) {
        Some(i) => tasks.update(i, DownloadTask { status, ..tasks[i] }),
        None => tasks,
    }
}

/// Shows that the file of a download is being renamed.
pub fn begin_pdf_rename(app: &mut App, paper_id: i64)
    ensures
        *final(app) == (App { downloads: final(app).downloads, ..*old(app) }),
        final(app).downloads.selected == old(app).downloads.selected,
        final(app).downloads.items@ == with_status(
            old(app).downloads.items@,
            paper_id,
            DownloadStatus::Renaming,
        ),
        old(app).wf() ==> final(app).wf(),
{
    if let Some(i) = find_paper_task(&app.downloads.items, paper_id) {
        let ghost before = app.downloads.items@;
        app.downloads.items[i].status = DownloadStatus::Renaming;
        assert(app.downloads.items@ =~= with_status(before, paper_id, DownloadStatus::Renaming));
    }
}

/// Shows that the file of a download has been renamed.
pub fn finish_pdf_rename(
    app: &mut App,
    paper_id: i64,
    destination: String,
    canonical_path: Option<String>,
)
    ensures
        *final(app) == (App { downloads: final(app).downloads, ..*old(app) }),
        final(app).downloads.selected == old(app).downloads.selected,
        final(app).downloads.items@ == match paper_task_at(
            old(app).downloads.items@,
            paper_id,
            0,
        ) {
            Some(i) => old(app).downloads.items@.update(
                i,
                (DownloadTask {
                    pdf_path: Some(destination),
                    canonical_path,
                    status: DownloadStatus::Completed,
                    ..old(app).downloads.items@[i]
                }),
            ),
            None => old(app).downloads.items@,
        },
        old(app).wf() ==> final(app).wf(),
{
    if let Some(i) = find_paper_task(&app.downloads.items, paper_id) {
        let ghost before = app.downloads.items@;
        app.downloads.items[i].pdf_path = Some(destination);
        app.downloads.items[i].canonical_path = canonical_path;
        app.downloads.items[i].status = DownloadStatus::Completed;
        assert(app.downloads.items@ =~= before.update(
            i as int,
            DownloadTask {
                pdf_path: Some(destination),
                canonical_path,
                status: DownloadStatus::Completed,
                ..before[i as int]
            },
        ));
    }
}

/// The folder of a collection: its own, or the one under its name.
pub open spec fn folder_of(
    os: Platform,
    collection: CollectionSummary,
    root: Seq<char>,
) -> Seq<char> {
    match collection.folder_path {
        Some(folder) => folder@,
        None => joined(os, root, collection.name@),
    }
}

fn collection_folder(os: Platform, collection: &CollectionSummary, root: &str) -> (r: String)
    ensures
        r@ == folder_of(os, *collection, root@),
{
    match &collection.folder_path {
        Some(folder) => folder.clone(),
        None => path_join(os, root, collection.name.as_str()),
    }
}

/// Where the folder of a collection goes under a new name, or that there is no
/// such collection.
pub open spec fn collection_rename_plan(
    os: Platform,
    items: Seq<CollectionSummary>,
    id: i64,
    name: Seq<char>,
    root: Seq<char>,
) -> Result<(Seq<char>, Seq<char>), Seq<char>> {
    match collection_at(items, id, 0) {
        None => Err("group no longer exists"@),
        Some(i) => {
            let old_folder = folder_of(os, items[i], root);
            let above = match parent(os, old_folder) {
                Some(above) => above,
                None => root,
            };
            Ok((old_folder, joined(os, above, name)))
        },
    }
}

/// Where the folder of a collection goes under a new name.
pub fn rename_collection(app: &App, id: i64, name: &str, root: &str) -> (r: Result<
    (String, String),
    String,
>)
    ensures
        match collection_rename_plan(app.platform, app.collections.items@, id, name@, root@) {
            Ok(plan) => r matches Ok(folders) && folders.0@ == plan.0 && folders.1@ == plan.1,
            Err(error) => r matches Err(found) && found@ == error,
        },
{
    match find_collection(&app.collections.items, id) {
        None => Err("group no longer exists".to_owned()),
        Some(i) => {
            let folder = collection_folder(app.platform, &app.collections.items[i], root);
            let renamed = match path_parent(app.platform, folder.as_str()) {
                Some(above) => path_join(app.platform, above.as_str(), name),
                None => path_join(app.platform, root, name),
            };
            Ok((folder, renamed))
        },
    }
}

/// The first collection from index `i` on with the name, in any case.
pub open spec fn named_collection(
    items: Seq<CollectionSummary>,
    name: Seq<char>,
    i: int,
) -> Option<CollectionSummary>
    decreases items.len() - i,
{
    if i < 0 || i >= items.len() {
        None
    } else if same_ignoring_ascii_case(items[i].name@, name) {
        Some(items[i])
    } else {
        named_collection(items, name, i + 1)
    }
}

fn find_named(items: &Vec<CollectionSummary>, name: &str) -> (r: Option<usize>)
    ensures
        match r {
            Some(i) => i < items@.len() && named_collection(items@, name@, 0) == Some(
                items@[i as int],
            ),
            None => named_collection(items@, name@, 0) is None,
        },
{
    let mut i: usize = 0;
    while i < items.len()
        invariant
            i <= items@.len(),
            named_collection(items@, name@, 0) == named_collection(items@, name@, i as int),
        decreases items.len() - i,
    {
        if eq_ignore_ascii_case(items[i].name.as_str(), name) {
            return Some(i);
        }
        i = i + 1;
    }
    None
}

/// The folder of a new collection, or that there is one with the name.
pub fn create_collection(app: &App, name: &str, root: &str) -> (r: Result<String, String>)
    ensures
        if named_collection(app.collections.items@, name@, 0) is Some {
            r matches Err(error) && error@ == "a group with this name already exists"@
        } else {
            r matches Ok(folder) && folder@ == joined(app.platform, root@, name@)
        },
{
    match find_named(&app.collections.items, name) {
        Some(_) => Err("a group with this name already exists".to_owned()),
        None => Ok(path_join(app.platform, root, name)),
    }
}

/// The collection that a paper goes to: one that there is, or a new one.
#[derive(Debug)]
pub struct CollectionTarget {
    pub existing: Option<i64>,
    pub folder: String,
}

/// The collection with the name, in any case, and its folder; a new one in its own
/// folder otherwise.
pub open spec fn is_target(
    os: Platform,
    items: Seq<CollectionSummary>,
    name: Seq<char>,
    root: Seq<char>,
    target: CollectionTarget,
) -> bool {
    match named_collection(items, name, 0) {
        Some(collection) => target.existing == Some(collection.id) && target.folder@ == folder_of(
            os,
            collection,
            root,
        ),
        None => target.existing is None && target.folder@ == joined(os, root, name),
    }
}

/// The collection that a paper goes to.
pub fn collection_target(
    os: Platform,
    items: &Vec<CollectionSummary>,
    name: &str,
    root: &str,
) -> (r:
    CollectionTarget)
    ensures
        is_target(os, items@, name@, root@, r),
{
    match find_named(items, name) {
        Some(i) => CollectionTarget {
            existing: Some(items[i].id),
            folder: collection_folder(os, &items[i], root),
        },
        None => CollectionTarget { existing: None, folder: path_join(os, root, name) },
    }
}

/// A paper that goes to a collection: its file, and the collection.
#[derive(Debug)]
pub struct Assignment {
    pub source: String,
    pub target: CollectionTarget,
    /// The file in the folder of the collection; nothing where the path of the
    /// paper names no file.
    pub destination: Option<String>,
}

/// The file in a folder.
pub open spec fn moved_to(os: Platform, source: Seq<char>, folder: Seq<char>) -> Option<Seq<char>> {
    match file_name(os, source) {
        Some(name) => Some(joined(os, folder, name)),
        None => None,
    }
}

/// Where a file goes in a folder; nothing where the path names no file.
pub fn destination_in(os: Platform, source: &str, folder: &str) -> (r: Option<String>)
    ensures
        opt_text(r) == moved_to(os, source@, folder@),
{
    match path_file_name(os, source) {
        Some(name) => Some(path_join(os, folder, name.as_str())),
        None => None,
    }
}

/// Plans to put a paper of the library into a collection.
pub fn assign_paper_to_collection(app: &App, paper_id: i64, name: &str, root: &str) -> (r: Result<
    Assignment,
    String,
>)
    ensures
        match paper_with_id(app.library.papers@, paper_id, 0) {
            None => r matches Err(error) && error@
                == "paper must have a local PDF before group assignment"@,
            Some(paper) => match paper.pdf_path {
                None => r matches Err(error) && error@ == "paper has no local PDF"@,
                Some(path) => {
                    &&& r is Ok
                    &&& r->Ok_0.source@ == path@
                    &&& is_target(
                        app.platform,
                        app.collections.items@,
                        name@,
                        root@,
                        r->Ok_0.target,
                    )
                    &&& opt_text(r->Ok_0.destination) == moved_to(
                        app.platform,
                        path@,
                        r->Ok_0.target.folder@,
                    )
                },
            },
        },
{
    match find_paper(&app.library.papers, paper_id) {
        None => Err("paper must have a local PDF before group assignment".to_owned()),
        Some(i) => match &app.library.papers[i].pdf_path {
            None => Err("paper has no local PDF".to_owned()),
            Some(source) => {
                let target = collection_target(app.platform, &app.collections.items, name, root);
                let destination = destination_in(
                    app.platform,
                    source.as_str(),
                    target.folder.as_str(),
                );
                Ok(Assignment { source: source.clone(), target, destination })
            },
        },
    }
}

/// What a citation is made of.
#[derive(Debug)]
pub struct CitationMetadata {
    pub title: String,
    pub authors: String,
    pub doi: Option<String>,
    pub arxiv_id: Option<String>,
    pub year: Option<String>,
    pub journal_ref: Option<String>,
}

/// What a citation of a remote paper is made of. `year` is the year in which it was
/// published.
pub fn remote_citation_metadata(paper: RemotePaper, year: String) -> (r: CitationMetadata)
    ensures
        r.title == paper.title,
        r.authors@ == joined_with(paper.authors@, " and "@),
        r.doi == paper.doi,
        r.arxiv_id == Some(paper.id),
        r.year == Some(year),
        r.journal_ref == paper.journal_ref,
{
    CitationMetadata {
        authors: join(&paper.authors, " and "),
        title: paper.title,
        doi: paper.doi,
        arxiv_id: Some(paper.id),
        year: Some(year),
        journal_ref: paper.journal_ref,
    }
}

/// The answer to a question asks for what the question was about, under the name given
/// without the white space round it; a blank answer asks for nothing.
pub proof fn law_answers_ask_for_what_was_asked(prompt: MetadataPrompt, request: PromptRequest)
    requires
        prompt_asks(prompt, request),
    ensures
        request is Nothing <==> is_blank(prompt.value@),
        request matches PromptRequest::RenamePdf { paper_id, name } ==> prompt.rename_paper_id
            == Some(paper_id) && name@ == trimmed(prompt.value@),
        request matches PromptRequest::RenameCollection { collection_id, name }
            ==> prompt.rename_collection_id == Some(collection_id) && prompt.rename_paper_id is None
            && name@ == trimmed(prompt.value@),
        request matches PromptRequest::AssignPaper { paper_id, name } ==> prompt.paper_id == Some(
            paper_id,
        ) && prompt.rename_paper_id is None && prompt.rename_collection_id is None && name@
            == trimmed(prompt.value@),
        request matches PromptRequest::CreateCollection { name } ==> prompt.paper_id is None
            && prompt.rename_paper_id is None && prompt.rename_collection_id is None && name@
            == trimmed(prompt.value@),
{
    lemma_blank_is_trimmed_empty(prompt.value@);
}

/// A name with a slash or a backslash is refused; any other name is given the extension of a
/// PDF file unless it has it, in any case, and the file stays in its folder.
pub proof fn law_renamed_files_stay_in_their_folder(
    os: Platform,
    papers: Seq<LibraryPaper>,
    paper_id: i64,
    name: Seq<char>,
)
    ensures
        name.contains('/') || name.contains('\\') ==> rename_plan(os, papers, paper_id, name)
            is Err,
        rename_plan(os, papers, paper_id, name) matches Ok(Some((from, to))) ==> {
            &&& paper_with_id(papers, paper_id, 0) is Some && paper_with_id(papers, paper_id, 0)->0.pdf_path
                is Some && from == paper_with_id(papers, paper_id, 0)->0.pdf_path->0@
            &&& ends_with_text(lowercase(name), ".pdf"@) ==> to == with_file_name(os, from, name)
            &&& !ends_with_text(lowercase(name), ".pdf"@) ==> to == with_file_name(
                os,
                from,
                name + ".pdf"@,
            )
            &&& !same_path(os, from, to)
        },
        rename_plan(os, papers, paper_id, name) is Ok <==> !name.contains('/') && !name.contains(
            '\\',
        ) && (paper_with_id(papers, paper_id, 0) matches Some(paper) && paper.pdf_path is Some),
{
}

/// A collection is found by its name when case does not count: the first that has it, and
/// none only where none has it.
pub proof fn law_collections_are_found_by_name_in_any_case(
    items: Seq<CollectionSummary>,
    name: Seq<char>,
    i: int,
)
    requires
        0 <= i <= items.len(),
    ensures
        match named_collection(items, name, i) {
            Some(c) => exists|k: int|
                i <= k < items.len() && #[trigger] items[k] == c && same_ignoring_ascii_case(
                    c.name@,
                    name,
                ) && forall|j: int|
                    i <= j < k ==> !same_ignoring_ascii_case((#[trigger] items[j]).name@, name),
            None => forall|j: int|
                i <= j < items.len() ==> !same_ignoring_ascii_case(
                    (#[trigger] items[j]).name@,
                    name,
                ),
        },
    decreases items.len() - i,
{
    if i < items.len() {
        if same_ignoring_ascii_case(items[i].name@, name) {
            assert(items[i] == named_collection(items, name, i)->0);
        } else {
            law_collections_are_found_by_name_in_any_case(items, name, i + 1);
        }
    }
}

/// A paper goes to the collection that has the name, where there is one, and otherwise to a
/// new one in a folder of that name.
pub proof fn law_papers_go_to_the_named_collection(
    os: Platform,
    items: Seq<CollectionSummary>,
    name: Seq<char>,
    root: Seq<char>,
    target: CollectionTarget,
)
    requires
        is_target(os, items, name, root, target),
    ensures
        target.existing matches Some(id) ==> exists|k: int|
            0 <= k < items.len() && (#[trigger] items[k]).id == id && same_ignoring_ascii_case(
                items[k].name@,
                name,
            ) && (items[k].folder_path is Some ==> target.folder@ == items[k].folder_path->0@) && (
            items[k].folder_path is None ==> target.folder@ == joined(os, root, items[k].name@)),
        target.existing is None ==> target.folder@ == joined(os, root, name) && forall|k: int|
            0 <= k < items.len() ==> !same_ignoring_ascii_case((#[trigger] items[k]).name@, name),
{
    law_collections_are_found_by_name_in_any_case(items, name, 0);
}

/// A renamed collection keeps its folder's place: the new folder stands beside the old one.
pub proof fn law_renamed_collections_stay_in_place(
    os: Platform,
    items: Seq<CollectionSummary>,
    id: i64,
    name: Seq<char>,
    root: Seq<char>,
)
    ensures
        collection_rename_plan(os, items, id, name, root) is Err <==> forall|i: int|
            0 <= i < items.len() ==> (#[trigger] items[i]).id != id,
        collection_rename_plan(os, items, id, name, root) matches Ok((from, to)) ==> {
            &&& exists|i: int|
                0 <= i < items.len() && (#[trigger] items[i]).id == id && (
                items[i].folder_path is Some ==> from == items[i].folder_path->0@)
            &&& parent(os, from) matches Some(above) ==> to == joined(os, above, name)
            &&& parent(os, from) is None ==> to == joined(os, root, name)
        },
{
    law_collections_are_found_by_identifier(items, id, 0);
}

/// A status is given to the first download of the paper and to no other.
pub proof fn law_status_is_given_to_one_download(
    tasks: Seq<DownloadTask>,
    paper_id: i64,
    status: DownloadStatus,
    i: int,
)
    requires
        0 <= i < tasks.len(),
    ensures
        with_status(tasks, paper_id, status).len() == tasks.len(),
        ({
            let first = tasks[i].paper_id == Some(paper_id) && forall|j: int|
                0 <= j < i ==> (#[trigger] tasks[j]).paper_id != Some(paper_id);
            let after = with_status(tasks, paper_id, status)[i];
            &&& first ==> after == DownloadTask { status, ..tasks[i] }
            &&& !first ==> after == tasks[i]
        }),
{
    law_tasks_are_found_by_paper(tasks, paper_id, 0);
}

/// Where only slashes separate, a file that goes to a folder keeps its name and lies in that
/// folder.
pub proof fn law_moved_files_keep_their_name(os: Platform, source: Seq<char>, folder: Seq<char>)
    requires
        os != Platform::Windows,
        file_name(os, source) matches Some(name) && !name.contains('\\'),
    ensures
        moved_to(os, source, folder) is Some,
        file_name(os, moved_to(os, source, folder)->0) == file_name(os, source),
        is_below(os, moved_to(os, source, folder)->0, folder),
{
    law_paths_end_in_their_file_name(os, source);
    law_names_stand_below_their_folder(os, folder, file_name(os, source)->0);
}

} // verus!
