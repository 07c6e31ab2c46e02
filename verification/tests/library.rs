use papr::groups::{
    apply_collection_prompt, assign_paper_to_collection, begin_pdf_rename, collection_target,
    create_collection, destination_in, finish_pdf_rename, open_rename_prompt,
    remote_citation_metadata, rename_collection, rename_paper_pdf, show_collection_prompt,
    PromptRequest,
};
use papr::library::{
    close_pdf_viewer, confirm_collection_deletion, confirm_paper_deletion, count_read,
    finish_scan, follow_queue_move, forget_collection, has_active_downloads,
    library_index_summary, open_author, open_collection, open_download, open_note_editor,
    refresh_library, refresh_organization, report_bookmark, report_indexed_file,
    select_renamed_collection, show_paper_detail, start_scan, Organization,
};
use papr::model::{
    AuthorSummary, CollectionSummary, DeletionTarget, DownloadStatus, DownloadTask, LibraryPaper,
    MetadataPrompt, PaperNote, RemotePaper,
};
use papr::plugins::{
    collection_changed, finish_plugin_events, plugin_calls, Plugin, PluginOutcome,
};
use papr::state::{App, AppMode, AuthorsState, CollectionsState, LibraryState};
use papr::viewer::Platform;

fn paper(id: i64, path: Option<&str>) -> LibraryPaper {
    LibraryPaper {
        id,
        title: format!("Paper {id}"),
        authors: String::new(),
        doi: None,
        arxiv_id: None,
        pdf_path: path.map(str::to_owned),
        canonical_path: None,
        file_size: None,
        reading_status: "read".into(),
        is_favorite: false,
    }
}

fn collection(id: i64, name: &str, folder: Option<&str>) -> CollectionSummary {
    CollectionSummary {
        id,
        name: name.into(),
        paper_count: 0,
        folder_path: folder.map(str::to_owned),
    }
}

fn task(id: &str, paper_id: Option<i64>, status: DownloadStatus) -> DownloadTask {
    DownloadTask {
        id: id.into(),
        title: String::new(),
        downloaded: 0,
        total: None,
        paper_id,
        pdf_path: Some(format!("/d/{id}.pdf")),
        canonical_path: None,
        status,
        remote_paper: None,
        failed_at: None,
    }
}

fn prompt(value: &str) -> MetadataPrompt {
    MetadataPrompt {
        paper_id: None,
        rename_collection_id: None,
        rename_paper_id: None,
        value: value.into(),
        cursor: 0,
        selected: 0,
        current_collection: None,
    }
}

fn organization() -> Organization {
    Organization {
        collections: Vec::new(),
        members: Vec::new(),
        collection_papers: Vec::new(),
        bookmarks: Vec::new(),
        authors: Vec::new(),
        author_papers: Vec::new(),
        notes: Vec::new(),
        reading_queue: Vec::new(),
    }
}

#[test]
fn scans_are_shown_and_summed_up() {
    assert_eq!(library_index_summary(12, 3), "Indexed 12 PDFs, imported 3 new");
    let mut library = LibraryState::default();
    assert!(start_scan(&mut library, true));
    assert!(!library.indexing && library.message.is_none());
    assert!(start_scan(&mut library, false));
    assert_eq!(library.message.as_deref(), Some("Indexing library folders..."));
    assert!(!start_scan(&mut library, false));
    finish_scan(&mut library, 5, &vec![true, false, true]);
    assert!(!library.indexing);
    assert_eq!(library.message.as_deref(), Some("Indexed 5 PDFs, imported 2 new"));
    report_indexed_file(&mut library, true, "Graphs");
    assert_eq!(library.message.as_deref(), Some("Imported Graphs"));
    report_indexed_file(&mut library, false, "Graphs");
    assert_eq!(library.message.as_deref(), Some("Ignored duplicate PDF"));
}

#[test]
fn running_downloads_hold_back_scans() {
    assert!(!has_active_downloads(&vec![
        task("1", None, DownloadStatus::Completed),
        task("2", None, DownloadStatus::Failed("x".into())),
    ]));
    assert!(has_active_downloads(&vec![task("3", None, DownloadStatus::Enriching)]));
    let mut unread = paper(2, None);
    unread.reading_status = "unread".into();
    assert_eq!(count_read(&vec![paper(1, None), unread]), 1);
}

#[test]
fn refreshed_lists_keep_their_selections() {
    let mut library = LibraryState::default();
    library.selected = 9;
    refresh_library(&mut library, vec![paper(1, None), paper(2, None)]);
    assert_eq!(library.selected, 1);
    refresh_library(&mut library, Vec::new());
    assert_eq!(library.selected, 0);

    let mut app = App::default();
    app.collections.active = Some(collection(1, "Old name", None));
    app.collections.paper_selected = 5;
    app.authors.active = Some(AuthorSummary { id: 4, name: "Gone".into(), paper_count: 1 });
    app.authors.papers = vec![paper(1, None)];
    app.authors.paper_selected = 1;
    app.reading_queue.selected = 3;
    let mut o = organization();
    o.collections = vec![collection(1, "New name", None)];
    o.collection_papers = vec![paper(1, None), paper(2, None)];
    o.reading_queue = vec![paper(1, None)];
    refresh_organization(&mut app, o);
    assert_eq!(app.collections.active.as_ref().unwrap().name, "New name");
    assert_eq!(app.collections.paper_selected, 1);
    assert!(app.authors.active.is_none());
    assert!(app.authors.papers.is_empty());
    assert_eq!(app.authors.paper_selected, 0);
    assert_eq!(app.reading_queue.selected, 0);
}

#[test]
fn reopening_a_list_restores_its_selection() {
    let mut c = CollectionsState::default();
    c.items = vec![collection(1, "a", None), collection(2, "b", None)];
    c.paper_selected = 1;
    open_collection(&mut c, 1, vec![paper(1, None), paper(2, None)]);
    assert_eq!(c.paper_selected, 0);
    assert_eq!(c.active.as_ref().unwrap().name, "a");
    c.paper_selected = 1;
    open_collection(&mut c, 1, vec![paper(1, None), paper(2, None)]);
    assert_eq!(c.paper_selected, 1);
    open_collection(&mut c, 2, vec![paper(1, None)]);
    assert_eq!(c.paper_selected, 0);
    select_renamed_collection(&mut c, 2);
    assert_eq!(c.selected, 1);
    select_renamed_collection(&mut c, 9);
    assert_eq!(c.selected, 1);
    forget_collection(&mut c, 1);
    assert!(c.active.is_some());
    forget_collection(&mut c, 2);
    assert!(c.active.is_none() && c.papers.is_empty());

    let mut a = AuthorsState::default();
    a.items = vec![AuthorSummary { id: 3, name: "Ada".into(), paper_count: 2 }];
    open_author(&mut a, 3, vec![paper(1, None), paper(2, None)]);
    a.paper_selected = 1;
    open_author(&mut a, 3, vec![paper(1, None)]);
    assert_eq!(a.paper_selected, 0);
    assert_eq!(a.active.as_ref().unwrap().name, "Ada");
}

#[test]
fn the_selection_follows_the_queue() {
    let mut app = App::default();
    app.reading_queue.papers = vec![paper(1, None), paper(2, None)];
    follow_queue_move(&mut app.reading_queue, false);
    assert_eq!(app.reading_queue.selected, 1);
    follow_queue_move(&mut app.reading_queue, false);
    assert_eq!(app.reading_queue.selected, 1);
    follow_queue_move(&mut app.reading_queue, true);
    follow_queue_move(&mut app.reading_queue, true);
    assert_eq!(app.reading_queue.selected, 0);
}

#[test]
fn closing_the_viewer_ends_the_session() {
    let mut app = App::default();
    app.mode = AppMode::PdfView;
    app.clock_ms = 65_999;
    app.pdf_viewer.session_id = Some(7);
    app.pdf_viewer.session_start = Some(5_000);
    app.pdf_viewer.path = Some("/a.pdf".into());
    app.pdf_viewer.page = 4;
    let (session, document) = close_pdf_viewer(&mut app);
    assert_eq!(session, Some((7, 60)));
    assert_eq!(document.as_deref(), Some("/a.pdf"));
    assert_eq!(app.mode, AppMode::Normal);
    assert_eq!(app.pdf_viewer.page, 1);
    assert_eq!(close_pdf_viewer(&mut app), (None, None));
}

#[test]
fn a_download_opens_the_file_of_its_paper() {
    let mut app = App::default();
    app.library.papers = vec![paper(1, Some("/l/1.pdf")), paper(2, None)];
    app.downloads.items = vec![
        task("a", Some(1), DownloadStatus::Completed),
        task("b", Some(2), DownloadStatus::Completed),
    ];
    assert_eq!(open_download(&app, "a", "/d"), (Some(1), "/l/1.pdf".into()));
    assert_eq!(open_download(&app, "b", "/d"), (Some(2), "/d/b.pdf".into()));
    assert_eq!(open_download(&app, "c", "/d"), (None, "/d/c.pdf".into()));
}

#[test]
fn papers_and_notes_are_shown() {
    let mut app = App::default();
    app.paper_detail_scroll = 8;
    show_paper_detail(&mut app);
    assert_eq!((app.mode, app.paper_detail_scroll), (AppMode::PaperDetail, 0));
    app.notes.preview = true;
    let note = PaperNote { paper_id: 1, title: "t".into(), body: "b".into(), cursor: 0 };
    open_note_editor(&mut app, note);
    assert_eq!(app.mode, AppMode::NoteEdit);
    assert!(!app.notes.preview);
    confirm_paper_deletion(&mut app, 1, "t".into(), None);
    assert!(matches!(app.delete_confirmation, Some(DeletionTarget::Paper { id: 1, .. })));
    confirm_collection_deletion(&mut app, 2, "c".into(), None);
    assert!(matches!(app.delete_confirmation, Some(DeletionTarget::Collection { id: 2, .. })));
    report_bookmark(&mut app, true);
    assert_eq!(app.toast.as_deref(), Some("Paper bookmarked"));
    report_bookmark(&mut app, false);
    assert_eq!(app.toast.as_deref(), Some("Bookmark removed"));
}

#[test]
fn an_answer_asks_for_what_was_asked() {
    assert!(matches!(apply_collection_prompt(&prompt("  ")), PromptRequest::Nothing));
    assert!(matches!(
        apply_collection_prompt(&prompt(" New ")),
        PromptRequest::CreateCollection { name } if name == "New"
    ));
    let mut p = prompt("x");
    p.paper_id = Some(3);
    assert!(matches!(
        apply_collection_prompt(&p),
        PromptRequest::AssignPaper { paper_id: 3, .. }
    ));
    p.rename_collection_id = Some(4);
    assert!(matches!(
        apply_collection_prompt(&p),
        PromptRequest::RenameCollection { collection_id: 4, .. }
    ));
    p.rename_paper_id = Some(5);
    assert!(matches!(
        apply_collection_prompt(&p),
        PromptRequest::RenamePdf { paper_id: 5, .. }
    ));
    let mut app = App::default();
    open_rename_prompt(&mut app, None, Some(5));
    assert_eq!(app.mode, AppMode::Prompt);
    assert_eq!(app.metadata_prompt.as_ref().unwrap().rename_paper_id, Some(5));
    show_collection_prompt(&mut app, Some(1), None, Some("Reading".into()));
    let shown = app.metadata_prompt.as_ref().unwrap();
    assert_eq!(shown.paper_id, Some(1));
    assert_eq!(shown.current_collection.as_deref(), Some("Reading"));
}

#[test]
fn pdf_files_are_renamed_in_their_folder() {
    let mut app = App::default();
    app.library.papers = vec![paper(1, Some("/l/old.pdf")), paper(2, None)];
    let rename = rename_paper_pdf(&app, 1, "New").unwrap().unwrap();
    assert_eq!((rename.source.as_str(), rename.destination.as_str()), ("/l/old.pdf", "/l/New.pdf"));
    let upper = rename_paper_pdf(&app, 1, "New.PDF").unwrap().unwrap();
    assert_eq!(upper.destination, "/l/New.PDF");
    assert!(rename_paper_pdf(&app, 1, "old").unwrap().is_none());
    assert_eq!(
        rename_paper_pdf(&app, 1, "a/b").unwrap_err(),
        "filename must not contain path separators"
    );
    assert_eq!(rename_paper_pdf(&app, 9, "x").unwrap_err(), "paper not found");
    assert_eq!(rename_paper_pdf(&app, 2, "x").unwrap_err(), "paper has no local PDF");

    app.downloads.items = vec![task("a", Some(1), DownloadStatus::Completed)];
    begin_pdf_rename(&mut app, 1);
    assert!(matches!(app.downloads.items[0].status, DownloadStatus::Renaming));
    finish_pdf_rename(&mut app, 1, "/l/New.pdf".into(), None);
    assert!(matches!(app.downloads.items[0].status, DownloadStatus::Completed));
    assert_eq!(app.downloads.items[0].pdf_path.as_deref(), Some("/l/New.pdf"));
}

#[test]
fn collections_have_folders() {
    let mut app = App::default();
    app.collections.items = vec![collection(1, "Reading", None), collection(2, "Old", Some("/c/Old"))];
    assert_eq!(
        rename_collection(&app, 2, "New", "/root").unwrap(),
        ("/c/Old".to_owned(), "/c/New".to_owned())
    );
    assert_eq!(
        rename_collection(&app, 1, "New", "/root").unwrap(),
        ("/root/Reading".to_owned(), "/root/New".to_owned())
    );
    assert_eq!(
        rename_collection(&app, 9, "New", "/root").unwrap_err(),
        "group no longer exists"
    );
    assert_eq!(
        create_collection(&app, "READING", "/root").unwrap_err(),
        "a group with this name already exists"
    );
    assert_eq!(create_collection(&app, "Fresh", "/root").unwrap(), "/root/Fresh");
    let target = collection_target(Platform::Other, &app.collections.items, "old", "/root");
    assert_eq!(target.existing, Some(2));
    assert_eq!(target.folder, "/c/Old");
    assert_eq!(
        destination_in(Platform::Other, "/l/a.pdf", "/c/Old").as_deref(),
        Some("/c/Old/a.pdf"),
    );
    assert!(destination_in(Platform::Other, "/", "/c/Old").is_none());
}

#[test]
fn papers_are_assigned_with_their_files() {
    let mut app = App::default();
    app.library.papers = vec![paper(1, Some("/l/a.pdf")), paper(2, None)];
    let assignment = assign_paper_to_collection(&app, 1, "Fresh", "/root").unwrap();
    assert_eq!(assignment.source, "/l/a.pdf");
    assert!(assignment.target.existing.is_none());
    assert_eq!(assignment.destination.as_deref(), Some("/root/Fresh/a.pdf"));
    assert_eq!(
        assign_paper_to_collection(&app, 9, "x", "/root").unwrap_err(),
        "paper must have a local PDF before group assignment"
    );
    assert_eq!(
        assign_paper_to_collection(&app, 2, "x", "/root").unwrap_err(),
        "paper has no local PDF"
    );
}

#[test]
fn plugins_are_called_in_order() {
    let plugins = vec![
        Plugin { id: "a".into(), enabled: true },
        Plugin { id: "b".into(), enabled: false },
        Plugin { id: "c".into(), enabled: true },
    ];
    let calls: Vec<(String, String)> =
        plugin_calls(&plugins, &vec!["downloaded".into(), "opened".into()])
            .into_iter()
            .map(|call| (call.plugin, call.event))
            .collect();
    let expected: Vec<(String, String)> =
        [("a", "downloaded"), ("a", "opened"), ("c", "downloaded"), ("c", "opened")]
            .into_iter()
            .map(|(plugin, event)| (plugin.to_owned(), event.to_owned()))
            .collect();
    assert_eq!(calls, expected);
}

#[test]
fn plugins_speak_when_they_changed_something() {
    let mut app = App::default();
    let silent = vec![PluginOutcome::Message("hi".into()), PluginOutcome::Collected(false)];
    assert!(!finish_plugin_events(&mut app, &silent));
    assert!(app.toast.is_none());
    let loud = vec![
        PluginOutcome::Message("first".into()),
        PluginOutcome::Collected(true),
        PluginOutcome::Message("last".into()),
        PluginOutcome::NotCollected,
    ];
    assert!(finish_plugin_events(&mut app, &loud));
    assert_eq!(app.toast.as_deref(), Some("last"));
    assert!(finish_plugin_events(&mut app, &vec![PluginOutcome::Collected(true)]));
    assert_eq!(app.toast.as_deref(), Some("last"));
    assert!(!collection_changed(&Some("Reading".into()), "reading", false));
    assert!(collection_changed(&Some("Reading".into()), "reading", true));
    assert!(collection_changed(&None, "reading", false));
}

#[test]
fn a_citation_names_all_authors() {
    let metadata = remote_citation_metadata(
        RemotePaper {
            id: "2401.1".into(),
            title: "T".into(),
            authors: vec!["A. Author".into(), "B. Author".into()],
            abstract_text: String::new(),
            published: 0,
            updated: 0,
            categories: Vec::new(),
            pdf_url: None,
            doi: Some("10.1/x".into()),
            journal_ref: None,
        },
        "2024".into(),
    );
    assert_eq!(metadata.authors, "A. Author and B. Author");
    assert_eq!(metadata.arxiv_id.as_deref(), Some("2401.1"));
    assert_eq!(metadata.year.as_deref(), Some("2024"));
}
