use papr::actions::UiAction;
use papr::downloads::{
    LibraryLookup, LocalFile, adopt_local_file, begin_downloads_refresh, finish_downloads_refresh,
    local_pdfs,
};
use papr::keymap::handle_key;
use papr::keys::{KeyCode, KeyEvent, KeyModifiers};
use papr::library::open_collection;
use papr::model::{
    AuthorSummary, BookmarkSummary, CollectionSummary, DownloadStatus, DownloadTask, LibraryPaper,
    PaperNote, PaperTarget, RemotePaper,
};
use papr::papers::{handle_downloads_key, library_action};
use papr::state::{App, AppMode, DiscoveryState, LibraryState, Page};
use papr::viewer::open_pdf;
use papr::viewer::Platform;

fn assert_unread_action(mut app: App) {
    assert!(matches!(
        handle_key(
            &mut app,
            KeyEvent::new(KeyCode::Char('u'), KeyModifiers::none())
        ),
        Some(UiAction::MarkUnread(11))
    ));
}

/// A paper of the first of January 2026.
fn remote_paper(id: &str, title: &str) -> RemotePaper {
    RemotePaper {
        id: id.into(),
        title: title.into(),
        authors: vec!["Researcher".into()],
        abstract_text: String::new(),
        published: 1_767_225_600,
        updated: 1_767_225_600,
        categories: vec!["cs.DL".into()],
        pdf_url: None,
        doi: None,
        journal_ref: None,
    }
}

#[test]
fn dashboard_navigation_opens_the_selected_paper() {
    let first = remote_paper("https://arxiv.org/abs/1", "First paper");
    let second = remote_paper("https://arxiv.org/abs/2", "Selected paper");
    let mut app = App::default();
    app.page = Page::Dashboard;
    app.content_focused = true;
    app.today.papers = vec![first, second];
    app.today.selected = 1;

    let action = handle_key(&mut app, KeyEvent::new(KeyCode::Enter, KeyModifiers::none()));
    assert!(matches!(
            action,
            Some(UiAction::OpenPaper(paper)) if paper.title == "Selected paper"
    ));
}

#[test]
fn remote_workspace_detail_ignores_bookmark_note_tag_and_group_keys() {
    for page in [Page::Dashboard, Page::Discover] {
        let mut app = App::default();
        app.page = page;
        app.content_focused = true;
        app.mode = AppMode::PaperDetail;
        app.today.papers = vec![remote_paper(
                "https://arxiv.org/abs/dashboard",
                "Dashboard paper",
        )];
        app.discovery = DiscoveryState {
            results: vec![remote_paper(
                    "https://arxiv.org/abs/discover",
                    "Discover paper",
            )],
            ..DiscoveryState::default()
        };

        for key in ['B', 'n', 't', 'g'] {
            let action = handle_key(
                &mut app,
                KeyEvent::new(KeyCode::Char(key), KeyModifiers::none()),
            );
            assert!(action.is_none(), "{key} should be ignored in {page:?}");
            assert_eq!(app.mode, AppMode::PaperDetail);
        }
    }
}

#[test]
fn downloads_workspace_retries_failed_download() {
    let paper = RemotePaper {
        id: "retry_id".into(),
        title: "Retry Paper".into(),
        authors: vec!["Researcher".into()],
        abstract_text: "Abstract".into(),
        published: 0,
        updated: 0,
        categories: vec!["cs.DL".into()],
        pdf_url: Some("http://example.com/retry.pdf".into()),
        doi: None,
        journal_ref: None,
    };
    let mut app = App::default();
    app.page = Page::Downloads;
    app.content_focused = true;
    app.downloads.items = vec![DownloadTask {
            id: "retry_id".into(),
            title: "Retry Paper".into(),
            downloaded: 0,
            total: None,
            paper_id: None,
            pdf_path: Some("/tmp/retry_path.pdf".into()),
            canonical_path: None,
            status: DownloadStatus::Failed("Network Error".into()),
            remote_paper: Some(paper.clone()),
            failed_at: Some(0),
    }];
    let action = handle_downloads_key(
        &mut app,
        KeyEvent::new(KeyCode::Char('r'), KeyModifiers::none()),
    );
    assert!(matches!(
            action,
            Some(UiAction::RetryDownload { id, paper })
                if id == "retry_id" && paper.title == "Retry Paper"
    ));
}

#[test]
fn downloads_workspace_syncs_completed_entries_to_download_directory() {
    fn refresh(app: &mut App, root: &str, names: &[&str]) {
        let listing: Vec<LocalFile> = names
            .iter()
            .map(|name| LocalFile {
                path: format!("{root}/{name}"),
                name: name.to_string(),
                size: 9,
                modified: 0,
        })
            .collect();
        let selected = begin_downloads_refresh(app);
        for file in local_pdfs(Platform::Other, &listing) {
            let lookup = LibraryLookup {
                by_path: None,
                by_canonical_path: None,
                by_contents: None,
                canonical_path: None,
            };
            assert!(!adopt_local_file(Platform::Other, &mut app.downloads, file, lookup, root));
        }
        finish_downloads_refresh(app, selected);
    }

    let root = "/tmp/papr-download-sync";
    let mut app = App::default();
    app.downloads.items = vec![
        DownloadTask {
            id: "stale".into(),
            title: "Stale".into(),
            downloaded: 10,
            total: Some(10),
            paper_id: None,
            pdf_path: Some(format!("{root}/stale.pdf")),
            canonical_path: None,
            status: DownloadStatus::Completed,
            remote_paper: None,
            failed_at: None,
        },
        DownloadTask {
            id: "running".into(),
            title: "Running".into(),
            downloaded: 5,
            total: Some(10),
            paper_id: None,
            pdf_path: None,
            canonical_path: None,
            status: DownloadStatus::Running,
            remote_paper: None,
            failed_at: None,
        },
    ];

    refresh(&mut app, root, &["keep.pdf"]);
    assert_eq!(app.downloads.items.len(), 2);
    assert!(app.downloads.items.iter().any(|task| task.id == "running"));
    assert!(
        app.downloads.items
            .iter()
            .any(|task| task.pdf_path.as_deref() == Some("/tmp/papr-download-sync/keep.pdf"))
    );
    assert!(!app.downloads.items.iter().any(|task| task.id == "stale"));

    refresh(&mut app, root, &["incoming.pdf"]);
    assert!(
        app.downloads.items
            .iter()
            .any(|task| task.pdf_path.as_deref() == Some("/tmp/papr-download-sync/incoming.pdf"))
    );
    assert!(
        !app.downloads.items
            .iter()
            .any(|task| task.pdf_path.as_deref() == Some("/tmp/papr-download-sync/keep.pdf"))
    );
}

#[test]
fn unread_keybind_targets_selected_paper_across_workspaces() {
    let library_paper = LibraryPaper {
        id: 11,
        title: "Library Paper".into(),
        authors: "Researcher".into(),
        doi: None,
        arxiv_id: None,
        pdf_path: Some("/tmp/library.pdf".into()),
        canonical_path: None,
        file_size: Some(1),
        reading_status: "read".into(),
        is_favorite: false,
    };

    let mut library_app = App::default();
    library_app.page = Page::Library;
    library_app.content_focused = true;
    library_app.library = LibraryState {
        papers: vec![library_paper.clone()],
        selected: 0,
        ..LibraryState::default()
    };
    assert_unread_action(library_app);

    let mut downloads_app = App::default();
    downloads_app.page = Page::Downloads;
    downloads_app.content_focused = true;
    downloads_app.library = LibraryState {
        papers: vec![library_paper.clone()],
        ..LibraryState::default()
    };
    downloads_app.downloads.items = vec![DownloadTask {
            id: "paper".into(),
            title: "Paper".into(),
            downloaded: 10,
            total: Some(10),
            paper_id: Some(11),
            pdf_path: Some("/tmp/library.pdf".into()),
            canonical_path: None,
            status: DownloadStatus::Completed,
            remote_paper: None,
            failed_at: None,
    }];
    assert_unread_action(downloads_app);

    let mut collections_app = App::default();
    collections_app.page = Page::Collections;
    collections_app.content_focused = true;
    collections_app.collections.active = Some(CollectionSummary {
            id: 1,
            name: "Collection".into(),
            paper_count: 1,
            folder_path: None,
    });
    collections_app.collections.papers = vec![library_paper.clone()];
    assert_unread_action(collections_app);

    let mut bookmarks_app = App::default();
    bookmarks_app.page = Page::Bookmarks;
    bookmarks_app.content_focused = true;
    bookmarks_app.bookmarks.items = vec![BookmarkSummary {
            id: 1,
            paper_id: 11,
            paper_title: "Bookmarked".into(),
            authors: "Researcher".into(),
            year: None,
            journal: None,
            doi: None,
            pdf_path: "/tmp/library.pdf".into(),
            page: None,
            label: None,
    }];
    assert_unread_action(bookmarks_app);

    let mut authors_app = App::default();
    authors_app.page = Page::Authors;
    authors_app.content_focused = true;
    authors_app.authors.active = Some(AuthorSummary {
            id: 3,
            name: "Researcher".into(),
            paper_count: 1,
    });
    authors_app.authors.papers = vec![library_paper.clone()];
    assert_unread_action(authors_app);

    let mut notes_app = App::default();
    notes_app.page = Page::Notes;
    notes_app.content_focused = true;
    notes_app.notes.papers = vec![library_paper];
    assert_unread_action(notes_app);
}

#[test]
fn downloads_keybinding_g_assigns_to_group() {
    let library_paper = LibraryPaper {
        id: 11,
        title: "Library Paper".into(),
        authors: "Researcher".into(),
        doi: None,
        arxiv_id: None,
        pdf_path: Some("/tmp/library.pdf".into()),
        canonical_path: None,
        file_size: Some(1),
        reading_status: "read".into(),
        is_favorite: false,
    };

    let mut downloads_app = App::default();
    downloads_app.page = Page::Downloads;
    downloads_app.content_focused = true;
    downloads_app.library = LibraryState {
        papers: vec![library_paper],
        ..LibraryState::default()
    };
    downloads_app.downloads.items = vec![DownloadTask {
            id: "paper".into(),
            title: "Paper".into(),
            downloaded: 10,
            total: Some(10),
            paper_id: Some(11),
            pdf_path: Some("/tmp/library.pdf".into()),
            canonical_path: None,
            status: DownloadStatus::Completed,
            remote_paper: None,
            failed_at: None,
    }];
    assert!(matches!(
            handle_key(
                &mut downloads_app,
                KeyEvent::new(KeyCode::Char('g'), KeyModifiers::none())
            ),
            Some(UiAction::Prompt(PaperTarget::Local(11)))
    ));
    assert_eq!(downloads_app.modal_return, AppMode::Normal);
}

#[test]
fn browser_shortcut_opens_local_papers_and_reports_missing_arxiv_metadata() {
    let paper = LibraryPaper {
        id: 42,
        title: "Local paper".into(),
        authors: String::new(),
        doi: None,
        arxiv_id: Some("2607.12345v2".into()),
        pdf_path: Some("/tmp/local.pdf".into()),
        canonical_path: None,
        file_size: None,
        reading_status: "unread".into(),
        is_favorite: false,
    };
    let mut app = App::default();
    app.page = Page::Library;
    app.content_focused = true;
    app.library = LibraryState {
        papers: vec![paper.clone()],
        ..LibraryState::default()
    };
    assert!(matches!(
            handle_key(&mut app, KeyEvent::new(KeyCode::Char('o'), KeyModifiers::none())),
            Some(UiAction::OpenBrowser(url)) if url == "https://arxiv.org/abs/2607.12345v2"
    ));

    app.library.papers[0].arxiv_id = None;
    assert!(
        handle_key(
            &mut app,
            KeyEvent::new(KeyCode::Char('o'), KeyModifiers::none())
        )
            .is_none()
    );
    assert_eq!(
        app.toast.as_deref(),
        Some("No valid arXiv page is available for this paper")
    );
}

#[test]
fn downloaded_remote_paper_opens_from_metadata_without_changing_browser_shortcut() {
    let pdf_path = "/tmp/papr-downloaded-remote-paper.pdf";

    for page in [Page::Dashboard, Page::Discover] {
        let remote = remote_paper("https://arxiv.org/abs/downloaded", "Downloaded paper");
        let mut app = App::default();
        app.page = page;
        app.content_focused = true;
        app.mode = AppMode::PaperDetail;
        app.today.papers = (page == Page::Dashboard)
            .then_some(remote.clone())
            .into_iter()
            .collect();
        app.discovery = DiscoveryState {
            results: (page == Page::Discover)
                .then_some(remote)
                .into_iter()
                .collect(),
            ..DiscoveryState::default()
        };
        app.library = LibraryState {
            papers: vec![LibraryPaper {
                    id: 42,
                    title: "Downloaded paper".into(),
                    authors: String::new(),
                    doi: None,
                    arxiv_id: Some("https://arxiv.org/abs/downloaded".into()),
                    pdf_path: Some(pdf_path.into()),
                    canonical_path: Some(pdf_path.into()),
                    file_size: None,
                    reading_status: "unread".into(),
                    is_favorite: false,
            }],
            ..LibraryState::default()
        };

        let open = handle_key(&mut app, KeyEvent::new(KeyCode::Enter, KeyModifiers::none()));
        assert!(matches!(
                open,
                Some(UiAction::OpenPdf { paper_id: 42, path })
                    if path == pdf_path
        ));

        let browser = handle_key(
            &mut app,
            KeyEvent::new(KeyCode::Char('o'), KeyModifiers::none()),
        );
        assert!(matches!(
                browser,
                Some(UiAction::OpenBrowser(url)) if url.ends_with("/downloaded")
        ));
    }
}

#[test]
fn note_editor_emits_autosave_action() {
    let mut app = App::default();
    app.mode = AppMode::NoteEdit;
    app.notes.editor = Some(PaperNote {
            paper_id: 7,
            title: String::new(),
            body: String::new(),
            cursor: 0,
    });
    let action = handle_key(
        &mut app,
        KeyEvent::new(KeyCode::Char('#'), KeyModifiers::none()),
    );
    assert!(matches!(action, Some(UiAction::SaveNote(_))));
    assert_eq!(
        app.notes.editor.as_ref().map(|note| note.body.as_str()),
        Some("#")
    );
}

#[test]
fn library_enter_opens_selected_pdf() {
    let mut app = App::default();
    app.page = Page::Library;
    app.content_focused = true;
    app.library = LibraryState {
        papers: vec![LibraryPaper {
                id: 7,
                title: "Paper".into(),
                authors: String::new(),
                doi: None,
                arxiv_id: None,
                pdf_path: Some("/tmp/paper.pdf".into()),
                canonical_path: None,
                file_size: None,
                reading_status: "unread".into(),
                is_favorite: false,
        }],
        ..LibraryState::default()
    };
    let action = handle_key(&mut app, KeyEvent::new(KeyCode::Enter, KeyModifiers::none()));
    assert!(matches!(
            action,
            Some(UiAction::OpenPdf { paper_id: 7, path })
                if path == "/tmp/paper.pdf"
    ));
}

#[test]
fn collections_open_then_open_the_selected_paper_pdf() {
    let paper = LibraryPaper {
        id: 9,
        title: "Collected paper".into(),
        authors: String::new(),
        doi: None,
        arxiv_id: None,
        pdf_path: Some("/tmp/collected.pdf".into()),
        canonical_path: None,
        file_size: None,
        reading_status: "unread".into(),
        is_favorite: false,
    };
    let mut app = App::default();
    app.page = Page::Collections;
    app.content_focused = true;
    app.collections.items = vec![CollectionSummary {
            id: 3,
            name: "Review".into(),
            paper_count: 1,
            folder_path: Some("/tmp/Review".into()),
    }];
    let open_collection =
    handle_key(&mut app, KeyEvent::new(KeyCode::Enter, KeyModifiers::none()));
    assert!(matches!(open_collection, Some(UiAction::OpenCollection(3))));

    app.collections.active = app.collections.items.first().cloned();
    app.collections.papers.push(paper);
    let open_pdf = handle_key(&mut app, KeyEvent::new(KeyCode::Enter, KeyModifiers::none()));
    assert!(matches!(
            open_pdf,
            Some(UiAction::OpenPdf { paper_id: 9, path })
                if path == "/tmp/collected.pdf"
    ));
}

#[test]
fn library_and_collection_papers_toggle_bookmarks() {
    let paper = LibraryPaper {
        id: 19,
        title: "Bookmark me".into(),
        authors: "Researcher".into(),
        doi: None,
        arxiv_id: None,
        pdf_path: Some("/tmp/bookmark.pdf".into()),
        canonical_path: None,
        file_size: None,
        reading_status: "unread".into(),
        is_favorite: false,
    };
    let mut app = App::default();
    app.page = Page::Library;
    app.content_focused = true;
    app.library = LibraryState {
        papers: vec![paper.clone()],
        ..LibraryState::default()
    };
    let library_action = handle_key(
        &mut app,
        KeyEvent::new(KeyCode::Char('B'), KeyModifiers::shift()),
    );
    assert!(matches!(
            library_action,
            Some(UiAction::Bookmark(PaperTarget::Local(19)))
    ));

    app.page = Page::Collections;
    app.collections.active = Some(CollectionSummary {
            id: 2,
            name: "Reading".into(),
            paper_count: 1,
            folder_path: Some("/tmp/Reading".into()),
    });
    app.collections.papers.push(paper);
    let collection_action = handle_key(
        &mut app,
        KeyEvent::new(KeyCode::Char('B'), KeyModifiers::shift()),
    );
    assert!(matches!(
            collection_action,
            Some(UiAction::Bookmark(PaperTarget::Local(19)))
    ));
}

#[test]
fn bookmarks_can_be_opened_and_removed() {
    let bookmark = BookmarkSummary {
        id: 4,
        paper_id: 23,
        paper_title: "Saved PDF".into(),
        authors: "Researcher".into(),
        year: Some("2026".into()),
        journal: Some("Journal".into()),
        doi: None,
        pdf_path: "/tmp/saved.pdf".into(),
        page: None,
        label: None,
    };
    let mut app = App::default();
    app.page = Page::Bookmarks;
    app.content_focused = true;
    app.bookmarks.items = vec![bookmark];
    let open = handle_key(&mut app, KeyEvent::new(KeyCode::Enter, KeyModifiers::none()));
    assert!(matches!(
            open,
            Some(UiAction::OpenPdf { paper_id: 23, path })
                if path == "/tmp/saved.pdf"
    ));
    let remove = handle_key(
        &mut app,
        KeyEvent::new(KeyCode::Char('B'), KeyModifiers::shift()),
    );
    assert!(matches!(
            remove,
            Some(UiAction::Bookmark(PaperTarget::Local(23)))
    ));
}

#[test]
fn reading_queue_workspace_keybinds_and_actions() {
    let paper = LibraryPaper {
        id: 42,
        title: "Queue Paper".into(),
        authors: "Researcher".into(),
        doi: None,
        arxiv_id: None,
        pdf_path: Some("/tmp/queue.pdf".into()),
        canonical_path: None,
        file_size: None,
        reading_status: "unread".into(),
        is_favorite: false,
    };

    // Case 1: Toggle Add to queue from Library
    let mut app = App::default();
    app.page = Page::Library;
    app.content_focused = true;
    app.library = LibraryState {
        papers: vec![paper.clone()],
        ..LibraryState::default()
    };
    let action = handle_key(
        &mut app,
        KeyEvent::new(KeyCode::Char('a'), KeyModifiers::none()),
    );
    assert!(matches!(action, Some(UiAction::AddToQueue(42))));

    // Case 2: Toggle Remove from queue from ReadingQueue page
    app.page = Page::ReadingQueue;
    app.reading_queue.papers = vec![paper];
    app.reading_queue.selected = 0;
    let action = handle_key(
        &mut app,
        KeyEvent::new(KeyCode::Char('a'), KeyModifiers::none()),
    );
    assert!(matches!(action, Some(UiAction::RemoveFromQueue(42))));

    // Case 3: Move Up and Move Down in queue
    let action_up = handle_key(&mut app, KeyEvent::new(KeyCode::Up, KeyModifiers::shift()));
    assert!(matches!(action_up, Some(UiAction::MoveQueueItemUp(42))));
    let action_down = handle_key(&mut app, KeyEvent::new(KeyCode::Down, KeyModifiers::shift()));
    assert!(matches!(action_down, Some(UiAction::MoveQueueItemDown(42))));
}
