use papr::downloads::{
    adopt_local_file, apply_download_event, apply_retry_download, content_hash,
    drop_paper_downloads, expire_downloads, finish_download, id_of_file_name, is_listed_file,
    local_pdfs, record_download, start_download, DownloadEvent, IndexedFile, LibraryLookup,
    LocalFile, PendingDownloads,
};
use papr::model::{DownloadStatus, DownloadTask, LibraryPaper, RemotePaper};
use papr::state::{App, DownloadsState};
use papr::viewer::Platform;

fn paper(id: &str) -> RemotePaper {
    RemotePaper {
        id: id.into(),
        title: "A: title".into(),
        authors: vec!["Researcher".into()],
        abstract_text: String::new(),
        published: 0,
        updated: 0,
        categories: Vec::new(),
        pdf_url: Some("https://example.org/a.pdf".into()),
        doi: None,
        journal_ref: None,
    }
}

fn task(id: &str, status: DownloadStatus) -> DownloadTask {
    DownloadTask {
        id: id.into(),
        title: id.into(),
        downloaded: 5,
        total: Some(10),
        paper_id: None,
        pdf_path: Some(format!("/d/{id}.pdf")),
        canonical_path: None,
        status,
        remote_paper: None,
        failed_at: None,
    }
}

fn library_paper(id: i64) -> LibraryPaper {
    LibraryPaper {
        id,
        title: "Paper".into(),
        authors: String::new(),
        doi: None,
        arxiv_id: None,
        pdf_path: None,
        canonical_path: None,
        file_size: None,
        reading_status: "unread".into(),
        is_favorite: false,
    }
}

fn unknown() -> LibraryLookup {
    LibraryLookup {
        by_path: None,
        by_canonical_path: None,
        by_contents: None,
        canonical_path: None,
    }
}

fn local(name: &str, modified: u128) -> LocalFile {
    LocalFile { path: format!("/d/{name}"), name: name.into(), size: 7, modified }
}

#[test]
fn a_download_starts_once() {
    let mut app = App::default();
    let mut pending = PendingDownloads::new();
    let job = start_download(&mut app, &mut pending, paper("x/1"), "/d", "A title").unwrap();
    assert_eq!(job.id, "x/1");
    assert_eq!(job.url, "https://example.org/a.pdf");
    assert_eq!(job.destination, "/d/A title.pdf");
    assert_eq!(app.toast.as_deref(), Some("Downloading paper..."));
    assert_eq!(app.downloads.items.len(), 1);
    assert!(matches!(app.downloads.items[0].status, DownloadStatus::Starting));
    assert!(pending.contains("x/1"));

    assert!(start_download(&mut app, &mut pending, paper("x/1"), "/d", "A title").is_none());
    assert_eq!(app.downloads.items.len(), 1);
}

#[test]
fn a_download_without_a_usable_title_is_named_after_its_id() {
    let mut app = App::default();
    let mut pending = PendingDownloads::new();
    let job = start_download(&mut app, &mut pending, paper("http://x/2401.1"), "/d/", "").unwrap();
    assert_eq!(job.destination, "/d/2401.1.pdf");
}

#[test]
fn nothing_is_downloaded_without_an_address_or_twice() {
    let mut app = App::default();
    let mut pending = PendingDownloads::new();
    let mut no_url = paper("1");
    no_url.pdf_url = None;
    assert!(start_download(&mut app, &mut pending, no_url, "/d", "t").is_none());
    assert!(app.toast.is_none());

    let mut have = library_paper(3);
    have.arxiv_id = Some("1".into());
    have.pdf_path = Some("/l/1.pdf".into());
    have.canonical_path = Some("/l/1.pdf".into());
    app.library.papers = vec![have];
    assert!(start_download(&mut app, &mut pending, paper("1"), "/d", "t").is_none());
    assert_eq!(
        app.toast.as_deref(),
        Some("Paper already available. Skipping download...")
    );
    assert!(app.downloads.items.is_empty());
}

#[test]
fn a_failed_download_is_tried_again_from_the_start() {
    let mut app = App::default();
    let mut pending = PendingDownloads::new();
    let mut failed = task("1", DownloadStatus::Failed("timeout".into()));
    failed.failed_at = Some(4);
    app.downloads.items = vec![failed];
    let retry =
        apply_retry_download(&mut app, &mut pending, "1".into(), paper("1"), "/other").unwrap();
    assert_eq!(retry.job.destination, "/d/1.pdf");
    assert_eq!(retry.leftovers, vec!["/d/1.pdf", "/d/1.pdf.part"]);
    let restarted = &app.downloads.items[0];
    assert_eq!((restarted.downloaded, restarted.total, restarted.failed_at), (0, None, None));
    assert!(matches!(restarted.status, DownloadStatus::Starting));
    assert_eq!(app.toast.as_deref(), Some("Retrying download..."));
    assert!(
        apply_retry_download(&mut app, &mut pending, "1".into(), paper("1"), "/other").is_none()
    );
    assert!(
        apply_retry_download(&mut app, &mut pending, "2".into(), paper("2"), "/other").is_none()
    );
}

#[test]
fn events_are_noted_on_their_task() {
    let mut app = App::default();
    app.clock_ms = 77;
    let mut pending = PendingDownloads::new();
    pending.insert("1".into(), paper("1"));
    app.downloads.items = vec![task("0", DownloadStatus::Running), task("1", DownloadStatus::Starting)];

    let started = DownloadEvent::Started { id: "1".into(), total: Some(99) };
    assert!(apply_download_event(&mut app, &mut pending, started).unwrap().is_none());
    assert!(matches!(app.downloads.items[1].status, DownloadStatus::Running));
    assert_eq!(app.downloads.items[1].total, Some(99));

    let progress = DownloadEvent::Progress { id: "1".into(), downloaded: 50 };
    assert!(apply_download_event(&mut app, &mut pending, progress).unwrap().is_none());
    assert_eq!(app.downloads.items[1].downloaded, 50);

    let completed = DownloadEvent::Completed { id: "1".into(), path: "/d/1.pdf.part".into() };
    let file = apply_download_event(&mut app, &mut pending, completed).unwrap().unwrap();
    assert_eq!(file.temporary, "/d/1.pdf.part");
    assert_eq!(file.path, "/d/1.pdf");
    assert!(matches!(app.downloads.items[1].status, DownloadStatus::ExtractingMetadata));
    assert!(pending.contains("1"));

    let failed = DownloadEvent::Failed { id: "1".into(), error: "lost".into() };
    assert!(apply_download_event(&mut app, &mut pending, failed).unwrap().is_none());
    assert!(matches!(&app.downloads.items[1].status, DownloadStatus::Failed(error) if error == "lost"));
    assert_eq!(app.downloads.items[1].failed_at, Some(77));
    assert!(!pending.contains("1"));

    let stray = DownloadEvent::Progress { id: "9".into(), downloaded: 1 };
    assert_eq!(
        apply_download_event(&mut app, &mut pending, stray).unwrap_err(),
        "received download event for unknown task"
    );
}

#[test]
fn a_completed_download_joins_the_library() {
    let mut app = App::default();
    app.library.papers = vec![library_paper(8)];
    app.downloads.items = vec![
        task("1", DownloadStatus::ExtractingMetadata),
        task("1", DownloadStatus::Failed("first try".into())),
    ];
    let file = IndexedFile { path: "/d/1.pdf".into(), canonical_path: None, size: 123 };
    assert!(record_download(&mut app, "1", file, Some(8)));
    assert_eq!(app.downloads.items[0].paper_id, Some(8));
    assert_eq!(app.downloads.items[0].downloaded, 123);
    finish_download(&mut app, "1", true);
    assert_eq!(
        app.library.message.as_deref(),
        Some("Indexed 1 PDFs, imported 0 new")
    );
    assert_eq!(
        app.toast.as_deref(),
        Some("Download complete. Press Enter to open the PDF.")
    );
    assert_eq!(app.downloads.items.len(), 1);
    let file = IndexedFile { path: "/d/2.pdf".into(), canonical_path: None, size: 1 };
    assert!(!record_download(&mut app, "1", file, None));
    assert_eq!(app.downloads.items[0].paper_id, Some(8));
}

#[test]
fn failures_leave_the_list_after_two_minutes() {
    let mut d = DownloadsState::default();
    let mut old = task("old", DownloadStatus::Failed("x".into()));
    old.failed_at = Some(1_000);
    let mut fresh = task("fresh", DownloadStatus::Failed("x".into()));
    fresh.failed_at = Some(2_000);
    d.items = vec![task("run", DownloadStatus::Running), old, fresh];
    d.selected = 2;
    assert!(!expire_downloads(&mut d, 120_999));
    assert!(expire_downloads(&mut d, 121_000));
    assert_eq!(d.items.len(), 2);
    assert_eq!(d.items[1].id, "fresh");
    assert_eq!(d.selected, 1);
}

#[test]
fn the_downloads_of_a_deleted_paper_go() {
    let mut d = DownloadsState::default();
    let mut gone = task("gone", DownloadStatus::Completed);
    gone.paper_id = Some(4);
    d.items = vec![gone, task("stays", DownloadStatus::Completed)];
    drop_paper_downloads(&mut d, 4);
    assert_eq!(d.items.len(), 1);
    assert_eq!(d.items[0].id, "stays");
}

#[test]
fn local_files_are_listed_newest_first() {
    let listing =
        vec![local("a.pdf", 1), local("b.txt", 9), local("c.pdf", 3), local("d.PDF", 4), local("e.pdf", 3)];
    let names: Vec<String> = local_pdfs(
        Platform::Other,
        &listing,
    ).into_iter().map(|file| file.name).collect();
    assert_eq!(names, vec!["c.pdf", "e.pdf", "a.pdf"]);
    assert_eq!(id_of_file_name("a.pdf"), "a");
    assert_eq!(id_of_file_name("a.pdf.part"), "a.pdf.part");
    assert_eq!(id_of_file_name("é.pdf"), "é");
}

#[test]
fn a_local_file_is_adopted_once() {
    let mut d = DownloadsState::default();
    let mut lookup = unknown();
    lookup.by_path = Some(5);
    lookup.by_canonical_path = Some(6);
    assert!(!adopt_local_file(Platform::Other, &mut d, local("a.pdf", 1), lookup, "/d"));
    assert_eq!(d.items.len(), 1);
    assert_eq!(d.items[0].id, "a");
    assert_eq!(d.items[0].title, "a.pdf");
    assert_eq!(d.items[0].paper_id, Some(5));
    assert_eq!(d.items[0].total, Some(7));
    assert!(is_listed_file(&d, &local("a.pdf", 1)));
    assert!(!adopt_local_file(Platform::Other, &mut d, local("a.pdf", 1), unknown(), "/d"));
    assert_eq!(d.items.len(), 1);

    let mut moved = unknown();
    moved.by_contents = Some((9, "/library/b.pdf".into()));
    assert!(adopt_local_file(Platform::Other, &mut d, local("b.pdf", 1), moved, "/d"));
    assert_eq!(d.items.len(), 1);
    let mut same = unknown();
    same.by_path = Some(1);
    same.by_contents = Some((9, "/d/c.pdf".into()));
    assert!(!adopt_local_file(Platform::Other, &mut d, local("c.pdf", 1), same, "/d"));
    assert_eq!(d.items[1].paper_id, Some(9));
}

#[test]
fn files_are_known_by_their_digest() {
    assert_eq!(
        content_hash(Some(&b"abc".to_vec())).as_deref(),
        Some("ba7816bf8f01cfea414140de5dae2223b00361a396177a9cb410ff61f20015ad")
    );
    assert_eq!(
        content_hash(Some(&Vec::new())).as_deref(),
        Some("e3b0c44298fc1c149afbf4c8996fb92427ae41e4649b934ca495991b7852b855")
    );
    assert!(content_hash(None).is_none());
}
