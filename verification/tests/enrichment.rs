use papr::enrichment::{
    apply_enriched_paper, finalize_download_task, finish_enrichment, settle_enrichment,
    spawn_enrichment_if_needed, MetadataCandidate, PaperSet,
};
use papr::model::{DownloadStatus, DownloadTask, RemotePaper};
use papr::state::App;
use papr::viewer::Platform;

fn candidate(paper_id: i64) -> MetadataCandidate {
    MetadataCandidate { paper_id, arxiv_id: None, doi: None, pdf_path: None }
}

fn task(paper_id: i64, status: DownloadStatus) -> DownloadTask {
    DownloadTask {
        id: paper_id.to_string(),
        title: String::new(),
        downloaded: 0,
        total: None,
        paper_id: Some(paper_id),
        pdf_path: Some(format!("/d/{paper_id}.pdf")),
        canonical_path: None,
        status,
        remote_paper: None,
        failed_at: None,
    }
}

fn remote(id: &str, doi: Option<&str>, abstract_text: &str) -> RemotePaper {
    RemotePaper {
        id: id.into(),
        title: format!("Title of {id}"),
        authors: Vec::new(),
        abstract_text: abstract_text.into(),
        published: 0,
        updated: 0,
        categories: Vec::new(),
        pdf_url: None,
        doi: doi.map(str::to_owned),
        journal_ref: None,
    }
}

#[test]
fn only_new_papers_are_looked_up() {
    let mut app = App::default();
    app.downloads.items = vec![
        task(1, DownloadStatus::ExtractingMetadata),
        task(2, DownloadStatus::ExtractingMetadata),
        task(3, DownloadStatus::Running),
    ];
    let mut active = PaperSet::new();
    active.insert(3);
    let plan = spawn_enrichment_if_needed(&mut app, &mut active, &vec![candidate(1), candidate(3)]);
    assert_eq!(plan.jobs.len(), 1);
    assert_eq!(plan.jobs[0].paper_id, 1);
    assert!(matches!(app.downloads.items[0].status, DownloadStatus::Enriching));
    assert!(matches!(app.downloads.items[1].status, DownloadStatus::Completed));
    assert!(matches!(app.downloads.items[2].status, DownloadStatus::Running));
    assert_eq!(plan.files.len(), 1);
    assert_eq!(plan.files[0].temporary, "/d/2.pdf.part");
    assert_eq!(plan.files[0].path, "/d/2.pdf");
    assert!(app.enrichment_pending);
    assert!(active.contains(1) && active.contains(3) && !active.contains(2));

    let again = spawn_enrichment_if_needed(&mut app, &mut active, &vec![candidate(1)]);
    assert!(again.jobs.is_empty());
}

#[test]
fn a_finished_lookup_completes_its_download() {
    let mut app = App::default();
    app.enrichment_pending = true;
    app.downloads.items = vec![task(1, DownloadStatus::Enriching)];
    let mut active = PaperSet::new();
    active.insert(1);
    let file = finish_enrichment(&mut app, &mut active, 1).unwrap();
    assert_eq!(file.path, "/d/1.pdf");
    assert!(matches!(app.downloads.items[0].status, DownloadStatus::Completed));
    assert!(!active.contains(1));
    assert!(finish_enrichment(&mut app, &mut active, 2).is_none());
    assert!(!settle_enrichment(&mut app, false));
    assert!(settle_enrichment(&mut app, true));
    assert!(!settle_enrichment(&mut app, true));
}

#[test]
fn metadata_reach_every_list_that_shows_the_paper() {
    let mut app = App::default();
    app.today.papers = vec![remote("1", None, "kept"), remote("2", None, "other")];
    app.discovery.results = vec![remote("9", Some("10.1/x"), "old")];
    let mut found = remote("1", Some("10.1/x"), " ");
    found.title = "Found".into();
    apply_enriched_paper(&mut app, &found);
    assert_eq!(app.today.papers[0].title, "Found");
    assert_eq!(app.today.papers[0].abstract_text, "kept");
    assert_eq!(app.today.papers[1].title, "Title of 2");
    assert_eq!(app.discovery.results[0].title, "Found");
    assert_eq!(app.discovery.results[0].abstract_text, "old");

    found.abstract_text = "new".into();
    apply_enriched_paper(&mut app, &found);
    assert_eq!(app.today.papers[0].abstract_text, "new");
}

#[test]
fn a_task_without_a_file_is_not_renamed() {
    let mut unnamed = task(1, DownloadStatus::Completed);
    unnamed.pdf_path = None;
    assert!(finalize_download_task(Platform::Other, &unnamed).is_none());
}
