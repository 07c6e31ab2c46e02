use papr::compile::{
    activate_completed_latex_pdf, activate_pdf, apply_build_event, finish_failure_diagnosis,
    finish_log_diagnosis, latex_pdf_changed, pdf_is_complete, pdf_tail_len,
    report_compiler_unavailable, typst_sources_changed, worker_step, BuildFollowUp, BuildMonitor,
    PdfCache, ProjectBuildEvent, TypstCompileResult, WatchEventKind, WorkerEvent, WorkerState,
    MAX_BUILD_LOG_LINES,
};
use papr::model::{ProjectBuildDiagnostic, ProjectDiagnosticSeverity};
use papr::state::{App, ProjectBuild};
use papr::viewer::{PdfFile, Platform};

fn warning(title: &str) -> ProjectBuildDiagnostic {
    ProjectBuildDiagnostic {
        severity: ProjectDiagnosticSeverity::Warning,
        title: title.into(),
        description: String::new(),
        file: None,
        line: None,
        col: None,
        code: None,
        hint: None,
    }
}

#[test]
fn a_started_build_clears_the_pane() {
    let mut monitor = BuildMonitor::new(false);
    let mut build = ProjectBuild::default();
    build.diagnostics = vec![warning("old")];
    build.raw_log = vec!["old".into()];
    build.selected = 3;
    build.scroll = 2;
    monitor.signals.pdf_changed = true;

    let (changed, follow_up) =
        apply_build_event(&mut monitor, &mut build, ProjectBuildEvent::Started);

    assert!(changed);
    assert_eq!(follow_up, BuildFollowUp::Nothing);
    assert_eq!(build.status, "Compiling…");
    assert!(build.diagnostics.is_empty());
    assert!(build.raw_log.is_empty());
    assert_eq!((build.selected, build.scroll), (0, 0));
    assert!(!monitor.signals.pdf_changed);
}

#[test]
fn the_build_log_keeps_its_newest_lines() {
    let mut monitor = BuildMonitor::new(false);
    let mut build = ProjectBuild::default();
    for line in 0..MAX_BUILD_LOG_LINES + 5 {
        let (changed, follow_up) = apply_build_event(
            &mut monitor,
            &mut build,
            ProjectBuildEvent::LogLine(format!("line {line}")),
        );
        assert!(!changed);
        assert_eq!(follow_up, BuildFollowUp::Nothing);
    }
    assert_eq!(monitor.raw_log.len(), MAX_BUILD_LOG_LINES);
    assert_eq!(monitor.raw_log[0], "line 5");
    assert_eq!(monitor.raw_log[MAX_BUILD_LOG_LINES - 1], "line 2004");
}

#[test]
fn log_lines_are_diagnosed_while_compiling() {
    let mut monitor = BuildMonitor::new(false);
    let mut build = ProjectBuild::default();
    let _ = apply_build_event(&mut monitor, &mut build, ProjectBuildEvent::Started);
    let (_, follow_up) = apply_build_event(
        &mut monitor,
        &mut build,
        ProjectBuildEvent::LogLine("! Undefined control sequence.".into()),
    );
    assert_eq!(follow_up, BuildFollowUp::DiagnoseLog);
    assert!(!finish_log_diagnosis(&monitor, &mut build, Vec::new()));
    assert!(build.raw_log.is_empty());
    assert!(finish_log_diagnosis(&monitor, &mut build, vec![warning("one")]));
    assert_eq!(build.raw_log, vec!["! Undefined control sequence."]);
    assert!(finish_log_diagnosis(&monitor, &mut build, Vec::new()));
    assert!(build.diagnostics.is_empty());
}

#[test]
fn a_failed_build_shows_its_diagnostics() {
    let mut monitor = BuildMonitor::new(false);
    let mut build = ProjectBuild::default();
    monitor.raw_log = vec!["! Emergency stop.".into()];
    let (changed, follow_up) =
        apply_build_event(&mut monitor, &mut build, ProjectBuildEvent::Failed);
    assert!(changed);
    assert_eq!(follow_up, BuildFollowUp::DiagnoseFailure);
    finish_failure_diagnosis(&monitor, &mut build, vec![warning("stop")]);
    assert_eq!(build.status, "Build failed");
    assert!(build.visible);
    assert_eq!(build.raw_log, monitor.raw_log);
    assert_eq!(build.diagnostics.len(), 1);
}

#[test]
fn typst_results_set_the_status() {
    for (success, diagnostics, status) in [
        (true, Vec::new(), "Built successfully"),
        (true, vec![warning("w")], "Built with warnings"),
        (false, vec![warning("w")], "Build failed"),
    ] {
        let mut monitor = BuildMonitor::new(false);
        let mut build = ProjectBuild::default();
        let (changed, follow_up) = apply_build_event(
            &mut monitor,
            &mut build,
            ProjectBuildEvent::TypstFinished(TypstCompileResult {
                success,
                raw_log: vec!["log".into()],
                diagnostics,
            }),
        );
        assert_eq!(build.status, status);
        assert_eq!(changed, !success);
        assert_eq!(build.visible, !success);
        assert_eq!(follow_up == BuildFollowUp::ActivatePdf, success);
        assert_eq!(monitor.raw_log, build.raw_log);
    }
}

#[test]
fn a_stopped_typst_worker_is_reported() {
    let mut monitor = BuildMonitor::new(false);
    let mut build = ProjectBuild::default();
    let (changed, _) = apply_build_event(
        &mut monitor,
        &mut build,
        ProjectBuildEvent::TypstWorkerFailed("broken pipe".into()),
    );
    assert!(changed);
    assert_eq!(build.status, "Compiler unavailable");
    assert_eq!(build.raw_log, vec!["broken pipe"]);
    assert_eq!(build.diagnostics[0].title, "Typst worker stopped");
    assert_eq!(build.diagnostics[0].description, "broken pipe");
    assert_eq!(
        build.diagnostics[0].hint.as_deref(),
        Some("Close and reopen the Project to restart the compiler.")
    );

    report_compiler_unavailable(&mut build, "no latexmk".into());
    assert_eq!(build.diagnostics[0].title, "Compiler unavailable");
    assert_eq!(build.diagnostics[0].description, "no latexmk");
    assert!(build.diagnostics[0].hint.is_none());
}

#[test]
fn a_complete_pdf_ends_with_its_marker() {
    assert!(pdf_is_complete(b"trailer\n%%EOF\n"));
    assert!(pdf_is_complete(b"%%EOF"));
    assert!(!pdf_is_complete(b"%%EO"));
    assert!(!pdf_is_complete(b""));
    assert!(!pdf_is_complete(b"%%E OF %EOF"));
    assert_eq!(pdf_tail_len(10), 10);
    assert_eq!(pdf_tail_len(5000), 1024);
}

#[test]
fn a_latex_pdf_waits_until_it_is_complete() {
    let mut monitor = BuildMonitor::new(false);
    let mut build = ProjectBuild::default();
    build.visible = true;
    monitor.raw_log = vec!["Output written".into()];
    assert!(!activate_completed_latex_pdf(&mut monitor, &mut build, true, Vec::new()));
    let _ = apply_build_event(&mut monitor, &mut build, ProjectBuildEvent::PdfChanged);
    let _ = apply_build_event(&mut monitor, &mut build, ProjectBuildEvent::Succeeded);
    assert!(!activate_completed_latex_pdf(&mut monitor, &mut build, false, Vec::new()));
    assert!(monitor.signals.pdf_changed && monitor.signals.build_succeeded);
    assert!(activate_completed_latex_pdf(&mut monitor, &mut build, true, Vec::new()));
    assert_eq!(build.status, "Built successfully");
    assert_eq!(build.raw_log, vec!["Output written"]);
    assert!(monitor.raw_log.is_empty());
    assert!(!monitor.signals.pdf_changed && !monitor.signals.build_succeeded);
    assert!(!build.visible);
}

#[test]
fn the_second_build_starts_no_viewer() {
    let mut monitor = BuildMonitor::new(false);
    let mut app = App::default();
    app.pdf_viewer.program = "xdg-open".into();
    app.pdf_viewer.page = 9;
    let file = |pages| Some(PdfFile { path: "/real/main.pdf".into(), pages });

    assert!(
        activate_pdf(&mut monitor, &mut app, "/p/main.pdf", None).is_none()
    );
    let first = activate_pdf(&mut monitor, &mut app, "/p/main.pdf", file(Some(4)))
        .unwrap();
    assert_eq!(first.cache, PdfCache::Reset);
    assert_eq!(
        first.run,
        Some(("xdg-open".to_owned(), vec!["/real/main.pdf".to_owned()]))
    );
    assert_eq!((app.pdf_viewer.page, app.pdf_viewer.total_pages), (4, 4));
    assert_eq!(app.pdf_viewer.path.as_deref(), Some("/p/main.pdf"));

    let second = activate_pdf(&mut monitor, &mut app, "/p/main.pdf", file(None))
        .unwrap();
    assert_eq!(second.cache, PdfCache::Invalidate);
    assert!(second.run.is_none());
    assert_eq!((app.pdf_viewer.page, app.pdf_viewer.total_pages), (4, 4));
}

#[test]
fn watchers_tell_sources_from_outputs() {
    let paths = |names: &[&str]| names.iter().map(|name| name.to_string()).collect::<Vec<_>>();
    let modify = WatchEventKind::Modify;
    assert!(typst_sources_changed(Platform::Other, modify, &paths(&["/p/main.typ"])));
    assert!(!typst_sources_changed(
        Platform::Other,
        modify,
        &paths(&["/p/main.pdf", "/p/.papr-main.pdf.tmp"]),
    ));
    assert!(!typst_sources_changed(Platform::Other, modify, &paths(&["/p/.papr-projects.toml"])));
    assert!(typst_sources_changed(Platform::Other, modify, &paths(&["/p/main.pdf", "/p/a.typ"])));
    assert!(
        !typst_sources_changed(Platform::Other, WatchEventKind::Access, &paths(&["/p/main.typ"])),
    );
    assert!(latex_pdf_changed(Platform::Other, modify, &paths(&["/p/main.pdf"])));
    assert!(latex_pdf_changed(Platform::Other, WatchEventKind::Create, &paths(&["/p/main.pdf"])));
    assert!(!latex_pdf_changed(Platform::Other, WatchEventKind::Other, &paths(&["/p/main.pdf"])));
    assert!(!latex_pdf_changed(Platform::Other, modify, &paths(&["/p/main.log"])));
}

#[test]
fn typst_requests_are_taken_together() {
    let mut state = WorkerState::Waiting;
    for event in [WorkerEvent::Compile, WorkerEvent::Compile, WorkerEvent::Compile] {
        state = worker_step(state, event);
        assert_eq!(state, WorkerState::Settling);
    }
    assert_eq!(worker_step(state, WorkerEvent::Quiet), WorkerState::Compile);
    assert_eq!(worker_step(state, WorkerEvent::Shutdown), WorkerState::Stopped);
    assert_eq!(
        worker_step(WorkerState::Waiting, WorkerEvent::Disconnected),
        WorkerState::Stopped
    );
    assert_eq!(
        worker_step(WorkerState::Waiting, WorkerEvent::Quiet),
        WorkerState::Waiting
    );
}
