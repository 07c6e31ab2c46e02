use papr::actions::{CandidateKind, UiAction};
use papr::keymap::handle_key;
use papr::keys::{KeyCode, KeyEvent, KeyModifiers};
use papr::model::Project;
use papr::project_editor::is_text_paste_shortcut;
use papr::state::{App, AppMode, Page, ProjectPane};
use papr::terminal::{
    DirectoryEntry, TerminalOutcome, complete_terminal_command, finish_terminal_command,
    finish_terminal_completion, run_terminal_command, sanitize_terminal_output,
    terminal_path_candidates,
};

fn entry(name: &str, is_dir: bool) -> DirectoryEntry {
    DirectoryEntry { name: name.into(), is_dir }
}

/// Presses Tab in a directory that holds `entries`.
fn complete(app: &mut App, backwards: bool, entries: Vec<DirectoryEntry>) {
    if let Some(UiAction::CompleteTerminal { token, token_start, kind }) =
        complete_terminal_command(app, backwards)
    {
        assert_eq!(kind, CandidateKind::Paths);
        let candidates = terminal_path_candidates(&token, &entries);
        finish_terminal_completion(app, token_start, candidates);
    }
}

#[test]
fn paste_shortcut_accepts_terminals_that_drop_the_shift_modifier() {
    assert!(is_text_paste_shortcut(KeyEvent::new(
                KeyCode::Char('v'),
                KeyModifiers::control(),
    )));
    assert!(is_text_paste_shortcut(KeyEvent::new(
                KeyCode::Char('V'),
                KeyModifiers::control().with(KeyModifiers::shift()),
    )));
}

#[test]
fn ctrl_t_opens_the_terminal_command_palette() {
    let mut app = App::default();
    app.home_directory = Some("/home/reader".into());

    let _ = handle_key(
        &mut app,
        KeyEvent::new(KeyCode::Char('t'), KeyModifiers::control()),
    );

    assert_eq!(app.mode, AppMode::TerminalCommand);
    assert!(app.terminal.command.is_empty());
    assert!(app.terminal.output.is_empty());
    assert_eq!(app.terminal.directory.as_deref(), Some("/home/reader"));
}

#[test]
fn ctrl_t_uses_the_project_root_only_inside_an_open_project() {
    let root = String::from("/tmp/papr-terminal-root");
    let project = Project {
        name: "terminal".into(),
        path: root.clone(),
        opened_at: 0,
    };
    let mut app = App::default();
    app.page = Page::Projects;
    app.project.active = Some(project);
    app.project.pane = ProjectPane::FileTree;

    let _ = handle_key(
        &mut app,
        KeyEvent::new(KeyCode::Char('t'), KeyModifiers::control()),
    );

    assert_eq!(app.terminal.directory, Some(root));
}

#[test]
fn successful_terminal_commands_omit_exit_zero() {
    let mut app = App::default();
    app.terminal.command = "true".into();
    app.terminal.cursor = app.terminal.command.len();

    let action = run_terminal_command(&mut app);
    assert!(matches!(action, Some(UiAction::RunTerminalCommand(command)) if command == "true"));
    finish_terminal_command(
        &mut app,
        "true",
        TerminalOutcome::Finished {
            stdout: String::new(),
            stderr: String::new(),
            success: true,
            code: Some(0),
        },
    );

    assert!(app.terminal.output.contains("$ true"));
    assert!(!app.terminal.output.contains("[exit 0]"));
}

#[test]
fn terminal_clear_and_control_sequences_stay_inside_the_palette() {
    let mut app = App::default();
    app.terminal.output = "previous output".into();
    app.terminal.command = "clear".into();

    assert!(run_terminal_command(&mut app).is_none());

    assert!(app.terminal.output.is_empty());
    assert!(app.terminal.command.is_empty());
    assert_eq!(sanitize_terminal_output("safe\u{1b}[2Jtext"), "safe[2Jtext");
}

#[test]
fn terminal_tab_completes_paths_in_the_session_directory() {
    let mut app = App::default();
    app.terminal.directory = Some("/tmp/papr-complete".into());
    app.terminal.command = "cat ref".into();
    app.terminal.cursor = app.terminal.command.len();

    complete(&mut app, false, vec![entry("references.bib", false)]);

    assert_eq!(app.terminal.command, "cat references.bib");
}

#[test]
fn terminal_tab_lists_then_cycles_completion_candidates() {
    let listing = || vec![entry("amber.tex", false), entry("alpha.tex", false)];
    let mut app = App::default();
    app.terminal.directory = Some("/tmp/papr-cycle".into());
    app.terminal.command = "cat a".into();
    app.terminal.cursor = app.terminal.command.len();

    complete(&mut app, false, listing());
    assert_eq!(app.terminal.command, "cat a");
    assert_eq!(app.terminal.completions, vec!["alpha.tex", "amber.tex"]);
    complete(&mut app, false, listing());
    assert_eq!(app.terminal.command, "cat alpha.tex");
    complete(&mut app, false, listing());
    assert_eq!(app.terminal.command, "cat amber.tex");
    complete(&mut app, true, listing());
    assert_eq!(app.terminal.command, "cat alpha.tex");
}

#[test]
fn terminal_completion_is_case_insensitive_and_recomputes_after_accepting() {
    let mut app = App::default();
    app.mode = AppMode::TerminalCommand;
    app.terminal.directory = Some("/tmp/papr-case-complete".into());
    app.terminal.command = "cp doc".into();
    app.terminal.cursor = app.terminal.command.len();

    complete(
        &mut app,
        false,
        vec![entry("Documents", true), entry("Downloads", true)],
    );
    assert_eq!(app.terminal.command, "cp Documents/");
    assert!(app.terminal.completions.is_empty());

    let documents = || vec![entry("Alpha.tex", false), entry("Beta.tex", false)];
    complete(&mut app, false, documents());
    assert_eq!(app.terminal.command, "cp Documents/");
    assert_eq!(
        app.terminal.completions,
        vec!["Documents/Alpha.tex", "Documents/Beta.tex"]
    );
    complete(&mut app, false, documents());
    let _ = handle_key(&mut app, KeyEvent::new(KeyCode::Enter, KeyModifiers::none()));

    assert_eq!(app.terminal.command, "cp Documents/Alpha.tex");
    assert!(app.terminal.completions.is_empty());
}

#[test]
fn terminal_enter_accepts_a_completion_before_running() {
    let mut app = App::default();
    app.mode = AppMode::TerminalCommand;
    app.terminal.command = "cle".into();
    app.terminal.cursor = app.terminal.command.len();
    app.terminal.completions = vec!["clear".into()];
    app.terminal.completion_selected = Some(0);
    app.terminal.completion_token_start = 0;

    let _ = handle_key(&mut app, KeyEvent::new(KeyCode::Enter, KeyModifiers::none()));

    assert_eq!(app.terminal.command, "clear");
    assert!(app.terminal.output.is_empty());
    assert!(app.terminal.completions.is_empty());
}
