use papr::arxiv::arxiv_page_url;
use papr::keys::{KeyCode, KeyEvent, KeyModifiers};
use papr::lines::{
    config_editor_line_end, config_editor_line_start, next_char_boundary, next_word_boundary,
    prev_char_boundary, prev_word_boundary, project_editor_line_at, project_editor_line_start_at,
    project_editor_matching_delimiter, project_editor_next_paragraph,
    project_editor_previous_paragraph,
};
use papr::order::{insert_sorted, less_ignoring_case, text_less};
use papr::paths::{
    extension_is_ignoring_case, is_project_text_file, is_project_tree_file, path_eq,
    path_extension, path_file_name, path_join, path_parent, path_starts_with, path_with_extension,
    path_with_file_name,
};
use papr::select::{clamp_selection, pick, select_next, select_previous};
use papr::state::ProjectEditor;
use papr::text_edit::{apply_editor_insert_key, edit_text, EditorInsertResult};
use papr::vim::{
    delete_current_line, record_change, redo_change, undo_change, PROJECT_EDITOR_UNDO_LIMIT,
};
use papr::wrap::{
    build_config_editor_view_with_scroll_mode, count_rows, cursor_from_visual_position,
    cursor_visual_position, expand_tabs_for_editor_view,
};
use papr::viewer::Platform;

fn key(code: KeyCode) -> KeyEvent {
    KeyEvent::new(code, KeyModifiers::none())
}

#[test]
fn boundaries_of_characters_and_words() {
    let text = "aé — x_1, y";
    assert_eq!(next_char_boundary(text, 1), 3);
    assert_eq!(prev_char_boundary(text, 3), 1);
    assert_eq!(prev_char_boundary(text, 0), 0);
    assert_eq!(next_char_boundary(text, text.len()), text.len());
    assert_eq!(next_word_boundary(text, 0), 4);
    assert_eq!(next_word_boundary(text, 4), 8);
    assert_eq!(next_word_boundary(text, 8), 11);
    assert_eq!(prev_word_boundary(text, text.len()), 13);
    assert_eq!(prev_word_boundary(text, 13), 11);
    // A tab and a no-break space are white space, an accented letter is not.
    assert_eq!(next_word_boundary("a\t\u{a0}é", 0), 4);
}

#[test]
fn lines_and_paragraphs() {
    let text = "one\n\ntwo\nthree\n\nfour";
    assert_eq!(config_editor_line_start(text, 7), 5);
    assert_eq!(config_editor_line_end(text, 5), 8);
    assert_eq!(project_editor_line_at(text, 9), 3);
    assert_eq!(project_editor_line_start_at(text, 3), 9);
    assert_eq!(project_editor_next_paragraph(text, 5), 16);
    assert_eq!(project_editor_previous_paragraph(text, 9), 5);
}

#[test]
fn delimiters_find_each_other() {
    let text = "f(a[1], {b})";
    for (open, close) in [(1, 11), (3, 5), (8, 10)] {
        assert_eq!(project_editor_matching_delimiter(text, open), Some(close));
        assert_eq!(project_editor_matching_delimiter(text, close), Some(open));
    }
    assert_eq!(project_editor_matching_delimiter("(", 0), None);
}

#[test]
fn typing_and_taking_back() {
    let mut text = "añb".to_owned();
    let mut cursor = 3;
    assert!(edit_text(&mut text, &mut cursor, key(KeyCode::Char('漢'))));
    assert_eq!((text.as_str(), cursor), ("añ漢b", 6));
    assert!(edit_text(&mut text, &mut cursor, key(KeyCode::Backspace)));
    assert_eq!((text.as_str(), cursor), ("añb", 3));
    assert!(!edit_text(&mut text, &mut cursor, key(KeyCode::Left)));
    assert_eq!((text.as_str(), cursor), ("añb", 1));
}

#[test]
fn insert_mode_reports_what_it_did() {
    let mut text = "ab".to_owned();
    let mut cursor = 1;
    let mut press = |code| apply_editor_insert_key(&mut text, &mut cursor, key(code));
    assert_eq!(press(KeyCode::Enter), EditorInsertResult::Changed);
    assert_eq!(press(KeyCode::Left), EditorInsertResult::Moved);
    assert_eq!(press(KeyCode::Esc), EditorInsertResult::ExitInsert);
    assert_eq!(
        apply_editor_insert_key(
            &mut text,
            &mut cursor,
            KeyEvent::new(KeyCode::Char('x'), KeyModifiers::control())
        ),
        EditorInsertResult::Ignored
    );
    assert_eq!(text, "a\nb");
}

#[test]
fn positions_and_rows_agree() {
    let text = "abcdefghij\nkl";
    for cursor in 0..=text.len() {
        let (row, column) = cursor_visual_position(text, cursor, 4);
        assert!(column <= 4);
        assert!((row as u128) < count_rows(text, 4));
        assert_eq!(cursor_from_visual_position(text, row, column, 4), cursor);
    }
    assert_eq!(count_rows("", 4), 1);
    assert_eq!(count_rows("abcd\n", 4), 2);
}

#[test]
fn tabs_reach_the_next_stop() {
    assert_eq!(expand_tabs_for_editor_view("a\tb", 2, 4), ("a   b".to_owned(), 4));
    assert_eq!(expand_tabs_for_editor_view("\t\t", 1, 4), ("        ".to_owned(), 4));
}

#[test]
fn a_followed_cursor_is_in_view() {
    let text = "0\n1\n2\n3\n4\n5\n6\n7\n8\n9";
    let mut scroll = 0;
    let view = build_config_editor_view_with_scroll_mode(text, 18, 10, 3, &mut scroll, true);
    assert_eq!(view.cursor_row, 9);
    assert_eq!(scroll, 7);
    let _ = build_config_editor_view_with_scroll_mode(text, 0, 10, 3, &mut scroll, false);
    assert_eq!(scroll, 7);
    let _ = build_config_editor_view_with_scroll_mode(text, 0, 10, 3, &mut scroll, true);
    assert_eq!(scroll, 0);
}

#[test]
fn changes_are_undone_and_redone() {
    let mut e = ProjectEditor::default();
    e.text = "one\ntwo".into();
    e.cursor = 4;
    delete_current_line(&mut e);
    assert_eq!(e.text, "one\n");
    undo_change(&mut e);
    assert_eq!((e.text.as_str(), e.cursor), ("one\ntwo", 4));
    redo_change(&mut e);
    assert_eq!(e.text, "one\n");
    undo_change(&mut e);
    assert_eq!((e.text.as_str(), e.cursor), ("one\ntwo", 4));
    for _ in 0..PROJECT_EDITOR_UNDO_LIMIT + 3 {
        record_change(&mut e);
        e.text.push('x');
    }
    assert!(e.undo.len() <= PROJECT_EDITOR_UNDO_LIMIT);
}

#[test]
fn texts_are_ordered_without_regard_to_case() {
    assert!(text_less("B", "a"));
    assert!(!less_ignoring_case("B", "a"));
    assert!(less_ignoring_case("a", "B"));
    assert!(less_ignoring_case("A", "a"));
    assert!(!less_ignoring_case("a", "a"));
    assert!(less_ignoring_case("ÄB", "äc"));
    let mut v = Vec::new();
    for text in ["beta", "Alpha", "alpha", "Gamma", "Alpha"] {
        insert_sorted(&mut v, text.to_owned());
    }
    assert_eq!(v, vec!["Alpha", "alpha", "beta", "Gamma"]);
}

#[test]
fn selections_stay_in_their_lists() {
    assert_eq!(select_next(0, 0), 0);
    assert_eq!(select_next(2, 3), 2);
    assert_eq!(select_next(1, 3), 2);
    assert_eq!(select_previous(0), 0);
    assert_eq!(clamp_selection(7, 3), 2);
    assert_eq!(clamp_selection(7, 0), 0);
    assert_eq!(pick(&vec![true, false, true, true]), vec![0, 2, 3]);
}

#[test]
fn paths_are_taken_part_by_part() {
    assert!(path_eq(Platform::Other, "/a//b/./c/", "/a/b/c"));
    assert!(!path_eq(Platform::Other, "a/b", "/a/b"));
    assert!(path_starts_with(Platform::Other, "/a/b/c", "/a/b"));
    assert!(!path_starts_with(Platform::Other, "/a/bc", "/a/b"));
    assert_eq!(path_parent(Platform::Other, "/a/b/").as_deref(), Some("/a"));
    assert_eq!(path_parent(Platform::Other, "/").as_deref(), None);
    assert_eq!(path_parent(Platform::Other, "a").as_deref(), Some(""));
    assert_eq!(path_file_name(Platform::Other, "/a/b.tex").as_deref(), Some("b.tex"));
    assert!(path_file_name(Platform::Other, "/a/..").is_none());
    assert_eq!(path_extension(Platform::Other, "/a/b.tar.gz").as_deref(), Some("gz"));
    assert!(path_extension(Platform::Other, "/a/.hidden").is_none());
    assert_eq!(path_join(Platform::Other, "/a", "b"), "/a/b");
    assert_eq!(path_join(Platform::Other, "/a/", "b"), "/a/b");
    assert_eq!(path_join(Platform::Other, "/a", "/b"), "/b");
    assert_eq!(path_with_extension(Platform::Other, "/a/b.pdf", "pdf.part"), "/a/b.pdf.part");
    assert_eq!(path_with_extension(Platform::Other, "/a/b.pdf.part", ""), "/a/b.pdf");
    assert_eq!(path_with_extension(Platform::Other, "/a/b", "x"), "/a/b.x");
    assert_eq!(path_with_extension(Platform::Other, "/a/.b/", "x"), "/a/.b.x");
    assert_eq!(path_with_extension(Platform::Other, "/", "x"), "/");
    assert_eq!(path_with_file_name(Platform::Other, "/a/b.pdf", "c.pdf"), "/a/c.pdf");
    assert_eq!(path_with_file_name(Platform::Other, "/", "c.pdf"), "/c.pdf");
}

#[test]
fn paths_agree_with_the_standard_library() {
    for p in ["/a/b", "a", "/a/b/", "a/./b", "./a", ".", "..", "/", "", "a//b", "/a/..", "x.y/z.w"] {
        let std = std::path::Path::new(p);
        assert_eq!(
            path_parent(Platform::Other, p).as_deref().map(std::path::Path::new),
            std.parent(),
            "{p:?}"
        );
        assert_eq!(
            path_file_name(Platform::Other, p),
            std.file_name().map(|name| name.to_str().unwrap().to_owned()),
            "{p:?}"
        );
        assert_eq!(
            path_extension(Platform::Other, p),
            std.extension().map(|ext| ext.to_str().unwrap().to_owned()),
            "{p:?}"
        );
        assert_eq!(
            path_with_extension(Platform::Other, p, "new"),
            std.with_extension("new").to_str().unwrap(),
            "{p:?}"
        );
        for q in ["/a", "a", "/a/b", "", ".", "/"] {
            assert_eq!(
                path_eq(Platform::Other, p, q),
                std == std::path::Path::new(q),
                "{p:?} {q:?}",
            );
            assert_eq!(path_starts_with(Platform::Other, p, q), std.starts_with(q), "{p:?} {q:?}");
            assert_eq!(
                path_join(Platform::Other, p, q),
                std.join(q).to_str().unwrap(),
                "{p:?} {q:?}",
            );
        }
    }
}

#[test]
fn the_tree_shows_texts_and_images() {
    for name in ["a.tex", "a.bib", "a.sty", "a.cls", "a.md", "a.txt", "a.typ"] {
        assert!(is_project_text_file(
            Platform::Other,
            name,
        ) && is_project_tree_file(Platform::Other, name));
    }
    for name in ["a.png", "a.JPG", "a.webp", "a.qoi", "a.jfif"] {
        assert!(!is_project_text_file(
            Platform::Other,
            name,
        ) && is_project_tree_file(Platform::Other, name), "{name}");
    }
    for name in ["a.docx", "a.TEX", "png", ".png", "a.pdf"] {
        assert!(!is_project_tree_file(Platform::Other, name), "{name}");
    }
    assert!(extension_is_ignoring_case(Platform::Other, "refs.BIB", "bib"));
}

#[test]
fn arxiv_references_become_pages() {
    for (reference, page) in [
        ("2607.12345v2", Some("https://arxiv.org/abs/2607.12345v2")),
        (" arXiv:2607.1234 ", Some("https://arxiv.org/abs/2607.1234")),
        ("2607.12345v2.pdf", Some("https://arxiv.org/abs/2607.12345v2")),
        ("hep-th/9901001", Some("https://arxiv.org/abs/hep-th/9901001")),
        ("http://arxiv.org/pdf/2607.12345", Some("http://arxiv.org/pdf/2607.12345")),
        ("2607.123", None),
        ("2607.12345v", None),
        ("10.1000/182", None),
        ("  ", None),
    ] {
        assert_eq!(arxiv_page_url(reference).as_deref(), page, "{reference}");
    }
}
