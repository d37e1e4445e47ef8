use arklog::input_view::visible_window;
use arklog::presentation::input_content_width;
use arklog::{Clipboard, KeyCode, KeyEvent, KeyModifiers, TextInput, TextInputView};

#[test]
fn short_inputs_are_shown_whole() {
    let (text, cursor, selection, column) = visible_window(TextInputView::at_end("abc"), 10);
    assert_eq!(text, "abc");
    assert_eq!(cursor, 3);
    assert_eq!(selection, None);
    assert_eq!(column, 3);
}

#[test]
fn long_inputs_scroll_to_keep_the_cursor_in_view() {
    let draft = "abcdefghij";
    let (text, cursor, _, column) = visible_window(TextInputView::at_end(draft), 5);
    assert_eq!(text, "ghij");
    assert_eq!(cursor, 4);
    assert_eq!(column, 4);

    let view = TextInputView { text: draft, cursor: 2, selection: Some((1, 8)) };
    let (text, cursor, selection, column) = visible_window(view, 5);
    assert_eq!(text, "abcde");
    assert_eq!(cursor, 2);
    assert_eq!(selection, Some((1, 5)));
    assert_eq!(column, 2);
}

#[test]
fn wide_characters_count_two_columns() {
    let (text, cursor, _, column) = visible_window(TextInputView::at_end("中文字"), 5);
    assert_eq!(text, "文字");
    assert_eq!(cursor, 6);
    assert_eq!(column, 4);
}

struct UnusedClipboard;

impl Clipboard for UnusedClipboard {
    fn get_text(&mut self) -> Result<String, String> {
        Ok(String::new())
    }

    fn set_text(&mut self, _text: &str) -> Result<(), String> {
        Ok(())
    }
}

#[test]
fn long_input_keeps_the_cursor_suffix_visible() {
    let draft = format!("{}needle", "x".repeat(90));
    let mut input = TextInput::new(&draft);
    input
        .handle_key(
            KeyEvent { code: KeyCode::Char('a'), modifiers: KeyModifiers::control() },
            &mut UnusedClipboard,
        )
        .expect("select all");
    let width = input_content_width(80);
    let (shown, cursor, selection, column) = visible_window(input.view(), width);
    assert!(shown.ends_with("needle"));
    assert_eq!(cursor, shown.len());
    assert_eq!(selection, Some((0, shown.len())));
    assert_eq!(column, width - 1);
}
