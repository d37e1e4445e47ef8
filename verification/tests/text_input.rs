use arklog::{Clipboard, KeyCode, KeyEvent, KeyModifiers, TextInput};

#[derive(Default)]
struct MemoryClipboard {
    text: String,
}

impl Clipboard for MemoryClipboard {
    fn get_text(&mut self) -> Result<String, String> {
        Ok(self.text.clone())
    }

    fn set_text(&mut self, text: &str) -> Result<(), String> {
        self.text = text.to_string();
        Ok(())
    }
}

#[test]
fn primary_a_selects_the_whole_draft_for_replacement_on_each_desktop() {
    for modifier in [KeyModifiers::control(), KeyModifiers::super_key()] {
        let mut input = TextInput::new("task-123");
        let mut clipboard = MemoryClipboard::default();

        input
            .handle_key(KeyEvent::new(KeyCode::Char('a'), modifier), &mut clipboard)
            .expect("select all");
        assert_eq!(input.view().selection, Some((0, "task-123".len())));
        input
            .handle_key(
                KeyEvent::new(KeyCode::Char('x'), KeyModifiers::none()),
                &mut clipboard,
            )
            .expect("replace selection");

        assert_eq!(input.text(), "x");
        assert_eq!(input.cursor_chars(), 1);
    }
}

#[test]
fn copy_cut_and_paste_operate_on_the_selected_input_text() {
    let mut input = TextInput::new("error|warning");
    let mut clipboard = MemoryClipboard::default();

    for character in ['a', 'c'] {
        input
            .handle_key(
                KeyEvent::new(KeyCode::Char(character), KeyModifiers::control()),
                &mut clipboard,
            )
            .expect("copy selected draft");
    }
    assert_eq!(input.text(), "error|warning");
    assert_eq!(clipboard.text, "error|warning");

    input
        .handle_key(
            KeyEvent::new(KeyCode::Char('x'), KeyModifiers::control()),
            &mut clipboard,
        )
        .expect("cut selected draft");
    assert_eq!(input.text(), "");

    input
        .handle_key(
            KeyEvent::new(KeyCode::Char('v'), KeyModifiers::control()),
            &mut clipboard,
        )
        .expect("paste draft");
    assert_eq!(input.text(), "error|warning");
}

#[test]
fn undo_and_redo_restore_text_edits_with_desktop_shortcuts() {
    let mut input = TextInput::new("needle");
    let mut clipboard = MemoryClipboard::default();

    for character in ['a', 'x', 'z'] {
        input
            .handle_key(
                KeyEvent::new(KeyCode::Char(character), KeyModifiers::control()),
                &mut clipboard,
            )
            .expect("edit then undo");
    }
    assert_eq!(input.text(), "needle");

    input
        .handle_key(
            KeyEvent::new(KeyCode::Char('y'), KeyModifiers::control()),
            &mut clipboard,
        )
        .expect("redo with Ctrl+Y");
    assert_eq!(input.text(), "");

    input
        .handle_key(
            KeyEvent::new(KeyCode::Char('z'), KeyModifiers::control()),
            &mut clipboard,
        )
        .expect("undo again");
    input
        .handle_key(
            KeyEvent::new(
                KeyCode::Char('z'),
                KeyModifiers::control().union(KeyModifiers::shift()),
            ),
            &mut clipboard,
        )
        .expect("redo with Ctrl+Shift+Z");
    assert_eq!(input.text(), "");
}

#[test]
fn arrows_home_and_end_move_or_extend_a_unicode_safe_selection() {
    let mut input = TextInput::new("ab中d");
    let mut clipboard = MemoryClipboard::default();

    input
        .handle_key(
            KeyEvent::new(KeyCode::Left, KeyModifiers::none()),
            &mut clipboard,
        )
        .expect("move left");
    input
        .handle_key(
            KeyEvent::new(KeyCode::Left, KeyModifiers::shift()),
            &mut clipboard,
        )
        .expect("select unicode character");
    input
        .handle_key(
            KeyEvent::new(KeyCode::Char('X'), KeyModifiers::shift()),
            &mut clipboard,
        )
        .expect("replace selection");
    assert_eq!(input.text(), "abXd");

    input
        .handle_key(
            KeyEvent::new(KeyCode::Home, KeyModifiers::none()),
            &mut clipboard,
        )
        .expect("home");
    assert_eq!(input.cursor_chars(), 0);
    input
        .handle_key(
            KeyEvent::new(KeyCode::End, KeyModifiers::none()),
            &mut clipboard,
        )
        .expect("end");
    assert_eq!(input.cursor_chars(), 4);
}

#[test]
fn delete_keys_remove_characters_or_words_without_splitting_unicode() {
    let mut clipboard = MemoryClipboard::default();
    let mut input = TextInput::new("ab中");

    input
        .handle_key(
            KeyEvent::new(KeyCode::Backspace, KeyModifiers::none()),
            &mut clipboard,
        )
        .expect("backspace unicode");
    input
        .handle_key(
            KeyEvent::new(KeyCode::Home, KeyModifiers::none()),
            &mut clipboard,
        )
        .expect("home");
    input
        .handle_key(
            KeyEvent::new(KeyCode::Delete, KeyModifiers::none()),
            &mut clipboard,
        )
        .expect("delete character");
    assert_eq!(input.text(), "b");

    let mut words = TextInput::new("one two 三");
    for _ in 0..2 {
        words
            .handle_key(
                KeyEvent::new(KeyCode::Backspace, KeyModifiers::control()),
                &mut clipboard,
            )
            .expect("delete previous word");
    }
    assert_eq!(words.text(), "one ");
    words
        .handle_key(
            KeyEvent::new(KeyCode::Home, KeyModifiers::none()),
            &mut clipboard,
        )
        .expect("home");
    words
        .handle_key(
            KeyEvent::new(KeyCode::Delete, KeyModifiers::control()),
            &mut clipboard,
        )
        .expect("delete next word");
    assert_eq!(words.text(), "");
}

#[test]
fn primary_arrows_move_by_words_and_shift_extends_the_selection() {
    let mut input = TextInput::new("one two");
    let mut clipboard = MemoryClipboard::default();

    input
        .handle_key(
            KeyEvent::new(KeyCode::Left, KeyModifiers::control()),
            &mut clipboard,
        )
        .expect("previous word");
    assert_eq!(input.cursor_chars(), 4);
    input
        .handle_key(
            KeyEvent::new(KeyCode::Right, KeyModifiers::control().union(KeyModifiers::shift())),
            &mut clipboard,
        )
        .expect("select next word");
    input
        .handle_key(
            KeyEvent::new(KeyCode::Char('c'), KeyModifiers::control()),
            &mut clipboard,
        )
        .expect("copy selected word");

    assert_eq!(clipboard.text, "two");
}

#[test]
fn macos_command_moves_by_line_while_option_moves_by_word() {
    let mut input = TextInput::new("one two");
    let mut clipboard = MemoryClipboard::default();

    input
        .handle_key(
            KeyEvent::new(KeyCode::Left, KeyModifiers::alt()),
            &mut clipboard,
        )
        .expect("Option+Left");
    assert_eq!(input.cursor_chars(), 4);
    input
        .handle_key(
            KeyEvent::new(KeyCode::Left, KeyModifiers::super_key()),
            &mut clipboard,
        )
        .expect("Command+Left");
    assert_eq!(input.cursor_chars(), 0);
    input
        .handle_key(
            KeyEvent::new(KeyCode::Delete, KeyModifiers::super_key()),
            &mut clipboard,
        )
        .expect("Command+Delete");
    assert_eq!(input.text(), "");
}

#[test]
fn paste_stays_single_line_utf8_and_within_the_query_memory_budget() {
    let mut input = TextInput::new("");
    let mut clipboard = MemoryClipboard {
        text: format!("a\nb\rc\0{}", "中".repeat(2_000)),
    };

    input
        .handle_key(
            KeyEvent::new(KeyCode::Char('v'), KeyModifiers::control()),
            &mut clipboard,
        )
        .expect("bounded paste");

    assert!(input.text().starts_with("a b c"));
    assert!(!input.text().chars().any(char::is_control));
    assert!(input.text().len() <= 4 * 1024);
    assert!(input.text().is_char_boundary(input.text().len()));
}

#[test]
fn view_reports_cursor_and_selection_as_byte_offsets() {
    let mut input = TextInput::new("a中b");
    let mut clipboard = MemoryClipboard::default();
    input
        .handle_key(KeyEvent::new(KeyCode::Left, KeyModifiers::shift()), &mut clipboard)
        .expect("select b");
    input
        .handle_key(KeyEvent::new(KeyCode::Left, KeyModifiers::shift()), &mut clipboard)
        .expect("select 中");
    let view = input.view();
    assert_eq!(view.text, "a中b");
    assert_eq!(view.cursor, 1);
    assert_eq!(view.selection, Some((1, 5)));
    assert_eq!(input.cursor_chars(), 1);
}

#[test]
fn new_input_drops_line_breaks_and_keeps_the_cursor_at_the_end() {
    let input = TextInput::new("one\ntwo");
    assert_eq!(input.text(), "one two");
    assert_eq!(input.cursor_chars(), 7);
    assert_eq!(input.view().selection, None);
}

struct FailingClipboard;

impl Clipboard for FailingClipboard {
    fn get_text(&mut self) -> Result<String, String> {
        Err("clipboard unavailable".to_string())
    }

    fn set_text(&mut self, _text: &str) -> Result<(), String> {
        Err("clipboard unavailable".to_string())
    }
}

#[test]
fn clipboard_failures_are_reported_and_leave_the_text_alone() {
    let mut input = TextInput::new("keep");
    let mut clipboard = FailingClipboard;
    input
        .handle_key(KeyEvent::new(KeyCode::Char('a'), KeyModifiers::control()), &mut clipboard)
        .expect("select all");
    assert_eq!(
        input.handle_key(KeyEvent::new(KeyCode::Char('x'), KeyModifiers::control()), &mut clipboard),
        Err("clipboard unavailable".to_string())
    );
    assert_eq!(input.text(), "keep");
    assert_eq!(
        input.handle_key(KeyEvent::new(KeyCode::Char('v'), KeyModifiers::control()), &mut clipboard),
        Err("clipboard unavailable".to_string())
    );
    assert_eq!(input.text(), "keep");
}

#[test]
fn unhandled_keys_are_reported_as_such() {
    let mut input = TextInput::new("x");
    let mut clipboard = MemoryClipboard::default();
    assert_eq!(
        input.handle_key(KeyEvent::new(KeyCode::Tab, KeyModifiers::none()), &mut clipboard),
        Ok(false)
    );
    assert_eq!(
        input.handle_key(KeyEvent::new(KeyCode::Char('k'), KeyModifiers::control()), &mut clipboard),
        Ok(false)
    );
    assert_eq!(input.text(), "x");
}
