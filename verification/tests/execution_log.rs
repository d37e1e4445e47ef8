use arklog::execution_log::{
    event_line, fit_line, log_write_step, needs_reset, quoted, stream_intent_label, token,
};
use arklog::StreamAction;

#[test]
fn event_lines_are_structured_and_single_line() {
    let line = event_line(42, "command", &[("name", "Ctrl+S"), ("result", "accepted")]);
    assert_eq!(line, "ts_ms=42 event=command name=\"Ctrl+S\" result=\"accepted\"\n");
    let error = event_line(7, "error", &[("scope", "background"), ("message", "HDC failed\nretry available")]);
    assert_eq!(
        error,
        "ts_ms=7 event=error scope=\"background\" message=\"HDC failed retry available\"\n"
    );
    assert_eq!(error.lines().count(), 1);
}

#[test]
fn tokens_and_quoted_values_cannot_break_the_format() {
    assert_eq!(token("stream intent=x"), "stream_intent_x");
    assert_eq!(token("a.b-c_d"), "a.b-c_d");
    assert_eq!(quoted("say \"hi\"\\now"), "say \\\"hi\\\"\\\\now");
    assert_eq!(quoted("tab\there\r"), "tab here ");
}

#[test]
fn long_lines_are_cut_short_of_the_file_budget() {
    assert_eq!(fit_line("short\n", 192), "short\n");
    let long = format!("{}\n", "x".repeat(300));
    let fitted = fit_line(&long, 192);
    assert_eq!(fitted.len(), 192);
    assert!(fitted.ends_with('\n'));
    let wide = "中".repeat(10);
    let fitted = fit_line(&wide, 8);
    assert_eq!(fitted, "中中\n");
    assert!(needs_reset(100, 100, 192));
    assert!(!needs_reset(92, 100, 192));
    assert!(needs_reset(300, 1, 192));
}

#[test]
fn stream_intents_have_stable_names() {
    assert_eq!(stream_intent_label(Some(StreamAction::Start)), "Start");
    assert_eq!(stream_intent_label(Some(StreamAction::Stop)), "Stop");
    assert_eq!(stream_intent_label(None), "None");
}

#[test]
fn restarts_the_execution_log_before_it_exceeds_its_file_budget() {
    let budget = 192;
    let mut used = 0;
    let mut file = String::new();
    for index in 0..21 {
        let event = if index == 20 { "final_state" } else { "tick" };
        let line = event_line(index, event, &[("n", &index.to_string())]);
        let (fitted, reset, after) = log_write_step(used, &line, budget);
        if reset {
            file.clear();
        }
        file.push_str(&fitted);
        used = after;
        assert_eq!(used, file.len());
        assert!(used <= budget);
    }
    assert!(file.contains("event=final_state"));
    let (cut, _, _) = log_write_step(0, &"y".repeat(400), budget);
    assert!(cut.len() <= budget && cut.ends_with('\n'));
}
