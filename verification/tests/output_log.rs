use web_backend::backend::WebBackend;
use web_backend::output::OutputItem;

fn texts(backend: &WebBackend) -> Vec<String> {
    let mut out = Vec::new();
    for item in &backend.stdout {
        match item {
            OutputItem::String(s) => out.push(s.clone()),
            _ => out.push(String::from("<other>")),
        }
    }
    out
}

#[test]
fn new_backend_is_empty() {
    let backend = WebBackend::default();
    assert!(backend.stdout.is_empty());
    assert_eq!(backend.stderr, "");
    assert_eq!(backend.trace, "");
    assert!(backend.files.is_empty());
}

#[test]
fn text_without_line_break_is_one_item() {
    let mut backend = WebBackend::default();
    assert_eq!(backend.print_str_stdout("hello"), Ok(()));
    assert_eq!(texts(&backend), vec!["hello"]);
}

#[test]
fn second_write_joins_the_same_item() {
    let mut backend = WebBackend::default();
    backend.print_str_stdout("hello").unwrap();
    backend.print_str_stdout(", world").unwrap();
    assert_eq!(texts(&backend), vec!["hello, world"]);
}

#[test]
fn two_terminated_lines_give_three_items() {
    let mut backend = WebBackend::default();
    backend.print_str_stdout("a\nb\n").unwrap();
    assert_eq!(texts(&backend), vec!["a", "b", ""]);
}

#[test]
fn empty_text_changes_nothing() {
    let mut backend = WebBackend::default();
    backend.print_str_stdout("").unwrap();
    assert!(backend.stdout.is_empty());
    backend.print_str_stdout("x").unwrap();
    backend.print_str_stdout("").unwrap();
    assert_eq!(texts(&backend), vec!["x"]);
}

#[test]
fn lone_line_feed_ends_the_current_line() {
    let mut backend = WebBackend::default();
    backend.print_str_stdout("x").unwrap();
    backend.print_str_stdout("\n").unwrap();
    assert_eq!(texts(&backend), vec!["x", ""]);
}

#[test]
fn lone_line_feed_on_empty_log_gives_two_empty_items() {
    let mut backend = WebBackend::default();
    backend.print_str_stdout("\n").unwrap();
    assert_eq!(texts(&backend), vec!["", ""]);
}

#[test]
fn text_after_terminated_line_fills_the_empty_item() {
    let mut backend = WebBackend::default();
    backend.print_str_stdout("a\n").unwrap();
    backend.print_str_stdout("b").unwrap();
    assert_eq!(texts(&backend), vec!["a", "b"]);
}

#[test]
fn first_line_joins_and_the_rest_are_new_items() {
    let mut backend = WebBackend::default();
    backend.print_str_stdout("ab").unwrap();
    backend.print_str_stdout("c\nd\ne").unwrap();
    assert_eq!(texts(&backend), vec!["abc", "d", "e"]);
}

#[test]
fn blank_lines_are_kept() {
    let mut backend = WebBackend::default();
    backend.print_str_stdout("a\n\nb").unwrap();
    assert_eq!(texts(&backend), vec!["a", "", "b"]);
}

#[test]
fn carriage_return_before_line_feed_is_dropped() {
    let mut backend = WebBackend::default();
    backend.print_str_stdout("a\r\nb\r\n").unwrap();
    assert_eq!(texts(&backend), vec!["a", "b", ""]);
}

#[test]
fn other_carriage_returns_are_kept() {
    let mut backend = WebBackend::default();
    backend.print_str_stdout("a\rb\r").unwrap();
    assert_eq!(texts(&backend), vec!["a\rb\r"]);
}

#[test]
fn text_after_another_kind_of_item_starts_a_new_item() {
    let mut backend = WebBackend::default();
    backend.print_str_stdout("before").unwrap();
    backend.show_gif(vec![1, 2, 3]).unwrap();
    backend.print_str_stdout("after").unwrap();
    assert_eq!(texts(&backend), vec!["before", "<other>", "after"]);
}

#[test]
fn text_after_an_error_item_starts_a_new_item() {
    let mut backend = WebBackend::default();
    backend.push_item(OutputItem::Error(String::from("bad")));
    backend.print_str_stdout("x").unwrap();
    assert_eq!(backend.stdout.len(), 2);
    assert!(matches!(&backend.stdout[0], OutputItem::Error(e) if e == "bad"));
    assert!(matches!(&backend.stdout[1], OutputItem::String(s) if s == "x"));
}

#[test]
fn non_ascii_text_is_kept_whole() {
    let mut backend = WebBackend::default();
    backend.print_str_stdout("héllo ⍉\n∘").unwrap();
    assert_eq!(texts(&backend), vec!["héllo ⍉", "∘"]);
}

#[test]
fn stdout_leaves_the_other_state_alone() {
    let mut backend = WebBackend::default();
    backend.print_str_stderr("e").unwrap();
    backend.print_str_trace("t");
    backend.file_write_all("p", &[1]).unwrap();
    backend.print_str_stdout("a\nb").unwrap();
    assert_eq!(backend.stderr, "e");
    assert_eq!(backend.trace, "t");
    assert_eq!(backend.file_read_all("p"), Ok(vec![1]));
}

#[test]
fn stderr_appends_verbatim() {
    let mut backend = WebBackend::default();
    assert_eq!(backend.print_str_stderr("one\n"), Ok(()));
    backend.print_str_stderr("two\r\n").unwrap();
    backend.print_str_stderr("").unwrap();
    assert_eq!(backend.stderr, "one\ntwo\r\n");
    assert!(backend.stdout.is_empty());
    assert_eq!(backend.trace, "");
}

#[test]
fn trace_appends_verbatim() {
    let mut backend = WebBackend::default();
    backend.print_str_trace("a\n");
    backend.print_str_trace("b");
    assert_eq!(backend.trace, "a\nb");
    assert!(backend.stdout.is_empty());
    assert_eq!(backend.stderr, "");
}

#[test]
fn gif_and_audio_are_appended_in_order() {
    let mut backend = WebBackend::default();
    assert_eq!(backend.show_gif(vec![7, 8]), Ok(()));
    assert_eq!(backend.play_audio(vec![9]), Ok(()));
    assert_eq!(backend.stdout.len(), 2);
    assert!(matches!(&backend.stdout[0], OutputItem::Gif(b) if b == &vec![7, 8]));
    assert!(matches!(&backend.stdout[1], OutputItem::Audio(b) if b == &vec![9]));
}

#[test]
fn items_are_not_deduplicated() {
    let mut backend = WebBackend::default();
    backend.show_gif(vec![1]).unwrap();
    backend.show_gif(vec![1]).unwrap();
    backend.push_item(OutputItem::Separator);
    backend.push_item(OutputItem::Separator);
    assert_eq!(backend.stdout.len(), 4);
    assert!(matches!(&backend.stdout[2], OutputItem::Separator));
    assert!(matches!(&backend.stdout[3], OutputItem::Separator));
}

#[test]
fn diagnostic_keeps_its_message_and_kind() {
    let mut backend = WebBackend::default();
    backend.push_item(OutputItem::Diagnostic(
        String::from("unused"),
        uiua::DiagnosticKind::Advice,
    ));
    assert!(matches!(
        &backend.stdout[0],
        OutputItem::Diagnostic(m, uiua::DiagnosticKind::Advice) if m == "unused"
    ));
}
