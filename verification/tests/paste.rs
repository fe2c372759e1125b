use c0pl4nd::paste::{
    count_lines, paste_question, preview, Paste, PasteAnswer, PasteConfirmReason, PendingPaste,
};

fn paste(text: &str, reason: Option<PasteConfirmReason>) -> Paste {
    Paste { text: text.to_string(), reason }
}

#[test]
fn a_guarded_paste_waits_and_others_go_through() {
    let mut w = PendingPaste::new();
    let through = w.take_in(vec![
        paste("a", None),
        paste("b\nc", Some(PasteConfirmReason::MultiLine)),
        paste("d", None),
        paste("eeee", Some(PasteConfirmReason::LongLine)),
    ]);
    assert_eq!(through, vec!["a".to_string(), "d".to_string()]);
    assert_eq!(w.pending_paste.as_deref(), Some("eeee"));
    assert_eq!(w.pending_paste_reason, Some(PasteConfirmReason::LongLine));
    assert_eq!(w.answer(false, false), PasteAnswer::Asking);
    assert_eq!(w.answer(true, false), PasteAnswer::Send("eeee".to_string()));
    assert!(!w.has_pending_paste());
    assert_eq!(w.pending_paste_reason, None);
    assert_eq!(w.answer(true, false), PasteAnswer::Nothing);
}

#[test]
fn no_wins_over_yes() {
    let mut w = PendingPaste::new();
    w.take_in(vec![paste("b\nc", Some(PasteConfirmReason::MultiLine))]);
    assert_eq!(w.answer(true, true), PasteAnswer::Cancelled);
    assert!(!w.has_pending_paste());
    assert_eq!(w.confirm_pending_paste(), None);
}

#[test]
fn lines_are_counted_as_a_reader_would() {
    for (s, n) in [("", 1), ("a", 1), ("a\n", 1), ("a\nb", 2), ("a\r\nb\r\n", 2), ("\n\n", 2)] {
        assert_eq!(count_lines(s), n, "{s:?}");
        assert_eq!(count_lines(s), s.lines().count().max(1), "{s:?}");
    }
    assert_eq!(
        paste_question("a\nb\nc"),
        "This paste contains 3 lines and may run commands as soon as it lands."
    );
}

#[test]
fn a_preview_is_short_and_holds_no_control_characters() {
    assert_eq!(preview("a\u{1b}[31mb\tc\nd"), "a[31mbc\nd");
    let long = "x".repeat(500);
    assert_eq!(preview(&long).len(), 400);
}
