use rair_core::writer::{Span, Style, Writer};
use yansi::Paint;

#[test]
fn a_new_sink_is_empty() {
    Paint::disable();
    let w = Writer::new_buf();
    assert_eq!(w.text(), "");
    assert_eq!(w.utf8_string(), "");
}

#[test]
fn pieces_are_kept_in_order() {
    Paint::disable();
    let mut w = Writer::new_buf();
    w.write(Style::Alert, "Error");
    w.write(Style::Plain, ": ");
    w.write(Style::Title, "Execution failed");
    w.write(Style::Plain, "\n");
    assert_eq!(w.text(), "Error: Execution failed\n");
    assert_eq!(w.utf8_string(), "Error: Execution failed\n");
}

#[test]
fn spans_are_written_one_after_the_other() {
    let mut w = Writer::new_buf();
    w.write(Style::Plain, "a");
    let spans = vec![
        Span::new(Style::Strong, "b"),
        Span::new(Style::Rgb(1, 2, 3), "c"),
        Span::new(Style::Plain, ""),
    ];
    w.write_spans(&spans);
    w.write_spans(&Vec::new());
    w.write(Style::Plain, "d");
    assert_eq!(w.text(), "abcd");
    assert_eq!(spans[0].style, Style::Strong);
    assert_eq!(spans[1].text, "c");
}
