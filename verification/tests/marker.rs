use blocky::{classify, Marker, MIN_MARKER_LEN};

fn open(name: &str) -> Marker {
    Marker::Open(name.to_string())
}

fn close(name: &str) -> Marker {
    Marker::Close(name.to_string())
}

#[test]
fn threshold_is_length_of_shortest_close_marker() {
    assert_eq!(MIN_MARKER_LEN, 5);
    assert_eq!("{:/.}".chars().count(), MIN_MARKER_LEN);
}

#[test]
fn open_marker_gives_its_name() {
    assert_eq!(classify("{:.warning}"), open("warning"));
    assert_eq!(classify("{:.note}"), open("note"));
}

#[test]
fn close_marker_gives_its_name() {
    assert_eq!(classify("{:/.warning}"), close("warning"));
    assert_eq!(classify("{:/.note}"), close("note"));
}

#[test]
fn four_characters_are_plain_even_in_marker_shape() {
    assert_eq!(classify("{:.}"), Marker::Plain);
    assert_eq!(classify("{:/."), Marker::Plain);
    assert_eq!(classify("{:/}"), Marker::Plain);
    assert_eq!(classify("abcd"), Marker::Plain);
}

#[test]
fn five_characters_are_read_by_the_grammar() {
    assert_eq!(classify("{:.a}"), open("a"));
    assert_eq!(classify("{:/.}"), close(""));
    assert_eq!(classify("{:.ab"), Marker::Plain);
    assert_eq!(classify("a:.b}"), Marker::Plain);
    assert_eq!(classify("abcde"), Marker::Plain);
}

#[test]
fn shorter_payloads_are_plain() {
    assert_eq!(classify(""), Marker::Plain);
    assert_eq!(classify("}"), Marker::Plain);
    assert_eq!(classify("{:."), Marker::Plain);
}

#[test]
fn interior_is_taken_verbatim() {
    assert_eq!(classify("{:.}}"), open("}"));
    assert_eq!(classify("{:.a b}"), open("a b"));
    assert_eq!(classify("{:.{:.x}}"), open("{:.x}"));
    assert_eq!(classify("{:..x}"), open(".x"));
    assert_eq!(classify("{:.<b>\"}"), open("<b>\""));
    assert_eq!(classify("{:/./}"), close("/"));
    assert_eq!(classify("{:/.{:/.}}"), close("{:/.}"));
}

#[test]
fn wrong_prefix_or_terminator_is_plain() {
    assert_eq!(classify("{:warning}"), Marker::Plain);
    assert_eq!(classify("{.:warning}"), Marker::Plain);
    assert_eq!(classify(" {:.warning}"), Marker::Plain);
    assert_eq!(classify("{:.warning} "), Marker::Plain);
    assert_eq!(classify("{:.warning"), Marker::Plain);
    assert_eq!(classify("{:/warning}"), Marker::Plain);
    assert_eq!(classify("{:/ .warning}"), Marker::Plain);
    assert_eq!(classify("{:/.warning]"), Marker::Plain);
    assert_eq!(classify("hello world"), Marker::Plain);
}

#[test]
fn characters_are_counted_not_bytes() {
    assert_eq!(classify("{:.\u{e9}}"), open("\u{e9}"));
    assert_eq!(classify("{:/.\u{e9}t\u{e9}}"), close("\u{e9}t\u{e9}"));
    assert_eq!(classify("{:.\u{1f600}}"), open("\u{1f600}"));
    assert_eq!(classify("\u{e9}\u{e9}\u{e9}"), Marker::Plain);
    assert_eq!(classify("{:\u{e9}}"), Marker::Plain);
    assert_eq!(classify("{:.a\u{e9}"), Marker::Plain);
}
