use sentry::lines::LineBuffer;

#[test]
fn lines_come_out_whole_and_in_order() {
    let mut b = LineBuffer::new();
    b.feed(b"{\"command\":\"fire\"}\n\"ping\"\n");
    assert_eq!(b.next_line(), Some(b"{\"command\":\"fire\"}".to_vec()));
    assert_eq!(b.next_line(), Some(b"\"ping\"".to_vec()));
    assert_eq!(b.next_line(), None);
}

#[test]
fn a_partial_line_waits_for_its_line_feed() {
    let mut b = LineBuffer::new();
    b.feed(b"{\"pitch\":0.");
    assert_eq!(b.next_line(), None);
    b.feed(b"5,\"yaw\":0}\n");
    assert_eq!(b.next_line(), Some(b"{\"pitch\":0.5,\"yaw\":0}".to_vec()));
}

#[test]
fn a_carriage_return_before_the_line_feed_is_dropped() {
    let mut b = LineBuffer::new();
    b.feed(b"\"ping\"\r\n\r\n");
    assert_eq!(b.next_line(), Some(b"\"ping\"".to_vec()));
    // A bare CRLF is an empty line.
    assert_eq!(b.next_line(), Some(Vec::new()));
}

#[test]
fn only_the_final_carriage_return_is_dropped() {
    let mut b = LineBuffer::new();
    b.feed(b"a\rb\r\n");
    assert_eq!(b.next_line(), Some(b"a\rb".to_vec()));
}
