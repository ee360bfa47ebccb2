use tone_player::write_to::{show, WriteError, WriteTo};

#[test]
fn empty_writer_holds_the_empty_text() {
    let mut buf = [0u8; 8];
    assert_eq!(WriteTo::new(&mut buf).as_str(), Some(""));
    let mut none: [u8; 0] = [];
    assert_eq!(WriteTo::new(&mut none).as_str(), Some(""));
}

#[test]
fn texts_are_written_one_behind_the_other() {
    let mut buf = [0u8; 16];
    let mut w = WriteTo::new(&mut buf);
    assert_eq!(w.write_str("Hello "), Ok(()));
    assert_eq!(w.write_str(""), Ok(()));
    assert_eq!(w.write_str("World!"), Ok(()));
    assert_eq!(w.as_str(), Some("Hello World!"));
    assert_eq!(&buf[..12], b"Hello World!");
    assert_eq!(&buf[12..], &[0u8; 4]);
}

#[test]
fn text_may_fill_the_buffer() {
    let mut buf = [0u8; 5];
    let mut w = WriteTo::new(&mut buf);
    assert_eq!(w.write_str("12345"), Ok(()));
    assert_eq!(w.as_str(), Some("12345"));
}

#[test]
fn text_that_does_not_fit_is_cut_off() {
    let mut buf = [b'.'; 4];
    let mut w = WriteTo::new(&mut buf);
    assert_eq!(w.write_str("ab"), Ok(()));
    assert_eq!(w.write_str("cdef"), Err(WriteError));
    assert_eq!(w.as_str(), None);
    assert_eq!(&buf, b"abcd");
}

#[test]
fn nothing_is_written_after_a_text_was_cut_off() {
    let mut buf = [b'.'; 4];
    let mut w = WriteTo::new(&mut buf);
    assert_eq!(w.write_str("abcde"), Err(WriteError));
    assert_eq!(w.write_str("x"), Err(WriteError));
    assert_eq!(w.write_str(""), Err(WriteError));
    assert_eq!(w.as_str(), None);
    assert_eq!(&buf, b"abcd");
}

#[test]
fn text_of_many_bytes_per_character() {
    let mut buf = [0u8; 8];
    let mut w = WriteTo::new(&mut buf);
    assert_eq!(w.write_str("h\u{e9}"), Ok(()));
    assert_eq!(w.write_str("\u{20ac}"), Ok(()));
    assert_eq!(w.as_str(), Some("h\u{e9}\u{20ac}"));
}

#[test]
fn show_hands_back_the_text() {
    let mut buf = [0u8; 16];
    assert_eq!(show(&mut buf, "Init\r\n"), Ok("Init\r\n"));
    let mut exact = [0u8; 3];
    assert_eq!(show(&mut exact, "abc"), Ok("abc"));
}

#[test]
fn show_fails_where_the_text_does_not_fit() {
    let mut buf = [0u8; 3];
    assert_eq!(show(&mut buf, "abcd"), Err(WriteError));
    let mut none: [u8; 0] = [];
    assert_eq!(show(&mut none, "a"), Err(WriteError));
    assert_eq!(show(&mut none, ""), Ok(""));
}
