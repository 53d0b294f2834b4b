use stellwerksim::frame::FrameReader;
use stellwerksim::text::char_is_whitespace;
use stellwerksim::{read_message, Error};

#[test]
fn one_line_reply_ends_at_the_first_line_end() {
    let mut reader = FrameReader::new();
    reader.push(b"<sim zeit='1' />");
    assert_eq!(reader.poll(), Ok(None));
    reader.push(b"\n<next/>\n");
    assert_eq!(reader.poll(), Ok(Some("<sim zeit='1' />\n".to_string())));
    assert_eq!(reader.poll(), Ok(Some("<next/>\n".to_string())));
    assert_eq!(reader.poll(), Ok(None));
}

#[test]
fn block_ends_with_the_line_that_holds_the_terminator() {
    let mut reader = FrameReader::new();
    reader.expect(Some("</wege>"));
    reader.push(b"<wege>\n<shape type='1'/>\n");
    assert_eq!(reader.poll(), Ok(None));
    reader.push(b" \t</wege>\r\nnot consumed");
    let frame = reader.poll().unwrap().unwrap();
    assert_eq!(frame, "<wege>\n<shape type='1'/>\n \t</wege>\r\n");
    assert_eq!(frame.lines().last().unwrap().trim(), "</wege>");
    // what follows the block is still there for the next reply
    reader.expect(None);
    assert_eq!(reader.poll(), Ok(None));
    reader.push(b"\n");
    assert_eq!(reader.poll(), Ok(Some("not consumed\n".to_string())));
}

#[test]
fn terminator_inside_a_line_does_not_end_the_block() {
    let mut reader = FrameReader::new();
    reader.expect(Some("</zugliste>"));
    reader.push(b"<zugliste></zugliste>\n");
    assert_eq!(reader.poll(), Ok(None));
    reader.push(b"</zugliste>\n");
    assert_eq!(reader.poll(), Ok(Some("<zugliste></zugliste>\n</zugliste>\n".to_string())));
}

#[test]
fn unicode_whitespace_around_the_terminator_is_trimmed() {
    let mut reader = FrameReader::new();
    reader.expect(Some("</wege>"));
    reader.push("<wege>\n\u{a0}\u{2003}</wege>\u{3000}\n".as_bytes());
    assert_eq!(reader.poll(), Ok(Some("<wege>\n\u{a0}\u{2003}</wege>\u{3000}\n".to_string())));
}

#[test]
fn closed_stream_ends_a_block_without_a_last_line_end() {
    let mut reader = FrameReader::new();
    reader.expect(Some("</wege>"));
    reader.push(b"<wege>\n</wege>");
    assert_eq!(reader.poll(), Ok(None));
    reader.close();
    assert_eq!(reader.poll(), Ok(Some("<wege>\n</wege>".to_string())));
}

#[test]
fn closed_stream_without_the_reply_is_a_network_error() {
    let mut reader = FrameReader::new();
    reader.push(b"<sim zeit='1' />");
    reader.close();
    assert!(matches!(reader.poll(), Err(Error::Network(_))));
    let mut reader = FrameReader::new();
    reader.expect(Some("</wege>"));
    reader.push(b"<wege>\n");
    reader.close();
    assert!(matches!(reader.poll(), Err(Error::Network(_))));
}

#[test]
fn line_that_is_not_utf8_is_a_network_error() {
    let mut reader = FrameReader::new();
    reader.push(&[0xC3, 0x28, b'\n']);
    assert!(matches!(reader.poll(), Err(Error::Network(_))));
}

#[test]
fn read_message_reads_the_reply_as_xml() {
    let mut reader = FrameReader::new();
    reader.push(b"<status code='300'>ok</status>\n<a");
    let element = read_message(&mut reader).unwrap().unwrap();
    assert_eq!(element.name, "status");
    assert_eq!(element.text, "ok");
    assert_eq!(element.attribute("code"), Some("300"));
    assert_eq!(element.attribute("kode"), None);
    assert!(matches!(read_message(&mut reader), Ok(None)));
    reader.push(b"\n");
    assert!(matches!(read_message(&mut reader), Err(Error::Xml(_))));
    reader.push(b"x");
    reader.close();
    assert!(matches!(read_message(&mut reader), Err(Error::Network(_))));
}

#[test]
fn whitespace_is_what_the_standard_library_calls_whitespace() {
    for code in 0..=0x10FFFFu32 {
        if let Some(c) = char::from_u32(code) {
            assert_eq!(char_is_whitespace(c), c.is_whitespace(), "U+{:04X}", code);
        }
    }
}
