use logd::error::IoError;
use logd::reader::{get_reader, read_chunk, read_single_lines, ReaderError};

fn reader_over(data: &[u8], position: u64) -> logd::reader::LogReader {
    get_reader(data.to_vec(), position).expect("offset fits")
}

fn chunks_of(data: &[u8], batch_size: usize) -> Vec<Vec<u8>> {
    let mut reader = reader_over(data, 0);
    read_chunk(&mut reader, batch_size)
        .expect("valid text")
        .iter()
        .map(|chunk| chunk.to_vec())
        .collect()
}

#[test]
fn reader_test_read_single_lines_empty() {
    let data = "";
    let mut reader = reader_over(data.as_bytes(), 0);
    let mut buffer = String::new();
    let sent = read_single_lines(&mut reader, &mut buffer);
    assert!(sent.is_ok());
    let mut rx = sent.unwrap().into_iter();
    assert!(rx.next().is_none()); // No messages should be sent
}

#[test]
fn reader_test_read_single_lines_single_line() {
    let data = "Hello, world!\n";
    let mut reader = reader_over(data.as_bytes(), 0);
    let mut buffer = String::new();
    let sent = read_single_lines(&mut reader, &mut buffer);
    assert!(sent.is_ok());
    let mut rx = sent.unwrap().into_iter();
    assert_eq!(rx.next().unwrap(), "Hello, world!"); // One message should be sent
    assert!(rx.next().is_none()); // No more messages should be sent
}

#[test]
fn reader_test_read_single_lines_multiple_lines() {
    let data = "Hello, world!\nGoodbye, world!\n";
    let mut reader = reader_over(data.as_bytes(), 0);
    let mut buffer = String::new();
    let sent = read_single_lines(&mut reader, &mut buffer);
    assert!(sent.is_ok());
    let mut rx = sent.unwrap().into_iter();
    assert_eq!(rx.next().unwrap(), "Hello, world!"); // First message
    assert_eq!(rx.next().unwrap(), "Goodbye, world!"); // Second message
    assert!(rx.next().is_none()); // No more messages should be sent
}

#[test]
fn reader_test_read_single_lines_continues_reading() {
    let data = "Hello, world!\nGoodbye, world!\n";
    let mut reader = reader_over(data[0..14].as_bytes(), 0); // Only "Hello, world!\n"
    let mut buffer = String::new();
    let sent = read_single_lines(&mut reader, &mut buffer);
    assert!(sent.is_ok());
    let mut rx = sent.unwrap().into_iter();
    assert_eq!(rx.next().unwrap(), "Hello, world!"); // First message

    // Pass data to the function a second time
    let mut reader = reader_over(data[14..].as_bytes(), 14); // Only "Goodbye, world!\n"
    let mut buffer = String::new();
    let sent = read_single_lines(&mut reader, &mut buffer);
    assert!(sent.is_ok());
    let mut rx = sent.unwrap().into_iter();
    assert_eq!(rx.next().unwrap(), "Goodbye, world!"); // Second message
    assert!(rx.next().is_none()); // No more messages should be sent
}

#[test]
fn test_test_read_single_lines_empty() {
    let data = "";
    let mut reader = reader_over(data.as_bytes(), 0);
    let mut buffer = String::new();
    let sent = read_single_lines(&mut reader, &mut buffer);
    assert!(sent.is_ok());
    assert!(sent.unwrap().is_empty()); // No messages should be sent
}

#[test]
fn test_test_read_single_lines_single_line() {
    let data = "Hello, world!\n";
    let mut reader = reader_over(data.as_bytes(), 0);
    let mut buffer = String::new();
    let sent = read_single_lines(&mut reader, &mut buffer);
    assert!(sent.is_ok());
    let lines = sent.unwrap();
    assert_eq!(lines[0], "Hello, world!"); // One message should be sent
    assert!(lines.get(1).is_none()); // No more messages should be sent
}

#[test]
fn test_test_read_single_lines_multiple_lines() {
    let data = "Hello, world!\nGoodbye, world!\n";
    let mut reader = reader_over(data.as_bytes(), 0);
    let mut buffer = String::new();
    let sent = read_single_lines(&mut reader, &mut buffer);
    assert!(sent.is_ok());
    let lines = sent.unwrap();
    assert_eq!(lines[0], "Hello, world!"); // First message
    assert_eq!(lines[1], "Goodbye, world!"); // Second message
    assert!(lines.get(2).is_none()); // No more messages should be sent
}

#[test]
fn test_test_read_single_lines_continues_reading() {
    let data = "Hello, world!\nGoodbye, world!\n";
    let mut reader = reader_over(data[0..14].as_bytes(), 0); // Only "Hello, world!\n"
    let mut buffer = String::new();
    let sent = read_single_lines(&mut reader, &mut buffer);
    assert!(sent.is_ok());
    assert_eq!(sent.unwrap()[0], "Hello, world!"); // First message
    assert_eq!(reader.stream_position(), 14);

    // Pass data to the function a second time
    let mut reader = reader_over(data[14..].as_bytes(), 14); // Only "Goodbye, world!\n"
    let mut buffer = String::new();
    let sent = read_single_lines(&mut reader, &mut buffer);
    assert!(sent.is_ok());
    let lines = sent.unwrap();
    assert_eq!(lines[0], "Goodbye, world!"); // Second message
    assert!(lines.get(1).is_none()); // No more messages should be sent
    assert_eq!(reader.stream_position(), 30);
}

#[test]
fn single_lines_lose_trailing_white_space_only() {
    let mut reader = reader_over(b"  indented \t\r\nlast without newline", 0);
    let mut buffer = String::from("left over");
    let lines = read_single_lines(&mut reader, &mut buffer).unwrap();
    assert_eq!(lines, vec!["  indented".to_string(), "last without newline".to_string()]);
    assert!(buffer.is_empty());
}

#[test]
fn single_lines_keep_empty_lines() {
    let mut reader = reader_over(b"a\n\n\nb\n", 0);
    let mut buffer = String::new();
    let lines = read_single_lines(&mut reader, &mut buffer).unwrap();
    assert_eq!(lines, vec!["a".to_string(), String::new(), String::new(), "b".to_string()]);
}

#[test]
fn single_lines_stop_at_a_line_that_is_not_utf8() {
    let mut reader = reader_over(b"good\nb\xffd\nnever seen\n", 100);
    let mut buffer = String::new();
    let sent = read_single_lines(&mut reader, &mut buffer);
    assert_eq!(sent, Err(ReaderError::Io(IoError::InvalidData)));
    assert!(buffer.is_empty());
    // just past the bad line
    assert_eq!(reader.stream_position(), 100 + 9);
}

#[test]
fn read_line_reads_through_the_newline() {
    let mut reader = reader_over("gr\u{fc}n\nrest".as_bytes(), 7);
    let mut line = String::from(">");
    assert_eq!(reader.read_line(&mut line), Ok(6));
    assert_eq!(line, ">gr\u{fc}n\n");
    assert_eq!(reader.stream_position(), 13);
    assert_eq!(reader.read_line(&mut line), Ok(4));
    assert_eq!(line, ">gr\u{fc}n\nrest");
    assert_eq!(reader.read_line(&mut line), Ok(0));
    assert_eq!(reader.stream_position(), 17);
}

#[test]
fn read_line_passes_a_bad_line_and_leaves_the_buffer() {
    let mut reader = reader_over(b"\xc3\n\xc3\xa4\n", 0);
    let mut line = String::from("kept");
    assert_eq!(reader.read_line(&mut line), Err(IoError::InvalidData));
    assert_eq!(line, "kept");
    assert_eq!(reader.stream_position(), 2);
    assert_eq!(reader.read_line(&mut line), Ok(3));
    assert_eq!(line, "kept\u{e4}\n");
}

#[test]
fn get_reader_refuses_an_end_beyond_the_largest_offset() {
    assert!(get_reader(vec![1, 2, 3], u64::MAX - 3).is_ok());
    assert_eq!(get_reader(vec![1, 2, 3], u64::MAX - 2).err(), Some(IoError::Other));
    assert!(get_reader(Vec::new(), u64::MAX).is_ok());
}

#[test]
fn a_fresh_reader_stands_at_its_offset() {
    assert_eq!(reader_over(b"abc", 41).stream_position(), 41);
}

#[test]
fn chunk_holds_whole_lines_up_to_the_threshold() {
    // 12 bytes in two lines of 6
    let data = b"line1\nline2\n";
    assert_eq!(chunks_of(data, 1), vec![b"line1\n".to_vec(), b"line2\n".to_vec()]);
    assert_eq!(chunks_of(data, 6), vec![b"line1\n".to_vec(), b"line2\n".to_vec()]);
    assert_eq!(chunks_of(data, 7), vec![b"line1\nline2\n".to_vec()]);
    assert_eq!(chunks_of(data, 12), vec![b"line1\nline2\n".to_vec()]);
    assert_eq!(chunks_of(data, 1048576), vec![b"line1\nline2\n".to_vec()]);
}

#[test]
fn chunk_never_splits_a_long_line() {
    let data = b"a very long line that exceeds the batch size\nx\n";
    assert_eq!(
        chunks_of(data, 4),
        vec![b"a very long line that exceeds the batch size\n".to_vec(), b"x\n".to_vec()]
    );
}

#[test]
fn last_chunk_holds_what_is_left() {
    assert_eq!(
        chunks_of(b"aa\nbb\ncc", 5),
        vec![b"aa\nbb\n".to_vec(), b"cc".to_vec()]
    );
    assert_eq!(chunks_of(b"no newline at all", 3), vec![b"no newline at all".to_vec()]);
}

#[test]
fn nothing_left_gives_no_chunk() {
    assert_eq!(chunks_of(b"", 16), Vec::<Vec<u8>>::new());
    let mut reader = reader_over(b"abc\n", 10);
    assert_eq!(read_chunk(&mut reader, 16).unwrap().len(), 1);
    assert_eq!(reader.stream_position(), 14);
    // a second call finds the end of the data and sends nothing
    assert!(read_chunk(&mut reader, 16).unwrap().is_empty());
    assert_eq!(reader.stream_position(), 14);
}

#[test]
fn batch_size_zero_reads_nothing() {
    let mut reader = reader_over(b"abc\ndef\n", 5);
    assert!(read_chunk(&mut reader, 0).unwrap().is_empty());
    assert_eq!(reader.stream_position(), 5);
}

#[test]
fn chunks_put_together_are_what_was_read() {
    let data = b"one\ntwo\n\nthree three three\nfour\nlast";
    for batch_size in 1..40 {
        let chunks = chunks_of(data, batch_size);
        assert_eq!(chunks.concat(), data.to_vec());
        for (i, chunk) in chunks.iter().enumerate() {
            assert!(!chunk.is_empty());
            if i + 1 < chunks.len() {
                assert_eq!(chunk.last(), Some(&b'\n'));
                assert!(chunk.len() >= batch_size);
            }
        }
    }
}

#[test]
fn read_chunk_moves_the_reader_to_the_end() {
    let mut reader = reader_over(b"line1\nline2\n", 0);
    read_chunk(&mut reader, 4).unwrap();
    assert_eq!(reader.stream_position(), 12);
}

#[test]
fn read_chunk_takes_bytes_that_are_not_utf8() {
    let data = b"ok\n\xff\xfe\nok\n";
    assert_eq!(
        chunks_of(data, 2),
        vec![b"ok\n".to_vec(), b"\xff\xfe\n".to_vec(), b"ok\n".to_vec()]
    );
    assert_eq!(chunks_of(&[0xff, 0xfe, b'\n'], 1), vec![vec![0xff, 0xfe, b'\n']]);
    let mut reader = reader_over(data, 4);
    assert!(read_chunk(&mut reader, 100).is_ok());
    assert_eq!(reader.stream_position(), 13);
}

#[test]
fn multibyte_text_is_counted_in_bytes() {
    // each line is 3 bytes long: a two-byte letter and the newline
    let data = "\u{e4}\n\u{f6}\n\u{fc}\n".as_bytes();
    assert_eq!(
        chunks_of(data, 4),
        vec!["\u{e4}\n\u{f6}\n".as_bytes().to_vec(), "\u{fc}\n".as_bytes().to_vec()]
    );
}
