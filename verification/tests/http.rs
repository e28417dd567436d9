use podping_tray::http::{
    decoded_body, http_request, http_start, http_step, read_chunked, read_reply, HttpRead,
    HttpState, HttpStep, ReadOutcome,
};
use podping_tray::wire::ByteReader;
use std::io::{BufRead, Read};

fn reader(bytes: &[u8]) -> ByteReader {
    ByteReader::new(bytes.to_vec())
}

fn chunked(text: &str) -> Result<String, String> {
    read_chunked(&mut reader(text.as_bytes()))
}

fn reply(text: &str) -> Result<String, String> {
    read_reply(&mut reader(text.as_bytes()))
}

#[test]
fn request_names_path_and_port() {
    assert_eq!(
        http_request(8089, "/api/health"),
        "GET /api/health HTTP/1.1\r\nHost: 127.0.0.1:8089\r\nAccept: application/json\r\nConnection: close\r\n\r\n"
    );
}

#[test]
fn chunks_are_joined() {
    assert_eq!(chunked("4\r\nWiki\r\n5\r\npedia\r\n0\r\n\r\n"), Ok("Wikipedia".to_string()));
    assert_eq!(chunked("0\r\n\r\n"), Ok(String::new()));
    assert_eq!(chunked("A;ext=1\r\n0123456789\r\n0\r\n\r\n"), Ok("0123456789".to_string()));
    assert_eq!(chunked(" a \r\n0123456789\r\n0"), Ok("0123456789".to_string()));
    assert_eq!(chunked("+2\r\nhi\r\n0\r\n"), Ok("hi".to_string()));
}

#[test]
fn a_character_may_be_cut_in_two() {
    let mut bytes = b"1\r\n\xc3\r\n1\r\n\xa9\r\n0\r\n\r\n".to_vec();
    bytes.extend_from_slice(b"left");
    let mut r = reader(&bytes);
    assert_eq!(read_chunked(&mut r), Ok("é".to_string()));
    assert_eq!(r.read_to_string(), Ok("left".to_string()));
}

#[test]
fn chunk_errors() {
    assert_eq!(
        chunked(""),
        Err("chunk size '': cannot parse integer from empty string".to_string())
    );
    assert_eq!(
        chunked("zz;x\r\n"),
        Err("chunk size 'zz': invalid digit found in string".to_string())
    );
    assert_eq!(
        chunked("fffffffffffffffff\r\n"),
        Err("chunk size 'fffffffffffffffff': number too large to fit in target type".to_string())
    );
    assert_eq!(chunked("5\r\nab"), Err("chunk data: failed to fill whole buffer".to_string()));
    assert_eq!(chunked("2\r\nab\r"), Err("chunk crlf: failed to fill whole buffer".to_string()));
    assert_eq!(
        read_chunked(&mut reader(b"\xff\r\n")),
        Err("chunk size: stream did not contain valid UTF-8".to_string())
    );
    let bad = vec![0x61u8, 0xff];
    let e = String::from_utf8(bad).unwrap_err();
    assert_eq!(
        read_chunked(&mut reader(b"2\r\na\xff\r\n0\r\n\r\n")),
        Err(format!("utf-8: {}", e))
    );
}

#[test]
fn sized_body_is_read_back() {
    let mut r = reader(
        b"HTTP/1.1 200 OK\r\nContent-Type: application/json\r\nCONTENT-length: 5\r\n\r\nhellomore",
    );
    assert_eq!(read_reply(&mut r), Ok("hello".to_string()));
    assert_eq!(r.read_to_string(), Ok("more".to_string()));
}

#[test]
fn open_body_is_read_back() {
    assert_eq!(reply("HTTP/1.0 200 OK\r\n\r\nall of it"), Ok("all of it".to_string()));
    assert_eq!(reply("x 200\n\n"), Ok(String::new()));
    assert_eq!(reply("x 200"), Ok(String::new()));
}

#[test]
fn chunked_reply_is_read_back() {
    assert_eq!(
        reply("HTTP/1.1 200 OK\r\nTransfer-Encoding: gzip, CHUNKED\r\ncontent-length: 1\r\n\r\n3\r\nabc\r\n0\r\n\r\n"),
        Ok("abc".to_string())
    );
}

#[test]
fn the_last_length_counts_and_a_bad_one_clears() {
    assert_eq!(
        reply("x 200\r\ncontent-length: 9\r\ncontent-length: 2\r\n\r\nabcd"),
        Ok("ab".to_string())
    );
    assert_eq!(
        reply("x 200\r\ncontent-length: 2\r\ncontent-length: two\r\n\r\nabcd"),
        Ok("abcd".to_string())
    );
}

#[test]
fn reply_errors() {
    assert_eq!(reply("HTTP/1.1 404 Not Found\r\n\r\n"), Err("HTTP 404".to_string()));
    assert_eq!(reply(""), Err("HTTP ".to_string()));
    assert_eq!(reply("200"), Err("HTTP ".to_string()));
    assert_eq!(
        reply("x 200\r\ncontent-length: 9\r\n\r\nabc"),
        Err("read body: failed to fill whole buffer".to_string())
    );
    assert_eq!(
        read_reply(&mut reader(b"\xff 200\r\n")),
        Err("read status: stream did not contain valid UTF-8".to_string())
    );
    assert_eq!(
        read_reply(&mut reader(b"x 200\r\n\xff\r\n")),
        Err("read header: stream did not contain valid UTF-8".to_string())
    );
    assert_eq!(
        read_reply(&mut reader(b"x 200\r\n\r\n\xff")),
        Err("read body: stream did not contain valid UTF-8".to_string())
    );
}

#[test]
fn memory_reads_fail_as_std_reads_do() {
    let mut line = String::new();
    let not_text = (&b"\xff\n"[..]).read_line(&mut line).unwrap_err().to_string();
    assert_eq!(reader(b"\xff\n").read_line(), Err(not_text));
    let mut block = [0u8; 3];
    let short = (&b"ab"[..]).read_exact(&mut block).unwrap_err().to_string();
    assert_eq!(reader(b"ab").read_exact(3), Err(short));
}

#[test]
fn failures_are_named_by_what_was_read() {
    let fail = |state: HttpState| match http_step(state, ReadOutcome::Failed("timed out".to_string())) {
        HttpStep::Done(r) => r,
        HttpStep::Read(..) => panic!("a failed read ends the reply"),
    };
    assert_eq!(fail(HttpState::Status), Err("read status: timed out".to_string()));
    assert_eq!(
        fail(HttpState::Headers { content_length: None, chunked: false }),
        Err("read header: timed out".to_string())
    );
    assert_eq!(fail(HttpState::FixedBody), Err("read body: timed out".to_string()));
    assert_eq!(fail(HttpState::OpenBody), Err("read body: timed out".to_string()));
    let body = || b"abc".to_vec();
    assert_eq!(fail(HttpState::ChunkSize { body: body() }), Err("chunk size: timed out".to_string()));
    assert_eq!(fail(HttpState::ChunkData { body: body() }), Err("chunk data: timed out".to_string()));
    assert_eq!(fail(HttpState::ChunkEnd { body: body() }), Err("chunk crlf: timed out".to_string()));
    assert_eq!(fail(HttpState::Trailer { body: body() }), Ok("abc".to_string()));
}

#[test]
fn steps_ask_for_the_right_reads() {
    match http_start() {
        HttpStep::Read(HttpState::Status, HttpRead::Line) => {}
        _ => panic!("the status line comes first"),
    }
    let headers = HttpState::Headers { content_length: Some(7), chunked: false };
    match http_step(headers, ReadOutcome::Text("\r\n".to_string())) {
        HttpStep::Read(HttpState::FixedBody, HttpRead::Exact(7)) => {}
        _ => panic!("a body of seven bytes follows"),
    }
    let size = HttpState::ChunkSize { body: Vec::new() };
    match http_step(size, ReadOutcome::Text("1c\r\n".to_string())) {
        HttpStep::Read(HttpState::ChunkData { .. }, HttpRead::Exact(28)) => {}
        _ => panic!("a chunk of 28 bytes follows"),
    }
}

#[test]
fn undecodable_bodies_are_marked() {
    assert_eq!(decoded_body(Ok("a".to_string())), Ok("a".to_string()));
    assert_eq!(decoded_body(Err("why".to_string())), Err("utf-8: why".to_string()));
}

#[test]
fn lines_are_read_back() {
    let mut r = reader("one\r\n\nthree é".as_bytes());
    assert_eq!(r.read_line(), Ok("one\r\n".to_string()));
    assert_eq!(r.read_line(), Ok("\n".to_string()));
    assert_eq!(r.read_line(), Ok("three é".to_string()));
    assert_eq!(r.read_line(), Ok(String::new()));
    assert_eq!(r.read_exact(0), Ok(Vec::new()));
}

#[test]
fn chunks_of_any_size_are_read_back() {
    for size in [1usize, 9, 10, 15, 16, 17, 255, 256, 4095] {
        let text = "x".repeat(size);
        let wire = format!("{:x}\r\n{}\r\n{:X}\r\n{}\r\n0\r\n\r\n", size, text, size, text);
        assert_eq!(chunked(&wire), Ok("x".repeat(2 * size)));
    }
}

#[test]
fn any_other_status_is_refused() {
    for code in ["100", "201", "204", "301", "404", "500", "2000", "20"] {
        let wire = format!("HTTP/1.1 {} Words\r\ncontent-length: 2\r\n\r\nhi", code);
        assert_eq!(reply(&wire), Err(format!("HTTP {}", code)));
    }
}

#[test]
fn sizes_may_be_written_in_many_ways() {
    for size in ["1f", "1F", "1f;a=b", "1F;", "1F ; a;b", "001f", "\t1f"] {
        let body = "y".repeat(31);
        let wire = format!("{}\r\n{}\r\n0;end\r\nTrailer: x\r\nleft", size, body);
        let mut r = reader(wire.as_bytes());
        assert_eq!(read_chunked(&mut r), Ok(body), "{}", size);
        assert_eq!(r.read_to_string(), Ok("left".to_string()));
    }
}
