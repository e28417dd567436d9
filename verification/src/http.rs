//! One HTTP request to the watcher's web server, and the reading of its reply.
//!
//! The reply is read step by step: [`http_step`] says after each read what is to be read
//! next, or what came of it all.

use vstd::pervasive::unreached;
use vstd::prelude::*;
use vstd::string::*;
use vstd::utf8::*;

use crate::number::{decimal, decimal_text, number_value, parse_number};
use crate::text::{
    before, contains, occurs_in, same_text, second_word, second_word_of, small_text, starts_with,
    strip_prefix, text_before, to_ascii_lowercase, trim, trim_end, trimmed, trimmed_end,
};
use crate::wire::{
    after_line, lemma_line_len, line_of, read_text, text_from_utf8, text_result, too_short,
    utf8_error_text, ByteReader,
};

verus! {

/// The request for `path` on the local port `port`.
pub open spec fn request_text(port: u16, path: Seq<char>) -> Seq<char> {
    "GET "@ + path + " HTTP/1.1\r\nHost: 127.0.0.1:"@ + decimal(port as nat)
        + "\r\nAccept: application/json\r\nConnection: close\r\n\r\n"@
}

/// The request for `path` on the local port `port`.
pub fn http_request(port: u16, path: &str) -> (r: String)
    ensures
        r@ == request_text(port, path@),
{
    "GET ".to_owned().concat(path).concat(" HTTP/1.1\r\nHost: 127.0.0.1:").concat(
        decimal_text(port as u64).as_str(),
    ).concat("\r\nAccept: application/json\r\nConnection: close\r\n\r\n")
}

/// What the reader of a reply is about to take in.
pub enum HttpState {
    /// The status line.
    Status,
    /// A header line, or the empty line behind the headers.
    Headers { content_length: Option<usize>, chunked: bool },
    /// A body whose length the headers gave.
    FixedBody,
    /// A body that ends where the connection does.
    OpenBody,
    /// The line that gives the size of the next chunk.
    ChunkSize { body: Vec<u8> },
    /// The bytes of a chunk.
    ChunkData { body: Vec<u8> },
    /// The line end behind a chunk.
    ChunkEnd { body: Vec<u8> },
    /// The line behind the last chunk.
    Trailer { body: Vec<u8> },
}

/// [`HttpState`], with the collected body as a sequence.
pub enum HttpStateView {
    Status,
    Headers { content_length: Option<usize>, chunked: bool },
    FixedBody,
    OpenBody,
    ChunkSize { body: Seq<u8> },
    ChunkData { body: Seq<u8> },
    ChunkEnd { body: Seq<u8> },
    Trailer { body: Seq<u8> },
}

impl View for HttpState {
    type V = HttpStateView;

    open spec fn view(&self) -> HttpStateView {
        match self {
            HttpState::Status => HttpStateView::Status,
            HttpState::Headers { content_length, chunked } => HttpStateView::Headers {
                content_length: *content_length,
                chunked: *chunked,
            },
            HttpState::FixedBody => HttpStateView::FixedBody,
            HttpState::OpenBody => HttpStateView::OpenBody,
            HttpState::ChunkSize { body } => HttpStateView::ChunkSize { body: body@ },
            HttpState::ChunkData { body } => HttpStateView::ChunkData { body: body@ },
            HttpState::ChunkEnd { body } => HttpStateView::ChunkEnd { body: body@ },
            HttpState::Trailer { body } => HttpStateView::Trailer { body: body@ },
        }
    }
}

/// A read that is to be performed.
#[derive(Clone, Copy, Debug, PartialEq, Eq, Structural)]
pub enum HttpRead {
    /// Read one line, its line feed included.
    Line,
    /// Read this many bytes.
    Exact(usize),
    /// Read text until the connection ends.
    ToEnd,
}

/// What came of a read.
pub enum ReadOutcome {
    /// A line, or the text until the end. A line at the end of the connection is empty.
    Text(String),
    /// The bytes that were asked for.
    Bytes(Vec<u8>),
    /// The read failed, with this message.
    Failed(String),
}

/// [`ReadOutcome`], as sequences.
pub enum ReadOutcomeView {
    Text(Seq<char>),
    Bytes(Seq<u8>),
    Failed(Seq<char>),
}

impl View for ReadOutcome {
    type V = ReadOutcomeView;

    open spec fn view(&self) -> ReadOutcomeView {
        match self {
            ReadOutcome::Text(s) => ReadOutcomeView::Text(s@),
            ReadOutcome::Bytes(b) => ReadOutcomeView::Bytes(b@),
            ReadOutcome::Failed(e) => ReadOutcomeView::Failed(e@),
        }
    }
}

/// What follows on a read.
pub enum HttpStep {
    /// Perform this read, and go on in this state.
    Read(HttpState, HttpRead),
    /// The body of the reply, or why there is none.
    Done(Result<String, String>),
}

/// [`HttpStep`], as sequences.
pub enum HttpStepView {
    Read(HttpStateView, HttpRead),
    Done(Result<Seq<char>, Seq<char>>),
}

impl View for HttpStep {
    type V = HttpStepView;

    open spec fn view(&self) -> HttpStepView {
        match self {
            HttpStep::Read(s, r) => HttpStepView::Read(s@, *r),
            HttpStep::Done(r) => HttpStepView::Done(text_result(*r)),
        }
    }
}

/// `outcome` is one of the read that `state` waits for.
pub open spec fn fits(state: HttpStateView, outcome: ReadOutcomeView) -> bool {
    ||| outcome is Failed
    ||| match state {
        HttpStateView::FixedBody => outcome is Bytes,
        HttpStateView::ChunkData { .. } => outcome is Bytes,
        HttpStateView::ChunkEnd { .. } => outcome is Bytes,
        _ => outcome is Text,
    }
}

/// The collected bytes as the text of the body.
pub open spec fn body_text(bytes: Seq<u8>) -> Result<Seq<char>, Seq<char>> {
    if valid_utf8(bytes) {
        Ok(decode_utf8(bytes))
    } else {
        Err("utf-8: "@ + utf8_error_text(bytes))
    }
}

/// A header line as it is compared: without trailing white space, and in small letters.
pub open spec fn header_text(line: Seq<char>) -> Seq<char> {
    small_text(trimmed_end(line))
}

/// The body's length behind a header line: a `content-length` header sets it, to nothing where
/// its value is not a number.
pub open spec fn length_after(line: Seq<char>, content_length: Option<usize>) -> Option<usize> {
    let header = header_text(line);
    if "content-length:"@.is_prefix_of(header) {
        match number_value(
            trimmed(header.skip("content-length:"@.len() as int)),
            10,
            usize::MAX as nat,
        ) {
            Ok(n) => Some(n as usize),
            Err(_) => None,
        }
    } else {
        content_length
    }
}

/// Whether the body is chunked, behind a header line.
pub open spec fn chunked_after(line: Seq<char>, chunked: bool) -> bool {
    let header = header_text(line);
    chunked || ("transfer-encoding:"@.is_prefix_of(header) && occurs_in("chunked"@, header))
}

/// How the body is read once the headers are over.
pub open spec fn body_step(content_length: Option<usize>, chunked: bool) -> HttpStepView {
    if chunked {
        HttpStepView::Read(HttpStateView::ChunkSize { body: Seq::empty() }, HttpRead::Line)
    } else {
        match content_length {
            Some(n) => HttpStepView::Read(HttpStateView::FixedBody, HttpRead::Exact(n)),
            None => HttpStepView::Read(HttpStateView::OpenBody, HttpRead::ToEnd),
        }
    }
}

/// The number in a chunk-size line: what stands before the first semicolon.
pub open spec fn size_text(line: Seq<char>) -> Seq<char> {
    trimmed(text_before(trimmed(line), ';'))
}

/// What follows on a chunk-size line behind the collected `body`.
pub open spec fn chunk_size_step(line: Seq<char>, body: Seq<u8>) -> HttpStepView {
    let hex = size_text(line);
    match number_value(hex, 16, usize::MAX as nat) {
        Err(e) => HttpStepView::Done(Err("chunk size '"@ + hex + "': "@ + e.text())),
        Ok(n) => if n == 0 {
            HttpStepView::Read(HttpStateView::Trailer { body }, HttpRead::Line)
        } else {
            HttpStepView::Read(HttpStateView::ChunkData { body }, HttpRead::Exact(n as usize))
        },
    }
}

/// What `outcome` of the awaited read leads to in `state`.
pub open spec fn next_step(state: HttpStateView, outcome: ReadOutcomeView) -> HttpStepView {
    match state {
        HttpStateView::Status => match outcome {
            ReadOutcomeView::Failed(e) => HttpStepView::Done(Err("read status: "@ + e)),
            ReadOutcomeView::Text(line) => if second_word_of(line) == "200"@ {
                HttpStepView::Read(
                    HttpStateView::Headers { content_length: None, chunked: false },
                    HttpRead::Line,
                )
            } else {
                HttpStepView::Done(Err("HTTP "@ + second_word_of(line)))
            },
            _ => arbitrary(),
        },
        HttpStateView::Headers { content_length, chunked } => match outcome {
            ReadOutcomeView::Failed(e) => HttpStepView::Done(Err("read header: "@ + e)),
            ReadOutcomeView::Text(line) => if trimmed_end(line).len() == 0 {
                body_step(content_length, chunked)
            } else {
                HttpStepView::Read(
                    HttpStateView::Headers {
                        content_length: length_after(line, content_length),
                        chunked: chunked_after(line, chunked),
                    },
                    HttpRead::Line,
                )
            },
            _ => arbitrary(),
        },
        HttpStateView::FixedBody => match outcome {
            ReadOutcomeView::Failed(e) => HttpStepView::Done(Err("read body: "@ + e)),
            ReadOutcomeView::Bytes(b) => HttpStepView::Done(body_text(b)),
            _ => arbitrary(),
        },
        HttpStateView::OpenBody => match outcome {
            ReadOutcomeView::Failed(e) => HttpStepView::Done(Err("read body: "@ + e)),
            ReadOutcomeView::Text(s) => HttpStepView::Done(Ok(s)),
            _ => arbitrary(),
        },
        HttpStateView::ChunkSize { body } => match outcome {
            ReadOutcomeView::Failed(e) => HttpStepView::Done(Err("chunk size: "@ + e)),
            ReadOutcomeView::Text(line) => chunk_size_step(line, body),
            _ => arbitrary(),
        },
        HttpStateView::ChunkData { body } => match outcome {
            ReadOutcomeView::Failed(e) => HttpStepView::Done(Err("chunk data: "@ + e)),
            ReadOutcomeView::Bytes(b) => HttpStepView::Read(
                HttpStateView::ChunkEnd { body: body + b },
                HttpRead::Exact(2),
            ),
            _ => arbitrary(),
        },
        HttpStateView::ChunkEnd { body } => match outcome {
            ReadOutcomeView::Failed(e) => HttpStepView::Done(Err("chunk crlf: "@ + e)),
            ReadOutcomeView::Bytes(_) => HttpStepView::Read(
                HttpStateView::ChunkSize { body },
                HttpRead::Line,
            ),
            _ => arbitrary(),
        },
        HttpStateView::Trailer { body } => HttpStepView::Done(body_text(body)),
    }
}

/// The first read of a reply.
pub fn http_start() -> (r: HttpStep)
    ensures
        r@ == HttpStepView::Read(HttpStateView::Status, HttpRead::Line),
{
    HttpStep::Read(HttpState::Status, HttpRead::Line)
}

/// The text of a body, where `decoded` is what came of reading its bytes as UTF-8.
pub fn decoded_body(decoded: Result<String, String>) -> (r: Result<String, String>)
    ensures
        text_result(r) == (match text_result(decoded) {
            Ok(s) => Ok(s),
            Err(e) => Err("utf-8: "@ + e),
        }),
{
    match decoded {
        Ok(s) => Ok(s),
        Err(e) => Err("utf-8: ".to_owned().concat(e.as_str())),
    }
}

/// The collected bytes as the text of the body.
fn finish_body(bytes: Vec<u8>) -> (r: HttpStep)
    ensures
        r@ == HttpStepView::Done(body_text(bytes@)),
{
    HttpStep::Done(decoded_body(text_from_utf8(bytes)))
}

/// The end of a reply of which a read failed.
fn failed(what: &str, message: String) -> (r: HttpStep)
    ensures
        r@ == HttpStepView::Done(Err(what@ + message@)),
{
    HttpStep::Done(Err(what.to_owned().concat(message.as_str())))
}

/// What follows on the status line `line`.
fn on_status_line(line: String) -> (r: HttpStep)
    ensures
        r@ == next_step(HttpStateView::Status, ReadOutcomeView::Text(line@)),
{
    let code = second_word(line.as_str());
    if same_text(code.as_str(), "200") {
        HttpStep::Read(
            HttpState::Headers { content_length: None, chunked: false },
            HttpRead::Line,
        )
    } else {
        HttpStep::Done(Err("HTTP ".to_owned().concat(code.as_str())))
    }
}

/// What follows on the header line `line`.
fn on_header_line(line: String, content_length: Option<usize>, chunked: bool) -> (r: HttpStep)
    ensures
        r@ == next_step(
            HttpStateView::Headers { content_length, chunked },
            ReadOutcomeView::Text(line@),
        ),
{
    let line_text = trim_end(line.as_str());
    if line_text.as_str().is_empty() {
        if chunked {
            let body: Vec<u8> = Vec::new();
            assert(body@ == Seq::<u8>::empty());
            return HttpStep::Read(HttpState::ChunkSize { body }, HttpRead::Line);
        }
        return match content_length {
            Some(n) => HttpStep::Read(HttpState::FixedBody, HttpRead::Exact(n)),
            None => HttpStep::Read(HttpState::OpenBody, HttpRead::ToEnd),
        };
    }
    let header = to_ascii_lowercase(line_text.as_str());
    let length: Option<usize> = match strip_prefix(header.as_str(), "content-length:") {
        Some(value) => match parse_number(trim(value.as_str()).as_str(), 10) {
            Ok(n) => Some(n),
            Err(_) => None,
        },
        None => content_length,
    };
    let in_chunks: bool = chunked || (starts_with(header.as_str(), "transfer-encoding:")
        && contains(header.as_str(), "chunked"));
    HttpStep::Read(
        HttpState::Headers { content_length: length, chunked: in_chunks },
        HttpRead::Line,
    )
}

/// What follows on the chunk-size line `line`.
fn on_size_line(line: String, body: Vec<u8>) -> (r: HttpStep)
    ensures
        r@ == chunk_size_step(line@, body@),
{
    let hex = trim(before(trim(line.as_str()).as_str(), ';').as_str());
    match parse_number(hex.as_str(), 16) {
        Err(e) => HttpStep::Done(
            Err(
                "chunk size '".to_owned().concat(hex.as_str()).concat("': ").concat(
                    e.message().as_str(),
                ),
            ),
        ),
        Ok(n) => if n == 0 {
            HttpStep::Read(HttpState::Trailer { body }, HttpRead::Line)
        } else {
            HttpStep::Read(HttpState::ChunkData { body }, HttpRead::Exact(n))
        },
    }
}

/// Takes in what came of the awaited read, and says what follows.
pub fn http_step(state: HttpState, outcome: ReadOutcome) -> (r: HttpStep)
    requires
        fits(state@, outcome@),
    ensures
        r@ == next_step(state@, outcome@),
{
    match state {
        HttpState::Status => match outcome {
            ReadOutcome::Failed(e) => failed("read status: ", e),
            ReadOutcome::Text(line) => on_status_line(line),
            ReadOutcome::Bytes(_) => unreached(),
        },
        HttpState::Headers { content_length, chunked } => match outcome {
            ReadOutcome::Failed(e) => failed("read header: ", e),
            ReadOutcome::Text(line) => on_header_line(line, content_length, chunked),
            ReadOutcome::Bytes(_) => unreached(),
        },
        HttpState::FixedBody => match outcome {
            ReadOutcome::Failed(e) => failed("read body: ", e),
            ReadOutcome::Bytes(b) => finish_body(b),
            ReadOutcome::Text(_) => unreached(),
        },
        HttpState::OpenBody => match outcome {
            ReadOutcome::Failed(e) => failed("read body: ", e),
            ReadOutcome::Text(s) => HttpStep::Done(Ok(s)),
            ReadOutcome::Bytes(_) => unreached(),
        },
        HttpState::ChunkSize { body } => match outcome {
            ReadOutcome::Failed(e) => failed("chunk size: ", e),
            ReadOutcome::Text(line) => on_size_line(line, body),
            ReadOutcome::Bytes(_) => unreached(),
        },
        HttpState::ChunkData { body } => match outcome {
            ReadOutcome::Failed(e) => failed("chunk data: ", e),
            ReadOutcome::Bytes(mut b) => {
                let mut collected = body;
                collected.append(&mut b);
                HttpStep::Read(HttpState::ChunkEnd { body: collected }, HttpRead::Exact(2))
            },
            ReadOutcome::Text(_) => unreached(),
        },
        HttpState::ChunkEnd { body } => match outcome {
            ReadOutcome::Failed(e) => failed("chunk crlf: ", e),
            ReadOutcome::Bytes(_) => HttpStep::Read(HttpState::ChunkSize { body }, HttpRead::Line),
            ReadOutcome::Text(_) => unreached(),
        },
        HttpState::Trailer { body } => finish_body(body),
    }
}

/// What a reply in memory comes to, and what is left unread of it.
pub type ReadBack = (Result<Seq<char>, Seq<char>>, Seq<u8>);

/// The body read from `rest` in chunks, behind the collected `body`.
///
/// A chunk is its size in hexadecimal on a line of its own, its bytes, and two bytes that end
/// the line. The chunk of size zero is the last; one more line follows it.
pub open spec fn chunked_body(rest: Seq<u8>, body: Seq<u8>) -> ReadBack
    decreases rest.len(),
{
    let data = after_line(rest);
    match read_text(line_of(rest)) {
        Err(e) => (Err("chunk size: "@ + e), data),
        Ok(line) => {
            let hex = size_text(line);
            match number_value(hex, 16, usize::MAX as nat) {
                Err(e) => (Err("chunk size '"@ + hex + "': "@ + e.text()), data),
                Ok(size) => if size == 0 {
                    (body_text(body), after_line(data))
                } else if data.len() < size {
                    (Err("chunk data: "@ + too_short()), Seq::empty())
                } else if data.len() < size + 2 {
                    (Err("chunk crlf: "@ + too_short()), Seq::empty())
                } else {
                    proof {
                        lemma_line_len(rest);
                    }
                    chunked_body(data.skip(size as int + 2), body + data.take(size as int))
                },
            }
        },
    }
}

/// The body read from `rest` once the headers are over.
pub open spec fn plain_or_chunked_body(
    rest: Seq<u8>,
    content_length: Option<usize>,
    chunked: bool,
) -> ReadBack {
    if chunked {
        chunked_body(rest, Seq::empty())
    } else {
        match content_length {
            Some(n) => if n <= rest.len() {
                (body_text(rest.take(n as int)), rest.skip(n as int))
            } else {
                (Err("read body: "@ + too_short()), Seq::empty())
            },
            None => (
                match read_text(rest) {
                    Ok(s) => Ok(s),
                    Err(e) => Err("read body: "@ + e),
                },
                Seq::empty(),
            ),
        }
    }
}

/// The body read from `rest`, which begins with a header line or the empty line behind them.
pub open spec fn headed_body(
    rest: Seq<u8>,
    content_length: Option<usize>,
    chunked: bool,
) -> ReadBack
    decreases rest.len(),
{
    match read_text(line_of(rest)) {
        Err(e) => (Err("read header: "@ + e), after_line(rest)),
        Ok(line) => if trimmed_end(line).len() == 0 {
            plain_or_chunked_body(after_line(rest), content_length, chunked)
        } else {
            proof {
                lemma_line_len(rest);
            }
            headed_body(
                after_line(rest),
                length_after(line, content_length),
                chunked_after(line, chunked),
            )
        },
    }
}

/// The body of the reply `rest`.
pub open spec fn reply_body(rest: Seq<u8>) -> ReadBack {
    match read_text(line_of(rest)) {
        Err(e) => (Err("read status: "@ + e), after_line(rest)),
        Ok(line) => if second_word_of(line) == "200"@ {
            headed_body(after_line(rest), None, false)
        } else {
            (Err("HTTP "@ + second_word_of(line)), after_line(rest))
        },
    }
}

/// What `rest` comes to in `state`, with `read` the next read.
spec fn outlook(state: HttpStateView, read: HttpRead, rest: Seq<u8>) -> ReadBack {
    match state {
        HttpStateView::Status => reply_body(rest),
        HttpStateView::Headers { content_length, chunked } => headed_body(
            rest,
            content_length,
            chunked,
        ),
        HttpStateView::FixedBody => plain_or_chunked_body(rest, Some(read->Exact_0), false),
        HttpStateView::OpenBody => plain_or_chunked_body(rest, None, false),
        HttpStateView::ChunkSize { body } => chunked_body(rest, body),
        HttpStateView::ChunkData { body } => {
            let size = read->Exact_0;
            if rest.len() < size {
                (Err("chunk data: "@ + too_short()), Seq::empty())
            } else if rest.len() < size + 2 {
                (Err("chunk crlf: "@ + too_short()), Seq::empty())
            } else {
                chunked_body(rest.skip(size + 2), body + rest.take(size as int))
            }
        },
        HttpStateView::ChunkEnd { body } => if rest.len() < 2 {
            (Err("chunk crlf: "@ + too_short()), Seq::empty())
        } else {
            chunked_body(rest.skip(2), body)
        },
        HttpStateView::Trailer { body } => (body_text(body), after_line(rest)),
    }
}

/// `read` is the read that `state` waits for.
spec fn awaits(state: HttpStateView, read: HttpRead) -> bool {
    match state {
        HttpStateView::FixedBody => read is Exact,
        HttpStateView::ChunkData { .. } => read is Exact && read->Exact_0 > 0,
        HttpStateView::ChunkEnd { .. } => read == HttpRead::Exact(2),
        HttpStateView::OpenBody => read is ToEnd,
        _ => read is Line,
    }
}

/// How many states can follow `state` without a byte being read.
spec fn depth(state: HttpStateView) -> nat {
    match state {
        HttpStateView::Status => 4,
        HttpStateView::Headers { .. } => 3,
        HttpStateView::ChunkSize { .. } => 2,
        HttpStateView::ChunkData { .. } => 1,
        HttpStateView::ChunkEnd { .. } => 1,
        _ => 0,
    }
}

/// Text that was read, or the failure to.
spec fn text_outcome(r: Result<Seq<char>, Seq<char>>) -> ReadOutcomeView {
    match r {
        Ok(s) => ReadOutcomeView::Text(s),
        Err(e) => ReadOutcomeView::Failed(e),
    }
}

/// What comes of `read` on the bytes `rest`, and what it leaves unread.
spec fn performed(read: HttpRead, rest: Seq<u8>) -> (ReadOutcomeView, Seq<u8>) {
    match read {
        HttpRead::Line => (text_outcome(read_text(line_of(rest))), after_line(rest)),
        HttpRead::ToEnd => (text_outcome(read_text(rest)), Seq::empty()),
        HttpRead::Exact(n) => if n <= rest.len() {
            (ReadOutcomeView::Bytes(rest.take(n as int)), rest.skip(n as int))
        } else {
            (ReadOutcomeView::Failed(too_short()), Seq::empty())
        },
    }
}

proof fn lemma_step(state: HttpStateView, read: HttpRead, rest: Seq<u8>)
    requires
        awaits(state, read),
    ensures
        ({
            let (outcome, left) = performed(read, rest);
            &&& fits(state, outcome)
            &&& match next_step(state, outcome) {
                HttpStepView::Done(r) => (r, left) == outlook(state, read, rest),
                HttpStepView::Read(next, next_read) => {
                    &&& awaits(next, next_read)
                    &&& outlook(next, next_read, left) == outlook(state, read, rest)
                    &&& left.len() <= rest.len()
                    &&& left.len() == rest.len() ==> depth(next) < depth(state)
                },
            }
        }),
{
    lemma_line_len(rest);
    let (outcome, left) = performed(read, rest);
    match state {
        HttpStateView::Status => {},
        HttpStateView::Headers { content_length, chunked } => {},
        HttpStateView::FixedBody => {},
        HttpStateView::OpenBody => {},
        HttpStateView::ChunkSize { body } => {},
        HttpStateView::ChunkData { body } => {
            let size = read->Exact_0;
            if size <= rest.len() && rest.len() >= size + 2 {
                assert(rest.skip(size as int).skip(2) == rest.skip(size + 2));
            }
        },
        HttpStateView::ChunkEnd { body } => {},
        HttpStateView::Trailer { body } => {},
    }
}

/// Performs `read` on bytes in memory.
fn perform(reader: &mut ByteReader, read: HttpRead) -> (r: ReadOutcome)
    ensures
        (r@, final(reader)@) == performed(read, old(reader)@),
{
    match read {
        HttpRead::Line => match reader.read_line() {
            Ok(s) => ReadOutcome::Text(s),
            Err(e) => ReadOutcome::Failed(e),
        },
        HttpRead::ToEnd => match reader.read_to_string() {
            Ok(s) => ReadOutcome::Text(s),
            Err(e) => ReadOutcome::Failed(e),
        },
        HttpRead::Exact(n) => match reader.read_exact(n) {
            Ok(b) => ReadOutcome::Bytes(b),
            Err(e) => ReadOutcome::Failed(e),
        },
    }
}

/// Goes on from `start` and the read `first` until the reply is over.
fn read_on(start: HttpState, first: HttpRead, reader: &mut ByteReader) -> (r: Result<
    String,
    String,
>)
    requires
        awaits(start@, first),
    ensures
        (text_result(r), final(reader)@) == outlook(start@, first, old(reader)@),
{
    let ghost whole = outlook(start@, first, reader@);
    let mut state = start;
    let mut read = first;
    loop
        invariant
            awaits(state@, read),
            outlook(state@, read, reader@) == whole,
            whole == outlook(start@, first, old(reader)@),
        decreases reader@.len(), depth(state@),
    {
        proof {
            lemma_step(state@, read, reader@);
        }
        let outcome = perform(reader, read);
        match http_step(state, outcome) {
            HttpStep::Read(next, next_read) => {
                state = next;
                read = next_read;
            },
            HttpStep::Done(r) => {
                return r;
            },
        }
    }
}

/// Reads a body in chunks, down to the line behind its last chunk.
pub fn read_chunked(reader: &mut ByteReader) -> (r: Result<String, String>)
    ensures
        (text_result(r), final(reader)@) == chunked_body(old(reader)@, Seq::empty()),
{
    let body: Vec<u8> = Vec::new();
    assert(body@ == Seq::<u8>::empty());
    read_on(HttpState::ChunkSize { body }, HttpRead::Line, reader)
}

/// Reads a whole reply: the status line, the headers and the body.
pub fn read_reply(reader: &mut ByteReader) -> (r: Result<String, String>)
    ensures
        (text_result(r), final(reader)@) == reply_body(old(reader)@),
{
    read_on(HttpState::Status, HttpRead::Line, reader)
}

} // verus!
