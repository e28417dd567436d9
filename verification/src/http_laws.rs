//! What holds of every reply that [`crate::http`] reads: written lines, chunks and bodies are
//! read back.

use vstd::prelude::*;
use vstd::utf8::*;

use crate::http::{
    body_text, chunked_after, chunked_body, headed_body, header_text, length_after,
    plain_or_chunked_body, reply_body, size_text,
};
use crate::number::{decimal, digit_value, digits_value, lemma_decimal, number_value, NumberError};
use crate::text::{
    found_at, second_word_of, small, small_text, text_before, trimmed, trimmed_end, trimmed_start,
    white_space,
};
use crate::wire::{after_line, line_len, line_of, read_text};

verus! {

/// A line as it is sent: its text in UTF-8, a carriage return and a line feed.
pub open spec fn wire_line(text: Seq<char>) -> Seq<u8> {
    encode_utf8(text + seq!['\r', '\n'])
}

proof fn lemma_no_line_feed_in_char(ch: char)
    requires
        ch != '\n',
    ensures
        forall|i: int|
            0 <= i < encode_scalar(ch as u32).len() ==> #[trigger] encode_scalar(ch as u32)[i] != 10,
{
    let c = ch as u32;
    char_is_scalar(ch);
    if has_width_1_encoding(c) {
        assert(leading_byte_width_1(c) != 10) by (bit_vector)
            requires
                c != 10,
                has_width_1_encoding(c),
        ;
    } else {
        assert(leading_byte_width_2(c) != 10 && leading_byte_width_3(c) != 10
            && leading_byte_width_4(c) != 10 && last_continuation_byte(c) != 10
            && second_last_continuation_byte(c) != 10 && third_last_continuation_byte(c) != 10)
            by (bit_vector);
    }
}

proof fn lemma_line_goes_on(front: Seq<u8>, rest: Seq<u8>)
    requires
        forall|i: int| 0 <= i < front.len() ==> front[i] != 10,
    ensures
        line_len(front + rest) == front.len() + line_len(rest),
    decreases front.len(),
{
    if front.len() == 0 {
        assert(front + rest == rest);
    } else {
        assert((front + rest).skip(1) == front.skip(1) + rest);
        lemma_line_goes_on(front.skip(1), rest);
    }
}

proof fn lemma_line_ends(text: Seq<char>, rest: Seq<u8>)
    requires
        !text.contains('\n'),
    ensures
        line_len(encode_utf8(text.push('\n')) + rest) == encode_utf8(text.push('\n')).len(),
    decreases text.len(),
{
    let whole = text.push('\n');
    let bytes = encode_utf8(whole);
    let first = encode_scalar(whole[0] as u32);
    let others = encode_utf8(whole.drop_first());
    assert(bytes == first + others);
    assert(bytes + rest == first + (others + rest));
    if text.len() == 0 {
        assert(whole.drop_first() == Seq::<char>::empty());
        assert(leading_byte_width_1(10) == 10) by (bit_vector);
        assert(first == seq![10u8]);
    } else {
        assert(text.contains(text[0]));
        assert(whole[0] == text[0]);
        lemma_no_line_feed_in_char(whole[0]);
        lemma_line_goes_on(first, others + rest);
        assert(whole.drop_first() == text.drop_first().push('\n'));
        assert(!text.drop_first().contains('\n')) by {
            if text.drop_first().contains('\n') {
                let i = choose|i: int|
                    0 <= i < text.drop_first().len() && text.drop_first()[i] == '\n';
                assert(text[i + 1] == '\n');
            }
        }
        lemma_line_ends(text.drop_first(), rest);
    }
}

/// A line that was sent is read back, and what follows it stays unread.
pub proof fn law_line_is_read_back(text: Seq<char>, rest: Seq<u8>)
    requires
        !text.contains('\n'),
    ensures
        line_of(wire_line(text) + rest) == wire_line(text),
        after_line(wire_line(text) + rest) == rest,
        read_text(wire_line(text)) == Ok::<Seq<char>, Seq<char>>(text + seq!['\r', '\n']),
{
    let front = text.push('\r');
    assert(front.push('\n') == text + seq!['\r', '\n']);
    assert(!front.contains('\n')) by {
        if front.contains('\n') {
            let i = choose|i: int| 0 <= i < front.len() && front[i] == '\n';
            assert(text[i] == '\n');
        }
    }
    lemma_line_ends(front, rest);
    let line = wire_line(text);
    assert((line + rest).take(line.len() as int) == line);
    assert((line + rest).skip(line.len() as int) == rest);
    encode_utf8_valid_utf8(text + seq!['\r', '\n']);
    encode_utf8_decode_utf8(text + seq!['\r', '\n']);
}

/// The hexadecimal digit for `d`.
pub open spec fn hex_digit(d: nat) -> char {
    if d < 10 {
        (48 + d) as char
    } else {
        (87 + d) as char
    }
}

/// `n` written in hexadecimal, without leading zeros.
pub open spec fn hexadecimal(n: nat) -> Seq<char>
    decreases n,
{
    if n < 16 {
        seq![hex_digit(n)]
    } else {
        hexadecimal(n / 16).push(hex_digit(n % 16))
    }
}

/// A number written in hexadecimal reads back as itself, wherever it fits.
pub proof fn law_hexadecimal_reads_back(n: nat, max: nat)
    requires
        n <= max,
    ensures
        number_value(hexadecimal(n), 16, max) == Ok::<nat, NumberError>(n),
{
    lemma_hexadecimal(n, max);
}

proof fn lemma_hexadecimal(n: nat, max: nat)
    requires
        n <= max,
    ensures
        hexadecimal(n).len() > 0,
        forall|i: int|
            0 <= i < hexadecimal(n).len() ==> (48 <= (#[trigger] hexadecimal(n)[i]) as u32 <= 57
                || 97 <= hexadecimal(n)[i] as u32 <= 102),
        digits_value(hexadecimal(n), 16, max) == Ok::<nat, NumberError>(n),
    decreases n,
{
    reveal_with_fuel(digits_value, 2);
    let s = hexadecimal(n);
    if n < 16 {
        assert(s.drop_last() == Seq::<char>::empty());
        assert(digit_value(hex_digit(n), 16) == Some(n));
    } else {
        lemma_hexadecimal(n / 16, max);
        assert(s.drop_last() == hexadecimal(n / 16));
        assert(digit_value(hex_digit(n % 16), 16) == Some(n % 16));
    }
}

proof fn lemma_untrimmed(s: Seq<char>)
    requires
        s.len() > 0,
        !white_space(s[0]),
        !white_space(s.last()),
    ensures
        trimmed(s) == s,
{
}

proof fn lemma_before_mark(s: Seq<char>, rest: Seq<char>, mark: char)
    requires
        forall|i: int| 0 <= i < s.len() ==> s[i] != mark,
        rest.len() == 0 || rest[0] == mark,
    ensures
        text_before(s + rest, mark) == s,
    decreases s.len(),
{
    let whole = s + rest;
    if s.len() > 0 {
        assert(whole.skip(1) == s.skip(1) + rest);
        lemma_before_mark(s.skip(1), rest, mark);
        assert(seq![s[0]] + s.skip(1) == s);
    }
}

proof fn lemma_trimmed_behind(front: Seq<char>, rest: Seq<char>)
    requires
        front.len() > 0,
        !white_space(front.last()),
    ensures
        trimmed_end(front + rest) == front + trimmed_end(rest),
    decreases rest.len(),
{
    let whole = front + rest;
    if rest.len() == 0 {
        assert(whole == front);
        assert(front + trimmed_end(rest) == front);
    } else {
        assert(whole.last() == rest.last());
        assert(whole.drop_last() == front + rest.drop_last());
        if white_space(rest.last()) {
            lemma_trimmed_behind(front, rest.drop_last());
        }
    }
}

proof fn lemma_digit_in_either_case(c: char)
    ensures
        digit_value(small(c), 16) == digit_value(c, 16),
        digit_value(c, 16) is Some ==> !white_space(c) && c != ';' && c != '\n' && c != '+',
{
}

proof fn lemma_digits_in_either_case(digits: Seq<char>, max: nat)
    ensures
        digits_value(small_text(digits), 16, max) == digits_value(digits, 16, max),
    decreases digits.len(),
{
    if digits.len() > 0 {
        lemma_digit_in_either_case(digits.last());
        assert(small_text(digits).drop_last() == small_text(digits.drop_last()));
        lemma_digits_in_either_case(digits.drop_last(), max);
    }
}

/// `line` gives a chunk the size `n`.
pub open spec fn is_size_line(line: Seq<char>, n: nat) -> bool {
    &&& !line.contains('\n')
    &&& number_value(size_text(line + seq!['\r', '\n']), 16, usize::MAX as nat) == Ok::<
        nat,
        NumberError,
    >(n)
}

/// A chunk's size is understood in hexadecimal digits of either case, with or without a chunk
/// extension behind a semicolon.
pub proof fn law_size_line_is_understood(digits: Seq<char>, extension: Seq<char>, n: nat)
    requires
        small_text(digits) == hexadecimal(n),
        extension.len() == 0 || extension[0] == ';',
        !extension.contains('\n'),
        n <= usize::MAX,
    ensures
        is_size_line(digits + extension, n),
{
    let max = usize::MAX as nat;
    let line = digits + extension;
    let end = seq!['\r', '\n'];
    lemma_hexadecimal(n, max);
    lemma_digits_in_either_case(digits, max);
    assert forall|i: int| 0 <= i < digits.len() implies digit_value(
        #[trigger] digits[i],
        16,
    ) is Some && !white_space(digits[i]) && digits[i] != ';' && digits[i] != '\n' && digits[i]
        != '+' by {
        assert(small_text(digits)[i] == small(digits[i]));
        assert(hexadecimal(n)[i] == small(digits[i]));
        assert(digit_value(small(digits[i]), 16) is Some);
        lemma_digit_in_either_case(digits[i]);
    }
    assert(digits.len() == hexadecimal(n).len());
    assert(digits[0] == digits.first() && digits[digits.len() - 1] == digits.last());
    assert(!line.contains('\n')) by {
        if line.contains('\n') {
            let i = choose|i: int| 0 <= i < line.len() && line[i] == '\n';
            if i >= digits.len() {
                assert(extension[i - digits.len()] == '\n');
            }
        }
    }
    assert(line + end == digits + (extension + end));
    assert((line + end)[0] == digits[0]);
    assert(trimmed_start(line + end) == line + end);
    lemma_trimmed_behind(digits, extension + end);
    let behind = trimmed_end(extension + end);
    assert(behind.len() == 0 || behind[0] == ';') by {
        if extension.len() == 0 {
            assert(extension + end == end);
            assert(end.drop_last() == seq!['\r']);
            assert(end.drop_last().drop_last() == Seq::<char>::empty());
            reveal_with_fuel(trimmed_end, 3);
        } else {
            assert(extension + end == seq![';'] + (extension.skip(1) + end));
            lemma_trimmed_behind(seq![';'], extension.skip(1) + end);
        }
    }
    lemma_before_mark(digits, behind, ';');
    lemma_untrimmed(digits);
}

/// A chunk as it is sent: the line that gives its size, and its bytes.
#[verifier::ext_equal]
pub struct WireChunk {
    pub size_line: Seq<char>,
    pub data: Seq<u8>,
}

/// The chunk's bytes on the wire, with the line end behind them.
pub open spec fn wire_chunk(chunk: WireChunk) -> Seq<u8> {
    wire_line(chunk.size_line) + chunk.data + wire_line(Seq::empty())
}

/// The chunks on the wire, with the line of the empty chunk and the trailer that end them.
pub open spec fn wire_chunks(chunks: Seq<WireChunk>, last: Seq<char>, trailer: Seq<char>) -> Seq<u8>
    decreases chunks.len(),
{
    if chunks.len() == 0 {
        wire_line(last) + wire_line(trailer)
    } else {
        wire_chunk(chunks[0]) + wire_chunks(chunks.skip(1), last, trailer)
    }
}

/// None of the chunks is empty, and each has the size that its line gives.
pub open spec fn are_chunks(chunks: Seq<WireChunk>) -> bool {
    forall|i: int|
        0 <= i < chunks.len() ==> (#[trigger] chunks[i]).data.len() > 0 && is_size_line(
            chunks[i].size_line,
            chunks[i].data.len(),
        )
}

/// The bytes of all chunks, in order.
pub open spec fn joined(chunks: Seq<WireChunk>) -> Seq<u8>
    decreases chunks.len(),
{
    if chunks.len() == 0 {
        Seq::empty()
    } else {
        chunks[0].data + joined(chunks.skip(1))
    }
}

/// A body sent in chunks is read back: the chunks' bytes, joined, as text, and nothing of what
/// follows the last chunk is read. How the sizes are written does not matter, as long as they read
/// as the chunks' sizes (see [`law_size_line_is_understood`]).
pub proof fn law_chunks_are_read_back(
    chunks: Seq<WireChunk>,
    last: Seq<char>,
    trailer: Seq<char>,
    collected: Seq<u8>,
    rest: Seq<u8>,
)
    requires
        are_chunks(chunks),
        is_size_line(last, 0),
        !trailer.contains('\n'),
    ensures
        chunked_body(wire_chunks(chunks, last, trailer) + rest, collected) == (
            body_text(collected + joined(chunks)),
            rest,
        ),
    decreases chunks.len(),
{
    let whole = wire_chunks(chunks, last, trailer) + rest;
    if chunks.len() == 0 {
        law_line_is_read_back(last, wire_line(trailer) + rest);
        assert(whole == wire_line(last) + (wire_line(trailer) + rest));
        law_line_is_read_back(trailer, rest);
        assert(collected + joined(chunks) == collected);
    } else {
        let line = chunks[0].size_line;
        let data = chunks[0].data;
        let others = wire_chunks(chunks.skip(1), last, trailer) + rest;
        let end = wire_line(Seq::empty());
        let tail = data + (end + others);
        assert(whole == wire_line(line) + tail);
        law_line_is_read_back(line, tail);
        assert(end.len() == 2) by {
            let text = Seq::<char>::empty() + seq!['\r', '\n'];
            assert(is_ascii_chars(text));
            is_ascii_chars_encode_utf8(text);
        }
        assert(tail.take(data.len() as int) == data);
        assert(tail.skip(data.len() as int + 2) == others);
        assert(are_chunks(chunks.skip(1))) by {
            assert forall|i: int| 0 <= i < chunks.skip(1).len() implies (
            #[trigger] chunks.skip(1)[i]).data.len() > 0 && is_size_line(
                chunks.skip(1)[i].size_line,
                chunks.skip(1)[i].data.len(),
            ) by {
                assert(chunks.skip(1)[i] == chunks[i + 1]);
            }
        }
        law_chunks_are_read_back(chunks.skip(1), last, trailer, collected + data, rest);
        assert(collected + data + joined(chunks.skip(1)) == collected + joined(chunks));
    }
}

/// The lines as they are sent.
pub open spec fn wire_lines(lines: Seq<Seq<char>>) -> Seq<u8>
    decreases lines.len(),
{
    if lines.len() == 0 {
        Seq::empty()
    } else {
        wire_line(lines[0]) + wire_lines(lines.skip(1))
    }
}

/// The body's length behind the header lines.
pub open spec fn length_from(headers: Seq<Seq<char>>, content_length: Option<usize>) -> Option<
    usize,
>
    decreases headers.len(),
{
    if headers.len() == 0 {
        content_length
    } else {
        length_from(headers.skip(1), length_after(headers[0], content_length))
    }
}

/// Whether the body is chunked, behind the header lines.
pub open spec fn chunked_from(headers: Seq<Seq<char>>, chunked: bool) -> bool
    decreases headers.len(),
{
    if headers.len() == 0 {
        chunked
    } else {
        chunked_from(headers.skip(1), chunked_after(headers[0], chunked))
    }
}

/// `line` can be sent as a header: it holds no line feed, and not only white space.
pub open spec fn is_header(line: Seq<char>) -> bool {
    !line.contains('\n') && trimmed_end(line).len() > 0
}

proof fn lemma_line_end_is_trimmed(line: Seq<char>)
    ensures
        trimmed_end(line + seq!['\r', '\n']) == trimmed_end(line),
{
    let whole = line + seq!['\r', '\n'];
    reveal_with_fuel(trimmed_end, 3);
    assert(whole.last() == '\n');
    assert(whole.drop_last().last() == '\r');
    assert(whole.drop_last().drop_last() == line);
}

proof fn lemma_headers(
    headers: Seq<Seq<char>>,
    payload: Seq<u8>,
    content_length: Option<usize>,
    chunked: bool,
)
    requires
        forall|i: int| 0 <= i < headers.len() ==> is_header(#[trigger] headers[i]),
    ensures
        headed_body(
            wire_lines(headers) + (wire_line(Seq::empty()) + payload),
            content_length,
            chunked,
        ) == plain_or_chunked_body(
            payload,
            length_from(headers, content_length),
            chunked_from(headers, chunked),
        ),
    decreases headers.len(),
{
    let tail = wire_line(Seq::empty()) + payload;
    if headers.len() == 0 {
        assert(wire_lines(headers) + tail == tail);
        law_line_is_read_back(Seq::empty(), payload);
        lemma_line_end_is_trimmed(Seq::empty());
    } else {
        let first = headers[0];
        let others = headers.skip(1);
        assert(is_header(first));
        assert(wire_lines(headers) + tail == wire_line(first) + (wire_lines(others) + tail));
        law_line_is_read_back(first, wire_lines(others) + tail);
        lemma_line_end_is_trimmed(first);
        assert(header_text(first + seq!['\r', '\n']) == header_text(first));
        assert forall|i: int| 0 <= i < others.len() implies is_header(#[trigger] others[i]) by {
            assert(others[i] == headers[i + 1]);
        }
        lemma_headers(
            others,
            payload,
            length_after(first, content_length),
            chunked_after(first, chunked),
        );
    }
}

/// A reply as it is sent.
pub open spec fn wire_reply(
    status: Seq<char>,
    headers: Seq<Seq<char>>,
    payload: Seq<u8>,
) -> Seq<u8> {
    wire_line(status) + (wire_lines(headers) + (wire_line(Seq::empty()) + payload))
}

/// The headers of a reply decide how its body is read, and nothing else of them does: of a reply
/// with status code 200 the body is read as the headers' length and encoding say.
pub proof fn law_headers_decide_the_body(
    status: Seq<char>,
    headers: Seq<Seq<char>>,
    payload: Seq<u8>,
)
    requires
        !status.contains('\n'),
        second_word_of(status + seq!['\r', '\n']) == "200"@,
        forall|i: int| 0 <= i < headers.len() ==> is_header(#[trigger] headers[i]),
    ensures
        reply_body(wire_reply(status, headers, payload)) == plain_or_chunked_body(
            payload,
            length_from(headers, None),
            chunked_from(headers, false),
        ),
{
    law_line_is_read_back(status, wire_lines(headers) + (wire_line(Seq::empty()) + payload));
    lemma_headers(headers, payload, None, false);
}

/// A reply with a status code other than 200 is refused with that code, whatever follows it.
pub proof fn law_other_status_is_refused(status: Seq<char>, rest: Seq<u8>)
    requires
        !status.contains('\n'),
        second_word_of(status + seq!['\r', '\n']) != "200"@,
    ensures
        reply_body(wire_line(status) + rest) == (
            Err::<Seq<char>, Seq<char>>(
                "HTTP "@ + second_word_of(status + seq!['\r', '\n']),
            ),
            rest,
        ),
{
    law_line_is_read_back(status, rest);
}

/// A text that a server sends in chunks under status code 200 is read back unchanged, however it is
/// cut into chunks; what follows it on the connection stays unread.
pub proof fn law_chunked_text_is_read_back(
    status: Seq<char>,
    headers: Seq<Seq<char>>,
    body: Seq<char>,
    chunks: Seq<WireChunk>,
    last: Seq<char>,
    trailer: Seq<char>,
    rest: Seq<u8>,
)
    requires
        !status.contains('\n'),
        second_word_of(status + seq!['\r', '\n']) == "200"@,
        forall|i: int| 0 <= i < headers.len() ==> is_header(#[trigger] headers[i]),
        chunked_from(headers, false),
        are_chunks(chunks),
        is_size_line(last, 0),
        !trailer.contains('\n'),
        joined(chunks) == encode_utf8(body),
    ensures
        reply_body(wire_reply(status, headers, wire_chunks(chunks, last, trailer) + rest)) == (
            Ok::<Seq<char>, Seq<char>>(body),
            rest,
        ),
{
    encode_utf8_valid_utf8(body);
    encode_utf8_decode_utf8(body);
    law_headers_decide_the_body(status, headers, wire_chunks(chunks, last, trailer) + rest);
    law_chunks_are_read_back(chunks, last, trailer, Seq::empty(), rest);
    assert(Seq::<u8>::empty() + joined(chunks) == encode_utf8(body));
}

/// A text whose length in bytes a server gives in a header is read back unchanged under status code
/// 200; what follows it on the connection stays unread.
pub proof fn law_sized_text_is_read_back(
    status: Seq<char>,
    headers: Seq<Seq<char>>,
    body: Seq<char>,
    rest: Seq<u8>,
)
    requires
        !status.contains('\n'),
        second_word_of(status + seq!['\r', '\n']) == "200"@,
        forall|i: int| 0 <= i < headers.len() ==> is_header(#[trigger] headers[i]),
        !chunked_from(headers, false),
        length_from(headers, None) is Some,
        length_from(headers, None)->0 == encode_utf8(body).len(),
    ensures
        reply_body(wire_reply(status, headers, encode_utf8(body) + rest)) == (
            Ok::<Seq<char>, Seq<char>>(body),
            rest,
        ),
{
    let bytes = encode_utf8(body);
    encode_utf8_valid_utf8(body);
    encode_utf8_decode_utf8(body);
    law_headers_decide_the_body(status, headers, bytes + rest);
    assert((bytes + rest).take(bytes.len() as int) == bytes);
    assert((bytes + rest).skip(bytes.len() as int) == rest);
}

/// A text that a server sends under status code 200 without saying how long it is is read back
/// unchanged, up to the end of the connection.
pub proof fn law_open_text_is_read_back(
    status: Seq<char>,
    headers: Seq<Seq<char>>,
    body: Seq<char>,
)
    requires
        !status.contains('\n'),
        second_word_of(status + seq!['\r', '\n']) == "200"@,
        forall|i: int| 0 <= i < headers.len() ==> is_header(#[trigger] headers[i]),
        !chunked_from(headers, false),
        length_from(headers, None) is None,
    ensures
        reply_body(wire_reply(status, headers, encode_utf8(body))) == (
            Ok::<Seq<char>, Seq<char>>(body),
            Seq::<u8>::empty(),
        ),
{
    encode_utf8_valid_utf8(body);
    encode_utf8_decode_utf8(body);
    law_headers_decide_the_body(status, headers, encode_utf8(body));
}

proof fn lemma_last_stays(s: Seq<char>)
    requires
        s.len() > 0,
        !white_space(s.last()),
    ensures
        trimmed_end(s) == s,
{
}

/// A header that gives the length in decimal sets it, in whatever letters its name is written.
pub proof fn law_length_header_is_understood(
    name: Seq<char>,
    length: nat,
    content_length: Option<usize>,
)
    requires
        small_text(name) == "content-length:"@,
        length <= usize::MAX,
    ensures
        length_after(name + seq![' '] + decimal(length), content_length) == Some(length as usize),
{
    let digits = decimal(length);
    let line = name + seq![' '] + digits;
    lemma_decimal(length, usize::MAX as nat);
    assert(line.last() == digits.last());
    assert(digits[digits.len() - 1] == digits.last());
    lemma_last_stays(line);
    assert(small_text(line) == small_text(name) + seq![' '] + digits) by {
        assert forall|i: int| 0 <= i < line.len() implies small_text(line)[i] == (small_text(name)
            + seq![' '] + digits)[i] by {
            if i > name.len() {
                assert(line[i] == digits[i - name.len() - 1]);
            }
        }
    }
    let value = header_text(line).skip("content-length:"@.len() as int);
    assert(value == seq![' '] + digits);
    assert("content-length:"@.is_prefix_of(header_text(line)));
    assert(value.skip(1) == digits);
    reveal_with_fuel(trimmed_start, 2);
    assert(digits[0] <= '9');
    assert(trimmed_start(value) == digits);
    lemma_last_stays(digits);
}

/// A header that says that the body is chunked is understood, in whatever letters it is written.
pub proof fn law_chunked_header_is_understood(name: Seq<char>, value: Seq<char>, chunked: bool)
    requires
        small_text(name) == "transfer-encoding:"@,
        small_text(value) == "chunked"@,
    ensures
        chunked_after(name + seq![' '] + value, chunked),
{
    let line = name + seq![' '] + value;
    reveal_strlit("chunked");
    assert("chunked"@.len() == 7 && "chunked"@[6] == 'd');
    assert(value.len() == 7);
    assert(small_text(value)[6] == small(value[6]));
    assert(line.last() == value[6]);
    lemma_last_stays(line);
    let header = header_text(line);
    let n = name.len() as int;
    assert(header == small_text(name) + seq![' '] + small_text(value));
    assert("transfer-encoding:"@.is_prefix_of(header));
    assert(header.subrange(n + 1, n + 8) == "chunked"@);
    assert(found_at(header, "chunked"@, n + 1));
}

} // verus!
