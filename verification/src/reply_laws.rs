//! What a reply comes to, stated on the lines that a server sends: which header says how long the
//! body is, which says that it comes in chunks, and which say nothing of it.

use vstd::prelude::*;
use vstd::utf8::*;

use crate::http::{
    chunked_after, chunked_body, header_text, length_after, reply_body, request_text,
    size_text,
};
use crate::http_laws::{
    are_chunks, chunked_from, is_header, is_size_line, joined, law_chunks_are_read_back,
    law_headers_decide_the_body, law_line_is_read_back, law_other_status_is_refused, length_from,
    wire_chunk, wire_chunks, wire_line, wire_reply, WireChunk,
};
use crate::number::{
    decimal, digit_value, digits_value, law_decimal_reads_back, lemma_decimal, number_value,
    NumberError,
};
use crate::text::{
    found_at, occurs_in, second_word_of, small, small_text, trimmed_end, white_space,
};
use crate::text_laws::{
    blank, law_second_word, law_text_before_a_mark, law_trimming_keeps_the_core, unbroken,
};
use crate::wire::utf8_error_text;

verus! {

/// `status` is a status line with this code: a word, white space, the code, and then white space or
/// nothing.
pub open spec fn is_status_with(
    status: Seq<char>,
    code: Seq<char>,
    front: Seq<char>,
    version: Seq<char>,
    gap: Seq<char>,
    reason: Seq<char>,
) -> bool {
    &&& status == front + version + gap + code + reason
    &&& blank(front)
    &&& version.len() > 0 && unbroken(version)
    &&& gap.len() > 0 && blank(gap)
    &&& code.len() > 0 && unbroken(code)
    &&& reason.len() == 0 || white_space(reason[0])
}

/// `status` is a status line with this code, whatever the version and the reason.
pub open spec fn has_code(status: Seq<char>, code: Seq<char>) -> bool {
    &&& !status.contains('\n')
    &&& exists|front: Seq<char>, version: Seq<char>, gap: Seq<char>, reason: Seq<char>| #[trigger]
        is_status_with(status, code, front, version, gap, reason)
}

proof fn lemma_status(status: Seq<char>, code: Seq<char>)
    requires
        has_code(status, code),
    ensures
        second_word_of(status + seq!['\r', '\n']) == code,
{
    let end = seq!['\r', '\n'];
    let (front, version, gap, reason) = choose|
        front: Seq<char>,
        version: Seq<char>,
        gap: Seq<char>,
        reason: Seq<char>,
    | #[trigger] is_status_with(status, code, front, version, gap, reason);
    law_second_word(front, version, gap, code, reason + end);
    assert(front + version + gap + code + (reason + end) == status + end);
}

/// A line of the usual form has its code.
pub proof fn law_usual_status_line(version: Seq<char>, code: Seq<char>, reason: Seq<char>)
    requires
        version.len() > 0 && unbroken(version),
        code.len() > 0 && unbroken(code),
        reason.len() == 0 || reason[0] == ' ',
        !reason.contains('\n'),
    ensures
        has_code(version + seq![' '] + code + reason, code),
{
    let line = version + seq![' '] + code + reason;
    let none = Seq::<char>::empty();
    assert(line == none + version + seq![' '] + code + reason);
    assert(is_status_with(line, code, none, version, seq![' '], reason));
    if line.contains('\n') {
        let i = choose|i: int| 0 <= i < line.len() && line[i] == '\n';
        let v = version.len() as int;
        let c = code.len() as int;
        if i < v {
            assert(!white_space(version[i]));
        } else if i > v && i < v + 1 + c {
            assert(!white_space(code[i - v - 1]));
        } else if i >= v + 1 + c {
            assert(reason[i - v - 1 - c] == '\n');
        }
    }
}

/// The code of the status line decides, whatever the version and the reason: any other than 200 is
/// refused under its own name, and nothing behind the line is read.
pub proof fn law_code_decides(status: Seq<char>, code: Seq<char>, rest: Seq<u8>)
    requires
        has_code(status, code),
        code != "200"@,
    ensures
        reply_body(wire_line(status) + rest) == (
            Err::<Seq<char>, Seq<char>>("HTTP "@ + code),
            rest,
        ),
{
    lemma_status(status, code);
    law_other_status_is_refused(status, rest);
}

/// `line` can be sent as a header: it begins with no white space and holds no line feed.
pub open spec fn sendable(line: Seq<char>) -> bool {
    line.len() > 0 && !white_space(line[0]) && !line.contains('\n')
}

/// `line` is a header on the body's length, in whatever letters.
pub open spec fn names_length(line: Seq<char>) -> bool {
    "content-length:"@.is_prefix_of(small_text(line))
}

/// `line` is a header that says that the body comes in chunks, in whatever letters.
pub open spec fn names_chunks(line: Seq<char>) -> bool {
    "transfer-encoding:"@.is_prefix_of(small_text(line)) && occurs_in("chunked"@, small_text(line))
}

/// All of the lines can be sent as headers.
pub open spec fn all_sendable(lines: Seq<Seq<char>>) -> bool {
    forall|i: int| 0 <= i < lines.len() ==> sendable(#[trigger] lines[i])
}

/// None of the lines is a header on the body's length.
pub open spec fn no_length(lines: Seq<Seq<char>>) -> bool {
    forall|i: int| 0 <= i < lines.len() ==> !names_length(#[trigger] lines[i])
}

/// None of the lines says that the body comes in chunks.
pub open spec fn no_chunks(lines: Seq<Seq<char>>) -> bool {
    forall|i: int| 0 <= i < lines.len() ==> !names_chunks(#[trigger] lines[i])
}

proof fn lemma_front_stays(line: Seq<char>)
    ensures
        trimmed_end(line).len() <= line.len(),
        trimmed_end(line) == line.take(trimmed_end(line).len() as int),
        line.len() > 0 && !white_space(line[0]) ==> trimmed_end(line).len() > 0,
    decreases line.len(),
{
    if line.len() > 0 && white_space(line.last()) {
        let front = line.drop_last();
        lemma_front_stays(front);
        assert(front.take(trimmed_end(front).len() as int) == line.take(
            trimmed_end(front).len() as int,
        ));
        if line.len() == 1 {
            assert(line[0] == line.last());
        } else {
            assert(front[0] == line[0]);
        }
    } else {
        assert(line.take(line.len() as int) == line);
    }
}

proof fn lemma_header_is_front(line: Seq<char>)
    ensures
        header_text(line).len() <= line.len(),
        header_text(line) == small_text(line).take(header_text(line).len() as int),
{
    lemma_front_stays(line);
    let k = trimmed_end(line).len() as int;
    assert(small_text(line.take(k)) == small_text(line).take(k));
}

proof fn lemma_says_nothing(line: Seq<char>, length: Option<usize>, chunked: bool)
    ensures
        !names_length(line) ==> length_after(line, length) == length,
        !names_chunks(line) ==> chunked_after(line, chunked) == chunked,
{
    lemma_header_is_front(line);
    let header = header_text(line);
    let small_line = small_text(line);
    if "content-length:"@.is_prefix_of(header) {
        assert("content-length:"@.is_prefix_of(small_line));
    }
    if "transfer-encoding:"@.is_prefix_of(header) && occurs_in("chunked"@, header) {
        assert("transfer-encoding:"@.is_prefix_of(small_line));
        let at = choose|at: int| #[trigger] found_at(header, "chunked"@, at);
        assert(small_line.subrange(at, at + "chunked"@.len()) == header.subrange(
            at,
            at + "chunked"@.len(),
        ));
        assert(found_at(small_line, "chunked"@, at));
    }
}

proof fn lemma_lines_say_nothing(lines: Seq<Seq<char>>, length: Option<usize>, chunked: bool)
    ensures
        no_length(lines) ==> length_from(lines, length) == length,
        no_chunks(lines) ==> chunked_from(lines, chunked) == chunked,
        chunked_from(lines, true),
    decreases lines.len(),
{
    if lines.len() > 0 {
        let others = lines.skip(1);
        lemma_says_nothing(lines[0], length, chunked);
        assert forall|i: int| 0 <= i < others.len() implies #[trigger] others[i] == lines[i + 1] by {
        }
        if no_length(lines) {
            assert(no_length(others));
        }
        if no_chunks(lines) {
            assert(no_chunks(others));
        }
        lemma_lines_say_nothing(others, length_after(lines[0], length), chunked);
    }
}

proof fn lemma_one_by_one(
    before: Seq<Seq<char>>,
    after: Seq<Seq<char>>,
    length: Option<usize>,
    chunked: bool,
)
    ensures
        length_from(before + after, length) == length_from(after, length_from(before, length)),
        chunked_from(before + after, chunked) == chunked_from(
            after,
            chunked_from(before, chunked),
        ),
    decreases before.len(),
{
    let whole = before + after;
    if before.len() == 0 {
        assert(whole == after);
    } else {
        assert(whole[0] == before[0]);
        assert(whole.skip(1) == before.skip(1) + after);
        lemma_one_by_one(
            before.skip(1),
            after,
            length_after(before[0], length),
            chunked_after(before[0], chunked),
        );
    }
}

proof fn lemma_all_headers(before: Seq<Seq<char>>, line: Seq<char>, after: Seq<Seq<char>>)
    requires
        all_sendable(before),
        sendable(line),
        all_sendable(after),
    ensures
        forall|i: int|
            0 <= i < (before.push(line) + after).len() ==> is_header(
                #[trigger] (before.push(line) + after)[i],
            ),
{
    let lines = before.push(line) + after;
    assert forall|i: int| 0 <= i < lines.len() implies is_header(#[trigger] lines[i]) by {
        if i < before.len() {
            assert(lines[i] == before[i]);
        } else if i > before.len() {
            assert(lines[i] == after[i - before.len() - 1]);
        }
        assert(sendable(lines[i]));
        lemma_front_stays(lines[i]);
    }
}

/// One header among others: what `before`, `line` and `after` come to.
proof fn lemma_headers_around(before: Seq<Seq<char>>, line: Seq<char>, after: Seq<Seq<char>>)
    ensures
        ({
            let lines = before.push(line) + after;
            &&& no_length(after) ==> length_from(lines, None) == length_after(
                line,
                length_from(before, None),
            )
            &&& no_chunks(before) && no_chunks(after) && !names_chunks(line) ==> !chunked_from(
                lines,
                false,
            )
            &&& (forall|chunked: bool| #[trigger] chunked_after(line, chunked)) ==> chunked_from(
                lines,
                false,
            )
        }),
{
    let lines = before.push(line) + after;
    lemma_one_by_one(before.push(line), after, None, false);
    assert(before.push(line) == before + seq![line]);
    lemma_one_by_one(before, seq![line], None, false);
    reveal_with_fuel(length_from, 2);
    reveal_with_fuel(chunked_from, 2);
    assert(seq![line].skip(1) == Seq::<Seq<char>>::empty());
    let length = length_after(line, length_from(before, None));
    let chunked = chunked_after(line, chunked_from(before, false));
    lemma_lines_say_nothing(before, None, false);
    lemma_says_nothing(line, None, false);
    lemma_lines_say_nothing(after, length, chunked);
}

proof fn lemma_keeps(line: Seq<char>, at: int)
    requires
        0 <= at < line.len(),
        !white_space(line[at]),
    ensures
        trimmed_end(line).len() > at,
    decreases line.len(),
{
    if white_space(line.last()) {
        assert(at < line.len() - 1);
        assert(line.drop_last()[at] == line[at]);
        lemma_keeps(line.drop_last(), at);
    }
}

proof fn lemma_small_is_no_white_space(c: char)
    ensures
        white_space(small(c)) <==> white_space(c),
        small(c) == '\n' <==> c == '\n',
{
}

/// A header on the length as it may be sent: its name in whatever letters, a value, and white space
/// around that.
pub open spec fn length_line(
    name: Seq<char>,
    gap: Seq<char>,
    value: Seq<char>,
    back: Seq<char>,
) -> Seq<char> {
    name + gap + value + back
}

/// The pieces of a length header are what they should be.
pub open spec fn is_length_line(
    name: Seq<char>,
    gap: Seq<char>,
    value: Seq<char>,
    back: Seq<char>,
) -> bool {
    &&& small_text(name) == "content-length:"@
    &&& blank(gap) && !gap.contains('\n')
    &&& value.len() > 0 && unbroken(value)
    &&& blank(back) && !back.contains('\n')
}

proof fn lemma_length_line(
    name: Seq<char>,
    gap: Seq<char>,
    value: Seq<char>,
    back: Seq<char>,
    length: Option<usize>,
)
    requires
        is_length_line(name, gap, value, back),
    ensures
        ({
            let line = length_line(name, gap, value, back);
            &&& sendable(line)
            &&& !names_chunks(line)
            &&& length_after(line, length) == (match number_value(
                small_text(value),
                10,
                usize::MAX as nat,
            ) {
                Ok(n) => Some(n as usize),
                Err(_) => None::<usize>,
            })
        }),
{
    let line = length_line(name, gap, value, back);
    let wanted = "content-length:"@;
    let n = name.len() as int;
    reveal_strlit("content-length:");
    reveal_strlit("transfer-encoding:");
    assert(wanted.len() == 15 && wanted[0] == 'c' && "transfer-encoding:"@[0] == 't');
    assert(!wanted.contains('\n'));
    assert(n == 15);
    assert(small_text(name)[0] == small(name[0]));
    assert(line[0] == name[0]);
    assert(small_text(line)[0] == small(line[0]));
    lemma_small_is_no_white_space(line[0]);
    if "transfer-encoding:"@.is_prefix_of(small_text(line)) {
        assert(small_text(line)[0] == "transfer-encoding:"@[0]);
    }
    assert(!line.contains('\n')) by {
        if line.contains('\n') {
            let i = choose|i: int| 0 <= i < line.len() && line[i] == '\n';
            let g = n + gap.len();
            let v = g + value.len();
            if i < n {
                assert(small_text(name)[i] == small(name[i]));
                assert(wanted.contains(wanted[i]));
            } else if i < g {
                assert(gap[i - n] == '\n');
            } else if i < v {
                assert(!white_space(value[i - g]));
            } else {
                assert(back[i - v] == '\n');
            }
        }
    }
    let core = small_text(value);
    let front = name + gap + value;
    assert(!white_space(value[value.len() - 1]));
    assert(!white_space(value[0]));
    assert(front.len() > 0 && front.last() == value.last());
    assert(front[0] == name[0]);
    let none = Seq::<char>::empty();
    law_trimming_keeps_the_core(none, front, back);
    assert(none + front + back == line);
    assert(none + front == front);
    let header = header_text(line);
    assert(header == small_text(front));
    assert(small_text(front) == wanted + small_text(gap) + core) by {
        assert forall|i: int| 0 <= i < front.len() implies #[trigger] small_text(front)[i] == (
        wanted + small_text(gap) + core)[i] by {
            assert(small_text(front)[i] == small(front[i]));
            if i < n {
                assert(small_text(name)[i] == small(name[i]));
            }
        }
    }
    assert(wanted.is_prefix_of(header));
    let tail = header.skip(15);
    assert(tail == small_text(gap) + core + none);
    assert forall|i: int| 0 <= i < small_text(gap).len() implies white_space(
        #[trigger] small_text(gap)[i],
    ) by {
        assert(white_space(gap[i]));
        lemma_small_is_no_white_space(gap[i]);
    }
    lemma_small_is_no_white_space(value[0]);
    lemma_small_is_no_white_space(value[value.len() - 1]);
    assert(core[0] == small(value[0]) && core.last() == small(value[value.len() - 1]));
    law_trimming_keeps_the_core(small_text(gap), core, none);
}

proof fn lemma_number_has_no_letters(value: Seq<char>, max: nat)
    requires
        number_value(value, 10, max) is Ok,
    ensures
        small_text(value) == value,
{
    assert forall|i: int| 0 <= i < value.len() implies #[trigger] small_text(value)[i]
        == value[i] by {
        if 'A' <= value[i] <= 'Z' {
            if value[0] == '+' && value.len() > 1 {
                assert(value.skip(1)[i - 1] == value[i]);
                lemma_no_digits(value.skip(1), i - 1, max);
            } else {
                lemma_no_digits(value, i, max);
            }
        }
    }
}

/// The last header on the length counts, and no other header touches it: behind any headers that do
/// not ask for chunks, and before any that say nothing of the body either, a reply whose body has
/// the length that the header's value stands for is read back as those bytes, and what follows them
/// stays unread.
pub proof fn law_length_header_gives_the_body(
    status: Seq<char>,
    before: Seq<Seq<char>>,
    name: Seq<char>,
    gap: Seq<char>,
    value: Seq<char>,
    back: Seq<char>,
    after: Seq<Seq<char>>,
    body: Seq<u8>,
    rest: Seq<u8>,
)
    requires
        has_code(status, "200"@),
        all_sendable(before) && no_chunks(before),
        all_sendable(after) && no_chunks(after) && no_length(after),
        is_length_line(name, gap, value, back),
        number_value(value, 10, usize::MAX as nat) == Ok::<nat, NumberError>(body.len()),
    ensures
        reply_body(
            wire_reply(
                status,
                before.push(length_line(name, gap, value, back)) + after,
                body + rest,
            ),
        ) == (
            if valid_utf8(body) {
                Ok::<Seq<char>, Seq<char>>(decode_utf8(body))
            } else {
                Err("utf-8: "@ + utf8_error_text(body))
            },
            rest,
        ),
{
    let n = body.len();
    let line = length_line(name, gap, value, back);
    let headers = before.push(line) + after;
    lemma_status(status, "200"@);
    lemma_number_has_no_letters(value, usize::MAX as nat);
    lemma_number_fits(value, usize::MAX as nat);
    lemma_length_line(name, gap, value, back, length_from(before, None));
    lemma_all_headers(before, line, after);
    lemma_headers_around(before, line, after);
    law_headers_decide_the_body(status, headers, body + rest);
    assert((body + rest).take(n as int) == body);
    assert((body + rest).skip(n as int) == rest);
}

proof fn lemma_digits_fit(s: Seq<char>, max: nat)
    ensures
        digits_value(s, 10, max) matches Ok(v) ==> v <= max,
    decreases s.len(),
{
    if s.len() > 0 {
        lemma_digits_fit(s.drop_last(), max);
    }
}

proof fn lemma_number_fits(s: Seq<char>, max: nat)
    ensures
        number_value(s, 10, max) matches Ok(v) ==> v <= max,
{
    lemma_digits_fit(s, max);
    lemma_digits_fit(s.skip(1), max);
}

proof fn lemma_usual_length_line(name: Seq<char>, length: nat)
    requires
        small_text(name) == "content-length:"@,
        length <= usize::MAX,
    ensures
        is_length_line(name, " "@, decimal(length), Seq::empty()),
        number_value(decimal(length), 10, usize::MAX as nat) == Ok::<nat, NumberError>(length),
        length_line(name, " "@, decimal(length), Seq::empty()) == name + " "@ + decimal(length),
{
    reveal_strlit(" ");
    lemma_decimal(length, usize::MAX as nat);
    law_decimal_reads_back(length, usize::MAX as nat);
    assert(" "@ == seq![' ']);
    assert(name + " "@ + decimal(length) + Seq::<char>::empty() == name + " "@ + decimal(length));
    assert forall|i: int| 0 <= i < decimal(length).len() implies !white_space(
        #[trigger] decimal(length)[i],
    ) by {
        assert('0' <= decimal(length)[i] <= '9');
    }
}

/// A text under such headers is read back unchanged: an everyday reply, with headers around its
/// length.
pub proof fn law_sized_reply_is_read_back(
    status: Seq<char>,
    before: Seq<Seq<char>>,
    name: Seq<char>,
    after: Seq<Seq<char>>,
    text: Seq<char>,
    rest: Seq<u8>,
)
    requires
        has_code(status, "200"@),
        all_sendable(before) && no_chunks(before),
        all_sendable(after) && no_chunks(after) && no_length(after),
        small_text(name) == "content-length:"@,
        encode_utf8(text).len() <= usize::MAX,
    ensures
        reply_body(
            wire_reply(
                status,
                before.push(name + " "@ + decimal(encode_utf8(text).len())) + after,
                encode_utf8(text) + rest,
            ),
        ) == (Ok::<Seq<char>, Seq<char>>(text), rest),
{
    encode_utf8_valid_utf8(text);
    encode_utf8_decode_utf8(text);
    let length = encode_utf8(text).len();
    lemma_usual_length_line(name, length);
    law_length_header_gives_the_body(
        status,
        before,
        name,
        " "@,
        decimal(length),
        Seq::empty(),
        after,
        encode_utf8(text),
        rest,
    );
}

/// A body that is shorter than its header says is refused, whatever there is of it.
pub proof fn law_short_body_is_refused(
    status: Seq<char>,
    before: Seq<Seq<char>>,
    name: Seq<char>,
    length: nat,
    after: Seq<Seq<char>>,
    payload: Seq<u8>,
)
    requires
        has_code(status, "200"@),
        all_sendable(before) && no_chunks(before),
        all_sendable(after) && no_chunks(after) && no_length(after),
        small_text(name) == "content-length:"@,
        payload.len() < length <= usize::MAX,
    ensures
        reply_body(
            wire_reply(
                status,
                before.push(name + " "@ + decimal(length)) + after,
                payload,
            ),
        ) == (
            Err::<Seq<char>, Seq<char>>("read body: "@ + "failed to fill whole buffer"@),
            Seq::<u8>::empty(),
        ),
{
    let line = name + " "@ + decimal(length);
    let headers = before.push(line) + after;
    lemma_status(status, "200"@);
    lemma_usual_length_line(name, length);
    lemma_number_has_no_letters(decimal(length), usize::MAX as nat);
    lemma_length_line(name, " "@, decimal(length), Seq::empty(), length_from(before, None));
    lemma_all_headers(before, line, after);
    lemma_headers_around(before, line, after);
    law_headers_decide_the_body(status, headers, payload);
}

/// What the whole payload of a reply comes to, where nothing says how long it is.
pub open spec fn whole_payload(payload: Seq<u8>) -> Result<Seq<char>, Seq<char>> {
    if valid_utf8(payload) {
        Ok(decode_utf8(payload))
    } else {
        Err("read body: "@ + "stream did not contain valid UTF-8"@)
    }
}

/// Without a header on the length or on chunks, the body is all that follows the headers.
pub proof fn law_other_headers_leave_the_body_open(
    status: Seq<char>,
    headers: Seq<Seq<char>>,
    payload: Seq<u8>,
)
    requires
        has_code(status, "200"@),
        all_sendable(headers) && no_chunks(headers) && no_length(headers),
    ensures
        reply_body(wire_reply(status, headers, payload)) == (
            whole_payload(payload),
            Seq::<u8>::empty(),
        ),
{
    lemma_status(status, "200"@);
    assert forall|i: int| 0 <= i < headers.len() implies is_header(#[trigger] headers[i]) by {
        assert(sendable(headers[i]));
        lemma_front_stays(headers[i]);
    }
    lemma_lines_say_nothing(headers, None, false);
    law_headers_decide_the_body(status, headers, payload);
}

proof fn lemma_no_digit(c: char)
    requires
        !('0' <= c <= '9'),
    ensures
        digit_value(c, 10) is None,
{
}

proof fn lemma_no_digits(s: Seq<char>, at: int, max: nat)
    requires
        0 <= at < s.len(),
        !('0' <= s[at] <= '9'),
    ensures
        digits_value(s, 10, max) is Err,
    decreases s.len(),
{
    if at == s.len() - 1 {
        lemma_no_digit(s.last());
    } else {
        assert(s.drop_last()[at] == s[at]);
        lemma_no_digits(s.drop_last(), at, max);
    }
}

/// A header on the length whose value is no number undoes those before it: the body is open then.
pub proof fn law_unreadable_length_leaves_the_body_open(
    status: Seq<char>,
    before: Seq<Seq<char>>,
    name: Seq<char>,
    gap: Seq<char>,
    value: Seq<char>,
    back: Seq<char>,
    at: int,
    after: Seq<Seq<char>>,
    payload: Seq<u8>,
)
    requires
        has_code(status, "200"@),
        all_sendable(before) && no_chunks(before),
        all_sendable(after) && no_chunks(after) && no_length(after),
        is_length_line(name, gap, value, back),
        0 <= at < value.len(),
        !('0' <= value[at] <= '9') && value[at] != '+',
    ensures
        reply_body(
            wire_reply(
                status,
                before.push(length_line(name, gap, value, back)) + after,
                payload,
            ),
        ) == (whole_payload(payload), Seq::<u8>::empty()),
{
    let line = length_line(name, gap, value, back);
    let headers = before.push(line) + after;
    let core = small_text(value);
    let max = usize::MAX as nat;
    lemma_status(status, "200"@);
    lemma_length_line(name, gap, value, back, length_from(before, None));
    lemma_all_headers(before, line, after);
    assert(core[at] == small(value[at]));
    if core[0] == '+' && core.len() > 1 {
        assert(core.skip(1)[at - 1] == core[at]);
        lemma_no_digits(core.skip(1), at - 1, max);
    } else {
        lemma_no_digits(core, at, max);
    }
    lemma_headers_around(before, line, after);
    law_headers_decide_the_body(status, headers, payload);
}

proof fn lemma_chunks_line(line: Seq<char>, chunked: bool)
    requires
        names_chunks(line),
    ensures
        chunked_after(line, chunked),
{
    let te = "transfer-encoding:"@;
    let word = "chunked"@;
    let whole = small_text(line);
    let header = header_text(line);
    lemma_header_is_front(line);
    reveal_strlit("transfer-encoding:");
    reveal_strlit("chunked");
    assert(te.len() == 18 && te[17] == ':' && word.len() == 7 && word[6] == 'd');
    let at = choose|at: int| #[trigger] found_at(whole, word, at);
    assert(whole.subrange(at, at + 7)[6] == whole[at + 6]);
    assert(whole[at + 6] == small(line[at + 6]));
    lemma_small_is_no_white_space(line[at + 6]);
    lemma_keeps(line, at + 6);
    assert(whole.take(18)[17] == whole[17]);
    assert(whole[17] == small(line[17]));
    lemma_small_is_no_white_space(line[17]);
    lemma_keeps(line, 17);
    assert(header.len() > at + 6 && header.len() > 17);
    assert(header.take(18) == whole.take(18));
    assert(te.is_prefix_of(header));
    assert(header.subrange(at, at + 7) == whole.subrange(at, at + 7));
    assert(found_at(header, word, at));
}

/// A header that asks for chunks counts over every header on the length, wherever they stand: a text
/// under it that is sent in chunks is read back unchanged.
pub proof fn law_chunked_reply_is_read_back(
    status: Seq<char>,
    before: Seq<Seq<char>>,
    line: Seq<char>,
    after: Seq<Seq<char>>,
    text: Seq<char>,
    chunks: Seq<WireChunk>,
    last: Seq<char>,
    trailer: Seq<char>,
    rest: Seq<u8>,
)
    requires
        has_code(status, "200"@),
        all_sendable(before),
        sendable(line) && names_chunks(line),
        all_sendable(after),
        are_chunks(chunks),
        is_size_line(last, 0),
        !trailer.contains('\n'),
        joined(chunks) == encode_utf8(text),
    ensures
        reply_body(
            wire_reply(
                status,
                before.push(line) + after,
                wire_chunks(chunks, last, trailer) + rest,
            ),
        ) == (Ok::<Seq<char>, Seq<char>>(text), rest),
{
    let headers = before.push(line) + after;
    let payload = wire_chunks(chunks, last, trailer) + rest;
    lemma_status(status, "200"@);
    lemma_all_headers(before, line, after);
    assert forall|chunked: bool| #[trigger] chunked_after(line, chunked) by {
        lemma_chunks_line(line, chunked);
    }
    lemma_headers_around(before, line, after);
    law_headers_decide_the_body(status, headers, payload);
    law_chunks_are_read_back(chunks, last, trailer, Seq::empty(), rest);
    assert(Seq::<u8>::empty() + joined(chunks) == encode_utf8(text));
    encode_utf8_valid_utf8(text);
    encode_utf8_decode_utf8(text);
}

proof fn lemma_size_alone(
    front: Seq<char>,
    size: Seq<char>,
    gap: Seq<char>,
    extension: Seq<char>,
)
    requires
        blank(front) && blank(gap),
        size.len() > 0 && unbroken(size) && !size.contains(';'),
        extension.len() == 0 || extension[0] == ';',
    ensures
        size_text(front + size + gap + extension + seq!['\r', '\n']) == size,
{
    let end = seq!['\r', '\n'];
    let none = Seq::<char>::empty();
    let sized = size + gap;
    let whole = front + size + gap + extension + end;
    assert(!white_space(size[0]) && !white_space(size[size.len() - 1]));
    assert(!sized.contains(';')) by {
        if sized.contains(';') {
            let i = choose|i: int| 0 <= i < sized.len() && sized[i] == ';';
            if i < size.len() {
                assert(size[i] == ';');
            } else {
                assert(white_space(gap[i - size.len()]));
            }
        }
    }
    law_trimming_keeps_the_core(none, size, gap);
    assert(none + size + gap == sized);
    if extension.len() == 0 {
        assert(whole == front + size + (gap + end));
        assert(blank(gap + end));
        law_trimming_keeps_the_core(front, size, gap + end);
        law_text_before_a_mark(size, ';', none);
        law_trimming_keeps_the_core(none, size, none);
        assert(none + size + none == size);
    } else {
        let tail = extension + end;
        let rest = trimmed_end(tail);
        let core = sized + rest;
        lemma_front_stays(tail);
        assert(tail[0] == ';');
        assert(rest[0] == ';');
        assert(!white_space(rest.last())) by {
            lemma_end_is_no_white_space(tail);
        }
        let back = tail.skip(rest.len() as int);
        assert(blank(back)) by {
            lemma_cut_end_is_blank(tail);
        }
        assert(tail == rest + back);
        assert(whole == front + core + back);
        assert(core[0] == size[0] && core.last() == rest.last());
        law_trimming_keeps_the_core(front, core, back);
        assert(core == sized + seq![';'] + rest.skip(1));
        law_text_before_a_mark(sized, ';', rest.skip(1));
    }
}

proof fn lemma_end_is_no_white_space(s: Seq<char>)
    ensures
        trimmed_end(s).len() > 0 ==> !white_space(trimmed_end(s).last()),
    decreases s.len(),
{
    if s.len() > 0 && white_space(s.last()) {
        lemma_end_is_no_white_space(s.drop_last());
    }
}

proof fn lemma_cut_end_is_blank(s: Seq<char>)
    ensures
        trimmed_end(s).len() <= s.len(),
        blank(s.skip(trimmed_end(s).len() as int)),
    decreases s.len(),
{
    let k = trimmed_end(s).len() as int;
    if s.len() > 0 && white_space(s.last()) {
        let front = s.drop_last();
        lemma_cut_end_is_blank(front);
        assert forall|i: int| 0 <= i < s.skip(k).len() implies white_space(
            #[trigger] s.skip(k)[i],
        ) by {
            if k + i < front.len() {
                assert(white_space(front.skip(k)[i]));
            }
        }
    }
}

/// White space around a chunk's size changes nothing, nor does an extension behind a semicolon.
pub proof fn law_size_stands_in_white_space(
    front: Seq<char>,
    size: Seq<char>,
    gap: Seq<char>,
    extension: Seq<char>,
    n: nat,
)
    requires
        size.len() > 0 && unbroken(size) && !size.contains(';'),
        blank(front) && !front.contains('\n'),
        blank(gap) && !gap.contains('\n'),
        extension.len() == 0 || extension[0] == ';',
        !extension.contains('\n'),
        is_size_line(size, n),
    ensures
        is_size_line(front + size + gap + extension, n),
{
    let none = Seq::<char>::empty();
    let end = seq!['\r', '\n'];
    let line = front + size + gap + extension;
    lemma_size_alone(front, size, gap, extension);
    lemma_size_alone(none, size, none, none);
    assert(none + size + none + none == size);
    if line.contains('\n') {
        let i = choose|i: int| 0 <= i < line.len() && line[i] == '\n';
        let a = front.len() as int;
        let b = a + size.len();
        let c = b + gap.len();
        if i < a {
            assert(front[i] == '\n');
        } else if i < b {
            assert(!white_space(size[i - a]));
        } else if i < c {
            assert(gap[i - b] == '\n');
        } else {
            assert(extension[i - c] == '\n');
        }
    }
}

proof fn lemma_line_end_is_two_bytes()
    ensures
        wire_line(Seq::empty()).len() == 2,
{
    let text = Seq::<char>::empty() + seq!['\r', '\n'];
    assert(is_ascii_chars(text));
    is_ascii_chars_encode_utf8(text);
}

/// A chunk adds its bytes to the body, and nothing else; the rest is read as it would be without it.
pub proof fn law_chunk_adds_its_bytes(chunk: WireChunk, rest: Seq<u8>, collected: Seq<u8>)
    requires
        chunk.data.len() > 0,
        is_size_line(chunk.size_line, chunk.data.len()),
    ensures
        chunked_body(wire_chunk(chunk) + rest, collected) == chunked_body(
            rest,
            collected + chunk.data,
        ),
{
    let data = chunk.data;
    let end = wire_line(Seq::empty());
    let tail = data + (end + rest);
    assert(wire_chunk(chunk) + rest == wire_line(chunk.size_line) + tail);
    law_line_is_read_back(chunk.size_line, tail);
    lemma_line_end_is_two_bytes();
    assert(tail.take(data.len() as int) == data);
    assert(tail.skip(data.len() as int + 2) == rest);
}

/// A chunk that ends too early is refused: in its bytes, or in the line end behind them.
pub proof fn law_short_chunk_is_refused(
    line: Seq<char>,
    size: nat,
    rest: Seq<u8>,
    collected: Seq<u8>,
)
    requires
        size > 0,
        is_size_line(line, size),
        rest.len() < size + 2,
    ensures
        chunked_body(wire_line(line) + rest, collected) == (
            Err::<Seq<char>, Seq<char>>(
                if rest.len() < size {
                    "chunk data: "@ + "failed to fill whole buffer"@
                } else {
                    "chunk crlf: "@ + "failed to fill whole buffer"@
                },
            ),
            Seq::<u8>::empty(),
        ),
{
    law_line_is_read_back(line, rest);
}

/// The body that the last chunk ends is what was collected, as text; bytes that are no text are
/// refused.
pub proof fn law_last_chunk_ends_the_body(
    line: Seq<char>,
    trailer: Seq<char>,
    rest: Seq<u8>,
    collected: Seq<u8>,
)
    requires
        is_size_line(line, 0),
        !trailer.contains('\n'),
    ensures
        chunked_body(wire_line(line) + wire_line(trailer) + rest, collected) == (
            if valid_utf8(collected) {
                Ok::<Seq<char>, Seq<char>>(decode_utf8(collected))
            } else {
                Err("utf-8: "@ + utf8_error_text(collected))
            },
            rest,
        ),
{
    assert(wire_line(line) + wire_line(trailer) + rest == wire_line(line) + (wire_line(trailer)
        + rest));
    law_line_is_read_back(line, wire_line(trailer) + rest);
    law_line_is_read_back(trailer, rest);
}

/// The request is five lines: what is asked for, the watcher's own address, that JSON is wanted and
/// that the connection ends with the reply, and an empty line.
pub proof fn law_request_lines(port: u16, path: Seq<char>)
    ensures
        ({
            let end = seq!['\r', '\n'];
            request_text(port, path) == ("GET "@ + path + " HTTP/1.1"@ + end) + ("Host: 127.0.0.1:"@
                + decimal(port as nat) + end) + ("Accept: application/json"@ + end) + (
            "Connection: close"@ + end) + end
        }),
{
    reveal_strlit(" HTTP/1.1\r\nHost: 127.0.0.1:");
    reveal_strlit(" HTTP/1.1");
    reveal_strlit("Host: 127.0.0.1:");
    reveal_strlit("\r\nAccept: application/json\r\nConnection: close\r\n\r\n");
    reveal_strlit("Accept: application/json");
    reveal_strlit("Connection: close");
    let end = seq!['\r', '\n'];
    assert(" HTTP/1.1\r\nHost: 127.0.0.1:"@ == " HTTP/1.1"@ + end + "Host: 127.0.0.1:"@);
    assert("\r\nAccept: application/json\r\nConnection: close\r\n\r\n"@ == end
        + "Accept: application/json"@ + end + "Connection: close"@ + end + end);
    assert(request_text(port, path) == ("GET "@ + path + " HTTP/1.1"@ + end) + (
    "Host: 127.0.0.1:"@ + decimal(port as nat) + end) + ("Accept: application/json"@ + end) + (
    "Connection: close"@ + end) + end);
}

} // verus!
