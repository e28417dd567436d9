//! Bytes that have arrived, read as lines, blocks or text.

use vstd::prelude::*;
use vstd::string::*;
use vstd::utf8::*;

verus! {

/// The message with which `String::from_utf8` refuses `bytes`.
pub uninterp spec fn utf8_error_text(bytes: Seq<u8>) -> Seq<char>;

/// `String::from_utf8`: bytes that are valid UTF-8 become the text that they encode; others
/// are refused, and the error's message depends on the bytes alone. What the message says
/// of them is left unsaid.
#[verifier::external_body]
pub(crate) fn text_from_utf8(bytes: Vec<u8>) -> (r: Result<String, String>)
    ensures
        r is Ok <==> valid_utf8(bytes@),
        r is Ok ==> r->Ok_0@ == decode_utf8(bytes@),
        r is Err ==> r->Err_0@ == utf8_error_text(bytes@),
{
    String::from_utf8(bytes).map_err(|e| e.to_string())
}

/// A result whose text and message are taken as sequences of characters.
pub open spec fn text_result(r: Result<String, String>) -> Result<Seq<char>, Seq<char>> {
    match r {
        Ok(s) => Ok(s@),
        Err(e) => Err(e@),
    }
}

/// How many bytes the first line takes, its line feed included.
pub open spec fn line_len(bytes: Seq<u8>) -> nat
    decreases bytes.len(),
{
    if bytes.len() == 0 {
        0
    } else if bytes[0] == 10 {
        1
    } else {
        1 + line_len(bytes.skip(1))
    }
}

/// The first line, with its line feed; all bytes where there is no line feed.
pub open spec fn line_of(bytes: Seq<u8>) -> Seq<u8> {
    bytes.take(line_len(bytes) as int)
}

/// The bytes behind the first line.
pub open spec fn after_line(bytes: Seq<u8>) -> Seq<u8> {
    bytes.skip(line_len(bytes) as int)
}

/// What refuses bytes that are to be text and are not valid UTF-8.
pub open spec fn not_text() -> Seq<char> {
    "stream did not contain valid UTF-8"@
}

/// What refuses a block of more bytes than there are.
pub open spec fn too_short() -> Seq<char> {
    "failed to fill whole buffer"@
}

/// `bytes` as text, or the refusal of bytes that are not.
pub open spec fn read_text(bytes: Seq<u8>) -> Result<Seq<char>, Seq<char>> {
    if valid_utf8(bytes) {
        Ok(decode_utf8(bytes))
    } else {
        Err(not_text())
    }
}

pub proof fn lemma_line_len(bytes: Seq<u8>)
    ensures
        line_len(bytes) <= bytes.len(),
        bytes.len() > 0 ==> line_len(bytes) > 0,
    decreases bytes.len(),
{
    if bytes.len() > 0 && bytes[0] != 10 {
        lemma_line_len(bytes.skip(1));
    }
}

/// Bytes in memory, read from the front.
pub struct ByteReader {
    bytes: Vec<u8>,
    at: usize,
}

impl View for ByteReader {
    type V = Seq<u8>;

    /// The bytes that are still unread.
    closed spec fn view(&self) -> Seq<u8> {
        self.bytes@.skip(self.at as int)
    }
}

impl ByteReader {
    #[verifier::type_invariant]
    spec fn inside(self) -> bool {
        self.at <= self.bytes@.len()
    }

    /// A reader at the front of `bytes`.
    pub fn new(bytes: Vec<u8>) -> (r: Self)
        ensures
            r@ == bytes@,
    {
        let r = ByteReader { bytes, at: 0 };
        assert(r@ == bytes@);
        r
    }

    /// Takes the next `n` bytes off; `n` bytes must be there.
    fn take_bytes(&mut self, n: usize) -> (r: Vec<u8>)
        requires
            n <= old(self)@.len(),
        ensures
            r@ == old(self)@.take(n as int),
            final(self)@ == old(self)@.skip(n as int),
    {
        proof {
            use_type_invariant(&*self);
        }
        let total: usize = self.bytes.len();
        let from: usize = self.at;
        assert(from + n <= total);
        let to: usize = from + n;
        let mut out: Vec<u8> = Vec::new();
        let mut i: usize = from;
        while i < to
            invariant
                self.at == from,
                from <= i <= to,
                to <= self.bytes@.len(),
                self.bytes == old(self).bytes,
                out@ == self.bytes@.subrange(from as int, i as int),
            decreases to - i,
        {
            out.push(self.bytes[i]);
            i = i + 1;
        }
        self.at = to;
        assert(out@ == old(self)@.take(n as int));
        assert(self@ == old(self)@.skip(n as int));
        out
    }

    /// How many bytes the first unread line takes.
    fn next_line_len(&self) -> (n: usize)
        ensures
            n == line_len(self@),
            n <= self@.len(),
    {
        proof {
            use_type_invariant(&*self);
            lemma_line_len(self@);
        }
        let mut i: usize = self.at;
        while i < self.bytes.len() && self.bytes[i] != 10
            invariant
                self.at <= i <= self.bytes@.len(),
                line_len(self@) == i - self.at + line_len(self.bytes@.skip(i as int)),
            decreases self.bytes@.len() - i,
        {
            assert(self.bytes@.skip(i as int).skip(1) == self.bytes@.skip(i + 1));
            i = i + 1;
        }
        if i < self.bytes.len() {
            i + 1 - self.at
        } else {
            i - self.at
        }
    }

    /// Reads through the next line feed, or to the end where there is none.
    pub fn read_line(&mut self) -> (r: Result<String, String>)
        ensures
            final(self)@ == after_line(old(self)@),
            text_result(r) == read_text(line_of(old(self)@)),
            r is Ok <==> valid_utf8(line_of(old(self)@)),
            r is Ok ==> r->Ok_0@ == decode_utf8(line_of(old(self)@)),
            r is Err ==> r->Err_0@ == "stream did not contain valid UTF-8"@,
    {
        let n = self.next_line_len();
        let line = self.take_bytes(n);
        match text_from_utf8(line) {
            Ok(s) => Ok(s),
            Err(_) => Err("stream did not contain valid UTF-8".to_owned()),
        }
    }

    /// Reads `n` bytes, or refuses and leaves nothing unread where there are fewer.
    pub fn read_exact(&mut self, n: usize) -> (r: Result<Vec<u8>, String>)
        ensures
            n <= old(self)@.len() ==> r is Ok && r->Ok_0@ == old(self)@.take(n as int)
                && final(self)@ == old(self)@.skip(n as int),
            n > old(self)@.len() ==> r is Err && r->Err_0@ == too_short() && final(self)@
                == Seq::<u8>::empty(),
    {
        proof {
            use_type_invariant(&*self);
        }
        let left: usize = self.bytes.len() - self.at;
        if n <= left {
            Ok(self.take_bytes(n))
        } else {
            let _ = self.take_bytes(left);
            Err("failed to fill whole buffer".to_owned())
        }
    }

    /// Reads everything that is left.
    pub fn read_to_string(&mut self) -> (r: Result<String, String>)
        ensures
            final(self)@ == Seq::<u8>::empty(),
            text_result(r) == read_text(old(self)@),
            r is Ok <==> valid_utf8(old(self)@),
            r is Ok ==> r->Ok_0@ == decode_utf8(old(self)@),
            r is Err ==> r->Err_0@ == "stream did not contain valid UTF-8"@,
    {
        proof {
            use_type_invariant(&*self);
        }
        let left: usize = self.bytes.len() - self.at;
        let all = self.take_bytes(left);
        assert(all@ == old(self)@);
        match text_from_utf8(all) {
            Ok(s) => Ok(s),
            Err(_) => Err("stream did not contain valid UTF-8".to_owned()),
        }
    }
}

/// A line goes through its line feed, and what follows stays; without a line feed it goes to the end.
/// So cutting lines off loses nothing.
pub proof fn law_line_goes_through_its_line_feed(front: Seq<u8>, rest: Seq<u8>)
    requires
        !front.contains(10),
    ensures
        line_of(front.push(10) + rest) == front.push(10),
        after_line(front.push(10) + rest) == rest,
        line_of(front) == front,
        after_line(front) == Seq::<u8>::empty(),
    decreases front.len(),
{
    let whole = front.push(10) + rest;
    if front.len() > 0 {
        let tail = front.skip(1);
        assert(front.contains(front[0]));
        assert(!tail.contains(10)) by {
            if tail.contains(10) {
                let i = choose|i: int| 0 <= i < tail.len() && tail[i] == 10;
                assert(front[i + 1] == 10);
            }
        }
        law_line_goes_through_its_line_feed(tail, rest);
        assert(whole[0] == front[0]);
        assert(whole.skip(1) == tail.push(10) + rest);
        let inner = tail.push(10) + rest;
        lemma_line_len(inner);
        lemma_line_len(tail);
        assert(line_of(inner).len() == line_len(inner));
        assert(line_of(tail).len() == line_len(tail));
        assert(line_len(whole) == front.len() + 1);
        assert(line_len(front) == front.len());
    } else {
        assert(whole[0] == 10);
        assert(line_len(whole) == 1);
    }
    assert(whole.take(front.len() as int + 1) == front.push(10));
    assert(whole.skip(front.len() as int + 1) == rest);
    assert(front.take(front.len() as int) == front);
}

} // verus!
