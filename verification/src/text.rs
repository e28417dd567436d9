//! Character-level text operations, each specified over sequences of `char`.

use vstd::prelude::*;
use vstd::string::*;

verus! {

/// `String::push`: appends the given character to the end of the string.
pub assume_specification[ String::push ](s: &mut String, c: char)
    ensures
        final(s)@ == old(s)@.push(c),
;

/// The texts of a list of strings.
pub open spec fn texts(list: Seq<String>) -> Seq<Seq<char>> {
    list.map_values(|s: String| s@)
}

/// The text of an optional string.
pub open spec fn maybe_text(s: Option<String>) -> Option<Seq<char>> {
    match s {
        Some(s) => Some(s@),
        None => None,
    }
}

/// The characters with the Unicode property `White_Space`.
pub open spec fn white_space(c: char) -> bool {
    let u = c as u32;
    ||| 0x9 <= u <= 0xd
    ||| u == 0x20
    ||| u == 0x85
    ||| u == 0xa0
    ||| u == 0x1680
    ||| 0x2000 <= u <= 0x200a
    ||| u == 0x2028
    ||| u == 0x2029
    ||| u == 0x202f
    ||| u == 0x205f
    ||| u == 0x3000
}

/// Tells whether `c` has the Unicode property `White_Space`.
pub fn is_white_space(c: char) -> (r: bool)
    ensures
        r == white_space(c),
{
    let u: u32 = c as u32;
    (0x9 <= u && u <= 0xd) || u == 0x20 || u == 0x85 || u == 0xa0 || u == 0x1680 || (0x2000 <= u
        && u <= 0x200a) || u == 0x2028 || u == 0x2029 || u == 0x202f || u == 0x205f || u == 0x3000
}

/// `s` without its leading white space.
pub open spec fn trimmed_start(s: Seq<char>) -> Seq<char>
    decreases s.len(),
{
    if s.len() > 0 && white_space(s[0]) {
        trimmed_start(s.skip(1))
    } else {
        s
    }
}

/// `s` without its trailing white space.
pub open spec fn trimmed_end(s: Seq<char>) -> Seq<char>
    decreases s.len(),
{
    if s.len() > 0 && white_space(s.last()) {
        trimmed_end(s.drop_last())
    } else {
        s
    }
}

/// `s` without its leading and trailing white space.
pub open spec fn trimmed(s: Seq<char>) -> Seq<char> {
    trimmed_end(trimmed_start(s))
}

/// The characters of `s`, in order.
pub fn chars_of(s: &str) -> (r: Vec<char>)
    ensures
        r@ == s@,
{
    let mut out: Vec<char> = Vec::new();
    for c in it: s.chars()
        invariant
            out@ == it.seq().take(it.index()),
            it.seq() == s@,
    {
        out.push(c);
    }
    out
}

/// The index of the first character at or after `from` that is not white space.
pub fn skip_white_space(chars: &Vec<char>, from: usize) -> (r: usize)
    requires
        from <= chars@.len(),
    ensures
        from <= r <= chars@.len(),
        trimmed_start(chars@.skip(from as int)) == chars@.skip(r as int),
{
    let mut i: usize = from;
    while i < chars.len() && is_white_space(chars[i])
        invariant
            from <= i <= chars@.len(),
            trimmed_start(chars@.skip(from as int)) == trimmed_start(chars@.skip(i as int)),
        decreases chars@.len() - i,
    {
        assert(chars@.skip(i as int).skip(1) == chars@.skip(i + 1));
        i = i + 1;
    }
    i
}

/// The index just behind the last character of `chars[from..]` that is not white space.
fn end_of_text(chars: &Vec<char>, from: usize) -> (r: usize)
    requires
        from <= chars@.len(),
    ensures
        from <= r <= chars@.len(),
        trimmed_end(chars@.skip(from as int)) == chars@.subrange(from as int, r as int),
{
    let mut j: usize = chars.len();
    assert(chars@.skip(from as int) == chars@.subrange(from as int, j as int));
    while j > from && is_white_space(chars[j - 1])
        invariant
            from <= j <= chars@.len(),
            trimmed_end(chars@.skip(from as int)) == trimmed_end(
                chars@.subrange(from as int, j as int),
            ),
        decreases j,
    {
        assert(chars@.subrange(from as int, j as int).drop_last() == chars@.subrange(
            from as int,
            j - 1,
        ));
        j = j - 1;
    }
    j
}

/// `s` without leading and trailing white space.
pub fn trim(s: &str) -> (r: String)
    ensures
        r@ == trimmed(s@),
{
    let chars = chars_of(s);
    assert(chars@.skip(0) == s@);
    let from = skip_white_space(&chars, 0);
    let to = end_of_text(&chars, from);
    s.substring_char(from, to).to_owned()
}

/// `s` without trailing white space.
pub fn trim_end(s: &str) -> (r: String)
    ensures
        r@ == trimmed_end(s@),
{
    let chars = chars_of(s);
    assert(chars@.skip(0) == s@);
    let to = end_of_text(&chars, 0);
    s.substring_char(0, to).to_owned()
}

/// Tells whether `a` and `b` hold the same characters.
pub fn same_text(a: &str, b: &str) -> (r: bool)
    ensures
        r == (a@ == b@),
{
    a.to_owned() == b.to_owned()
}

/// Tells whether `s` is one of the texts in `list`.
pub fn is_among(list: &Vec<String>, s: &str) -> (r: bool)
    ensures
        r == texts(list@).contains(s@),
{
    let mut i: usize = 0;
    while i < list.len()
        invariant
            i <= list@.len(),
            forall|j: int| 0 <= j < i ==> texts(list@)[j] != s@,
        decreases list@.len() - i,
    {
        if same_text(list[i].as_str(), s) {
            assert(texts(list@)[i as int] == s@);
            return true;
        }
        i = i + 1;
    }
    false
}

/// Tells whether `chars[at..]` begins with `pattern`.
fn occurs_at(chars: &Vec<char>, pattern: &Vec<char>, at: usize) -> (r: bool)
    requires
        at + pattern@.len() <= chars@.len(),
    ensures
        r == (chars@.subrange(at as int, at + pattern@.len()) == pattern@),
{
    let total: usize = chars.len();
    let mut k: usize = 0;
    while k < pattern.len()
        invariant
            total == chars@.len(),
            at + pattern@.len() <= total,
            k <= pattern@.len(),
            forall|j: int| 0 <= j < k ==> chars@[at + j] == pattern@[j],
        decreases pattern@.len() - k,
    {
        if chars[at + k] != pattern[k] {
            assert(chars@.subrange(at as int, at + pattern@.len())[k as int] != pattern@[k as int]);
            return false;
        }
        k = k + 1;
    }
    assert(chars@.subrange(at as int, at + pattern@.len()) == pattern@);
    true
}

/// Tells whether `s` begins with `prefix`.
pub fn starts_with(s: &str, prefix: &str) -> (r: bool)
    ensures
        r == prefix@.is_prefix_of(s@),
{
    let chars = chars_of(s);
    let pattern = chars_of(prefix);
    pattern.len() <= chars.len() && occurs_at(&chars, &pattern, 0)
}

/// `s` without `prefix`, where `s` begins with it.
pub fn strip_prefix(s: &str, prefix: &str) -> (r: Option<String>)
    ensures
        r is Some <==> prefix@.is_prefix_of(s@),
        r is Some ==> r->0@ == s@.skip(prefix@.len() as int),
{
    if starts_with(s, prefix) {
        let from = prefix.unicode_len();
        let to = s.unicode_len();
        Some(s.substring_char(from, to).to_owned())
    } else {
        None
    }
}

/// `pattern` occurs in `s` at index `at`.
pub open spec fn found_at(s: Seq<char>, pattern: Seq<char>, at: int) -> bool {
    0 <= at <= s.len() - pattern.len() && s.subrange(at, at + pattern.len()) == pattern
}

/// `pattern` occurs somewhere in `s`.
pub open spec fn occurs_in(pattern: Seq<char>, s: Seq<char>) -> bool {
    exists|at: int| #[trigger] found_at(s, pattern, at)
}

/// Tells whether `pattern` occurs somewhere in `s`.
pub fn contains(s: &str, pattern: &str) -> (r: bool)
    ensures
        r == occurs_in(pattern@, s@),
{
    let chars = chars_of(s);
    let wanted = chars_of(pattern);
    if wanted.len() > chars.len() {
        return false;
    }
    let last: usize = chars.len() - wanted.len();
    let mut i: usize = 0;
    while i <= last
        invariant
            chars@ == s@,
            wanted@ == pattern@,
            last + wanted@.len() == chars@.len(),
            i <= last + 1,
            forall|at: int| 0 <= at < i ==> !#[trigger] found_at(s@, pattern@, at),
        decreases last + 1 - i,
    {
        if occurs_at(&chars, &wanted, i) {
            assert(found_at(s@, pattern@, i as int));
            return true;
        }
        if i == last {
            return false;
        }
        i = i + 1;
    }
    false
}

/// `c` with an ASCII capital made small.
pub open spec fn small(c: char) -> char {
    if 'A' <= c <= 'Z' {
        (c as u32 + 32) as char
    } else {
        c
    }
}

/// `s` with every ASCII capital made small.
pub open spec fn small_text(s: Seq<char>) -> Seq<char> {
    s.map_values(|c: char| small(c))
}

/// `s` with every ASCII capital made small.
pub fn to_ascii_lowercase(s: &str) -> (r: String)
    ensures
        r@ == small_text(s@),
{
    let chars = chars_of(s);
    let mut out = String::new();
    let mut i: usize = 0;
    while i < chars.len()
        invariant
            chars@ == s@,
            i <= chars@.len(),
            out@ == small_text(s@.take(i as int)),
        decreases chars@.len() - i,
    {
        let c = chars[i];
        let d = if 'A' <= c && c <= 'Z' {
            (c as u8 + 32) as char
        } else {
            c
        };
        assert(d == small(c));
        out.push(d);
        assert(s@.take(i + 1) == s@.take(i as int).push(c));
        assert(out@ == small_text(s@.take(i + 1)));
        i = i + 1;
    }
    assert(s@.take(i as int) == s@);
    out
}

/// What is left of `s` behind its leading characters that are not white space.
pub open spec fn after_word(s: Seq<char>) -> Seq<char>
    decreases s.len(),
{
    if s.len() > 0 && !white_space(s[0]) {
        after_word(s.skip(1))
    } else {
        s
    }
}

/// The leading characters of `s` that are not white space.
pub open spec fn first_word(s: Seq<char>) -> Seq<char> {
    s.take(s.len() - after_word(s).len())
}

/// The second of the white-space separated words of `s`; empty where there is none.
pub open spec fn second_word_of(s: Seq<char>) -> Seq<char> {
    first_word(trimmed_start(after_word(trimmed_start(s))))
}

/// The index of the first white space at or after `from`.
fn skip_word(chars: &Vec<char>, from: usize) -> (r: usize)
    requires
        from <= chars@.len(),
    ensures
        from <= r <= chars@.len(),
        after_word(chars@.skip(from as int)) == chars@.skip(r as int),
{
    let mut i: usize = from;
    while i < chars.len() && !is_white_space(chars[i])
        invariant
            from <= i <= chars@.len(),
            after_word(chars@.skip(from as int)) == after_word(chars@.skip(i as int)),
        decreases chars@.len() - i,
    {
        assert(chars@.skip(i as int).skip(1) == chars@.skip(i + 1));
        i = i + 1;
    }
    i
}

/// The second of the white-space separated words of `s`; empty where there is none.
pub fn second_word(s: &str) -> (r: String)
    ensures
        r@ == second_word_of(s@),
{
    let chars = chars_of(s);
    assert(chars@.skip(0) == s@);
    let a = skip_white_space(&chars, 0);
    let b = skip_word(&chars, a);
    let c = skip_white_space(&chars, b);
    let d = skip_word(&chars, c);
    assert(chars@.skip(c as int).take(d - c) == s@.subrange(c as int, d as int));
    s.substring_char(c, d).to_owned()
}

/// What stands in `s` before the first `mark`; all of `s` where there is none.
pub open spec fn text_before(s: Seq<char>, mark: char) -> Seq<char>
    decreases s.len(),
{
    if s.len() == 0 || s[0] == mark {
        Seq::empty()
    } else {
        seq![s[0]] + text_before(s.skip(1), mark)
    }
}

/// What stands in `s` before the first `mark`; all of `s` where there is none.
pub fn before(s: &str, mark: char) -> (r: String)
    ensures
        r@ == text_before(s@, mark),
{
    let chars = chars_of(s);
    let mut i: usize = 0;
    assert(chars@.take(0) + text_before(chars@.skip(0), mark) == text_before(s@, mark)) by {
        assert(chars@.skip(0) == s@);
    }
    while i < chars.len() && chars[i] != mark
        invariant
            chars@ == s@,
            i <= chars@.len(),
            text_before(s@, mark) == chars@.take(i as int) + text_before(
                chars@.skip(i as int),
                mark,
            ),
        decreases chars@.len() - i,
    {
        assert(chars@.skip(i as int).skip(1) == chars@.skip(i + 1));
        assert(chars@.take(i as int) + (seq![chars@[i as int]] + text_before(
            chars@.skip(i + 1),
            mark,
        )) == chars@.take(i + 1) + text_before(chars@.skip(i + 1), mark));
        i = i + 1;
    }
    assert(text_before(s@, mark) == s@.subrange(0, i as int));
    s.substring_char(0, i).to_owned()
}

} // verus!
