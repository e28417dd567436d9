//! What holds of the text operations: how they come apart and go together on texts that are put
//! together from pieces.

use vstd::prelude::*;

use crate::text::{
    after_word, first_word, found_at, occurs_in, second_word_of, small_text, text_before, trimmed,
    trimmed_end, trimmed_start, white_space,
};

verus! {

/// All of `s` is white space.
pub open spec fn blank(s: Seq<char>) -> bool {
    forall|i: int| 0 <= i < s.len() ==> white_space(#[trigger] s[i])
}

/// Nothing of `s` is white space.
pub open spec fn unbroken(s: Seq<char>) -> bool {
    forall|i: int| 0 <= i < s.len() ==> !white_space(#[trigger] s[i])
}

/// Among the ASCII characters, white space is the blank, the tabs, the line ends and the form feed.
pub proof fn law_ascii_white_space(c: char)
    requires
        (c as u32) < 0x80,
    ensures
        white_space(c) <==> c == ' ' || c == '\t' || c == '\n' || c == '\r' || c == '\x0b' || c
            == '\x0c',
{
}

proof fn lemma_start(front: Seq<char>, rest: Seq<char>)
    requires
        blank(front),
    ensures
        trimmed_start(front + rest) == trimmed_start(rest),
    decreases front.len(),
{
    if front.len() == 0 {
        assert(front + rest == rest);
    } else {
        assert(white_space(front[0]));
        assert((front + rest)[0] == front[0]);
        assert((front + rest).skip(1) == front.skip(1) + rest);
        assert forall|i: int| 0 <= i < front.skip(1).len() implies white_space(
            #[trigger] front.skip(1)[i],
        ) by {
            assert(white_space(front[i + 1]));
        }
        lemma_start(front.skip(1), rest);
    }
}

proof fn lemma_end(rest: Seq<char>, back: Seq<char>)
    requires
        blank(back),
    ensures
        trimmed_end(rest + back) == trimmed_end(rest),
    decreases back.len(),
{
    if back.len() == 0 {
        assert(rest + back == rest);
    } else {
        assert(white_space(back[back.len() - 1]));
        assert((rest + back).last() == back.last());
        assert((rest + back).drop_last() == rest + back.drop_last());
        assert forall|i: int| 0 <= i < back.drop_last().len() implies white_space(
            #[trigger] back.drop_last()[i],
        ) by {
            assert(white_space(back[i]));
        }
        lemma_end(rest, back.drop_last());
    }
}

/// Trimming takes the white space around a text away, and nothing of the text between its first and
/// last characters that are none; trimming the end leaves what stands in front.
pub proof fn law_trimming_keeps_the_core(front: Seq<char>, core: Seq<char>, back: Seq<char>)
    requires
        blank(front),
        blank(back),
        core.len() > 0,
        !white_space(core[0]),
        !white_space(core.last()),
    ensures
        trimmed(front + core + back) == core,
        trimmed_end(front + core + back) == front + core,
        trimmed_start(front + core + back) == core + back,
{
    assert(front + core + back == front + (core + back));
    lemma_start(front, core + back);
    assert((core + back)[0] == core[0]);
    lemma_end(core, back);
    lemma_end(front + core, back);
    assert((front + core).last() == core.last());
}

/// Nothing is left of a text of white space.
pub proof fn law_blank_text_is_trimmed_away(s: Seq<char>)
    requires
        blank(s),
    ensures
        trimmed(s) == Seq::<char>::empty(),
        trimmed_end(s) == Seq::<char>::empty(),
{
    let none = Seq::<char>::empty();
    assert(s + none == s);
    assert(none + s == s);
    lemma_start(s, none);
    lemma_end(none, s);
}

/// The small letters of a text stand where its letters stand: an ASCII capital becomes the letter
/// 32 places behind it, and everything else stays.
pub proof fn law_small_letters(s: Seq<char>, i: int)
    requires
        0 <= i < s.len(),
    ensures
        small_text(s).len() == s.len(),
        'A' <= s[i] <= 'Z' ==> small_text(s)[i] as u32 == s[i] as u32 + 32,
        !('A' <= s[i] <= 'Z') ==> small_text(s)[i] == s[i],
{
}

/// A pattern occurs in exactly those texts that can be cut into something, the pattern, and
/// something.
pub proof fn law_occurrence(pattern: Seq<char>, s: Seq<char>)
    ensures
        occurs_in(pattern, s) <==> exists|a: Seq<char>, b: Seq<char>|
            s == #[trigger] (a + pattern + b),
{
    if occurs_in(pattern, s) {
        let at = choose|at: int| #[trigger] found_at(s, pattern, at);
        let a = s.take(at);
        let b = s.skip(at + pattern.len());
        assert(s == a + pattern + b);
    }
    if exists|a: Seq<char>, b: Seq<char>| s == #[trigger] (a + pattern + b) {
        let (a, b) = choose|a: Seq<char>, b: Seq<char>| s == #[trigger] (a + pattern + b);
        assert(s.subrange(a.len() as int, (a.len() + pattern.len()) as int) == pattern);
        assert(found_at(s, pattern, a.len() as int));
    }
}

/// What stands before a mark is what was put there, wherever the text goes on behind it; without
/// the mark it is the whole text.
pub proof fn law_text_before_a_mark(s: Seq<char>, mark: char, rest: Seq<char>)
    requires
        !s.contains(mark),
    ensures
        text_before(s + seq![mark] + rest, mark) == s,
        text_before(s, mark) == s,
    decreases s.len(),
{
    let whole = s + seq![mark] + rest;
    if s.len() > 0 {
        assert(s.contains(s[0]));
        assert(whole[0] == s[0]);
        assert(whole.skip(1) == s.skip(1) + seq![mark] + rest);
        assert(!s.skip(1).contains(mark)) by {
            if s.skip(1).contains(mark) {
                let i = choose|i: int| 0 <= i < s.skip(1).len() && s.skip(1)[i] == mark;
                assert(s[i + 1] == mark);
            }
        }
        law_text_before_a_mark(s.skip(1), mark, rest);
        assert(seq![s[0]] + s.skip(1) == s);
    } else {
        assert(whole[0] == mark);
    }
}

proof fn lemma_word_ends(word: Seq<char>, rest: Seq<char>)
    requires
        unbroken(word),
        rest.len() == 0 || white_space(rest[0]),
    ensures
        after_word(word + rest) == rest,
        first_word(word + rest) == word,
    decreases word.len(),
{
    let whole = word + rest;
    if word.len() == 0 {
        assert(whole == rest);
    } else {
        assert(!white_space(word[0]));
        assert(whole[0] == word[0]);
        assert(whole.skip(1) == word.skip(1) + rest);
        assert forall|i: int| 0 <= i < word.skip(1).len() implies !white_space(
            #[trigger] word.skip(1)[i],
        ) by {
            assert(!white_space(word[i + 1]));
        }
        lemma_word_ends(word.skip(1), rest);
    }
    assert(whole.take(whole.len() - rest.len()) == word);
}

/// The second word of a text is the second of the runs of characters that white space parts,
/// whatever stands around and behind it.
pub proof fn law_second_word(
    front: Seq<char>,
    first: Seq<char>,
    gap: Seq<char>,
    second: Seq<char>,
    rest: Seq<char>,
)
    requires
        blank(front),
        unbroken(first),
        first.len() > 0,
        blank(gap),
        gap.len() > 0,
        unbroken(second),
        second.len() > 0,
        rest.len() == 0 || white_space(rest[0]),
    ensures
        second_word_of(front + first + gap + second + rest) == second,
{
    let tail = second + rest;
    let behind = gap + tail;
    let whole = first + behind;
    assert(front + first + gap + second + rest == front + whole);
    lemma_start(front, whole);
    assert(!white_space(first[0]) && whole[0] == first[0]);
    assert(trimmed_start(whole) == whole);
    assert(white_space(gap[0]) && behind[0] == gap[0]);
    lemma_word_ends(first, behind);
    lemma_start(gap, tail);
    assert(!white_space(second[0]) && tail[0] == second[0]);
    assert(trimmed_start(tail) == tail);
    lemma_word_ends(second, rest);
}

/// A text of fewer than two words has no second one.
pub proof fn law_no_second_word(front: Seq<char>, first: Seq<char>, back: Seq<char>)
    requires
        blank(front),
        unbroken(first),
        blank(back),
    ensures
        second_word_of(front + first + back) == Seq::<char>::empty(),
{
    let whole = first + back;
    assert(front + first + back == front + whole);
    lemma_start(front, whole);
    if first.len() > 0 {
        assert(!white_space(first[0]) && whole[0] == first[0]);
        assert(trimmed_start(whole) == whole);
        assert(back.len() > 0 ==> white_space(back[0]));
        lemma_word_ends(first, back);
        lemma_start(back, Seq::empty());
        assert(back + Seq::<char>::empty() == back);
    } else {
        assert(whole == back);
        lemma_start(back, Seq::empty());
        assert(back + Seq::<char>::empty() == back);
    }
}

} // verus!
