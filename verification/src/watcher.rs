//! The watcher's process and what it writes.

use vstd::prelude::*;
use vstd::string::*;

use crate::text::{chars_of, trim, trimmed};

verus! {

/// The name of the watcher's executable beside that of the tray application.
pub const WATCHER_EXE: &'static str = "podping-gossipwatcher.exe";

/// What a look at the child process shows.
#[derive(Clone, Copy, Debug, PartialEq, Eq, Structural)]
pub enum ChildPoll {
    Running,
    Exited,
    /// Its state could not be found out.
    Failed,
}

/// Which executable is to be started.
#[derive(Debug, PartialEq, Eq)]
pub enum ExeChoice {
    /// The one beside the tray application.
    BesideTray,
    /// The file at this path.
    File(String),
    /// None, for this reason.
    Refused(String),
}

/// [`ExeChoice`], as sequences.
pub enum ExeChoiceView {
    BesideTray,
    File(Seq<char>),
    Refused(Seq<char>),
}

impl View for ExeChoice {
    type V = ExeChoiceView;

    open spec fn view(&self) -> ExeChoiceView {
        match self {
            ExeChoice::BesideTray => ExeChoiceView::BesideTray,
            ExeChoice::File(p) => ExeChoiceView::File(p@),
            ExeChoice::Refused(e) => ExeChoiceView::Refused(e@),
        }
    }
}

/// The executable for the setting `custom`: empty stands for the one beside the tray application.
pub open spec fn chosen_exe(custom: Seq<char>, is_file: bool) -> ExeChoiceView {
    let path = trimmed(custom);
    if path.len() == 0 {
        ExeChoiceView::BesideTray
    } else if is_file {
        ExeChoiceView::File(path)
    } else {
        ExeChoiceView::Refused("podping-gossipwatcher executable not found at "@ + path)
    }
}

/// A watcher with its executable, and its child process while there is one.
pub struct Watcher<E, C> {
    exe: E,
    child: Option<C>,
}

impl<E, C> Watcher<E, C> {
    /// The executable that is started next.
    pub closed spec fn spec_exe(&self) -> E {
        self.exe
    }

    /// The child process, while there is one.
    pub closed spec fn spec_child(&self) -> Option<C> {
        self.child
    }

    /// Says whether the executable beside the tray application can be used. `candidate` is its
    /// path, where the tray application lies in a directory at all.
    pub fn locate_exe(candidate: Option<String>, exists: bool) -> (r: Result<String, String>)
        ensures
            candidate is Some && exists ==> r is Ok && r->Ok_0@ == candidate->0@,
            candidate is Some && !exists ==> r is Err && r->Err_0@
                == "podping-gossipwatcher.exe not found next to tray exe at "@ + candidate->0@,
            candidate is None ==> r is Err && r->Err_0@ == "tray exe has no parent"@,
    {
        match candidate {
            None => Err("tray exe has no parent".to_owned()),
            Some(path) => if exists {
                Ok(path)
            } else {
                Err(
                    "podping-gossipwatcher.exe not found next to tray exe at ".to_owned().concat(
                        path.as_str(),
                    ),
                )
            },
        }
    }

    /// Chooses the executable for the setting `custom`. `is_file` says whether the path in it is
    /// that of a file.
    pub fn resolve_exe(custom: &str, is_file: bool) -> (r: ExeChoice)
        ensures
            r@ == chosen_exe(custom@, is_file),
            r is BesideTray <==> trimmed(custom@).len() == 0,
            r is Refused <==> trimmed(custom@).len() > 0 && !is_file,
            r matches ExeChoice::File(path) ==> path@ == trimmed(custom@),
            r matches ExeChoice::Refused(e) ==> e@
                == "podping-gossipwatcher executable not found at "@ + trimmed(custom@),
    {
        let path = trim(custom);
        if path.as_str().is_empty() {
            ExeChoice::BesideTray
        } else if is_file {
            ExeChoice::File(path)
        } else {
            ExeChoice::Refused(
                "podping-gossipwatcher executable not found at ".to_owned().concat(path.as_str()),
            )
        }
    }

    /// A watcher that has not been started.
    pub fn new(exe: E) -> (r: Self)
        ensures
            r.spec_exe() == exe,
            r.spec_child() is None,
    {
        Watcher { exe, child: None }
    }

    /// The executable that is started next.
    pub fn exe(&self) -> (r: &E)
        ensures
            *r == self.spec_exe(),
    {
        &self.exe
    }

    /// Sets the executable that is started next; a running child stays.
    pub fn set_exe(&mut self, exe: E)
        ensures
            final(self).spec_exe() == exe,
            final(self).spec_child() == old(self).spec_child(),
    {
        self.exe = exe;
    }

    /// Takes over the child process that was started, and gives up an earlier one that has not been
    /// stopped, for the caller to kill and reap.
    pub fn start(&mut self, child: C) -> (r: Option<C>)
        ensures
            r == old(self).spec_child(),
            final(self).spec_child() == Some(child),
            final(self).spec_exe() == old(self).spec_exe(),
    {
        let earlier = self.child.take();
        self.child = Some(child);
        earlier
    }

    /// Gives up the child process, for the caller to kill and reap.
    pub fn stop(&mut self) -> (r: Option<C>)
        ensures
            r == old(self).spec_child(),
            final(self).spec_child() is None,
            final(self).spec_exe() == old(self).spec_exe(),
    {
        self.child.take()
    }

    /// The child process to look at, while there is one.
    pub fn child(&mut self) -> (r: Option<&mut C>)
        ensures
            old(self).spec_child() is Some ==> r is Some && *r->0 == old(self).spec_child()->0
                && final(self).spec_child() == Some(*final(r->0)),
            old(self).spec_child() is None ==> r is None && final(self).spec_child() is None,
            final(self).spec_exe() == old(self).spec_exe(),
    {
        self.child.as_mut()
    }

    /// Tells whether a child is running, where `poll` is what a look at the child showed. A child
    /// that is not running is let go.
    pub fn is_running(&mut self, poll: ChildPoll) -> (r: bool)
        ensures
            r == (old(self).spec_child() is Some && poll is Running),
            r ==> final(self).spec_child() == old(self).spec_child(),
            !r ==> final(self).spec_child() is None,
            final(self).spec_exe() == old(self).spec_exe(),
    {
        if self.child.is_none() {
            return false;
        }
        match poll {
            ChildPoll::Running => true,
            _ => {
                self.child = None;
                false
            },
        }
    }
}

/// `c` ends an escape sequence.
pub open spec fn ends_escape(c: char) -> bool {
    0x40 <= c as u32 <= 0x7e
}

/// What is left of `s` behind the first character that ends an escape sequence.
pub open spec fn after_escape(s: Seq<char>) -> Seq<char>
    decreases s.len(),
{
    if s.len() == 0 {
        s
    } else if ends_escape(s[0]) {
        s.skip(1)
    } else {
        after_escape(s.skip(1))
    }
}

/// `s` begins with an escape character and an opening bracket.
pub open spec fn at_escape(s: Seq<char>) -> bool {
    s.len() > 1 && s[0] == '\x1b' && s[1] == '['
}

pub proof fn lemma_after_escape(s: Seq<char>)
    ensures
        after_escape(s).len() <= s.len(),
        after_escape(s) == s.skip(s.len() - after_escape(s).len()),
    decreases s.len(),
{
    if s.len() > 0 && !ends_escape(s[0]) {
        lemma_after_escape(s.skip(1));
        let n = s.skip(1).len() - after_escape(s).len();
        assert(s.skip(1).skip(n) == s.skip(n + 1));
    }
}

/// `s` without its escape sequences: an escape character and an opening bracket, and what follows
/// through the first character that ends the sequence.
pub open spec fn stripped(s: Seq<char>) -> Seq<char>
    decreases s.len(),
{
    if s.len() == 0 {
        s
    } else if at_escape(s) {
        proof {
            lemma_after_escape(s.skip(2));
        }
        stripped(after_escape(s.skip(2)))
    } else {
        seq![s[0]] + stripped(s.skip(1))
    }
}

/// Strips terminal escape sequences, so that a line of coloured output stays readable.
pub fn strip_ansi(s: &str) -> (r: String)
    ensures
        r@ == stripped(s@),
{
    let chars = chars_of(s);
    let mut out = String::new();
    let mut i: usize = 0;
    assert(chars@.skip(0) == s@);
    assert(out@ + stripped(s@) == stripped(s@));
    while i < chars.len()
        invariant
            i <= chars@.len(),
            out@ + stripped(chars@.skip(i as int)) == stripped(s@),
        decreases chars@.len() - i,
    {
        let ghost rest = chars@.skip(i as int);
        let c = chars[i];
        if c == '\x1b' && i + 1 < chars.len() && chars[i + 1] == '[' {
            let ghost body = rest.skip(2);
            assert(body == chars@.skip(i + 2));
            let from: usize = i + 2;
            i = from;
            while i < chars.len() && !(0x40 <= chars[i] as u32 && chars[i] as u32 <= 0x7e)
                invariant
                    from <= i <= chars@.len(),
                    after_escape(body) == after_escape(chars@.skip(i as int)),
                decreases chars@.len() - i,
            {
                assert(chars@.skip(i as int).skip(1) == chars@.skip(i + 1));
                i = i + 1;
            }
            if i < chars.len() {
                assert(chars@.skip(i as int).skip(1) == chars@.skip(i + 1));
                i = i + 1;
            }
            assert(after_escape(body) == chars@.skip(i as int));
        } else {
            assert(rest.skip(1) == chars@.skip(i + 1));
            assert(out@ + (seq![c] + stripped(rest.skip(1))) == out@.push(c) + stripped(
                rest.skip(1),
            ));
            out.push(c);
            i = i + 1;
        }
    }
    assert(out@ + stripped(chars@.skip(i as int)) == out@);
    out
}

/// Text in which no escape sequence begins is kept as it is, whatever follows it.
pub proof fn law_plain_text_is_kept(plain: Seq<char>, rest: Seq<char>)
    requires
        !plain.contains('\x1b'),
    ensures
        stripped(plain + rest) == plain + stripped(rest),
    decreases plain.len(),
{
    let whole = plain + rest;
    if plain.len() == 0 {
        assert(whole == rest);
        assert(plain + stripped(rest) == stripped(rest));
    } else {
        assert(plain.contains(plain[0]));
        assert(whole[0] == plain[0]);
        assert(whole.skip(1) == plain.skip(1) + rest);
        assert(!plain.skip(1).contains('\x1b')) by {
            if plain.skip(1).contains('\x1b') {
                let i = choose|i: int| 0 <= i < plain.skip(1).len() && plain.skip(1)[i] == '\x1b';
                assert(plain[i + 1] == '\x1b');
            }
        }
        law_plain_text_is_kept(plain.skip(1), rest);
        assert(seq![plain[0]] + (plain.skip(1) + stripped(rest)) == plain + stripped(rest));
    }
}

/// An escape sequence vanishes, and with it nothing of what follows.
pub proof fn law_escape_sequence_vanishes(parameters: Seq<char>, end: char, rest: Seq<char>)
    requires
        forall|i: int|
            0 <= i < parameters.len() ==> !(0x40 <= (#[trigger] parameters[i]) as u32 <= 0x7e),
        0x40 <= end as u32 <= 0x7e,
    ensures
        stripped(seq!['\x1b', '['] + parameters + seq![end] + rest) == stripped(rest),
{
    assert forall|i: int| 0 <= i < parameters.len() implies !ends_escape(
        #[trigger] parameters[i],
    ) by {
    }
    let whole = seq!['\x1b', '['] + parameters + seq![end] + rest;
    assert(whole.skip(2) == parameters + seq![end] + rest);
    lemma_escape_ends(parameters, end, rest);
}

proof fn lemma_escape_ends(parameters: Seq<char>, end: char, rest: Seq<char>)
    requires
        forall|i: int| 0 <= i < parameters.len() ==> !ends_escape(#[trigger] parameters[i]),
        ends_escape(end),
    ensures
        after_escape(parameters + seq![end] + rest) == rest,
    decreases parameters.len(),
{
    let s = parameters + seq![end] + rest;
    if parameters.len() == 0 {
        assert(s.skip(1) == rest);
    } else {
        assert(s[0] == parameters[0]);
        assert(s.skip(1) == parameters.skip(1) + seq![end] + rest);
        assert forall|i: int| 0 <= i < parameters.skip(1).len() implies !ends_escape(
            #[trigger] parameters.skip(1)[i],
        ) by {
            assert(parameters.skip(1)[i] == parameters[i + 1]);
        }
        lemma_escape_ends(parameters.skip(1), end, rest);
    }
}

/// Stripping adds nothing: the result is no longer than the text, and all its characters occur in
/// the text.
pub proof fn law_stripping_adds_nothing(s: Seq<char>)
    ensures
        stripped(s).len() <= s.len(),
        forall|c: char| stripped(s).contains(c) ==> s.contains(c),
    decreases s.len(),
{
    if s.len() == 0 {
    } else if at_escape(s) {
        let tail = after_escape(s.skip(2));
        lemma_after_escape(s.skip(2));
        law_stripping_adds_nothing(tail);
        assert forall|c: char| stripped(s).contains(c) implies s.contains(c) by {
            assert(tail.contains(c));
            let i = choose|i: int| 0 <= i < tail.len() && tail[i] == c;
            let from = s.skip(2).len() - tail.len();
            assert(s.skip(2).skip(from)[i] == c);
            assert(s[2 + from + i] == c);
        }
    } else {
        law_stripping_adds_nothing(s.skip(1));
        assert forall|c: char| stripped(s).contains(c) implies s.contains(c) by {
            let i = choose|i: int| 0 <= i < stripped(s).len() && stripped(s)[i] == c;
            if i == 0 {
                assert(s[0] == c);
            } else {
                assert(stripped(s.skip(1))[i - 1] == c);
                assert(s.skip(1).contains(c));
                let j = choose|j: int| 0 <= j < s.skip(1).len() && s.skip(1)[j] == c;
                assert(s[j + 1] == c);
            }
        }
    }
}

proof fn lemma_escape_never_ends(s: Seq<char>)
    requires
        forall|i: int| 0 <= i < s.len() ==> !ends_escape(#[trigger] s[i]),
    ensures
        after_escape(s).len() == 0,
    decreases s.len(),
{
    if s.len() > 0 {
        assert(!ends_escape(s[0]));
        assert forall|i: int| 0 <= i < s.skip(1).len() implies !ends_escape(
            #[trigger] s.skip(1)[i],
        ) by {
            assert(!ends_escape(s[i + 1]));
        }
        lemma_escape_never_ends(s.skip(1));
    }
}

/// An escape sequence that nothing ends takes the rest of the line with it.
pub proof fn law_open_escape_takes_the_rest(parameters: Seq<char>)
    requires
        forall|i: int|
            0 <= i < parameters.len() ==> !(0x40 <= (#[trigger] parameters[i]) as u32 <= 0x7e),
    ensures
        stripped(seq!['\x1b', '['] + parameters) == Seq::<char>::empty(),
{
    let whole = seq!['\x1b', '['] + parameters;
    assert(whole.skip(2) == parameters);
    assert forall|i: int| 0 <= i < parameters.len() implies !ends_escape(
        #[trigger] parameters[i],
    ) by {
    }
    lemma_escape_never_ends(parameters);
    assert(at_escape(whole));
    reveal_with_fuel(stripped, 2);
}

/// An escape character that no bracket follows is text like any other.
pub proof fn law_lone_escape_is_kept(rest: Seq<char>)
    requires
        rest.len() == 0 || rest[0] != '[',
    ensures
        stripped(seq!['\x1b'] + rest) == seq!['\x1b'] + stripped(rest),
{
    let whole = seq!['\x1b'] + rest;
    assert(whole.skip(1) == rest);
}

} // verus!
