//! Starting the tray application when the user signs in.

use vstd::prelude::*;
use vstd::string::*;

use crate::number::{decimal, decimal_text};
use crate::text::{chars_of, is_among, texts};

verus! {

/// The registry key whose values are started at sign-in.
pub const RUN_KEY: &'static str = "Software\\Microsoft\\Windows\\CurrentVersion\\Run";

/// The name of the application's value under that key.
pub const VALUE_NAME: &'static str = "PodpingGossipWatcher";

/// The argument with which the application is started at sign-in.
pub const STARTUP_ARG: &'static str = "--minimized";

/// The status of a registry call that succeeded.
pub const ERROR_SUCCESS: u32 = 0;

/// The status of a registry call that found no such value.
pub const ERROR_FILE_NOT_FOUND: u32 = 2;

/// The arguments are those of a start at sign-in.
pub open spec fn at_sign_in(args: Seq<Seq<char>>) -> bool {
    args.contains(STARTUP_ARG@)
}

/// Tells whether the application was started at sign-in, by its arguments.
pub fn launched_minimized(args: &Vec<String>) -> (r: bool)
    ensures
        r == at_sign_in(texts(args@)),
        r <==> exists|i: int| 0 <= i < args@.len() && (#[trigger] args@[i])@ == "--minimized"@,
{
    let found = is_among(args, STARTUP_ARG);
    proof {
        if found {
            let i = choose|i: int| 0 <= i < texts(args@).len() && texts(args@)[i] == STARTUP_ARG@;
            assert(args@[i]@ == "--minimized"@);
        } else {
            assert forall|i: int| 0 <= i < args@.len() implies (#[trigger] args@[i])@
                != "--minimized"@ by {
                assert(texts(args@)[i] == args@[i]@);
            }
        }
    }
    found
}

/// `c` in UTF-16: one unit, or a surrogate pair.
pub open spec fn utf16_units(c: char) -> Seq<u16> {
    let u = c as nat;
    if u < 0x1_0000 {
        seq![u as u16]
    } else {
        seq![
            (0xd800 + (u - 0x1_0000) / 0x400) as u16,
            (0xdc00 + (u - 0x1_0000) % 0x400) as u16,
        ]
    }
}

/// `s` in UTF-16.
pub open spec fn utf16(s: Seq<char>) -> Seq<u16>
    decreases s.len(),
{
    if s.len() == 0 {
        Seq::empty()
    } else {
        utf16(s.drop_last()) + utf16_units(s.last())
    }
}

/// Appends `c` in UTF-16.
fn push_utf16(out: &mut Vec<u16>, c: char)
    ensures
        final(out)@ == old(out)@ + utf16_units(c),
{
    let u: u32 = c as u32;
    if u < 0x1_0000 {
        out.push(u as u16);
    } else {
        let v: u32 = u - 0x1_0000;
        out.push((0xd800 + v / 0x400) as u16);
        out.push((0xdc00 + v % 0x400) as u16);
    }
    assert(out@ == old(out)@ + utf16_units(c));
}

/// `s` in UTF-16, with the zero unit that ends it.
pub fn to_wide(s: &str) -> (r: Vec<u16>)
    ensures
        r@ == utf16(s@).push(0),
{
    let chars = chars_of(s);
    let mut out: Vec<u16> = Vec::new();
    let mut i: usize = 0;
    assert(s@.take(0) == Seq::<char>::empty());
    while i < chars.len()
        invariant
            chars@ == s@,
            i <= chars@.len(),
            out@ == utf16(s@.take(i as int)),
        decreases chars@.len() - i,
    {
        push_utf16(&mut out, chars[i]);
        assert(s@.take(i + 1).drop_last() == s@.take(i as int));
        i = i + 1;
    }
    assert(s@.take(i as int) == s@);
    out.push(0);
    out
}

/// What is to become of the application's value under the Run key.
#[derive(Clone, Copy, Debug, PartialEq, Eq, Structural)]
pub enum StartupChange {
    Register,
    Remove,
}

/// What starting with Windows, or not, asks for.
pub open spec fn change_for(enabled: bool) -> StartupChange {
    if enabled {
        StartupChange::Register
    } else {
        StartupChange::Remove
    }
}

/// The change has been made, where the registry call for it ended with `status`. A value that was
/// absent already is as good as removed.
pub open spec fn change_made(change: StartupChange, status: u32) -> bool {
    match change {
        StartupChange::Register => status == ERROR_SUCCESS,
        StartupChange::Remove => status == ERROR_SUCCESS || status == ERROR_FILE_NOT_FOUND,
    }
}

/// What starting with Windows, or not, asks for.
pub fn apply(enabled: bool) -> (r: StartupChange)
    ensures
        r == change_for(enabled),
        r == StartupChange::Register <==> enabled,
{
    if enabled {
        StartupChange::Register
    } else {
        StartupChange::Remove
    }
}

/// The command line that starts `exe` at sign-in.
pub open spec fn run_command(exe: Seq<char>) -> Seq<char> {
    "\""@ + exe + "\" "@ + STARTUP_ARG@
}

/// A registry value that is to be written, each text in UTF-16 with its final zero.
pub struct RunValue {
    pub key_path: Vec<u16>,
    pub value_name: Vec<u16>,
    pub command: Vec<u16>,
    /// The size of `command` in bytes, as the registry call takes it.
    pub byte_len: u32,
}

/// The value that starts `exe` at sign-in.
pub fn set_run_value(exe: &str) -> (r: RunValue)
    ensures
        r.key_path@ == utf16(RUN_KEY@).push(0),
        r.value_name@ == run_name().push(0),
        r.command@ == utf16(run_command(exe@)).push(0),
        r.command@ == utf16("\""@ + exe@ + "\" "@ + "--minimized"@).push(0),
        r.byte_len == (2 * r.command@.len()) % 0x1_0000_0000,
        r.command@.take(r.byte_len as int / 2) == run_data(exe@),
{
    let command = to_wide(
        "\"".to_owned().concat(exe).concat("\" ").concat(STARTUP_ARG).as_str(),
    );
    let bytes: u128 = 2 * (command.len() as u128);
    let byte_len: u32 = (bytes % 0x1_0000_0000) as u32;
    RunValue { key_path: to_wide(RUN_KEY), value_name: to_wide(VALUE_NAME), command, byte_len }
}

/// `before`, the status in decimal, and a closing bracket.
fn status_message(before: &str, status: u32) -> (r: String)
    ensures
        r@ == before@ + decimal(status as nat) + ")"@,
{
    before.to_owned().concat(decimal_text(status as u64).as_str()).concat(")")
}

/// What the status of opening the Run key for writing means.
pub fn key_opened(status: u32) -> (r: Result<(), String>)
    ensures
        r is Ok <==> status == 0,
        r is Err ==> r->Err_0@ == "could not open Run registry key (error "@ + decimal(
            status as nat,
        ) + ")"@,
{
    if status != ERROR_SUCCESS {
        Err(status_message("could not open Run registry key (error ", status))
    } else {
        Ok(())
    }
}

/// What the status of writing the value means.
pub fn value_written(status: u32) -> (r: Result<(), String>)
    ensures
        r is Ok <==> change_made(StartupChange::Register, status),
        r is Ok <==> status == 0,
        r is Err ==> r->Err_0@ == "could not write startup registry value (error "@ + decimal(
            status as nat,
        ) + ")"@,
{
    if status != ERROR_SUCCESS {
        Err(status_message("could not write startup registry value (error ", status))
    } else {
        Ok(())
    }
}

/// What came of removing the value. `deleted` is the status of deleting it, where the Run key
/// could be opened; without the key there is nothing to remove, and a value that was absent
/// already is as good as removed.
pub fn remove_run_value(deleted: Option<u32>) -> (r: Result<(), String>)
    ensures
        r is Ok <==> (deleted is Some ==> change_made(StartupChange::Remove, deleted->0)),
        r is Err <==> deleted is Some && deleted->0 != 0 && deleted->0 != 2,
        r is Err ==> r->Err_0@ == "could not remove startup registry value (error "@ + decimal(
            deleted->0 as nat,
        ) + ")"@,
{
    match deleted {
        None => Ok(()),
        Some(status) => if status != ERROR_SUCCESS && status != ERROR_FILE_NOT_FOUND {
            Err(status_message("could not remove startup registry value (error ", status))
        } else {
            Ok(())
        },
    }
}

/// `u` is the second unit of a surrogate pair.
pub open spec fn is_low_surrogate(u: u16) -> bool {
    0xdc00 <= u <= 0xdfff
}

/// The text that the UTF-16 units `units` stand for.
pub open spec fn utf16_text(units: Seq<u16>) -> Seq<char>
    decreases units.len(),
{
    let n = units.len() as int;
    if n == 0 {
        Seq::empty()
    } else if n > 1 && is_low_surrogate(units.last()) {
        let u = 0x1_0000 + (units[n - 2] - 0xd800) * 0x400 + (units[n - 1] - 0xdc00);
        utf16_text(units.take(n - 2)).push(u as char)
    } else {
        utf16_text(units.drop_last()).push(units.last() as char)
    }
}

proof fn lemma_units_read_back(front: Seq<u16>, c: char)
    ensures
        utf16_text(front + utf16_units(c)) == utf16_text(front).push(c),
        0 < utf16_units(c).len() <= 2,
        c != '\0' ==> forall|i: int|
            0 <= i < utf16_units(c).len() ==> #[trigger] utf16_units(c)[i] != 0,
{
    let u = c as nat;
    let units = utf16_units(c);
    let whole = front + units;
    let n = whole.len() as int;
    if u < 0x1_0000 {
        assert(whole.drop_last() == front);
        assert(whole.last() == u);
    } else {
        assert(whole.take(n - 2) == front);
        assert(whole[n - 2] == 0xd800 + (u - 0x1_0000) / 0x400);
        assert(whole[n - 1] == 0xdc00 + (u - 0x1_0000) % 0x400);
    }
}

/// Text in UTF-16 reads back as it was, so no two texts have one encoding.
pub proof fn law_utf16_reads_back(s: Seq<char>)
    ensures
        utf16_text(utf16(s)) == s,
    decreases s.len(),
{
    if s.len() > 0 {
        law_utf16_reads_back(s.drop_last());
        lemma_units_read_back(utf16(s.drop_last()), s.last());
        assert(s.drop_last().push(s.last()) == s);
    }
}

/// The final zero of wide text is its only one, where the text holds no zero character: a reader
/// that stops at a zero takes in the whole text.
pub proof fn law_wide_text_ends_at_its_zero(s: Seq<char>)
    requires
        !s.contains('\0'),
    ensures
        !utf16(s).contains(0),
    decreases s.len(),
{
    if s.len() > 0 {
        let front = s.drop_last();
        assert(!front.contains('\0')) by {
            if front.contains('\0') {
                let i = choose|i: int| 0 <= i < front.len() && front[i] == '\0';
                assert(s[i] == '\0');
            }
        }
        law_wide_text_ends_at_its_zero(front);
        assert(s.contains(s.last()));
        lemma_units_read_back(utf16(front), s.last());
        assert forall|i: int| 0 <= i < utf16(s).len() implies utf16(s)[i] != 0 by {
            if i < utf16(front).len() {
                assert(utf16(front).contains(utf16(front)[i]));
            } else {
                assert(utf16_units(s.last())[i - utf16(front).len()] != 0);
            }
        }
    }
}

/// The application knows a start at sign-in: what the registered command holds behind the quoted
/// executable, handed over as an argument, tells it so.
pub proof fn law_registered_start_is_recognised(exe: Seq<char>, args: Seq<Seq<char>>)
    requires
        args.contains(run_command(exe).skip(exe.len() as int + 3)),
    ensures
        at_sign_in(args),
        run_command(exe).take(exe.len() as int + 3) == "\""@ + exe + "\" "@,
{
    reveal_strlit("\"");
    reveal_strlit("\" ");
    assert(("\""@ + exe + "\" "@).len() == exe.len() + 3);
    assert(run_command(exe).skip(exe.len() as int + 3) == STARTUP_ARG@);
    assert(run_command(exe).take(exe.len() as int + 3) == "\""@ + exe + "\" "@);
}

/// The values under the Run key, by their names.
pub type RunKey = Map<Seq<u16>, Seq<u16>>;

/// The name of the application's value, as the registry keeps it.
pub open spec fn run_name() -> Seq<u16> {
    utf16(VALUE_NAME@)
}

/// What the registry takes of the command that starts `exe`: as much as its size in bytes says.
pub open spec fn run_data(exe: Seq<char>) -> Seq<u16> {
    let command = utf16(run_command(exe)).push(0);
    command.take(((2 * command.len()) % 0x1_0000_0000) as int / 2)
}

/// A change at sign-in that was asked for, the executable that asked, and the status with which the
/// registry call for it ended.
pub struct StartupCall {
    pub enabled: bool,
    pub exe: Seq<char>,
    pub status: u32,
}

/// The Run key behind `call`: a call that succeeds writes or deletes the application's value, and
/// one that does not leaves the key as it was.
pub open spec fn key_after(key: RunKey, call: StartupCall) -> RunKey {
    if call.status != ERROR_SUCCESS {
        key
    } else {
        match change_for(call.enabled) {
            StartupChange::Register => key.insert(run_name(), run_data(call.exe)),
            StartupChange::Remove => key.remove(run_name()),
        }
    }
}

/// The status of `call` is one that the registry can give: deleting ends with "not found" exactly
/// where there is no such value, or fails for another reason.
pub open spec fn status_is_true(key: RunKey, call: StartupCall) -> bool {
    change_for(call.enabled) == StartupChange::Remove ==> {
        &&& call.status == ERROR_SUCCESS ==> key.contains_key(run_name())
        &&& call.status == ERROR_FILE_NOT_FOUND ==> !key.contains_key(run_name())
    }
}

/// The Run key behind all of `calls`.
pub open spec fn key_behind(key: RunKey, calls: Seq<StartupCall>) -> RunKey
    decreases calls.len(),
{
    if calls.len() == 0 {
        key
    } else {
        key_after(key_behind(key, calls.drop_last()), calls.last())
    }
}

/// All of `calls` were made, one after the other, and each has made its change.
pub open spec fn all_made(key: RunKey, calls: Seq<StartupCall>) -> bool
    decreases calls.len(),
{
    calls.len() > 0 ==> {
        &&& all_made(key, calls.drop_last())
        &&& status_is_true(key_behind(key, calls.drop_last()), calls.last())
        &&& change_made(change_for(calls.last().enabled), calls.last().status)
    }
}

/// The last change decides: behind any changes that were made, the application is registered
/// exactly if the last one registered it, and then with the command of that one, whatever the
/// earlier ones were.
pub proof fn law_last_change_decides(key: RunKey, calls: Seq<StartupCall>)
    requires
        calls.len() > 0,
        all_made(key, calls),
    ensures
        key_behind(key, calls).contains_key(run_name()) <==> calls.last().enabled,
        calls.last().enabled ==> key_behind(key, calls)[run_name()] == run_data(calls.last().exe),
{
}

/// No change touches another value of the Run key, whether it succeeds or not.
pub proof fn law_other_values_stay(key: RunKey, calls: Seq<StartupCall>, name: Seq<u16>)
    requires
        name != run_name(),
    ensures
        key_behind(key, calls).contains_key(name) <==> key.contains_key(name),
        key.contains_key(name) ==> key_behind(key, calls)[name] == key[name],
    decreases calls.len(),
{
    if calls.len() > 0 {
        law_other_values_stay(key, calls.drop_last(), name);
    }
}

/// Making a change again changes nothing.
pub proof fn law_change_made_again_changes_nothing(
    key: RunKey,
    first: StartupCall,
    second: StartupCall,
)
    requires
        first.enabled == second.enabled,
        first.exe == second.exe,
        all_made(key, seq![first, second]),
    ensures
        key_behind(key, seq![first, second]) == key_behind(key, seq![first]),
{
    let both = seq![first, second];
    assert(both.drop_last() == seq![first]);
    assert(seq![first].drop_last() == Seq::<StartupCall>::empty());
    reveal_with_fuel(key_behind, 3);
    reveal_with_fuel(all_made, 3);
    assert(key_behind(key, both) == key_behind(key, seq![first]));
}

/// Removing an application that is not registered succeeds and changes nothing: that no such value
/// was found is the one answer the registry can give, unless it fails.
pub proof fn law_absent_value_counts_as_removed(key: RunKey, call: StartupCall)
    requires
        !key.contains_key(run_name()),
        !call.enabled,
        status_is_true(key, call),
        call.status == ERROR_SUCCESS || call.status == ERROR_FILE_NOT_FOUND,
    ensures
        call.status == ERROR_FILE_NOT_FOUND,
        change_made(change_for(call.enabled), call.status),
        key_after(key, call) == key,
{
}

/// UTF-16 goes character by character: one below 0x10000 is its own unit, and any other is a pair, a
/// high surrogate and a low one, that hold ten bits each of what it lies above 0x10000.
pub proof fn law_utf16_goes_by_characters(s: Seq<char>, c: char)
    ensures
        utf16(Seq::empty()) == Seq::<u16>::empty(),
        (c as u32) < 0x1_0000 ==> utf16(s.push(c)) == utf16(s).push(c as u16),
        (c as u32) >= 0x1_0000 ==> {
            let n = utf16(s).len() as int;
            let all = utf16(s.push(c));
            &&& all.len() == n + 2
            &&& all.take(n) == utf16(s)
            &&& 0xd800 <= all[n] <= 0xdbff
            &&& 0xdc00 <= all[n + 1] <= 0xdfff
            &&& 0x1_0000 + (all[n] - 0xd800) * 0x400 + (all[n + 1] - 0xdc00) == c as u32
        },
{
    assert(s.push(c).drop_last() == s);
    assert(s.push(c).last() == c);
    let n = utf16(s).len() as int;
    let all = utf16(s.push(c));
    assert(all == utf16(s) + utf16_units(c));
    if (c as u32) < 0x1_0000 {
        assert(all == utf16(s).push(c as u16));
    } else {
        assert(all.take(n) == utf16(s));
        assert(all[n] == utf16_units(c)[0]);
        assert(all[n + 1] == utf16_units(c)[1]);
    }
}

} // verus!
