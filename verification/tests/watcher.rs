use podping_tray::watcher::{strip_ansi, ChildPoll, ExeChoice, Watcher};

#[test]
fn colours_are_stripped() {
    assert_eq!(strip_ansi("\x1b[1;31m[FATAL]\x1b[0m gone"), "[FATAL] gone");
    assert_eq!(strip_ansi("plain — text"), "plain — text");
    assert_eq!(strip_ansi(""), "");
    assert_eq!(strip_ansi("a\x1b[2Kb\x1b[12;40Hc"), "abc");
}

#[test]
fn only_bracketed_sequences_are_stripped() {
    assert_eq!(strip_ansi("\x1b"), "\x1b");
    assert_eq!(strip_ansi("a\x1b]0;t"), "a\x1b]0;t");
    assert_eq!(strip_ansi("\x1b\x1b[0m[31m"), "\x1b[31m");
    assert_eq!(strip_ansi("a\x1b["), "a");
    assert_eq!(strip_ansi("a\x1b[12é3"), "a");
    assert_eq!(strip_ansi("a\x1b[[b"), "ab");
    assert_eq!(strip_ansi("a\x1b[\x7f~b"), "ab");
}

#[test]
fn executable_is_chosen_by_the_setting() {
    let choose = |custom: &str, is_file: bool| Watcher::<String, u32>::resolve_exe(custom, is_file);
    assert_eq!(choose("", false), ExeChoice::BesideTray);
    assert_eq!(choose(" \t", true), ExeChoice::BesideTray);
    assert_eq!(choose(" w.exe ", true), ExeChoice::File("w.exe".to_string()));
    assert_eq!(
        choose("w.exe", false),
        ExeChoice::Refused("podping-gossipwatcher executable not found at w.exe".to_string())
    );
}

#[test]
fn executable_beside_the_tray() {
    let locate = |c: Option<String>, e: bool| Watcher::<String, u32>::locate_exe(c, e);
    assert_eq!(locate(Some("d/p.exe".to_string()), true), Ok("d/p.exe".to_string()));
    assert_eq!(
        locate(Some("d/p.exe".to_string()), false),
        Err("podping-gossipwatcher.exe not found next to tray exe at d/p.exe".to_string())
    );
    assert_eq!(locate(None, true), Err("tray exe has no parent".to_string()));
}

#[test]
fn child_is_kept_while_it_runs() {
    let mut w: Watcher<String, u32> = Watcher::new("a".to_string());
    assert!(!w.is_running(ChildPoll::Running));
    assert_eq!(w.stop(), None);
    assert_eq!(w.start(7), None);
    w.set_exe("b".to_string());
    assert_eq!(w.exe(), "b");
    assert!(w.is_running(ChildPoll::Running));
    if let Some(c) = w.child() {
        *c += 1;
    }
    assert_eq!(w.stop(), Some(8));
    assert_eq!(w.stop(), None);
    assert_eq!(w.start(9), None);
    assert!(!w.is_running(ChildPoll::Exited));
    assert_eq!(w.child(), None);
    assert_eq!(w.start(10), None);
    assert!(!w.is_running(ChildPoll::Failed));
    assert_eq!(w.stop(), None);
}

#[test]
fn earlier_child_is_handed_back() {
    let mut w: Watcher<String, u32> = Watcher::new("a".to_string());
    assert_eq!(w.start(1), None);
    assert_eq!(w.start(2), Some(1));
    assert_eq!(w.stop(), Some(2));
    assert_eq!(w.start(3), None);
}

#[test]
fn stripping_adds_nothing() {
    for s in ["", "plain", "\x1b[31mred\x1b[0m", "\x1b[\x1b[", "é\x1b[4é5Hü"] {
        let r = strip_ansi(s);
        assert!(r.chars().count() <= s.chars().count());
        assert!(r.chars().all(|c| s.contains(c)));
    }
    assert_eq!(strip_ansi("é\x1b[4é5Hü"), "éü");
}
