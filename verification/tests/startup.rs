use podping_tray::startup::{
    apply, key_opened, launched_minimized, remove_run_value, set_run_value, to_wide, value_written,
    StartupChange, RUN_KEY, STARTUP_ARG, VALUE_NAME,
};
use std::collections::BTreeMap;

fn wide(s: &str) -> Vec<u16> {
    s.encode_utf16().chain(std::iter::once(0)).collect()
}

#[test]
fn wide_text_matches_std() {
    for s in ["", "abc", "Ä—ü", "😀x\u{10ffff}\u{ffff}\u{10000}\u{e000}\u{d7ff}", "a\0b"] {
        assert_eq!(to_wide(s), wide(s));
        let units = to_wide(s);
        assert_eq!(String::from_utf16(&units[..units.len() - 1]).ok(), Some(s.to_string()));
    }
}

#[test]
fn run_value_quotes_the_executable() {
    let v = set_run_value("C:\\Program Files\\tray.exe");
    assert_eq!(v.command, wide("\"C:\\Program Files\\tray.exe\" --minimized"));
    assert_eq!(v.key_path, wide("Software\\Microsoft\\Windows\\CurrentVersion\\Run"));
    assert_eq!(v.value_name, wide("PodpingGossipWatcher"));
    assert_eq!(v.byte_len as usize, 2 * v.command.len());
    assert_eq!(RUN_KEY, "Software\\Microsoft\\Windows\\CurrentVersion\\Run");
    assert_eq!(VALUE_NAME, "PodpingGossipWatcher");
    assert_eq!(STARTUP_ARG, "--minimized");
}

#[test]
fn registry_statuses() {
    assert_eq!(key_opened(0), Ok(()));
    assert_eq!(key_opened(5), Err("could not open Run registry key (error 5)".to_string()));
    assert_eq!(value_written(0), Ok(()));
    assert_eq!(
        value_written(87),
        Err("could not write startup registry value (error 87)".to_string())
    );
    assert_eq!(remove_run_value(None), Ok(()));
    assert_eq!(remove_run_value(Some(0)), Ok(()));
    assert_eq!(remove_run_value(Some(2)), Ok(()));
    assert_eq!(
        remove_run_value(Some(5)),
        Err("could not remove startup registry value (error 5)".to_string())
    );
}

#[test]
fn startup_follows_the_setting() {
    assert_eq!(apply(true), StartupChange::Register);
    assert_eq!(apply(false), StartupChange::Remove);
}

#[test]
fn minimized_by_its_argument() {
    let args = |list: &[&str]| list.iter().map(|a| a.to_string()).collect::<Vec<String>>();
    assert!(launched_minimized(&args(&["tray.exe", "--minimized"])));
    assert!(!launched_minimized(&args(&["tray.exe", "--minimize"])));
    assert!(!launched_minimized(&args(&[])));
}

#[test]
fn registered_start_is_recognised() {
    let exe = "C:\\tray.exe";
    let command = set_run_value(exe).command;
    let text = String::from_utf16(&command[..command.len() - 1]).unwrap_or_default();
    let rest = text[exe.len() + 3..].to_string();
    assert!(launched_minimized(&vec![exe.to_string(), rest]));
}

fn make_change(key: &mut BTreeMap<Vec<u16>, Vec<u16>>, enabled: bool, exe: &str) -> Result<(), String> {
    match apply(enabled) {
        StartupChange::Register => {
            let v = set_run_value(exe);
            let data = v.command[..v.byte_len as usize / 2].to_vec();
            key.insert(v.value_name, data);
            value_written(0)
        }
        StartupChange::Remove => {
            let found = key.remove(&to_wide(VALUE_NAME)).is_some();
            remove_run_value(Some(if found { 0 } else { 2 }))
        }
    }
}

#[test]
fn last_change_decides() {
    let name = to_wide(VALUE_NAME);
    let other = to_wide("Other");
    for changes in 0..16u32 {
        let mut key = BTreeMap::new();
        key.insert(other.clone(), to_wide("kept"));
        for i in 0..4u32 {
            let enabled = changes & (1 << i) != 0;
            let exe = format!("C:\\tray{}.exe", i);
            assert_eq!(make_change(&mut key, enabled, &exe), Ok(()));
            let once = key.clone();
            assert_eq!(make_change(&mut key, enabled, &exe), Ok(()));
            assert_eq!(key, once);
            let expected = enabled.then_some(wide(&format!("\"{}\" --minimized", exe)));
            assert_eq!(key.get(&name).cloned(), expected);
            assert_eq!(key.get(&other), Some(&to_wide("kept")));
        }
    }
}
