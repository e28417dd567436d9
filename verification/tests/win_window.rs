use podping_tray::win_window::{
    build_menu, icon_effect, menu_effect, process_action, MenuCommand, MenuIds, MenuLine,
    TrayAction, TrayEffect, UiAction, ViewportCommand, WinWindow,
};

#[test]
fn window_starts_visible_and_unknown() {
    let w = WinWindow::new();
    assert!(!w.is_hidden());
    assert_eq!(w.hwnd(), 0);
}

#[test]
fn hiding_and_showing() {
    let mut w = WinWindow::new();
    assert_eq!(
        w.hide_window(),
        vec![ViewportCommand::Minimized(true), ViewportCommand::Visible(false)]
    );
    assert!(w.is_hidden());
    assert!(!w.show_via_winapi());
    assert!(w.is_hidden());
    assert_eq!(
        w.show_window(),
        vec![
            ViewportCommand::Minimized(false),
            ViewportCommand::Visible(true),
            ViewportCommand::Focus
        ]
    );
    assert!(!w.is_hidden());
    w.ensure_hwnd(false, 42);
    w.set_hidden(true);
    assert_eq!(w.show_window(), vec![ViewportCommand::Minimized(false), ViewportCommand::Focus]);
    assert!(!w.is_hidden());
    w.set_hidden(true);
    assert!(w.show_via_winapi());
    assert!(!w.is_hidden());
}

#[test]
fn handle_is_kept_while_it_lives() {
    let mut w = WinWindow::new();
    assert_eq!(w.live_hwnd(true), None);
    assert_eq!(w.ensure_hwnd(true, 5), 5);
    assert_eq!(w.live_hwnd(true), Some(5));
    assert_eq!(w.live_hwnd(false), None);
    assert_eq!(w.ensure_hwnd(true, 6), 5);
    assert_eq!(w.ensure_hwnd(false, 6), 6);
    assert_eq!(w.ensure_hwnd(false, 0), 0);
    assert_eq!(w.hwnd(), 0);
}

#[test]
fn actions() {
    for hidden in [false, true] {
        assert_eq!(process_action(TrayAction::RestartWatcher, hidden), UiAction::RestartWatcher);
        assert_eq!(process_action(TrayAction::Show, hidden), UiAction::ShowWindow);
        assert_eq!(process_action(TrayAction::Hide, hidden), UiAction::HideWindow);
    }
    assert_eq!(process_action(TrayAction::Toggle, true), UiAction::ShowWindow);
    assert_eq!(process_action(TrayAction::Toggle, false), UiAction::HideWindow);
}

#[test]
fn menu_lines() {
    let labels: Vec<&str> = build_menu()
        .into_iter()
        .map(|line| match line {
            MenuLine::Command(c) => c.label(),
            MenuLine::Separator => "-",
        })
        .collect();
    assert_eq!(
        labels,
        vec![
            "Show / Hide Window",
            "Open Dashboard",
            "Open Data Folder",
            "Restart Watcher",
            "-",
            "Exit"
        ]
    );
}

#[test]
fn menu_events_find_their_command() {
    let ids = MenuIds {
        show: "1".to_string(),
        dashboard: "2".to_string(),
        folder: "3".to_string(),
        restart: "4".to_string(),
        exit: "5".to_string(),
    };
    assert_eq!(ids.command("1"), Some(MenuCommand::ToggleWindow));
    assert_eq!(ids.command("2"), Some(MenuCommand::OpenDashboard));
    assert_eq!(ids.command("3"), Some(MenuCommand::OpenDataFolder));
    assert_eq!(ids.command("4"), Some(MenuCommand::RestartWatcher));
    assert_eq!(ids.command("5"), Some(MenuCommand::Exit));
    assert_eq!(ids.command("6"), None);
}

#[test]
fn menu_effects() {
    let url = "http://127.0.0.1:8089/";
    assert_eq!(menu_effect(MenuCommand::ToggleWindow, true, url), TrayEffect::ShowWindow);
    assert_eq!(
        menu_effect(MenuCommand::ToggleWindow, false, url),
        TrayEffect::Send(TrayAction::Hide)
    );
    assert_eq!(
        menu_effect(MenuCommand::OpenDashboard, true, url),
        TrayEffect::OpenUrl(url.to_string())
    );
    assert_eq!(menu_effect(MenuCommand::OpenDashboard, true, ""), TrayEffect::Nothing);
    assert_eq!(menu_effect(MenuCommand::OpenDataFolder, true, ""), TrayEffect::OpenDataFolder);
    assert_eq!(
        menu_effect(MenuCommand::RestartWatcher, true, ""),
        TrayEffect::Send(TrayAction::RestartWatcher)
    );
    assert_eq!(menu_effect(MenuCommand::Exit, true, ""), TrayEffect::Exit);
}

#[test]
fn releasing_the_left_button_shows_the_window() {
    assert_eq!(icon_effect(true, true), TrayEffect::ShowWindow);
    assert_eq!(icon_effect(true, false), TrayEffect::Nothing);
    assert_eq!(icon_effect(false, true), TrayEffect::Nothing);
}

#[test]
fn toggling_twice_changes_nothing() {
    let mut w = WinWindow::new();
    let mut seen = Vec::new();
    for _ in 0..4 {
        match process_action(TrayAction::Toggle, w.is_hidden()) {
            UiAction::ShowWindow => w.show_window(),
            UiAction::HideWindow => w.hide_window(),
            UiAction::RestartWatcher => unreachable!(),
        };
        seen.push(w.is_hidden());
    }
    assert_eq!(seen, vec![true, false, true, false]);
}
