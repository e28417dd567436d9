//! The main window's visibility, and what the tray icon and its menu ask for.

use vstd::prelude::*;
use vstd::string::*;

use crate::text::same_text;

verus! {

/// What the tray asks of the application.
#[derive(Debug, Clone, Copy, PartialEq, Eq, Structural)]
pub enum TrayAction {
    RestartWatcher,
    Show,
    Hide,
    Toggle,
}

/// What the application does on a tray action.
#[derive(Debug, Clone, Copy, PartialEq, Eq, Structural)]
pub enum UiAction {
    RestartWatcher,
    ShowWindow,
    HideWindow,
}

/// A command to the window system.
#[derive(Debug, Clone, Copy, PartialEq, Eq, Structural)]
pub enum ViewportCommand {
    Minimized(bool),
    Visible(bool),
    Focus,
}

/// What `action` asks for while the window is hidden, or is not.
pub open spec fn action_for(action: TrayAction, hidden: bool) -> UiAction {
    match action {
        TrayAction::RestartWatcher => UiAction::RestartWatcher,
        TrayAction::Show => UiAction::ShowWindow,
        TrayAction::Hide => UiAction::HideWindow,
        TrayAction::Toggle => if hidden {
            UiAction::ShowWindow
        } else {
            UiAction::HideWindow
        },
    }
}

/// What `action` asks for while the window is hidden, or is not.
pub fn process_action(action: TrayAction, hidden: bool) -> (r: UiAction)
    ensures
        r == action_for(action, hidden),
{
    match action {
        TrayAction::RestartWatcher => UiAction::RestartWatcher,
        TrayAction::Show => UiAction::ShowWindow,
        TrayAction::Hide => UiAction::HideWindow,
        TrayAction::Toggle => if hidden {
            UiAction::ShowWindow
        } else {
            UiAction::HideWindow
        },
    }
}

/// The commands that show the window: making it visible is left to the window's handle, where it
/// is known.
pub open spec fn show_commands(by_handle: bool) -> Seq<ViewportCommand> {
    if by_handle {
        seq![ViewportCommand::Minimized(false), ViewportCommand::Focus]
    } else {
        seq![
            ViewportCommand::Minimized(false),
            ViewportCommand::Visible(true),
            ViewportCommand::Focus,
        ]
    }
}

/// The commands that hide the window.
pub open spec fn hide_commands() -> Seq<ViewportCommand> {
    seq![ViewportCommand::Minimized(true), ViewportCommand::Visible(false)]
}

/// The main window: whether it is hidden, and its handle. The handle is zero while it is not known.
#[derive(Debug)]
pub struct WinWindow {
    hidden: bool,
    hwnd: isize,
}

impl Default for WinWindow {
    fn default() -> (r: Self)
        ensures
            !r.spec_hidden(),
            r.spec_hwnd() == 0,
    {
        WinWindow { hidden: false, hwnd: 0 }
    }
}

impl WinWindow {
    /// The window is hidden.
    pub closed spec fn spec_hidden(&self) -> bool {
        self.hidden
    }

    /// The window's handle.
    pub closed spec fn spec_hwnd(&self) -> isize {
        self.hwnd
    }

    /// A window that is shown and whose handle is not known.
    pub fn new() -> (r: Self)
        ensures
            !r.spec_hidden(),
            r.spec_hwnd() == 0,
    {
        WinWindow::default()
    }

    pub fn is_hidden(&self) -> (r: bool)
        ensures
            r == self.spec_hidden(),
    {
        self.hidden
    }

    pub fn set_hidden(&mut self, v: bool)
        ensures
            final(self).spec_hidden() == v,
            final(self).spec_hwnd() == old(self).spec_hwnd(),
    {
        self.hidden = v;
    }

    /// The window's handle; zero while it is not known.
    pub fn hwnd(&self) -> (r: isize)
        ensures
            r == self.spec_hwnd(),
    {
        self.hwnd
    }

    /// The known handle, where it still is that of a window, as `is_window` says.
    pub fn live_hwnd(&self, is_window: bool) -> (r: Option<isize>)
        ensures
            r == (if self.spec_hwnd() != 0 && is_window {
                Some(self.spec_hwnd())
            } else {
                None
            }),
    {
        if self.hwnd != 0 && is_window {
            Some(self.hwnd)
        } else {
            None
        }
    }

    /// Keeps the known handle where it still is that of a window, and takes `found` in its place
    /// where it is not.
    pub fn ensure_hwnd(&mut self, is_window: bool, found: isize) -> (r: isize)
        ensures
            r == (if old(self).spec_hwnd() != 0 && is_window {
                old(self).spec_hwnd()
            } else {
                found
            }),
            final(self).spec_hwnd() == r,
            final(self).spec_hidden() == old(self).spec_hidden(),
    {
        match self.live_hwnd(is_window) {
            Some(hwnd) => hwnd,
            None => {
                self.hwnd = found;
                found
            },
        }
    }

    /// Notes that the window is shown by its handle, where that is known, and tells whether it is.
    pub fn show_via_winapi(&mut self) -> (r: bool)
        ensures
            r == (old(self).spec_hwnd() != 0),
            final(self).spec_hidden() == (old(self).spec_hidden() && !r),
            final(self).spec_hwnd() == old(self).spec_hwnd(),
    {
        if self.hwnd == 0 {
            return false;
        }
        self.set_hidden(false);
        true
    }

    /// Notes that the window is shown, and gives the commands that show it.
    pub fn show_window(&mut self) -> (r: Vec<ViewportCommand>)
        ensures
            r@ == show_commands(old(self).spec_hwnd() != 0),
            !final(self).spec_hidden(),
            final(self).spec_hwnd() == old(self).spec_hwnd(),
    {
        let by_handle = self.show_via_winapi();
        let mut commands: Vec<ViewportCommand> = Vec::new();
        commands.push(ViewportCommand::Minimized(false));
        if !by_handle {
            commands.push(ViewportCommand::Visible(true));
        }
        commands.push(ViewportCommand::Focus);
        self.set_hidden(false);
        assert(commands@ == show_commands(by_handle));
        commands
    }

    /// Notes that the window is hidden, and gives the commands that hide it. It is minimized too,
    /// so that nothing is painted while it cannot be seen.
    pub fn hide_window(&mut self) -> (r: Vec<ViewportCommand>)
        ensures
            r@ == hide_commands(),
            final(self).spec_hidden(),
            final(self).spec_hwnd() == old(self).spec_hwnd(),
    {
        let mut commands: Vec<ViewportCommand> = Vec::new();
        commands.push(ViewportCommand::Minimized(true));
        commands.push(ViewportCommand::Visible(false));
        self.set_hidden(true);
        assert(commands@ == hide_commands());
        commands
    }
}

/// The commands of the tray icon's menu.
#[derive(Debug, Clone, Copy, PartialEq, Eq, Structural)]
pub enum MenuCommand {
    ToggleWindow,
    OpenDashboard,
    OpenDataFolder,
    RestartWatcher,
    Exit,
}

/// A line of the tray icon's menu.
#[derive(Debug, Clone, Copy, PartialEq, Eq, Structural)]
pub enum MenuLine {
    Command(MenuCommand),
    Separator,
}

/// The lines of the menu, from the top.
pub open spec fn menu() -> Seq<MenuLine> {
    seq![
        MenuLine::Command(MenuCommand::ToggleWindow),
        MenuLine::Command(MenuCommand::OpenDashboard),
        MenuLine::Command(MenuCommand::OpenDataFolder),
        MenuLine::Command(MenuCommand::RestartWatcher),
        MenuLine::Separator,
        MenuLine::Command(MenuCommand::Exit),
    ]
}

/// The lines of the menu, from the top.
pub fn build_menu() -> (r: Vec<MenuLine>)
    ensures
        r@ == menu(),
{
    let lines = vec![
        MenuLine::Command(MenuCommand::ToggleWindow),
        MenuLine::Command(MenuCommand::OpenDashboard),
        MenuLine::Command(MenuCommand::OpenDataFolder),
        MenuLine::Command(MenuCommand::RestartWatcher),
        MenuLine::Separator,
        MenuLine::Command(MenuCommand::Exit),
    ];
    assert(lines@ == menu());
    lines
}

impl MenuCommand {
    /// The text of this command in the menu.
    pub open spec fn spec_label(self) -> Seq<char> {
        match self {
            MenuCommand::ToggleWindow => "Show / Hide Window"@,
            MenuCommand::OpenDashboard => "Open Dashboard"@,
            MenuCommand::OpenDataFolder => "Open Data Folder"@,
            MenuCommand::RestartWatcher => "Restart Watcher"@,
            MenuCommand::Exit => "Exit"@,
        }
    }

    /// The text of this command in the menu.
    pub fn label(self) -> (r: &'static str)
        ensures
            r@ == self.spec_label(),
    {
        match self {
            MenuCommand::ToggleWindow => "Show / Hide Window",
            MenuCommand::OpenDashboard => "Open Dashboard",
            MenuCommand::OpenDataFolder => "Open Data Folder",
            MenuCommand::RestartWatcher => "Restart Watcher",
            MenuCommand::Exit => "Exit",
        }
    }
}

/// The identifiers that the menu's commands were given.
#[derive(Debug)]
pub struct MenuIds {
    pub show: String,
    pub dashboard: String,
    pub folder: String,
    pub restart: String,
    pub exit: String,
}

/// The command with the identifier `id`.
pub open spec fn command_with(ids: MenuIds, id: Seq<char>) -> Option<MenuCommand> {
    if id == ids.show@ {
        Some(MenuCommand::ToggleWindow)
    } else if id == ids.dashboard@ {
        Some(MenuCommand::OpenDashboard)
    } else if id == ids.folder@ {
        Some(MenuCommand::OpenDataFolder)
    } else if id == ids.restart@ {
        Some(MenuCommand::RestartWatcher)
    } else if id == ids.exit@ {
        Some(MenuCommand::Exit)
    } else {
        None
    }
}

impl MenuIds {
    /// The command with the identifier `id`, where there is one.
    pub fn command(&self, id: &str) -> (r: Option<MenuCommand>)
        ensures
            r == command_with(*self, id@),
    {
        if same_text(id, self.show.as_str()) {
            Some(MenuCommand::ToggleWindow)
        } else if same_text(id, self.dashboard.as_str()) {
            Some(MenuCommand::OpenDashboard)
        } else if same_text(id, self.folder.as_str()) {
            Some(MenuCommand::OpenDataFolder)
        } else if same_text(id, self.restart.as_str()) {
            Some(MenuCommand::RestartWatcher)
        } else if same_text(id, self.exit.as_str()) {
            Some(MenuCommand::Exit)
        } else {
            None
        }
    }
}

/// What a choice in the tray leads to.
#[derive(Debug, PartialEq, Eq)]
pub enum TrayEffect {
    /// Wake the window by its handle, and send [`TrayAction::Show`].
    ShowWindow,
    /// Send this action to the application.
    Send(TrayAction),
    /// Open this address.
    OpenUrl(String),
    /// Open the folder with the application's files.
    OpenDataFolder,
    /// Stop the watcher and leave.
    Exit,
    Nothing,
}

/// [`TrayEffect`], with the address as a sequence.
pub enum TrayEffectView {
    ShowWindow,
    Send(TrayAction),
    OpenUrl(Seq<char>),
    OpenDataFolder,
    Exit,
    Nothing,
}

impl View for TrayEffect {
    type V = TrayEffectView;

    open spec fn view(&self) -> TrayEffectView {
        match self {
            TrayEffect::ShowWindow => TrayEffectView::ShowWindow,
            TrayEffect::Send(a) => TrayEffectView::Send(*a),
            TrayEffect::OpenUrl(u) => TrayEffectView::OpenUrl(u@),
            TrayEffect::OpenDataFolder => TrayEffectView::OpenDataFolder,
            TrayEffect::Exit => TrayEffectView::Exit,
            TrayEffect::Nothing => TrayEffectView::Nothing,
        }
    }
}

/// What `command` leads to. There is no dashboard while its address is empty.
pub open spec fn effect_of(
    command: MenuCommand,
    hidden: bool,
    dashboard_url: Seq<char>,
) -> TrayEffectView {
    match command {
        MenuCommand::ToggleWindow => if hidden {
            TrayEffectView::ShowWindow
        } else {
            TrayEffectView::Send(TrayAction::Hide)
        },
        MenuCommand::OpenDashboard => if dashboard_url.len() > 0 {
            TrayEffectView::OpenUrl(dashboard_url)
        } else {
            TrayEffectView::Nothing
        },
        MenuCommand::OpenDataFolder => TrayEffectView::OpenDataFolder,
        MenuCommand::RestartWatcher => TrayEffectView::Send(TrayAction::RestartWatcher),
        MenuCommand::Exit => TrayEffectView::Exit,
    }
}

/// What `command` leads to, with the window hidden or not. There is no dashboard while its address
/// is empty.
pub fn menu_effect(command: MenuCommand, hidden: bool, dashboard_url: &str) -> (r: TrayEffect)
    ensures
        r@ == effect_of(command, hidden, dashboard_url@),
        r is ShowWindow <==> command is ToggleWindow && hidden,
        r == TrayEffect::Send(TrayAction::Hide) <==> command is ToggleWindow && !hidden,
        r == TrayEffect::Send(TrayAction::RestartWatcher) <==> command is RestartWatcher,
        r is OpenUrl <==> command is OpenDashboard && dashboard_url@.len() > 0,
        r matches TrayEffect::OpenUrl(url) ==> url@ == dashboard_url@,
        r is OpenDataFolder <==> command is OpenDataFolder,
        r is Exit <==> command is Exit,
{
    match command {
        MenuCommand::ToggleWindow => if hidden {
            TrayEffect::ShowWindow
        } else {
            TrayEffect::Send(TrayAction::Hide)
        },
        MenuCommand::OpenDashboard => if !dashboard_url.is_empty() {
            TrayEffect::OpenUrl(dashboard_url.to_owned())
        } else {
            TrayEffect::Nothing
        },
        MenuCommand::OpenDataFolder => TrayEffect::OpenDataFolder,
        MenuCommand::RestartWatcher => TrayEffect::Send(TrayAction::RestartWatcher),
        MenuCommand::Exit => TrayEffect::Exit,
    }
}

/// What a click on the tray icon leads to: releasing the left button shows the window.
pub fn icon_effect(left_button: bool, released: bool) -> (r: TrayEffect)
    ensures
        r@ == (if left_button && released {
            TrayEffectView::ShowWindow
        } else {
            TrayEffectView::Nothing
        }),
{
    if left_button && released {
        TrayEffect::ShowWindow
    } else {
        TrayEffect::Nothing
    }
}

/// Toggling the window from its menu and toggling it as an action agree: both show a hidden window
/// and hide one that is shown.
pub proof fn law_menu_toggles_as_the_action_does(hidden: bool, dashboard_url: Seq<char>)
    ensures
        action_for(TrayAction::Toggle, hidden) == UiAction::ShowWindow <==> effect_of(
            MenuCommand::ToggleWindow,
            hidden,
            dashboard_url,
        ) == TrayEffectView::ShowWindow,
        action_for(TrayAction::Toggle, hidden) == UiAction::HideWindow <==> effect_of(
            MenuCommand::ToggleWindow,
            hidden,
            dashboard_url,
        ) == TrayEffectView::Send(TrayAction::Hide),
{
}

/// Whether the window is hidden behind `action`.
pub open spec fn hidden_after(action: UiAction, hidden: bool) -> bool {
    match action {
        UiAction::RestartWatcher => hidden,
        UiAction::ShowWindow => false,
        UiAction::HideWindow => true,
    }
}

/// A toggle changes what the user sees and a second one brings it back, while showing or hiding the
/// window twice is as good as once, and a restart leaves the window alone.
pub proof fn law_toggling_twice_changes_nothing(hidden: bool)
    ensures
        ({
            let toggled = hidden_after(action_for(TrayAction::Toggle, hidden), hidden);
            &&& toggled == !hidden
            &&& hidden_after(action_for(TrayAction::Toggle, toggled), toggled) == hidden
        }),
        hidden_after(action_for(TrayAction::Show, hidden), hidden) == false,
        hidden_after(action_for(TrayAction::Hide, hidden), hidden) == true,
        hidden_after(action_for(TrayAction::RestartWatcher, hidden), hidden) == hidden,
{
}

/// No two of the menu's commands share an identifier.
pub open spec fn ids_differ(ids: MenuIds) -> bool {
    &&& ids.show@ != ids.dashboard@ && ids.show@ != ids.folder@ && ids.show@ != ids.restart@
        && ids.show@ != ids.exit@
    &&& ids.dashboard@ != ids.folder@ && ids.dashboard@ != ids.restart@ && ids.dashboard@
        != ids.exit@
    &&& ids.folder@ != ids.restart@ && ids.folder@ != ids.exit@
    &&& ids.restart@ != ids.exit@
}

/// Each command can be reached from the menu by its own identifier.
pub proof fn law_each_command_has_its_identifier(ids: MenuIds)
    requires
        ids_differ(ids),
    ensures
        command_with(ids, ids.show@) == Some(MenuCommand::ToggleWindow),
        command_with(ids, ids.dashboard@) == Some(MenuCommand::OpenDashboard),
        command_with(ids, ids.folder@) == Some(MenuCommand::OpenDataFolder),
        command_with(ids, ids.restart@) == Some(MenuCommand::RestartWatcher),
        command_with(ids, ids.exit@) == Some(MenuCommand::Exit),
        forall|id: Seq<char>|
            id != ids.show@ && id != ids.dashboard@ && id != ids.folder@ && id != ids.restart@ && id
                != ids.exit@ ==> #[trigger] command_with(ids, id) is None,
{
}

/// Only the command that toggles the window looks at it, and only the one for the dashboard at its
/// address; no two commands lead to the same, but for a dashboard that is not there.
pub proof fn law_each_command_has_its_effect(
    a: MenuCommand,
    b: MenuCommand,
    hidden: bool,
    url: Seq<char>,
    other_url: Seq<char>,
)
    ensures
        !(a is ToggleWindow) ==> effect_of(a, hidden, url) == effect_of(a, !hidden, url),
        !(a is OpenDashboard) ==> effect_of(a, hidden, url) == effect_of(a, hidden, other_url),
        url.len() > 0 && a != b ==> effect_of(a, hidden, url) != effect_of(b, hidden, url),
        effect_of(a, hidden, url) is Nothing <==> a is OpenDashboard && url.len() == 0,
        effect_of(a, hidden, url) matches TrayEffectView::OpenUrl(u) ==> u == url,
{
}

} // verus!
