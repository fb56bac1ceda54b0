//! The status icon: what it says about the router, and what its menu does.

use vstd::prelude::*;

use crate::text::{chars_of, push_str, same_text, string_of, trim};

verus! {

pub const ROUTER_UNIT: &'static str = "beaglewing-router";

pub const CLIPBOARD_UNIT: &'static str = "beaglewing-clipboard";

/// What the router is doing.
#[derive(Debug, Clone, Copy, PartialEq, Eq, Structural)]
pub enum RouterState {
    Stopped,
    NoBridge,
    Local,
    Remote,
}

/// The state behind a service that runs or not, and the state text that it
/// leaves.
pub open spec fn state_of(running: bool, text: Seq<char>) -> RouterState {
    let t = crate::text::trimmed(text);
    if !running {
        RouterState::Stopped
    } else if t == "remote"@ {
        RouterState::Remote
    } else if t == "no-bridge"@ {
        RouterState::NoBridge
    } else {
        RouterState::Local
    }
}

pub fn router_state(running: bool, text: &str) -> (s: RouterState)
    ensures
        s == state_of(running, text@),
{
    if !running {
        return RouterState::Stopped;
    }
    let t = string_of(trim(chars_of(text).as_slice()).as_slice());
    if same_text(t.as_str(), "remote") {
        RouterState::Remote
    } else if same_text(t.as_str(), "no-bridge") {
        RouterState::NoBridge
    } else {
        RouterState::Local
    }
}

/// The state text that a running router leaves.
pub open spec fn text_of_state(bridge_up: bool, remote: bool) -> Seq<char> {
    if remote {
        "remote"@
    } else if bridge_up {
        "local"@
    } else {
        "no-bridge"@
    }
}

pub fn state_text(bridge_up: bool, remote: bool) -> (s: &'static str)
    ensures
        s@ == text_of_state(bridge_up, remote),
{
    if remote {
        "remote"
    } else if bridge_up {
        "local"
    } else {
        "no-bridge"
    }
}

/// The icon shows what the router left: which machine has the input, or
/// that there is no bridge.
pub proof fn state_text_round_trip(bridge_up: bool, remote: bool)
    ensures
        state_of(true, text_of_state(bridge_up, remote)) == if remote {
            RouterState::Remote
        } else if bridge_up {
            RouterState::Local
        } else {
            RouterState::NoBridge
        },
{
    reveal_strlit("remote");
    reveal_strlit("local");
    reveal_strlit("no-bridge");
    assert("remote"@.len() != "local"@.len() && "remote"@.len() != "no-bridge"@.len());
}

/// The state in words.
pub open spec fn description(state: RouterState) -> Seq<char> {
    match state {
        RouterState::Stopped => "Router stopped"@,
        RouterState::NoBridge => "Router running, Pi bridge unreachable"@,
        RouterState::Local => "Input: this machine"@,
        RouterState::Remote => "Input: other machine"@,
    }
}

pub fn describe(state: RouterState) -> (s: &'static str)
    ensures
        s@ == description(state),
{
    match state {
        RouterState::Stopped => "Router stopped",
        RouterState::NoBridge => "Router running, Pi bridge unreachable",
        RouterState::Local => "Input: this machine",
        RouterState::Remote => "Input: other machine",
    }
}

/// The state as a color: red, green, blue.
pub open spec fn color_of(state: RouterState) -> (u8, u8, u8) {
    match state {
        RouterState::Stopped => (0x90u8, 0x90u8, 0x90u8),
        RouterState::NoBridge => (0xE8u8, 0x5Du8, 0x2Eu8),
        RouterState::Local => (0x3Cu8, 0xB8u8, 0x64u8),
        RouterState::Remote => (0x3Au8, 0x82u8, 0xE6u8),
    }
}

pub fn color(state: RouterState) -> (c: (u8, u8, u8))
    ensures
        c == color_of(state),
{
    match state {
        RouterState::Stopped => (0x90, 0x90, 0x90),
        RouterState::NoBridge => (0xE8, 0x5D, 0x2E),
        RouterState::Local => (0x3C, 0xB8, 0x64),
        RouterState::Remote => (0x3A, 0x82, 0xE6),
    }
}

/// What the icon shows.
#[derive(Debug, Clone, Copy, PartialEq, Eq, Structural)]
pub struct TrayState {
    pub router: RouterState,
    pub router_at_login: bool,
    pub clipboard_running: bool,
}

/// What choosing a menu item does.
#[derive(Debug, Clone, Copy, PartialEq, Eq, Structural)]
pub enum Command {
    /// Nothing: the item only says something.
    Nothing,
    StopRouter,
    StartRouter,
    RestartRouter,
    ToggleRouterAtLogin,
    FetchFiles,
    ToggleClipboard,
    Quit,
}

/// A line of the menu.
pub enum MenuEntry {
    Separator,
    /// Label, whether it can be chosen, and what that does.
    Item(&'static str, bool, Command),
    /// Label, whether it is checked, and what choosing it does.
    Check(&'static str, bool, Command),
}

/// A line of the menu.
#[verifier::ext_equal]
pub enum MenuLine {
    Separator,
    Item(Seq<char>, bool, Command),
    Check(Seq<char>, bool, Command),
}

impl View for MenuEntry {
    type V = MenuLine;

    open spec fn view(&self) -> MenuLine {
        match *self {
            MenuEntry::Separator => MenuLine::Separator,
            MenuEntry::Item(l, enabled, c) => MenuLine::Item(l@, enabled, c),
            MenuEntry::Check(l, checked, c) => MenuLine::Check(l@, checked, c),
        }
    }
}

impl TrayState {
    pub open spec fn running(self) -> bool {
        self.router != RouterState::Stopped
    }

    /// The menu for a state.
    pub open spec fn menu_lines(self) -> Seq<MenuLine> {
        seq![
            MenuLine::Item(description(self.router), false, Command::Nothing),
            MenuLine::Separator,
            if self.running() {
                MenuLine::Item("Stop router"@, true, Command::StopRouter)
            } else {
                MenuLine::Item("Start router"@, true, Command::StartRouter)
            },
            MenuLine::Item("Restart router"@, self.running(), Command::RestartRouter),
            MenuLine::Check(
                "Start router at login"@,
                self.router_at_login,
                Command::ToggleRouterAtLogin,
            ),
            MenuLine::Separator,
            MenuLine::Item("Fetch offered files now"@, self.clipboard_running, Command::FetchFiles),
            MenuLine::Item(
                if self.clipboard_running {
                    "Stop clipboard sync"@
                } else {
                    "Start clipboard sync"@
                },
                true,
                Command::ToggleClipboard,
            ),
            MenuLine::Separator,
            MenuLine::Item("Quit tray"@, true, Command::Quit),
        ]
    }

    pub fn menu(&self) -> (m: Vec<MenuEntry>)
        ensures
            m@.map_values(|e: MenuEntry| e@) == self.menu_lines(),
    {
        let running = match self.router {
            RouterState::Stopped => false,
            _ => true,
        };
        let switch = if running {
            MenuEntry::Item("Stop router", true, Command::StopRouter)
        } else {
            MenuEntry::Item("Start router", true, Command::StartRouter)
        };
        let sync = if self.clipboard_running {
            "Stop clipboard sync"
        } else {
            "Start clipboard sync"
        };
        let m = vec![
            MenuEntry::Item(describe(self.router), false, Command::Nothing),
            MenuEntry::Separator,
            switch,
            MenuEntry::Item("Restart router", running, Command::RestartRouter),
            MenuEntry::Check(
                "Start router at login",
                self.router_at_login,
                Command::ToggleRouterAtLogin,
            ),
            MenuEntry::Separator,
            MenuEntry::Item("Fetch offered files now", self.clipboard_running, Command::FetchFiles),
            MenuEntry::Item(sync, true, Command::ToggleClipboard),
            MenuEntry::Separator,
            MenuEntry::Item("Quit tray", true, Command::Quit),
        ];
        assert(m@.map_values(|e: MenuEntry| e@) =~= self.menu_lines());
        m
    }

    /// The service and what to do with it, for commands that are about a
    /// service. Toggles go by the state at the time of choosing.
    pub open spec fn service_verb(self, c: Command) -> Option<(Seq<char>, Seq<char>)> {
        match c {
            Command::StopRouter => Some(("stop"@, ROUTER_UNIT@)),
            Command::StartRouter => Some(("start"@, ROUTER_UNIT@)),
            Command::RestartRouter => Some(("restart"@, ROUTER_UNIT@)),
            Command::ToggleRouterAtLogin => Some(
                (
                    if self.router_at_login {
                        "disable"@
                    } else {
                        "enable"@
                    },
                    ROUTER_UNIT@,
                ),
            ),
            Command::ToggleClipboard => Some(
                (
                    if self.clipboard_running {
                        "stop"@
                    } else {
                        "start"@
                    },
                    CLIPBOARD_UNIT@,
                ),
            ),
            Command::Nothing | Command::FetchFiles | Command::Quit => None,
        }
    }

    pub fn service_command(&self, c: Command) -> (r: Option<(&'static str, &'static str)>)
        ensures
            match r {
                Some((verb, unit)) => self.service_verb(c) == Some((verb@, unit@)),
                None => self.service_verb(c) is None,
            },
    {
        match c {
            Command::StopRouter => Some(("stop", ROUTER_UNIT)),
            Command::StartRouter => Some(("start", ROUTER_UNIT)),
            Command::RestartRouter => Some(("restart", ROUTER_UNIT)),
            Command::ToggleRouterAtLogin => {
                if self.router_at_login {
                    Some(("disable", ROUTER_UNIT))
                } else {
                    Some(("enable", ROUTER_UNIT))
                }
            },
            Command::ToggleClipboard => {
                if self.clipboard_running {
                    Some(("stop", CLIPBOARD_UNIT))
                } else {
                    Some(("start", CLIPBOARD_UNIT))
                }
            },
            Command::Nothing | Command::FetchFiles | Command::Quit => None,
        }
    }

    /// The text under the icon's title.
    pub fn tool_tip(&self) -> (s: String)
        ensures
            s@ == description(self.router) + "\nClipboard sync: "@ + if self.clipboard_running {
                "running"@
            } else {
                "stopped"@
            },
    {
        let mut s = String::new();
        push_str(&mut s, describe(self.router));
        push_str(&mut s, "\nClipboard sync: ");
        if self.clipboard_running {
            push_str(&mut s, "running");
        } else {
            push_str(&mut s, "stopped");
        }
        assert(s@ =~= description(self.router) + "\nClipboard sync: "@ + if self.clipboard_running {
            "running"@
        } else {
            "stopped"@
        });
        s
    }
}

/// The menu never offers what cannot be done: a stopped router is started
/// and not stopped or restarted, and files are fetched only while the
/// clipboard agent runs.
pub proof fn menu_offers_what_applies(s: TrayState, i: int, label: Seq<char>, c: Command)
    requires
        0 <= i < s.menu_lines().len(),
        s.menu_lines()[i] == MenuLine::Item(label, true, c),
    ensures
        c == Command::StopRouter || c == Command::RestartRouter ==> s.running(),
        c == Command::StartRouter ==> !s.running(),
        c == Command::FetchFiles ==> s.clipboard_running,
{
}

} // verus!
