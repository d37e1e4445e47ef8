use vstd::prelude::*;

use crate::keys::{no_modifiers, KeyCode, KeyEvent, KeyModifiers};
use crate::text::{ascii_lower, to_ascii_lower};

verus! {

/// A global command of the application.
#[derive(Clone, Copy, Debug, PartialEq, Eq, Structural)]
pub enum AppCommand {
    Quit,
    ToggleStream,
    Refresh,
    ToggleDevices,
    EditFilter,
    Find,
    NextMatch,
    PreviousMatch,
    FollowLatest,
    Clear,
}

/// Which workspace has the focus for global commands.
#[derive(Clone, Copy, Debug, PartialEq, Eq, Structural)]
pub enum CommandContext {
    HiLog,
    FaultLog,
    Devices,
}

/// Maps Ctrl+letter keys to commands.
pub struct CommandKeymap;

/// A navigation step inside the focused workspace.
#[derive(Clone, Copy, Debug, PartialEq, Eq, Structural)]
pub enum NavigationAction {
    ScrollLeft,
    ScrollRight,
    ResetHorizontal,
    PreviousDevice,
    NextDevice,
    OlderFilter,
    NewerFilter,
    ToggleSoftWrap,
}

/// Which part of the screen has the focus for navigation keys.
#[derive(Clone, Copy, Debug, PartialEq, Eq, Structural)]
pub enum NavigationContext {
    HiLog,
    FaultLog,
    Devices,
    FilterInput,
    FindInput,
}

/// Maps plain arrow keys (and Ctrl+W) to navigation steps.
pub struct NavigationKeymap;

pub open spec fn navigation_spec(key: KeyEvent, context: NavigationContext) -> Option<
    NavigationAction,
> {
    if context == NavigationContext::HiLog && key.modifiers == (KeyModifiers {
        control: true,
        ..no_modifiers()
    }) && (key.code == KeyCode::Char('w') || key.code == KeyCode::Char('W')) {
        Some(NavigationAction::ToggleSoftWrap)
    } else if key.modifiers != no_modifiers() {
        None
    } else {
        match (context, key.code) {
            (NavigationContext::HiLog, KeyCode::Left) => Some(NavigationAction::ScrollLeft),
            (NavigationContext::HiLog, KeyCode::Right) => Some(NavigationAction::ScrollRight),
            (NavigationContext::HiLog, KeyCode::Home) => Some(NavigationAction::ResetHorizontal),
            (NavigationContext::Devices, KeyCode::Left) => Some(NavigationAction::PreviousDevice),
            (NavigationContext::Devices, KeyCode::Right) => Some(NavigationAction::NextDevice),
            (NavigationContext::FilterInput, KeyCode::Up) => Some(NavigationAction::OlderFilter),
            (NavigationContext::FilterInput, KeyCode::Down) => Some(NavigationAction::NewerFilter),
            _ => None,
        }
    }
}

impl NavigationKeymap {
    pub fn resolve(key: KeyEvent, context: NavigationContext) -> (r: Option<NavigationAction>)
        ensures
            r == navigation_spec(key, context),
    {
        let ctrl_only = key.modifiers == KeyModifiers::control();
        let is_w = match key.code {
            KeyCode::Char(c) => c == 'w' || c == 'W',
            _ => false,
        };
        if context == NavigationContext::HiLog && ctrl_only && is_w {
            return Some(NavigationAction::ToggleSoftWrap);
        }
        if !key.modifiers.is_empty() {
            return None;
        }
        match (context, key.code) {
            (NavigationContext::HiLog, KeyCode::Left) => Some(NavigationAction::ScrollLeft),
            (NavigationContext::HiLog, KeyCode::Right) => Some(NavigationAction::ScrollRight),
            (NavigationContext::HiLog, KeyCode::Home) => Some(NavigationAction::ResetHorizontal),
            (NavigationContext::Devices, KeyCode::Left) => Some(NavigationAction::PreviousDevice),
            (NavigationContext::Devices, KeyCode::Right) => Some(NavigationAction::NextDevice),
            (NavigationContext::FilterInput, KeyCode::Up) => Some(NavigationAction::OlderFilter),
            (NavigationContext::FilterInput, KeyCode::Down) => Some(NavigationAction::NewerFilter),
            _ => None,
        }
    }
}

/// The command of a Ctrl+letter key, by the letter in lower case.
pub open spec fn command_for_letter(c: char) -> Option<AppCommand> {
    if c == 'q' {
        Some(AppCommand::Quit)
    } else if c == 's' {
        Some(AppCommand::ToggleStream)
    } else if c == 'r' {
        Some(AppCommand::Refresh)
    } else if c == 'd' {
        Some(AppCommand::ToggleDevices)
    } else if c == 'e' {
        Some(AppCommand::EditFilter)
    } else if c == 'f' {
        Some(AppCommand::Find)
    } else if c == 'n' {
        Some(AppCommand::NextMatch)
    } else if c == 'p' {
        Some(AppCommand::PreviousMatch)
    } else if c == 'g' {
        Some(AppCommand::FollowLatest)
    } else if c == 'l' {
        Some(AppCommand::Clear)
    } else {
        None
    }
}

/// Commands that only act on the HiLog workspace.
pub open spec fn hilog_only(command: AppCommand) -> bool {
    match command {
        AppCommand::EditFilter | AppCommand::Find | AppCommand::NextMatch
        | AppCommand::PreviousMatch | AppCommand::FollowLatest | AppCommand::Clear => true,
        _ => false,
    }
}

pub open spec fn command_spec(key: KeyEvent, context: CommandContext) -> Option<AppCommand> {
    if !key.modifiers.control {
        None
    } else {
        match key.code {
            KeyCode::Char(c) => match command_for_letter(ascii_lower(c)) {
                Some(command) => if hilog_only(command) && context != CommandContext::HiLog {
                    None
                } else {
                    Some(command)
                },
                None => None,
            },
            _ => None,
        }
    }
}

impl CommandKeymap {
    pub fn resolve(key: KeyEvent, context: CommandContext) -> (r: Option<AppCommand>)
        ensures
            r == command_spec(key, context),
    {
        if !key.modifiers.control {
            return None;
        }
        let character = match key.code {
            KeyCode::Char(c) => c,
            _ => return None,
        };
        let c = to_ascii_lower(character);
        let command = if c == 'q' {
            AppCommand::Quit
        } else if c == 's' {
            AppCommand::ToggleStream
        } else if c == 'r' {
            AppCommand::Refresh
        } else if c == 'd' {
            AppCommand::ToggleDevices
        } else if c == 'e' {
            AppCommand::EditFilter
        } else if c == 'f' {
            AppCommand::Find
        } else if c == 'n' {
            AppCommand::NextMatch
        } else if c == 'p' {
            AppCommand::PreviousMatch
        } else if c == 'g' {
            AppCommand::FollowLatest
        } else if c == 'l' {
            AppCommand::Clear
        } else {
            return None;
        };
        let hilog_only = match command {
            AppCommand::EditFilter | AppCommand::Find | AppCommand::NextMatch
            | AppCommand::PreviousMatch | AppCommand::FollowLatest | AppCommand::Clear => true,
            _ => false,
        };
        if hilog_only && context != CommandContext::HiLog {
            None
        } else {
            Some(command)
        }
    }
}

/// Only Ctrl chords are commands: a plain character never is, and neither are
/// the editing and copy shortcuts (Ctrl with A, C, V, X, Y or Z), whatever the
/// focus.
pub proof fn law_commands_leave_typing_and_editing_alone(key: KeyEvent, context: CommandContext)
    ensures
        !key.modifiers.control ==> command_spec(key, context) is None,
        (key.code matches KeyCode::Char(c) && {
            let l = ascii_lower(c);
            l == 'a' || l == 'c' || l == 'v' || l == 'x' || l == 'y' || l == 'z'
        }) ==> command_spec(key, context) is None,
{
}

} // verus!
