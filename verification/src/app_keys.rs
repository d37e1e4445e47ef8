use vstd::prelude::*;

use crate::keymap::{
    AppCommand, CommandContext, CommandKeymap, NavigationAction, NavigationContext, NavigationKeymap,
    command_spec, navigation_spec,
};
use crate::keys::{KeyCode, KeyEvent};
use crate::presentation::{InputMode, LogTab, OverlayMode};

verus! {

/// What a key press asks the terminal application to do.
#[derive(Clone, Copy, Debug, PartialEq, Eq, Structural)]
pub enum KeyAction {
    Command(AppCommand),
    Navigate(NavigationAction),
    CloseOverlay,
    /// The key goes to the query being edited.
    Input,
    NextTab,
    FollowLatest,
    MoveUp(u64),
    MoveDown(u64),
    FaultScrollUp(usize),
    FaultScrollDown(usize),
    Ignore,
}

/// Rows that Page Up and Page Down move.
pub const PAGE_ROWS: u64 = 10;

pub open spec fn command_context_spec(overlay: OverlayMode, tab: LogTab) -> CommandContext {
    if overlay == OverlayMode::Devices {
        CommandContext::Devices
    } else if tab == LogTab::FaultLog {
        CommandContext::FaultLog
    } else {
        CommandContext::HiLog
    }
}

/// Which commands apply: those of the device list while it is open, else those
/// of the current log view.
pub fn command_context(overlay: OverlayMode, tab: LogTab) -> (r: CommandContext)
    ensures
        r == command_context_spec(overlay, tab),
{
    if overlay == OverlayMode::Devices {
        CommandContext::Devices
    } else if tab == LogTab::FaultLog {
        CommandContext::FaultLog
    } else {
        CommandContext::HiLog
    }
}

pub open spec fn navigation_context_spec(overlay: OverlayMode, mode: InputMode, tab: LogTab) -> NavigationContext {
    if overlay == OverlayMode::Devices {
        NavigationContext::Devices
    } else if mode == InputMode::Filter {
        NavigationContext::FilterInput
    } else if mode == InputMode::Find {
        NavigationContext::FindInput
    } else if tab == LogTab::FaultLog {
        NavigationContext::FaultLog
    } else {
        NavigationContext::HiLog
    }
}

/// Which navigation keys apply: the device list, the query being edited, or
/// the current log view.
pub fn navigation_context(overlay: OverlayMode, mode: InputMode, tab: LogTab) -> (r: NavigationContext)
    ensures
        r == navigation_context_spec(overlay, mode, tab),
{
    if overlay == OverlayMode::Devices {
        NavigationContext::Devices
    } else if mode == InputMode::Filter {
        NavigationContext::FilterInput
    } else if mode == InputMode::Find {
        NavigationContext::FindInput
    } else if tab == LogTab::FaultLog {
        NavigationContext::FaultLog
    } else {
        NavigationContext::HiLog
    }
}

pub open spec fn plain_action_spec(key: KeyEvent, tab: LogTab) -> KeyAction {
    match key.code {
        KeyCode::Tab => KeyAction::NextTab,
        KeyCode::End => KeyAction::FollowLatest,
        KeyCode::Up => KeyAction::MoveUp(1),
        KeyCode::Down => KeyAction::MoveDown(1),
        KeyCode::PageUp => if tab == LogTab::FaultLog {
            KeyAction::FaultScrollUp(PAGE_ROWS as usize)
        } else {
            KeyAction::MoveUp(PAGE_ROWS)
        },
        KeyCode::PageDown => if tab == LogTab::FaultLog {
            KeyAction::FaultScrollDown(PAGE_ROWS as usize)
        } else {
            KeyAction::MoveDown(PAGE_ROWS)
        },
        _ => KeyAction::Ignore,
    }
}

/// What a key press does: a command first, then a navigation key; in the
/// device list Esc closes it; while a query is edited the key goes to it;
/// otherwise the log view's own keys.
pub open spec fn dispatch_spec(key: KeyEvent, overlay: OverlayMode, mode: InputMode, tab: LogTab) -> KeyAction {
    match command_spec(key, command_context_spec(overlay, tab)) {
        Some(c) => KeyAction::Command(c),
        None => match navigation_spec(key, navigation_context_spec(overlay, mode, tab)) {
            Some(n) => KeyAction::Navigate(n),
            None => if overlay == OverlayMode::Devices {
                if key.code == KeyCode::Esc {
                    KeyAction::CloseOverlay
                } else {
                    KeyAction::Ignore
                }
            } else if mode != InputMode::Normal {
                KeyAction::Input
            } else {
                plain_action_spec(key, tab)
            },
        },
    }
}

pub fn dispatch_key(key: KeyEvent, overlay: OverlayMode, mode: InputMode, tab: LogTab) -> (r: KeyAction)
    ensures
        r == dispatch_spec(key, overlay, mode, tab),
{
    if let Some(c) = CommandKeymap::resolve(key, command_context(overlay, tab)) {
        return KeyAction::Command(c);
    }
    if let Some(n) = NavigationKeymap::resolve(key, navigation_context(overlay, mode, tab)) {
        return KeyAction::Navigate(n);
    }
    if overlay == OverlayMode::Devices {
        return if key.code == KeyCode::Esc {
            KeyAction::CloseOverlay
        } else {
            KeyAction::Ignore
        };
    }
    if mode != InputMode::Normal {
        return KeyAction::Input;
    }
    match key.code {
        KeyCode::Tab => KeyAction::NextTab,
        KeyCode::End => KeyAction::FollowLatest,
        KeyCode::Up => KeyAction::MoveUp(1),
        KeyCode::Down => KeyAction::MoveDown(1),
        KeyCode::PageUp => if tab == LogTab::FaultLog {
            KeyAction::FaultScrollUp(PAGE_ROWS as usize)
        } else {
            KeyAction::MoveUp(PAGE_ROWS)
        },
        KeyCode::PageDown => if tab == LogTab::FaultLog {
            KeyAction::FaultScrollDown(PAGE_ROWS as usize)
        } else {
            KeyAction::MoveDown(PAGE_ROWS)
        },
        _ => KeyAction::Ignore,
    }
}

/// The fault inspector's first line after scrolling down `rows`: no further
/// than shows the last lines of the entry.
pub fn fault_scroll_down(scroll: usize, rows: usize, line_count: usize, height: usize) -> (r: usize)
    ensures
        ({
            let stepped = if scroll + rows > usize::MAX {
                usize::MAX as int
            } else {
                scroll + rows
            };
            let max_start = if line_count >= height {
                line_count - height
            } else {
                0
            };
            r == if stepped <= max_start {
                stepped
            } else {
                max_start
            }
        }),
{
    let stepped = scroll.saturating_add(rows);
    let max_start = line_count.saturating_sub(height);
    if stepped <= max_start {
        stepped
    } else {
        max_start
    }
}

} // verus!
