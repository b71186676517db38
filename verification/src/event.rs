//! Key and mouse events and the state transitions they cause on [`App`].
//!
//! The terminal's own event types stay with the caller, which turns each
//! event into a [`KeyPress`] or [`MouseEvent`] of this module.

use vstd::prelude::*;
use crate::app::{
    activate_post, add_row_post, backspace_command_post, backspace_edit_post, bottom_post,
    cancel_command_post, cancel_edit_post, clear_command_post, clear_edit_post, click_post,
    col_moved_to, command_post, commit_edit_post, delete_row_post, down_post,
    enter_command_post, last_col_post, left_post, page_step, push_command_post,
    push_edit_post, right_post, row_moved_to, same_input, up_post, Action, App, Mode,
};

verus! {

/// A key, as far as the application tells keys apart.
#[derive(Debug, Clone, Copy, PartialEq, Eq, Structural)]
pub enum KeyCode {
    Char(char),
    Enter,
    Esc,
    Backspace,
    Left,
    Right,
    Up,
    Down,
    PageUp,
    PageDown,
    Home,
    End,
    /// Any other key.
    Other,
}

/// One key press: the key and whether Ctrl was held.
#[derive(Debug, Clone, Copy, PartialEq, Eq, Structural)]
pub struct KeyPress {
    pub code: KeyCode,
    pub ctrl: bool,
}

impl KeyPress {
    /// `code` pressed alone.
    pub fn new(code: KeyCode) -> (k: Self)
        ensures
            k.code == code,
            !k.ctrl,
    {
        KeyPress { code, ctrl: false }
    }

    /// Ctrl held with the character key `c`.
    pub fn with_ctrl(c: char) -> (k: Self)
        ensures
            k.code == KeyCode::Char(c),
            k.ctrl,
    {
        KeyPress { code: KeyCode::Char(c), ctrl: true }
    }
}

/// What a mouse event reports, as far as the application tells them apart.
#[derive(Debug, Clone, Copy, PartialEq, Eq, Structural)]
pub enum MouseKind {
    /// The left button went down.
    LeftDown,
    ScrollDown,
    ScrollUp,
    /// Any other mouse event.
    Other,
}

/// One mouse event at screen cell (`column`, `row`).
#[derive(Debug, Clone, Copy, PartialEq, Eq, Structural)]
pub struct MouseEvent {
    pub kind: MouseKind,
    pub column: u16,
    pub row: u16,
}

/// Whether `key` is Ctrl+`c`.
pub open spec fn is_ctrl(key: KeyPress, c: char) -> bool {
    key.ctrl && key.code == KeyCode::Char(c)
}

/// Rows one tick of the mouse wheel moves the selection.
pub const WHEEL_STEP: usize = 3;

/// A key of Normal mode on `o`, no chord pending.
pub open spec fn normal_key_post(o: App, n: App, code: KeyCode) -> bool {
    if code == KeyCode::Char(':') {
        enter_command_post(o, n) && n.pending_key == o.pending_key
    } else if code == KeyCode::Char('i') || code == KeyCode::Enter {
        activate_post(o, n)
    } else if code == KeyCode::Char('a') || code == KeyCode::Char('d') || code == KeyCode::Char('g') {
        n == (App { pending_key: Some(code->0), ..o })
    } else if code == KeyCode::Down || code == KeyCode::Char('j') {
        down_post(o, n, 1)
    } else if code == KeyCode::Up || code == KeyCode::Char('k') {
        up_post(o, n, 1)
    } else if code == KeyCode::Left || code == KeyCode::Char('h') {
        left_post(o, n)
    } else if code == KeyCode::Right || code == KeyCode::Char('l') {
        right_post(o, n)
    } else if code == KeyCode::PageDown || code == KeyCode::Char(' ') {
        down_post(o, n, page_step(o))
    } else if code == KeyCode::PageUp {
        up_post(o, n, page_step(o))
    } else if code == KeyCode::Home {
        row_moved_to(o, n, 0)
    } else if code == KeyCode::Char('G') || code == KeyCode::End {
        bottom_post(o, n)
    } else if code == KeyCode::Char('0') || code == KeyCode::Char('^') {
        col_moved_to(o, n, 0)
    } else if code == KeyCode::Char('$') {
        last_col_post(o, n)
    } else {
        n == o
    }
}

/// A key of Normal mode on `o`: a pending chord is used up; `aa` adds a row,
/// `dd` deletes one, `gg` selects the first; any other key is handled as if
/// nothing were pending.
pub open spec fn normal_post(o: App, n: App, key: KeyPress) -> bool {
    let o2 = App { pending_key: None, ..o };
    if o.pending_key == Some('a') && key.code == KeyCode::Char('a') {
        add_row_post(o2, n)
    } else if o.pending_key == Some('d') && key.code == KeyCode::Char('d') {
        delete_row_post(o2, n)
    } else if o.pending_key == Some('g') && key.code == KeyCode::Char('g') {
        row_moved_to(o2, n, 0)
    } else {
        normal_key_post(o2, n, key.code)
    }
}

/// A key of Command mode on `o`.
pub open spec fn command_key_post(o: App, n: App, key: KeyPress, a: Action) -> bool {
    if is_ctrl(key, 'u') {
        a is Nothing && clear_command_post(o, n)
    } else {
        match key.code {
            KeyCode::Enter => {
                &&& command_post(o, n, a)
                &&& n.mode == Mode::Normal
                &&& n.command@ == Seq::<char>::empty()
                &&& same_input(n, o)
            },
            KeyCode::Esc => a is Nothing && cancel_command_post(o, n),
            KeyCode::Backspace => a is Nothing && backspace_command_post(o, n),
            KeyCode::Char(c) => a is Nothing && push_command_post(o, n, c),
            _ => a is Nothing && n == o,
        }
    }
}

/// A key of Insert mode on `o`.
pub open spec fn insert_key_post(o: App, n: App, key: KeyPress, a: Action) -> bool {
    if is_ctrl(key, 'u') {
        a is Nothing && clear_edit_post(o, n)
    } else {
        match key.code {
            KeyCode::Enter => commit_edit_post(o, n, a),
            KeyCode::Esc => a is Nothing && cancel_edit_post(o, n),
            KeyCode::Backspace => a is Nothing && backspace_edit_post(o, n),
            KeyCode::Char(c) => a is Nothing && push_edit_post(o, n, c),
            _ => a is Nothing && n == o,
        }
    }
}

/// One key press on `o`, by mode.
pub open spec fn key_post(o: App, n: App, key: KeyPress, a: Action) -> bool {
    match o.mode {
        Mode::Normal => a is Nothing && normal_post(o, n, key),
        Mode::Command => command_key_post(o, n, key, a),
        Mode::Insert => insert_key_post(o, n, key, a),
    }
}

/// One mouse event on `o`: outside Normal mode nothing changes; a left click
/// selects the cell under it and the wheel moves the selection by
/// [`WHEEL_STEP`] rows.
pub open spec fn mouse_post(o: App, n: App, ev: MouseEvent) -> bool {
    if o.mode != Mode::Normal {
        n == o
    } else {
        match ev.kind {
            MouseKind::LeftDown => click_post(o, n, ev.column, ev.row),
            MouseKind::ScrollDown => down_post(o, n, WHEEL_STEP),
            MouseKind::ScrollUp => up_post(o, n, WHEEL_STEP),
            MouseKind::Other => n == o,
        }
    }
}

/// Handle one key press, dispatching on the current mode. The returned
/// [`Action`] is the outside work the key asks for.
pub fn handle_key(app: &mut App, key: KeyPress) -> (a: Action)
    requires
        old(app).wf(),
    ensures
        final(app).wf(),
        key_post(*old(app), *final(app), key, a),
{
    match app.mode {
        Mode::Normal => {
            normal(app, key);
            Action::Nothing
        },
        Mode::Command => command(app, key),
        Mode::Insert => insert(app, key),
    }
}

/// Handle one mouse event. Only acts in Normal mode: a left click jumps the
/// cursor to the clicked cell and the wheel scrolls the selection, but while
/// editing or typing a command the mouse is ignored, so a stray click cannot
/// discard an in-progress edit.
pub fn handle_mouse(app: &mut App, ev: MouseEvent)
    requires
        old(app).wf(),
    ensures
        final(app).wf(),
        mouse_post(*old(app), *final(app), ev),
{
    if app.mode != Mode::Normal {
        return;
    }
    match ev.kind {
        MouseKind::LeftDown => app.click(ev.column, ev.row),
        MouseKind::ScrollDown => app.move_down(WHEEL_STEP),
        MouseKind::ScrollUp => app.move_up(WHEEL_STEP),
        MouseKind::Other => {},
    }
}

fn normal(app: &mut App, key: KeyPress)
    requires
        old(app).wf(),
        old(app).mode == Mode::Normal,
    ensures
        final(app).wf(),
        normal_post(*old(app), *final(app), key),
{
    // Complete a pending two-key chord (`aa` add row, `dd` delete row, `gg` top).
    let pending = app.pending_key;
    app.pending_key = None;
    match (pending, key.code) {
        (Some('a'), KeyCode::Char('a')) => return app.add_row(),
        (Some('d'), KeyCode::Char('d')) => return app.delete_row(),
        (Some('g'), KeyCode::Char('g')) => return app.goto_top(),
        _ => {},  // not a chord: handle `key` afresh
    }
    match key.code {
        // Commands are gated behind `:`, such as `:q` to quit.
        KeyCode::Char(':') => app.enter_command(),
        // Edit the selected cell, or start `:add` on the append slot.
        KeyCode::Char('i') | KeyCode::Enter => app.activate(),
        // Chord starters.
        KeyCode::Char('a') => app.pending_key = Some('a'),
        KeyCode::Char('d') => app.pending_key = Some('d'),
        KeyCode::Char('g') => app.pending_key = Some('g'),
        KeyCode::Down | KeyCode::Char('j') => app.move_down(1),
        KeyCode::Up | KeyCode::Char('k') => app.move_up(1),
        KeyCode::Left | KeyCode::Char('h') => app.move_left(),
        KeyCode::Right | KeyCode::Char('l') => app.move_right(),
        KeyCode::PageDown | KeyCode::Char(' ') => app.page_down(),
        KeyCode::PageUp => app.page_up(),
        KeyCode::Home => app.goto_top(),
        KeyCode::Char('G') | KeyCode::End => app.goto_bottom(),
        KeyCode::Char('0') | KeyCode::Char('^') => app.goto_first_col(),
        KeyCode::Char('$') => app.goto_last_col(),
        _ => {},
    }
}

fn command(app: &mut App, key: KeyPress) -> (a: Action)
    requires
        old(app).wf(),
        old(app).mode == Mode::Command,
    ensures
        final(app).wf(),
        command_key_post(*old(app), *final(app), key, a),
{
    if key.ctrl && key.code == KeyCode::Char('u') {
        app.clear_command();
        return Action::Nothing;
    }
    match key.code {
        KeyCode::Enter => app.run_command(),
        KeyCode::Esc => {
            app.cancel_command();
            Action::Nothing
        },
        KeyCode::Backspace => {
            app.backspace_command();
            Action::Nothing
        },
        KeyCode::Char(c) => {
            app.push_command(c);
            Action::Nothing
        },
        _ => Action::Nothing,
    }
}

fn insert(app: &mut App, key: KeyPress) -> (a: Action)
    requires
        old(app).wf(),
        old(app).mode == Mode::Insert,
    ensures
        final(app).wf(),
        insert_key_post(*old(app), *final(app), key, a),
{
    if key.ctrl && key.code == KeyCode::Char('u') {
        app.clear_edit();
        return Action::Nothing;
    }
    match key.code {
        KeyCode::Enter => app.commit_edit(),
        KeyCode::Esc => {
            app.cancel_edit();
            Action::Nothing
        },
        KeyCode::Backspace => {
            app.backspace_edit();
            Action::Nothing
        },
        KeyCode::Char(c) => {
            app.push_edit(c);
            Action::Nothing
        },
        _ => Action::Nothing,
    }
}

} // verus!
