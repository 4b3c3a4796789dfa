use super::lookup::{
    display_has_index, find_display, find_focused_space, find_visible_space_on, space_has_focus,
    space_shows_on, window_has_focus, LocateError,
};
use crate::position::vector_2d::frames_of;
use crate::position::{get_element_to_focus, selection, Direction};
use crate::sequences::{filter_of_push, first_where, first_where_is_first};
use crate::text::{decimal_digits, decimal_string};
use crate::yabai::command::{FocusWindowById, MoveWindowToSpace, WarpWindow, WarpWindowArg};
use crate::yabai::transport::{Display, Space, Window, WindowId};
use vstd::prelude::*;

verus! {

/// The windows, told apart by the focus.
#[derive(Debug)]
pub struct IntrospectedWindows {
    pub active_window: Window,
    pub other_visible_windows: Vec<Window>,
}

/// Why the windows do not show which one to move.
#[derive(Debug, Clone, Copy, PartialEq, Eq, Structural)]
pub enum IntrospectError {
    /// No window has the focus, so that none is there to move.
    NoWindowHasFocus,
    /// More than one window has the focus.
    SeveralWindowsHaveFocus,
}

/// Why the focused window cannot be moved in a direction.
#[derive(Debug, Clone, Copy, PartialEq, Eq, Structural)]
pub enum MoveWindowError {
    Windows(IntrospectError),
    Space(LocateError),
}

/// The window lacks the focus and is visible.
pub open spec fn is_other_visible() -> spec_fn(Window) -> bool {
    |window: Window| !window.has_focus && window.is_visible
}

/// What is to be done to move the focused window in a direction.
#[derive(Debug, PartialEq, Eq)]
pub enum MoveWindowPlan {
    /// A window of the same space lies in the direction: warp the focused window
    /// towards it.
    Warp(WarpWindow),
    /// A window of another space lies in the direction: warp the focused window onto
    /// it, focus the warped window again, and warp it back by one step, so that it
    /// ends up on the near side of the other space.
    WarpAcross { warp: WarpWindow, focus: FocusWindowById, warp_back: WarpWindow },
    /// No window lies in the direction: move the focused window to the space that
    /// the display in the direction shows, and focus it again.
    MoveToSpace { command: MoveWindowToSpace, focus: FocusWindowById },
}

/// Finds the one window that has the focus, and the visible ones among the others.
pub fn introspect_windows(all_windows: Vec<Window>) -> (outcome: Result<
    IntrospectedWindows,
    IntrospectError,
>)
    ensures
        match outcome {
            Ok(windows) => {
                &&& all_windows@.filter(window_has_focus()) == seq![windows.active_window]
                &&& windows.other_visible_windows@ == all_windows@.filter(is_other_visible())
            },
            Err(IntrospectError::NoWindowHasFocus) => all_windows@.filter(
                window_has_focus(),
            ).len() == 0,
            Err(IntrospectError::SeveralWindowsHaveFocus) => all_windows@.filter(
                window_has_focus(),
            ).len() > 1,
        },
{
    let ghost all = all_windows@;
    let mut active_windows: Vec<Window> = Vec::new();
    let mut other_visible_windows: Vec<Window> = Vec::new();
    assert(all.take(0).filter(window_has_focus()) =~= Seq::<Window>::empty()) by {
        reveal(Seq::filter);
    }
    assert(all.take(0).filter(is_other_visible()) =~= Seq::<Window>::empty()) by {
        reveal(Seq::filter);
    }
    for window in it: all_windows
        invariant
            it.seq() == all,
            active_windows@ == all.take(it.index() as int).filter(window_has_focus()),
            other_visible_windows@ == all.take(it.index() as int).filter(is_other_visible()),
    {
        proof {
            let seen = all.take(it.index() as int);
            assert(all.take(it.index() + 1) == seen.push(window));
            filter_of_push(seen, window, window_has_focus());
            filter_of_push(seen, window, is_other_visible());
        }
        if window.has_focus {
            active_windows.push(window);
        } else if window.is_visible {
            other_visible_windows.push(window);
        }
    }
    assert(all.take(all.len() as int) == all);
    if active_windows.len() == 0 {
        Err(IntrospectError::NoWindowHasFocus)
    } else if active_windows.len() == 1 {
        let ghost focused = active_windows@;
        let active_window = active_windows.pop().unwrap();
        assert(focused =~= seq![active_window]);
        Ok(IntrospectedWindows { active_window, other_visible_windows })
    } else {
        Err(IntrospectError::SeveralWindowsHaveFocus)
    }
}

/// The position among `spaces` of the space to which a window goes that is moved in
/// `direction`: the space shown by the display that lies most directly in that
/// direction from the display of the focused space.
pub open spec fn space_in_direction(
    spaces: Seq<Space>,
    displays: Seq<Display>,
    direction: Direction,
) -> Result<int, LocateError> {
    match first_where(spaces, space_has_focus()) {
        None => Err(LocateError::NoSpaceHasFocus),
        Some(active) => match first_where(displays, display_has_index(spaces[active].display_index)) {
            None => Err(LocateError::DisplayNotFound(spaces[active].display_index)),
            Some(home) => match selection(displays[home].frame, frames_of(displays), direction) {
                None => Err(LocateError::NoDisplayInDirection),
                Some(target) => match first_where(spaces, space_shows_on(displays[target].index)) {
                    None => Err(LocateError::NoVisibleSpace(displays[target].index)),
                    Some(shown) => Ok(shown),
                },
            },
        },
    }
}

/// Finds the space to which a window goes that is moved in `direction`.
pub fn find_space_in_direction<'a>(
    direction: Direction,
    spaces: &'a [Space],
    displays: &[Display],
) -> (outcome: Result<&'a Space, LocateError>)
    ensures
        match space_in_direction(spaces@, displays@, direction) {
            Ok(shown) => 0 <= shown < spaces@.len() && outcome == Ok::<&Space, LocateError>(
                &spaces@[shown],
            ),
            Err(error) => outcome == Err::<&Space, LocateError>(error),
        },
{
    proof {
        first_where_is_first(spaces@, space_has_focus());
    }
    let active_space = match find_focused_space(spaces) {
        Some(active) => &spaces[active],
        None => {
            return Err(LocateError::NoSpaceHasFocus);
        },
    };
    proof {
        first_where_is_first(displays@, display_has_index(active_space.display_index));
    }
    let active_display = match find_display(displays, active_space.display_index) {
        Some(home) => &displays[home],
        None => {
            return Err(LocateError::DisplayNotFound(active_space.display_index));
        },
    };
    let target_display = match get_element_to_focus(&active_display.frame, displays, direction) {
        Some(display) => display,
        None => {
            return Err(LocateError::NoDisplayInDirection);
        },
    };
    proof {
        first_where_is_first(spaces@, space_shows_on(target_display.index));
    }
    match find_visible_space_on(spaces, target_display.index) {
        Some(shown) => Ok(&spaces[shown]),
        None => Err(LocateError::NoVisibleSpace(target_display.index)),
    }
}

/// How far the windows alone take the decision.
#[derive(Debug, PartialEq, Eq)]
pub enum MoveWindowStep {
    /// No window lies in the direction from the window that has the focus, the one
    /// with this id: the spaces and the displays are needed to go on.
    NeedsSpaces { active_window: WindowId },
    Done(MoveWindowPlan),
}

/// Decides from the windows alone, as far as they go.  Where a window lies in
/// `direction` from the one that has the focus, the focused window is warped: towards
/// it within a space, onto it across spaces.  Else the spaces and the displays are
/// needed.
pub fn move_window_among(direction: Direction, windows: Vec<Window>) -> (outcome: Result<
    MoveWindowStep,
    IntrospectError,
>)
    ensures
        ({
            let focused = windows@.filter(window_has_focus());
            let others = windows@.filter(is_other_visible());
            if focused.len() == 0 {
                outcome == Err::<MoveWindowStep, IntrospectError>(IntrospectError::NoWindowHasFocus)
            } else if focused.len() > 1 {
                outcome == Err::<MoveWindowStep, IntrospectError>(
                    IntrospectError::SeveralWindowsHaveFocus,
                )
            } else {
                match selection(focused[0].frame, frames_of(others), direction) {
                    Some(target) => if others[target].space_index == focused[0].space_index {
                        outcome matches Ok(MoveWindowStep::Done(MoveWindowPlan::Warp(warp)))
                            && warp.arg() == WarpWindowArg::Direction(direction)
                    } else {
                        &&& outcome matches Ok(
                            MoveWindowStep::Done(
                                MoveWindowPlan::WarpAcross { warp, focus, warp_back },
                            ),
                        )
                        &&& warp.arg() == WarpWindowArg::WindowId(others[target].id)
                        &&& focus.id() == focused[0].id
                        &&& warp_back.arg() == WarpWindowArg::Direction(direction.opposite())
                    },
                    None => outcome matches Ok(MoveWindowStep::NeedsSpaces { active_window })
                        && active_window == focused[0].id,
                }
            }
        }),
{
    let IntrospectedWindows { active_window, other_visible_windows } = match introspect_windows(
        windows,
    ) {
        Ok(introspected) => introspected,
        Err(error) => {
            return Err(error);
        },
    };
    match get_element_to_focus(&active_window.frame, other_visible_windows.as_slice(), direction) {
        Some(target_window) => {
            if target_window.space_index.0 == active_window.space_index.0 {
                Ok(
                    MoveWindowStep::Done(
                        MoveWindowPlan::Warp(WarpWindow::new(WarpWindowArg::Direction(direction))),
                    ),
                )
            } else {
                let opposite_direction = direction.into_opposite();
                Ok(
                    MoveWindowStep::Done(
                        MoveWindowPlan::WarpAcross {
                            warp: WarpWindow::new(WarpWindowArg::WindowId(target_window.id)),
                            focus: FocusWindowById::new(active_window.id),
                            warp_back: WarpWindow::new(
                                WarpWindowArg::Direction(opposite_direction),
                            ),
                        },
                    ),
                )
            }
        },
        None => Ok(MoveWindowStep::NeedsSpaces { active_window: active_window.id }),
    }
}

/// Goes on with the decision once the spaces and the displays are known: the window
/// with the id `active_window` moves to the space that the display in `direction`
/// shows, and gets the focus again.
pub fn move_window_with_spaces(
    direction: Direction,
    active_window: WindowId,
    spaces: &[Space],
    displays: &[Display],
) -> (outcome: Result<MoveWindowPlan, LocateError>)
    ensures
        match space_in_direction(spaces@, displays@, direction) {
            Ok(shown) => {
                &&& outcome matches Ok(MoveWindowPlan::MoveToSpace { command, focus })
                &&& command.target_space_label@ == decimal_digits(spaces@[shown].index.0 as nat)
                &&& focus.id() == active_window
            },
            Err(error) => outcome == Err::<MoveWindowPlan, LocateError>(error),
        },
{
    let target_space = match find_space_in_direction(direction, spaces, displays) {
        Ok(space) => space,
        Err(error) => {
            return Err(error);
        },
    };
    let target_space_specifier = decimal_string(target_space.index.0);
    Ok(
        MoveWindowPlan::MoveToSpace {
            command: MoveWindowToSpace { target_space_label: target_space_specifier },
            focus: FocusWindowById::new(active_window),
        },
    )
}

/// Decides how the focused window moves in `direction`.  This is `move_window_among`,
/// followed where it asks for them by `move_window_with_spaces`.
pub fn move_window_in_direction(
    direction: Direction,
    windows: Vec<Window>,
    spaces: &[Space],
    displays: &[Display],
) -> (outcome: Result<MoveWindowPlan, MoveWindowError>)
    ensures
        ({
            let focused = windows@.filter(window_has_focus());
            let others = windows@.filter(is_other_visible());
            if focused.len() == 0 {
                outcome == Err::<MoveWindowPlan, MoveWindowError>(
                    MoveWindowError::Windows(IntrospectError::NoWindowHasFocus),
                )
            } else if focused.len() > 1 {
                outcome == Err::<MoveWindowPlan, MoveWindowError>(
                    MoveWindowError::Windows(IntrospectError::SeveralWindowsHaveFocus),
                )
            } else {
                match selection(focused[0].frame, frames_of(others), direction) {
                    Some(target) => if others[target].space_index == focused[0].space_index {
                        outcome matches Ok(MoveWindowPlan::Warp(warp)) && warp.arg()
                            == WarpWindowArg::Direction(direction)
                    } else {
                        &&& outcome matches Ok(MoveWindowPlan::WarpAcross { warp, focus, warp_back })
                        &&& warp.arg() == WarpWindowArg::WindowId(others[target].id)
                        &&& focus.id() == focused[0].id
                        &&& warp_back.arg() == WarpWindowArg::Direction(direction.opposite())
                    },
                    None => match space_in_direction(spaces@, displays@, direction) {
                        Ok(shown) => {
                            &&& outcome matches Ok(MoveWindowPlan::MoveToSpace { command, focus })
                            &&& command.target_space_label@ == decimal_digits(
                                spaces@[shown].index.0 as nat,
                            )
                            &&& focus.id() == focused[0].id
                        },
                        Err(error) => outcome == Err::<MoveWindowPlan, MoveWindowError>(
                            MoveWindowError::Space(error),
                        ),
                    },
                }
            }
        }),
{
    match move_window_among(direction, windows) {
        Err(error) => Err(MoveWindowError::Windows(error)),
        Ok(MoveWindowStep::Done(plan)) => Ok(plan),
        Ok(MoveWindowStep::NeedsSpaces { active_window }) => {
            match move_window_with_spaces(direction, active_window, spaces, displays) {
                Ok(plan) => Ok(plan),
                Err(error) => Err(MoveWindowError::Space(error)),
            }
        },
    }
}

} // verus!
