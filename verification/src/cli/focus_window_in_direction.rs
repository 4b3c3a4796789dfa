use super::lookup::{
    display_has_index, find_display, find_focused_space, find_focused_window, space_has_focus,
    window_has_focus, LocateError,
};
use crate::position::vector_2d::frames_of;
use crate::position::{get_element_to_focus, selection, Direction};
use crate::sequences::{filter_of_push, first_where, first_where_is_first};
use crate::yabai::command::{FocusSpaceByIndex, FocusWindowById};
use crate::yabai::transport::{Display, Frame, Framed, Space, SpaceIndex, Window};
use vstd::prelude::*;

verus! {

/// A space with the frame of the display that it is on.
#[derive(Debug, Clone, Copy, PartialEq, Eq, Structural)]
pub struct SpaceWithFrame {
    pub index: SpaceIndex,
    pub frame: Frame,
}

impl Framed for SpaceWithFrame {
    open spec fn occupied_frame(&self) -> Frame {
        self.frame
    }

    fn frame(&self) -> (frame: &Frame) {
        &self.frame
    }
}

/// What has the focus: a window, given by its position among the windows, or else a
/// space.
#[derive(Debug, Clone, Copy, PartialEq, Eq, Structural)]
pub enum ActiveUIElement {
    Space(SpaceWithFrame),
    Window { position: usize, frame: Frame },
}

impl Framed for ActiveUIElement {
    open spec fn occupied_frame(&self) -> Frame {
        match self {
            ActiveUIElement::Space(space) => space.frame,
            ActiveUIElement::Window { position, frame } => *frame,
        }
    }

    fn frame(&self) -> (frame: &Frame) {
        match self {
            ActiveUIElement::Space(space) => &space.frame,
            ActiveUIElement::Window { position, frame } => frame,
        }
    }
}

/// What is to get the focus.
#[derive(Debug, PartialEq, Eq)]
pub enum FocusPlan {
    Window(FocusWindowById),
    Space(FocusSpaceByIndex),
    /// Neither a window nor a space lies in the direction.
    Nothing,
}

/// The window is visible.
pub open spec fn window_is_visible() -> spec_fn(Window) -> bool {
    |window: Window| window.is_visible
}

/// The windows but the one at the position `active`, in order.  A position that is
/// none of `windows` leaves them all.
pub open spec fn other_windows(windows: Seq<Window>, active: Option<int>) -> Seq<Window> {
    match active {
        Some(position) if 0 <= position < windows.len() => windows.remove(position),
        _ => windows,
    }
}

/// The first space that has the focus, with the frame of its display.
pub open spec fn focused_space_with_frame(spaces: Seq<Space>, displays: Seq<Display>) -> Result<
    SpaceWithFrame,
    LocateError,
> {
    match first_where(spaces, space_has_focus()) {
        None => Err(LocateError::NoSpaceHasFocus),
        Some(focused) => match first_where(
            displays,
            display_has_index(spaces[focused].display_index),
        ) {
            None => Err(LocateError::DisplayNotFound(spaces[focused].display_index)),
            Some(home) => Ok(
                SpaceWithFrame { index: spaces[focused].index, frame: displays[home].frame },
            ),
        },
    }
}

/// What has the focus: the first window that has it; where no window has it, the
/// first space that has it, with the frame of its display.
pub open spec fn active_ui_element(
    windows: Seq<Window>,
    spaces: Seq<Space>,
    displays: Seq<Display>,
) -> Result<ActiveUIElement, LocateError> {
    match first_where(windows, window_has_focus()) {
        Some(position) => Ok(
            ActiveUIElement::Window { position: position as usize, frame: windows[position].frame },
        ),
        None => match focused_space_with_frame(spaces, displays) {
            Ok(space) => Ok(ActiveUIElement::Space(space)),
            Err(error) => Err(error),
        },
    }
}

/// The frame from which the focus moves: the one given, or else that of the display
/// of the focused space.
pub open spec fn origin_frame(
    origin: Option<Frame>,
    spaces: Seq<Space>,
    displays: Seq<Display>,
) -> Result<Frame, LocateError> {
    match origin {
        Some(frame) => Ok(frame),
        None => match focused_space_with_frame(spaces, displays) {
            Ok(space) => Ok(space.frame),
            Err(error) => Err(error),
        },
    }
}

/// The visible spaces that lack the focus, each with the frame of its display, in the
/// order of the spaces; or the first of them whose display is not among `displays`.
pub open spec fn placed_spaces(spaces: Seq<Space>, displays: Seq<Display>) -> Result<
    Seq<SpaceWithFrame>,
    LocateError,
>
    decreases spaces.len(),
{
    if spaces.len() == 0 {
        Ok(Seq::empty())
    } else {
        let space = spaces.last();
        match placed_spaces(spaces.drop_last(), displays) {
            Err(error) => Err(error),
            Ok(before) => if space.is_visible && !space.has_focus {
                match first_where(displays, display_has_index(space.display_index)) {
                    Some(home) => Ok(
                        before.push(
                            SpaceWithFrame { index: space.index, frame: displays[home].frame },
                        ),
                    ),
                    None => Err(LocateError::DisplayNotFound(space.display_index)),
                }
            } else {
                Ok(before)
            },
        }
    }
}

/// Finds the first space that has the focus, and the frame of its display.
pub fn find_focused_space_with_frame(spaces: &[Space], displays: &[Display]) -> (outcome: Result<
    SpaceWithFrame,
    LocateError,
>)
    ensures
        outcome == focused_space_with_frame(spaces@, displays@),
{
    proof {
        first_where_is_first(spaces@, space_has_focus());
    }
    let focused_space = match find_focused_space(spaces) {
        Some(focused) => &spaces[focused],
        None => {
            return Err(LocateError::NoSpaceHasFocus);
        },
    };
    proof {
        first_where_is_first(displays@, display_has_index(focused_space.display_index));
    }
    match find_display(displays, focused_space.display_index) {
        Some(home) => Ok(SpaceWithFrame { index: focused_space.index, frame: displays[home].frame }),
        None => Err(LocateError::DisplayNotFound(focused_space.display_index)),
    }
}

/// Finds what has the focus.
pub fn find_active_ui_element(windows: &[Window], spaces: &[Space], displays: &[Display]) -> (outcome:
    Result<ActiveUIElement, LocateError>)
    ensures
        outcome == active_ui_element(windows@, spaces@, displays@),
        outcome matches Ok(ActiveUIElement::Window { position, frame }) ==> position
            < windows@.len(),
{
    proof {
        first_where_is_first(windows@, window_has_focus());
    }
    if let Some(position) = find_focused_window(windows) {
        return Ok(ActiveUIElement::Window { position, frame: windows[position].frame });
    }
    match find_focused_space_with_frame(spaces, displays) {
        Ok(space) => Ok(ActiveUIElement::Space(space)),
        Err(error) => Err(error),
    }
}

/// The visible windows among `windows`, without the one at the position `active`.
pub fn visible_windows_except(windows: Vec<Window>, active: Option<usize>) -> (others: Vec<Window>)
    ensures
        others@ == other_windows(
            windows@,
            match active {
                Some(position) => Some(position as int),
                None => None,
            },
        ).filter(window_is_visible()),
{
    let ghost all = windows@;
    let ghost skipped: Option<int> = match active {
        Some(position) if position < all.len() => Some(position as int),
        _ => None,
    };
    let mut others: Vec<Window> = Vec::new();
    let mut position: usize = 0;
    assert(all.len() == windows.len());
    assert(all.take(0).filter(window_is_visible()) =~= Seq::<Window>::empty()) by {
        reveal(Seq::filter);
    }
    for window in it: windows
        invariant
            it.seq() == all,
            position == it.index(),
            all.len() <= usize::MAX,
            skipped == match active {
                Some(position) if position < all.len() => Some(position as int),
                _ => None::<int>,
            },
            skipped matches Some(at) ==> 0 <= at < all.len(),
            others@ == (match skipped {
                Some(at) if at < position => all.take(position as int).remove(at),
                _ => all.take(position as int),
            }).filter(window_is_visible()),
    {
        let ghost seen = match skipped {
            Some(at) if at < position => all.take(position as int).remove(at),
            _ => all.take(position as int),
        };
        let ghost seen_after = match skipped {
            Some(at) if at < position + 1 => all.take(position + 1).remove(at),
            _ => all.take(position + 1),
        };
        let is_active = match active {
            Some(at) => at == position,
            None => false,
        };
        if is_active {
            assert(seen_after =~= seen);
        } else {
            assert(seen_after =~= seen.push(window));
            proof {
                filter_of_push(seen, window, window_is_visible());
            }
            if window.is_visible {
                others.push(window);
            }
        }
        position += 1;
    }
    assert(all.take(all.len() as int) == all);
    others
}

/// The visible spaces that lack the focus, each with the frame of its display.
pub fn place_spaces(spaces: &[Space], displays: &[Display]) -> (outcome: Result<
    Vec<SpaceWithFrame>,
    LocateError,
>)
    ensures
        match placed_spaces(spaces@, displays@) {
            Ok(placed) => outcome matches Ok(found) && found@ == placed,
            Err(error) => outcome == Err::<Vec<SpaceWithFrame>, LocateError>(error),
        },
{
    let mut placed: Vec<SpaceWithFrame> = Vec::new();
    let mut i: usize = 0;
    while i < spaces.len()
        invariant
            i <= spaces@.len(),
            placed_spaces(spaces@.take(i as int), displays@) == Ok::<
                Seq<SpaceWithFrame>,
                LocateError,
            >(placed@),
        decreases spaces@.len() - i,
    {
        let space = &spaces[i];
        assert(spaces@.take(i + 1).drop_last() == spaces@.take(i as int));
        assert(spaces@.take(i + 1).last() == *space);
        if space.is_visible && !space.has_focus {
            proof {
                first_where_is_first(displays@, display_has_index(space.display_index));
            }
            match find_display(displays, space.display_index) {
                Some(home) => {
                    placed.push(SpaceWithFrame { index: space.index, frame: displays[home].frame });
                },
                None => {
                    proof {
                        failure_stays(spaces@, displays@, i + 1);
                    }
                    return Err(LocateError::DisplayNotFound(space.display_index));
                },
            }
        }
        i += 1;
    }
    assert(spaces@.take(i as int) == spaces@);
    Ok(placed)
}

/// Once a space cannot be placed, more spaces after it do not change the failure.
proof fn failure_stays(spaces: Seq<Space>, displays: Seq<Display>, upto: int)
    requires
        0 <= upto <= spaces.len(),
        placed_spaces(spaces.take(upto), displays) is Err,
    ensures
        placed_spaces(spaces, displays) == placed_spaces(spaces.take(upto), displays),
    decreases spaces.len(),
{
    if upto < spaces.len() {
        let shorter = spaces.drop_last();
        assert(shorter.take(upto) == spaces.take(upto));
        failure_stays(shorter, displays, upto);
    } else {
        assert(spaces.take(upto) == spaces);
    }
}

/// What is left of the decision once the windows are known and do not settle it.
#[derive(Debug, PartialEq, Eq)]
pub struct FocusPending {
    /// The frame of the window that has the focus, where one has it.
    pub origin: Option<Frame>,
    /// The visible windows, without the one that has the focus.
    pub other_windows: Vec<Window>,
}

/// How far the windows alone take the decision.
#[derive(Debug, PartialEq, Eq)]
pub enum FocusStep {
    /// The spaces and the displays are needed to go on.
    NeedsSpaces(FocusPending),
    Done(FocusPlan),
}

/// Decides from the windows alone, as far as they go.  Where a window has the focus
/// and a window lies in `direction` from it, that window gets the focus.  Else the
/// spaces and the displays are needed.
pub fn focus_window_among(direction: Direction, windows: Vec<Window>) -> (step: FocusStep)
    ensures
        match first_where(windows@, window_has_focus()) {
            Some(active) => {
                let others = other_windows(windows@, Some(active)).filter(window_is_visible());
                match selection(windows@[active].frame, frames_of(others), direction) {
                    Some(target) => step matches FocusStep::Done(FocusPlan::Window(command))
                        && command.id() == others[target].id,
                    None => step matches FocusStep::NeedsSpaces(pending) && pending.origin == Some(
                        windows@[active].frame,
                    ) && pending.other_windows@ == others,
                }
            },
            None => step matches FocusStep::NeedsSpaces(pending) && pending.origin is None
                && pending.other_windows@ == windows@.filter(window_is_visible()),
        },
{
    proof {
        first_where_is_first(windows@, window_has_focus());
    }
    assert(windows@.len() == windows.len());
    match find_focused_window(windows.as_slice()) {
        Some(position) => {
            let frame = windows[position].frame;
            let other_windows = visible_windows_except(windows, Some(position));
            match get_element_to_focus(&frame, other_windows.as_slice(), direction) {
                Some(window_to_focus) => FocusStep::Done(
                    FocusPlan::Window(FocusWindowById::new(window_to_focus.id)),
                ),
                None => FocusStep::NeedsSpaces(FocusPending { origin: Some(frame), other_windows }),
            }
        },
        None => {
            let other_windows = visible_windows_except(windows, None);
            FocusStep::NeedsSpaces(FocusPending { origin: None, other_windows })
        },
    }
}

/// Goes on with the decision once the spaces and the displays are known.  The focus
/// moves from the frame in `pending`, or else from the display of the focused space:
/// to the window that lies most directly in `direction`, or, where no window does, to
/// the space whose display does.
pub fn focus_with_spaces(
    direction: Direction,
    pending: FocusPending,
    spaces: &[Space],
    displays: &[Display],
) -> (outcome: Result<FocusPlan, LocateError>)
    ensures
        match origin_frame(pending.origin, spaces@, displays@) {
            Err(error) => outcome == Err::<FocusPlan, LocateError>(error),
            Ok(frame) => match selection(frame, frames_of(pending.other_windows@), direction) {
                Some(target) => outcome matches Ok(FocusPlan::Window(command)) && command.id()
                    == pending.other_windows@[target].id,
                None => match placed_spaces(spaces@, displays@) {
                    Err(error) => outcome == Err::<FocusPlan, LocateError>(error),
                    Ok(placed) => match selection(frame, frames_of(placed), direction) {
                        Some(target) => outcome matches Ok(FocusPlan::Space(command))
                            && command.index() == placed[target].index,
                        None => outcome == Ok::<FocusPlan, LocateError>(FocusPlan::Nothing),
                    },
                },
            },
        },
{
    let focused_frame = match pending.origin {
        Some(frame) => frame,
        None => match find_focused_space_with_frame(spaces, displays) {
            Ok(space) => space.frame,
            Err(error) => {
                return Err(error);
            },
        },
    };
    if let Some(window_to_focus) = get_element_to_focus(
        &focused_frame,
        pending.other_windows.as_slice(),
        direction,
    ) {
        return Ok(FocusPlan::Window(FocusWindowById::new(window_to_focus.id)));
    }
    let spaces_with_frames = match place_spaces(spaces, displays) {
        Ok(placed) => placed,
        Err(error) => {
            return Err(error);
        },
    };
    match get_element_to_focus(&focused_frame, spaces_with_frames.as_slice(), direction) {
        Some(space_to_focus) => Ok(FocusPlan::Space(FocusSpaceByIndex::new(space_to_focus.index))),
        None => Ok(FocusPlan::Nothing),
    }
}

/// Decides what gets the focus when it moves in `direction`: the window that lies
/// most directly in that direction from what has the focus now, or, where no window
/// does, the space whose display does.  This is `focus_window_among`, followed where
/// it asks for them by `focus_with_spaces`.
pub fn focus_window_in_direction(
    direction: Direction,
    windows: Vec<Window>,
    spaces: &[Space],
    displays: &[Display],
) -> (outcome: Result<FocusPlan, LocateError>)
    ensures
        match active_ui_element(windows@, spaces@, displays@) {
            Err(error) => outcome == Err::<FocusPlan, LocateError>(error),
            Ok(active) => {
                let others = other_windows(
                    windows@,
                    first_where(windows@, window_has_focus()),
                ).filter(window_is_visible());
                match selection(active.occupied_frame(), frames_of(others), direction) {
                    Some(target) => outcome matches Ok(FocusPlan::Window(command)) && command.id()
                        == others[target].id,
                    None => match placed_spaces(spaces@, displays@) {
                        Err(error) => outcome == Err::<FocusPlan, LocateError>(error),
                        Ok(placed) => match selection(
                            active.occupied_frame(),
                            frames_of(placed),
                            direction,
                        ) {
                            Some(target) => outcome matches Ok(FocusPlan::Space(command))
                                && command.index() == placed[target].index,
                            None => outcome == Ok::<FocusPlan, LocateError>(FocusPlan::Nothing),
                        },
                    },
                }
            },
        },
{
    proof {
        first_where_is_first(windows@, window_has_focus());
    }
    match focus_window_among(direction, windows) {
        FocusStep::Done(plan) => Ok(plan),
        FocusStep::NeedsSpaces(pending) => focus_with_spaces(direction, pending, spaces, displays),
    }
}

} // verus!
