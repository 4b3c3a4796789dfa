use super::lookup::{
    display_has_index, find_display, find_focused_space, space_has_focus, LocateError,
};
use crate::position::vector_2d::frames_of;
use crate::position::{get_element_to_focus, selection, Direction};
use crate::sequences::{first_where, first_where_is_first};
use crate::yabai::command::SendSpaceToDisplay;
use crate::yabai::transport::{Display, Space};
use vstd::prelude::*;

verus! {

/// What is to be done to have the focused space on the display in a direction.
#[derive(Debug, PartialEq, Eq)]
pub struct MoveSpacePlan {
    /// The focused space is the only one on its display.
    pub last_on_display: bool,
    /// A space is to be created before the focused one is sent away, so that its
    /// display keeps one.
    pub create_space_first: bool,
    pub command: SendSpaceToDisplay,
}

/// Decides where the focused space goes: to the display that lies most directly in
/// `direction` from the display that it is on.
pub fn move_space_in_direction(
    direction: Direction,
    create_extra_space_if_last_on_display: bool,
    spaces: &[Space],
    displays: &[Display],
) -> (outcome: Result<MoveSpacePlan, LocateError>)
    ensures
        match first_where(spaces@, space_has_focus()) {
            None => outcome == Err::<MoveSpacePlan, LocateError>(LocateError::NoSpaceHasFocus),
            Some(active) => match first_where(
                displays@,
                display_has_index(spaces@[active].display_index),
            ) {
                None => outcome == Err::<MoveSpacePlan, LocateError>(
                    LocateError::DisplayNotFound(spaces@[active].display_index),
                ),
                Some(home) => match selection(
                    displays@[home].frame,
                    frames_of(displays@),
                    direction,
                ) {
                    None => outcome == Err::<MoveSpacePlan, LocateError>(
                        LocateError::NoDisplayInDirection,
                    ),
                    Some(target) => {
                        &&& outcome matches Ok(plan)
                        &&& plan.command.space_index() == spaces@[active].index
                        &&& plan.command.display_index() == displays@[target].index
                        &&& plan.last_on_display == (displays@[home].spaces@.len() == 1)
                        &&& plan.create_space_first == (plan.last_on_display
                            && create_extra_space_if_last_on_display)
                    },
                },
            },
        },
{
    proof {
        first_where_is_first(spaces@, space_has_focus());
    }
    let active_space = match find_focused_space(spaces) {
        Some(active) => &spaces[active],
        None => {
            return Err(LocateError::NoSpaceHasFocus);
        },
    };
    proof {
        first_where_is_first(displays@, display_has_index(active_space.display_index));
    }
    let active_display = match find_display(displays, active_space.display_index) {
        Some(home) => &displays[home],
        None => {
            return Err(LocateError::DisplayNotFound(active_space.display_index));
        },
    };
    let target_display = match get_element_to_focus(&active_display.frame, displays, direction) {
        Some(display) => display,
        None => {
            return Err(LocateError::NoDisplayInDirection);
        },
    };
    let last_on_display = active_display.spaces.len() == 1;
    Ok(
        MoveSpacePlan {
            last_on_display,
            create_space_first: last_on_display && create_extra_space_if_last_on_display,
            command: SendSpaceToDisplay::new(active_space.index, target_display.index),
        },
    )
}

} // verus!
