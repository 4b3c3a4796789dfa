use super::lookup::{find_focused_space, find_space_carrying, space_carries, space_has_focus};
use crate::label::space::{formatted_label, LabelDialect, StableSpaceIndex};
use crate::sequences::{first_where, first_where_is_first};
use crate::yabai::command::{LabelSpace, MoveWindowToSpace};
use crate::yabai::transport::Space;
use vstd::prelude::*;

verus! {

/// What is to be done to have the focused window on the space with a stable index.
#[derive(Debug, PartialEq, Eq)]
pub enum MoveWindowToSpacePlan {
    /// The space exists: move the window there.
    Move(MoveWindowToSpace),
    /// No such space exists, and the window is alone on its space: that space takes
    /// the stable index.
    Relabel(LabelSpace),
    /// No such space exists: create one with this label, then move the window there.
    CreateAndMove { label: String, command: MoveWindowToSpace },
}

/// Why the focused window cannot be moved to a space.
#[derive(Debug, PartialEq, Eq)]
pub enum MoveWindowToSpaceError {
    /// No space has the focus.
    NoFocusedSpace,
    /// No space carries the stable index, and none may be created.
    SpaceNotFound(StableSpaceIndex),
}

/// Decides how the focused window gets to the space that carries `stable_space_index`,
/// the labels of the spaces being read as `dialect` has it.
pub fn move_window_to_space(
    stable_space_index: StableSpaceIndex,
    create_space_if_not_found: bool,
    spaces: &[Space],
    dialect: LabelDialect,
) -> (outcome: Result<MoveWindowToSpacePlan, MoveWindowToSpaceError>)
    ensures
        match first_where(spaces@, space_has_focus()) {
            None => outcome == Err::<MoveWindowToSpacePlan, MoveWindowToSpaceError>(
                MoveWindowToSpaceError::NoFocusedSpace,
            ),
            Some(focused) => match first_where(
                spaces@,
                space_carries(stable_space_index@, false, dialect),
            ) {
                Some(target) => outcome matches Ok(MoveWindowToSpacePlan::Move(command))
                    && spaces@[target].label is Some && command.target_space_label@
                    == spaces@[target].label.unwrap()@,
                None => if !create_space_if_not_found {
                    outcome == Err::<MoveWindowToSpacePlan, MoveWindowToSpaceError>(
                        MoveWindowToSpaceError::SpaceNotFound(stable_space_index),
                    )
                } else if spaces@[focused].windows@.len() == 1 {
                    outcome matches Ok(MoveWindowToSpacePlan::Relabel(command)) && command.index()
                        == spaces@[focused].index && command.label() == formatted_label(
                        stable_space_index@,
                        None,
                    )
                } else {
                    outcome matches Ok(MoveWindowToSpacePlan::CreateAndMove { label, command })
                        && label@ == formatted_label(stable_space_index@, None)
                        && command.target_space_label@ == label@
                },
            },
        },
{
    proof {
        first_where_is_first(spaces@, space_has_focus());
        first_where_is_first(spaces@, space_carries(stable_space_index@, false, dialect));
    }
    let focused_space = match find_focused_space(spaces) {
        Some(focused) => &spaces[focused],
        None => {
            return Err(MoveWindowToSpaceError::NoFocusedSpace);
        },
    };
    let focused_space_has_only_one_window = focused_space.windows.len() == 1;
    let focused_space_index = focused_space.index;

    match find_space_carrying(spaces, stable_space_index, false, dialect) {
        Some(target) => {
            match &spaces[target].label {
                Some(target_space_label) => Ok(
                    MoveWindowToSpacePlan::Move(
                        MoveWindowToSpace { target_space_label: target_space_label.clone() },
                    ),
                ),
                None => {
                    assert(false);
                    Err(MoveWindowToSpaceError::SpaceNotFound(stable_space_index))
                },
            }
        },
        None => {
            if !create_space_if_not_found {
                Err(MoveWindowToSpaceError::SpaceNotFound(stable_space_index))
            } else if focused_space_has_only_one_window {
                let label = Space::label(stable_space_index, None);
                Ok(MoveWindowToSpacePlan::Relabel(LabelSpace::new(focused_space_index, label)))
            } else {
                let label = Space::label(stable_space_index, None);
                let command = MoveWindowToSpace { target_space_label: label.clone() };
                Ok(MoveWindowToSpacePlan::CreateAndMove { label, command })
            }
        },
    }
}

} // verus!
