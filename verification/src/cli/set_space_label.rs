use super::lookup::{find_focused_space, find_space_carrying, space_carries, space_has_focus};
use crate::label::space::{
    formatted_label, parsed_label, LabelDialect, ParseSpaceLabelError, StableSpaceIndex,
};
use crate::label::Labelable;
use crate::sequences::{first_where, first_where_is_first};
use crate::yabai::command::LabelSpace;
use crate::yabai::transport::Space;
use vstd::prelude::*;

verus! {

/// What the label of the focused space is to say.
pub struct SetSpaceLabelArgs {
    /// The stable index to give; `None` keeps the one that the space has.
    pub stable_index: Option<StableSpaceIndex>,
    pub description: Option<String>,
}

/// Why the focused space cannot be labeled.
#[derive(Debug, PartialEq, Eq)]
pub enum SetSpaceLabelError {
    /// No space has the focus.
    NoActiveSpace,
    /// Another space carries the stable index that was asked for.
    StableIndexTaken(StableSpaceIndex),
    /// No stable index was given, and the focused space has no label to take one from.
    NoStableIndex,
    /// No stable index was given, and the label of the focused space carries none.
    UnreadableLabel(ParseSpaceLabelError),
}

impl SetSpaceLabelArgs {
    /// The description, as text.
    pub open spec fn description_text(&self) -> Option<Seq<char>> {
        match self.description {
            Some(text) => Some(text@),
            None => None,
        }
    }
}

/// The request that labels the focused space as `args` say.
///
/// A stable index that is given must not be carried by a space that lacks the focus.
/// Where none is given, the focused space keeps its own, which its label must carry.
/// The labels that the spaces have are read as `dialect` has it.
pub fn set_space_label(
    args: SetSpaceLabelArgs,
    spaces: &[Space],
    dialect: LabelDialect,
) -> (outcome: Result<
    LabelSpace,
    SetSpaceLabelError,
>)
    ensures
        match first_where(spaces@, space_has_focus()) {
            None => outcome == Err::<LabelSpace, SetSpaceLabelError>(
                SetSpaceLabelError::NoActiveSpace,
            ),
            Some(active) => match args.stable_index {
                Some(index) => match first_where(spaces@, space_carries(index@, true, dialect)) {
                    Some(_) => outcome == Err::<LabelSpace, SetSpaceLabelError>(
                        SetSpaceLabelError::StableIndexTaken(index),
                    ),
                    None => outcome matches Ok(command) && command.index() == spaces@[active].index
                        && command.label() == formatted_label(index@, args.description_text()),
                },
                None => match spaces@[active].label {
                    None => outcome == Err::<LabelSpace, SetSpaceLabelError>(
                        SetSpaceLabelError::NoStableIndex,
                    ),
                    Some(label) => match parsed_label(label@, dialect) {
                        Ok(number) => outcome matches Ok(command) && command.index()
                            == spaces@[active].index && command.label() == formatted_label(
                            number,
                            args.description_text(),
                        ),
                        Err(fault) => outcome matches Err(
                            SetSpaceLabelError::UnreadableLabel(error),
                        ) && error@ == fault && error@.label() == label@,
                    },
                },
            },
        },
{
    proof {
        first_where_is_first(spaces@, space_has_focus());
    }
    let active_space = match find_focused_space(spaces) {
        Some(active) => &spaces[active],
        None => {
            return Err(SetSpaceLabelError::NoActiveSpace);
        },
    };
    let stable_index = match args.stable_index {
        Some(stable_index) => {
            if find_space_carrying(spaces, stable_index, true, dialect).is_some() {
                return Err(SetSpaceLabelError::StableIndexTaken(stable_index));
            }
            stable_index
        },
        None => {
            let active_space_label = match &active_space.label {
                Some(label) => label,
                None => {
                    return Err(SetSpaceLabelError::NoStableIndex);
                },
            };
            match Space::parse_index_in(active_space_label.as_str(), dialect) {
                Ok(stable_index) => stable_index,
                Err(error) => {
                    return Err(SetSpaceLabelError::UnreadableLabel(error));
                },
            }
        },
    };
    let label = match &args.description {
        Some(description) => Space::label(stable_index, Some(description.as_str())),
        None => Space::label(stable_index, None),
    };
    Ok(LabelSpace::new(active_space.index, label))
}

} // verus!
