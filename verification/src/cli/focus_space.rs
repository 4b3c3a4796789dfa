use super::lookup::{find_focused_space, space_has_focus};
use crate::sequences::{first_where, first_where_is_first};
use crate::text::{chars_of, starts_with};
use crate::yabai::command::FocusSpaceByIndex;
use crate::yabai::transport::Space;
use vstd::prelude::*;

verus! {

/// Which neighbour of the focused space is meant.
#[derive(Debug, Clone, Copy, PartialEq, Eq, Structural)]
pub enum NextOrPrevious {
    Next,
    Previous,
}

/// No space of the display has the focus.
#[derive(Debug, Clone, Copy, PartialEq, Eq, Structural)]
pub struct NoFocusedSpace;

/// The position next to `active` among `count` positions, wrapping at either end.
pub open spec fn neighbour(active: int, count: int, next_or_previous: NextOrPrevious) -> int {
    match next_or_previous {
        NextOrPrevious::Next => (active + 1) % count,
        NextOrPrevious::Previous => if active == 0 {
            count - 1
        } else {
            active - 1
        },
    }
}

/// The request that focuses the space next to the focused one among the spaces of a
/// display, wrapping within the display.  A display with one space needs no request.
pub fn focus_next_or_previous_space(
    next_or_previous: NextOrPrevious,
    spaces_in_display: &[Space],
) -> (outcome: Result<Option<FocusSpaceByIndex>, NoFocusedSpace>)
    ensures
        match first_where(spaces_in_display@, space_has_focus()) {
            None => outcome is Err,
            Some(active) => match outcome {
                Ok(None) => spaces_in_display@.len() == 1,
                Ok(Some(command)) => spaces_in_display@.len() != 1 && command.index()
                    == spaces_in_display@[neighbour(
                    active,
                    spaces_in_display@.len() as int,
                    next_or_previous,
                )].index,
                Err(_) => false,
            },
        },
{
    let active_space_index = match find_focused_space(spaces_in_display) {
        Some(index) => index,
        None => {
            return Err(NoFocusedSpace);
        },
    };
    proof {
        first_where_is_first(spaces_in_display@, space_has_focus());
    }
    if spaces_in_display.len() == 1 {
        return Ok(None);
    }
    let space_to_focus_index = match next_or_previous {
        NextOrPrevious::Next => (active_space_index + 1) % spaces_in_display.len(),
        NextOrPrevious::Previous => {
            if active_space_index == 0 {
                spaces_in_display.len() - 1
            } else {
                active_space_index - 1
            }
        },
    };
    let space_to_focus = &spaces_in_display[space_to_focus_index];
    Ok(Some(FocusSpaceByIndex::new(space_to_focus.index)))
}

/// Why a prefix does not name one space.
#[derive(Debug, PartialEq, Eq)]
pub enum FindSpaceWithLabelPrefixError {
    NoSpacesFoundWithLabelPrefix { label_prefix: String },
    MoreThanOneSpaceFoundWithLabelPrefix { label_prefix: String, matching_spaces_labels: Vec<String> },
}

/// The label of the space begins with `prefix`.
pub open spec fn label_begins_with(prefix: Seq<char>) -> spec_fn(Space) -> bool {
    |space: Space|
        match space.label {
            Some(label) => prefix.is_prefix_of(label@),
            None => false,
        }
}

/// The positions in `spaces`, ascending, of the spaces whose label begins with
/// `prefix`.
pub open spec fn positions_with_prefix(spaces: Seq<Space>, prefix: Seq<char>) -> Seq<int>
    decreases spaces.len(),
{
    if spaces.len() == 0 {
        Seq::empty()
    } else {
        let before = positions_with_prefix(spaces.drop_last(), prefix);
        if label_begins_with(prefix)(spaces.last()) {
            before.push(spaces.len() - 1)
        } else {
            before
        }
    }
}

/// `positions_with_prefix` lists positions within the sequence.
pub proof fn positions_with_prefix_are_positions(spaces: Seq<Space>, prefix: Seq<char>)
    ensures
        forall|k: int|
            0 <= k < positions_with_prefix(spaces, prefix).len() ==> {
                let at = #[trigger] positions_with_prefix(spaces, prefix)[k];
                0 <= at < spaces.len() && label_begins_with(prefix)(spaces[at])
            },
    decreases spaces.len(),
{
    if spaces.len() > 0 {
        let shorter = spaces.drop_last();
        positions_with_prefix_are_positions(shorter, prefix);
        let found = positions_with_prefix(spaces, prefix);
        let before = positions_with_prefix(shorter, prefix);
        assert forall|k: int| 0 <= k < found.len() implies {
            let at = #[trigger] found[k];
            0 <= at < spaces.len() && label_begins_with(prefix)(spaces[at])
        } by {
            if k < before.len() {
                assert(found[k] == before[k]);
                assert(shorter[before[k]] == spaces[before[k]]);
            }
        }
    }
}

/// The one space whose label begins with `label_prefix`, as its position among
/// `spaces`.  None or several such spaces are an error; the labels of several are
/// reported in the order of the spaces.
pub fn find_space_with_prefix(spaces: &[Space], label_prefix: &str) -> (outcome: Result<
    usize,
    FindSpaceWithLabelPrefixError,
>)
    ensures
        match outcome {
            Ok(at) => positions_with_prefix(spaces@, label_prefix@) == seq![at as int],
            Err(FindSpaceWithLabelPrefixError::NoSpacesFoundWithLabelPrefix { label_prefix: reported }) => {
                &&& positions_with_prefix(spaces@, label_prefix@).len() == 0
                &&& reported@ == label_prefix@
            },
            Err(
                FindSpaceWithLabelPrefixError::MoreThanOneSpaceFoundWithLabelPrefix {
                    label_prefix: reported,
                    matching_spaces_labels,
                },
            ) => {
                let positions = positions_with_prefix(spaces@, label_prefix@);
                &&& positions.len() > 1
                &&& reported@ == label_prefix@
                &&& matching_spaces_labels@.len() == positions.len()
                &&& forall|k: int|
                    0 <= k < positions.len() ==> {
                        let at = #[trigger] positions[k];
                        0 <= at < spaces@.len() && spaces@[at].label is Some
                            && matching_spaces_labels@[k]@ == spaces@[at].label.unwrap()@
                    }
            },
        },
{
    let prefix = chars_of(label_prefix);
    let mut found: Vec<usize> = Vec::new();
    let mut labels: Vec<String> = Vec::new();
    let mut i: usize = 0;
    while i < spaces.len()
        invariant
            i <= spaces@.len(),
            prefix@ == label_prefix@,
            found@.len() == positions_with_prefix(spaces@.take(i as int), label_prefix@).len(),
            labels@.len() == found@.len(),
            forall|k: int|
                0 <= k < found@.len() ==> (#[trigger] found@[k]) as int == positions_with_prefix(
                    spaces@.take(i as int),
                    label_prefix@,
                )[k],
            forall|k: int|
                0 <= k < found@.len() ==> {
                    let at = #[trigger] found@[k];
                    at < i && spaces@[at as int].label is Some && labels@[k]@
                        == spaces@[at as int].label.unwrap()@
                },
        decreases spaces@.len() - i,
    {
        assert(spaces@.take(i + 1).drop_last() == spaces@.take(i as int));
        assert(spaces@.take(i + 1).last() == spaces@[i as int]);
        match &spaces[i].label {
            Some(label) => {
                let label_chars = chars_of(label.as_str());
                if starts_with(&label_chars, &prefix) {
                    let ghost found_before = found@;
                    let ghost labels_before = labels@;
                    found.push(i);
                    labels.push(label.clone());
                    assert forall|k: int| 0 <= k < found@.len() implies {
                        let at = #[trigger] found@[k];
                        at < i + 1 && spaces@[at as int].label is Some && labels@[k]@
                            == spaces@[at as int].label.unwrap()@
                    } by {
                        if k < found_before.len() {
                            assert(found@[k] == found_before[k]);
                            assert(labels@[k] == labels_before[k]);
                        }
                    }
                }
            },
            None => {},
        }
        i += 1;
    }
    assert(spaces@.take(i as int) == spaces@);
    if found.len() == 0 {
        Err(
            FindSpaceWithLabelPrefixError::NoSpacesFoundWithLabelPrefix {
                label_prefix: label_prefix.to_owned(),
            },
        )
    } else if found.len() == 1 {
        assert(positions_with_prefix(spaces@, label_prefix@) =~= seq![found@[0] as int]);
        Ok(found[0])
    } else {
        proof {
            let positions = positions_with_prefix(spaces@, label_prefix@);
            assert forall|k: int| 0 <= k < positions.len() implies {
                let at = #[trigger] positions[k];
                0 <= at < spaces@.len() && spaces@[at].label is Some && labels@[k]@
                    == spaces@[at].label.unwrap()@
            } by {
                assert(found@[k] as int == positions[k]);
            }
        }
        Err(
            FindSpaceWithLabelPrefixError::MoreThanOneSpaceFoundWithLabelPrefix {
                label_prefix: label_prefix.to_owned(),
                matching_spaces_labels: labels,
            },
        )
    }
}

/// What is to be done to focus the space with a given label.
#[derive(Debug, PartialEq, Eq)]
pub enum FocusByLabel {
    /// The space exists: focus it.
    Focus(FocusSpaceByIndex),
    /// No such space exists: create one with this label, then focus it.
    CreateAndFocus { label: String },
}

/// Decides how to focus the space whose label begins with `label_prefix`.  Where there
/// is none and one may be created, it is created under the prefix as its label.
pub fn focus_space_by_label(
    spaces: &[Space],
    label_prefix: &str,
    create_space_if_not_found: bool,
) -> (outcome: Result<FocusByLabel, FindSpaceWithLabelPrefixError>)
    ensures
        match outcome {
            Ok(FocusByLabel::Focus(command)) => {
                let positions = positions_with_prefix(spaces@, label_prefix@);
                positions.len() == 1 && 0 <= positions[0] < spaces@.len() && command.index()
                    == spaces@[positions[0]].index
            },
            Ok(FocusByLabel::CreateAndFocus { label }) => {
                &&& positions_with_prefix(spaces@, label_prefix@).len() == 0
                &&& create_space_if_not_found
                &&& label@ == label_prefix@
            },
            Err(FindSpaceWithLabelPrefixError::NoSpacesFoundWithLabelPrefix { label_prefix: reported }) => {
                &&& positions_with_prefix(spaces@, label_prefix@).len() == 0
                &&& !create_space_if_not_found
                &&& reported@ == label_prefix@
            },
            Err(
                FindSpaceWithLabelPrefixError::MoreThanOneSpaceFoundWithLabelPrefix {
                    label_prefix: reported,
                    matching_spaces_labels,
                },
            ) => {
                let positions = positions_with_prefix(spaces@, label_prefix@);
                &&& positions.len() > 1
                &&& reported@ == label_prefix@
                &&& matching_spaces_labels@.len() == positions.len()
                &&& forall|k: int|
                    0 <= k < positions.len() ==> {
                        let at = #[trigger] positions[k];
                        0 <= at < spaces@.len() && spaces@[at].label is Some
                            && matching_spaces_labels@[k]@ == spaces@[at].label.unwrap()@
                    }
            },
        },
{
    proof {
        positions_with_prefix_are_positions(spaces@, label_prefix@);
    }
    match find_space_with_prefix(spaces, label_prefix) {
        Ok(at) => {
            assert(positions_with_prefix(spaces@, label_prefix@)[0] == at);
            Ok(FocusByLabel::Focus(FocusSpaceByIndex::new(spaces[at].index)))
        },
        Err(FindSpaceWithLabelPrefixError::NoSpacesFoundWithLabelPrefix { label_prefix: reported }) => {
            if create_space_if_not_found {
                Ok(FocusByLabel::CreateAndFocus { label: label_prefix.to_owned() })
            } else {
                Err(
                    FindSpaceWithLabelPrefixError::NoSpacesFoundWithLabelPrefix {
                        label_prefix: reported,
                    },
                )
            }
        },
        Err(error) => Err(error),
    }
}

} // verus!
