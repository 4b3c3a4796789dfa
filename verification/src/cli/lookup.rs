use crate::label::partition::carried_number;
use crate::label::space::StableSpaceIndex;
use crate::label::{LabelDialect, Labelable};
use crate::sequences::{first_where, first_where_absent, first_where_found};
use crate::yabai::transport::{Display, DisplayIndex, Space, Window};
use vstd::prelude::*;

verus! {

/// Why the spaces and displays do not show where to go.
#[derive(Debug, Clone, Copy, PartialEq, Eq, Structural)]
pub enum LocateError {
    /// No space has the focus.
    NoSpaceHasFocus,
    /// No display has the index that a space names as its display.
    DisplayNotFound(DisplayIndex),
    /// No display lies in the direction.
    NoDisplayInDirection,
    /// The display with this index shows no space.
    NoVisibleSpace(DisplayIndex),
}

/// The space has the focus.
pub open spec fn space_has_focus() -> spec_fn(Space) -> bool {
    |space: Space| space.has_focus
}

/// The window has the focus.
pub open spec fn window_has_focus() -> spec_fn(Window) -> bool {
    |window: Window| window.has_focus
}

/// The display has this index.
pub open spec fn display_has_index(index: DisplayIndex) -> spec_fn(Display) -> bool {
    |display: Display| display.index == index
}

/// The space is visible and lies on the display with this index.
pub open spec fn space_shows_on(index: DisplayIndex) -> spec_fn(Space) -> bool {
    |space: Space| space.display_index == index && space.is_visible
}

/// The position of the first space that has the focus.
pub fn find_focused_space(spaces: &[Space]) -> (found: Option<usize>)
    ensures
        match found {
            Some(i) => first_where(spaces@, space_has_focus()) == Some(i as int),
            None => first_where(spaces@, space_has_focus()) is None,
        },
{
    let mut i: usize = 0;
    while i < spaces.len()
        invariant
            i <= spaces@.len(),
            forall|j: int| 0 <= j < i ==> !space_has_focus()(spaces@[j]),
        decreases spaces@.len() - i,
    {
        if spaces[i].has_focus {
            proof {
                first_where_found(spaces@, space_has_focus(), i as int);
            }
            return Some(i);
        }
        i += 1;
    }
    proof {
        first_where_absent(spaces@, space_has_focus());
    }
    None
}

/// The position of the first window that has the focus.
pub fn find_focused_window(windows: &[Window]) -> (found: Option<usize>)
    ensures
        match found {
            Some(i) => first_where(windows@, window_has_focus()) == Some(i as int),
            None => first_where(windows@, window_has_focus()) is None,
        },
{
    let mut i: usize = 0;
    while i < windows.len()
        invariant
            i <= windows@.len(),
            forall|j: int| 0 <= j < i ==> !window_has_focus()(windows@[j]),
        decreases windows@.len() - i,
    {
        if windows[i].has_focus {
            proof {
                first_where_found(windows@, window_has_focus(), i as int);
            }
            return Some(i);
        }
        i += 1;
    }
    proof {
        first_where_absent(windows@, window_has_focus());
    }
    None
}

/// The position of the first display with the index `index`.
pub fn find_display(displays: &[Display], index: DisplayIndex) -> (found: Option<usize>)
    ensures
        match found {
            Some(i) => first_where(displays@, display_has_index(index)) == Some(i as int),
            None => first_where(displays@, display_has_index(index)) is None,
        },
{
    let mut i: usize = 0;
    while i < displays.len()
        invariant
            i <= displays@.len(),
            forall|j: int| 0 <= j < i ==> !display_has_index(index)(displays@[j]),
        decreases displays@.len() - i,
    {
        if displays[i].index.0 == index.0 {
            proof {
                first_where_found(displays@, display_has_index(index), i as int);
            }
            return Some(i);
        }
        i += 1;
    }
    proof {
        first_where_absent(displays@, display_has_index(index));
    }
    None
}

/// The position of the first visible space on the display with the index `index`.
pub fn find_visible_space_on(spaces: &[Space], index: DisplayIndex) -> (found: Option<usize>)
    ensures
        match found {
            Some(i) => first_where(spaces@, space_shows_on(index)) == Some(i as int),
            None => first_where(spaces@, space_shows_on(index)) is None,
        },
{
    let mut i: usize = 0;
    while i < spaces.len()
        invariant
            i <= spaces@.len(),
            forall|j: int| 0 <= j < i ==> !space_shows_on(index)(spaces@[j]),
        decreases spaces@.len() - i,
    {
        if spaces[i].display_index.0 == index.0 && spaces[i].is_visible {
            proof {
                first_where_found(spaces@, space_shows_on(index), i as int);
            }
            return Some(i);
        }
        i += 1;
    }
    proof {
        first_where_absent(spaces@, space_shows_on(index));
    }
    None
}

/// The label of the space, read as `dialect` has it, carries the stable index with
/// this number; with `inactive_only`, the space moreover lacks the focus.
pub open spec fn space_carries(
    number: u32,
    inactive_only: bool,
    dialect: LabelDialect,
) -> spec_fn(Space) -> bool {
    |space: Space| carried_number(space, dialect) == Some(number) && (inactive_only ==> !space.has_focus)
}

/// The position of the first space that carries `index`, among all spaces or, with
/// `inactive_only`, among those that lack the focus.
pub fn find_space_carrying(
    spaces: &[Space],
    index: StableSpaceIndex,
    inactive_only: bool,
    dialect: LabelDialect,
) -> (found: Option<usize>)
    ensures
        match found {
            Some(i) => first_where(spaces@, space_carries(index@, inactive_only, dialect)) == Some(
                i as int,
            ),
            None => first_where(spaces@, space_carries(index@, inactive_only, dialect)) is None,
        },
{
    let mut i: usize = 0;
    while i < spaces.len()
        invariant
            i <= spaces@.len(),
            forall|j: int| 0 <= j < i ==> !space_carries(index@, inactive_only, dialect)(spaces@[j]),
        decreases spaces@.len() - i,
    {
        let space = &spaces[i];
        if !(inactive_only && space.has_focus) {
            let carried = match &space.label {
                Some(label) => match Space::parse_index_in(label.as_str(), dialect) {
                    Ok(other) => Some(other.get()),
                    Err(_) => None,
                },
                None => None,
            };
            assert(carried == carried_number(*space, dialect));
            if carried == Some(index.get()) {
                proof {
                    first_where_found(spaces@, space_carries(index@, inactive_only, dialect), i as int);
                }
                return Some(i);
            }
        }
        i += 1;
    }
    proof {
        first_where_absent(spaces@, space_carries(index@, inactive_only, dialect));
    }
    None
}

/// No space among `before` has the id of the space.
pub open spec fn space_is_new(before: Seq<Space>) -> spec_fn(Space) -> bool {
    |space: Space| forall|j: int| 0 <= j < before.len() ==> (#[trigger] before[j]).id != space.id
}

/// Whether a space among `spaces` has the id of `space`.
fn is_known(spaces: &[Space], space: &Space) -> (known: bool)
    ensures
        known == !space_is_new(spaces@)(*space),
{
    let mut j: usize = 0;
    while j < spaces.len()
        invariant
            j <= spaces@.len(),
            forall|l: int| 0 <= l < j ==> (#[trigger] spaces@[l]).id != space.id,
        decreases spaces@.len() - j,
    {
        if spaces[j].id.0 == space.id.0 {
            return true;
        }
        j += 1;
    }
    false
}

/// The position among `after` of the space that was created since `before` was
/// taken: the first one whose id no space of `before` has.
pub fn find_created_space(before: &[Space], after: &[Space]) -> (found: Option<usize>)
    ensures
        match found {
            Some(i) => first_where(after@, space_is_new(before@)) == Some(i as int),
            None => first_where(after@, space_is_new(before@)) is None,
        },
{
    let mut i: usize = 0;
    while i < after.len()
        invariant
            i <= after@.len(),
            forall|j: int| 0 <= j < i ==> !space_is_new(before@)(after@[j]),
        decreases after@.len() - i,
    {
        if !is_known(before, &after[i]) {
            proof {
                first_where_found(after@, space_is_new(before@), i as int);
            }
            return Some(i);
        }
        i += 1;
    }
    proof {
        first_where_absent(after@, space_is_new(before@));
    }
    None
}

} // verus!
