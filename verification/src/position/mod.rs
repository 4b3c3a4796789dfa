pub mod direction;
pub mod vector_2d;

pub use direction::Direction;

use crate::yabai::transport::{Frame, Framed};
use vector_2d::{
    advance, candidate_indices, candidate_indices_are_exact, distance_squared,
    find_closest_in_direction, frames_of, get_candidates_in_direction, is_candidate, is_closest,
    lower_score_carries_over, noticeably_in_direction, scores_at_most, Vector2D,
};
use vstd::prelude::*;

verus! {

/// `other` is a candidate in `direction` from `reference`, and its centre lies
/// noticeably in that direction from the centre of `reference`.
pub open spec fn qualifies(reference: Frame, other: Frame, direction: Direction) -> bool {
    &&& is_candidate(reference, other, direction)
    &&& noticeably_in_direction(
        Vector2D::center_of(&reference),
        Vector2D::center_of(&other),
        direction,
    )
}

/// `frames[k]` qualifies, no qualifying frame scores lower than it, and every
/// qualifying frame before it scores higher.
pub open spec fn is_selected(
    reference: Frame,
    frames: Seq<Frame>,
    direction: Direction,
    k: int,
) -> bool {
    let center = Vector2D::center_of(&reference);
    &&& 0 <= k < frames.len()
    &&& qualifies(reference, frames[k], direction)
    &&& forall|j: int|
        0 <= j < frames.len() && #[trigger] qualifies(reference, frames[j], direction) ==> {
            &&& scores_at_most(
                center,
                Vector2D::center_of(&frames[k]),
                Vector2D::center_of(&frames[j]),
                direction,
            )
            &&& j < k ==> !scores_at_most(
                center,
                Vector2D::center_of(&frames[j]),
                Vector2D::center_of(&frames[k]),
                direction,
            )
        }
}

/// At most one position is selected.
pub proof fn selection_is_unique(
    reference: Frame,
    frames: Seq<Frame>,
    direction: Direction,
    k: int,
    l: int,
)
    requires
        is_selected(reference, frames, direction, k),
        is_selected(reference, frames, direction, l),
    ensures
        k == l,
{
    assert(qualifies(reference, frames[k], direction));
    assert(qualifies(reference, frames[l], direction));
}

/// The position of the frame to pick among `frames`: the selected one, if there is
/// one.
pub open spec fn selection(reference: Frame, frames: Seq<Frame>, direction: Direction) -> Option<
    int,
> {
    if exists|k: int| is_selected(reference, frames, direction, k) {
        Some(choose|k: int| is_selected(reference, frames, direction, k))
    } else {
        None
    }
}

/// `selection` gives the selected position where there is one, and `None` exactly when
/// no frame qualifies.
pub proof fn selection_is_exact(reference: Frame, frames: Seq<Frame>, direction: Direction)
    ensures
        match selection(reference, frames, direction) {
            Some(k) => is_selected(reference, frames, direction, k),
            None => forall|j: int|
                0 <= j < frames.len() ==> !#[trigger] qualifies(reference, frames[j], direction),
        },
        forall|k: int|
            is_selected(reference, frames, direction, k) ==> selection(reference, frames, direction)
                == Some(k),
{
    assert forall|k: int| is_selected(reference, frames, direction, k) implies selection(
        reference,
        frames,
        direction,
    ) == Some(k) by {
        let l = choose|l: int| is_selected(reference, frames, direction, l);
        selection_is_unique(reference, frames, direction, k, l);
    }
    if selection(reference, frames, direction) is None {
        assert forall|j: int| 0 <= j < frames.len() implies !#[trigger] qualifies(
            reference,
            frames[j],
            direction,
        ) by {
            if qualifies(reference, frames[j], direction) {
                let k = best_qualifying(reference, frames, direction, frames.len() as int);
                assert(is_selected(reference, frames, direction, k));
            }
        }
    }
}

/// A frame whose centre does not lie noticeably in the direction is never selected,
/// however near it is; and where some frame qualifies, one is selected.
pub proof fn near_perpendicular_is_never_selected(
    reference: Frame,
    frames: Seq<Frame>,
    direction: Direction,
    k: int,
)
    requires
        0 <= k < frames.len(),
        !noticeably_in_direction(
            Vector2D::center_of(&reference),
            Vector2D::center_of(&frames[k]),
            direction,
        ),
    ensures
        selection(reference, frames, direction) != Some(k),
        (exists|j: int| 0 <= j < frames.len() && qualifies(reference, frames[j], direction))
            ==> selection(reference, frames, direction) is Some,
{
    selection_is_exact(reference, frames, direction);
}

/// With no frames to choose from, nothing is selected, whatever the direction.
pub proof fn nothing_to_select_from(reference: Frame, direction: Direction)
    ensures
        selection(reference, Seq::<Frame>::empty(), direction) is None,
{
    selection_is_exact(reference, Seq::<Frame>::empty(), direction);
}

/// Among the frames before position `upto`, of which one qualifies, the first of those
/// that qualify with the lowest score.
proof fn best_qualifying(reference: Frame, frames: Seq<Frame>, direction: Direction, upto: int) -> (k:
    int)
    requires
        0 <= upto <= frames.len(),
        exists|j: int| 0 <= j < upto && qualifies(reference, frames[j], direction),
    ensures
        0 <= k < upto,
        qualifies(reference, frames[k], direction),
        forall|j: int|
            0 <= j < upto && #[trigger] qualifies(reference, frames[j], direction) ==> {
                &&& scores_at_most(
                    Vector2D::center_of(&reference),
                    Vector2D::center_of(&frames[k]),
                    Vector2D::center_of(&frames[j]),
                    direction,
                )
                &&& j < k ==> !scores_at_most(
                    Vector2D::center_of(&reference),
                    Vector2D::center_of(&frames[j]),
                    Vector2D::center_of(&frames[k]),
                    direction,
                )
            },
    decreases upto,
{
    let center = Vector2D::center_of(&reference);
    let last = upto - 1;
    if exists|j: int| 0 <= j < last && qualifies(reference, frames[j], direction) {
        let k = best_qualifying(reference, frames, direction, last);
        if qualifies(reference, frames[last], direction) && !scores_at_most(
            center,
            Vector2D::center_of(&frames[k]),
            Vector2D::center_of(&frames[last]),
            direction,
        ) {
            assert forall|j: int|
                0 <= j < upto && #[trigger] qualifies(reference, frames[j], direction) implies {
                &&& scores_at_most(
                    center,
                    Vector2D::center_of(&frames[last]),
                    Vector2D::center_of(&frames[j]),
                    direction,
                )
                &&& j < last ==> !scores_at_most(
                    center,
                    Vector2D::center_of(&frames[j]),
                    Vector2D::center_of(&frames[last]),
                    direction,
                )
            } by {
                if j < last {
                    lower_score_carries_over(
                        distance_squared(center, Vector2D::center_of(&frames[last])),
                        advance(center, Vector2D::center_of(&frames[last]), direction),
                        distance_squared(center, Vector2D::center_of(&frames[k])),
                        advance(center, Vector2D::center_of(&frames[k]), direction),
                        distance_squared(center, Vector2D::center_of(&frames[j])),
                        advance(center, Vector2D::center_of(&frames[j]), direction),
                    );
                }
            }
            last
        } else {
            k
        }
    } else {
        last
    }
}

/// Among `elements`, picks the one that lies most directly in `direction` from
/// `focused_frame`; `None` when none lies in that direction.
pub fn get_element_to_focus<'a, T: Framed>(
    focused_frame: &Frame,
    elements: &'a [T],
    direction: Direction,
) -> (target: Option<&'a T>)
    ensures
        match selection(*focused_frame, frames_of(elements@), direction) {
            Some(k) => 0 <= k < elements@.len() && target == Some(&elements@[k]),
            None => target is None,
        },
        elements@.len() == 0 ==> target is None,
{
    let candidates = get_candidates_in_direction(focused_frame, elements, direction);
    let center = Vector2D::from_frame_center(focused_frame);
    let ghost frames = frames_of(elements@);
    let ghost positions = candidate_indices(*focused_frame, frames, direction);
    proof {
        candidate_indices_are_exact(*focused_frame, frames, direction);
    }
    let mut points: Vec<Vector2D> = Vec::new();
    let mut m: usize = 0;
    while m < candidates.len()
        invariant
            m <= candidates@.len(),
            points@.len() == m,
            candidates@.len() == positions.len(),
            frames == frames_of(elements@),
            forall|n: int|
                0 <= n < candidates@.len() ==> 0 <= #[trigger] positions[n] < frames.len()
                    && *candidates@[n] == elements@[positions[n]],
            forall|n: int|
                0 <= n < m ==> (#[trigger] points@[n]).in_range() && points@[n]
                    == Vector2D::center_of(&frames[positions[n]]),
        decreases candidates@.len() - m,
    {
        let candidate = candidates[m];
        assert(*candidate == elements@[positions[m as int]]);
        points.push(Vector2D::from_frame_center(candidate.frame()));
        m += 1;
    }
    match find_closest_in_direction(center, points.as_slice(), direction) {
        Some(k) => {
            proof {
                let chosen = positions[k as int];
                assert(is_closest(center, points@, direction, k as int));
                assert forall|j: int|
                    0 <= j < frames.len() && #[trigger] qualifies(
                        *focused_frame,
                        frames[j],
                        direction,
                    ) implies {
                    &&& scores_at_most(
                        center,
                        Vector2D::center_of(&frames[chosen]),
                        Vector2D::center_of(&frames[j]),
                        direction,
                    )
                    &&& j < chosen ==> !scores_at_most(
                        center,
                        Vector2D::center_of(&frames[j]),
                        Vector2D::center_of(&frames[chosen]),
                        direction,
                    )
                } by {
                    assert(positions.contains(j));
                    let n = choose|n: int| 0 <= n < positions.len() && positions[n] == j;
                    assert(points@[n] == Vector2D::center_of(&frames[j]));
                    assert(noticeably_in_direction(center, points@[n], direction));
                    if j < chosen {
                        assert(n < k) by {
                            if n > k {
                                assert(positions[k as int] < positions[n]);
                            }
                        }
                    }
                }
                assert(points@[k as int] == Vector2D::center_of(&frames[chosen]));
                assert(is_selected(*focused_frame, frames, direction, chosen));
                selection_is_exact(*focused_frame, frames, direction);
            }
            Some(candidates[k])
        },
        None => {
            proof {
                assert forall|j: int| 0 <= j < elements@.len() implies !#[trigger] qualifies(
                    *focused_frame,
                    elements@[j].occupied_frame(),
                    direction,
                ) by {
                    if is_candidate(*focused_frame, frames[j], direction) {
                        assert(positions.contains(j));
                        let n = choose|n: int| 0 <= n < positions.len() && positions[n] == j;
                        assert(!noticeably_in_direction(center, points@[n], direction));
                    }
                }
                selection_is_exact(*focused_frame, frames, direction);
                if selection(*focused_frame, frames, direction) is Some {
                    let k = selection(*focused_frame, frames, direction).unwrap();
                    assert(qualifies(*focused_frame, elements@[k].occupied_frame(), direction));
                }
            }
            None
        },
    }
}

} // verus!
