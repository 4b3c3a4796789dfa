use super::direction::Direction;
use crate::yabai::transport::{Frame, Framed};
use vstd::prelude::*;

verus! {

/// A point or a displacement on the screen, in half units: the centre of a frame has
/// whole coordinates on this scale whatever the parity of its extent.
#[derive(Debug, Clone, Copy, PartialEq, Eq, Structural)]
pub struct Vector2D {
    pub x: i64,
    pub y: i64,
}

/// The largest magnitude of a coordinate of a frame's centre, in half units.
pub const CENTER_LIMIT: i64 = 0x2_0000_0000;

/// A candidate counts as lying in a direction only if the cosine of the angle between
/// the direction and the displacement towards it is at least one over this number.
pub const COSINE_THRESHOLD_INVERSE: i128 = 0x80_0000;

impl Vector2D {
    /// The centre of `frame`, in half units.
    pub open spec fn center_of(frame: &Frame) -> Vector2D {
        Vector2D {
            x: (2 * frame.x + frame.width) as i64,
            y: (2 * frame.y + frame.height) as i64,
        }
    }

    /// Both coordinates lie within the limit that every centre of a frame obeys.
    pub open spec fn in_range(self) -> bool {
        &&& -CENTER_LIMIT <= self.x <= CENTER_LIMIT
        &&& -CENTER_LIMIT <= self.y <= CENTER_LIMIT
    }

    pub open spec fn dot_product(v1: Vector2D, v2: Vector2D) -> int {
        v1.x * v2.x + v1.y * v2.y
    }

    pub open spec fn squared_length(self) -> int {
        self.x * self.x + self.y * self.y
    }

    /// The unit vector that points in `direction`.
    pub open spec fn unit(direction: Direction) -> Vector2D {
        Vector2D { x: direction.unit_x() as i64, y: direction.unit_y() as i64 }
    }

    pub fn from_frame_center(frame: &Frame) -> (center: Self)
        ensures
            center == Self::center_of(frame),
            center.in_range(),
    {
        Self {
            x: 2 * (frame.x as i64) + frame.width as i64,
            y: 2 * (frame.y as i64) + frame.height as i64,
        }
    }

    pub fn dot(v1: Self, v2: Self) -> (product: i128)
        requires
            Self::dot_product(v1, v2) <= i128::MAX,
        ensures
            product == Self::dot_product(v1, v2),
    {
        proof {
            product_fits(v1.x, v2.x);
            product_fits(v1.y, v2.y);
        }
        let x: i128 = (v1.x as i128) * (v2.x as i128);
        let y: i128 = (v1.y as i128) * (v2.y as i128);
        x + y
    }

    /// The square of the Euclidean length.
    pub fn length_squared(self) -> (squared: u128)
        ensures
            squared == self.squared_length(),
    {
        proof {
            product_fits(self.x, self.x);
            product_fits(self.y, self.y);
            assert(self.x * self.x >= 0) by (nonlinear_arith);
            assert(self.y * self.y >= 0) by (nonlinear_arith);
        }
        let x: i128 = (self.x as i128) * (self.x as i128);
        let y: i128 = (self.y as i128) * (self.y as i128);
        x as u128 + y as u128
    }
}

impl From<Direction> for Vector2D {
    fn from(value: Direction) -> (unit: Vector2D) {
        match value {
            Direction::North => Self { x: 0, y: -1 },
            Direction::East => Self { x: 1, y: 0 },
            Direction::South => Self { x: 0, y: 1 },
            Direction::West => Self { x: -1, y: 0 },
        }
    }
}

impl vstd::std_specs::convert::FromSpecImpl<Direction> for Vector2D {
    open spec fn obeys_from_spec() -> bool {
        true
    }

    open spec fn from_spec(value: Direction) -> Vector2D {
        Vector2D::unit(value)
    }
}

impl core::ops::Sub for Vector2D {
    type Output = Vector2D;

    fn sub(self, rhs: Self) -> (difference: Vector2D) {
        Self { x: self.x - rhs.x, y: self.y - rhs.y }
    }
}

impl vstd::std_specs::ops::SubSpecImpl for Vector2D {
    open spec fn obeys_sub_spec() -> bool {
        true
    }

    /// Neither coordinate of the difference leaves the 64-bit range.
    open spec fn sub_req(self, rhs: Vector2D) -> bool {
        &&& i64::MIN <= self.x - rhs.x <= i64::MAX
        &&& i64::MIN <= self.y - rhs.y <= i64::MAX
    }

    open spec fn sub_spec(self, rhs: Vector2D) -> Vector2D {
        Vector2D { x: (self.x - rhs.x) as i64, y: (self.y - rhs.y) as i64 }
    }
}

impl core::ops::Add for Vector2D {
    type Output = Vector2D;

    fn add(self, rhs: Self) -> (sum: Vector2D) {
        Self { x: self.x + rhs.x, y: self.y + rhs.y }
    }
}

impl vstd::std_specs::ops::AddSpecImpl for Vector2D {
    open spec fn obeys_add_spec() -> bool {
        true
    }

    /// Neither coordinate of the sum leaves the 64-bit range.
    open spec fn add_req(self, rhs: Vector2D) -> bool {
        &&& i64::MIN <= self.x + rhs.x <= i64::MAX
        &&& i64::MIN <= self.y + rhs.y <= i64::MAX
    }

    open spec fn add_spec(self, rhs: Vector2D) -> Vector2D {
        Vector2D { x: (self.x + rhs.x) as i64, y: (self.y + rhs.y) as i64 }
    }
}

/// How far `point` lies from `center` along `direction`: the dot product of the unit
/// vector of the direction with the displacement from `center` to `point`.
pub open spec fn advance(center: Vector2D, point: Vector2D, direction: Direction) -> int {
    direction.unit_x() * (point.x - center.x) + direction.unit_y() * (point.y - center.y)
}

/// The square of the distance between `center` and `point`.
pub open spec fn distance_squared(center: Vector2D, point: Vector2D) -> int {
    (point.x - center.x) * (point.x - center.x) + (point.y - center.y) * (point.y - center.y)
}

/// The cosine of the angle between `direction` and the displacement from `center` to
/// `point` is at least `1 / COSINE_THRESHOLD_INVERSE`.  The cosine is the advance over
/// the distance; a point at `center` itself has none and does not qualify.
pub open spec fn noticeably_in_direction(
    center: Vector2D,
    point: Vector2D,
    direction: Direction,
) -> bool {
    let along = advance(center, point, direction);
    &&& along > 0
    &&& along * along * (COSINE_THRESHOLD_INVERSE * COSINE_THRESHOLD_INVERSE) >= distance_squared(
        center,
        point,
    )
}

/// The score of `p` is at most that of `q`.  The score of a point is its distance over
/// the cosine of its angle to the direction, which is its squared distance over its
/// advance; the comparison is cross-multiplied, both advances being positive.
pub open spec fn scores_at_most(
    center: Vector2D,
    p: Vector2D,
    q: Vector2D,
    direction: Direction,
) -> bool {
    distance_squared(center, p) * advance(center, q, direction) <= distance_squared(center, q)
        * advance(center, p, direction)
}

/// `points[k]` is noticeably in the direction, no such point scores lower, and every
/// such point before it scores higher.
pub open spec fn is_closest(
    center: Vector2D,
    points: Seq<Vector2D>,
    direction: Direction,
    k: int,
) -> bool {
    &&& 0 <= k < points.len()
    &&& noticeably_in_direction(center, points[k], direction)
    &&& forall|j: int|
        0 <= j < points.len() && #[trigger] noticeably_in_direction(center, points[j], direction)
            ==> {
            &&& scores_at_most(center, points[k], points[j], direction)
            &&& j < k ==> !scores_at_most(center, points[j], points[k], direction)
        }
}

/// Among `points`, finds the one that lies most directly in `direction` from `center`:
/// the first of those with the lowest score among the points noticeably in that
/// direction.  Returns its position, or `None` when no point qualifies.
pub fn find_closest_in_direction(
    center: Vector2D,
    points: &[Vector2D],
    direction: Direction,
) -> (closest: Option<usize>)
    requires
        center.in_range(),
        forall|j: int| 0 <= j < points@.len() ==> (#[trigger] points@[j]).in_range(),
    ensures
        match closest {
            Some(k) => is_closest(center, points@, direction, k as int),
            None => forall|j: int|
                0 <= j < points@.len() ==> !#[trigger] noticeably_in_direction(
                    center,
                    points@[j],
                    direction,
                ),
        },
{
    let unit = Vector2D::from(direction);
    let mut closest: Option<usize> = None;
    let mut closest_along: i128 = 0;
    let mut closest_squared: i128 = 0;
    let mut i: usize = 0;
    while i < points.len()
        invariant
            i <= points@.len(),
            center.in_range(),
            unit == Vector2D::unit(direction),
            forall|j: int| 0 <= j < points@.len() ==> (#[trigger] points@[j]).in_range(),
            match closest {
                Some(k) => {
                    &&& k < i
                    &&& is_closest(center, points@.take(i as int), direction, k as int)
                    &&& closest_along == advance(center, points@[k as int], direction)
                    &&& closest_squared == distance_squared(center, points@[k as int])
                },
                None => forall|j: int|
                    0 <= j < i ==> !#[trigger] noticeably_in_direction(
                        center,
                        points@[j],
                        direction,
                    ),
            },
        decreases points@.len() - i,
    {
        let point = points[i];
        assert(point.in_range());
        let displacement = point - center;
        proof {
            displacement_is_bounded(center, point, direction);
        }
        let along: i128 = Vector2D::dot(unit, displacement);
        let squared: i128 = displacement.length_squared() as i128;
        let ghost before = points@.take(i as int);
        let ghost after = points@.take(i + 1);
        assert(forall|j: int| 0 <= j < i ==> before[j] == after[j]);
        assert(after[i as int] == point);
        if along > 0 && along * along * (COSINE_THRESHOLD_INVERSE * COSINE_THRESHOLD_INVERSE)
            >= squared {
            assert(noticeably_in_direction(center, point, direction));
            match closest {
                None => {
                    closest = Some(i);
                    closest_along = along;
                    closest_squared = squared;
                    assert(is_closest(center, after, direction, i as int));
                },
                Some(k) => {
                    let ghost old_point = points@[k as int];
                    proof {
                        displacement_is_bounded(center, old_point, direction);
                        products_fit(squared, closest_along);
                        products_fit(closest_squared, along);
                    }
                    if squared * closest_along < closest_squared * along {
                        assert forall|j: int|
                            0 <= j < after.len() && #[trigger] noticeably_in_direction(
                                center,
                                after[j],
                                direction,
                            ) implies {
                            &&& scores_at_most(center, after[i as int], after[j], direction)
                            &&& j < i ==> !scores_at_most(
                                center,
                                after[j],
                                after[i as int],
                                direction,
                            )
                        } by {
                            if j < i {
                                assert(before[j] == after[j]);
                                assert(scores_at_most(center, before[k as int], before[j], direction));
                                lower_score_carries_over(
                                    squared as int,
                                    along as int,
                                    closest_squared as int,
                                    closest_along as int,
                                    distance_squared(center, after[j]),
                                    advance(center, after[j], direction),
                                );
                            }
                        }
                        closest = Some(i);
                        closest_along = along;
                        closest_squared = squared;
                    } else {
                        assert forall|j: int|
                            0 <= j < after.len() && #[trigger] noticeably_in_direction(
                                center,
                                after[j],
                                direction,
                            ) implies {
                            &&& scores_at_most(center, after[k as int], after[j], direction)
                            &&& j < k ==> !scores_at_most(
                                center,
                                after[j],
                                after[k as int],
                                direction,
                            )
                        } by {
                            if j < i {
                                assert(before[j] == after[j]);
                            }
                        }
                    }
                },
            }
        } else {
            assert(!noticeably_in_direction(center, point, direction));
            match closest {
                None => {},
                Some(k) => {
                    assert forall|j: int|
                        0 <= j < after.len() && #[trigger] noticeably_in_direction(
                            center,
                            after[j],
                            direction,
                        ) implies {
                        &&& scores_at_most(center, after[k as int], after[j], direction)
                        &&& j < k ==> !scores_at_most(
                            center,
                            after[j],
                            after[k as int],
                            direction,
                        )
                    } by {
                        assert(j < i);
                        assert(before[j] == after[j]);
                    }
                },
            }
        }
        i += 1;
    }
    assert(points@.take(i as int) == points@);
    closest
}

/// `other` lies unambiguously in `direction` from `reference`: wholly on that side of
/// it, and overlapping it along the other axis.
pub open spec fn is_candidate(reference: Frame, other: Frame, direction: Direction) -> bool {
    match direction {
        Direction::West => other.west_of(&reference) && other.vertical_overlap(&reference),
        Direction::East => other.east_of(&reference) && other.vertical_overlap(&reference),
        Direction::North => other.north_of(&reference) && other.horizontal_overlap(&reference),
        Direction::South => other.south_of(&reference) && other.horizontal_overlap(&reference),
    }
}

/// The frames that the values of `elements` occupy, in order.
pub open spec fn frames_of<T: Framed>(elements: Seq<T>) -> Seq<Frame> {
    Seq::new(elements.len(), |i: int| elements[i].occupied_frame())
}

/// The positions in `frames`, ascending, of the candidates in `direction` from
/// `reference`.
pub open spec fn candidate_indices(
    reference: Frame,
    frames: Seq<Frame>,
    direction: Direction,
) -> Seq<int>
    decreases frames.len(),
{
    if frames.len() == 0 {
        Seq::empty()
    } else {
        let before = candidate_indices(reference, frames.drop_last(), direction);
        if is_candidate(reference, frames.last(), direction) {
            before.push(frames.len() - 1)
        } else {
            before
        }
    }
}

/// `candidate_indices` lists positions of candidates only, in ascending order, and
/// leaves no candidate out.
pub proof fn candidate_indices_are_exact(reference: Frame, frames: Seq<Frame>, direction: Direction)
    ensures
        forall|m: int|
            0 <= m < candidate_indices(reference, frames, direction).len() ==> {
                let j = #[trigger] candidate_indices(reference, frames, direction)[m];
                0 <= j < frames.len() && is_candidate(reference, frames[j], direction)
            },
        forall|m: int, n: int|
            0 <= m < n < candidate_indices(reference, frames, direction).len()
                ==> #[trigger] candidate_indices(reference, frames, direction)[m]
                < #[trigger] candidate_indices(reference, frames, direction)[n],
        forall|j: int|
            0 <= j < frames.len() && is_candidate(reference, #[trigger] frames[j], direction)
                ==> candidate_indices(reference, frames, direction).contains(j),
        candidate_indices(reference, frames, direction).len() <= frames.len(),
    decreases frames.len(),
{
    let found = candidate_indices(reference, frames, direction);
    if frames.len() > 0 {
        let shorter = frames.drop_last();
        let before = candidate_indices(reference, shorter, direction);
        candidate_indices_are_exact(reference, shorter, direction);
        assert forall|j: int|
            0 <= j < frames.len() && is_candidate(
                reference,
                #[trigger] frames[j],
                direction,
            ) implies found.contains(j) by {
            if j < frames.len() - 1 {
                assert(shorter[j] == frames[j]);
                assert(before.contains(j));
                let m = choose|m: int| 0 <= m < before.len() && before[m] == j;
                assert(found[m] == j);
            } else {
                assert(found[found.len() - 1] == j);
            }
        }
        assert forall|m: int| 0 <= m < found.len() implies {
            let j = #[trigger] found[m];
            0 <= j < frames.len() && is_candidate(reference, frames[j], direction)
        } by {
            if m < before.len() {
                assert(found[m] == before[m]);
                assert(shorter[before[m]] == frames[before[m]]);
            }
        }
        assert forall|m: int, n: int| 0 <= m < n < found.len() implies #[trigger] found[m]
            < #[trigger] found[n] by {
            assert(found[m] == before[m]);
            if n < before.len() {
                assert(found[n] == before[n]);
            }
        }
    }
}

/// Whether `other` is a candidate in `direction` from `reference`.
pub fn is_candidate_in_direction(reference: &Frame, other: &Frame, direction: Direction) -> (yes:
    bool)
    ensures
        yes == is_candidate(*reference, *other, direction),
{
    let on_that_side = match direction {
        Direction::West => other.is_west_of(reference),
        Direction::East => other.is_east_of(reference),
        Direction::North => other.is_north_of(reference),
        Direction::South => other.is_south_of(reference),
    };
    let overlaps = match direction {
        Direction::West | Direction::East => other.overlaps_vertically(reference),
        Direction::North | Direction::South => other.overlaps_horizontally(reference),
    };
    on_that_side && overlaps
}

/// The elements of `candidates` that are candidates in `direction` from `frame`, in
/// the order in which they were given.
pub fn get_candidates_in_direction<'a, T: Framed>(
    frame: &Frame,
    candidates: &'a [T],
    direction: Direction,
) -> (found: Vec<&'a T>)
    ensures
        found@.len() == candidate_indices(*frame, frames_of(candidates@), direction).len(),
        forall|m: int|
            0 <= m < found@.len() ==> *#[trigger] found@[m] == candidates@[candidate_indices(
                *frame,
                frames_of(candidates@),
                direction,
            )[m]],
{
    let mut found: Vec<&'a T> = Vec::new();
    let ghost frames = frames_of(candidates@);
    let mut i: usize = 0;
    while i < candidates.len()
        invariant
            i <= candidates@.len(),
            frames == frames_of(candidates@),
            found@.len() == candidate_indices(*frame, frames.take(i as int), direction).len(),
            forall|m: int|
                0 <= m < found@.len() ==> *#[trigger] found@[m] == candidates@[candidate_indices(
                    *frame,
                    frames.take(i as int),
                    direction,
                )[m]],
        decreases candidates@.len() - i,
    {
        let candidate = &candidates[i];
        assert(frames.take(i + 1).drop_last() == frames.take(i as int));
        assert(frames.take(i + 1).last() == candidate.occupied_frame());
        if is_candidate_in_direction(frame, candidate.frame(), direction) {
            found.push(candidate);
        }
        i += 1;
    }
    assert(frames.take(i as int) == frames);
    found
}

/// The displacement between two points in range, its advance and its squared length
/// are small enough for the products that compare two scores.
proof fn displacement_is_bounded(center: Vector2D, point: Vector2D, direction: Direction)
    requires
        center.in_range(),
        point.in_range(),
    ensures
        -0x4_0000_0000 <= point.x - center.x <= 0x4_0000_0000,
        -0x4_0000_0000 <= point.y - center.y <= 0x4_0000_0000,
        Vector2D::dot_product(
            Vector2D::unit(direction),
            Vector2D { x: (point.x - center.x) as i64, y: (point.y - center.y) as i64 },
        ) == advance(center, point, direction),
        (Vector2D {
            x: (point.x - center.x) as i64,
            y: (point.y - center.y) as i64,
        }).squared_length() == distance_squared(center, point),
        -0x4_0000_0000 <= advance(center, point, direction) <= 0x4_0000_0000,
        0 <= distance_squared(center, point) <= 0x20_0000_0000_0000_0000,
        0 <= advance(center, point, direction) * advance(center, point, direction)
            <= 0x10_0000_0000_0000_0000,
        0 <= advance(center, point, direction) * advance(center, point, direction) * (
        COSINE_THRESHOLD_INVERSE * COSINE_THRESHOLD_INVERSE)
            <= 0x400_0000_0000_0000_0000_0000_0000_0000,
{
    let dx = point.x - center.x;
    let dy = point.y - center.y;
    let l: int = 0x4_0000_0000;
    let along = advance(center, point, direction);
    assert(l * l == 0x10_0000_0000_0000_0000) by (nonlinear_arith)
        requires
            l == 0x4_0000_0000,
    ;
    assert(0 <= dx * dx <= l * l) by (nonlinear_arith)
        requires
            -l <= dx <= l,
    ;
    assert(0 <= dy * dy <= l * l) by (nonlinear_arith)
        requires
            -l <= dy <= l,
    ;
    match direction {
        Direction::East => {
            assert(along == dx);
        },
        Direction::West => {
            assert(along == -dx);
        },
        Direction::South => {
            assert(along == dy);
        },
        Direction::North => {
            assert(along == -dy);
        },
    }
    assert(0 <= along * along <= l * l) by (nonlinear_arith)
        requires
            -l <= along <= l,
    ;
    let t: int = COSINE_THRESHOLD_INVERSE * COSINE_THRESHOLD_INVERSE;
    assert(t == 0x4000_0000_0000) by (nonlinear_arith)
        requires
            t == 0x80_0000 * 0x80_0000,
    ;
    assert(0 <= along * along * t <= 0x10_0000_0000_0000_0000 * 0x4000_0000_0000)
        by (nonlinear_arith)
        requires
            0 <= along * along <= 0x10_0000_0000_0000_0000,
            t == 0x4000_0000_0000,
    ;
}

/// The two products that compare a pair of scores fit in 128 bits.
proof fn products_fit(squared: i128, along: i128)
    requires
        0 <= squared <= 0x20_0000_0000_0000_0000,
        -0x4_0000_0000 <= along <= 0x4_0000_0000,
    ensures
        i128::MIN <= squared * along <= i128::MAX,
{
    let s: int = 0x20_0000_0000_0000_0000;
    let l: int = 0x4_0000_0000;
    assert(-(s * l) <= squared * along <= s * l) by (nonlinear_arith)
        requires
            0 <= squared <= s,
            -l <= along <= l,
    ;
    assert(s * l == 0x80_0000_0000_0000_0000_0000_0000) by (nonlinear_arith)
        requires
            s == 0x20_0000_0000_0000_0000,
            l == 0x4_0000_0000,
    ;
}

/// A score below a second score, which is at most a third, is below the third.
pub proof fn lower_score_carries_over(d1: int, a1: int, d2: int, a2: int, d3: int, a3: int)
    requires
        a1 > 0,
        a2 > 0,
        a3 > 0,
        d1 * a2 < d2 * a1,
        d2 * a3 <= d3 * a2,
    ensures
        d1 * a3 < d3 * a1,
{
    assert(d1 * a2 * a3 < d2 * a1 * a3) by (nonlinear_arith)
        requires
            d1 * a2 < d2 * a1,
            a3 > 0,
    ;
    assert(d2 * a3 * a1 <= d3 * a2 * a1) by (nonlinear_arith)
        requires
            d2 * a3 <= d3 * a2,
            a1 > 0,
    ;
    assert(d2 * a1 * a3 == d2 * a3 * a1) by (nonlinear_arith);
    assert(d1 * a2 * a3 == d1 * a3 * a2) by (nonlinear_arith);
    assert(d3 * a2 * a1 == d3 * a1 * a2) by (nonlinear_arith);
    assert(d1 * a3 < d3 * a1) by (nonlinear_arith)
        requires
            d1 * a3 * a2 < d3 * a1 * a2,
            a2 > 0,
    ;
}

/// The product of two 64-bit numbers has a magnitude of at most 2^126.
proof fn product_fits(a: i64, b: i64)
    ensures
        -0x4000_0000_0000_0000_0000_0000_0000_0000 <= a * b
            <= 0x4000_0000_0000_0000_0000_0000_0000_0000,
{
    let m: int = 0x8000_0000_0000_0000;
    assert(-m <= a <= m && -m <= b <= m);
    assert(-(m * m) <= a * b <= m * m) by (nonlinear_arith)
        requires
            -m <= a <= m,
            -m <= b <= m,
            m >= 0,
    ;
    assert(m * m == 0x4000_0000_0000_0000_0000_0000_0000_0000) by (nonlinear_arith)
        requires
            m == 0x8000_0000_0000_0000,
    ;
}

} // verus!
