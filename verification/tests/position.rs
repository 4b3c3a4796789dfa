use yabaictl::position::vector_2d::{
    find_closest_in_direction, get_candidates_in_direction, is_candidate_in_direction, Vector2D,
    CENTER_LIMIT, COSINE_THRESHOLD_INVERSE,
};
use yabaictl::position::{get_element_to_focus, Direction};
use yabaictl::yabai::transport::{Frame, Framed};

const DIRECTIONS: [Direction; 4] =
    [Direction::North, Direction::West, Direction::South, Direction::East];

fn frame(x: i32, y: i32, width: u32, height: u32) -> Frame {
    Frame { x, y, width, height }
}

#[test]
fn filter_candidates_in_direction() {
    let frames = vec![
        Frame {
            x: 100,
            y: 0,
            width: 100,
            height: 100,
        },
        Frame {
            x: 200,
            y: 0,
            width: 100,
            height: 100,
        },
        Frame {
            x: 0,
            y: 100,
            width: 100,
            height: 100,
        },
        Frame {
            x: 100,
            y: -100,
            width: 100,
            height: 100,
        },
    ];

    let main_frame = Frame {
        x: 0,
        y: 0,
        width: 100,
        height: 100,
    };

    let candidates = get_candidates_in_direction(&main_frame, &frames, Direction::East);
    assert_eq!(candidates[0], &frames[0]);
    assert_eq!(candidates[1], &frames[1]);
    // The last frame ends at the height where the main frame begins: bounds are
    // inclusive, so the two overlap vertically, and it is a candidate as well.
    assert_eq!(candidates[2], &frames[3]);
    assert_eq!(candidates.len(), 3);
}

/// The points of this scenario are given in tenths, so that 17.2 is written 172.
#[test]
fn find_closest() {
    let closest_vector = Vector2D { x: 10, y: 0 };

    let candidates = vec![
        Vector2D { x: 50, y: 20 },
        Vector2D { x: 172, y: 10 },
        closest_vector.clone(),
        Vector2D { x: 1, y: 100 },
        Vector2D { x: -1, y: -10 },
    ];

    let center = Vector2D { x: 0, y: 0 };

    let found_closest_vector =
        find_closest_in_direction(center, &candidates, Direction::East).map(|at| &candidates[at]);

    assert_eq!(Some(&closest_vector), found_closest_vector);
}

#[test]
fn frame_west_east() {
    assert!(Frame {
        x: -100,
        y: 0,
        width: 100,
        height: 100
    }
    .is_west_of(&Frame {
        x: 0,
        y: 0,
        width: 10,
        height: 10
    }));

    assert!(Frame {
        x: 100,
        y: 0,
        width: 100,
        height: 100
    }
    .is_east_of(&Frame {
        x: 0,
        y: 0,
        width: 10,
        height: 10
    }));
}

#[test]
fn frame_north_south() {
    assert!(Frame {
        x: 0,
        y: 0,
        width: 100,
        height: 100
    }
    .is_north_of(&Frame {
        x: 0,
        y: 150,
        width: 10,
        height: 10
    }));

    assert!(Frame {
        x: 0,
        y: 0,
        width: 100,
        height: 100
    }
    .is_south_of(&Frame {
        x: 0,
        y: -10,
        width: 10,
        height: 10
    }));
}

fn sample_frames() -> Vec<Frame> {
    vec![
        frame(0, 0, 100, 100),
        frame(100, 0, 100, 100),
        frame(0, 100, 50, 50),
        frame(-30, -30, 10, 10),
        frame(0, 0, 0, 0),
        frame(i32::MIN, i32::MIN, u32::MAX, u32::MAX),
        frame(i32::MAX, i32::MAX, u32::MAX, u32::MAX),
        frame(i32::MIN, i32::MAX, 0, 0),
        frame(10, 10, 20, 200),
    ]
}

#[test]
fn opposite_sides_mirror_each_other() {
    for a in sample_frames() {
        for b in sample_frames() {
            assert_eq!(a.is_north_of(&b), b.is_south_of(&a));
            assert_eq!(a.is_west_of(&b), b.is_east_of(&a));
        }
    }
}

#[test]
fn every_frame_overlaps_itself() {
    for a in sample_frames() {
        assert!(a.overlaps_vertically(&a));
        assert!(a.overlaps_horizontally(&a));
    }
}

#[test]
fn overlap_is_the_same_from_both_sides() {
    for a in sample_frames() {
        for b in sample_frames() {
            assert_eq!(a.overlaps_vertically(&b), b.overlaps_vertically(&a));
            assert_eq!(a.overlaps_horizontally(&b), b.overlaps_horizontally(&a));
        }
    }
}

#[test]
fn touching_frames_are_on_a_side_and_overlap() {
    let left = frame(0, 0, 100, 100);
    let right = frame(100, 0, 100, 100);
    assert!(left.is_west_of(&right));
    assert!(right.is_east_of(&left));
    assert!(left.overlaps_horizontally(&right));
    assert!(!frame(0, 0, 100, 100).is_west_of(&frame(99, 0, 100, 100)));
    let below = frame(0, 201, 100, 100);
    assert!(!left.overlaps_vertically(&below));
    assert!(left.overlaps_vertically(&frame(0, 100, 1, 1)));
}

#[test]
fn frames_at_the_limits_do_not_overflow() {
    let low = frame(i32::MIN, i32::MIN, 0, 0);
    let high = frame(i32::MAX, i32::MAX, u32::MAX, u32::MAX);
    assert!(low.is_north_of(&high));
    assert!(low.is_west_of(&high));
    assert!(!high.is_west_of(&low));
    assert!(!low.overlaps_vertically(&high));
    let center = Vector2D::from_frame_center(&high);
    assert_eq!(center.x, 2 * (i32::MAX as i64) + u32::MAX as i64);
    assert!(center.x <= CENTER_LIMIT);
    assert_eq!(Vector2D::from_frame_center(&low).x, 2 * (i32::MIN as i64));
    assert!(Vector2D::from_frame_center(&low).x >= -CENTER_LIMIT);
    let elements = vec![high, low];
    assert_eq!(get_element_to_focus(&low, &elements, Direction::East), None);
    assert_eq!(
        get_element_to_focus(&frame(i32::MIN, i32::MAX, 0, u32::MAX), &elements, Direction::East),
        Some(&high)
    );
}

#[test]
fn no_candidates_give_no_result() {
    let reference = frame(0, 0, 100, 100);
    let nothing: Vec<Frame> = Vec::new();
    for direction in DIRECTIONS {
        assert_eq!(get_element_to_focus(&reference, &nothing, direction), None);
        assert!(get_candidates_in_direction(&reference, &nothing, direction).is_empty());
        assert_eq!(
            find_closest_in_direction(Vector2D::from_frame_center(&reference), &[], direction),
            None
        );
    }
}

#[test]
fn candidates_must_be_on_the_side_and_overlap() {
    let reference = frame(0, 0, 100, 100);
    assert!(is_candidate_in_direction(&reference, &frame(100, 50, 10, 10), Direction::East));
    assert!(!is_candidate_in_direction(&reference, &frame(100, 101, 10, 10), Direction::East));
    assert!(!is_candidate_in_direction(&reference, &frame(50, 0, 100, 100), Direction::East));
    assert!(is_candidate_in_direction(&reference, &frame(-10, 100, 10, 10), Direction::West));
    assert!(is_candidate_in_direction(&reference, &frame(20, -40, 10, 40), Direction::North));
    assert!(!is_candidate_in_direction(&reference, &frame(101, -40, 10, 40), Direction::North));
    assert!(is_candidate_in_direction(&reference, &frame(100, 100, 10, 40), Direction::South));
    assert!(!is_candidate_in_direction(&reference, &frame(100, 100, 10, 40), Direction::North));
}

#[test]
fn center_is_given_in_half_units() {
    assert_eq!(Vector2D::from_frame_center(&frame(3, -4, 5, 8)), Vector2D { x: 11, y: 0 });
    assert_eq!(Vector2D::from_frame_center(&frame(0, 0, 0, 0)), Vector2D { x: 0, y: 0 });
    assert_eq!(frame(3, -4, 5, 8).frame(), &frame(3, -4, 5, 8));
}

#[test]
fn vectors_add_subtract_and_multiply() {
    let a = Vector2D { x: 3, y: -4 };
    let b = Vector2D { x: -1, y: 7 };
    assert_eq!(a - b, Vector2D { x: 4, y: -11 });
    assert_eq!(a + b, Vector2D { x: 2, y: 3 });
    assert_eq!(Vector2D::dot(a, b), -31);
    assert_eq!(a.length_squared(), 25);
    let far = Vector2D { x: i64::MIN, y: i64::MAX };
    assert_eq!(far.length_squared(), (1u128 << 126) + ((1u128 << 63) - 1) * ((1u128 << 63) - 1));
    assert_eq!(Vector2D::dot(far, Vector2D { x: 1, y: 1 }), -1);
}

#[test]
fn directions_have_unit_vectors() {
    assert_eq!(Vector2D::from(Direction::North), Vector2D { x: 0, y: -1 });
    assert_eq!(Vector2D::from(Direction::East), Vector2D { x: 1, y: 0 });
    assert_eq!(Vector2D::from(Direction::South), Vector2D { x: 0, y: 1 });
    assert_eq!(Vector2D::from(Direction::West), Vector2D { x: -1, y: 0 });
}

#[test]
fn directions_turn_around_and_have_names() {
    assert_eq!(Direction::North.into_opposite(), Direction::South);
    assert_eq!(Direction::South.into_opposite(), Direction::North);
    assert_eq!(Direction::East.into_opposite(), Direction::West);
    assert_eq!(Direction::West.into_opposite(), Direction::East);
    for direction in DIRECTIONS {
        assert_eq!(direction.into_opposite().into_opposite(), direction);
        assert_eq!(Direction::from_str(direction.as_str()), Some(direction));
    }
    assert_eq!(Direction::from_str("west"), Some(Direction::West));
    assert_eq!(Direction::North.as_str(), "north");
    assert_eq!(Direction::from_str("North"), None);
    assert_eq!(Direction::from_str(""), None);
    assert_eq!(Direction::from_str("up"), None);
}

#[test]
fn aligned_candidate_beats_a_near_perpendicular_one() {
    // Seen from the origin, the first point is ten million units up and one unit to
    // the east: nearer along the east axis, but almost perpendicular to it.
    let center = Vector2D { x: 0, y: 0 };
    let points = [Vector2D { x: 1, y: 10_000_000 }, Vector2D { x: 400, y: 0 }];
    assert_eq!(find_closest_in_direction(center, &points, Direction::East), Some(1));
    // On its own the first point is not in the direction at all.
    assert_eq!(find_closest_in_direction(center, &points[..1], Direction::East), None);
}

#[test]
fn cosine_threshold_is_exact() {
    let center = Vector2D { x: 0, y: 0 };
    let inverse = COSINE_THRESHOLD_INVERSE as i64;
    assert_eq!(inverse, 8_388_608);
    // With an advance of one, the squared distance may be the square of the inverse
    // of the threshold and no more.
    let within = Vector2D { x: 1, y: 8_388_607 };
    let beyond = Vector2D { x: 1, y: 8_388_608 };
    assert_eq!(find_closest_in_direction(center, &[within], Direction::East), Some(0));
    assert_eq!(find_closest_in_direction(center, &[beyond], Direction::East), None);
    assert_eq!(find_closest_in_direction(center, &[Vector2D { x: 8_388_607, y: -1 }], Direction::North), Some(0));
    assert_eq!(find_closest_in_direction(center, &[Vector2D { x: 8_388_608, y: -1 }], Direction::North), None);
}

#[test]
fn points_behind_or_at_the_center_do_not_qualify() {
    let center = Vector2D { x: 5, y: 5 };
    for direction in DIRECTIONS {
        assert_eq!(find_closest_in_direction(center, &[center], direction), None);
    }
    assert_eq!(find_closest_in_direction(center, &[Vector2D { x: 4, y: 5 }], Direction::East), None);
    assert_eq!(find_closest_in_direction(center, &[Vector2D { x: 4, y: 5 }], Direction::West), Some(0));
    assert_eq!(find_closest_in_direction(center, &[Vector2D { x: 5, y: 4 }], Direction::North), Some(0));
    assert_eq!(find_closest_in_direction(center, &[Vector2D { x: 5, y: 4 }], Direction::South), None);
}

#[test]
fn score_is_distance_over_cosine() {
    let center = Vector2D { x: 0, y: 0 };
    // Scores: 25 / 3 for the first point, 16 / 2 for the second, 100 / 10 for the third.
    let points = [Vector2D { x: 3, y: 4 }, Vector2D { x: 2, y: 0 }, Vector2D { x: 10, y: 0 }];
    assert_eq!(find_closest_in_direction(center, &points, Direction::East), Some(1));
    // 25 / 3 is less than 81 / 9.
    let points = [Vector2D { x: 9, y: 0 }, Vector2D { x: 3, y: 4 }];
    assert_eq!(find_closest_in_direction(center, &points, Direction::East), Some(1));
}

#[test]
fn ties_keep_the_order_of_the_candidates() {
    let center = Vector2D { x: 0, y: 0 };
    // The first two score 25 / 3 each, the third scores 12.
    let points = [Vector2D { x: 3, y: 4 }, Vector2D { x: 3, y: -4 }, Vector2D { x: 12, y: 0 }];
    assert_eq!(find_closest_in_direction(center, &points, Direction::East), Some(0));
    let points = [Vector2D { x: 12, y: 0 }, Vector2D { x: 3, y: -4 }, Vector2D { x: 3, y: 4 }];
    assert_eq!(find_closest_in_direction(center, &points, Direction::East), Some(1));
    let reference = frame(0, 0, 10, 10);
    let elements = vec![frame(10, 8, 2, 2), frame(10, 0, 2, 2), frame(20, 4, 2, 2)];
    assert_eq!(get_element_to_focus(&reference, &elements, Direction::East), Some(&elements[0]));
}

#[test]
fn element_to_focus_is_the_closest_candidate() {
    let reference = frame(0, 0, 100, 100);
    let elements = vec![
        frame(300, 0, 100, 100),
        frame(100, 0, 100, 100),
        frame(100, 200, 100, 100),
        frame(-100, 0, 100, 100),
        frame(0, 100, 100, 100),
        frame(0, -300, 100, 100),
    ];
    assert_eq!(get_element_to_focus(&reference, &elements, Direction::East), Some(&elements[1]));
    assert_eq!(get_element_to_focus(&reference, &elements, Direction::West), Some(&elements[3]));
    assert_eq!(get_element_to_focus(&reference, &elements, Direction::South), Some(&elements[4]));
    assert_eq!(get_element_to_focus(&reference, &elements, Direction::North), Some(&elements[5]));
    assert_eq!(get_element_to_focus(&reference, &elements[2..3], Direction::East), None);
}
