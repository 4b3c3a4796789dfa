use yabaictl::cli::reorder::{generate_move_list, generate_move_positions, Move};

fn simulate_moves(items: &mut Vec<u32>, moves: &[Move<u32>]) {
    for m in moves {
        let source_index = items
            .iter()
            .position(|item| item == &m.source)
            .expect("Move source must exist in items");

        let item = items.remove(source_index);

        let target_index = items
            .iter()
            .position(|item| item == &m.target)
            .expect("Move target must exist in items");

        items.insert(target_index, item);
    }
}

struct GenerateMoveListTestCase {
    items: Vec<u32>,
    expected: Vec<u32>,
    expected_moves_count: usize,
}

impl GenerateMoveListTestCase {
    fn run(mut self) {
        let moves = generate_move_list(&self.items);
        simulate_moves(&mut self.items, &moves);

        assert_eq!(self.expected, self.items);
        assert_eq!(self.expected_moves_count, moves.len());
    }
}

#[test]
fn moves_op_op() {
    GenerateMoveListTestCase {
        items: vec![1, 2, 3],
        expected: vec![1, 2, 3],

        expected_moves_count: 0,
    }
    .run();
}

#[test]
fn single_move() {
    GenerateMoveListTestCase {
        items: vec![2, 1, 3],
        expected: vec![1, 2, 3],

        expected_moves_count: 1,
    }
    .run();
}

#[test]
fn five_spaces_many_moves() {
    GenerateMoveListTestCase {
        items: vec![5, 2, 1, 4, 3],
        expected: vec![1, 2, 3, 4, 5],

        expected_moves_count: 4,
    }
    .run();
}

#[test]
fn five_spaces_almost_ordered() {
    GenerateMoveListTestCase {
        items: vec![2, 1, 4, 5, 3],
        expected: vec![1, 2, 3, 4, 5],

        expected_moves_count: 2,
    }
    .run();
}

#[test]
fn empty_and_single_inputs_need_no_move() {
    assert!(generate_move_list(&[]).is_empty());
    assert!(generate_move_list(&[7]).is_empty());
}

#[test]
fn ascending_input_needs_no_move() {
    assert!(generate_move_list(&[1, 2, 3, 4, 5, 6, 7, 8, 9, 10]).is_empty());
    assert!(generate_move_list(&[3, 7, 9]).is_empty());
}

#[test]
fn equal_keys_never_move_against_each_other() {
    assert!(generate_move_list(&[4, 4, 4]).is_empty());
    assert!(generate_move_list(&[1, 2, 2, 3]).is_empty());
}

#[test]
fn moves_name_the_smallest_greater_item_before() {
    let moves = generate_move_list(&[5, 2, 1, 4, 3]);
    assert_eq!(
        moves,
        vec![
            Move { source: 2, target: 5 },
            Move { source: 1, target: 2 },
            Move { source: 4, target: 5 },
            Move { source: 3, target: 4 },
        ]
    );
}

#[test]
fn positions_match_the_items() {
    let items = [2, 1, 4, 5, 3];
    let positions = generate_move_positions(&items);
    assert_eq!(
        positions,
        vec![Move { source: 1, target: 0 }, Move { source: 4, target: 2 }]
    );
    let moves = generate_move_list(&items);
    assert_eq!(moves.len(), positions.len());
    for (m, p) in moves.iter().zip(positions.iter()) {
        assert_eq!(m.source, items[p.source]);
        assert_eq!(m.target, items[p.target]);
    }
}

#[test]
fn target_is_the_first_of_equal_items() {
    let positions = generate_move_positions(&[3, 3, 1]);
    assert_eq!(positions, vec![Move { source: 2, target: 0 }]);
}

#[test]
fn descending_input_is_sorted_by_its_moves() {
    let mut items = vec![9, 8, 7, 6, 5, 4, 3, 2, 1];
    let moves = generate_move_list(&items);
    assert_eq!(moves.len(), 8);
    simulate_moves(&mut items, &moves);
    assert_eq!(items, vec![1, 2, 3, 4, 5, 6, 7, 8, 9]);
}
