use std::num::ParseIntError;

use yabaictl::label::partition::{
    partition_labelables, partition_labelables_in, AssignedIndices, PartitionedLabelables,
};
use yabaictl::label::{IndexRange, LabelDialect, Labelable};

#[derive(Debug, PartialEq, Eq)]
struct LabelableItem(u32, Option<String>);

impl Labelable for LabelableItem {
    type Index = u32;
    type ParseIndexError = ParseIntError;

    fn index_range() -> IndexRange {
        IndexRange { start: 1, end: 6 }
    }

    fn label(&self) -> Option<&str> {
        self.1.as_deref()
    }

    fn parse_index(label: &str) -> Result<Self::Index, Self::ParseIndexError> {
        label.parse()
    }

    fn parse_index_in(
        label: &str,
        _dialect: LabelDialect,
    ) -> Result<Self::Index, Self::ParseIndexError> {
        label.parse()
    }

    fn index_number(index: &u32) -> u32 {
        *index
    }

    fn index_from_number(number: u32) -> Option<u32> {
        Some(number)
    }
}

#[test]
fn partitions_items() {
    let items = vec![
        LabelableItem(1, Some("1".to_owned())),
        LabelableItem(2, Some("2".to_owned())),
        LabelableItem(3, None),
        LabelableItem(4, None),
        LabelableItem(5, Some("invalid one".to_owned())),
    ];

    let result = partition_labelables(items);
    assert_eq!(
        vec![LabelableItem(3, None), LabelableItem(4, None)],
        result.items_to_label,
    );
    assert_eq!(vec![3, 4, 5, 6], result.unused_indexes);
    assert_eq!(1, result.incorrectly_labeled.len());
    assert_eq!(
        result.incorrectly_labeled[0].0,
        LabelableItem(5, Some("invalid one".to_owned())),
    );
}

#[test]
fn assign_indices_for_all_items() {
    let result = PartitionedLabelables {
        incorrectly_labeled: Vec::new(),
        unused_indexes: vec![7, 8, 9],
        items_to_label: vec![LabelableItem(3, None), LabelableItem(4, None)],
    }
    .into_assigned_indices();

    assert_eq!(
        AssignedIndices {
            assigned_indices: vec![(LabelableItem(3, None), 7), (LabelableItem(4, None), 8)],
            leftover_items: Vec::new()
        },
        result
    );
}

#[test]
fn assign_indices_when_more_items_than_labels() {
    let result = PartitionedLabelables {
        incorrectly_labeled: Vec::new(),
        unused_indexes: vec![7],
        items_to_label: vec![LabelableItem(3, None), LabelableItem(4, None)],
    }
    .into_assigned_indices();

    assert_eq!(
        AssignedIndices {
            assigned_indices: vec![(LabelableItem(3, None), 7)],
            leftover_items: vec!(LabelableItem(4, None))
        },
        result
    );
}

#[test]
fn incorrectly_labeled_is_what_the_field_holds() {
    let result = partition_labelables(vec![
        LabelableItem(1, Some("x".to_owned())),
        LabelableItem(2, Some("4".to_owned())),
    ]);
    assert_eq!(result.incorrectly_labeled().len(), 1);
    assert_eq!(result.incorrectly_labeled()[0].0, LabelableItem(1, Some("x".to_owned())));
    assert_eq!(vec![1, 2, 3, 5, 6], result.unused_indexes);
    assert!(result.items_to_label.is_empty());
}

#[test]
fn no_items_leave_every_index_unused() {
    let result = partition_labelables(Vec::<LabelableItem>::new());
    assert_eq!(vec![1, 2, 3, 4, 5, 6], result.unused_indexes);
    assert!(result.items_to_label.is_empty());
    assert!(result.incorrectly_labeled.is_empty());
}

#[test]
fn two_items_with_one_index_use_it_once() {
    let result = partition_labelables(vec![
        LabelableItem(1, Some("3".to_owned())),
        LabelableItem(2, Some("3".to_owned())),
    ]);
    assert_eq!(vec![1, 2, 4, 5, 6], result.unused_indexes);
    assert!(result.incorrectly_labeled.is_empty());
}

#[test]
fn an_index_outside_the_range_uses_none() {
    let result = partition_labelables(vec![
        LabelableItem(1, Some("0".to_owned())),
        LabelableItem(2, Some("7".to_owned())),
        LabelableItem(3, Some("6".to_owned())),
    ]);
    assert_eq!(vec![1, 2, 3, 4, 5], result.unused_indexes);
    assert!(result.incorrectly_labeled.is_empty());
}

#[test]
fn assignment_without_unused_indexes_leaves_every_item() {
    let result = PartitionedLabelables {
        incorrectly_labeled: Vec::new(),
        unused_indexes: Vec::new(),
        items_to_label: vec![LabelableItem(3, None), LabelableItem(4, None)],
    }
    .into_assigned_indices();
    assert!(result.assigned_indices.is_empty());
    assert_eq!(result.leftover_items, vec![LabelableItem(3, None), LabelableItem(4, None)]);
}

#[test]
fn index_range_holds_both_of_its_ends() {
    let range = IndexRange { start: 1, end: 6 };
    assert!(range.contains(1));
    assert!(range.contains(6));
    assert!(!range.contains(0));
    assert!(!range.contains(7));
}

#[test]
fn the_dialect_is_handed_to_the_items() {
    for dialect in [LabelDialect::ColonRequired, LabelDialect::ColonOptional] {
        let result = partition_labelables_in(
            vec![
                LabelableItem(1, Some("2".to_owned())),
                LabelableItem(2, None),
                LabelableItem(3, Some("two".to_owned())),
            ],
            dialect,
        );
        assert_eq!(vec![1, 3, 4, 5, 6], result.unused_indexes);
        assert_eq!(vec![LabelableItem(2, None)], result.items_to_label);
        assert_eq!(1, result.incorrectly_labeled.len());
    }
}

#[test]
fn assignment_is_also_a_conversion() {
    let result: AssignedIndices<LabelableItem, u32> = PartitionedLabelables {
        incorrectly_labeled: Vec::new(),
        unused_indexes: vec![7],
        items_to_label: vec![LabelableItem(3, None), LabelableItem(4, None)],
    }
    .into();
    assert_eq!(
        AssignedIndices {
            assigned_indices: vec![(LabelableItem(3, None), 7)],
            leftover_items: vec!(LabelableItem(4, None))
        },
        result
    );
    let all = AssignedIndices::from(PartitionedLabelables {
        incorrectly_labeled: Vec::new(),
        unused_indexes: vec![7, 8, 9],
        items_to_label: vec![LabelableItem(3, None)],
    });
    assert_eq!(all.assigned_indices, vec![(LabelableItem(3, None), 7)]);
    assert!(all.leftover_items.is_empty());
}
