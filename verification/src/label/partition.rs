use super::labelable::{IndexRange, LabelDialect, Labelable};
use crate::sequences::filter_of_push;
use vstd::prelude::*;

verus! {

/// Labelable entities, told apart by what their labels say.
#[derive(Debug, PartialEq, Eq)]
pub struct PartitionedLabelables<T: Labelable> {
    /// The entities whose label carries no index, each with the reason.
    pub incorrectly_labeled: Vec<(T, T::ParseIndexError)>,
    /// The supported indexes that no entity carries, ascending.
    pub unused_indexes: Vec<T::Index>,
    /// The entities without a label.
    pub items_to_label: Vec<T>,
}

/// Entities paired with the indexes given to them.
#[derive(Debug, PartialEq, Eq)]
pub struct AssignedIndices<T, Index> {
    pub assigned_indices: Vec<(T, Index)>,
    /// Items that could not be labeled because there are not enough labels.
    pub leftover_items: Vec<T>,
}

/// The entity has no label.
pub open spec fn is_unlabeled<T: Labelable>() -> spec_fn(T) -> bool {
    |item: T| item.label_text() is None
}

/// The entity has a label, and no index is written in it.
pub open spec fn is_incorrectly_labeled<T: Labelable>(dialect: LabelDialect) -> spec_fn(
    T,
) -> bool {
    |item: T|
        match item.label_text() {
            Some(label) => T::index_in(label, dialect) is None,
            None => false,
        }
}

/// The number of the index that the entity carries, if it carries one.
pub open spec fn carried_number<T: Labelable>(item: T, dialect: LabelDialect) -> Option<u32> {
    match item.label_text() {
        Some(label) => T::index_in(label, dialect),
        None => None,
    }
}

/// Some entity among `items` carries the index with this number.
pub open spec fn is_used<T: Labelable>(
    items: Seq<T>,
    number: u32,
    dialect: LabelDialect,
) -> bool {
    exists|i: int|
        0 <= i < items.len() && #[trigger] carried_number(items[i], dialect) == Some(number)
}

/// The numbers of the indexes in `indexes`, in order.
pub open spec fn numbers_of<T: Labelable>(indexes: Seq<T::Index>) -> Seq<u32> {
    Seq::new(indexes.len(), |k: int| T::number_of(indexes[k]))
}

/// The entities of the pairs in `pairs`, in order.
pub open spec fn entities_of<T, U>(pairs: Seq<(T, U)>) -> Seq<T> {
    Seq::new(pairs.len(), |k: int| pairs[k].0)
}

/// The numbers from `start` up to, and without, `end`, in ascending order.
pub open spec fn numbers_between(start: int, end: int) -> Seq<u32> {
    if start <= end {
        Seq::new((end - start) as nat, |k: int| (start + k) as u32)
    } else {
        Seq::empty()
    }
}

/// No entity among `items` carries the index with this number.
pub open spec fn is_unused<T: Labelable>(items: Seq<T>, dialect: LabelDialect) -> spec_fn(
    u32,
) -> bool {
    |number: u32| !is_used(items, number, dialect)
}

/// The numbers of `range` that no entity among `items` carries, in ascending order.
pub open spec fn unused_numbers<T: Labelable>(
    items: Seq<T>,
    range: IndexRange,
    dialect: LabelDialect,
) -> Seq<u32> {
    numbers_between(range.start as int, range.end + 1).filter(is_unused(items, dialect))
}

/// `numbers` lists, in ascending order and each once, the numbers of `range` that no
/// entity among `items` carries.
pub open spec fn lists_unused<T: Labelable>(
    numbers: Seq<u32>,
    items: Seq<T>,
    range: IndexRange,
    dialect: LabelDialect,
) -> bool {
    &&& forall|k: int|
        0 <= k < numbers.len() ==> range.holds(#[trigger] numbers[k]) && !is_used(
            items,
            numbers[k],
            dialect,
        )
    &&& forall|k: int, l: int| 0 <= k < l < numbers.len() ==> numbers[k] < numbers[l]
    &&& forall|number: u32|
        range.holds(number) && !is_used(items, number, dialect) ==> numbers.contains(number)
}

impl<T: Labelable> PartitionedLabelables<T> {
    pub fn incorrectly_labeled(&self) -> (entries: &Vec<(T, T::ParseIndexError)>)
        ensures
            entries == &self.incorrectly_labeled,
    {
        &self.incorrectly_labeled
    }

    /// Gives the unused indexes to the entities without a label, the first index to
    /// the first entity and so on, as far as either list reaches.  The entities that
    /// get none are left over, in their order.
    pub fn into_assigned_indices(self) -> (assigned: AssignedIndices<T, T::Index>)
        ensures
            assigned.assigned_indices@.len() == if self.items_to_label@.len()
                <= self.unused_indexes@.len() {
                self.items_to_label@.len()
            } else {
                self.unused_indexes@.len()
            },
            forall|k: int|
                0 <= k < assigned.assigned_indices@.len() ==> #[trigger] assigned.assigned_indices@[k]
                    == (self.items_to_label@[k], self.unused_indexes@[k]),
            assigned.leftover_items@ == self.items_to_label@.skip(
                assigned.assigned_indices@.len() as int,
            ),
    {
        AssignedIndices::from(self)
    }
}

impl<T: Labelable> From<PartitionedLabelables<T>> for AssignedIndices<T, T::Index> {
    /// Gives the unused indexes to the entities without a label, the first index to
    /// the first entity and so on, as far as either list reaches.  The entities that
    /// get none are left over, in their order.
    fn from(value: PartitionedLabelables<T>) -> (assigned: Self)
        ensures
            assigned.assigned_indices@.len() == if value.items_to_label@.len()
                <= value.unused_indexes@.len() {
                value.items_to_label@.len()
            } else {
                value.unused_indexes@.len()
            },
            forall|k: int|
                0 <= k < assigned.assigned_indices@.len() ==> #[trigger] assigned.assigned_indices@[k]
                    == (value.items_to_label@[k], value.unused_indexes@[k]),
            assigned.leftover_items@ == value.items_to_label@.skip(
                assigned.assigned_indices@.len() as int,
            ),
    {
        let PartitionedLabelables { incorrectly_labeled: _, unused_indexes, items_to_label } = value;
        let count = if items_to_label.len() <= unused_indexes.len() {
            items_to_label.len()
        } else {
            unused_indexes.len()
        };
        let ghost items = items_to_label@;
        let ghost indexes = unused_indexes@;
        let mut items_to_label = items_to_label;
        let mut unused_indexes = unused_indexes;
        let leftover_items = items_to_label.split_off(count);
        unused_indexes.truncate(count);
        assert(items_to_label@ == items.take(count as int));
        assert(unused_indexes@ == indexes.take(count as int));
        let mut assigned_indices: Vec<(T, T::Index)> = Vec::new();
        // Pairs are taken from the back, so that nothing has to be shifted.
        let mut reversed: Vec<(T, T::Index)> = Vec::new();
        while items_to_label.len() > 0
            invariant
                items_to_label@.len() == unused_indexes@.len(),
                items_to_label@.len() <= count,
                items_to_label@ == items.take(items_to_label@.len() as int),
                unused_indexes@ == indexes.take(items_to_label@.len() as int),
                count <= items.len(),
                count <= indexes.len(),
                reversed@.len() == count - items_to_label@.len(),
                forall|k: int|
                    0 <= k < reversed@.len() ==> #[trigger] reversed@[k] == (
                        items[count - 1 - k],
                        indexes[count - 1 - k],
                    ),
            decreases items_to_label@.len(),
        {
            let item = items_to_label.pop().unwrap();
            let index = unused_indexes.pop().unwrap();
            reversed.push((item, index));
        }
        while reversed.len() > 0
            invariant
                reversed@.len() + assigned_indices@.len() == count,
                count <= items.len(),
                count <= indexes.len(),
                forall|k: int|
                    0 <= k < reversed@.len() ==> #[trigger] reversed@[k] == (
                        items[count - 1 - k],
                        indexes[count - 1 - k],
                    ),
                forall|k: int|
                    0 <= k < assigned_indices@.len() ==> #[trigger] assigned_indices@[k] == (
                        items[k],
                        indexes[k],
                    ),
            decreases reversed@.len(),
        {
            let pair = reversed.pop().unwrap();
            assigned_indices.push(pair);
        }
        AssignedIndices { assigned_indices, leftover_items }
    }
}

impl<T: Labelable> vstd::std_specs::convert::FromSpecImpl<PartitionedLabelables<T>> for AssignedIndices<T, T::Index> {
    /// What the conversion gives is stated by the conversion itself, over the views of
    /// the vectors.
    open spec fn obeys_from_spec() -> bool {
        false
    }

    open spec fn from_spec(value: PartitionedLabelables<T>) -> Self {
        arbitrary()
    }
}

/// Whether `numbers` holds `wanted`.
fn holds_number(numbers: &Vec<u32>, wanted: u32) -> (found: bool)
    ensures
        found == numbers@.contains(wanted),
{
    let mut i: usize = 0;
    while i < numbers.len()
        invariant
            i <= numbers@.len(),
            forall|j: int| 0 <= j < i ==> numbers@[j] != wanted,
        decreases numbers@.len() - i,
    {
        if numbers[i] == wanted {
            return true;
        }
        i += 1;
    }
    false
}

/// Tells the entities apart by their labels, read as `dialect` has it, and finds the
/// supported indexes that none of them carries.
///
/// An entity without a label is to be labeled.  An entity whose label carries an index
/// uses that index.  An entity whose label carries none is reported with the reason; it
/// uses no index and is not to be labeled.  Two entities that carry the same index are
/// not told from one.
pub fn partition_labelables_in<T: Labelable>(
    labelables: Vec<T>,
    dialect: LabelDialect,
) -> (partitioned: PartitionedLabelables<T>)
    ensures
        partitioned.items_to_label@ == labelables@.filter(is_unlabeled::<T>()),
        entities_of(partitioned.incorrectly_labeled@) == labelables@.filter(
            is_incorrectly_labeled::<T>(dialect),
        ),
        forall|k: int|
            0 <= k < partitioned.incorrectly_labeled@.len() ==> {
                let entry = #[trigger] partitioned.incorrectly_labeled@[k];
                entry.0.label_text() is Some && T::explains(
                    entry.0.label_text().unwrap(),
                    dialect,
                    entry.1,
                )
            },
        numbers_of::<T>(partitioned.unused_indexes@) == unused_numbers(
            labelables@,
            T::supported_indexes(),
            dialect,
        ),
        lists_unused(
            numbers_of::<T>(partitioned.unused_indexes@),
            labelables@,
            T::supported_indexes(),
            dialect,
        ),
{
    let ghost items = labelables@;
    let mut used: Vec<u32> = Vec::new();
    let mut incorrectly_labeled: Vec<(T, T::ParseIndexError)> = Vec::new();
    let mut items_to_label: Vec<T> = Vec::new();

    for item in it: labelables
        invariant
            it.seq() == items,
            items_to_label@ == items.take(it.index() as int).filter(is_unlabeled::<T>()),
            entities_of(incorrectly_labeled@) == items.take(it.index() as int).filter(
                is_incorrectly_labeled::<T>(dialect),
            ),
            forall|k: int|
                0 <= k < incorrectly_labeled@.len() ==> {
                    let entry = #[trigger] incorrectly_labeled@[k];
                    entry.0.label_text() is Some && T::explains(
                        entry.0.label_text().unwrap(),
                        dialect,
                        entry.1,
                    )
                },
            forall|number: u32|
                used@.contains(number) <==> is_used(
                    items.take(it.index() as int),
                    number,
                    dialect,
                ),
    {
        let ghost seen = items.take(it.index() as int);
        let ghost seen_after = items.take(it.index() + 1);
        proof {
            assert(seen_after == seen.push(item));
            filter_of_push(seen, item, is_unlabeled::<T>());
            filter_of_push(seen, item, is_incorrectly_labeled::<T>(dialect));
        }
        let ghost used_before = used@;
        let ghost reported_before = incorrectly_labeled@;
        let parsed = match item.label() {
            Some(label) => Some(T::parse_index_in(label, dialect)),
            None => None,
        };
        match parsed {
            None => {
                items_to_label.push(item);
            },
            Some(Ok(index)) => {
                used.push(T::index_number(&index));
            },
            Some(Err(error)) => {
                incorrectly_labeled.push((item, error));
                assert(entities_of(incorrectly_labeled@) =~= entities_of(reported_before).push(
                    item,
                ));
            },
        }
        proof {
            assert(entities_of(incorrectly_labeled@) =~= seen_after.filter(
                is_incorrectly_labeled::<T>(dialect),
            ));
            assert forall|number: u32| used@.contains(number) <==> is_used(
                seen_after,
                number,
                dialect,
            ) by {
                if used@.contains(number) {
                    if used_before.contains(number) {
                        let i = choose|i: int|
                            0 <= i < seen.len() && #[trigger] carried_number(seen[i], dialect) == Some(
                                number,
                            );
                        assert(carried_number(seen_after[i], dialect) == Some(number));
                    } else {
                        assert(carried_number(seen_after[seen.len() as int], dialect) == Some(number));
                    }
                }
                if is_used(seen_after, number, dialect) {
                    let i = choose|i: int|
                        0 <= i < seen_after.len() && #[trigger] carried_number(seen_after[i], dialect)
                            == Some(number);
                    if i < seen.len() {
                        assert(carried_number(seen[i], dialect) == Some(number));
                        assert(used_before.contains(number));
                        let at = choose|at: int|
                            0 <= at < used_before.len() && used_before[at] == number;
                        assert(used@[at] == number);
                    } else {
                        assert(used@[used@.len() - 1] == number);
                    }
                }
            }
        }
    }
    assert(items.take(items.len() as int) == items);

    let range = T::index_range();
    let mut unused_indexes: Vec<T::Index> = Vec::new();
    if range.start <= range.end {
        let mut number: u32 = range.start;
        loop
            invariant_except_break
                range.start <= number <= range.end,
                numbers_of::<T>(unused_indexes@) == numbers_between(
                    range.start as int,
                    number as int,
                ).filter(is_unused(items, dialect)),
                forall|k: int|
                    0 <= k < unused_indexes@.len() ==> (#[trigger] numbers_of::<T>(
                        unused_indexes@,
                    )[k]) < number,
                forall|candidate: u32|
                    range.start <= candidate < number && !is_used(items, candidate, dialect)
                        ==> numbers_of::<T>(unused_indexes@).contains(candidate),
            invariant
                range == T::supported_indexes(),
                forall|candidate: u32|
                    used@.contains(candidate) <==> is_used(items, candidate, dialect),
                forall|k: int|
                    0 <= k < unused_indexes@.len() ==> range.holds(
                        #[trigger] numbers_of::<T>(unused_indexes@)[k],
                    ) && !is_used(items, numbers_of::<T>(unused_indexes@)[k], dialect),
                forall|k: int, l: int|
                    0 <= k < l < unused_indexes@.len() ==> numbers_of::<T>(unused_indexes@)[k]
                        < numbers_of::<T>(unused_indexes@)[l],
            ensures
                lists_unused(numbers_of::<T>(unused_indexes@), items, range, dialect),
                numbers_of::<T>(unused_indexes@) == unused_numbers(items, range, dialect),
            decreases range.end - number,
        {
            let ghost listed = numbers_of::<T>(unused_indexes@);
            proof {
                assert(numbers_between(range.start as int, number + 1) =~= numbers_between(
                    range.start as int,
                    number as int,
                ).push(number));
                filter_of_push(
                    numbers_between(range.start as int, number as int),
                    number,
                    is_unused(items, dialect),
                );
            }
            if !holds_number(&used, number) {
                match T::index_from_number(number) {
                    Some(index) => {
                        unused_indexes.push(index);
                    },
                    None => {
                        assert(false);
                    },
                }
                proof {
                    let longer = numbers_of::<T>(unused_indexes@);
                    assert(longer =~= listed.push(number));
                    assert forall|candidate: u32|
                        range.start <= candidate <= number && !is_used(
                            items,
                            candidate,
                            dialect,
                        ) implies longer.contains(candidate) by {
                        if candidate < number {
                            let at = choose|at: int|
                                0 <= at < listed.len() && listed[at] == candidate;
                            assert(longer[at] == candidate);
                        } else {
                            assert(longer[listed.len() as int] == candidate);
                        }
                    }
                }
            }
            if number == range.end {
                break;
            }
            number += 1;
        }
    } else {
        assert(lists_unused(numbers_of::<T>(unused_indexes@), items, range, dialect));
        assert(numbers_of::<T>(unused_indexes@) =~= Seq::<u32>::empty());
        assert(unused_numbers(items, range, dialect) =~= Seq::<u32>::empty()) by {
            reveal(Seq::filter);
        }
    }

    PartitionedLabelables { incorrectly_labeled, unused_indexes, items_to_label }
}

/// Tells the entities apart by their labels, in which a colon is required, and finds
/// the supported indexes that none of them carries: `partition_labelables_in` for the
/// dialect `ColonRequired`.
pub fn partition_labelables<T: Labelable>(labelables: Vec<T>) -> (partitioned:
    PartitionedLabelables<T>)
    ensures
        partitioned.items_to_label@ == labelables@.filter(is_unlabeled::<T>()),
        entities_of(partitioned.incorrectly_labeled@) == labelables@.filter(
            is_incorrectly_labeled::<T>(LabelDialect::ColonRequired),
        ),
        forall|k: int|
            0 <= k < partitioned.incorrectly_labeled@.len() ==> {
                let entry = #[trigger] partitioned.incorrectly_labeled@[k];
                entry.0.label_text() is Some && T::explains(
                    entry.0.label_text().unwrap(),
                    LabelDialect::ColonRequired,
                    entry.1,
                )
            },
        numbers_of::<T>(partitioned.unused_indexes@) == unused_numbers(
            labelables@,
            T::supported_indexes(),
            LabelDialect::ColonRequired,
        ),
        lists_unused(
            numbers_of::<T>(partitioned.unused_indexes@),
            labelables@,
            T::supported_indexes(),
            LabelDialect::ColonRequired,
        ),
{
    partition_labelables_in(labelables, LabelDialect::ColonRequired)
}

} // verus!
