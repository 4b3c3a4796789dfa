use crate::label::partition::{
    entities_of, is_incorrectly_labeled, is_unlabeled, partition_labelables_in, unused_numbers,
    PartitionedLabelables,
};
use crate::label::space::{formatted_label, supported_stable_indexes, ParseSpaceLabelError};
use crate::label::{LabelDialect, Labelable};
use crate::yabai::command::LabelSpace;
use crate::yabai::transport::Space;
use vstd::prelude::*;

verus! {

/// What labeling the spaces comes to.
pub struct LabelSpacesPlan {
    /// The spaces whose label carries no stable index, each with the reason.  They
    /// keep their labels.
    pub incorrectly_labeled: Vec<(Space, ParseSpaceLabelError)>,
    /// The spaces without a label for which no stable index is left.
    pub leftover_items: Vec<Space>,
    /// The requests that label the other spaces without a label.
    pub commands: Vec<LabelSpace>,
}

/// Gives the stable indexes that no space carries to the spaces without a label: the
/// lowest such index to the first such space, and so on.  The labels that the spaces
/// have are read as `dialect` has it.
pub fn label_spaces(spaces: Vec<Space>, dialect: LabelDialect) -> (plan: LabelSpacesPlan)
    ensures
        entities_of(plan.incorrectly_labeled@) == spaces@.filter(
            is_incorrectly_labeled::<Space>(dialect),
        ),
        forall|k: int|
            0 <= k < plan.incorrectly_labeled@.len() ==> {
                let entry = #[trigger] plan.incorrectly_labeled@[k];
                &&& entry.0.label_text() is Some
                &&& Space::explains(entry.0.label_text().unwrap(), dialect, entry.1)
                &&& entry.1@.label() == entry.0.label_text().unwrap()
            },
        ({
            let to_label = spaces@.filter(is_unlabeled::<Space>());
            let numbers = unused_numbers(spaces@, supported_stable_indexes(), dialect);
            &&& plan.commands@.len() == if to_label.len() <= numbers.len() {
                to_label.len()
            } else {
                numbers.len()
            }
            &&& forall|k: int|
                0 <= k < plan.commands@.len() ==> (#[trigger] plan.commands@[k]).index()
                    == to_label[k].index && plan.commands@[k].label() == formatted_label(
                    numbers[k],
                    None,
                )
            &&& plan.leftover_items@ == to_label.skip(plan.commands@.len() as int)
        }),
{
    let PartitionedLabelables { incorrectly_labeled, unused_indexes, items_to_label } =
        partition_labelables_in(spaces, dialect);
    let ghost to_label = items_to_label@;
    let ghost indexes = unused_indexes@;
    let ghost numbers = unused_numbers(spaces@, supported_stable_indexes(), dialect);
    assert(numbers.len() == indexes.len());
    assert(forall|k: int| 0 <= k < indexes.len() ==> (#[trigger] indexes[k])@ == numbers[k]);
    let assigned = (PartitionedLabelables::<Space> {
        incorrectly_labeled: Vec::new(),
        unused_indexes,
        items_to_label,
    }).into_assigned_indices();
    let mut commands: Vec<LabelSpace> = Vec::new();
    let pairs = assigned.assigned_indices;
    let mut k: usize = 0;
    while k < pairs.len()
        invariant
            k <= pairs@.len(),
            commands@.len() == k,
            pairs@.len() <= to_label.len(),
            pairs@.len() <= indexes.len(),
            numbers.len() == indexes.len(),
            forall|l: int| 0 <= l < indexes.len() ==> (#[trigger] indexes[l])@ == numbers[l],
            forall|l: int|
                0 <= l < pairs@.len() ==> #[trigger] pairs@[l] == (to_label[l], indexes[l]),
            forall|l: int|
                0 <= l < k ==> (#[trigger] commands@[l]).index() == to_label[l].index
                    && commands@[l].label() == formatted_label(numbers[l], None),
        decreases pairs@.len() - k,
    {
        let pair = &pairs[k];
        assert(*pair == (to_label[k as int], indexes[k as int]));
        let label = Space::label(pair.1, None);
        commands.push(LabelSpace::new(pair.0.index, label));
        k += 1;
    }
    LabelSpacesPlan { incorrectly_labeled, leftover_items: assigned.leftover_items, commands }
}

} // verus!
