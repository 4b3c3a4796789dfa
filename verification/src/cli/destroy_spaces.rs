use crate::yabai::command::DestoySpace;
use crate::yabai::transport::{Space, SpaceIndex};
use vstd::prelude::*;
use vstd::seq_lib::{to_multiset_build, to_multiset_insert};

verus! {

/// The space holds no window and is not visible.
pub open spec fn is_destroyable(space: Space) -> bool {
    space.windows@.len() == 0 && !space.is_visible
}

/// The indexes of the spaces among `spaces` that can be destroyed, in the order of the
/// spaces.
pub open spec fn destroyable_indexes(spaces: Seq<Space>) -> Seq<u32>
    decreases spaces.len(),
{
    if spaces.len() == 0 {
        Seq::empty()
    } else {
        let before = destroyable_indexes(spaces.drop_last());
        if is_destroyable(spaces.last()) {
            before.push(spaces.last().index.0)
        } else {
            before
        }
    }
}

/// No number is smaller than a later one.
pub open spec fn is_descending(numbers: Seq<u32>) -> bool {
    forall|a: int, b: int| 0 <= a < b < numbers.len() ==> numbers[a] >= numbers[b]
}

/// The indexes of the spaces that the requests destroy, in order.
pub open spec fn destroyed_indexes(commands: Seq<DestoySpace>) -> Seq<u32> {
    Seq::new(commands.len(), |k: int| commands[k].index.0)
}

/// Whether the space can be destroyed: it holds no window and is not visible.
pub fn space_destoyable(space: &Space) -> (destroyable: bool)
    ensures
        destroyable == is_destroyable(*space),
{
    space.windows.len() == 0 && !space.is_visible
}

/// `numbers` in descending order.
pub fn sorted_descending(numbers: &Vec<u32>) -> (sorted: Vec<u32>)
    ensures
        is_descending(sorted@),
        sorted@.to_multiset() == numbers@.to_multiset(),
{
    let mut sorted: Vec<u32> = Vec::new();
    let mut i: usize = 0;
    assert(sorted@ == numbers@.take(0));
    while i < numbers.len()
        invariant
            i <= numbers@.len(),
            is_descending(sorted@),
            sorted@.to_multiset() == numbers@.take(i as int).to_multiset(),
        decreases numbers@.len() - i,
    {
        let number = numbers[i];
        let mut at: usize = 0;
        while at < sorted.len() && sorted[at] >= number
            invariant
                at <= sorted@.len(),
                forall|a: int| 0 <= a < at ==> sorted@[a] >= number,
            decreases sorted@.len() - at,
        {
            at += 1;
        }
        let ghost before = sorted@;
        sorted.insert(at, number);
        proof {
            to_multiset_insert(before, at as int, number);
            assert(numbers@.take(i + 1) == numbers@.take(i as int).push(number));
            to_multiset_build(numbers@.take(i as int), number);
            assert forall|a: int, b: int| 0 <= a < b < sorted@.len() implies sorted@[a]
                >= sorted@[b] by {
                if a < at && b > at {
                    assert(sorted@[a] == before[a]);
                    assert(sorted@[b] == before[b - 1]);
                } else if a > at {
                    assert(sorted@[a] == before[a - 1]);
                    assert(sorted@[b] == before[b - 1]);
                } else if b < at {
                    assert(sorted@[a] == before[a]);
                    assert(sorted@[b] == before[b]);
                } else if a == at {
                    assert(sorted@[b] == before[b - 1]);
                    assert(before[b - 1] <= before[at as int]);
                }
            }
        }
        i += 1;
    }
    assert(numbers@.take(i as int) == numbers@);
    sorted
}

/// The requests that destroy the spaces without windows that are not visible, the
/// space with the greatest index first: the indexes of the spaces that remain do not
/// change while the requests are carried out in this order.
pub fn destroy_empty_background_spaces(spaces: &[Space]) -> (commands: Vec<DestoySpace>)
    ensures
        is_descending(destroyed_indexes(commands@)),
        destroyed_indexes(commands@).to_multiset() == destroyable_indexes(spaces@).to_multiset(),
{
    let mut indexes: Vec<u32> = Vec::new();
    let mut i: usize = 0;
    while i < spaces.len()
        invariant
            i <= spaces@.len(),
            indexes@ == destroyable_indexes(spaces@.take(i as int)),
        decreases spaces@.len() - i,
    {
        assert(spaces@.take(i + 1).drop_last() == spaces@.take(i as int));
        assert(spaces@.take(i + 1).last() == spaces@[i as int]);
        if space_destoyable(&spaces[i]) {
            indexes.push(spaces[i].index.0);
        }
        i += 1;
    }
    assert(spaces@.take(i as int) == spaces@);
    let sorted = sorted_descending(&indexes);
    let mut commands: Vec<DestoySpace> = Vec::new();
    let mut k: usize = 0;
    while k < sorted.len()
        invariant
            k <= sorted@.len(),
            commands@.len() == k,
            forall|l: int| 0 <= l < k ==> (#[trigger] commands@[l]).index.0 == sorted@[l],
        decreases sorted@.len() - k,
    {
        commands.push(DestoySpace { index: SpaceIndex(sorted[k]) });
        k += 1;
    }
    assert(destroyed_indexes(commands@) =~= sorted@);
    commands
}

} // verus!
