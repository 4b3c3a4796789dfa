use crate::label::partition::{carried_number, is_incorrectly_labeled};
use crate::label::space::{ParseSpaceLabelError, StableSpaceIndex};
use crate::label::{LabelDialect, Labelable};
use crate::sequences::{filter_of_push, position_of, position_of_is_first};
use crate::yabai::command::MoveSpace;
use crate::yabai::transport::{DisplayIndex, Space};
use vstd::prelude::*;
use vstd::slice::slice_subrange;

verus! {

/// An instruction to move `source` to the place immediately before `target`.
#[derive(Debug, Clone, Copy, PartialEq, Eq)]
pub struct Move<Item> {
    pub source: Item,
    pub target: Item,
}

/// No item before position `i` is greater than the item at `i`: that item stays where
/// it is.
pub open spec fn is_settled(items: Seq<u32>, i: int) -> bool {
    forall|j: int| 0 <= j < i ==> items[j] <= items[i]
}

/// Position `t` holds the smallest of the items before position `i` that are greater
/// than the item at `i`, and is the first position that does.
pub open spec fn is_target(items: Seq<u32>, i: int, t: int) -> bool {
    &&& 0 <= t < i
    &&& items[t] > items[i]
    &&& forall|j: int|
        0 <= j < i && items[j] > items[i] ==> items[t] <= #[trigger] items[j] && (j < t
            ==> items[t] < items[j])
}

/// The position before which the item at `i` is to be moved.
pub open spec fn target_of(items: Seq<u32>, i: int) -> int {
    choose|t: int| is_target(items, i, t)
}

/// The moves for the items before position `upto`, as pairs of the position of the
/// item to move and the position of its target, in the order of the items to move.
pub open spec fn move_plan(items: Seq<u32>, upto: int) -> Seq<(int, int)>
    decreases upto,
{
    if upto <= 0 {
        Seq::empty()
    } else {
        let before = move_plan(items, upto - 1);
        if is_settled(items, upto - 1) {
            before
        } else {
            before.push((upto - 1, target_of(items, upto - 1)))
        }
    }
}

/// Only one position can be the target of an item.
pub proof fn target_is_unique(items: Seq<u32>, i: int, t: int, u: int)
    requires
        is_target(items, i, t),
        is_target(items, i, u),
    ensures
        t == u,
{
    assert(items[t] <= items[u]);
    assert(items[u] <= items[t]);
}

/// The plan moves no item twice, takes the items in their order, and moves each before
/// an item that stands before it.
pub proof fn move_plan_is_ordered(items: Seq<u32>, upto: int)
    requires
        0 <= upto <= items.len(),
    ensures
        move_plan(items, upto).len() <= upto,
        forall|k: int|
            0 <= k < move_plan(items, upto).len() ==> {
                let planned = #[trigger] move_plan(items, upto)[k];
                &&& 0 <= planned.0 < upto
                &&& !is_settled(items, planned.0)
                &&& is_target(items, planned.0, planned.1)
            },
        forall|k: int, l: int|
            0 <= k < l < move_plan(items, upto).len() ==> (#[trigger] move_plan(items, upto)[k]).0
                < (#[trigger] move_plan(items, upto)[l]).0,
    decreases upto,
{
    if upto > 0 {
        move_plan_is_ordered(items, upto - 1);
        let i = upto - 1;
        if !is_settled(items, i) {
            target_exists(items, i);
        }
    }
}

/// An item that is not settled has a target.
pub proof fn target_exists(items: Seq<u32>, i: int)
    requires
        0 <= i < items.len(),
        !is_settled(items, i),
    ensures
        is_target(items, i, target_of(items, i)),
{
    let t = first_smallest_above(items, i, i);
    assert(is_target(items, i, t));
}

/// Among the positions before `upto` that hold an item greater than the one at `i`,
/// the first that holds the smallest such item.
proof fn first_smallest_above(items: Seq<u32>, i: int, upto: int) -> (t: int)
    requires
        0 <= upto <= i < items.len(),
        exists|j: int| 0 <= j < upto && items[j] > items[i],
    ensures
        0 <= t < upto,
        items[t] > items[i],
        forall|j: int|
            0 <= j < upto && items[j] > items[i] ==> items[t] <= #[trigger] items[j] && (j < t
                ==> items[t] < items[j]),
    decreases upto,
{
    let last = upto - 1;
    if exists|j: int| 0 <= j < last && items[j] > items[i] {
        let t = first_smallest_above(items, i, last);
        if items[last] > items[i] && items[last] < items[t] {
            last
        } else {
            t
        }
    } else {
        last
    }
}

/// For every item that is out of order, the position of the item and the position
/// before which it is to be moved.
pub fn generate_move_positions(items: &[u32]) -> (moves: Vec<Move<usize>>)
    ensures
        moves@.len() == move_plan(items@, items@.len() as int).len(),
        forall|k: int|
            0 <= k < moves@.len() ==> (#[trigger] moves@[k]).source == move_plan(
                items@,
                items@.len() as int,
            )[k].0 && moves@[k].target == move_plan(items@, items@.len() as int)[k].1,
{
    let mut moves: Vec<Move<usize>> = Vec::new();
    if items.len() == 0 {
        return moves;
    }
    let mut greatest_encountered: u32 = items[0];
    let mut index: usize = 0;
    while index < items.len()
        invariant
            index <= items@.len(),
            items@.len() > 0,
            forall|j: int| 0 <= j < index ==> items@[j] <= greatest_encountered,
            index > 0 ==> exists|j: int| 0 <= j < index && items@[j] == greatest_encountered,
            index == 0 ==> greatest_encountered == items@[0],
            moves@.len() == move_plan(items@, index as int).len(),
            forall|k: int|
                0 <= k < moves@.len() ==> (#[trigger] moves@[k]).source == move_plan(
                    items@,
                    index as int,
                )[k].0 && moves@[k].target == move_plan(items@, index as int)[k].1,
        decreases items@.len() - index,
    {
        let item = items[index];
        if item >= greatest_encountered {
            greatest_encountered = item;
            assert(is_settled(items@, index as int));
        } else {
            assert(!is_settled(items@, index as int));
            let mut target: usize = 0;
            let mut found = false;
            let mut other: usize = 0;
            while other < index
                invariant
                    other <= index < items@.len(),
                    item == items@[index as int],
                    found ==> target < other && items@[target as int] > item,
                    found ==> forall|j: int|
                        0 <= j < other && items@[j] > item ==> items@[target as int]
                            <= #[trigger] items@[j] && (j < target ==> items@[target as int]
                            < items@[j]),
                    !found ==> forall|j: int| 0 <= j < other ==> items@[j] <= item,
                decreases index - other,
            {
                if items[other] > item && (!found || items[other] < items[target]) {
                    target = other;
                    found = true;
                }
                other += 1;
            }
            assert(found);
            proof {
                target_exists(items@, index as int);
                target_is_unique(
                    items@,
                    index as int,
                    target as int,
                    target_of(items@, index as int),
                );
            }
            moves.push(Move { source: index, target });
        }
        index += 1;
    }
    moves
}

/// The moves of the plan for the items before position `upto`, each with the items
/// themselves in place of their positions.
pub open spec fn planned_moves(items: Seq<u32>, upto: int) -> Seq<Move<u32>> {
    Seq::new(
        move_plan(items, upto).len(),
        |k: int|
            Move {
                source: items[move_plan(items, upto)[k].0],
                target: items[move_plan(items, upto)[k].1],
            },
    )
}

/// `list` after its first `source` has been taken out and put back immediately before
/// the first `target`.  A list that lacks either of them stays as it is.
pub open spec fn relocate(list: Seq<u32>, source: u32, target: u32) -> Seq<u32> {
    match position_of(list, source) {
        None => list,
        Some(from) => {
            let rest = list.remove(from);
            match position_of(rest, target) {
                None => list,
                Some(to) => rest.insert(to, source),
            }
        },
    }
}

/// `list` after the moves have been carried out on it, one after the other.
pub open spec fn apply_moves(list: Seq<u32>, moves: Seq<Move<u32>>) -> Seq<u32>
    decreases moves.len(),
{
    if moves.len() == 0 {
        list
    } else {
        relocate(apply_moves(list, moves.drop_last()), moves.last().source, moves.last().target)
    }
}

/// No item is greater than a later one.
pub open spec fn is_ascending(list: Seq<u32>) -> bool {
    forall|a: int, b: int| 0 <= a < b < list.len() ==> list[a] <= list[b]
}

/// Every item is smaller than every later one.
pub open spec fn is_strictly_ascending(list: Seq<u32>) -> bool {
    forall|a: int, b: int| 0 <= a < b < list.len() ==> list[a] < list[b]
}

/// `list` holds the items of `items` before position `upto` in ascending order, and
/// after them the items of `items` from `upto` on, untouched.
pub open spec fn is_sorted_up_to(list: Seq<u32>, items: Seq<u32>, upto: int) -> bool {
    &&& list.len() == items.len()
    &&& forall|j: int| upto <= j < items.len() ==> list[j] == items[j]
    &&& forall|a: int, b: int| 0 <= a < b < upto ==> list[a] < list[b]
    &&& forall|a: int| 0 <= a < upto ==> items.take(upto).contains(#[trigger] list[a])
    &&& forall|j: int| 0 <= j < upto ==> list.take(upto).contains(#[trigger] items[j])
}

/// A list in ascending order needs no move.
pub proof fn ascending_needs_no_move(items: Seq<u32>, upto: int)
    requires
        is_ascending(items),
        0 <= upto <= items.len(),
    ensures
        move_plan(items, upto).len() == 0,
    decreases upto,
{
    if upto > 0 {
        ascending_needs_no_move(items, upto - 1);
        assert(is_settled(items, upto - 1));
    }
}

/// No item of the sorted part of `list` is the item at `i`, which the list holds at
/// that position.
proof fn next_item_is_new(list: Seq<u32>, items: Seq<u32>, i: int)
    requires
        items.no_duplicates(),
        0 <= i < items.len(),
        is_sorted_up_to(list, items, i),
    ensures
        list[i] == items[i],
        forall|a: int| 0 <= a < i ==> list[a] != items[i],
        forall|a: int| 0 <= a < i && is_settled(items, i) ==> list[a] < items[i],
{
    assert forall|a: int| 0 <= a < i implies list[a] != items[i] && (is_settled(items, i)
        ==> list[a] < items[i]) by {
        assert(items.take(i).contains(list[a]));
        let j = choose|j: int| 0 <= j < i && items.take(i)[j] == list[a];
        assert(items[j] == list[a]);
        if is_settled(items, i) {
            assert(items[j] <= items[i]);
        }
    }
}

/// A sorted part grows by the next item when the membership of either list in the
/// other is carried over position by position.
proof fn membership_extends(
    list: Seq<u32>,
    longer: Seq<u32>,
    items: Seq<u32>,
    i: int,
    to: int,
)
    requires
        0 <= to <= i < items.len(),
        list.len() == items.len(),
        longer.len() == items.len(),
        forall|a: int| 0 <= a < i ==> items.take(i).contains(#[trigger] list[a]),
        forall|j: int| 0 <= j < i ==> list.take(i).contains(#[trigger] items[j]),
        forall|a: int| 0 <= a < to ==> longer[a] == list[a],
        longer[to] == items[i],
        forall|a: int| to < a <= i ==> longer[a] == list[a - 1],
    ensures
        forall|a: int| 0 <= a < i + 1 ==> items.take(i + 1).contains(#[trigger] longer[a]),
        forall|j: int| 0 <= j < i + 1 ==> longer.take(i + 1).contains(#[trigger] items[j]),
{
    assert forall|a: int| 0 <= a < i + 1 implies items.take(i + 1).contains(
        #[trigger] longer[a],
    ) by {
        if a == to {
            assert(items.take(i + 1)[i] == longer[a]);
        } else {
            let before = if a < to {
                a
            } else {
                a - 1
            };
            assert(longer[a] == list[before]);
            assert(items.take(i).contains(list[before]));
            let j = choose|j: int| 0 <= j < i && items.take(i)[j] == list[before];
            assert(items.take(i + 1)[j] == longer[a]);
        }
    }
    assert forall|j: int| 0 <= j < i + 1 implies longer.take(i + 1).contains(
        #[trigger] items[j],
    ) by {
        if j == i {
            assert(longer.take(i + 1)[to] == items[j]);
        } else {
            assert(list.take(i).contains(items[j]));
            let a = choose|a: int| 0 <= a < i && list.take(i)[a] == items[j];
            let after = if a < to {
                a
            } else {
                a + 1
            };
            assert(longer[after] == list[a]);
            assert(longer.take(i + 1)[after] == items[j]);
        }
    }
}

/// An item that is settled extends the sorted part as it stands.
proof fn settled_item_extends(list: Seq<u32>, items: Seq<u32>, i: int)
    requires
        items.no_duplicates(),
        0 <= i < items.len(),
        is_sorted_up_to(list, items, i),
        is_settled(items, i),
    ensures
        is_sorted_up_to(list, items, i + 1),
{
    next_item_is_new(list, items, i);
    membership_extends(list, list, items, i, i);
}

/// Moving an item that is not settled before its target extends the sorted part.
proof fn moved_item_extends(list: Seq<u32>, items: Seq<u32>, i: int)
    requires
        items.no_duplicates(),
        0 <= i < items.len(),
        is_sorted_up_to(list, items, i),
        !is_settled(items, i),
    ensures
        is_sorted_up_to(relocate(list, items[i], items[target_of(items, i)]), items, i + 1),
{
    let item = items[i];
    target_exists(items, i);
    let target = items[target_of(items, i)];
    next_item_is_new(list, items, i);
    // The item to move is found where it was.
    position_of_is_first(list, item);
    assert(position_of(list, item) == Some(i));
    let rest = list.remove(i);
    // Its target is found in the sorted part.
    assert(list.take(i).contains(target));
    let to = choose|a: int| 0 <= a < i && list.take(i)[a] == target;
    assert(list[to] == target);
    position_of_is_first(rest, target);
    assert(rest[to] == target);
    assert forall|a: int| 0 <= a < to implies rest[a] != target by {
        assert(rest[a] == list[a]);
    }
    assert(position_of(rest, target) == Some(to));
    let moved = rest.insert(to, item);
    assert(relocate(list, item, target) == moved);
    assert forall|a: int| 0 <= a < to implies moved[a] == list[a] by {}
    assert forall|a: int| to < a <= i implies moved[a] == list[a - 1] by {}
    assert forall|j: int| i < j < items.len() implies moved[j] == items[j] by {
        assert(moved[j] == rest[j - 1]);
    }
    // What stands before the target is smaller than the moved item.
    assert forall|a: int| 0 <= a < to implies list[a] < item by {
        assert(items.take(i).contains(list[a]));
        let j = choose|j: int| 0 <= j < i && items.take(i)[j] == list[a];
        assert(items[j] == list[a]);
        if items[j] > item {
            assert(target <= items[j]);
        }
    }
    assert forall|a: int, b: int| 0 <= a < b < i + 1 implies moved[a] < moved[b] by {
        if b > to {
            assert(moved[b] == list[b - 1]);
            assert(list[to] <= list[b - 1]);
        }
    }
    membership_extends(list, moved, items, i, to);
}

/// Carrying out the planned moves for the items before `upto`, on a list without
/// duplicates, puts those items in ascending order and leaves the rest as it was.
pub proof fn planned_moves_sort_a_prefix(items: Seq<u32>, upto: int)
    requires
        items.no_duplicates(),
        0 <= upto <= items.len(),
    ensures
        is_sorted_up_to(apply_moves(items, planned_moves(items, upto)), items, upto),
    decreases upto,
{
    let moves = planned_moves(items, upto);
    if upto == 0 {
        assert(moves.len() == 0);
        assert(apply_moves(items, moves) == items);
    } else {
        let i = upto - 1;
        let earlier = planned_moves(items, i);
        let list = apply_moves(items, earlier);
        planned_moves_sort_a_prefix(items, i);
        if is_settled(items, i) {
            assert(moves =~= earlier);
            settled_item_extends(list, items, i);
        } else {
            let target = items[target_of(items, i)];
            assert(moves.drop_last() =~= earlier);
            assert(moves.last() == Move { source: items[i], target });
            assert(apply_moves(items, moves) == relocate(list, items[i], target));
            moved_item_extends(list, items, i);
        }
    }
}

/// Carrying out the generated moves on a list without duplicates sorts it: the outcome
/// is in ascending order and holds the items of the list, each once.
pub proof fn generated_moves_sort(items: Seq<u32>)
    requires
        items.no_duplicates(),
    ensures
        ({
            let sorted = apply_moves(items, planned_moves(items, items.len() as int));
            &&& sorted.len() == items.len()
            &&& is_strictly_ascending(sorted)
            &&& forall|item: u32| sorted.contains(item) <==> items.contains(item)
        }),
{
    let n = items.len() as int;
    let sorted = apply_moves(items, planned_moves(items, n));
    planned_moves_sort_a_prefix(items, n);
    assert(items.take(n) == items);
    assert(sorted.take(n) == sorted);
    assert forall|item: u32| sorted.contains(item) <==> items.contains(item) by {
        if sorted.contains(item) {
            let a = choose|a: int| 0 <= a < sorted.len() && sorted[a] == item;
            assert(items.take(n).contains(sorted[a]));
        }
        if items.contains(item) {
            let j = choose|j: int| 0 <= j < items.len() && items[j] == item;
            assert(sorted.take(n).contains(items[j]));
        }
    }
}

/// The moves that put `items` in ascending order when carried out one after the other,
/// each on the list as the moves before it left it.  An item that is at least as great
/// as every item before it stays; any other is moved before the smallest item before
/// it that is greater.
pub fn generate_move_list(items: &[u32]) -> (moves: Vec<Move<u32>>)
    ensures
        moves@ == planned_moves(items@, items@.len() as int),
        is_ascending(items@) ==> moves@.len() == 0,
        items@.no_duplicates() ==> {
            let sorted = apply_moves(items@, moves@);
            &&& sorted.len() == items@.len()
            &&& is_strictly_ascending(sorted)
            &&& forall|item: u32| sorted.contains(item) <==> items@.contains(item)
        },
{
    let positions = generate_move_positions(items);
    proof {
        move_plan_is_ordered(items@, items@.len() as int);
    }
    let mut moves: Vec<Move<u32>> = Vec::new();
    let mut k: usize = 0;
    while k < positions.len()
        invariant
            k <= positions@.len(),
            moves@.len() == k,
            positions@.len() == move_plan(items@, items@.len() as int).len(),
            forall|l: int|
                0 <= l < positions@.len() ==> {
                    let planned = #[trigger] move_plan(items@, items@.len() as int)[l];
                    &&& positions@[l].source == planned.0
                    &&& positions@[l].target == planned.1
                    &&& 0 <= planned.1 < planned.0 < items@.len()
                },
            forall|l: int|
                0 <= l < k ==> #[trigger] moves@[l] == planned_moves(
                    items@,
                    items@.len() as int,
                )[l],
        decreases positions@.len() - k,
    {
        let planned = positions[k];
        assert(move_plan(items@, items@.len() as int)[k as int].0 == planned.source);
        moves.push(Move { source: items[planned.source], target: items[planned.target] });
        k += 1;
    }
    proof {
        assert(moves@ =~= planned_moves(items@, items@.len() as int));
        if is_ascending(items@) {
            ascending_needs_no_move(items@, items@.len() as int);
        }
        if items@.no_duplicates() {
            generated_moves_sort(items@);
        }
    }
    moves
}

/// A space whose label carries a stable index.
#[derive(Debug, PartialEq, Eq)]
pub struct LabeledSpace {
    pub stable_index: StableSpaceIndex,
    pub label: String,
    pub display_index: DisplayIndex,
}

/// A `LabeledSpace` with its stable index as a number and its label as a sequence of
/// characters.
pub struct LabeledSpaceView {
    pub number: u32,
    pub label: Seq<char>,
    pub display_index: DisplayIndex,
}

impl DeepView for LabeledSpace {
    type V = LabeledSpaceView;

    open spec fn deep_view(&self) -> LabeledSpaceView {
        LabeledSpaceView {
            number: self.stable_index@,
            label: self.label@,
            display_index: self.display_index,
        }
    }
}

/// The spaces among `spaces` whose label carries a stable index, in order.
pub open spec fn labeled_spaces(spaces: Seq<Space>, dialect: LabelDialect) -> Seq<
    LabeledSpaceView,
>
    decreases spaces.len(),
{
    if spaces.len() == 0 {
        Seq::empty()
    } else {
        let before = labeled_spaces(spaces.drop_last(), dialect);
        let space = spaces.last();
        match carried_number(space, dialect) {
            Some(number) => before.push(
                LabeledSpaceView {
                    number,
                    label: space.label.unwrap()@,
                    display_index: space.display_index,
                },
            ),
            None => before,
        }
    }
}

/// The stable indexes of the spaces, as numbers, in order.
pub open spec fn numbers_in(group: Seq<LabeledSpaceView>) -> Seq<u32> {
    Seq::new(group.len(), |k: int| group[k].number)
}

/// How many spaces at the front of `spaces` lie on the display of the first one, with
/// no space of another display between them.
pub open spec fn run_length(spaces: Seq<LabeledSpaceView>) -> int
    decreases spaces.len(),
{
    if spaces.len() == 0 {
        0
    } else if spaces.len() > 1 && spaces[1].display_index == spaces[0].display_index {
        1 + run_length(spaces.drop_first())
    } else {
        1
    }
}

/// The labels of the source and of the target of each request, in order.
pub open spec fn move_labels(moves: Seq<MoveSpace>) -> Seq<(Seq<char>, Seq<char>)> {
    Seq::new(moves.len(), |k: int| (moves[k].source_label@, moves[k].target_label@))
}

/// The moves that sort the spaces of one display by their stable indexes, each as the
/// labels of the space to move and of the space before which it goes.
pub open spec fn group_moves(group: Seq<LabeledSpaceView>) -> Seq<(Seq<char>, Seq<char>)> {
    let plan = move_plan(numbers_in(group), group.len() as int);
    Seq::new(plan.len(), |k: int| (group[plan[k].0].label, group[plan[k].1].label))
}

/// The moves that sort the spaces by their stable indexes within each display: those
/// for the first run of spaces on one display, then those for the next run, and so on.
pub open spec fn reorder_moves(spaces: Seq<LabeledSpaceView>) -> Seq<(Seq<char>, Seq<char>)>
    decreases spaces.len(),
{
    let run = run_length(spaces);
    if 0 < run <= spaces.len() {
        group_moves(spaces.take(run)) + reorder_moves(spaces.skip(run))
    } else {
        Seq::empty()
    }
}

/// A run that ends where the display changes, or where the spaces end, is as long as
/// `run_length` says.
proof fn run_ends_at(spaces: Seq<LabeledSpaceView>, end: int)
    requires
        0 < end <= spaces.len(),
        forall|k: int|
            0 <= k < end ==> (#[trigger] spaces[k]).display_index == spaces[0].display_index,
        end < spaces.len() ==> spaces[end].display_index != spaces[0].display_index,
    ensures
        run_length(spaces) == end,
    decreases end,
{
    if end > 1 {
        let rest = spaces.drop_first();
        assert forall|k: int| 0 <= k < end - 1 implies (#[trigger] rest[k]).display_index
            == rest[0].display_index by {
            assert(rest[k] == spaces[k + 1]);
        }
        run_ends_at(rest, end - 1);
    }
}

/// Reads the stable indexes of the spaces that have a label.  If the label of any
/// carries none, those labels are returned, each with the reason, in the order of the
/// spaces.
pub fn read_labeled_spaces(spaces: &[Space], dialect: LabelDialect) -> (outcome: Result<
    Vec<LabeledSpace>,
    Vec<ParseSpaceLabelError>,
>)
    ensures
        match outcome {
            Ok(labeled) => {
                &&& spaces@.filter(is_incorrectly_labeled::<Space>(dialect)).len() == 0
                &&& labeled.deep_view() == labeled_spaces(spaces@, dialect)
            },
            Err(errors) => {
                let unreadable = spaces@.filter(is_incorrectly_labeled::<Space>(dialect));
                &&& unreadable.len() > 0
                &&& errors@.len() == unreadable.len()
                &&& forall|k: int|
                    0 <= k < errors@.len() ==> unreadable[k].label_text() == Some(
                        (#[trigger] errors@[k])@.label(),
                    ) && Space::explains(errors@[k]@.label(), dialect, errors@[k])
            },
        },
{
    let mut labeled: Vec<LabeledSpace> = Vec::new();
    let mut errors: Vec<ParseSpaceLabelError> = Vec::new();
    let mut i: usize = 0;
    assert(spaces@.take(0).filter(is_incorrectly_labeled::<Space>(dialect)) =~= Seq::<Space>::empty())
        by {
        reveal(Seq::filter);
    }
    while i < spaces.len()
        invariant
            i <= spaces@.len(),
            labeled.deep_view() == labeled_spaces(spaces@.take(i as int), dialect),
            errors@.len() == spaces@.take(i as int).filter(is_incorrectly_labeled::<Space>(dialect)).len(),
            forall|k: int|
                0 <= k < errors@.len() ==> {
                    let unreadable = spaces@.take(i as int).filter(
                        is_incorrectly_labeled::<Space>(dialect),
                    )[k];
                    unreadable.label_text() == Some((#[trigger] errors@[k])@.label())
                        && Space::explains(errors@[k]@.label(), dialect, errors@[k])
                },
        decreases spaces@.len() - i,
    {
        let space = &spaces[i];
        let ghost seen = spaces@.take(i as int);
        let ghost errors_before = errors@;
        let ghost labeled_before = labeled.deep_view();
        proof {
            assert(spaces@.take(i + 1) == seen.push(*space));
            assert(spaces@.take(i + 1).drop_last() == seen);
            filter_of_push(seen, *space, is_incorrectly_labeled::<Space>(dialect));
        }
        match &space.label {
            Some(label) => match Space::parse_index_in(label.as_str(), dialect) {
                Ok(stable_index) => {
                    labeled.push(
                        LabeledSpace {
                            stable_index,
                            label: label.clone(),
                            display_index: space.display_index,
                        },
                    );
                    assert(labeled.deep_view() =~= labeled_before.push(
                        LabeledSpaceView {
                            number: stable_index@,
                            label: label@,
                            display_index: space.display_index,
                        },
                    ));
                },
                Err(error) => {
                    errors.push(error);
                    assert forall|k: int| 0 <= k < errors@.len() implies {
                        let unreadable = spaces@.take(i + 1).filter(
                            is_incorrectly_labeled::<Space>(dialect),
                        )[k];
                        unreadable.label_text() == Some((#[trigger] errors@[k])@.label())
                            && Space::explains(errors@[k]@.label(), dialect, errors@[k])
                    } by {
                        if k < errors_before.len() {
                            assert(errors@[k] == errors_before[k]);
                        }
                    }
                },
            },
            None => {},
        }
        i += 1;
    }
    assert(spaces@.take(i as int) == spaces@);
    if errors.len() > 0 {
        Err(errors)
    } else {
        Ok(labeled)
    }
}

/// The requests that sort the spaces whose labels carry stable indexes by those
/// indexes, display by display: the spaces that follow one another on one display are
/// sorted among themselves.  The label of every space that has one must carry a stable
/// index; else the labels that carry none are returned, each with the reason.
pub fn reorder_spaces_by_stable_indexes(spaces: &[Space], dialect: LabelDialect) -> (outcome:
    Result<Vec<MoveSpace>, Vec<ParseSpaceLabelError>>)
    ensures
        match outcome {
            Ok(moves) => {
                &&& spaces@.filter(is_incorrectly_labeled::<Space>(dialect)).len() == 0
                &&& move_labels(moves@) == reorder_moves(labeled_spaces(spaces@, dialect))
            },
            Err(errors) => {
                let unreadable = spaces@.filter(is_incorrectly_labeled::<Space>(dialect));
                &&& unreadable.len() > 0
                &&& errors@.len() == unreadable.len()
                &&& forall|k: int|
                    0 <= k < errors@.len() ==> unreadable[k].label_text() == Some(
                        (#[trigger] errors@[k])@.label(),
                    ) && Space::explains(errors@[k]@.label(), dialect, errors@[k])
            },
        },
{
    let labeled = match read_labeled_spaces(spaces, dialect) {
        Ok(labeled) => labeled,
        Err(errors) => {
            return Err(errors);
        },
    };
    let ghost all = labeled.deep_view();
    let mut keys: Vec<u32> = Vec::new();
    let mut k: usize = 0;
    while k < labeled.len()
        invariant
            k <= labeled@.len(),
            keys@.len() == k,
            forall|l: int| 0 <= l < k ==> keys@[l] == (#[trigger] labeled@[l]).stable_index@,
        decreases labeled@.len() - k,
    {
        keys.push(labeled[k].stable_index.get());
        k += 1;
    }
    assert(keys@ =~= numbers_in(all));

    let mut moves: Vec<MoveSpace> = Vec::new();
    let mut start: usize = 0;
    assert(all.skip(0) == all);
    assert(move_labels(moves@) =~= Seq::<(Seq<char>, Seq<char>)>::empty());
    while start < labeled.len()
        invariant
            start <= labeled@.len(),
            all == labeled.deep_view(),
            all.len() == labeled@.len(),
            keys@ == numbers_in(all),
            move_labels(moves@) + reorder_moves(all.skip(start as int)) == reorder_moves(all),
        decreases labeled@.len() - start,
    {
        let display = labeled[start].display_index;
        let mut end: usize = start + 1;
        while end < labeled.len() && labeled[end].display_index.0 == display.0
            invariant
                start < end <= labeled@.len(),
                display == labeled@[start as int].display_index,
                forall|l: int|
                    start <= l < end ==> (#[trigger] labeled@[l]).display_index == display,
            decreases labeled@.len() - end,
        {
            end += 1;
        }
        let ghost rest = all.skip(start as int);
        let ghost group = rest.take(end - start);
        proof {
            assert forall|l: int| 0 <= l < end - start implies (#[trigger] rest[l]).display_index
                == rest[0].display_index by {
                assert(rest[l] == labeled@[start + l].deep_view());
            }
            if end - start < rest.len() {
                assert(rest[end - start] == labeled@[end as int].deep_view());
            }
            run_ends_at(rest, end - start);
            assert(rest.skip(end - start) =~= all.skip(end as int));
            assert(reorder_moves(rest) == group_moves(group) + reorder_moves(
                all.skip(end as int),
            ));
        }
        let group_keys = slice_subrange(keys.as_slice(), start, end);
        assert(group_keys@ =~= numbers_in(group));
        let positions = generate_move_positions(group_keys);
        proof {
            move_plan_is_ordered(group_keys@, group_keys@.len() as int);
        }
        let ghost plan = move_plan(numbers_in(group), group.len() as int);
        let ghost moves_before = moves@;
        let mut m: usize = 0;
        while m < positions.len()
            invariant
                m <= positions@.len(),
                start < end <= labeled@.len(),
                all == labeled.deep_view(),
                all.len() == labeled@.len(),
                group == all.skip(start as int).take(end - start),
                plan == move_plan(numbers_in(group), group.len() as int),
                positions@.len() == plan.len(),
                forall|l: int|
                    0 <= l < positions@.len() ==> {
                        let planned = #[trigger] plan[l];
                        &&& positions@[l].source == planned.0
                        &&& positions@[l].target == planned.1
                        &&& 0 <= planned.1 < planned.0 < group.len()
                    },
                moves@.len() == moves_before.len() + m,
                forall|l: int| 0 <= l < moves_before.len() ==> moves@[l] == moves_before[l],
                forall|l: int|
                    0 <= l < m ==> (#[trigger] moves@[moves_before.len() + l]).source_label@
                        == group[plan[l].0].label && moves@[moves_before.len() + l].target_label@
                        == group[plan[l].1].label,
            decreases positions@.len() - m,
        {
            let planned = positions[m];
            assert(plan[m as int].0 == planned.source);
            let source = &labeled[start + planned.source];
            let target = &labeled[start + planned.target];
            assert(group[planned.source as int] == source.deep_view());
            assert(group[planned.target as int] == target.deep_view());
            moves.push(
                MoveSpace { source_label: source.label.clone(), target_label: target.label.clone() },
            );
            m += 1;
        }
        proof {
            let joined = move_labels(moves_before) + group_moves(group);
            assert(group_moves(group).len() == plan.len());
            assert(move_labels(moves@).len() == joined.len());
            assert forall|l: int| 0 <= l < joined.len() implies move_labels(moves@)[l]
                == joined[l] by {
                if l < moves_before.len() {
                    assert(moves@[l] == moves_before[l]);
                } else {
                    let within = l - moves_before.len();
                    assert(moves@[moves_before.len() + within].source_label@
                        == group[plan[within].0].label);
                    assert(joined[l] == group_moves(group)[within]);
                }
            }
            assert(move_labels(moves@) =~= joined);
            assert(move_labels(moves@) + reorder_moves(all.skip(end as int)) =~= move_labels(
                moves_before,
            ) + (group_moves(group) + reorder_moves(all.skip(end as int))));
        }
        start = end;
    }
    proof {
        assert(reorder_moves(all.skip(start as int)) =~= Seq::<(Seq<char>, Seq<char>)>::empty());
        assert(move_labels(moves@) + Seq::<(Seq<char>, Seq<char>)>::empty() =~= move_labels(
            moves@,
        ));
    }
    Ok(moves)
}

} // verus!
