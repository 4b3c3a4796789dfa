use vstd::prelude::*;

verus! {

/// The position of the first `wanted` in `s`, if there is one.
pub open spec fn position_of<A>(s: Seq<A>, wanted: A) -> Option<int>
    decreases s.len(),
{
    if s.len() == 0 {
        None
    } else if s[0] == wanted {
        Some(0)
    } else {
        match position_of(s.drop_first(), wanted) {
            Some(i) => Some(i + 1),
            None => None,
        }
    }
}

/// `position_of` gives the first position that holds the element, and `None` only
/// when no position holds it.
pub proof fn position_of_is_first<A>(s: Seq<A>, wanted: A)
    ensures
        match position_of(s, wanted) {
            Some(i) => 0 <= i < s.len() && s[i] == wanted && forall|j: int|
                0 <= j < i ==> s[j] != wanted,
            None => forall|j: int| 0 <= j < s.len() ==> s[j] != wanted,
        },
    decreases s.len(),
{
    if s.len() > 0 && s[0] != wanted {
        let rest = s.drop_first();
        position_of_is_first(rest, wanted);
        match position_of(rest, wanted) {
            Some(i) => {
                assert forall|j: int| 0 <= j < i + 1 implies s[j] != wanted by {
                    if j > 0 {
                        assert(rest[j - 1] == s[j]);
                    }
                }
            },
            None => {
                assert forall|j: int| 0 <= j < s.len() implies s[j] != wanted by {
                    if j > 0 {
                        assert(rest[j - 1] == s[j]);
                    }
                }
            },
        }
    }
}

/// The first position of `s` whose element is wanted, if there is one.
pub open spec fn first_where<A>(s: Seq<A>, wanted: spec_fn(A) -> bool) -> Option<int>
    decreases s.len(),
{
    if s.len() == 0 {
        None
    } else if wanted(s[0]) {
        Some(0)
    } else {
        match first_where(s.drop_first(), wanted) {
            Some(i) => Some(i + 1),
            None => None,
        }
    }
}

/// `first_where` gives a position whose element is wanted and before which none is,
/// and gives `None` only when no element is wanted.
pub proof fn first_where_is_first<A>(s: Seq<A>, wanted: spec_fn(A) -> bool)
    ensures
        match first_where(s, wanted) {
            Some(i) => 0 <= i < s.len() && wanted(s[i]) && forall|j: int|
                0 <= j < i ==> !wanted(s[j]),
            None => forall|j: int| 0 <= j < s.len() ==> !wanted(s[j]),
        },
    decreases s.len(),
{
    if s.len() > 0 && !wanted(s[0]) {
        let rest = s.drop_first();
        first_where_is_first(rest, wanted);
        match first_where(rest, wanted) {
            Some(i) => {
                assert forall|j: int| 0 <= j < i + 1 implies !wanted(s[j]) by {
                    if j > 0 {
                        assert(rest[j - 1] == s[j]);
                    }
                }
            },
            None => {
                assert forall|j: int| 0 <= j < s.len() implies !wanted(s[j]) by {
                    if j > 0 {
                        assert(rest[j - 1] == s[j]);
                    }
                }
            },
        }
    }
}

/// A position whose element is wanted, and before which none is, is what
/// `first_where` gives.
pub proof fn first_where_found<A>(s: Seq<A>, wanted: spec_fn(A) -> bool, i: int)
    requires
        0 <= i < s.len(),
        wanted(s[i]),
        forall|j: int| 0 <= j < i ==> !wanted(s[j]),
    ensures
        first_where(s, wanted) == Some(i),
{
    first_where_is_first(s, wanted);
}

/// Where no element is wanted, `first_where` gives `None`.
pub proof fn first_where_absent<A>(s: Seq<A>, wanted: spec_fn(A) -> bool)
    requires
        forall|j: int| 0 <= j < s.len() ==> !wanted(s[j]),
    ensures
        first_where(s, wanted) is None,
{
    first_where_is_first(s, wanted);
}

/// Filtering a sequence with one more element at its end keeps that element exactly
/// when it meets the condition.
pub proof fn filter_of_push<A>(s: Seq<A>, last: A, keep: spec_fn(A) -> bool)
    ensures
        s.push(last).filter(keep) == if keep(last) {
            s.filter(keep).push(last)
        } else {
            s.filter(keep)
        },
{
    reveal(Seq::filter);
    assert(s.push(last).drop_last() == s);
}

} // verus!
