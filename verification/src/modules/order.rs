//! The order in which report rows are shown.
//!
//! A row is ordered by a number, then by a text. Rows with the same number
//! and text keep the order in which they were given.

use crate::data::text::{
    lemma_text_le_total, lemma_text_le_transitive, text_le, text_precedes,
};
use vstd::prelude::*;
use vstd::set_lib::{
    lemma_int_range, lemma_set_subset_finite, lemma_subset_equality, set_int_range,
};

verus! {

/// What a row is ordered by.
#[derive(Debug)]
pub struct SortKey {
    pub rank: i64,
    pub text: String,
}

impl View for SortKey {
    type V = (int, Seq<char>);

    open spec fn view(&self) -> (int, Seq<char>) {
        (self.rank as int, self.text@)
    }
}

/// The views of a sequence of keys.
pub open spec fn key_views(keys: Seq<SortKey>) -> Seq<(int, Seq<char>)> {
    Seq::new(keys.len(), |i: int| keys[i]@)
}

/// The order of keys: by number, then by text.
pub open spec fn key_le(a: (int, Seq<char>), b: (int, Seq<char>)) -> bool {
    a.0 < b.0 || (a.0 == b.0 && text_le(a.1, b.1))
}

/// `order` names each of the positions `0 .. count` exactly once.
pub open spec fn is_arrangement(order: Seq<usize>, count: nat) -> bool {
    &&& order.len() == count
    &&& forall|i: int| 0 <= i < order.len() ==> #[trigger] order[i] < count
    &&& forall|i: int, j: int|
        0 <= i < j < order.len() ==> #[trigger] order[i] != #[trigger] order[j]
}

/// Read in the given order the keys do not decrease, and keys that are equal
/// stand in the order of their positions.
pub open spec fn is_sorted_stable(order: Seq<usize>, keys: Seq<(int, Seq<char>)>) -> bool {
    forall|i: int, j: int|
        #![trigger order[i], order[j]]
        0 <= i < j < order.len() ==> {
            &&& key_le(keys[order[i] as int], keys[order[j] as int])
            &&& key_le(keys[order[j] as int], keys[order[i] as int]) ==> order[i] < order[j]
        }
}

/// The lines read in the given order.
pub open spec fn arranged<T>(lines: Seq<T>, order: Seq<usize>) -> Seq<T> {
    Seq::new(order.len(), |i: int| lines[order[i] as int])
}

/// `report` holds the lines in ascending order of their keys, lines with
/// equal keys in the order in which they were given.
pub open spec fn is_ordered<T>(report: Seq<T>, lines: Seq<T>, keys: Seq<(int, Seq<char>)>) -> bool {
    exists|order: Seq<usize>|
        {
            &&& is_arrangement(order, lines.len())
            &&& is_sorted_stable(order, keys)
            &&& report == #[trigger] arranged(lines, order)
        }
}

/// An arrangement names every position.
proof fn lemma_arrangement_names(order: Seq<usize>, count: nat, x: int)
    requires
        is_arrangement(order, count),
        0 <= x < count,
    ensures
        exists|p: int| 0 <= p < order.len() && order[p] == x,
{
    // The named positions are `count` different numbers below `count`, so
    // they are all of them.
    let named = Seq::new(order.len(), |i: int| order[i] as int);
    let all = set_int_range(0, count as int);
    assert(named.no_duplicates()) by {
        assert forall|i: int, j: int|
            0 <= i < named.len() && 0 <= j < named.len() && i != j implies named[i]
            != named[j] by {
            assert(order[i] != order[j]);
        }
    }
    assert(named.to_set().subset_of(all)) by {
        assert forall|v: int| named.to_set().contains(v) implies all.contains(v) by {
            let i = choose|i: int| 0 <= i < named.len() && named[i] == v;
            assert(order[i] < count);
        }
    }
    named.unique_seq_to_set();
    lemma_int_range(0, count as int);
    lemma_set_subset_finite(all, named.to_set());
    lemma_subset_equality(named.to_set(), all);
    assert(named.to_set().contains(x));
    let p = choose|p: int| 0 <= p < named.len() && named[p] == x;
    assert(order[p] == x);
}

/// Two arrangements that are both sorted and stable agree on the first
/// `upto` places.
proof fn lemma_orders_agree(
    first: Seq<usize>,
    second: Seq<usize>,
    keys: Seq<(int, Seq<char>)>,
    upto: int,
)
    requires
        is_arrangement(first, keys.len()),
        is_arrangement(second, keys.len()),
        is_sorted_stable(first, keys),
        is_sorted_stable(second, keys),
        0 <= upto <= keys.len(),
    ensures
        forall|q: int| 0 <= q < upto ==> first[q] == second[q],
    decreases upto,
{
    if upto > 0 {
        lemma_orders_agree(first, second, keys, upto - 1);
        let p = upto - 1;
        let x = first[p];
        let y = second[p];
        if x != y {
            // Each arrangement names the other's position at a later place:
            // an earlier place is shared, and would name it twice.
            lemma_arrangement_names(second, keys.len(), x as int);
            let q = choose|q: int| 0 <= q < second.len() && second[q] == x;
            lemma_arrangement_names(first, keys.len(), y as int);
            let r = choose|r: int| 0 <= r < first.len() && first[r] == y;
            assert(p < q) by {
                if q < p {
                    assert(first[q] != first[p]);
                }
            }
            assert(p < r) by {
                if r < p {
                    assert(second[r] != second[p]);
                }
            }
            // So each of the two keys is ordered before the other, and each
            // of the two positions is the smaller one.
            assert(key_le(keys[y as int], keys[x as int]) && key_le(keys[x as int], keys[y as int]))
                by {
                assert(second[p] == y && second[q] == x);
                assert(first[p] == x && first[r] == y);
            }
            assert(false);
        }
    }
}

/// The keys fix the order: two arrangements of the same keys that are both
/// sorted and stable are the same arrangement.
pub proof fn lemma_sorted_order_unique(
    first: Seq<usize>,
    second: Seq<usize>,
    keys: Seq<(int, Seq<char>)>,
)
    requires
        is_arrangement(first, keys.len()),
        is_arrangement(second, keys.len()),
        is_sorted_stable(first, keys),
        is_sorted_stable(second, keys),
    ensures
        first == second,
{
    lemma_orders_agree(first, second, keys, keys.len() as int);
}

/// An ordered report is fixed by its lines and their keys: two reports that
/// both hold the lines in order are the same report.
pub proof fn lemma_ordered_report_unique<T>(
    first: Seq<T>,
    second: Seq<T>,
    lines: Seq<T>,
    keys: Seq<(int, Seq<char>)>,
)
    requires
        keys.len() == lines.len(),
        is_ordered(first, lines, keys),
        is_ordered(second, lines, keys),
    ensures
        first == second,
{
    let order_first = choose|order: Seq<usize>|
        {
            &&& is_arrangement(order, lines.len())
            &&& is_sorted_stable(order, keys)
            &&& first == #[trigger] arranged(lines, order)
        };
    let order_second = choose|order: Seq<usize>|
        {
            &&& is_arrangement(order, lines.len())
            &&& is_sorted_stable(order, keys)
            &&& second == #[trigger] arranged(lines, order)
        };
    lemma_sorted_order_unique(order_first, order_second, keys);
}

/// Whether `a` is ordered before `b` or like it.
pub fn key_precedes(a: &SortKey, b: &SortKey) -> (r: bool)
    ensures
        r == key_le(a@, b@),
{
    a.rank < b.rank || (a.rank == b.rank && text_precedes(a.text.as_str(), b.text.as_str()))
}

/// The positions of the keys in ascending order of the keys, equal keys in
/// their given order.
pub fn sorted_order(keys: &Vec<SortKey>) -> (order: Vec<usize>)
    ensures
        is_arrangement(order@, keys@.len()),
        is_sorted_stable(order@, key_views(keys@)),
{
    let ghost views = key_views(keys@);
    let mut order: Vec<usize> = Vec::new();
    let mut next: usize = 0;
    while next < keys.len()
        invariant
            next <= keys.len(),
            views == key_views(keys@),
            is_arrangement(order@, next as nat),
            is_sorted_stable(order@, views),
        decreases keys.len() - next,
    {
        let mut place: usize = order.len();
        while place > 0 && !key_precedes(&keys[order[place - 1]], &keys[next])
            invariant
                place <= order.len(),
                next < keys.len(),
                views == key_views(keys@),
                is_arrangement(order@, next as nat),
                forall|q: int|
                    place <= q < order.len() ==> !key_le(
                        views[#[trigger] order[q] as int],
                        views[next as int],
                    ),
            decreases place,
        {
            place = place - 1;
        }
        let ghost before = order@;
        order.insert(place, next);
        proof {
            let after = order@;
            // What stood before `place` stands where it stood, and what
            // stood behind it has moved on by one.
            let origin = |i: int|
                if i < place {
                    i
                } else {
                    i - 1
                };
            assert forall|i: int| 0 <= i < after.len() && i != place implies #[trigger] after[i]
                == before[origin(i)] by {}
            assert forall|i: int, j: int|
                #![trigger after[i], after[j]]
                0 <= i < j < after.len() implies {
                &&& key_le(views[after[i] as int], views[after[j] as int])
                &&& key_le(views[after[j] as int], views[after[i] as int]) ==> after[i]
                    < after[j]
            } by {
                if i == place {
                    // the new position stands before keys that are greater
                    lemma_text_le_total(views[next as int].1, views[before[origin(j)] as int].1);
                } else if j == place && origin(i) < place - 1 {
                    // the new position stands behind keys that are not
                    // greater: the last of them is not, and the others
                    // come before the last
                    if views[before[origin(i)] as int].0 == views[next as int].0 {
                        lemma_text_le_transitive(
                            views[before[origin(i)] as int].1,
                            views[before[place - 1] as int].1,
                            views[next as int].1,
                        );
                    }
                }
            }
        }
        next = next + 1;
    }
    order
}

} // verus!
