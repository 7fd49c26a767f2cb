//! The order of the tables: by game, then by label.

use vstd::prelude::*;

#[allow(unused_imports)]
use crate::text::{before, before_is_strict, before_is_total, before_is_transitive};
use crate::text::{comes_before, same};

verus! {

/// A row's game and label.
#[derive(Debug, Clone, Copy)]
pub struct Key<'a> {
    pub game_slug: &'a str,
    pub label: &'a str,
}

/// The texts of a game and a label.
pub type Names = (Seq<char>, Seq<char>);

/// The games and labels of the keys.
pub open spec fn names(keys: Seq<Key>) -> Seq<Names> {
    Seq::new(keys.len(), |i: int| (keys[i].game_slug@, keys[i].label@))
}

/// Does the one row come before the other: by game, and in one game by label?
pub open spec fn key_before(a: Names, b: Names) -> bool {
    before(a.0, b.0) || (a.0 == b.0 && before(a.1, b.1))
}

/// Does the row at `x` stand before the row at `y`? Rows with the same key keep their order.
pub open spec fn stands_before(keys: Seq<Names>, x: int, y: int) -> bool {
    key_before(keys[x], keys[y]) || (keys[x] == keys[y] && x < y)
}

/// Is this the order of the rows: each of them once, and each before those that it stands before?
pub open spec fn is_order(order: Seq<usize>, keys: Seq<Names>) -> bool {
    &&& order.len() == keys.len()
    &&& forall|i: int| 0 <= i < order.len() ==> (#[trigger] order[i]) < keys.len()
    &&& forall|i: int, j: int|
        #![trigger order[i], order[j]]
        0 <= i < j < order.len() ==> stands_before(keys, order[i] as int, order[j] as int)
}

fn precedes(a: Key<'_>, b: Key<'_>) -> (r: bool)
    ensures
        r == key_before((a.game_slug@, a.label@), (b.game_slug@, b.label@)),
{
    comes_before(a.game_slug, b.game_slug) || (same(a.game_slug, b.game_slug) && comes_before(
        a.label,
        b.label,
    ))
}

/// A row that stands before another stands before all that the other stands before.
proof fn standing_is_transitive(keys: Seq<Names>, x: int, y: int, z: int)
    requires
        stands_before(keys, x, y),
        stands_before(keys, y, z),
    ensures
        stands_before(keys, x, z),
{
    let (a, b, c) = (keys[x], keys[y], keys[z]);
    if before(a.0, b.0) && before(b.0, c.0) {
        before_is_transitive(a.0, b.0, c.0);
    }
    if before(a.1, b.1) && before(b.1, c.1) {
        before_is_transitive(a.1, b.1, c.1);
    }
}

/// Of two rows that are not in the one order are in the other.
proof fn standing_is_total(keys: Seq<Names>, x: int, y: int)
    requires
        x != y,
    ensures
        stands_before(keys, x, y) || stands_before(keys, y, x),
{
    let (a, b) = (keys[x], keys[y]);
    if a.0 != b.0 {
        before_is_total(a.0, b.0);
    } else if a.1 != b.1 {
        before_is_total(a.1, b.1);
    }
}

/// The order of the rows with these keys.
pub fn order_by(keys: &Vec<Key<'_>>) -> (r: Vec<usize>)
    ensures
        is_order(r@, names(keys@)),
{
    let ghost all = names(keys@);
    let mut order: Vec<usize> = Vec::new();
    let mut i: usize = 0;
    while i < keys.len()
        invariant
            i <= keys@.len(),
            all == names(keys@),
            order@.len() == i,
            forall|k: int| 0 <= k < i ==> (#[trigger] order@[k]) < i,
            forall|a: int, b: int|
                #![trigger order@[a], order@[b]]
                0 <= a < b < order@.len() ==> stands_before(
                    all,
                    order@[a] as int,
                    order@[b] as int,
                ),
        decreases keys.len() - i,
    {
        let mut at: usize = order.len();
        while at > 0 && precedes(keys[i], keys[order[at - 1]])
            invariant
                at <= order@.len(),
                i < keys@.len(),
                all == names(keys@),
                order@.len() == i,
                forall|k: int| 0 <= k < i ==> (#[trigger] order@[k]) < i,
                forall|k: int|
                    at <= k < order@.len() ==> stands_before(
                        all,
                        i as int,
                        #[trigger] order@[k] as int,
                    ),
            decreases at,
        {
            at -= 1;
        }
        let ghost was = order@;
        proof {
            if at > 0 {
                let last = was[at - 1] as int;
                standing_is_total(all, i as int, last);
                before_is_strict(all[i as int].0, all[last].0);
                before_is_strict(all[i as int].1, all[last].1);
                assert(stands_before(all, last, i as int));
                assert forall|k: int| 0 <= k < at implies stands_before(
                    all,
                    #[trigger] was[k] as int,
                    i as int,
                ) by {
                    if k < at - 1 {
                        assert(stands_before(all, was[k] as int, was[at - 1] as int));
                        standing_is_transitive(all, was[k] as int, last, i as int);
                    }
                }
            }
        }
        order.insert(at, i);
        proof {
            let now = order@;
            assert(now =~= was.insert(at as int, i));
            assert forall|a: int, b: int|
                #![trigger now[a], now[b]]
                0 <= a < b < now.len() implies stands_before(
                all,
                now[a] as int,
                now[b] as int,
            ) by {
                let x = if a < at { a } else { a - 1 };
                let y = if b < at { b } else { b - 1 };
                if a != at {
                    assert(now[a] == was[x]);
                }
                if b != at {
                    assert(now[b] == was[y]);
                }
            }
            assert forall|k: int| 0 <= k < i + 1 implies (#[trigger] now[k]) < i + 1 by {
                let x = if k < at { k } else { k - 1 };
                if k != at {
                    assert(now[k] == was[x]);
                }
            }
        }
        i += 1;
    }
    order
}

/// No row stands twice in an order.
pub proof fn an_order_has_each_row_once(order: Seq<usize>, keys: Seq<Names>)
    requires
        is_order(order, keys),
    ensures
        order.no_duplicates(),
{
    assert forall|i: int, j: int| 0 <= i < order.len() && 0 <= j < order.len() && i != j implies order[i]
        != order[j] by {
        let (a, b) = if i < j { (i, j) } else { (j, i) };
        assert(stands_before(keys, order[a] as int, order[b] as int));
        let k = keys[order[a] as int];
        before_is_strict(k.0, k.0);
        before_is_strict(k.1, k.1);
    }
}


/// The rows of a table are all there, and sorted: in a row above another, the game comes first or is
/// the same, and in one game the label comes first or is the same.
pub proof fn a_table_is_sorted(
    keys: Vec<Key<'_>>,
    r: Vec<usize>,
    i: int,
    j: int,
    games: bool,
    labels: bool,
)
    requires
        call_ensures(order_by, (&keys,), r),
        0 <= i < j < r@.len(),
        call_ensures(
            comes_before,
            (keys@[r@[j] as int].game_slug, keys@[r@[i] as int].game_slug),
            games,
        ),
        call_ensures(
            comes_before,
            (keys@[r@[j] as int].label, keys@[r@[i] as int].label),
            labels,
        ),
    ensures
        r@.len() == keys@.len(),
        r@[i] < keys@.len() && r@[j] < keys@.len() && r@[i] != r@[j],
        !games,
        keys@[r@[i] as int].game_slug@ == keys@[r@[j] as int].game_slug@ ==> !labels,
        names(keys@)[r@[i] as int] == names(keys@)[r@[j] as int] ==> r@[i] < r@[j],
{
    let all = names(keys@);
    let (x, y) = (r@[i] as int, r@[j] as int);
    assert(stands_before(all, x, y));
    before_is_strict(all[x].0, all[y].0);
    before_is_strict(all[x].1, all[y].1);
    before_is_strict(all[y].0, all[x].0);
    before_is_strict(all[y].1, all[x].1);
    an_order_has_each_row_once(r@, all);
}

} // verus!
