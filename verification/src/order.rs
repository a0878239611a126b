//! The order in which directory records are handed out.

use crate::dirs::{DirItem, DirItemView};
use crate::names::{
    lemma_name_le_transitive, lemma_name_lt_irreflexive, lemma_name_lt_total,
    lemma_name_lt_transitive, name_le, name_lt, precedes,
};
use vstd::prelude::*;

verus! {

/// Whether no record stands before one whose display name comes before its own.
pub open spec fn sorted_by_display(items: Seq<DirItemView>) -> bool {
    forall|i: int, j: int|
        0 <= i <= j < items.len() ==> name_le(#[trigger] items[i].display, #[trigger] items[j].display)
}

/// The records of `items` whose display name is `name`, in the order in
/// which they stand in `items`.
pub open spec fn named(items: Seq<DirItemView>, name: Seq<char>) -> Seq<DirItemView> {
    items.filter(|item: DirItemView| item.display == name)
}

/// Whether `sorted` holds the records of `found` in ascending order of
/// display name, those of one name in the order in which `found` has them.
pub open spec fn is_arrangement(sorted: Seq<DirItemView>, found: Seq<DirItemView>) -> bool {
    &&& sorted.len() == found.len()
    &&& sorted_by_display(sorted)
    &&& forall|name: Seq<char>| #[trigger] named(sorted, name) == named(found, name)
}

/// The first place in `sorted` whose record's name does not come before `name`.
fn slot(sorted: &Vec<DirItem>, name: &str) -> (at: usize)
    requires
        sorted_by_display(sorted.deep_view()),
    ensures
        at <= sorted.len(),
        forall|i: int| 0 <= i < at ==> name_lt(#[trigger] sorted[i].display@, name@),
        forall|i: int| at <= i < sorted.len() ==> !name_lt(#[trigger] sorted[i].display@, name@),
{
    let mut low: usize = 0;
    let mut high: usize = sorted.len();
    while low < high
        invariant
            low <= high <= sorted.len(),
            sorted_by_display(sorted.deep_view()),
            forall|i: int| 0 <= i < low ==> name_lt(#[trigger] sorted[i].display@, name@),
            forall|i: int| high <= i < sorted.len() ==> !name_lt(#[trigger] sorted[i].display@, name@),
        decreases high - low,
    {
        let mid: usize = low + (high - low) / 2;
        if precedes(sorted[mid].display.as_str(), name) {
            assert forall|i: int| 0 <= i <= mid implies name_lt(
                #[trigger] sorted[i].display@,
                name@,
            ) by {
                assert(name_le(sorted.deep_view()[i].display, sorted.deep_view()[mid as int].display));
                lemma_name_lt_total(sorted[i].display@, sorted[mid as int].display@);
                if name_lt(sorted[i].display@, sorted[mid as int].display@) {
                    lemma_name_lt_transitive(sorted[i].display@, sorted[mid as int].display@, name@);
                }
            }
            low = mid + 1;
        } else {
            assert forall|i: int| mid <= i < sorted.len() implies !name_lt(
                #[trigger] sorted[i].display@,
                name@,
            ) by {
                assert(name_le(sorted.deep_view()[mid as int].display, sorted.deep_view()[i].display));
                lemma_name_le_transitive(name@, sorted[mid as int].display@, sorted[i].display@);
            }
            high = mid;
        }
    }
    low
}

/// What putting `item` into `sorted` at `at` does to the records of each name.
proof fn lemma_named_insert(sorted: Seq<DirItemView>, at: int, item: DirItemView, name: Seq<char>)
    requires
        0 <= at <= sorted.len(),
        forall|i: int| 0 <= i < at ==> (#[trigger] sorted[i]).display != item.display,
    ensures
        named(sorted.insert(at, item), name) == named(seq![item] + sorted, name),
{
    let same = |other: DirItemView| other.display == name;
    let front = sorted.take(at);
    let back = sorted.skip(at);
    assert(sorted =~= front + back);
    assert(sorted.insert(at, item) =~= (front + seq![item]) + back);
    assert(seq![item] + sorted =~= (seq![item] + front) + back);
    Seq::filter_distributes_over_add(front + seq![item], back, same);
    Seq::filter_distributes_over_add(seq![item] + front, back, same);
    Seq::filter_distributes_over_add(front, seq![item], same);
    Seq::filter_distributes_over_add(seq![item], front, same);
    if item.display == name {
        lemma_named_none(front, name);
    } else {
        lemma_named_none(seq![item], name);
    }
}

/// Where no record has the name, none is selected.
proof fn lemma_named_none(items: Seq<DirItemView>, name: Seq<char>)
    requires
        forall|i: int| 0 <= i < items.len() ==> (#[trigger] items[i]).display != name,
    ensures
        named(items, name) == Seq::<DirItemView>::empty(),
    decreases items.len(),
{
    reveal(Seq::filter);
    if items.len() > 0 {
        lemma_named_none(items.drop_last(), name);
    }
}

/// Two sequences in ascending order that agree on the records of every
/// name are the same sequence.
proof fn lemma_sorted_agree(a: Seq<DirItemView>, b: Seq<DirItemView>)
    requires
        a.len() == b.len(),
        sorted_by_display(a),
        sorted_by_display(b),
        forall|name: Seq<char>| #[trigger] named(a, name) == named(b, name),
    ensures
        a == b,
    decreases a.len(),
{
    reveal(Seq::filter);
    if a.len() == 0 {
        assert(a =~= b);
    } else {
        let last_a = a.last().display;
        let last_b = b.last().display;
        assert(named(a, last_a) == named(b, last_a));
        assert(named(a, last_b) == named(b, last_b));
        if forall|i: int| 0 <= i < b.len() ==> (#[trigger] b[i]).display != last_a {
            lemma_named_none(b, last_a);
        }
        let i = choose|i: int| 0 <= i < b.len() && (#[trigger] b[i]).display == last_a;
        assert(name_le(b[i].display, b[b.len() - 1].display));
        if forall|j: int| 0 <= j < a.len() ==> (#[trigger] a[j]).display != last_b {
            lemma_named_none(a, last_b);
        }
        let j = choose|j: int| 0 <= j < a.len() && (#[trigger] a[j]).display == last_b;
        assert(name_le(a[j].display, a[a.len() - 1].display));
        lemma_name_lt_total(last_a, last_b);
        assert(last_a == last_b);
        assert(named(a, last_a).last() == a.last());
        assert(named(b, last_a).last() == b.last());
        assert forall|name: Seq<char>| #[trigger]
            named(a.drop_last(), name) == named(b.drop_last(), name) by {
            assert(named(a, name) == named(b, name));
            if name == last_a {
                assert(named(a.drop_last(), name) =~= named(a, name).drop_last());
                assert(named(b.drop_last(), name) =~= named(b, name).drop_last());
            }
        }
        assert forall|i: int, j: int| 0 <= i <= j < a.len() - 1 implies name_le(
            #[trigger] a.drop_last()[i].display,
            #[trigger] a.drop_last()[j].display,
        ) by {
            assert(name_le(a[i].display, a[j].display));
        }
        assert forall|i: int, j: int| 0 <= i <= j < b.len() - 1 implies name_le(
            #[trigger] b.drop_last()[i].display,
            #[trigger] b.drop_last()[j].display,
        ) by {
            assert(name_le(b[i].display, b[j].display));
        }
        lemma_sorted_agree(a.drop_last(), b.drop_last());
        assert(a =~= a.drop_last().push(a.last()));
        assert(b =~= b.drop_last().push(b.last()));
    }
}

/// The records found have one arrangement only.
pub proof fn lemma_arrangement_unique(
    first: Seq<DirItemView>,
    second: Seq<DirItemView>,
    found: Seq<DirItemView>,
)
    requires
        is_arrangement(first, found),
        is_arrangement(second, found),
    ensures
        first == second,
{
    assert forall|name: Seq<char>| #[trigger] named(first, name) == named(second, name) by {
        assert(named(first, name) == named(found, name));
        assert(named(second, name) == named(found, name));
    }
    lemma_sorted_agree(first, second);
}

/// Every record of an arrangement is one of the records found.
pub proof fn lemma_arrangement_member(sorted: Seq<DirItemView>, found: Seq<DirItemView>, at: int)
    requires
        is_arrangement(sorted, found),
        0 <= at < sorted.len(),
    ensures
        found.contains(sorted[at]),
{
    let name = sorted[at].display;
    let same = |item: DirItemView| item.display == name;
    sorted.lemma_filter_contains(same, at);
    assert(named(sorted, name) == named(found, name));
    found.lemma_filter_contains_rev(same, sorted[at]);
}

/// Two records of one name that stand in `items` stand in the same order
/// among the records of that name.
proof fn lemma_named_keeps_order(items: Seq<DirItemView>, name: Seq<char>, p: int, q: int)
    requires
        0 <= p < q < items.len(),
        items[p].display == name,
        items[q].display == name,
    ensures
        exists|a: int, b: int|
            0 <= a < b < named(items, name).len() && #[trigger] named(items, name)[a] == items[p]
                && #[trigger] named(items, name)[b] == items[q],
    decreases items.len(),
{
    reveal(Seq::filter);
    let same = |item: DirItemView| item.display == name;
    let before = items.drop_last();
    if q == items.len() - 1 {
        before.lemma_filter_contains(same, p);
        let a = choose|a: int| 0 <= a < named(before, name).len() && named(before, name)[a] == items[p];
        let b = named(before, name).len() as int;
        assert(named(items, name)[a] == items[p]);
        assert(named(items, name)[b] == items[q]);
    } else {
        lemma_named_keeps_order(before, name, p, q);
        let (a, b) = choose|a: int, b: int|
            0 <= a < b < named(before, name).len() && #[trigger] named(before, name)[a] == items[p]
                && #[trigger] named(before, name)[b] == items[q];
        assert(named(items, name)[a] == items[p]);
        assert(named(items, name)[b] == items[q]);
    }
}

/// Two records that stand among the records of one name stand in `items`
/// in the same order.
proof fn lemma_named_came_in_order(items: Seq<DirItemView>, name: Seq<char>, a: int, b: int)
    requires
        0 <= a < b < named(items, name).len(),
    ensures
        exists|i: int, j: int|
            0 <= i < j < items.len() && #[trigger] items[i] == named(items, name)[a]
                && #[trigger] items[j] == named(items, name)[b],
    decreases items.len(),
{
    reveal(Seq::filter);
    let same = |item: DirItemView| item.display == name;
    let before = items.drop_last();
    if items.len() > 0 {
        if items.last().display == name && b == named(items, name).len() - 1 {
            assert(named(before, name).contains(named(before, name)[a]));
            before.lemma_filter_contains_rev(same, named(before, name)[a]);
            let i = choose|i: int| 0 <= i < before.len() && before[i] == named(before, name)[a];
            let j = items.len() - 1;
            assert(items[i] == named(items, name)[a]);
            assert(items[j] == named(items, name)[b]);
        } else {
            lemma_named_came_in_order(before, name, a, b);
            let (i, j) = choose|i: int, j: int|
                0 <= i < j < before.len() && #[trigger] before[i] == named(before, name)[a]
                    && #[trigger] before[j] == named(before, name)[b];
            assert(items[i] == named(items, name)[a]);
            assert(items[j] == named(items, name)[b]);
        }
    }
}

/// Two records of one display name stand in an arrangement in the order in
/// which they were found.
pub proof fn lemma_same_name_keeps_order(
    sorted: Seq<DirItemView>,
    found: Seq<DirItemView>,
    p: int,
    q: int,
)
    requires
        is_arrangement(sorted, found),
        0 <= p < q < sorted.len(),
        sorted[p].display == sorted[q].display,
    ensures
        exists|i: int, j: int|
            0 <= i < j < found.len() && #[trigger] found[i] == sorted[p] && #[trigger] found[j]
                == sorted[q],
{
    let name = sorted[p].display;
    lemma_named_keeps_order(sorted, name, p, q);
    let (a, b) = choose|a: int, b: int|
        0 <= a < b < named(sorted, name).len() && #[trigger] named(sorted, name)[a] == sorted[p]
            && #[trigger] named(sorted, name)[b] == sorted[q];
    assert(named(sorted, name) == named(found, name));
    lemma_named_came_in_order(found, name, a, b);
}

/// Sorts `items` by display name, ascending, leaving records of one name in
/// the order in which they came.
pub fn arrange(items: Vec<DirItem>) -> (sorted: Vec<DirItem>)
    ensures
        is_arrangement(sorted.deep_view(), items.deep_view()),
{
    let ghost found = items.deep_view();
    let mut rest = items;
    let mut sorted: Vec<DirItem> = Vec::new();
    proof {
        assert(found.skip(found.len() as int) =~= Seq::<DirItemView>::empty());
        assert(sorted.deep_view() =~= Seq::<DirItemView>::empty());
    }
    while rest.len() > 0
        invariant
            rest.len() <= found.len(),
            rest.deep_view() == found.take(rest.len() as int),
            is_arrangement(sorted.deep_view(), found.skip(rest.len() as int)),
        decreases rest.len(),
    {
        let ghost before = sorted.deep_view();
        let ghost left = rest.len() as int;
        let item = rest.pop().unwrap();
        let at = slot(&sorted, item.display.as_str());
        proof {
            assert(item@ == found[left - 1]) by {
                assert(found.take(left)[left - 1] == found[left - 1]);
            }
            assert(found.skip(left - 1) =~= seq![item@] + found.skip(left));
            assert(rest.deep_view() =~= found.take(left - 1));
            assert forall|i: int| 0 <= i < at implies (#[trigger] before[i]).display
                != item@.display by {
                assert(name_lt(sorted[i].display@, item.display@));
                lemma_name_lt_irreflexive(item.display@);
            }
            assert forall|name: Seq<char>| #[trigger]
                named(before.insert(at as int, item@), name) == named(
                    found.skip(left - 1),
                    name,
                ) by {
                lemma_named_insert(before, at as int, item@, name);
                let same = |other: DirItemView| other.display == name;
                Seq::filter_distributes_over_add(seq![item@], before, same);
                Seq::filter_distributes_over_add(seq![item@], found.skip(left), same);
                assert(named(before, name) == named(found.skip(left), name));
            }
            assert forall|i: int, j: int| 0 <= i <= j < before.len() + 1 implies name_le(
                #[trigger] before.insert(at as int, item@)[i].display,
                #[trigger] before.insert(at as int, item@)[j].display,
            ) by {
                let after = before.insert(at as int, item@);
                lemma_name_lt_irreflexive(item.display@);
                if i < at && j == at {
                    assert(name_lt(sorted[i].display@, item.display@));
                    if name_lt(item.display@, before[i].display) {
                        lemma_name_lt_transitive(item.display@, before[i].display, item.display@);
                    }
                } else if i == at && j > at {
                    assert(!name_lt(sorted[j - 1].display@, item.display@));
                } else if i < at && j > at {
                    assert(name_le(before[i].display, before[j - 1].display));
                } else if i > at {
                    assert(name_le(before[i - 1].display, before[j - 1].display));
                } else if j < at {
                    assert(name_le(before[i].display, before[j].display));
                }
            }
        }
        sorted.insert(at, item);
        proof {
            assert(sorted.deep_view() =~= before.insert(at as int, item@));
        }
    }
    proof {
        assert(found.skip(0) =~= found);
    }
    sorted
}

} // verus!
