//! Selections in lists.

use vstd::prelude::*;

verus! {

/// The selection one further down a list of `len` entries.
pub open spec fn next_selection(selected: int, len: int) -> int {
    if len <= 0 {
        0
    } else if selected + 1 < len {
        selected + 1
    } else {
        len - 1
    }
}

/// The selection one further up.
pub open spec fn previous_selection(selected: int) -> int {
    if selected > 0 {
        selected - 1
    } else {
        0
    }
}

/// The selection kept inside a list of `len` entries.
pub open spec fn clamped_selection(selected: int, len: int) -> int {
    if len <= 0 {
        0
    } else if selected < len {
        selected
    } else {
        len - 1
    }
}

/// In a list that is not empty a moved selection names an entry.
pub proof fn law_selection_stays_in_list(selected: int, len: int)
    requires
        0 <= selected,
        0 < len,
    ensures
        0 <= next_selection(selected, len) < len,
        0 <= clamped_selection(selected, len) < len,
        selected < len ==> 0 <= previous_selection(selected) < len,
{
}

pub fn select_next(selected: usize, len: usize) -> (r: usize)
    ensures
        r == next_selection(selected as int, len as int),
{
    if len == 0 {
        0
    } else if selected < len - 1 {
        selected + 1
    } else {
        len - 1
    }
}

pub fn select_previous(selected: usize) -> (r: usize)
    ensures
        r == previous_selection(selected as int),
{
    if selected > 0 {
        selected - 1
    } else {
        0
    }
}

pub fn clamp_selection(selected: usize, len: usize) -> (r: usize)
    ensures
        r == clamped_selection(selected as int, len as int),
{
    if len == 0 {
        0
    } else if selected < len {
        selected
    } else {
        len - 1
    }
}

/// The positions at which `mask` holds, in ascending order.
pub open spec fn picked(mask: Seq<bool>) -> Seq<usize>
    decreases mask.len(),
{
    if mask.len() == 0 {
        Seq::empty()
    } else if mask.last() {
        picked(mask.drop_last()).push((mask.len() - 1) as usize)
    } else {
        picked(mask.drop_last())
    }
}

/// Exactly the positions at which the mask holds are picked, in their order.
pub proof fn law_picked(mask: Seq<bool>)
    requires
        mask.len() <= usize::MAX,
    ensures
        picked(mask).len() <= mask.len(),
        forall|k: int|
            0 <= k < picked(mask).len() ==> (#[trigger] picked(mask)[k]) < mask.len()
                && mask[picked(mask)[k] as int],
        forall|j: int, k: int|
            0 <= j < k < picked(mask).len() ==> #[trigger] picked(mask)[j] < #[trigger] picked(
                mask,
            )[k],
        forall|i: int|
            0 <= i < mask.len() && #[trigger] mask[i] ==> picked(mask).contains(i as usize),
    decreases mask.len(),
{
    if mask.len() > 0 {
        let rest = mask.drop_last();
        law_picked(rest);
        assert forall|i: int| 0 <= i < mask.len() && #[trigger] mask[i] implies picked(
            mask,
        ).contains(i as usize) by {
            if i < rest.len() {
                assert(rest[i] == mask[i]);
                let k = picked(rest).index_of(i as usize);
                assert(picked(mask)[k] == i as usize);
            } else {
                assert(picked(mask)[picked(rest).len() as int] == i as usize);
            }
        }
        assert forall|k: int| 0 <= k < picked(mask).len() implies (#[trigger] picked(mask)[k])
            < mask.len() && mask[picked(mask)[k] as int] by {
            if k < picked(rest).len() {
                assert(picked(mask)[k] == picked(rest)[k]);
                assert(rest[picked(rest)[k] as int] == mask[picked(rest)[k] as int]);
            }
        }
    }
}

/// The positions at which `mask` holds.
pub fn pick(mask: &Vec<bool>) -> (r: Vec<usize>)
    ensures
        r@ == picked(mask@),
        r@.len() <= mask@.len(),
        forall|k: int| 0 <= k < r@.len() ==> (#[trigger] r@[k]) < mask@.len(),
{
    let mut r: Vec<usize> = Vec::new();
    let mut i: usize = 0;
    assert(mask@.take(0) =~= Seq::<bool>::empty());
    while i < mask.len()
        invariant
            i <= mask@.len(),
            r@ == picked(mask@.take(i as int)),
        decreases mask.len() - i,
    {
        assert(mask@.take(i + 1).drop_last() =~= mask@.take(i as int));
        assert(mask@.take(i + 1).last() == mask@[i as int]);
        if mask[i] {
            r.push(i);
        }
        i = i + 1;
    }
    assert(mask@.take(mask@.len() as int) =~= mask@);
    proof {
        law_picked(mask@);
    }
    r
}

/// Next and previous move a selection by one entry, up to the ends of the list; a
/// selection inside the list is kept, and one behind it goes to the last entry.
pub proof fn law_selection_moves_by_one(selected: int, len: int)
    requires
        0 <= selected,
        0 <= len,
    ensures
        selected + 1 < len ==> next_selection(selected, len) == selected + 1,
        selected + 1 == len ==> next_selection(selected, len) == selected,
        selected > 0 ==> previous_selection(selected) == selected - 1,
        previous_selection(0) == 0,
        selected < len ==> clamped_selection(selected, len) == selected,
        selected >= len && len > 0 ==> clamped_selection(selected, len) == len - 1,
        len == 0 ==> clamped_selection(selected, len) == 0 && next_selection(selected, len) == 0,
{
}

/// `shown` names the entries of a list of `len` that `keep` holds of: all of them,
/// each once, in their order, and no other.
pub open spec fn lists_exactly(shown: Seq<usize>, len: int, keep: spec_fn(int) -> bool) -> bool {
    &&& forall|k: int|
        0 <= k < shown.len() ==> (#[trigger] shown[k]) < len && keep(shown[k] as int)
    &&& forall|j: int, k: int|
        0 <= j < k < shown.len() ==> #[trigger] shown[j] < #[trigger] shown[k]
    &&& forall|i: int| 0 <= i < len && #[trigger] keep(i) ==> shown.contains(i as usize)
}

/// The picked positions are exactly those of which the mask holds.
pub proof fn lemma_picked_lists_exactly(mask: Seq<bool>, keep: spec_fn(int) -> bool)
    requires
        mask.len() <= usize::MAX,
        forall|i: int| 0 <= i < mask.len() ==> #[trigger] mask[i] == keep(i),
    ensures
        lists_exactly(picked(mask), mask.len() as int, keep),
{
    law_picked(mask);
    assert forall|i: int| 0 <= i < mask.len() && #[trigger] keep(i) implies picked(mask).contains(
        i as usize,
    ) by {
        assert(mask[i]);
    }
}

/// What a list shows is settled by what is kept: two lists that show exactly the
/// same entries are the same.
pub proof fn law_shown_entries_are_settled(
    a: Seq<usize>,
    b: Seq<usize>,
    len: int,
    keep: spec_fn(int) -> bool,
)
    requires
        len <= usize::MAX,
        lists_exactly(a, len, keep),
        lists_exactly(b, len, keep),
    ensures
        a == b,
    decreases a.len(),
{
    if a.len() == 0 {
        if b.len() > 0 {
            assert(keep(b[0] as int));
            assert(a.contains(b[0]));
        }
    } else {
        assert(keep(a.last() as int));
        assert(b.contains(a.last()));
        assert(keep(b.last() as int));
        assert(a.contains(b.last()));
        let i = choose|i: int| 0 <= i < b.len() && b[i] == a.last();
        let j = choose|j: int| 0 <= j < a.len() && a[j] == b.last();
        assert(a.last() == b.last()) by {
            if i < b.len() - 1 {
                assert(b[i] < b[b.len() - 1]);
            }
            if j < a.len() - 1 {
                assert(a[j] < a[a.len() - 1]);
            }
        }
        let bound = a.last() as int;
        assert forall|k: int| 0 <= k < bound && #[trigger] keep(k) implies a.drop_last().contains(
            k as usize,
        ) by {
            assert(a.contains(k as usize));
            let m = choose|m: int| 0 <= m < a.len() && a[m] == k as usize;
            assert(a.drop_last()[m] == k as usize);
        }
        assert forall|k: int| 0 <= k < bound && #[trigger] keep(k) implies b.drop_last().contains(
            k as usize,
        ) by {
            assert(b.contains(k as usize));
            let m = choose|m: int| 0 <= m < b.len() && b[m] == k as usize;
            assert(b.drop_last()[m] == k as usize);
        }
        assert(lists_exactly(a.drop_last(), bound, keep)) by {
            assert forall|k: int| 0 <= k < a.drop_last().len() implies (#[trigger] a.drop_last()[k])
                < bound && keep(a.drop_last()[k] as int) by {
                assert(a[k] < a[a.len() - 1]);
            }
        }
        assert(lists_exactly(b.drop_last(), bound, keep)) by {
            assert forall|k: int| 0 <= k < b.drop_last().len() implies (#[trigger] b.drop_last()[k])
                < bound && keep(b.drop_last()[k] as int) by {
                assert(b[k] < b[b.len() - 1]);
            }
        }
        law_shown_entries_are_settled(a.drop_last(), b.drop_last(), bound, keep);
        assert(a =~= a.drop_last().push(a.last()));
        assert(b =~= b.drop_last().push(b.last()));
    }
}

/// While everything passes, everything is shown in its order.
pub proof fn lemma_full_mask(len: nat, keep: spec_fn(int) -> bool)
    requires
        len <= usize::MAX,
        forall|i: int| 0 <= i < len ==> #[trigger] keep(i),
    ensures
        picked(Seq::new(len, keep)) == Seq::new(len, |i: int| i as usize),
    decreases len,
{
    let mask = Seq::new(len, keep);
    if len > 0 {
        let less = (len - 1) as nat;
        lemma_full_mask(less, keep);
        assert(mask.drop_last() =~= Seq::new(less, keep));
        assert(mask.last());
        assert(picked(mask) =~= Seq::new(len, |i: int| i as usize));
    } else {
        assert(picked(mask) =~= Seq::new(len, |i: int| i as usize));
    }
}

} // verus!
