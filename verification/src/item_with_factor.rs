//! Items counted with a factor, tallying and ranking by factor.
use crate::ranking::{Ranked, sort_by_rank_desc};
use vstd::multiset::Multiset;
use vstd::prelude::*;

verus! {

broadcast use vstd::seq_lib::group_to_multiset_ensures;

/// An item (a genre, a descriptor, an artist, a year...) and how often it
/// occurs, possibly weighted.
pub struct ItemWithFactor {
    pub item: String,
    pub factor: u32,
}

impl Clone for ItemWithFactor {
    fn clone(&self) -> (res: Self)
        ensures
            res == *self,
    {
        ItemWithFactor { item: self.item.clone(), factor: self.factor }
    }
}

/// The factors do not increase from left to right.
pub open spec fn sorted_desc(s: Seq<ItemWithFactor>) -> bool {
    forall|i: int, j: int| 0 <= i < j < s.len() ==> s[i].factor >= s[j].factor
}

impl Ranked for ItemWithFactor {
    open spec fn rank(&self) -> nat {
        self.factor as nat
    }

    fn rank_exec(&self) -> (r: u64) {
        self.factor as u64
    }
}

/// Orders `items` by factor, largest first. The result holds the same items.
pub fn desc_sort_by_factor(items: &mut Vec<ItemWithFactor>)
    ensures
        sorted_desc(final(items)@),
        final(items)@.to_multiset() == old(items)@.to_multiset(),
{
    sort_by_rank_desc(items);
    proof {
        assert forall|i: int, j: int| 0 <= i < j < items@.len() implies items@[i].factor
            >= items@[j].factor by {
            assert(items@[i].rank() >= items@[j].rank());
        }
    }
}


/// The summed weight of the entries for item `x`.
pub open spec fn weight_of(entries: Seq<(Seq<char>, u32)>, x: Seq<char>) -> nat
    decreases entries.len(),
{
    if entries.len() == 0 {
        0
    } else {
        weight_of(entries.drop_last(), x) + if entries.last().0 == x {
            entries.last().1 as nat
        } else {
            0
        }
    }
}

/// The summed weight of every item of the entries fits in a `u32`.
pub open spec fn item_weights_fit(entries: Seq<(Seq<char>, u32)>) -> bool {
    forall|k: int| 0 <= k < entries.len() ==> weight_of(entries, #[trigger] entries[k].0) <= u32::MAX
}

/// `x` is the item of some entry.
pub open spec fn occurs(entries: Seq<(Seq<char>, u32)>, x: Seq<char>) -> bool {
    exists|k: int| 0 <= k < entries.len() && #[trigger] entries[k].0 == x
}

/// The entries with each item taken by its characters.
pub open spec fn entries_view(entries: Seq<(String, u32)>) -> Seq<(Seq<char>, u32)> {
    entries.map_values(|e: (String, u32)| (e.0@, e.1))
}

/// Some string of `items` equals `x`.
pub open spec fn listed(items: Seq<String>, x: Seq<char>) -> bool {
    exists|i: int| 0 <= i < items.len() && #[trigger] items[i]@ == x
}

/// `res` holds each item of the entries once, with its summed weight.
pub open spec fn is_tally(entries: Seq<(Seq<char>, u32)>, res: Seq<ItemWithFactor>) -> bool {
    &&& forall|i: int, j: int| 0 <= i < j < res.len() ==> res[i].item@ != res[j].item@
    &&& forall|i: int| 0 <= i < res.len() ==> #[trigger] res[i].factor == weight_of(entries, res[i].item@)
    &&& forall|i: int| 0 <= i < res.len() ==> occurs(entries, #[trigger] res[i].item@)
    &&& forall|k: int| 0 <= k < entries.len() ==> has_item(res, #[trigger] entries[k].0)
}

/// Some element of `res` has item `x`.
pub open spec fn has_item(res: Seq<ItemWithFactor>, x: Seq<char>) -> bool {
    exists|i: int| 0 <= i < res.len() && #[trigger] res[i].item@ == x
}

proof fn lemma_weight_prefix(entries: Seq<(Seq<char>, u32)>, k: int, x: Seq<char>)
    requires
        0 <= k <= entries.len(),
    ensures
        weight_of(entries.take(k), x) <= weight_of(entries, x),
    decreases entries.len() - k,
{
    if k < entries.len() {
        lemma_weight_prefix(entries, k + 1, x);
        assert(entries.take(k + 1).drop_last() =~= entries.take(k));
    } else {
        assert(entries.take(k) =~= entries);
    }
}

/// Sums the weights of equal items. Each distinct item appears once in the
/// result, in the order of its first entry.
pub fn tally(entries: &Vec<(String, u32)>) -> (res: Vec<ItemWithFactor>)
    requires
        item_weights_fit(entries_view(entries@)),
    ensures
        is_tally(entries_view(entries@), res@),
{
    let ghost ev = entries_view(entries@);
    let mut items: Vec<String> = Vec::new();
    let mut factors: Vec<u32> = Vec::new();
    for k in 0..entries.len()
        invariant
            item_weights_fit(ev),
            ev == entries_view(entries@),
            items@.len() == factors@.len(),
            forall|i: int, j: int| 0 <= i < j < items@.len() ==> items@[i]@ != items@[j]@,
            forall|i: int| 0 <= i < items@.len() ==> #[trigger] factors@[i] == weight_of(ev.take(k as int), items@[i]@),
            forall|i: int| 0 <= i < items@.len() ==> occurs(ev.take(k as int), #[trigger] items@[i]@),
            forall|m: int| 0 <= m < k ==> listed(items@, #[trigger] ev[m].0),
    {
        let ghost pre = ev.take(k as int);
        let ghost post = ev.take(k + 1);
        proof {
            assert(post.drop_last() =~= pre);
            assert(post.last() == ev[k as int]);
            assert(ev[k as int] == (entries@[k as int].0@, entries@[k as int].1));
            lemma_weight_prefix(ev, k + 1, ev[k as int].0);
        }
        let item = &entries[k].0;
        let w = entries[k].1;
        let mut j: usize = 0;
        while j < items.len() && !(items[j] == *item)
            invariant
                j <= items@.len(),
                forall|i: int| 0 <= i < j ==> items@[i]@ != item@,
            decreases items@.len() - j,
        {
            j = j + 1;
        }
        if j < items.len() {
            proof {
                assert(weight_of(post, item@) == weight_of(pre, item@) + w);
            }
            let f = factors[j] + w;
            factors.set(j, f);
            proof {
                assert forall|i: int| 0 <= i < items@.len() implies #[trigger] factors@[i] == weight_of(post, items@[i]@) by {
                    assert(weight_of(post, items@[i]@) == weight_of(pre, items@[i]@) + if post.last().0 == items@[i]@ { w as nat } else { 0 });
                }
                assert forall|i: int| 0 <= i < items@.len() implies occurs(post, #[trigger] items@[i]@) by {
                    let m = choose|m: int| 0 <= m < pre.len() && #[trigger] pre[m].0 == items@[i]@;
                    assert(post[m] == pre[m]);
                }
                assert forall|m: int| 0 <= m < k + 1 implies listed(items@, #[trigger] ev[m].0) by {
                    if m == k {
                        assert(items@[j as int]@ == ev[m].0);
                    }
                }
            }
        } else {
            let ghost old_items = items@;
            items.push(item.clone());
            factors.push(w);
            proof {
                assert forall|i: int| 0 <= i < items@.len() implies #[trigger] factors@[i] == weight_of(post, items@[i]@) by {
                    assert(weight_of(post, items@[i]@) == weight_of(pre, items@[i]@) + if post.last().0 == items@[i]@ { w as nat } else { 0 });
                    if i == items@.len() - 1 {
                        assert(!occurs(pre, item@));
                        lemma_weight_absent(pre, item@);
                    }
                }
                assert forall|i: int| 0 <= i < items@.len() implies occurs(post, #[trigger] items@[i]@) by {
                    if i == items@.len() - 1 {
                        assert(post[k as int].0 == items@[i]@);
                    } else {
                        let m = choose|m: int| 0 <= m < pre.len() && #[trigger] pre[m].0 == items@[i]@;
                        assert(post[m] == pre[m]);
                    }
                }
                assert forall|m: int| 0 <= m < k + 1 implies listed(items@, #[trigger] ev[m].0) by {
                    if m == k {
                        assert(items@[items@.len() - 1]@ == ev[m].0);
                    } else {
                        assert(listed(old_items, ev[m].0));
                        let i = choose|i: int| 0 <= i < old_items.len() && #[trigger] old_items[i]@ == ev[m].0;
                        assert(items@[i] == old_items[i]);
                    }
                }
            }
        }
    }
    proof {
        assert(ev.take(ev.len() as int) =~= ev);
    }
    let mut res: Vec<ItemWithFactor> = Vec::new();
    let n = items.len();
    let mut i: usize = 0;
    while i < n
        invariant
            n == items@.len() == factors@.len(),
            i <= n,
            res@.len() == i,
            forall|q: int| 0 <= q < i ==> #[trigger] res@[q].item@ == items@[q]@ && res@[q].factor == factors@[q],
        decreases n - i,
    {
        res.push(ItemWithFactor { item: items[i].clone(), factor: factors[i] });
        i = i + 1;
    }
    proof {
        assert forall|k: int| 0 <= k < ev.len() implies has_item(res@, #[trigger] ev[k].0) by {
            assert(listed(items@, ev[k].0));
            let q = choose|q: int| 0 <= q < items@.len() && #[trigger] items@[q]@ == ev[k].0;
            assert(res@[q].item@ == items@[q]@);
        }
        assert forall|a: int, b: int| 0 <= a < b < res@.len() implies res@[a].item@ != res@[b].item@ by {
            assert(res@[a].item@ == items@[a]@);
            assert(res@[b].item@ == items@[b]@);
        }
        assert forall|a: int| 0 <= a < res@.len() implies #[trigger] res@[a].factor == weight_of(ev, res@[a].item@) by {
            assert(res@[a].item@ == items@[a]@);
            assert(factors@[a] == weight_of(ev.take(ev.len() as int), items@[a]@));
        }
        assert forall|a: int| 0 <= a < res@.len() implies occurs(ev, #[trigger] res@[a].item@) by {
            assert(res@[a].item@ == items@[a]@);
            assert(occurs(ev.take(ev.len() as int), items@[a]@));
        }
    }
    res
}

proof fn lemma_weight_absent(entries: Seq<(Seq<char>, u32)>, x: Seq<char>)
    requires
        !occurs(entries, x),
    ensures
        weight_of(entries, x) == 0,
    decreases entries.len(),
{
    if entries.len() > 0 {
        assert(!occurs(entries.drop_last(), x)) by {
            if occurs(entries.drop_last(), x) {
                let m = choose|m: int| 0 <= m < entries.drop_last().len() && #[trigger] entries.drop_last()[m].0 == x;
                assert(entries[m] == entries.drop_last()[m]);
            }
        }
        lemma_weight_absent(entries.drop_last(), x);
        assert(entries[entries.len() - 1] == entries.last());
    }
}


/// A tally stays a tally when its elements are reordered.
pub proof fn lemma_tally_reordered(
    entries: Seq<(Seq<char>, u32)>,
    s1: Seq<ItemWithFactor>,
    s2: Seq<ItemWithFactor>,
)
    requires
        is_tally(entries, s1),
        s1.to_multiset() == s2.to_multiset(),
    ensures
        is_tally(entries, s2),
{
    assert(s1.no_duplicates()) by {
        assert forall|i: int, j: int| 0 <= i < s1.len() && 0 <= j < s1.len() && i != j implies s1[i]
            != s1[j] by {
            if i < j {
                assert(s1[i].item@ != s1[j].item@);
            } else {
                assert(s1[j].item@ != s1[i].item@);
            }
        }
    }
    s1.lemma_multiset_has_no_duplicates();
    assert forall|i: int| 0 <= i < s2.len() implies exists|a: int|
        0 <= a < s1.len() && #[trigger] s1[a] == #[trigger] s2[i] by {
        assert(s2.contains(s2[i]));
        assert(s2.to_multiset().count(s2[i]) > 0);
        assert(s1.contains(s2[i]));
    }
    assert forall|x: ItemWithFactor| s2.to_multiset().contains(x) implies s2.to_multiset().count(x)
        == 1 by {
        assert(s1.to_multiset().contains(x));
    }
    s2.lemma_multiset_has_no_duplicates_conv();
    assert forall|i: int, j: int| 0 <= i < j < s2.len() implies s2[i].item@ != s2[j].item@ by {
        let a = choose|a: int| 0 <= a < s1.len() && #[trigger] s1[a] == s2[i];
        let b = choose|b: int| 0 <= b < s1.len() && #[trigger] s1[b] == s2[j];
        assert(s2[i] != s2[j]);
        if a < b {
            assert(s1[a].item@ != s1[b].item@);
        } else if b < a {
            assert(s1[b].item@ != s1[a].item@);
        }
    }
    assert forall|i: int| 0 <= i < s2.len() implies #[trigger] s2[i].factor == weight_of(
        entries,
        s2[i].item@,
    ) && occurs(entries, s2[i].item@) by {
        let a = choose|a: int| 0 <= a < s1.len() && #[trigger] s1[a] == s2[i];
        assert(s1[a].factor == weight_of(entries, s1[a].item@));
        assert(occurs(entries, s1[a].item@));
    }
    assert forall|k: int| 0 <= k < entries.len() implies has_item(s2, #[trigger] entries[k].0) by {
        assert(has_item(s1, entries[k].0));
        let a = choose|a: int| 0 <= a < s1.len() && #[trigger] s1[a].item@ == entries[k].0;
        assert(s1.contains(s1[a]));
        assert(s1.to_multiset().count(s1[a]) > 0);
        assert(s2.contains(s1[a]));
        let i = choose|i: int| 0 <= i < s2.len() && s2[i] == s1[a];
        assert(s2[i].item@ == entries[k].0);
    }
}

/// The tally of the entries, ranked by factor, largest first.
pub fn ranked_tally(entries: &Vec<(String, u32)>) -> (res: Vec<ItemWithFactor>)
    requires
        item_weights_fit(entries_view(entries@)),
    ensures
        is_tally(entries_view(entries@), res@),
        sorted_desc(res@),
{
    let mut res = tally(entries);
    let ghost unsorted = res@;
    desc_sort_by_factor(&mut res);
    proof {
        lemma_tally_reordered(entries_view(entries@), unsorted, res@);
    }
    res
}

} // verus!
