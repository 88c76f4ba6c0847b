//! Ordering of records by a numeric rank, largest first.
use vstd::multiset::Multiset;
use vstd::prelude::*;

verus! {

broadcast use vstd::seq_lib::group_to_multiset_ensures;

/// A record with a numeric rank by which lists of it are ordered.
pub trait Ranked: Sized {
    /// The rank of the record.
    spec fn rank(&self) -> nat;

    /// Computes the rank.
    fn rank_exec(&self) -> (r: u64)
        ensures
            r == self.rank(),
    ;
}

/// The ranks do not increase from left to right.
pub open spec fn sorted_by_rank_desc<T: Ranked>(s: Seq<T>) -> bool {
    forall|i: int, j: int| 0 <= i < j < s.len() ==> s[i].rank() >= s[j].rank()
}

proof fn lemma_insert_to_multiset<T>(s: Seq<T>, pos: int, x: T)
    requires
        0 <= pos <= s.len(),
    ensures
        s.insert(pos, x).to_multiset() =~= s.to_multiset().insert(x),
{
    let t = s.insert(pos, x);
    assert(t.remove(pos) =~= s);
    assert(t[pos] == x);
    assert(t.remove(pos).to_multiset() =~= t.to_multiset().remove(x));
    assert(t.contains(x));
    assert(t.to_multiset().count(x) > 0);
}

/// Orders `items` by rank, largest first. The result holds the same records.
pub fn sort_by_rank_desc<T: Ranked>(items: &mut Vec<T>)
    ensures
        sorted_by_rank_desc(final(items)@),
        final(items)@.to_multiset() == old(items)@.to_multiset(),
{
    let mut sorted: Vec<T> = Vec::new();
    while items.len() > 0
        invariant
            sorted_by_rank_desc(sorted@),
            items@.to_multiset().add(sorted@.to_multiset()) == old(items)@.to_multiset(),
        decreases items@.len(),
    {
        let ghost before = items@;
        let x = items.pop().unwrap();
        proof {
            assert(before =~= items@.push(x));
        }
        let rx = x.rank_exec();
        let mut pos: usize = 0;
        while pos < sorted.len() && sorted[pos].rank_exec() >= rx
            invariant
                pos <= sorted@.len(),
                rx == x.rank(),
                forall|k: int| 0 <= k < pos ==> sorted@[k].rank() >= x.rank(),
            decreases sorted@.len() - pos,
        {
            pos = pos + 1;
        }
        let ghost old_sorted = sorted@;
        proof {
            if pos < old_sorted.len() {
                assert(old_sorted[pos as int].rank() < x.rank());
            }
        }
        sorted.insert(pos, x);
        proof {
            lemma_insert_to_multiset(old_sorted, pos as int, x);
            assert(sorted@ == old_sorted.insert(pos as int, x));
            assert forall|i: int, j: int| 0 <= i < j < sorted@.len() implies sorted@[i].rank()
                >= sorted@[j].rank() by {
                if j < pos {
                } else if j == pos {
                } else if i < pos {
                    assert(sorted@[j] == old_sorted[j - 1]);
                } else if i == pos {
                    assert(sorted@[j] == old_sorted[j - 1]);
                    assert(old_sorted[pos as int].rank() >= old_sorted[j - 1].rank());
                } else {
                    assert(sorted@[i] == old_sorted[i - 1]);
                    assert(sorted@[j] == old_sorted[j - 1]);
                }
            }
            assert(items@.to_multiset().add(sorted@.to_multiset()) =~= old(items)@.to_multiset());
        }
    }
    proof {
        assert(items@.to_multiset() =~= Multiset::empty());
        assert(sorted@.to_multiset() =~= old(items)@.to_multiset());
    }
    *items = sorted;
}

/// A sequence and a reordering of it hold the same records.
pub proof fn lemma_same_multiset_contains<T>(a: Seq<T>, b: Seq<T>, x: T)
    requires
        a.to_multiset() == b.to_multiset(),
    ensures
        a.contains(x) <==> b.contains(x),
{
    if a.contains(x) {
        assert(a.to_multiset().count(x) > 0);
    }
    if b.contains(x) {
        assert(b.to_multiset().count(x) > 0);
    }
}

} // verus!
