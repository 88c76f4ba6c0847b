//! The order of strings by their characters, as `String`'s `Ord` orders
//! them (UTF-8 preserves the order of code points), and sorting by it.
use crate::file_name::FileName;
use crate::text::chars_of;
use vstd::prelude::*;

verus! {

broadcast use vstd::seq_lib::group_to_multiset_ensures;

/// `a` comes no later than `b` in lexicographic order of code points.
pub open spec fn lex_le(a: Seq<char>, b: Seq<char>) -> bool
    decreases a.len(),
{
    if a.len() == 0 {
        true
    } else if b.len() == 0 {
        false
    } else if a[0] != b[0] {
        (a[0] as u32) < (b[0] as u32)
    } else {
        lex_le(a.drop_first(), b.drop_first())
    }
}

/// Of two strings, one comes no later than the other.
pub proof fn lemma_lex_total(a: Seq<char>, b: Seq<char>)
    ensures
        lex_le(a, b) || lex_le(b, a),
    decreases a.len(),
{
    if a.len() > 0 && b.len() > 0 {
        if a[0] == b[0] {
            lemma_lex_total(a.drop_first(), b.drop_first());
        } else {
            vstd::utf8::char_u32_cast(a[0], a[0] as u32);
            vstd::utf8::char_u32_cast(b[0], b[0] as u32);
            assert((a[0] as u32) != (b[0] as u32));
        }
    }
}

/// The order is transitive.
pub proof fn lemma_lex_transitive(a: Seq<char>, b: Seq<char>, c: Seq<char>)
    requires
        lex_le(a, b),
        lex_le(b, c),
    ensures
        lex_le(a, c),
    decreases a.len(),
{
    if a.len() > 0 && b.len() > 0 && c.len() > 0 && a[0] == b[0] && b[0] == c[0] {
        lemma_lex_transitive(a.drop_first(), b.drop_first(), c.drop_first());
    }
}

/// Whether `a` comes no later than `b`.
pub fn lex_le_exec(a: &str, b: &str) -> (res: bool)
    ensures
        res == lex_le(a@, b@),
{
    let x = chars_of(a);
    let y = chars_of(b);
    let mut i: usize = 0;
    proof {
        assert(a@.skip(0) =~= a@);
        assert(b@.skip(0) =~= b@);
    }
    while i < x.len() && i < y.len()
        invariant
            x@ == a@,
            y@ == b@,
            i <= x@.len(),
            i <= y@.len(),
            lex_le(a@, b@) == lex_le(a@.skip(i as int), b@.skip(i as int)),
        decreases x@.len() - i,
    {
        let cx = x[i];
        let cy = y[i];
        if cx != cy {
            proof {
                assert(a@.skip(i as int)[0] == cx);
                assert(b@.skip(i as int)[0] == cy);
            }
            return (cx as u32) < (cy as u32);
        }
        proof {
            assert(a@.skip(i as int).drop_first() =~= a@.skip(i + 1));
            assert(b@.skip(i as int).drop_first() =~= b@.skip(i + 1));
        }
        i = i + 1;
    }
    proof {
        if i == x@.len() {
            assert(a@.skip(i as int).len() == 0);
        } else {
            assert(b@.skip(i as int).len() == 0);
        }
    }
    i == x.len()
}

/// The page names are in ascending order.
pub open spec fn names_ascending(s: Seq<FileName>) -> bool {
    forall|i: int, j: int| 0 <= i < j < s.len() ==> lex_le(#[trigger] s[i]@, #[trigger] s[j]@)
}

proof fn lemma_insert_to_multiset<T>(s: Seq<T>, pos: int, x: T)
    requires
        0 <= pos <= s.len(),
    ensures
        s.insert(pos, x).to_multiset() =~= s.to_multiset().insert(x),
{
    let t = s.insert(pos, x);
    assert(t.remove(pos) =~= s);
    assert(t[pos] == x);
    assert(t.remove(pos).to_multiset() =~= t.to_multiset().remove(x));
    assert(t.contains(x));
    assert(t.to_multiset().count(x) > 0);
}

/// Sorts page names in ascending order, as `Vec::sort` orders them. The
/// result holds the same names.
pub fn sort_names(items: &mut Vec<FileName>)
    ensures
        names_ascending(final(items)@),
        final(items)@.to_multiset() == old(items)@.to_multiset(),
{
    let mut sorted: Vec<FileName> = Vec::new();
    while items.len() > 0
        invariant
            names_ascending(sorted@),
            items@.to_multiset().add(sorted@.to_multiset()) == old(items)@.to_multiset(),
        decreases items@.len(),
    {
        let ghost before = items@;
        let x = items.pop().unwrap();
        proof {
            assert(before =~= items@.push(x));
        }
        let mut pos: usize = 0;
        while pos < sorted.len() && lex_le_exec(sorted[pos].0.as_str(), x.0.as_str())
            invariant
                pos <= sorted@.len(),
                forall|k: int| 0 <= k < pos ==> lex_le(#[trigger] sorted@[k]@, x@),
            decreases sorted@.len() - pos,
        {
            pos = pos + 1;
        }
        let ghost old_sorted = sorted@;
        proof {
            if pos < old_sorted.len() {
                lemma_lex_total(old_sorted[pos as int]@, x@);
                assert(lex_le(x@, old_sorted[pos as int]@));
            }
        }
        sorted.insert(pos, x);
        proof {
            lemma_insert_to_multiset(old_sorted, pos as int, x);
            assert(sorted@ == old_sorted.insert(pos as int, x));
            assert forall|i: int, j: int| 0 <= i < j < sorted@.len() implies lex_le(
                #[trigger] sorted@[i]@,
                #[trigger] sorted@[j]@,
            ) by {
                if j < pos {
                    assert(sorted@[i] == old_sorted[i]);
                    assert(sorted@[j] == old_sorted[j]);
                } else if j == pos {
                    assert(sorted@[i] == old_sorted[i]);
                } else if i < pos {
                    assert(sorted@[i] == old_sorted[i]);
                    assert(sorted@[j] == old_sorted[j - 1]);
                    assert(lex_le(old_sorted[i]@, old_sorted[j - 1]@));
                } else if i == pos {
                    assert(sorted@[j] == old_sorted[j - 1]);
                    if j - 1 > pos {
                        assert(lex_le(old_sorted[pos as int]@, old_sorted[j - 1]@));
                        lemma_lex_transitive(x@, old_sorted[pos as int]@, old_sorted[j - 1]@);
                    }
                } else {
                    assert(sorted@[i] == old_sorted[i - 1]);
                    assert(sorted@[j] == old_sorted[j - 1]);
                    assert(lex_le(old_sorted[i - 1]@, old_sorted[j - 1]@));
                }
            }
            assert(items@.to_multiset().add(sorted@.to_multiset()) =~= old(items)@.to_multiset());
        }
    }
    proof {
        assert(items@.to_multiset() =~= vstd::multiset::Multiset::empty());
        assert(sorted@.to_multiset() =~= old(items)@.to_multiset());
    }
    *items = sorted;
}

} // verus!
