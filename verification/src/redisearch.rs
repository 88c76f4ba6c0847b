//! Escaping and clause building for RediSearch query strings.
use crate::text::push_char;
use vstd::prelude::*;

verus! {

/// Characters that RediSearch treats as separators or operators inside a
/// tag value: every ASCII character other than a letter, a digit or `_`.
pub open spec fn is_tag_special(c: char) -> bool {
    &&& (c as u32) < 128
    &&& !('a' <= c && c <= 'z')
    &&& !('A' <= c && c <= 'Z')
    &&& !('0' <= c && c <= '9')
    &&& c != '_'
}

/// Characters escaped in free text: the tag specials other than the space,
/// so that words stay separate terms.
pub open spec fn is_text_special(c: char) -> bool {
    is_tag_special(c) && c != ' '
}

/// `s` with a backslash in front of every character that `special` selects.
pub open spec fn escaped(s: Seq<char>, special: spec_fn(char) -> bool) -> Seq<char>
    decreases s.len(),
{
    if s.len() == 0 {
        Seq::empty()
    } else {
        let c = s.last();
        escaped(s.drop_last(), special) + if special(c) {
            seq!['\\', c]
        } else {
            seq![c]
        }
    }
}

pub open spec fn spec_escape_tag_value(s: Seq<char>) -> Seq<char> {
    escaped(s, |c: char| is_tag_special(c))
}

pub open spec fn spec_escape_search_query_text(s: Seq<char>) -> Seq<char> {
    escaped(s, |c: char| is_text_special(c))
}

fn is_tag_special_exec(c: char) -> (res: bool)
    ensures
        res == is_tag_special(c),
{
    (c as u32) < 128 && !('a' <= c && c <= 'z') && !('A' <= c && c <= 'Z') && !('0' <= c && c
        <= '9') && c != '_'
}

fn push_escaped(out: &mut String, s: &str, keep_spaces: bool)
    ensures
        keep_spaces ==> final(out)@ == old(out)@ + spec_escape_search_query_text(s@),
        !keep_spaces ==> final(out)@ == old(out)@ + spec_escape_tag_value(s@),
{
    let ghost special = if keep_spaces {
        |c: char| is_text_special(c)
    } else {
        |c: char| is_tag_special(c)
    };
    for c in it: s.chars()
        invariant
            out@ == old(out)@ + escaped(it.seq().take(it.index() as int), special),
            it.seq() == s@,
            special == (if keep_spaces {
                |c: char| is_text_special(c)
            } else {
                |c: char| is_tag_special(c)
            }),
    {
        let ghost before = it.seq().take(it.index() as int);
        let esc = is_tag_special_exec(c) && !(keep_spaces && c == ' ');
        if esc {
            push_char(out, '\\');
        }
        push_char(out, c);
        proof {
            let after = it.seq().take(it.index() as int + 1);
            assert(after.drop_last() =~= before);
            assert(after.last() == c);
            assert(special(c) == esc);
            if esc {
                assert(out@ =~= old(out)@ + escaped(before, special) + seq!['\\', c]);
            } else {
                assert(out@ =~= old(out)@ + escaped(before, special) + seq![c]);
            }
            assert(escaped(after, special) == escaped(before, special) + if special(c) {
                seq!['\\', c]
            } else {
                seq![c]
            });
        }
    }
    proof {
        assert(s@.take(s@.len() as int) =~= s@);
    }
}

/// Escapes a tag value so that RediSearch matches it literally.
pub fn escape_tag_value(value: &str) -> (res: String)
    ensures
        res@ == spec_escape_tag_value(value@),
{
    let mut res = String::new();
    push_escaped(&mut res, value, false);
    proof {
        assert(res@ =~= spec_escape_tag_value(value@));
    }
    res
}

/// Escapes free text for a full-text clause, keeping the spaces between words.
pub fn escape_search_query_text(text: &str) -> (res: String)
    ensures
        res@ == spec_escape_search_query_text(text@),
{
    let mut res = String::new();
    push_escaped(&mut res, text, true);
    proof {
        assert(res@ =~= spec_escape_search_query_text(text@));
    }
    res
}

} // verus!
