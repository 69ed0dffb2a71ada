//! The list of font families as the client shows it.

use vstd::prelude::*;
use crate::text::{
    chars_order, chars_views, from_chars, lemma_lex_transitive, lex_lt,
    to_chars, TextOrder,
};

verus! {

/// The texts ascend strictly: the list is in order and holds none twice.
pub open spec fn strictly_ascending(texts: Seq<Seq<char>>) -> bool {
    forall|i: int, j: int| 0 <= i < j < texts.len() ==> lex_lt(texts[i], texts[j])
}

/// `out` lists exactly the texts of `input`, each once, in order.
pub open spec fn is_sorted_set_of(input: Seq<Seq<char>>, out: Seq<Seq<char>>) -> bool {
    &&& strictly_ascending(out)
    &&& forall|text: Seq<char>| out.contains(text) <==> input.contains(text)
}

/// The views of a list of strings.
pub open spec fn string_views(texts: Seq<String>) -> Seq<Seq<char>> {
    texts.map_values(|t: String| t@)
}

/// First position whose text is not below `text`, and whether the text
/// there equals `text`.
fn find_text_slot(sorted: &Vec<Vec<char>>, text: &Vec<char>) -> (r: (usize, bool))
    ensures
        r.0 <= sorted.len(),
        forall|i: int| 0 <= i < r.0 ==> lex_lt(chars_views(sorted@)[i], text@),
        r.1 ==> r.0 < sorted.len() && chars_views(sorted@)[r.0 as int] == text@,
        !r.1 && r.0 < sorted.len() ==> lex_lt(text@, chars_views(sorted@)[r.0 as int]),
{
    let ghost all = chars_views(sorted@);
    let mut p: usize = 0;
    while p < sorted.len()
        invariant
            p <= sorted.len(),
            all == chars_views(sorted@),
            forall|i: int| 0 <= i < p ==> lex_lt(all[i], text@),
        decreases sorted.len() - p,
    {
        assert(all[p as int] == sorted@[p as int]@);
        match chars_order(&sorted[p], text) {
            TextOrder::Less => {
                p += 1;
            },
            TextOrder::Equal => {
                return (p, true);
            },
            TextOrder::Greater => {
                return (p, false);
            },
        }
    }
    (p, false)
}

/// Puts `text` at its place in the ascending list `sorted`, unless the list
/// holds it already.
fn insert_sorted(sorted: &mut Vec<Vec<char>>, text: Vec<char>)
    requires
        strictly_ascending(chars_views(old(sorted)@)),
    ensures
        strictly_ascending(chars_views(final(sorted)@)),
        forall|t: Seq<char>|
            chars_views(final(sorted)@).contains(t) <==> (chars_views(old(sorted)@).contains(t) || t
                == text@),
{
    let ghost before = chars_views(sorted@);
    let (p, found) = find_text_slot(sorted, &text);
    if found {
        assert(before.contains(text@));
        return ;
    }
    proof {
        assert forall|i: int| p <= i < before.len() implies lex_lt(text@, before[i]) by {
            if i > p {
                lemma_lex_transitive(text@, before[p as int], before[i]);
            }
        }
    }
    sorted.insert(p, text);
    proof {
        let after = chars_views(sorted@);
        assert(after =~= before.insert(p as int, text@));
        assert forall|i: int, j: int| 0 <= i < j < after.len() implies lex_lt(
            after[i],
            after[j],
        ) by {
            if i < p && j > p {
                if i < j - 1 {
                    assert(lex_lt(before[i], before[j - 1]));
                }
            }
        }
        assert forall|t: Seq<char>| after.contains(t) <==> (before.contains(t) || t == text@) by {
            if after.contains(t) {
                let k = choose|k: int| 0 <= k < after.len() && after[k] == t;
                if k < p {
                    assert(before[k] == t);
                } else if k > p {
                    assert(before[k - 1] == t);
                }
            }
            if before.contains(t) {
                let k = choose|k: int| 0 <= k < before.len() && before[k] == t;
                if k < p {
                    assert(after[k] == t);
                } else {
                    assert(after[k + 1] == t);
                }
            }
            if t == text@ {
                assert(after[p as int] == t);
            }
        }
    }
}

/// Sorts the family names and drops the repeats.
pub fn sorted_families(families: &Vec<String>) -> (out: Vec<String>)
    ensures
        is_sorted_set_of(string_views(families@), string_views(out@)),
{
    let ghost input = string_views(families@);
    let mut sorted: Vec<Vec<char>> = Vec::new();
    let mut i: usize = 0;
    while i < families.len()
        invariant
            i <= families.len(),
            input == string_views(families@),
            strictly_ascending(chars_views(sorted@)),
            forall|t: Seq<char>|
                chars_views(sorted@).contains(t) <==> input.take(i as int).contains(t),
        decreases families.len() - i,
    {
        let text = to_chars(families[i].as_str());
        let ghost before = chars_views(sorted@);
        insert_sorted(&mut sorted, text);
        proof {
            let next = input.take(i + 1);
            assert(next.drop_last() =~= input.take(i as int));
            assert(next.last() == text@);
            assert forall|t: Seq<char>| chars_views(sorted@).contains(t) <==> next.contains(
                t,
            ) by {
                if next.contains(t) {
                    let k = choose|k: int| 0 <= k < next.len() && next[k] == t;
                    if k < i {
                        assert(input.take(i as int)[k] == t);
                    }
                }
                if input.take(i as int).contains(t) {
                    let k = choose|k: int|
                        0 <= k < input.take(i as int).len() && input.take(i as int)[k] == t;
                    assert(next[k] == t);
                }
                if t == text@ {
                    assert(next[i as int] == t);
                }
            }
        }
        i += 1;
    }
    assert(input.take(i as int) =~= input);
    let mut out: Vec<String> = Vec::new();
    let mut j: usize = 0;
    while j < sorted.len()
        invariant
            j <= sorted.len(),
            string_views(out@) == chars_views(sorted@).take(j as int),
        decreases sorted.len() - j,
    {
        let ghost before = string_views(out@);
        let name = from_chars(&sorted[j]);
        out.push(name);
        assert(string_views(out@) =~= before.push(sorted@[j as int]@));
        assert(chars_views(sorted@).take(j + 1) =~= chars_views(sorted@).take(j as int).push(
            sorted@[j as int]@,
        ));
        j += 1;
    }
    assert(chars_views(sorted@).take(j as int) =~= chars_views(sorted@));
    out
}

} // verus!
