//! Narrowing a popup's candidate list by a search query, and keeping the
//! highlighted row on a sensible candidate while the list changes.
use vstd::prelude::*;

use crate::text::{
    ascii_lower, chars_eq, chars_of, chars_of_all, chars_view, contains, contains_in,
    string_of, strings_view, to_ascii_lower,
};

verus! {

/// The candidates that contain the query, both taken without case; an
/// empty query keeps them all.
pub open spec fn search_results(all: Seq<Seq<char>>, query: Seq<char>) -> Seq<Seq<char>>
    decreases all.len(),
{
    if all.len() == 0 {
        seq![]
    } else {
        let kept = search_results(all.drop_last(), query);
        if contains(ascii_lower(all.last()), ascii_lower(query)) {
            kept.push(all.last())
        } else {
            kept
        }
    }
}

/// The candidates of `all` that are in `selected`, in their order.
pub open spec fn kept_selected(all: Seq<Seq<char>>, selected: Set<Seq<char>>) -> Seq<Seq<char>>
    decreases all.len(),
{
    if all.len() == 0 {
        seq![]
    } else {
        let kept = kept_selected(all.drop_last(), selected);
        if selected.contains(all.last()) {
            kept.push(all.last())
        } else {
            kept
        }
    }
}

/// The first position at or after `i` whose element is in `sel`.
pub open spec fn first_index_in(s: Seq<Seq<char>>, sel: Set<Seq<char>>, i: int) -> Option<int>
    decreases s.len() - i,
{
    if i < 0 || i >= s.len() {
        None
    } else if sel.contains(s[i]) {
        Some(i)
    } else {
        first_index_in(s, sel, i + 1)
    }
}

/// The row highlighted after the candidate list changed from `old` to
/// `new`: the row of the candidate that was highlighted, if it is still
/// listed; else the first selected candidate; else the first row.
pub open spec fn refreshed_highlight(
    old: Seq<Seq<char>>,
    old_highlight: nat,
    new: Seq<Seq<char>>,
    selected: Set<Seq<char>>,
) -> nat {
    if new.len() == 0 {
        0
    } else if old_highlight < old.len() && first_index_in(
        new,
        set![old[old_highlight as int]],
        0,
    ) is Some {
        first_index_in(new, set![old[old_highlight as int]], 0)->0 as nat
    } else {
        match first_index_in(new, selected, 0) {
            Some(i) => i as nat,
            None => 0,
        }
    }
}

pub proof fn lemma_first_index_in_range(s: Seq<Seq<char>>, sel: Set<Seq<char>>, i: int)
    ensures
        first_index_in(s, sel, i) matches Some(k) ==> i <= k < s.len() && sel.contains(s[k]),
    decreases s.len() - i,
{
    if 0 <= i < s.len() && !sel.contains(s[i]) {
        lemma_first_index_in_range(s, sel, i + 1);
    }
}

/// Whether `list` holds `x`.
pub fn list_contains(list: &[String], x: &[char]) -> (r: bool)
    ensures
        r == strings_view(list@).contains(x@),
{
    let mut i: usize = 0;
    while i < list.len()
        invariant
            i <= list@.len(),
            forall|k: int| 0 <= k < i ==> list@[k]@ != x@,
        decreases list@.len() - i,
    {
        let item = chars_of(list[i].as_str());
        if chars_eq(&item, x) {
            assert(strings_view(list@)[i as int] == x@);
            return true;
        }
        i = i + 1;
    }
    proof {
        let m = strings_view(list@);
        if m.contains(x@) {
            let k = choose|k: int| 0 <= k < m.len() && #[trigger] m[k] == x@;
            assert(list@[k]@ == x@);
        }
    }
    false
}

/// The first position of an element of `s` that `selected` holds.
pub fn first_selected_index(s: &[String], selected: &[String]) -> (r: Option<usize>)
    ensures
        match r {
            Some(k) => first_index_in(strings_view(s@), strings_view(selected@).to_set(), 0)
                == Some(k as int),
            None => first_index_in(strings_view(s@), strings_view(selected@).to_set(), 0) is None,
        },
{
    let ghost sv = strings_view(s@);
    let ghost sel = strings_view(selected@).to_set();
    let mut i: usize = 0;
    while i < s.len()
        invariant
            i <= s@.len(),
            sv == strings_view(s@),
            sel == strings_view(selected@).to_set(),
            first_index_in(sv, sel, 0) == first_index_in(sv, sel, i as int),
        decreases s@.len() - i,
    {
        let item = chars_of(s[i].as_str());
        if list_contains(selected, &item) {
            assert(sv[i as int] == item@);
            return Some(i);
        }
        i = i + 1;
    }
    None
}

/// The first position of `x` in `s`.
pub fn index_of(s: &[String], x: &[char]) -> (r: Option<usize>)
    ensures
        match r {
            Some(k) => first_index_in(strings_view(s@), set![x@], 0) == Some(k as int),
            None => first_index_in(strings_view(s@), set![x@], 0) is None,
        },
{
    let ghost sv = strings_view(s@);
    let mut i: usize = 0;
    while i < s.len()
        invariant
            i <= s@.len(),
            sv == strings_view(s@),
            first_index_in(sv, set![x@], 0) == first_index_in(sv, set![x@], i as int),
        decreases s@.len() - i,
    {
        let item = chars_of(s[i].as_str());
        if chars_eq(&item, x) {
            assert(sv[i as int] == x@);
            return Some(i);
        }
        i = i + 1;
    }
    None
}

/// The candidates that contain the query, without case.
pub fn search_candidates(all: &[String], query: &[char]) -> (r: Vec<String>)
    ensures
        strings_view(r@) == search_results(strings_view(all@), query@),
{
    let q = to_ascii_lower(query);
    let mut r: Vec<String> = Vec::new();
    let mut i: usize = 0;
    while i < all.len()
        invariant
            i <= all@.len(),
            q@ == ascii_lower(query@),
            strings_view(r@) == search_results(strings_view(all@.take(i as int)), query@),
        decreases all@.len() - i,
    {
        let ghost t = strings_view(all@.take(i + 1));
        assert(t.drop_last() =~= strings_view(all@.take(i as int)));
        assert(t.last() == all@[i as int]@);
        let item = chars_of(all[i].as_str());
        if contains_in(&to_ascii_lower(&item), &q) {
            let ghost before = r@;
            r.push(string_of(&item));
            assert(strings_view(r@) =~= strings_view(before).push(item@));
        }
        i = i + 1;
    }
    assert(all@.take(all@.len() as int) =~= all@);
    r
}

/// The candidates of `all` that `selected` holds, in their order.
pub fn keep_selected(all: &[String], selected: &[String]) -> (r: Vec<String>)
    ensures
        strings_view(r@) == kept_selected(strings_view(all@), strings_view(selected@).to_set()),
{
    let ghost sel = strings_view(selected@).to_set();
    let mut r: Vec<String> = Vec::new();
    let mut i: usize = 0;
    while i < all.len()
        invariant
            i <= all@.len(),
            sel == strings_view(selected@).to_set(),
            strings_view(r@) == kept_selected(strings_view(all@.take(i as int)), sel),
        decreases all@.len() - i,
    {
        let ghost t = strings_view(all@.take(i + 1));
        assert(t.drop_last() =~= strings_view(all@.take(i as int)));
        assert(t.last() == all@[i as int]@);
        let item = chars_of(all[i].as_str());
        if list_contains(selected, &item) {
            let ghost before = r@;
            r.push(string_of(&item));
            assert(strings_view(r@) =~= strings_view(before).push(item@));
        }
        i = i + 1;
    }
    assert(all@.take(all@.len() as int) =~= all@);
    r
}

/// Narrows the candidates to those matching `query` and moves the
/// highlight as `refreshed_highlight` says.
pub fn refresh_popup_search_candidates(
    all_candidates: &[String],
    candidates: &mut Vec<String>,
    selected_values: &[String],
    highlighted_index: &mut usize,
    search_query: &[char],
)
    ensures
        strings_view(final(candidates)@) == search_results(
            strings_view(all_candidates@),
            search_query@,
        ),
        *final(highlighted_index) as nat == refreshed_highlight(
            strings_view(old(candidates)@),
            *old(highlighted_index) as nat,
            strings_view(final(candidates)@),
            strings_view(selected_values@).to_set(),
        ),
{
    let ghost old_view = strings_view(candidates@);
    let ghost old_h = *highlighted_index as nat;
    let previous: Option<Vec<char>> = if *highlighted_index < candidates.len() {
        Some(chars_of(candidates[*highlighted_index].as_str()))
    } else {
        None
    };
    let fresh = search_candidates(all_candidates, search_query);
    *candidates = fresh;
    let ghost nv = strings_view(candidates@);
    let ghost sel = strings_view(selected_values@).to_set();
    if candidates.len() == 0 {
        *highlighted_index = 0;
        return;
    }
    proof {
        lemma_first_index_in_range(nv, sel, 0);
    }
    match previous {
        Some(h) => {
            assert(h@ == old_view[old_h as int]);
            match index_of(candidates, &h) {
                Some(k) => {
                    proof {
                        lemma_first_index_in_range(nv, set![h@], 0);
                    }
                    *highlighted_index = k;
                    return;
                },
                None => {},
            }
        },
        None => {},
    }
    match first_selected_index(candidates, selected_values) {
        Some(k) => {
            *highlighted_index = k;
        },
        None => {
            *highlighted_index = 0;
        },
    }
}

} // verus!
