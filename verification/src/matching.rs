//! Matching texts against signatures.
use vstd::prelude::*;

use crate::text;
use crate::unicode;

verus! {

/// `needle` stands in one of the two windows that are there.
pub open spec fn in_windows(
    needle: Seq<char>,
    head: Option<Seq<char>>,
    tail: Option<Seq<char>>,
) -> bool {
    ||| head matches Some(h) && text::occurs(h, needle)
    ||| tail matches Some(t) && text::occurs(t, needle)
}

/// The rules whose needle stands in one of the windows, in the order of the
/// rules. `needles[i]` is the needle of `rules[i]`.
pub open spec fn selected(
    rules: Seq<Seq<char>>,
    needles: Seq<Seq<char>>,
    head: Option<Seq<char>>,
    tail: Option<Seq<char>>,
) -> Seq<Seq<char>>
    decreases rules.len(),
{
    if rules.len() == 0 {
        Seq::empty()
    } else {
        let before = selected(rules.drop_last(), needles, head, tail);
        if in_windows(needles[rules.len() - 1], head, tail) {
            before.push(rules.last())
        } else {
            before
        }
    }
}

/// Each text lowered.
pub open spec fn lowered(texts: Seq<Seq<char>>) -> Seq<Seq<char>> {
    Seq::new(texts.len(), |i: int| unicode::lowercase(texts[i]))
}

/// A window lowered, if it is there.
pub open spec fn lowered_window(window: Option<Seq<char>>) -> Option<Seq<char>> {
    match window {
        Some(w) => Some(unicode::lowercase(w)),
        None => None,
    }
}

/// A window with its ASCII letters lowered, if it is there.
pub open spec fn plain_window(window: Option<Seq<char>>) -> Option<Seq<char>> {
    match window {
        Some(w) => Some(unicode::plain_lower(w)),
        None => None,
    }
}

/// A window that is there consists of plain characters.
pub open spec fn is_plain_window(window: Option<Seq<char>>) -> bool {
    window matches Some(w) ==> unicode::all_plain(w)
}

/// The rules that the two windows match.
pub open spec fn window_hits(
    rules: Seq<Seq<char>>,
    head: Option<Seq<char>>,
    tail: Option<Seq<char>>,
) -> Seq<Seq<char>> {
    selected(rules, lowered(rules), lowered_window(head), lowered_window(tail))
}

/// One of the windows shows `word`, in whatever case.
pub open spec fn windows_show(
    head: Option<Seq<char>>,
    tail: Option<Seq<char>>,
    word: Seq<char>,
) -> bool {
    ||| head matches Some(h) && unicode::shows(h, word)
    ||| tail matches Some(t) && unicode::shows(t, word)
}

/// The characters of a window, if it is there.
pub open spec fn window_view(window: Option<&Vec<char>>) -> Option<Seq<char>> {
    match window {
        Some(w) => Some(w@),
        None => None,
    }
}

/// A string slice by what it holds, if it is there.
pub open spec fn str_view(s: Option<&str>) -> Option<Seq<char>> {
    match s {
        Some(s) => Some(s@),
        None => None,
    }
}

/// What one more rule adds to the selection.
proof fn lemma_selected_step(
    rules: Seq<Seq<char>>,
    needles: Seq<Seq<char>>,
    head: Option<Seq<char>>,
    tail: Option<Seq<char>>,
    i: int,
)
    requires
        0 <= i < rules.len(),
    ensures
        selected(rules.take(i + 1), needles, head, tail) == (if in_windows(needles[i], head, tail) {
            selected(rules.take(i), needles, head, tail).push(rules[i])
        } else {
            selected(rules.take(i), needles, head, tail)
        }),
{
    assert(rules.take(i + 1).drop_last() =~= rules.take(i));
}

/// A rule whose needle stands in a window is among the selected ones.
pub proof fn lemma_selected_contains(
    rules: Seq<Seq<char>>,
    needles: Seq<Seq<char>>,
    head: Option<Seq<char>>,
    tail: Option<Seq<char>>,
    k: int,
)
    requires
        0 <= k < rules.len(),
        in_windows(needles[k], head, tail),
    ensures
        selected(rules, needles, head, tail).contains(rules[k]),
    decreases rules.len(),
{
    let before = selected(rules.drop_last(), needles, head, tail);
    let all = selected(rules, needles, head, tail);
    if k == rules.len() - 1 {
        assert(all[before.len() as int] == rules[k]);
    } else {
        lemma_selected_contains(rules.drop_last(), needles, head, tail, k);
        let at = choose|at: int| 0 <= at < before.len() && before[at] == rules[k];
        assert(all[at] == rules[k]);
    }
}

/// Picks the rules whose needle stands in one of the windows. Needles and
/// windows are compared as they are: lowering them is up to the caller.
pub fn select_rules(
    rules: &Vec<String>,
    needles: &Vec<Vec<char>>,
    head: Option<&Vec<char>>,
    tail: Option<&Vec<char>>,
) -> (r: Vec<String>)
    requires
        needles@.len() == rules@.len(),
    ensures
        text::views(r@) == selected(
            text::views(rules@),
            Seq::new(needles@.len(), |i: int| needles@[i]@),
            window_view(head),
            window_view(tail),
        ),
{
    let ghost all = text::views(rules@);
    let ghost pins = Seq::new(needles@.len(), |i: int| needles@[i]@);
    let ghost h = window_view(head);
    let ghost t = window_view(tail);
    let mut out: Vec<String> = Vec::new();
    let mut i: usize = 0;
    assert(all.take(0) =~= Seq::empty());
    assert(text::views(out@) =~= Seq::empty());
    while i < rules.len()
        invariant
            i <= rules@.len(),
            needles@.len() == rules@.len(),
            all == text::views(rules@),
            pins == Seq::new(needles@.len(), |i: int| needles@[i]@),
            h == window_view(head),
            t == window_view(tail),
            text::views(out@) == selected(all.take(i as int), pins, h, t),
        decreases rules@.len() - i,
    {
        proof {
            lemma_selected_step(all, pins, h, t, i as int);
        }
        let in_head = match head {
            Some(w) => text::contains(w, &needles[i]),
            None => false,
        };
        let in_tail = match tail {
            Some(w) => text::contains(w, &needles[i]),
            None => false,
        };
        if in_head || in_tail {
            let ghost before = out@;
            out.push(rules[i].clone());
            assert(text::views(out@) =~= text::views(before).push(all[i as int]));
        }
        i = i + 1;
    }
    assert(all.take(rules@.len() as int) =~= all);
    out
}

/// The lowered characters of `s`. Whatever word `s` shows, in whatever case,
/// stands in them in lowercase.
pub(crate) fn lower_chars(s: &str) -> (r: Vec<char>)
    ensures
        r@ == unicode::lowercase(s@),
        r@ == unicode::lowercase(unicode::plain_lower(s@)),
        unicode::all_plain(s@) ==> r@ == unicode::plain_lower(s@),
        forall|word: Seq<char>| #[trigger]
            unicode::shows(s@, word) ==> text::occurs(r@, unicode::plain_lower(word)),
{
    let low = s.to_lowercase();
    let out = text::chars_of(low.as_str());
    proof {
        assert forall|word: Seq<char>| #[trigger] unicode::shows(s@, word) implies text::occurs(
            out@,
            unicode::plain_lower(word),
        ) by {
            let (i, j) = choose|i: int, j: int|
                0 <= i <= j <= s@.len() && unicode::same_word(#[trigger] s@.subrange(i, j), word);
            assert(unicode::all_plain(s@.subrange(i, j)));
        }
    }
    out
}

/// Each rule lowered.
pub(crate) fn lower_all(rules: &Vec<String>) -> (r: Vec<Vec<char>>)
    ensures
        r@.len() == rules@.len(),
        Seq::new(r@.len(), |i: int| r@[i]@) == lowered(text::views(rules@)),
        forall|k: int|
            0 <= k < rules@.len() && unicode::all_plain(#[trigger] rules@[k]@)
                ==> unicode::lowercase(rules@[k]@) == unicode::plain_lower(rules@[k]@),
{
    let mut out: Vec<Vec<char>> = Vec::new();
    let mut i: usize = 0;
    while i < rules.len()
        invariant
            i <= rules@.len(),
            out@.len() == i,
            forall|k: int| 0 <= k < i ==> #[trigger] out@[k]@ == unicode::lowercase(rules@[k]@),
            forall|k: int|
                0 <= k < i && unicode::all_plain(#[trigger] rules@[k]@) ==> unicode::lowercase(
                    rules@[k]@,
                ) == unicode::plain_lower(rules@[k]@),
        decreases rules@.len() - i,
    {
        out.push(lower_chars(rules[i].as_str()));
        i = i + 1;
    }
    assert(Seq::new(out@.len(), |i: int| out@[i]@) =~= lowered(text::views(rules@)));
    out
}

} // verus!
