//! What holds of text as a whole: of searching, splitting, joining, trimming and
//! decimal notation.
use vstd::prelude::*;

use crate::text;

verus! {

/// A text stands in whatever it is a part of.
pub proof fn law_part_occurs(before: Seq<char>, part: Seq<char>, after: Seq<char>)
    ensures
        text::occurs(before + part + after, part),
{
    let whole = before + part + after;
    let at = before.len() as int;
    assert(whole.subrange(at, at + part.len()) =~= part);
    assert(text::occurs_at(whole, part, at));
}

/// What stands in a text is a part of it: something comes before it, something
/// after it, and the three make up the text.
pub proof fn law_what_occurs_is_a_part(whole: Seq<char>, part: Seq<char>)
    requires
        text::occurs(whole, part),
    ensures
        exists|i: int|
            0 <= i <= whole.len() - part.len() && #[trigger] whole.take(i) + part + whole.skip(
                i + part.len(),
            ) == whole,
{
    let i = choose|i: int| text::occurs_at(whole, part, i);
    assert(whole.take(i) + part + whole.skip(i + part.len()) =~= whole);
}

/// The views of strings are the views of each of them.
pub proof fn law_views_are_each(strings: Seq<String>)
    ensures
        text::views(strings).len() == strings.len(),
        forall|i: int|
            0 <= i < strings.len() ==> #[trigger] text::views(strings)[i] == strings[i]@,
{
}

/// Nothing joined is empty, and one part joined is that part.
pub proof fn law_join_of_few(part: Seq<char>, sep: Seq<char>)
    ensures
        text::joined(Seq::empty(), sep).len() == 0,
        text::joined(seq![part], sep) == part,
{
}

/// Two groups of parts joined are the one joined, the separator, and the other
/// joined: no part is lost and the order is kept.
pub proof fn law_join_of_two(one: Seq<Seq<char>>, other: Seq<Seq<char>>, sep: Seq<char>)
    requires
        one.len() > 0,
        other.len() > 0,
    ensures
        text::joined(one + other, sep) == text::joined(one, sep) + sep + text::joined(other, sep),
    decreases other.len(),
{
    assert((one + other).drop_last() =~= one + other.drop_last());
    assert((one + other).last() == other.last());
    if other.len() == 1 {
        assert(one + other.drop_last() =~= one);
    } else {
        law_join_of_two(one, other.drop_last(), sep);
        assert(text::joined(one + other, sep) =~= text::joined(one, sep) + sep + text::joined(
            other,
            sep,
        ));
    }
}

/// Joining the pieces of a text with the separator gives the text back, and no
/// piece holds the separator.
pub proof fn law_join_undoes_split(whole: Seq<char>, sep: char)
    ensures
        text::pieces(whole, sep).len() > 0,
        text::joined(text::pieces(whole, sep), seq![sep]) == whole,
        forall|i: int|
            0 <= i < text::pieces(whole, sep).len() ==> !(#[trigger] text::pieces(
                whole,
                sep,
            )[i]).contains(sep),
    decreases whole.len(),
{
    let all = text::pieces(whole, sep);
    if whole.len() == 0 {
        assert(whole =~= Seq::empty());
    } else {
        let before = text::pieces(whole.drop_last(), sep);
        law_join_undoes_split(whole.drop_last(), sep);
        assert(whole.drop_last().push(whole.last()) =~= whole);
        if whole.last() == sep {
            assert(all.drop_last() =~= before);
            assert(text::joined(all, seq![sep]) =~= whole);
        } else {
            assert(all.drop_last() =~= before.drop_last());
            assert(text::joined(all, seq![sep]) =~= whole);
            assert forall|i: int| 0 <= i < all.len() implies !(#[trigger] all[i]).contains(sep) by {
                assert(!before[i].contains(sep));
                if i == all.len() - 1 && all[i].contains(sep) {
                    let at = choose|at: int| 0 <= at < all[i].len() && all[i][at] == sep;
                    assert(before[i][at] == sep);
                }
            }
        }
    }
}

/// What is left of a text is what stands before the run of `c` at its end.
pub proof fn law_trailing_run_goes(core: Seq<char>, run: Seq<char>, c: char)
    requires
        core.len() == 0 || core.last() != c,
        forall|i: int| 0 <= i < run.len() ==> #[trigger] run[i] == c,
    ensures
        text::without_trailing(core + run, c) == core,
    decreases run.len(),
{
    if run.len() == 0 {
        assert(core + run =~= core);
    } else {
        assert((core + run).last() == run[run.len() - 1]);
        assert((core + run).drop_last() =~= core + run.drop_last());
        law_trailing_run_goes(core, run.drop_last(), c);
    }
}

/// The number that decimal digits stand for.
pub open spec fn number_read(digits: Seq<char>) -> int
    decreases digits.len(),
{
    if digits.len() == 0 {
        0
    } else {
        10 * number_read(digits.drop_last()) + (digits.last() as int - '0' as int)
    }
}

/// Decimal notation reads as the number that was written; it consists of digits,
/// and the first is no zero unless the number is zero.
pub proof fn law_decimal_reads_back(n: nat)
    ensures
        number_read(text::decimal(n)) == n,
        text::decimal(n).len() > 0,
        forall|i: int|
            0 <= i < text::decimal(n).len() ==> '0' <= #[trigger] text::decimal(n)[i] <= '9',
        text::decimal(n)[0] == '0' ==> n == 0 && text::decimal(n).len() == 1,
    decreases n,
{
    let all = text::decimal(n);
    if n < 10 {
        assert(all.drop_last() =~= Seq::empty());
        assert(number_read(all.drop_last()) == 0);
    } else {
        law_decimal_reads_back(n / 10);
        assert(all.drop_last() =~= text::decimal(n / 10));
        assert(all[0] == text::decimal(n / 10)[0]);
    }
}

/// A number below ten is written as its digit, and a further digit goes to the
/// end of what the number was written as without it.
pub proof fn law_decimal_by_digits(n: nat, d: nat)
    requires
        d < 10,
    ensures
        text::decimal(d) == seq!["0123456789"@[d as int]],
        n > 0 ==> text::decimal(10 * n + d) == text::decimal(n).push("0123456789"@[d as int]),
{
    reveal_strlit("0123456789");
    assert(text::digit(d as int) == "0123456789"@[d as int]);
    if n > 0 {
        assert((10 * n + d) / 10 == n);
        assert((10 * n + d) % 10 == d);
    }
}

} // verus!
