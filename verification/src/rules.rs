//! Signature files: one signature to a line, with `#` for comments.
use vstd::prelude::*;

use crate::text;

verus! {

/// A blank within a line.
pub open spec fn is_blank(c: char) -> bool {
    c == ' ' || c == '\t' || c == '\r'
}

/// `line` without the blanks at its two ends.
pub open spec fn stripped(line: Seq<char>) -> Seq<char>
    decreases line.len(),
{
    if line.len() > 0 && is_blank(line.last()) {
        stripped(line.drop_last())
    } else if line.len() > 0 && is_blank(line[0]) {
        stripped(line.drop_first())
    } else {
        line
    }
}

/// A stripped line that holds a signature: neither empty nor a comment.
pub open spec fn is_rule(line: Seq<char>) -> bool {
    line.len() > 0 && line[0] != '#'
}

/// The signatures on `lines`, in order.
pub open spec fn rules_on(lines: Seq<Seq<char>>) -> Seq<Seq<char>>
    decreases lines.len(),
{
    if lines.len() == 0 {
        Seq::empty()
    } else {
        let before = rules_on(lines.drop_last());
        let line = stripped(lines.last());
        if is_rule(line) {
            before.push(line)
        } else {
            before
        }
    }
}

/// The signature on `line` begins at `i` and ends before `j`: around it there are
/// blanks only, it has none at its ends, and it is no comment.
pub open spec fn holds_signature(line: Seq<char>, i: int, j: int) -> bool {
    &&& 0 <= i < j <= line.len()
    &&& only_blanks(line.take(i))
    &&& only_blanks(line.skip(j))
    &&& line[i] != '#'
    &&& !only_blanks(line.subrange(i, i + 1))
    &&& !only_blanks(line.subrange(j - 1, j))
}

fn blank(c: char) -> (r: bool)
    ensures
        r == is_blank(c),
{
    c == ' ' || c == '\t' || c == '\r'
}

/// The signature on `line`, if there is one.
pub fn rule_on(line: &Vec<char>) -> (r: Option<String>)
    ensures
        r is Some <==> is_rule(stripped(line@)),
        r matches Some(rule) ==> rule@ == stripped(line@),
{
    let mut from: usize = 0;
    let mut to: usize = line.len();
    assert(line@.subrange(0, line@.len() as int) =~= line@);
    while to > 0 && blank(line[to - 1])
        invariant
            from == 0,
            to <= line@.len(),
            stripped(line@.subrange(from as int, to as int)) == stripped(line@),
        decreases to,
    {
        assert(line@.subrange(from as int, to as int).drop_last() =~= line@.subrange(
            from as int,
            to - 1,
        ));
        to = to - 1;
    }
    while from < to && blank(line[from])
        invariant
            from <= to <= line@.len(),
            to > 0 ==> !is_blank(line@[to - 1]),
            stripped(line@.subrange(from as int, to as int)) == stripped(line@),
        decreases to - from,
    {
        assert(line@.subrange(from as int, to as int).drop_first() =~= line@.subrange(
            from + 1,
            to as int,
        ));
        from = from + 1;
    }
    assert(stripped(line@) == line@.subrange(from as int, to as int));
    if from < to && line[from] != '#' {
        Some(text::string_of(line, from, to))
    } else {
        None
    }
}

/// The signatures in the text of a signature file, in order. Blanks at the ends
/// of a line do not count, and empty lines and comments hold no signature.
///
/// No signature is lost: each line that is not blank and no comment gives one.
pub fn parse_rules(content: &str) -> (r: Vec<String>)
    ensures
        text::views(r@) == rules_on(text::pieces(content@, '\n')),
        forall|i: int, j: int, k: int|
            0 <= k < text::pieces(content@, '\n').len() && holds_signature(
                text::pieces(content@, '\n')[k],
                i,
                j,
            ) ==> text::views(r@).contains(
                #[trigger] text::pieces(content@, '\n')[k].subrange(i, j),
            ),
{
    let chars = text::chars_of(content);
    let lines = text::split(&chars, '\n');
    let ghost all = text::pieces(content@, '\n');
    let mut out: Vec<String> = Vec::new();
    let mut i: usize = 0;
    assert(all.take(0) =~= Seq::empty());
    assert(text::views(out@) =~= Seq::empty());
    while i < lines.len()
        invariant
            i <= lines@.len(),
            lines@.len() == all.len(),
            forall|k: int| 0 <= k < lines@.len() ==> #[trigger] lines@[k]@ == all[k],
            text::views(out@) == rules_on(all.take(i as int)),
        decreases lines@.len() - i,
    {
        assert(all.take(i + 1).drop_last() =~= all.take(i as int));
        assert(lines@[i as int]@ == all[i as int]);
        let ghost before = out@;
        if let Some(rule) = rule_on(&lines[i]) {
            out.push(rule);
            assert(text::views(out@) =~= text::views(before).push(rule@));
        }
        i = i + 1;
    }
    assert(all.take(all.len() as int) =~= all);
    proof {
        assert forall|i: int, j: int, k: int|
            0 <= k < all.len() && holds_signature(all[k], i, j) implies text::views(
            out@,
        ).contains(#[trigger] all[k].subrange(i, j)) by {
            lemma_signature_on_line(all, i, j, k);
        }
    }
    out
}

proof fn lemma_signature_on_line(lines: Seq<Seq<char>>, i: int, j: int, k: int)
    requires
        0 <= k < lines.len(),
        holds_signature(lines[k], i, j),
    ensures
        rules_on(lines).contains(lines[k].subrange(i, j)),
    decreases lines.len(),
{
    let core = lines[k].subrange(i, j);
    let before = rules_on(lines.drop_last());
    if k == lines.len() - 1 {
        let line = lines[k];
        if is_blank(core[0]) {
            assert(only_blanks(line.subrange(i, i + 1)));
        }
        if is_blank(core.last()) {
            assert(only_blanks(line.subrange(j - 1, j)));
        }
        lemma_stripped_of_parts(line.take(i), core, line.skip(j));
        assert(line.take(i) + core + line.skip(j) =~= line);
        assert(rules_on(lines)[before.len() as int] == core);
    } else {
        lemma_signature_on_line(lines.drop_last(), i, j, k);
        let at = choose|at: int| 0 <= at < before.len() && before[at] == core;
        assert(rules_on(lines)[at] == core);
    }
}

/// What a signature file holds is usable as it stands: no signature is empty or
/// a comment, and none has blanks at its ends.
pub proof fn law_parsed_rules_are_rules(lines: Seq<Seq<char>>, k: int)
    requires
        0 <= k < rules_on(lines).len(),
    ensures
        is_rule(rules_on(lines)[k]),
        !is_blank(rules_on(lines)[k][0]),
        !is_blank(rules_on(lines)[k].last()),
    decreases lines.len(),
{
    lemma_stripped(lines.last());
    if k < rules_on(lines.drop_last()).len() {
        law_parsed_rules_are_rules(lines.drop_last(), k);
    }
}

proof fn lemma_stripped(line: Seq<char>)
    ensures
        stripped(line).len() > 0 ==> !is_blank(stripped(line)[0]) && !is_blank(
            stripped(line).last(),
        ),
    decreases line.len(),
{
    if line.len() > 0 && is_blank(line.last()) {
        lemma_stripped(line.drop_last());
    } else if line.len() > 0 && is_blank(line[0]) {
        lemma_stripped(line.drop_first());
    }
}

/// A line without its blanks at the ends: `left` and `right` are blanks, and what
/// stands between them neither begins nor ends with one.
proof fn lemma_stripped_of_parts(left: Seq<char>, core: Seq<char>, right: Seq<char>)
    requires
        only_blanks(left),
        only_blanks(right),
        core.len() > 0 ==> !is_blank(core[0]) && !is_blank(core.last()),
    ensures
        stripped(left + core + right) == core,
    decreases left.len() + right.len(),
{
    let line = left + core + right;
    if right.len() > 0 {
        assert(line.last() == right[right.len() - 1]);
        assert(line.drop_last() =~= left + core + right.drop_last());
        lemma_stripped_of_parts(left, core, right.drop_last());
    } else if core.len() > 0 {
        assert(line.last() == core.last());
        if left.len() > 0 {
            assert(line[0] == left[0]);
            assert(line.drop_first() =~= left.drop_first() + core + right);
            lemma_stripped_of_parts(left.drop_first(), core, right);
        } else {
            assert(line =~= core);
        }
    } else if left.len() > 0 {
        assert(line.last() == left[left.len() - 1]);
        assert(line.drop_last() =~= left.drop_last() + core + right);
        lemma_stripped_of_parts(left.drop_last(), core, right);
    } else {
        assert(line =~= core);
    }
}

/// Spaces, tabs and carriage returns, or nothing.
pub open spec fn only_blanks(s: Seq<char>) -> bool {
    forall|i: int|
        0 <= i < s.len() ==> (#[trigger] s[i] == ' ' || s[i] == '\t' || s[i] == '\r')
}

proof fn lemma_rules_on_two(one: Seq<Seq<char>>, other: Seq<Seq<char>>)
    ensures
        rules_on(one + other) == rules_on(one) + rules_on(other),
    decreases other.len(),
{
    if other.len() == 0 {
        assert(one + other =~= one);
        assert(rules_on(one) + rules_on(other) =~= rules_on(one));
    } else {
        lemma_rules_on_two(one, other.drop_last());
        assert((one + other).drop_last() =~= one + other.drop_last());
        assert(rules_on(one + other) =~= rules_on(one) + rules_on(other));
    }
}

/// The signatures of two texts with a line break between them are those of the
/// one followed by those of the other: no line touches another, and none is lost
/// however many there are.
pub proof fn law_lines_stand_alone(one: Seq<char>, other: Seq<char>)
    ensures
        rules_on(text::pieces(one.push('\n') + other, '\n')) == rules_on(text::pieces(one, '\n'))
            + rules_on(text::pieces(other, '\n')),
{
    text::lemma_pieces_of_two(one, other, '\n');
    lemma_rules_on_two(text::pieces(one, '\n'), text::pieces(other, '\n'));
}

/// A line with a signature on it gives that signature, without the blanks around
/// it and otherwise as it stands; a comment and a line of blanks give nothing.
pub proof fn law_line_gives_its_signature(left: Seq<char>, core: Seq<char>, right: Seq<char>)
    requires
        only_blanks(left),
        only_blanks(right),
        core.len() > 0 ==> !only_blanks(seq![core[0]]) && !only_blanks(seq![core.last()]),
        !core.contains('\n'),
    ensures
        rules_on(text::pieces(left + core + right, '\n')) == (if core.len() == 0 || core[0] == '#' {
            Seq::empty()
        } else {
            seq![core]
        }),
{
    let line = left + core + right;
    if core.len() > 0 {
        if is_blank(core[0]) {
            assert(only_blanks(seq![core[0]]));
        }
        if is_blank(core.last()) {
            assert(only_blanks(seq![core.last()]));
        }
    }
    lemma_stripped_of_parts(left, core, right);
    if line.contains('\n') {
        let at = choose|at: int| 0 <= at < line.len() && line[at] == '\n';
        if at < left.len() {
            assert(left[at] == '\n');
        } else if at < left.len() + core.len() {
            assert(core[at - left.len()] == '\n');
        } else {
            assert(right[at - left.len() - core.len()] == '\n');
        }
    }
    text::lemma_one_piece(line, '\n');
    assert(seq![line].drop_last() =~= Seq::empty());
    assert(rules_on(seq![line].drop_last()) == Seq::<Seq<char>>::empty());
    assert(seq![line].last() == line);
    assert(Seq::<Seq<char>>::empty().push(core) =~= seq![core]);
}

/// No signature is lost: whatever lines come before and after it, a signature on
/// a line of its own is among the signatures of the whole.
pub proof fn law_no_signature_lost(
    before: Seq<char>,
    left: Seq<char>,
    core: Seq<char>,
    right: Seq<char>,
    after: Seq<char>,
)
    requires
        only_blanks(left),
        only_blanks(right),
        core.len() > 0,
        core[0] != '#',
        !only_blanks(seq![core[0]]),
        !only_blanks(seq![core.last()]),
        !core.contains('\n'),
    ensures
        rules_on(
            text::pieces(before.push('\n') + (left + core + right).push('\n') + after, '\n'),
        ) == rules_on(text::pieces(before, '\n')) + seq![core] + rules_on(
            text::pieces(after, '\n'),
        ),
{
    let line = left + core + right;
    law_line_gives_its_signature(left, core, right);
    let first = before.push('\n') + line;
    assert(before.push('\n') + line.push('\n') + after =~= first.push('\n') + after);
    law_lines_stand_alone(first, after);
    law_lines_stand_alone(before, line);
}

} // verus!
