//! What holds of detection as a whole.
use vstd::prelude::*;
use vstd::utf8::*;

use crate::event::{Event, EventView};
use crate::json;
use crate::json::{Json, Number};
use crate::matching;
use crate::poison;
use crate::tagging;
use crate::tagging::Outcome;
use crate::text;
use crate::unicode;

verus! {

/// `hit` is a rule whose needle stands in one of the windows.
pub open spec fn comes_from(
    hit: Seq<char>,
    rules: Seq<Seq<char>>,
    needles: Seq<Seq<char>>,
    head: Option<Seq<char>>,
    tail: Option<Seq<char>>,
) -> bool {
    exists|k: int|
        0 <= k < rules.len() && #[trigger] rules[k] == hit && matching::in_windows(
            needles[k],
            head,
            tail,
        )
}

/// What matches is made of rules: each hit is a rule whose needle stands in a
/// window, there are no more hits than rules, and distinct rules give distinct
/// hits.
pub proof fn law_hits_are_rules(
    rules: Seq<Seq<char>>,
    needles: Seq<Seq<char>>,
    head: Option<Seq<char>>,
    tail: Option<Seq<char>>,
)
    ensures
        matching::selected(rules, needles, head, tail).len() <= rules.len(),
        forall|i: int|
            0 <= i < matching::selected(rules, needles, head, tail).len() ==> comes_from(
                #[trigger] matching::selected(rules, needles, head, tail)[i],
                rules,
                needles,
                head,
                tail,
            ),
        rules.no_duplicates() ==> matching::selected(rules, needles, head, tail).no_duplicates(),
    decreases rules.len(),
{
    if rules.len() > 0 {
        let fewer = rules.drop_last();
        let before = matching::selected(fewer, needles, head, tail);
        let all = matching::selected(rules, needles, head, tail);
        law_hits_are_rules(fewer, needles, head, tail);
        assert forall|i: int| 0 <= i < all.len() implies comes_from(
            #[trigger] all[i],
            rules,
            needles,
            head,
            tail,
        ) by {
            if i < before.len() {
                assert(comes_from(before[i], fewer, needles, head, tail));
                let k = choose|k: int|
                    0 <= k < fewer.len() && #[trigger] fewer[k] == before[i] && matching::in_windows(
                        needles[k],
                        head,
                        tail,
                    );
                assert(rules[k] == all[i]);
            } else {
                assert(rules[rules.len() - 1] == all[i]);
            }
        }
        if rules.no_duplicates() {
            assert(fewer.no_duplicates());
            assert forall|i: int, j: int|
                0 <= i < all.len() && 0 <= j < all.len() && i != j implies all[i] != all[j] by {
                let lo = if i < j { i } else { j };
                let hi = if i < j { j } else { i };
                if hi == before.len() {
                    assert(comes_from(before[lo], fewer, needles, head, tail));
                    let k = choose|k: int|
                        0 <= k < fewer.len() && #[trigger] fewer[k] == before[lo]
                            && matching::in_windows(needles[k], head, tail);
                    assert(rules[k] != rules[rules.len() - 1]);
                }
            }
        }
    }
}

/// Both windows are missing, or they have the same characters but for the case
/// of ASCII letters.
pub open spec fn differ_in_case_only(one: Option<Seq<char>>, other: Option<Seq<char>>) -> bool {
    match (one, other) {
        (Some(a), Some(b)) => {
            &&& a.len() == b.len()
            &&& forall|i: int|
                0 <= i < a.len() ==> unicode::plain_lower_char(#[trigger] a[i])
                    == unicode::plain_lower_char(b[i])
        },
        (None, None) => true,
        _ => false,
    }
}

/// Windows that differ in the case of ASCII letters and in nothing else give the
/// same list of rules. The list is taken in the form in which
/// [`poison::PoisonAnalyzer::scan_windows`] states it: of windows with their
/// ASCII letters lowered.
pub proof fn law_ascii_case_does_not_count(
    rules: Seq<Seq<char>>,
    head: Option<Seq<char>>,
    tail: Option<Seq<char>>,
    other_head: Option<Seq<char>>,
    other_tail: Option<Seq<char>>,
)
    requires
        differ_in_case_only(head, other_head),
        differ_in_case_only(tail, other_tail),
    ensures
        matching::window_hits(rules, matching::plain_window(head), matching::plain_window(tail))
            == matching::window_hits(
            rules,
            matching::plain_window(other_head),
            matching::plain_window(other_tail),
        ),
{
    if let (Some(a), Some(b)) = (head, other_head) {
        assert(unicode::plain_lower(a) =~= unicode::plain_lower(b));
    }
    if let (Some(a), Some(b)) = (tail, other_tail) {
        assert(unicode::plain_lower(a) =~= unicode::plain_lower(b));
    }
}

/// The built-in signatures consist of plain characters, so each of them is found
/// in whatever case a write has it.
pub proof fn law_builtin_rules_plain(k: int)
    requires
        0 <= k < poison::builtin_rules().len(),
    ensures
        unicode::all_plain(poison::builtin_rules()[k]),
        poison::builtin_rules()[k].len() > 0,
{
    reveal_strlit("免验证");
    reveal_strlit("无需验证");
    reveal_strlit("可直接导入");
    reveal_strlit("已通过安全审查");
    reveal_strlit("可信来源");
    reveal_strlit("预批准");
    reveal_strlit("trusted source");
    reveal_strlit("pre-approved");
    reveal_strlit("preapproved");
    reveal_strlit("without validation");
    reveal_strlit("skip validation");
    reveal_strlit("no validation");
    reveal_strlit("bypass validation");
    reveal_strlit("auto import");
    reveal_strlit("import directly");
}

/// No two built-in signatures are the same.
pub proof fn law_builtin_rules_distinct()
    ensures
        poison::builtin_rules().no_duplicates(),
{
    reveal_strlit("免验证");
    reveal_strlit("无需验证");
    reveal_strlit("可直接导入");
    reveal_strlit("已通过安全审查");
    reveal_strlit("可信来源");
    reveal_strlit("预批准");
    reveal_strlit("trusted source");
    reveal_strlit("pre-approved");
    reveal_strlit("preapproved");
    reveal_strlit("without validation");
    reveal_strlit("skip validation");
    reveal_strlit("no validation");
    reveal_strlit("bypass validation");
    reveal_strlit("auto import");
    reveal_strlit("import directly");
    let rules = poison::builtin_rules();
    assert forall|i: int, j: int|
        0 <= i < rules.len() && 0 <= j < rules.len() && i != j implies rules[i] != rules[j] by {
        if rules[i].len() == rules[j].len() {
            assert(rules[i][0] != rules[j][0] || rules[i][1] != rules[j][1]);
        }
    }
}

/// More matches never make a write less severe.
pub proof fn law_severity_grows(fewer: nat, more: nat)
    requires
        fewer <= more,
        tagging::severity_of(fewer) == "CRITICAL"@,
    ensures
        tagging::severity_of(more) == "CRITICAL"@,
{
    reveal_strlit("CRITICAL");
    reveal_strlit("HIGH");
    assert("CRITICAL"@.len() != "HIGH"@.len());
}

/// Tagging sets the field `poison` and leaves everything else of an event alone.
pub proof fn law_tag_leaves_the_rest(event: EventView, matched: Seq<Seq<char>>, key: Seq<char>)
    requires
        key != "poison"@,
    ensures
        tagging::tagged(event, matched).timestamp == event.timestamp,
        tagging::tagged(event, matched).source == event.source,
        tagging::tagged(event, matched).pid == event.pid,
        tagging::tagged(event, matched).comm == event.comm,
        tagging::tagged(event, matched).data.field(key) == event.data.field(key),
{
}

/// An event that went through an analyser and was tagged is decided in the same
/// way, and tagged to the same result, when it goes through once more.
pub proof fn law_second_pass_changes_nothing(
    analyzer: poison::AnalyzerView,
    event: EventView,
    data: Option<Seq<u8>>,
)
    requires
        poison::hits(analyzer, event, data).len() > 0,
    ensures
        ({
            let once = tagging::tagged(event, poison::hits(analyzer, event, data));
            &&& poison::hits(analyzer, once, data) == poison::hits(analyzer, event, data)
            &&& tagging::tagged(once, poison::hits(analyzer, once, data)) == once
        }),
{
    let matched = poison::hits(analyzer, event, data);
    let once = tagging::tagged(event, matched);
    reveal_strlit("poison");
    reveal_strlit("event");
    reveal_strlit("head");
    reveal_strlit("tail");
    reveal_strlit("path");
    reveal_strlit("offset");
    reveal_strlit("count");
    assert("poison"@.len() == 6 && "path"@.len() == 4);
    assert("poison"@[0] == 'p' && "offset"@[0] == 'o');
    assert("poison"@ != "offset"@);
    law_tag_leaves_the_rest(event, matched, "event"@);
    law_tag_leaves_the_rest(event, matched, "head"@);
    law_tag_leaves_the_rest(event, matched, "tail"@);
    law_tag_leaves_the_rest(event, matched, "path"@);
    law_tag_leaves_the_rest(event, matched, "offset"@);
    law_tag_leaves_the_rest(event, matched, "count"@);
    assert(tagging::is_write(event));
    assert(event.data is Object);
    let tag_json = tagging::tag(matched, tagging::file_of(event));
    assert(event.data->Object_0.insert("poison"@, tag_json).insert("poison"@, tag_json)
        =~= event.data->Object_0.insert("poison"@, tag_json));
}

/// An empty prefix watches every path.
pub proof fn law_empty_prefix_watches_all(path: Seq<char>)
    ensures
        poison::path_watched(Seq::empty(), path),
{
    let names = text::pieces(Seq::empty(), ',');
    assert(names[0] =~= Seq::empty());
    assert(path.subrange(0, 0) =~= Seq::empty());
    assert(text::occurs_at(path, names[0], 0));
}

/// A prefix that lists two groups of names, with a comma between them, watches
/// the paths that one group or the other watches.
pub proof fn law_prefix_lists_names(one: Seq<char>, other: Seq<char>, path: Seq<char>)
    ensures
        poison::path_watched(one.push(',') + other, path) == (poison::path_watched(one, path)
            || poison::path_watched(other, path)),
{
    text::lemma_pieces_of_two(one, other, ',');
    let first = text::pieces(one, ',');
    let rest = text::pieces(other, ',');
    let all = text::pieces(one.push(',') + other, ',');
    if poison::path_watched(one.push(',') + other, path) {
        let k = choose|k: int| 0 <= k < all.len() && text::occurs(path, #[trigger] all[k]);
        if k < first.len() {
            assert(first[k] == all[k]);
        } else {
            assert(rest[k - first.len()] == all[k]);
        }
    }
    if poison::path_watched(one, path) {
        let k = choose|k: int| 0 <= k < first.len() && text::occurs(path, #[trigger] first[k]);
        assert(all[k] == first[k]);
    }
    if poison::path_watched(other, path) {
        let k = choose|k: int| 0 <= k < rest.len() && text::occurs(path, #[trigger] rest[k]);
        assert(all[first.len() + k] == rest[k]);
    }
}

/// A name without a comma watches exactly the paths that hold it.
pub proof fn law_single_name_is_looked_for(name: Seq<char>, path: Seq<char>)
    requires
        !name.contains(','),
    ensures
        poison::path_watched(name, path) == text::occurs(path, name),
{
    text::lemma_one_piece(name, ',');
    if text::occurs(path, name) {
        assert(text::pieces(name, ',')[0] == name);
    }
}

/// The written range is all that has to be read: it starts at the offset, is no
/// longer than the bound, and scanned by itself gives what the whole file gives.
pub proof fn law_written_range_suffices(
    rules: Seq<Seq<char>>,
    data: Seq<u8>,
    offset: u64,
    count: u64,
)
    ensures
        poison::written(data, offset, count).len() <= poison::MAX_SCAN,
        poison::written(data, offset, count).len() <= count,
        forall|i: int|
            0 <= i < poison::written(data, offset, count).len() ==> #[trigger] poison::written(
                data,
                offset,
                count,
            )[i] == data[offset + i],
        poison::file_hits(
            rules,
            Some(poison::written(data, offset, count)),
            0,
            poison::written(data, offset, count).len() as u64,
        ) == poison::file_hits(rules, Some(data), offset, count),
{
    let bytes = poison::written(data, offset, count);
    assert(poison::written(bytes, 0, bytes.len() as u64) =~= bytes);
}

/// A file that holds the UTF-8 form of a text, and that was written as a whole,
/// reads as that text: what is found in it is what is found in a window with the
/// same text.
pub proof fn law_file_of_text_reads_as_window(content: Seq<char>)
    requires
        content.len() > 0,
        encode_utf8(content).len() <= poison::MAX_SCAN,
    ensures
        ({
            let bytes = encode_utf8(content);
            &&& poison::is_text_range(bytes, 0, bytes.len() as u64)
            &&& poison::range_text(bytes, 0, bytes.len() as u64) == content
        }),
{
    let bytes = encode_utf8(content);
    encode_utf8_valid_utf8(content);
    encode_utf8_decode_utf8(content);
    assert(poison::written(bytes, 0, bytes.len() as u64) =~= bytes);
    if bytes.len() == 0 {
        assert(decode_utf8(bytes) =~= Seq::empty());
    }
}

// ---------------------------------------------------------------------------
// What is matched
// ---------------------------------------------------------------------------

proof fn lemma_needles_in_front(
    rules: Seq<Seq<char>>,
    needles: Seq<Seq<char>>,
    others: Seq<Seq<char>>,
    head: Option<Seq<char>>,
    tail: Option<Seq<char>>,
)
    requires
        forall|i: int| 0 <= i < rules.len() ==> #[trigger] needles[i] == others[i],
    ensures
        matching::selected(rules, needles, head, tail) == matching::selected(
            rules,
            others,
            head,
            tail,
        ),
    decreases rules.len(),
{
    if rules.len() > 0 {
        lemma_needles_in_front(rules.drop_last(), needles, others, head, tail);
        assert(needles[rules.len() - 1] == others[rules.len() - 1]);
    }
}

proof fn lemma_selected_of_two(
    one: Seq<Seq<char>>,
    other: Seq<Seq<char>>,
    head: Option<Seq<char>>,
    tail: Option<Seq<char>>,
)
    ensures
        matching::selected(one + other, matching::lowered(one + other), head, tail)
            == matching::selected(one, matching::lowered(one), head, tail) + matching::selected(
            other,
            matching::lowered(other),
            head,
            tail,
        ),
    decreases other.len(),
{
    let both = one + other;
    let first = matching::selected(one, matching::lowered(one), head, tail);
    if other.len() == 0 {
        assert(both =~= one);
        assert(first + Seq::<Seq<char>>::empty() =~= first);
    } else {
        let fewer = other.drop_last();
        lemma_selected_of_two(one, fewer, head, tail);
        assert(both.drop_last() =~= one + fewer);
        lemma_needles_in_front(
            one + fewer,
            matching::lowered(both),
            matching::lowered(one + fewer),
            head,
            tail,
        );
        lemma_needles_in_front(
            fewer,
            matching::lowered(other),
            matching::lowered(fewer),
            head,
            tail,
        );
        assert(matching::lowered(both)[both.len() - 1] == matching::lowered(other)[other.len() - 1]);
        assert(matching::selected(both, matching::lowered(both), head, tail) =~= first
            + matching::selected(other, matching::lowered(other), head, tail));
    }
}

proof fn lemma_selected_of_one(
    rule: Seq<char>,
    head: Option<Seq<char>>,
    tail: Option<Seq<char>>,
)
    ensures
        matching::selected(seq![rule], matching::lowered(seq![rule]), head, tail) == (
        if matching::in_windows(unicode::lowercase(rule), head, tail) {
            seq![rule]
        } else {
            Seq::empty()
        }),
{
    assert(seq![rule].drop_last() =~= Seq::empty());
    assert(matching::selected(
        seq![rule].drop_last(),
        matching::lowered(seq![rule]),
        head,
        tail,
    ) =~= Seq::empty());
    assert(matching::lowered(seq![rule])[0] == unicode::lowercase(rule));
    assert(Seq::<Seq<char>>::empty().push(rule) =~= seq![rule]);
}

/// Each rule counts by itself, and the order is kept: the matches of two lists of
/// rules are those of the one followed by those of the other.
pub proof fn law_rules_count_by_themselves(
    one: Seq<Seq<char>>,
    other: Seq<Seq<char>>,
    head: Option<Seq<char>>,
    tail: Option<Seq<char>>,
)
    ensures
        matching::window_hits(Seq::empty(), head, tail).len() == 0,
        matching::window_hits(one + other, head, tail) == matching::window_hits(one, head, tail)
            + matching::window_hits(other, head, tail),
{
    lemma_selected_of_two(
        one,
        other,
        matching::lowered_window(head),
        matching::lowered_window(tail),
    );
}

/// A rule matches exactly where it stands, both lowered, in a window: in the head
/// or in the tail, whichever is there.
pub proof fn law_rule_matches_where_it_stands(
    rule: Seq<char>,
    head: Option<Seq<char>>,
    tail: Option<Seq<char>>,
)
    ensures
        ({
            let in_head = head matches Some(h) && text::occurs(
                unicode::lowercase(h),
                unicode::lowercase(rule),
            );
            let in_tail = tail matches Some(t) && text::occurs(
                unicode::lowercase(t),
                unicode::lowercase(rule),
            );
            matching::window_hits(seq![rule], head, tail) == (if in_head || in_tail {
                seq![rule]
            } else {
                Seq::empty()
            })
        }),
{
    lemma_selected_of_one(rule, matching::lowered_window(head), matching::lowered_window(tail));
}

/// A text shows a word that is a part of it in whatever case: `variant` is the
/// word but for the case of ASCII letters.
pub proof fn law_part_shows(
    before: Seq<char>,
    variant: Seq<char>,
    after: Seq<char>,
    word: Seq<char>,
    other: Option<Seq<char>>,
)
    requires
        unicode::all_plain(variant),
        unicode::all_plain(word),
        differ_in_case_only(Some(variant), Some(word)),
    ensures
        unicode::shows(before + variant + after, word),
        matching::windows_show(Some(before + variant + after), other, word),
        matching::windows_show(other, Some(before + variant + after), word),
{
    let whole = before + variant + after;
    let at = before.len() as int;
    assert(whole.subrange(at, at + variant.len()) =~= variant);
    assert(unicode::plain_lower(variant) =~= unicode::plain_lower(word));
    assert(unicode::same_word(whole.subrange(at, at + variant.len()), word));
}

/// Lowering ASCII letters changes `A` to `Z`, each to its own small letter, and
/// leaves every other character as it is.
pub proof fn law_only_capitals_are_lowered(c: char, n: int)
    requires
        0 <= n < 26,
    ensures
        unicode::plain_lower_char("ABCDEFGHIJKLMNOPQRSTUVWXYZ"@[n])
            == "abcdefghijklmnopqrstuvwxyz"@[n],
        c < 'A' || c > 'Z' ==> unicode::plain_lower_char(c) == c,
{
    reveal_strlit("ABCDEFGHIJKLMNOPQRSTUVWXYZ");
    reveal_strlit("abcdefghijklmnopqrstuvwxyz");
}

/// The signatures that are looked for unless others are given.
pub proof fn law_builtin_rules_are_these()
    ensures
        poison::builtin_rules() == seq![
            "免验证"@,
            "无需验证"@,
            "可直接导入"@,
            "已通过安全审查"@,
            "可信来源"@,
            "预批准"@,
            "trusted source"@,
            "pre-approved"@,
            "preapproved"@,
            "without validation"@,
            "skip validation"@,
            "no validation"@,
            "bypass validation"@,
            "auto import"@,
            "import directly"@,
        ],
{
    assert(poison::builtin_rules() =~= seq![
        "免验证"@,
        "无需验证"@,
        "可直接导入"@,
        "已通过安全审查"@,
        "可信来源"@,
        "预批准"@,
        "trusted source"@,
        "pre-approved"@,
        "preapproved"@,
        "without validation"@,
        "skip validation"@,
        "no validation"@,
        "bypass validation"@,
        "auto import"@,
        "import directly"@,
    ]);
}

// ---------------------------------------------------------------------------
// What is read back
// ---------------------------------------------------------------------------

/// Where the scan of a write of `count` bytes at `offset` ends in a file of `len`
/// bytes: at the end of the write, after 4 MiB, or at the end of the file,
/// whichever comes first.
pub open spec fn scan_end(len: nat, offset: u64, count: u64) -> int {
    let asked = if count <= 4 * 1024 * 1024 {
        offset + count
    } else {
        offset + 4 * 1024 * 1024
    };
    if asked <= len {
        asked
    } else {
        len as int
    }
}

/// The scanned range begins at the offset and leaves no byte out up to its end,
/// so its length is the least of the bytes written, 4 MiB, and what the file holds
/// from the offset on.
pub proof fn law_range_leaves_no_byte_out(data: Seq<u8>, offset: u64, count: u64)
    requires
        offset <= data.len(),
    ensures
        poison::written(data, offset, count).len() <= count,
        poison::written(data, offset, count).len() <= 4 * 1024 * 1024,
        poison::written(data, offset, count).len() <= data.len() - offset,
        poison::written(data, offset, count).len() == count || poison::written(
            data,
            offset,
            count,
        ).len() == 4 * 1024 * 1024 || poison::written(data, offset, count).len() == data.len()
            - offset,
        forall|p: int|
            offset <= p && p < offset + count && p < offset + 4 * 1024 * 1024 && p < data.len()
                ==> p - offset < poison::written(data, offset, count).len() && poison::written(
                data,
                offset,
                count,
            )[p - offset] == #[trigger] data[p],
{
}

/// A rule matches the file exactly where it stands, both lowered, in what is read
/// from the offset to the end of the scan.
pub proof fn law_rule_matches_in_range(rule: Seq<char>, data: Seq<u8>, offset: u64, count: u64)
    ensures
        ({
            let end = scan_end(data.len(), offset, count);
            let found = offset < end && text::occurs(
                unicode::lowercase(unicode::lossy_text(data.subrange(offset as int, end))),
                unicode::lowercase(rule),
            );
            poison::file_hits(seq![rule], Some(data), offset, count) == (if found {
                seq![rule]
            } else {
                Seq::empty()
            })
        }),
        poison::file_hits(seq![rule], None, offset, count).len() == 0,
{
    let end = scan_end(data.len(), offset, count);
    if offset < end {
        assert(poison::written(data, offset, count) =~= data.subrange(offset as int, end));
    } else {
        assert(poison::written(data, offset, count).len() == 0);
    }
    lemma_selected_of_one(
        rule,
        Some(unicode::lowercase(unicode::lossy_text(poison::written(data, offset, count)))),
        None,
    );
}

/// In a file, too, each rule counts by itself, and the order is kept.
pub proof fn law_rules_count_by_themselves_in_range(
    one: Seq<Seq<char>>,
    other: Seq<Seq<char>>,
    data: Option<Seq<u8>>,
    offset: u64,
    count: u64,
)
    ensures
        poison::file_hits(Seq::empty(), data, offset, count).len() == 0,
        poison::file_hits(one + other, data, offset, count) == poison::file_hits(
            one,
            data,
            offset,
            count,
        ) + poison::file_hits(other, data, offset, count),
{
    if let Some(d) = data {
        lemma_selected_of_two(
            one,
            other,
            Some(unicode::lowercase(unicode::lossy_text(poison::written(d, offset, count)))),
            None,
        );
    }
    assert(Seq::<Seq<char>>::empty() + Seq::<Seq<char>>::empty() =~= Seq::<Seq<char>>::empty());
}

/// What stands in a file outside the written range does not count: two files of
/// the same length that agree on the range match the same rules.
pub proof fn law_rest_of_file_does_not_count(
    rules: Seq<Seq<char>>,
    data: Seq<u8>,
    other: Seq<u8>,
    offset: u64,
    count: u64,
)
    requires
        data.len() == other.len(),
        forall|p: int|
            offset <= p < data.len() && p < offset + count ==> #[trigger] data[p] == other[p],
    ensures
        poison::file_hits(rules, Some(data), offset, count) == poison::file_hits(
            rules,
            Some(other),
            offset,
            count,
        ),
{
    assert(poison::written(data, offset, count) =~= poison::written(other, offset, count));
}

/// A word that stands in the file anywhere between the offset and the end of the
/// scan is shown by the file, in whatever case it stands there.
pub proof fn law_word_in_range_shows(
    data: Seq<u8>,
    offset: u64,
    count: u64,
    p: int,
    variant: Seq<char>,
    word: Seq<char>,
)
    requires
        variant.len() > 0,
        unicode::all_plain(variant),
        unicode::all_plain(word),
        differ_in_case_only(Some(variant), Some(word)),
        offset <= p,
        p + encode_utf8(variant).len() <= data.len(),
        p + encode_utf8(variant).len() <= offset + count,
        p + encode_utf8(variant).len() <= offset + 4 * 1024 * 1024,
        data.subrange(p, p + encode_utf8(variant).len()) == encode_utf8(variant),
    ensures
        poison::file_shows(Some(data), offset, count, word),
{
    let bytes = encode_utf8(variant);
    let range = poison::written(data, offset, count);
    encode_utf8_valid_utf8(variant);
    encode_utf8_decode_utf8(variant);
    if bytes.len() == 0 {
        assert(decode_utf8(bytes) =~= Seq::empty());
    }
    let i = p - offset;
    let j = i + bytes.len();
    assert(range.subrange(i, j) =~= data.subrange(p, p + bytes.len()));
    assert(unicode::plain_lower(variant) =~= unicode::plain_lower(word));
    assert(unicode::same_word(decode_utf8(range.subrange(i, j)), word));
}

// ---------------------------------------------------------------------------
// Which events are looked at
// ---------------------------------------------------------------------------

/// The source and the field `event` alone decide whether an event is looked at:
/// an event from `memwrite` with `MEM_WRITE` in that field is, whatever process
/// it is about and whenever it was, and no other event is.
pub proof fn law_source_and_kind_decide(
    analyzer: poison::AnalyzerView,
    event: EventView,
    data: Option<Seq<u8>>,
)
    ensures
        tagging::is_write(event) <==> event.source == "memwrite"@ && event.data.field("event"@)
            == Some(Json::Text("MEM_WRITE"@)),
        event.source == "memwrite"@ && event.data.field("event"@) == Some(Json::Text("MEM_WRITE"@))
            ==> poison::first_hits(analyzer, event) == matching::window_hits(
            analyzer.rules,
            event.data.text_field("head"@),
            event.data.text_field("tail"@),
        ),
        event.source != "memwrite"@ || event.data.field("event"@) != Some(Json::Text("MEM_WRITE"@))
            ==> poison::first_hits(analyzer, event).len() == 0 && poison::hits(
            analyzer,
            event,
            data,
        ).len() == 0 && !poison::needs_read(analyzer, event),
{
}

/// Two events that differ in process and time only match the same rules, and are
/// read back both or not at all.
pub proof fn law_process_and_time_do_not_count(
    analyzer: poison::AnalyzerView,
    event: EventView,
    other: EventView,
    data: Option<Seq<u8>>,
)
    requires
        other.source == event.source,
        other.data == event.data,
    ensures
        poison::first_hits(analyzer, other) == poison::first_hits(analyzer, event),
        poison::needs_read(analyzer, other) == poison::needs_read(analyzer, event),
        poison::hits(analyzer, other, data) == poison::hits(analyzer, event, data),
        tagging::is_write(other) == tagging::is_write(event),
{
}

/// A write whose head or tail matches is reported with what these match. One
/// whose head and tail match nothing is read back where its file, offset and
/// count are known and the path holds a name of the prefix, and is then reported
/// with what the written range matches; else it matches nothing.
pub proof fn law_windows_first_then_file(
    analyzer: poison::AnalyzerView,
    event: EventView,
    data: Option<Seq<u8>>,
    path: Seq<char>,
    offset: u64,
    count: u64,
)
    requires
        event.source == "memwrite"@,
        event.data.field("event"@) == Some(Json::Text("MEM_WRITE"@)),
    ensures
        ({
            let seen = matching::window_hits(
                analyzer.rules,
                event.data.text_field("head"@),
                event.data.text_field("tail"@),
            );
            let located = event.data.field("path"@) == Some(Json::Text(path))
                && event.data.field("offset"@) == Some(Json::Number(Number::Unsigned(offset)))
                && event.data.field("count"@) == Some(Json::Number(Number::Unsigned(count)));
            &&& seen.len() > 0 ==> poison::hits(analyzer, event, data) == seen
                && !poison::needs_read(analyzer, event)
            &&& seen.len() == 0 && located && poison::path_watched(analyzer.prefix, path)
                ==> poison::hits(analyzer, event, data) == poison::file_hits(
                analyzer.rules,
                data,
                offset,
                count,
            ) && poison::needs_read(analyzer, event)
            &&& seen.len() == 0 && located && !poison::path_watched(analyzer.prefix, path)
                ==> poison::hits(analyzer, event, data).len() == 0 && !poison::needs_read(
                analyzer,
                event,
            )
            &&& seen.len() == 0 && (event.data.text_field("path"@) is None
                || event.data.unsigned_field("offset"@) is None || event.data.unsigned_field(
                "count"@,
            ) is None) ==> poison::hits(analyzer, event, data).len() == 0 && !poison::needs_read(
                analyzer,
                event,
            )
        }),
{
}

// ---------------------------------------------------------------------------
// What a detection leaves
// ---------------------------------------------------------------------------

/// One or two matches are severe, three and more are critical.
pub proof fn law_three_matches_are_critical(n: nat)
    ensures
        n >= 3 ==> tagging::severity_of(n) == "CRITICAL"@,
        n < 3 ==> tagging::severity_of(n) == "HIGH"@,
{
}

/// Without a match an event comes out as it went in, and nothing is logged.
pub proof fn law_no_match_changes_nothing(out: Outcome, event: Event)
    requires
        tagging::concluded(out, event, Seq::empty()),
    ensures
        out.event == event,
        out.warning is None,
{
}

/// With a match a write comes out with a tag that lists every match, in order,
/// says how severe the write is and which file it is to, and holds nothing else.
/// The rest of the event is as it was, and a line is logged that names process,
/// file and matches.
pub proof fn law_match_is_tagged_and_logged(
    out: Outcome,
    event: Event,
    matched: Seq<Seq<char>>,
    key: Seq<char>,
)
    requires
        tagging::concluded(out, event, matched),
        matched.len() > 0,
        json::content(event.data) is Object,
    ensures
        out.event.timestamp == event.timestamp,
        out.event.source@ == event.source@,
        out.event.pid == event.pid,
        out.event.comm@ == event.comm@,
        json::content(out.event.data) is Object,
        key != "poison"@ ==> json::content(out.event.data).field(key) == json::content(
            event.data,
        ).field(key),
        json::content(out.event.data).field("poison"@) is Some,
        ({
            let poison = json::content(out.event.data).field("poison"@)->0;
            let path = json::content(event.data).field("path"@);
            &&& poison.field("matched"@) matches Some(Json::List(items))
            &&& items.len() == matched.len()
            &&& forall|i: int|
                0 <= i < matched.len() ==> #[trigger] items[i] == Json::Text(matched[i])
            &&& poison.field("severity"@) == Some(
                Json::Text(
                    if matched.len() >= 3 {
                        "CRITICAL"@
                    } else {
                        "HIGH"@
                    },
                ),
            )
            &&& path matches Some(Json::Text(p)) ==> poison.field("file"@) == Some(Json::Text(p))
            &&& !(path matches Some(Json::Text(_))) ==> poison.field("file"@) == Some(
                Json::Text(Seq::empty()),
            )
            &&& poison.field(key) is Some ==> key == "matched"@ || key == "severity"@ || key
                == "file"@
        }),
        out.warning is Some,
        "[MemGuard] poison write detected: pid="@.is_prefix_of(out.warning->0@),
        ({
            let file = match json::content(event.data).text_field("path"@) {
                Some(path) => path,
                None => Seq::empty(),
            };
            out.warning->0@.skip("[MemGuard] poison write detected: pid="@.len() as int)
                == text::decimal(event.pid as nat) + " comm="@ + event.comm@ + " file="@ + file
                + " signatures="@ + text::joined(matched, seq![','])
        }),
{
    reveal_strlit("matched");
    reveal_strlit("severity");
    reveal_strlit("file");
    reveal_strlit("");
    reveal_strlit(",");
    assert("matched"@.len() == 7 && "severity"@.len() == 8 && "file"@.len() == 4);
    assert(""@ =~= Seq::empty());
    assert(","@ =~= seq![',']);
    let lead = "[MemGuard] poison write detected: pid="@;
    let line = out.warning->0@;
    let rest = text::decimal(event.pid as nat) + " comm="@ + event.comm@ + " file="@
        + tagging::file_of(event@) + " signatures="@ + text::joined(matched, ","@);
    assert(line =~= lead + rest);
    assert(line.subrange(0, lead.len() as int) =~= lead);
    assert(line.skip(lead.len() as int) =~= rest);
}

/// The signatures that a tagged event reports are the texts in the list `matched`
/// of its field `poison`, and an event without the field reports none.
pub proof fn law_report_is_what_the_tag_lists(event: EventView)
    ensures
        event.data.field("poison"@) is None ==> tagging::reported(event).len() == 0,
        event.data.field("poison"@) matches Some(poison) ==> (poison.field("matched"@) matches Some(
            Json::List(items),
        ) ==> tagging::reported(event) == json::texts_in(items)),
{
}

} // verus!
