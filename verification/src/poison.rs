//! Detection of writes that carry memory-poisoning signatures.
//!
//! A write is looked at in two layers. First the head and the tail of what was
//! written, as the probe captured them. Where these show nothing, the written
//! range of the file is read back and scanned in full: a database writes whole
//! pages, and the text in question may stand in the middle of one.
use vstd::prelude::*;
use vstd::slice::slice_subrange;
use vstd::utf8::*;

use crate::event::{Event, EventView};
use crate::json;
use crate::matching;
use crate::tagging;
use crate::tagging::Outcome;
use crate::text;
use crate::unicode;

verus! {

/// The signatures that are looked for unless others are given. They are lowered
/// when they are matched, so the case of ASCII letters does not matter.
pub const POISON_SIGNATURES: [&'static str; 15] = [
    "免验证",
    "无需验证",
    "可直接导入",
    "已通过安全审查",
    "可信来源",
    "预批准",
    "trusted source",
    "pre-approved",
    "preapproved",
    "without validation",
    "skip validation",
    "no validation",
    "bypass validation",
    "auto import",
    "import directly",
];

/// At most this many bytes of a written range are scanned.
pub const MAX_SCAN: u64 = 4194304;

/// The built-in signatures as texts.
pub open spec fn builtin_rules() -> Seq<Seq<char>> {
    Seq::new(15, |i: int| POISON_SIGNATURES@[i]@)
}

/// The bytes that a write of `count` bytes at `offset` left in a file that now
/// holds `data`: at most [`MAX_SCAN`] of them, and none beyond the end.
pub open spec fn written(data: Seq<u8>, offset: u64, count: u64) -> Seq<u8> {
    let len = data.len() as int;
    let start = if offset <= len { offset as int } else { len };
    let bounded = if count <= MAX_SCAN { count as int } else { MAX_SCAN as int };
    let end = if offset + bounded <= len { offset + bounded } else { len };
    data.subrange(start, end)
}

/// The rules that the written range matches; an empty range matches none.
pub open spec fn range_hits(rules: Seq<Seq<char>>, data: Seq<u8>, offset: u64, count: u64) -> Seq<
    Seq<char>,
> {
    let bytes = written(data, offset, count);
    if bytes.len() == 0 {
        Seq::empty()
    } else {
        matching::selected(
            rules,
            matching::lowered(rules),
            Some(unicode::lowercase(unicode::lossy_text(bytes))),
            None,
        )
    }
}

/// The rules that the written range of a file matches; a file that could not be
/// read matches none.
pub open spec fn file_hits(
    rules: Seq<Seq<char>>,
    data: Option<Seq<u8>>,
    offset: u64,
    count: u64,
) -> Seq<Seq<char>> {
    match data {
        Some(d) => range_hits(rules, d, offset, count),
        None => Seq::empty(),
    }
}

/// The written range of the file shows `word`, in whatever case.
pub open spec fn file_shows(
    data: Option<Seq<u8>>,
    offset: u64,
    count: u64,
    word: Seq<char>,
) -> bool {
    data matches Some(d) && written(d, offset, count).len() > 0 && unicode::bytes_show(
        written(d, offset, count),
        word,
    )
}

/// From `p` up to `q` the file holds the UTF-8 form of `word`, in whatever case.
pub open spec fn stands_at(data: Seq<u8>, p: int, q: int, word: Seq<char>) -> bool {
    &&& valid_utf8(data.subrange(p, q))
    &&& unicode::same_word(decode_utf8(data.subrange(p, q)), word)
}

/// What stands in the file between the offset and the end of the written range is
/// shown by it.
proof fn lemma_stands_in_range(
    data: Seq<u8>,
    offset: u64,
    count: u64,
    p: int,
    q: int,
    word: Seq<char>,
)
    requires
        offset <= p < q <= data.len(),
        q <= offset + count,
        q <= offset + 4 * 1024 * 1024,
        stands_at(data, p, q, word),
    ensures
        file_shows(Some(data), offset, count, word),
{
    let range = written(data, offset, count);
    assert(range.subrange(p - offset, q - offset) =~= data.subrange(p, q));
}

/// The written range is not empty and is the UTF-8 form of a text.
pub open spec fn is_text_range(data: Seq<u8>, offset: u64, count: u64) -> bool {
    written(data, offset, count).len() > 0 && valid_utf8(written(data, offset, count))
}

/// The text of a written range that is the UTF-8 form of one.
pub open spec fn range_text(data: Seq<u8>, offset: u64, count: u64) -> Seq<char> {
    decode_utf8(written(data, offset, count))
}

/// The written range is not empty and is the UTF-8 form of plain characters.
pub open spec fn is_plain_range(data: Seq<u8>, offset: u64, count: u64) -> bool {
    is_text_range(data, offset, count) && unicode::all_plain(range_text(data, offset, count))
}

/// How many bytes of a write of `count` bytes are scanned, and so how many have
/// to be read from its offset on.
pub fn read_len(count: u64) -> (r: u64)
    ensures
        r == (if count <= MAX_SCAN {
            count
        } else {
            MAX_SCAN
        }),
        r <= count && r <= 4 * 1024 * 1024,
        r == count || r == 4 * 1024 * 1024,
{
    if count < MAX_SCAN {
        count
    } else {
        MAX_SCAN
    }
}

/// A run of bytes by what it holds, if it is there.
pub open spec fn bytes_view(data: Option<&[u8]>) -> Option<Seq<u8>> {
    match data {
        Some(data) => Some(data@),
        None => None,
    }
}

/// Looks for poison signatures in writes to memory stores.
pub struct PoisonAnalyzer {
    prefix: String,
    rules: Vec<String>,
}

/// An analyser by what it holds.
pub struct AnalyzerView {
    /// The names, separated by commas, of which a file's path has to hold one
    /// for the file to be read back.
    pub prefix: Seq<char>,
    /// The signatures that are looked for.
    pub rules: Seq<Seq<char>>,
}

impl View for PoisonAnalyzer {
    type V = AnalyzerView;

    closed spec fn view(&self) -> AnalyzerView {
        AnalyzerView { prefix: self.prefix@, rules: text::views(self.rules@) }
    }
}

/// The path holds one of the comma-separated names of the prefix.
pub open spec fn path_watched(prefix: Seq<char>, path: Seq<char>) -> bool {
    exists|k: int|
        0 <= k < text::pieces(prefix, ',').len() && text::occurs(
            path,
            #[trigger] text::pieces(prefix, ',')[k],
        )
}

/// The rules that the captured head and tail of a write match; an event of
/// another kind matches none.
pub open spec fn first_hits(analyzer: AnalyzerView, event: EventView) -> Seq<Seq<char>> {
    if tagging::is_write(event) {
        matching::window_hits(
            analyzer.rules,
            event.data.text_field("head"@),
            event.data.text_field("tail"@),
        )
    } else {
        Seq::empty()
    }
}

/// The head and the tail of the write match nothing, its file and range are
/// known, and the file is one to read back.
pub open spec fn needs_read(analyzer: AnalyzerView, event: EventView) -> bool {
    &&& tagging::is_write(event)
    &&& first_hits(analyzer, event).len() == 0
    &&& event.data.text_field("path"@) matches Some(path)
    &&& event.data.unsigned_field("offset"@) is Some
    &&& event.data.unsigned_field("count"@) is Some
    &&& path_watched(analyzer.prefix, path)
}

/// All the rules that an event matches, given what its file holds: those of the
/// head and the tail or, where these match none and the file is to be read back,
/// those of the written range.
pub open spec fn hits(
    analyzer: AnalyzerView,
    event: EventView,
    data: Option<Seq<u8>>,
) -> Seq<Seq<char>> {
    if needs_read(analyzer, event) {
        file_hits(
            analyzer.rules,
            data,
            event.data.unsigned_field("offset"@)->0,
            event.data.unsigned_field("count"@)->0,
        )
    } else {
        first_hits(analyzer, event)
    }
}

/// The event reports a write whose head or tail shows `word`, in whatever case.
pub open spec fn capture_shows(event: EventView, word: Seq<char>) -> bool {
    tagging::is_write(event) && matching::windows_show(
        event.data.text_field("head"@),
        event.data.text_field("tail"@),
        word,
    )
}

/// The event reports a write that shows `word`: in its head or its tail, or in
/// the written range of a watched file.
pub open spec fn write_shows(
    analyzer: AnalyzerView,
    event: EventView,
    data: Option<Seq<u8>>,
    word: Seq<char>,
) -> bool {
    ||| capture_shows(event, word)
    ||| {
        &&& tagging::is_write(event)
        &&& event.data.text_field("path"@) matches Some(path)
        &&& path_watched(analyzer.prefix, path)
        &&& event.data.unsigned_field("offset"@) matches Some(offset)
        &&& event.data.unsigned_field("count"@) matches Some(count)
        &&& file_shows(data, offset, count, word)
    }
}

/// How far an event has come.
#[derive(Debug)]
pub enum Progress {
    Done(Outcome),
    /// `count` bytes at `offset` of the file at `path` have to be looked at.
    ReadBack { event: Event, path: String, offset: u64, count: u64 },
}

impl PoisonAnalyzer {
    /// An analyser for the given prefix with the built-in signatures.
    pub fn new(prefix: &str) -> (r: Self)
        ensures
            r@.prefix == prefix@,
            r@.rules == builtin_rules(),
    {
        let mut rules: Vec<String> = Vec::new();
        let mut i: usize = 0;
        while i < 15
            invariant
                i <= 15,
                rules@.len() == i,
                forall|k: int| 0 <= k < i ==> #[trigger] rules@[k]@ == POISON_SIGNATURES@[k]@,
            decreases 15 - i,
        {
            rules.push(POISON_SIGNATURES[i].to_string());
            i = i + 1;
        }
        assert(text::views(rules@) =~= builtin_rules());
        PoisonAnalyzer { prefix: prefix.to_string(), rules }
    }

    /// Looks for `rules` in place of the built-in signatures; an empty list
    /// stands for the built-in ones.
    pub fn with_rules(self, rules: Vec<String>) -> (r: Self)
        ensures
            r@.prefix == self@.prefix,
            r@.rules == (if rules@.len() == 0 {
                builtin_rules()
            } else {
                text::views(rules@)
            }),
    {
        if rules.len() == 0 {
            PoisonAnalyzer::new(self.prefix.as_str())
        } else {
            PoisonAnalyzer { prefix: self.prefix, rules }
        }
    }

    /// The rules that the captured head and tail of a write match.
    ///
    /// The case of ASCII letters does not matter: the windows count only with
    /// these lowered, so windows that differ in nothing else give the same list.
    /// A rule of plain characters is found in whatever case a window has it.
    pub fn scan_windows(&self, head: Option<&str>, tail: Option<&str>) -> (r: Vec<String>)
        ensures
            text::views(r@) == matching::window_hits(
                self@.rules,
                matching::str_view(head),
                matching::str_view(tail),
            ),
            text::views(r@) == matching::window_hits(
                self@.rules,
                matching::plain_window(matching::str_view(head)),
                matching::plain_window(matching::str_view(tail)),
            ),
            matching::is_plain_window(matching::str_view(head)) && matching::is_plain_window(
                matching::str_view(tail),
            ) ==> text::views(r@) == matching::selected(
                self@.rules,
                matching::lowered(self@.rules),
                matching::plain_window(matching::str_view(head)),
                matching::plain_window(matching::str_view(tail)),
            ),
            forall|k: int|
                0 <= k < self@.rules.len() && matching::windows_show(
                    matching::str_view(head),
                    matching::str_view(tail),
                    #[trigger] self@.rules[k],
                ) ==> text::views(r@).contains(self@.rules[k]),
    {
        let needles = matching::lower_all(&self.rules);
        let low_head = match head {
            Some(h) => Some(matching::lower_chars(h)),
            None => None,
        };
        let low_tail = match tail {
            Some(t) => Some(matching::lower_chars(t)),
            None => None,
        };
        let out = matching::select_rules(
            &self.rules,
            &needles,
            low_head.as_ref(),
            low_tail.as_ref(),
        );
        proof {
            let rules = self@.rules;
            let h = matching::lowered_window(matching::str_view(head));
            let t = matching::lowered_window(matching::str_view(tail));
            assert forall|k: int|
                0 <= k < rules.len() && matching::windows_show(
                    matching::str_view(head),
                    matching::str_view(tail),
                    #[trigger] rules[k],
                ) implies text::views(out@).contains(rules[k]) by {
                assert(unicode::all_plain(self.rules@[k]@));
                assert(matching::lowered(rules)[k] == unicode::plain_lower(rules[k]));
                matching::lemma_selected_contains(rules, matching::lowered(rules), h, t, k);
            }
        }
        out
    }

    /// The rules that the written range of a file matches, given what the file
    /// holds; `None` stands for a file that could not be read.
    ///
    /// A rule of plain characters is found wherever in the range its bytes
    /// stand, in whatever case, and whatever bytes are around them: the range
    /// goes from the offset on for `count` bytes, but for no more than 4 MiB and
    /// not beyond the end of the file. A range that is UTF-8 gives the list that a window with its text gives, so the case of
    /// ASCII letters in it does not matter.
    pub fn scan_file_range(&self, data: Option<&[u8]>, offset: u64, count: u64) -> (r: Vec<String>)
        ensures
            text::views(r@) == file_hits(self@.rules, bytes_view(data), offset, count),
            data matches Some(d) ==> (is_text_range(d@, offset, count) ==> {
                &&& text::views(r@) == matching::window_hits(
                    self@.rules,
                    Some(range_text(d@, offset, count)),
                    None,
                )
                &&& text::views(r@) == matching::window_hits(
                    self@.rules,
                    Some(unicode::plain_lower(range_text(d@, offset, count))),
                    None,
                )
            }),
            data matches Some(d) ==> (is_plain_range(d@, offset, count) ==> text::views(r@)
                == matching::selected(
                self@.rules,
                matching::lowered(self@.rules),
                Some(unicode::plain_lower(range_text(d@, offset, count))),
                None,
            )),
            forall|k: int|
                0 <= k < self@.rules.len() && file_shows(
                    bytes_view(data),
                    offset,
                    count,
                    #[trigger] self@.rules[k],
                ) ==> text::views(r@).contains(self@.rules[k]),
            data matches Some(d) ==> forall|p: int, q: int, k: int|
                offset <= p < q <= d@.len() && q <= offset + count && q <= offset + 4 * 1024 * 1024
                    && 0 <= k < self@.rules.len() && #[trigger] stands_at(d@, p, q, self@.rules[k])
                    ==> text::views(r@).contains(self@.rules[k]),
    {
        let data = match data {
            Some(data) => data,
            None => {
                let none: Vec<String> = Vec::new();
                assert(text::views(none@) =~= Seq::empty());
                return none;
            },
        };
        let len: u64 = data.len() as u64;
        let start: usize = (if offset < len { offset } else { len }) as usize;
        let bounded: u64 = read_len(count);
        let wanted: u64 = offset.saturating_add(bounded);
        let end: usize = (if wanted < len { wanted } else { len }) as usize;
        if start >= end {
            let none: Vec<String> = Vec::new();
            assert(text::views(none@) =~= Seq::empty());
            return none;
        }
        let bytes = slice_subrange(data, start, end);
        assert(bytes@ == written(data@, offset, count));
        let chunk = unicode::read_lossy(bytes);
        let low = matching::lower_chars(chunk.as_str());
        let needles = matching::lower_all(&self.rules);
        let out = matching::select_rules(&self.rules, &needles, Some(&low), None);
        proof {
            let rules = self@.rules;
            assert forall|k: int|
                0 <= k < rules.len() && unicode::bytes_show(bytes@, #[trigger] rules[k]) implies
                text::views(out@).contains(rules[k]) by {
                let (i, j) = choose|i: int, j: int|
                    0 <= i <= j <= bytes@.len() && valid_utf8(#[trigger] bytes@.subrange(i, j))
                        && unicode::same_word(decode_utf8(bytes@.subrange(i, j)), rules[k]);
                let word = decode_utf8(bytes@.subrange(i, j));
                let at = choose|at: int| text::occurs_at(chunk@, word, at);
                assert(unicode::same_word(chunk@.subrange(at, at + word.len()), rules[k]));
                assert(unicode::shows(chunk@, rules[k]));
                assert(unicode::all_plain(self.rules@[k]@));
                assert(matching::lowered(rules)[k] == unicode::plain_lower(rules[k]));
                matching::lemma_selected_contains(
                    rules,
                    matching::lowered(rules),
                    Some(low@),
                    None,
                    k,
                );
            }
            assert forall|p: int, q: int, k: int|
                offset <= p < q <= data@.len() && q <= offset + count && q <= offset + 4 * 1024
                    * 1024 && 0 <= k < rules.len() && #[trigger] stands_at(
                    data@,
                    p,
                    q,
                    rules[k],
                ) implies text::views(out@).contains(rules[k]) by {
                lemma_stands_in_range(data@, offset, count, p, q, rules[k]);
            }
        }
        out
    }

    /// How severe a write is on which `matched` match.
    pub fn severity(matched: &[String]) -> (r: &'static str)
        ensures
            r@ == tagging::severity_of(matched@.len()),
    {
        if matched.len() >= tagging::CRITICAL_SEVERITY_THRESHOLD {
            "CRITICAL"
        } else {
            "HIGH"
        }
    }

    /// Whether the file at `path` is one to read back: its path holds one of the
    /// names in the prefix. An empty prefix takes every file.
    pub fn watches(&self, path: &str) -> (r: bool)
        ensures
            r == path_watched(self@.prefix, path@),
    {
        let place = text::chars_of(path);
        let prefix = text::chars_of(self.prefix.as_str());
        let names = text::split(&prefix, ',');
        let mut i: usize = 0;
        while i < names.len()
            invariant
                i <= names@.len(),
                place@ == path@,
                prefix@ == self@.prefix,
                names@.len() == text::pieces(prefix@, ',').len(),
                forall|k: int|
                    0 <= k < names@.len() ==> #[trigger] names@[k]@ == text::pieces(prefix@, ',')[k],
                forall|k: int| 0 <= k < i ==> !text::occurs(place@, #[trigger] names@[k]@),
            decreases names@.len() - i,
        {
            if text::contains(&place, &names[i]) {
                assert(text::occurs(place@, text::pieces(prefix@, ',')[i as int]));
                return true;
            }
            i = i + 1;
        }
        assert forall|k: int| 0 <= k < text::pieces(prefix@, ',').len() implies !text::occurs(
            place@,
            #[trigger] text::pieces(prefix@, ',')[k],
        ) by {
            assert(names@[k]@ == text::pieces(prefix@, ',')[k]);
        }
        false
    }

    /// Looks at one event. A write whose head or tail matches comes out tagged,
    /// one that has to be read back comes out with what to read, and any other
    /// event comes out as it went in. The case of ASCII letters in the head and
    /// the tail does not matter.
    pub fn process(&self, event: Event) -> (r: Progress)
        ensures
            match r {
                Progress::Done(out) => {
                    &&& !needs_read(self@, event@)
                    &&& tagging::concluded(out, event, first_hits(self@, event@))
                },
                Progress::ReadBack { event: held, path, offset, count } => {
                    &&& needs_read(self@, event@)
                    &&& held == event
                    &&& event@.data.text_field("path"@) == Some(path@)
                    &&& event@.data.unsigned_field("offset"@) == Some(offset)
                    &&& event@.data.unsigned_field("count"@) == Some(count)
                },
            },
            tagging::is_write(event@) ==> first_hits(self@, event@) == matching::window_hits(
                self@.rules,
                matching::plain_window(event@.data.text_field("head"@)),
                matching::plain_window(event@.data.text_field("tail"@)),
            ),
            forall|k: int|
                0 <= k < self@.rules.len() && capture_shows(event@, #[trigger] self@.rules[k]) ==> {
                    &&& first_hits(self@, event@).contains(self@.rules[k])
                    &&& r matches Progress::Done(out)
                    &&& tagging::reported(out.event@).contains(self@.rules[k])
                },
            event.source@ == "memwrite"@ && json::content(event.data).text_field("event"@) == Some(
                "MEM_WRITE"@,
            ) ==> forall|k: int|
                0 <= k < self@.rules.len() && matching::windows_show(
                    json::content(event.data).text_field("head"@),
                    json::content(event.data).text_field("tail"@),
                    #[trigger] self@.rules[k],
                ) ==> {
                    &&& r matches Progress::Done(out)
                    &&& out.warning is Some
                    &&& tagging::reported(out.event@).contains(self@.rules[k])
                },
            event.source@ != "memwrite"@ || json::content(event.data).text_field("event"@) != Some(
                "MEM_WRITE"@,
            ) ==> {
                &&& r matches Progress::Done(out)
                &&& out.event == event
                &&& out.warning is None
            },
    {
        if !tagging::is_memory_write(&event) {
            return Progress::Done(Outcome { event, warning: None });
        }
        let head = json::get_text(&event.data, "head");
        let tail = json::get_text(&event.data, "tail");
        let matched = self.scan_windows(head, tail);
        if matched.len() == 0 {
            let path = json::get_text(&event.data, "path");
            let offset = json::get_unsigned(&event.data, "offset");
            let count = json::get_unsigned(&event.data, "count");
            if let (Some(path), Some(offset), Some(count)) = (path, offset, count) {
                if self.watches(path) {
                    let path = path.to_string();
                    return Progress::ReadBack { event, path, offset, count };
                }
            }
        }
        Progress::Done(tagging::conclude(event, matched))
    }

    /// Carries on with an event that [`PoisonAnalyzer::process`] asked to read
    /// back, given what the file holds; `None` stands for a file that could not
    /// be read. A range that is UTF-8 counts as a window with its text does.
    pub fn resume(&self, event: Event, data: Option<&[u8]>, offset: u64, count: u64) -> (r: Outcome)
        ensures
            tagging::concluded(r, event, file_hits(self@.rules, bytes_view(data), offset, count)),
            data matches Some(d) ==> (is_text_range(d@, offset, count) ==> tagging::concluded(
                r,
                event,
                matching::window_hits(self@.rules, Some(range_text(d@, offset, count)), None),
            )),
            forall|k: int|
                0 <= k < self@.rules.len() && tagging::is_write(event@) && file_shows(
                    bytes_view(data),
                    offset,
                    count,
                    #[trigger] self@.rules[k],
                ) ==> r.warning is Some && tagging::reported(r.event@).contains(self@.rules[k]),
            tagging::is_write(event@) ==> (data matches Some(d) ==> forall|p: int, q: int, k: int|
                offset <= p < q <= d@.len() && q <= offset + count && q <= offset + 4 * 1024 * 1024
                    && 0 <= k < self@.rules.len() && #[trigger] stands_at(d@, p, q, self@.rules[k])
                    ==> r.warning is Some && tagging::reported(r.event@).contains(self@.rules[k])),
    {
        let matched = self.scan_file_range(data, offset, count);
        tagging::conclude(event, matched)
    }

    /// Looks at one event from first to last, given what its file holds: `data`
    /// is used only where the event has to be read back.
    ///
    /// No write gets through whose head or tail shows a rule, or which is to a
    /// watched file whose written range shows one.
    pub fn analyze(&self, event: Event, data: Option<&[u8]>) -> (r: Outcome)
        ensures
            tagging::concluded(r, event, hits(self@, event@, bytes_view(data))),
            forall|k: int|
                0 <= k < self@.rules.len() && write_shows(
                    self@,
                    event@,
                    bytes_view(data),
                    #[trigger] self@.rules[k],
                ) ==> tagging::reported(r.event@).len() > 0 && r.warning is Some,
            event.source@ == "memwrite"@ && json::content(event.data).text_field("event"@) == Some(
                "MEM_WRITE"@,
            ) ==> forall|k: int|
                0 <= k < self@.rules.len() && matching::windows_show(
                    json::content(event.data).text_field("head"@),
                    json::content(event.data).text_field("tail"@),
                    #[trigger] self@.rules[k],
                ) ==> r.warning is Some && tagging::reported(r.event@).contains(self@.rules[k]),
            event.source@ == "memwrite"@ && json::content(event.data).text_field("event"@) == Some(
                "MEM_WRITE"@,
            ) ==> (json::content(event.data).text_field("path"@) matches Some(path)
                ==> (json::content(event.data).unsigned_field("offset"@) matches Some(offset)
                ==> (json::content(event.data).unsigned_field("count"@) matches Some(count)
                ==> (data matches Some(d) ==> forall|p: int, q: int, k: int|
                path_watched(self@.prefix, path) && offset <= p < q <= d@.len() && q <= offset
                    + count && q <= offset + 4 * 1024 * 1024 && 0 <= k < self@.rules.len()
                    && #[trigger] stands_at(d@, p, q, self@.rules[k]) ==> r.warning is Some
                    && tagging::reported(r.event@).len() > 0)))),
            event.source@ != "memwrite"@ || json::content(event.data).text_field("event"@) != Some(
                "MEM_WRITE"@,
            ) ==> r.event == event && r.warning is None,
    {
        proof {
            if tagging::is_write(event@) {
                tagging::law_tag_reports(event@, first_hits(self@, event@));
            }
        }
        let out = match self.process(event) {
            Progress::Done(out) => out,
            Progress::ReadBack { event, path: _, offset, count } => {
                self.resume(event, data, offset, count)
            },
        };
        proof {
            assert forall|k: int|
                0 <= k < self@.rules.len() && write_shows(
                    self@,
                    event@,
                    bytes_view(data),
                    #[trigger] self@.rules[k],
                ) implies tagging::reported(out.event@).len() > 0 && out.warning is Some by {
                if capture_shows(event@, self@.rules[k]) {
                    assert(first_hits(self@, event@).contains(self@.rules[k]));
                }
            }
            if let Some(d) = data {
                let offset = event@.data.unsigned_field("offset"@)->0;
                let count = event@.data.unsigned_field("count"@)->0;
                assert forall|p: int, q: int, k: int|
                    offset <= p < q <= d@.len() && q <= offset + count && q <= offset + 4 * 1024
                        * 1024 && 0 <= k < self@.rules.len() && #[trigger] stands_at(
                        d@,
                        p,
                        q,
                        self@.rules[k],
                    ) implies file_shows(Some(d@), offset, count, self@.rules[k]) by {
                    lemma_stands_in_range(d@, offset, count, p, q, self@.rules[k]);
                }
            }
        }
        out
    }
}

} // verus!
