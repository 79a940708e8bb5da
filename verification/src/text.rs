//! Text as sequences of characters: searching, splitting, joining, trimming, and
//! decimal notation.
use vstd::prelude::*;

verus! {

// ---------------------------------------------------------------------------
// What the operations mean
// ---------------------------------------------------------------------------

/// `needle` stands in `text` at position `i`.
pub open spec fn occurs_at(text: Seq<char>, needle: Seq<char>, i: int) -> bool {
    &&& 0 <= i
    &&& i + needle.len() <= text.len()
    &&& text.subrange(i, i + needle.len()) == needle
}

/// `needle` stands somewhere in `text`.
pub open spec fn occurs(text: Seq<char>, needle: Seq<char>) -> bool {
    exists|i: int| occurs_at(text, needle, i)
}

/// The views of a sequence of strings.
pub open spec fn views(strings: Seq<String>) -> Seq<Seq<char>> {
    Seq::new(strings.len(), |i: int| strings[i]@)
}

/// `parts` one after the other, with `sep` between neighbours.
pub open spec fn joined(parts: Seq<Seq<char>>, sep: Seq<char>) -> Seq<char>
    decreases parts.len(),
{
    if parts.len() == 0 {
        Seq::empty()
    } else if parts.len() == 1 {
        parts[0]
    } else {
        joined(parts.drop_last(), sep) + sep + parts.last()
    }
}

/// The stretches of `text` between the occurrences of `sep`, from the first to
/// the last; a text without `sep` is one stretch.
pub open spec fn pieces(text: Seq<char>, sep: char) -> Seq<Seq<char>>
    decreases text.len(),
{
    if text.len() == 0 {
        seq![Seq::empty()]
    } else {
        let before = pieces(text.drop_last(), sep);
        if text.last() == sep {
            before.push(Seq::empty())
        } else {
            before.drop_last().push(before.last().push(text.last()))
        }
    }
}

/// `text` without the run of `c` at its end.
pub open spec fn without_trailing(text: Seq<char>, c: char) -> Seq<char>
    decreases text.len(),
{
    if text.len() > 0 && text.last() == c {
        without_trailing(text.drop_last(), c)
    } else {
        text
    }
}

/// The decimal digit for `d`.
pub open spec fn digit(d: int) -> char {
    (('0' as int) + d) as char
}

/// `n` in decimal notation, without leading zeros.
pub open spec fn decimal(n: nat) -> Seq<char>
    decreases n,
{
    if n < 10 {
        seq![digit(n as int)]
    } else {
        decimal(n / 10).push(digit((n % 10) as int))
    }
}

// ---------------------------------------------------------------------------
// What holds of them
// ---------------------------------------------------------------------------

/// The pieces of two texts with a separator between them are the pieces of the
/// one followed by those of the other.
pub proof fn lemma_pieces_of_two(a: Seq<char>, b: Seq<char>, sep: char)
    ensures
        pieces(a.push(sep) + b, sep) == pieces(a, sep) + pieces(b, sep),
        pieces(b, sep).len() > 0,
    decreases b.len(),
{
    let whole = a.push(sep) + b;
    if b.len() == 0 {
        assert(whole =~= a.push(sep));
        assert(a.push(sep).drop_last() =~= a);
        assert(pieces(a, sep).push(Seq::empty()) =~= pieces(a, sep) + pieces(
            b,
            sep,
        ));
    } else {
        lemma_pieces_of_two(a, b.drop_last(), sep);
        assert(whole.drop_last() =~= a.push(sep) + b.drop_last());
        assert(whole.last() == b.last());
        let first = pieces(a, sep);
        let rest = pieces(b.drop_last(), sep);
        assert((first + rest).last() == rest.last());
        assert(pieces(whole, sep) =~= first + pieces(b, sep));
    }
}

/// A text without the separator is one piece.
pub proof fn lemma_one_piece(s: Seq<char>, sep: char)
    requires
        !s.contains(sep),
    ensures
        pieces(s, sep) == seq![s],
    decreases s.len(),
{
    if s.len() > 0 {
        assert forall|i: int| 0 <= i < s.len() - 1 implies s.drop_last()[i] != sep by {
            assert(s.contains(s[i]));
        }
        assert(s.contains(s.last()));
        lemma_one_piece(s.drop_last(), sep);
        assert(s.drop_last().push(s.last()) =~= s);
        assert(pieces(s, sep) =~= seq![s]);
    } else {
        assert(s =~= Seq::empty());
    }
}

/// Cutting at the separator gives back what was joined with it, as long as no
/// part holds it and there is a part.
pub proof fn law_split_undoes_join(parts: Seq<Seq<char>>, sep: char)
    requires
        parts.len() > 0,
        forall|i: int| 0 <= i < parts.len() ==> !(#[trigger] parts[i]).contains(sep),
    ensures
        pieces(joined(parts, seq![sep]), sep) == parts,
    decreases parts.len(),
{
    if parts.len() == 1 {
        lemma_one_piece(parts[0], sep);
        assert(seq![parts[0]] =~= parts);
    } else {
        let fewer = parts.drop_last();
        assert forall|i: int| 0 <= i < fewer.len() implies !(#[trigger] fewer[i]).contains(sep) by {
            assert(fewer[i] == parts[i]);
        }
        law_split_undoes_join(fewer, sep);
        assert(!parts[parts.len() - 1].contains(sep));
        lemma_one_piece(parts.last(), sep);
        lemma_pieces_of_two(joined(fewer, seq![sep]), parts.last(), sep);
        assert(joined(fewer, seq![sep]) + seq![sep] + parts.last() =~= joined(
            fewer,
            seq![sep],
        ).push(sep) + parts.last());
        assert(fewer + seq![parts.last()] =~= parts);
    }
}

// ---------------------------------------------------------------------------
// Executable counterparts
// ---------------------------------------------------------------------------

/// `String::push` appends the given character and leaves the rest as it was.
pub assume_specification[ String::push ](s: &mut String, c: char)
    ensures
        final(s)@ == old(s)@.push(c),
;

/// `String::from` copies a string slice.
pub assume_specification<'b>[ <String as From<&'b str>>::from ](s: &str) -> (r: String)
    ensures
        r@ == s@,
;

/// Whether `a` and `b` are the same text.
pub fn same(a: &str, b: &str) -> (r: bool)
    ensures
        r == (a@ == b@),
{
    a.to_string() == b.to_string()
}

/// The characters of `s`.
pub fn chars_of(s: &str) -> (r: Vec<char>)
    ensures
        r@ == s@,
{
    let mut out: Vec<char> = Vec::new();
    for c in it: s.chars()
        invariant
            it.seq() == s@,
            out@ == s@.take(it.index() as int),
    {
        out.push(c);
        assert(s@.take(it.index() as int).push(c) =~= s@.take(it.index() + 1));
    }
    assert(s@.take(s@.len() as int) =~= s@);
    out
}

/// The characters `chars[from..to]` as a string.
pub fn string_of(chars: &Vec<char>, from: usize, to: usize) -> (r: String)
    requires
        from <= to <= chars@.len(),
    ensures
        r@ == chars@.subrange(from as int, to as int),
{
    let mut out = String::new();
    let mut i: usize = from;
    while i < to
        invariant
            from <= i <= to <= chars@.len(),
            out@ == chars@.subrange(from as int, i as int),
        decreases to - i,
    {
        out.push(chars[i]);
        assert(chars@.subrange(from as int, i as int).push(chars@[i as int]) =~= chars@.subrange(
            from as int,
            i + 1,
        ));
        i = i + 1;
    }
    out
}

/// Whether `needle` stands in `text` at position `at`.
fn stands_at(text: &Vec<char>, needle: &Vec<char>, at: usize) -> (r: bool)
    requires
        at + needle@.len() <= text@.len(),
    ensures
        r == occurs_at(text@, needle@, at as int),
{
    let total: usize = text.len();
    let mut k: usize = 0;
    while k < needle.len()
        invariant
            k <= needle@.len(),
            total == text@.len(),
            at + needle@.len() <= text@.len(),
            forall|j: int| 0 <= j < k ==> text@[at + j] == needle@[j],
        decreases needle@.len() - k,
    {
        if text[at + k] != needle[k] {
            proof {
                if occurs_at(text@, needle@, at as int) {
                    assert(text@.subrange(at as int, at + needle@.len())[k as int] == needle@[k as int]);
                }
            }
            return false;
        }
        k = k + 1;
    }
    assert(text@.subrange(at as int, at + needle@.len()) =~= needle@);
    true
}

/// Whether `needle` stands anywhere in `text`; the empty needle always does.
pub fn contains(text: &Vec<char>, needle: &Vec<char>) -> (r: bool)
    ensures
        r == occurs(text@, needle@),
{
    if needle.len() > text.len() {
        return false;
    }
    let last: usize = text.len() - needle.len();
    let mut at: usize = 0;
    loop
        invariant
            needle@.len() <= text@.len(),
            last == text@.len() - needle@.len(),
            at <= last,
            forall|i: int| 0 <= i < at ==> !occurs_at(text@, needle@, i),
        decreases last - at,
    {
        if stands_at(text, needle, at) {
            return true;
        }
        if at == last {
            return false;
        }
        at = at + 1;
    }
}

/// Cuts `text` at every `sep`.
pub fn split(text: &Vec<char>, sep: char) -> (r: Vec<Vec<char>>)
    ensures
        r@.len() == pieces(text@, sep).len(),
        forall|i: int| 0 <= i < r@.len() ==> #[trigger] r@[i]@ == pieces(text@, sep)[i],
{
    let mut done: Vec<Vec<char>> = Vec::new();
    let mut open: Vec<char> = Vec::new();
    let mut i: usize = 0;
    assert(text@.take(0) =~= Seq::empty());
    while i < text.len()
        invariant
            i <= text@.len(),
            pieces(text@.take(i as int), sep).len() == done@.len() + 1,
            forall|k: int|
                0 <= k < done@.len() ==> #[trigger] done@[k]@ == pieces(text@.take(i as int), sep)[k],
            open@ == pieces(text@.take(i as int), sep).last(),
        decreases text@.len() - i,
    {
        let c: char = text[i];
        proof {
            let next = text@.take(i + 1);
            assert(next.drop_last() =~= text@.take(i as int));
            assert(next.last() == c);
        }
        if c == sep {
            done.push(open);
            open = Vec::new();
        } else {
            open.push(c);
        }
        i = i + 1;
    }
    assert(text@.take(text@.len() as int) =~= text@);
    done.push(open);
    done
}

/// The length of `text` without the run of `c` at its end.
pub fn trimmed_len(text: &Vec<char>, c: char) -> (r: usize)
    ensures
        r <= text@.len(),
        text@.take(r as int) == without_trailing(text@, c),
{
    let mut n: usize = text.len();
    assert(text@.take(n as int) =~= text@);
    while n > 0 && text[n - 1] == c
        invariant
            n <= text@.len(),
            without_trailing(text@.take(n as int), c) == without_trailing(text@, c),
        decreases n,
    {
        assert(text@.take(n as int).drop_last() =~= text@.take(n - 1));
        n = n - 1;
    }
    n
}

/// `parts` one after the other, with `sep` between neighbours.
pub fn join(parts: &Vec<String>, sep: &str) -> (r: String)
    ensures
        r@ == joined(views(parts@), sep@),
{
    let mut out = String::new();
    let mut i: usize = 0;
    assert(views(parts@).take(0) =~= Seq::empty());
    while i < parts.len()
        invariant
            i <= parts@.len(),
            out@ == joined(views(parts@).take(i as int), sep@),
        decreases parts@.len() - i,
    {
        proof {
            let next = views(parts@).take(i + 1);
            assert(next.drop_last() =~= views(parts@).take(i as int));
            assert(next.last() == parts@[i as int]@);
        }
        if i > 0 {
            out.append(sep);
        }
        out.append(parts[i].as_str());
        proof {
            if i == 0 {
                assert(out@ =~= parts@[0]@);
            }
        }
        i = i + 1;
    }
    assert(views(parts@).take(parts@.len() as int) =~= views(parts@));
    out
}

/// `n` in decimal notation.
pub fn decimal_text(n: u64) -> (r: String)
    ensures
        r@ == decimal(n as nat),
    decreases n,
{
    let mut out = if n < 10 {
        String::new()
    } else {
        decimal_text(n / 10)
    };
    let d: u8 = (n % 10) as u8;
    out.push((48u8 + d) as char);
    out
}

} // verus!
