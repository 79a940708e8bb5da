//! The addresses that alerts are sent to.
use vstd::prelude::*;

use crate::text;

verus! {

/// What follows the first double slash of `s`, if there is one.
pub open spec fn after_double_slash(s: Seq<char>) -> Option<Seq<char>>
    decreases s.len(),
{
    if s.len() < 2 {
        None
    } else if s[0] == '/' && s[1] == '/' {
        Some(s.skip(2))
    } else {
        after_double_slash(s.skip(1))
    }
}

/// `api` without its scheme.
pub open spec fn without_scheme(api: Seq<char>) -> Seq<char> {
    match after_double_slash(api) {
        Some(rest) => rest,
        None => api,
    }
}

/// `api` moved under `base`: the base without slashes at its end, a slash, the
/// API without its scheme, and the suffix.
pub open spec fn moved_url(base: Seq<char>, api: Seq<char>, suffix: Seq<char>) -> Seq<char> {
    text::without_trailing(base, '/') + "/"@ + without_scheme(api) + suffix
}

/// The position after the first double slash of `s`, or the start of `s`.
fn scheme_len(s: &Vec<char>) -> (r: usize)
    ensures
        r <= s@.len(),
        s@.skip(r as int) == without_scheme(s@),
{
    let mut i: usize = 0;
    assert(s@.skip(0) =~= s@);
    while i < s.len() && s.len() - i >= 2
        invariant
            i <= s@.len(),
            after_double_slash(s@.skip(i as int)) == after_double_slash(s@),
        decreases s@.len() - i,
    {
        assert(s@.skip(i as int)[0] == s@[i as int]);
        assert(s@.skip(i as int)[1] == s@[i + 1]);
        if s[i] == '/' && s[i + 1] == '/' {
            assert(s@.skip(i as int).skip(2) =~= s@.skip(i + 2));
            return i + 2;
        }
        assert(s@.skip(i as int).skip(1) =~= s@.skip(i + 1));
        i = i + 1;
    }
    assert(s@.skip(0) =~= s@);
    0
}

/// Rewrites the address of an API against a base that stands in for its host.
pub fn override_url(base: &str, api: &str, suffix: &str) -> (r: String)
    ensures
        r@ == moved_url(base@, api@, suffix@),
{
    let base = text::chars_of(base);
    let api = text::chars_of(api);
    let end = text::trimmed_len(&base, '/');
    let start = scheme_len(&api);
    let mut url = text::string_of(&base, 0, end);
    assert(base@.subrange(0, end as int) =~= base@.take(end as int));
    url.append("/");
    let rest = text::string_of(&api, start, api.len());
    assert(api@.subrange(start as int, api@.len() as int) =~= api@.skip(start as int));
    url.append(rest.as_str());
    url.append(suffix);
    url
}

/// Slashes at the end of the base make no difference.
pub proof fn law_trailing_slashes_do_not_count(
    base: Seq<char>,
    api: Seq<char>,
    suffix: Seq<char>,
)
    ensures
        moved_url(base.push('/'), api, suffix) == moved_url(base, api, suffix),
{
    assert(base.push('/').drop_last() =~= base);
}

// ---------------------------------------------------------------------------
// Percent-encoding
// ---------------------------------------------------------------------------

/// The bytes that stand for themselves in an address.
pub open spec fn is_unreserved(b: u8) -> bool {
    ||| 'A' as u8 <= b <= 'Z' as u8
    ||| 'a' as u8 <= b <= 'z' as u8
    ||| '0' as u8 <= b <= '9' as u8
    ||| b == '-' as u8
    ||| b == '_' as u8
    ||| b == '.' as u8
    ||| b == '~' as u8
}

/// The hexadecimal digit for `n`, with capital letters.
pub open spec fn hex_digit(n: int) -> char {
    if n < 10 {
        (('0' as int) + n) as char
    } else {
        (('A' as int) + n - 10) as char
    }
}

/// How one byte is written: an unreserved one as it is, any other as a percent
/// sign and two hexadecimal digits.
pub open spec fn escaped(b: u8) -> Seq<char> {
    if is_unreserved(b) {
        seq![b as char]
    } else {
        seq!['%', hex_digit(b as int / 16), hex_digit(b as int % 16)]
    }
}

/// How a run of bytes is written.
pub open spec fn percent_encoded(bytes: Seq<u8>) -> Seq<char>
    decreases bytes.len(),
{
    if bytes.len() == 0 {
        Seq::empty()
    } else {
        percent_encoded(bytes.drop_last()) + escaped(bytes.last())
    }
}

fn hex_char(n: u8) -> (r: char)
    requires
        n < 16,
    ensures
        r == hex_digit(n as int),
{
    if n < 10 {
        (48u8 + n) as char
    } else {
        (55u8 + n) as char
    }
}

fn unreserved(b: u8) -> (r: bool)
    ensures
        r == is_unreserved(b),
{
    (65u8 <= b && b <= 90u8) || (97u8 <= b && b <= 122u8) || (48u8 <= b && b <= 57u8) || b == 45u8
        || b == 95u8 || b == 46u8 || b == 126u8
}

/// The UTF-8 form of `s`, percent-encoded.
pub fn urlencode(s: &str) -> (r: String)
    ensures
        r@ == percent_encoded(vstd::utf8::encode_utf8(s@)),
{
    let bytes = s.as_bytes();
    let mut out = String::new();
    let mut i: usize = 0;
    assert(bytes@.take(0) =~= Seq::empty());
    while i < bytes.len()
        invariant
            i <= bytes@.len(),
            out@ == percent_encoded(bytes@.take(i as int)),
        decreases bytes@.len() - i,
    {
        let b: u8 = bytes[i];
        assert(bytes@.take(i + 1).drop_last() =~= bytes@.take(i as int));
        let ghost before = out@;
        if unreserved(b) {
            out.push(b as char);
            assert(out@ =~= before + escaped(b));
        } else {
            out.push('%');
            out.push(hex_char(b / 16));
            out.push(hex_char(b % 16));
            assert(out@ =~= before + escaped(b));
        }
        i = i + 1;
    }
    assert(bytes@.take(bytes@.len() as int) =~= bytes@);
    out
}

/// The number that a hexadecimal digit stands for.
pub open spec fn hex_value(c: char) -> int {
    if '0' <= c <= '9' {
        c as int - '0' as int
    } else if 'A' <= c <= 'F' {
        c as int - 'A' as int + 10
    } else {
        c as int - 'a' as int + 10
    }
}

/// The bytes that a percent-encoded text stands for.
pub open spec fn percent_decoded(s: Seq<char>) -> Seq<u8>
    decreases s.len(),
{
    if s.len() == 0 {
        Seq::empty()
    } else if s[0] == '%' && s.len() >= 3 {
        seq![(16 * hex_value(s[1]) + hex_value(s[2])) as u8] + percent_decoded(s.skip(3))
    } else {
        seq![s[0] as u8] + percent_decoded(s.skip(1))
    }
}

proof fn lemma_decoded_concat(b: u8, rest: Seq<char>)
    ensures
        percent_decoded(escaped(b) + rest) == seq![b] + percent_decoded(rest),
{
    let s = escaped(b) + rest;
    if is_unreserved(b) {
        assert(s[0] == b as char);
        assert(s[0] != '%');
        assert(s.skip(1) =~= rest);
        assert((b as char) as u8 == b);
    } else {
        assert(s[0] == '%');
        assert(s[1] == hex_digit(b as int / 16));
        assert(s[2] == hex_digit(b as int % 16));
        assert(hex_value(s[1]) == b as int / 16);
        assert(hex_value(s[2]) == b as int % 16);
        assert(s.skip(3) =~= rest);
    }
}

proof fn lemma_encoded_first(bytes: Seq<u8>)
    requires
        bytes.len() > 0,
    ensures
        percent_encoded(bytes) == escaped(bytes[0]) + percent_encoded(bytes.drop_first()),
    decreases bytes.len(),
{
    if bytes.len() == 1 {
        assert(bytes.drop_last() =~= Seq::empty());
        assert(bytes.drop_first() =~= Seq::empty());
        assert(percent_encoded(bytes) =~= escaped(bytes[0]) + percent_encoded(bytes.drop_first()));
    } else {
        lemma_encoded_first(bytes.drop_last());
        assert(bytes.drop_first().drop_last() =~= bytes.drop_last().drop_first());
        assert(percent_encoded(bytes) =~= escaped(bytes[0]) + percent_encoded(bytes.drop_first()));
    }
}

/// Decoding gives back the bytes that were encoded.
pub proof fn law_decode_undoes_encode(bytes: Seq<u8>)
    ensures
        percent_decoded(percent_encoded(bytes)) == bytes,
    decreases bytes.len(),
{
    if bytes.len() > 0 {
        lemma_encoded_first(bytes);
        law_decode_undoes_encode(bytes.drop_first());
        lemma_decoded_concat(bytes[0], percent_encoded(bytes.drop_first()));
        assert(seq![bytes[0]] + bytes.drop_first() =~= bytes);
    } else {
        assert(bytes =~= Seq::empty());
    }
}

/// Encoded text holds nothing but unreserved characters, percent signs and
/// hexadecimal digits: nothing in it can end a query field or the query.
pub proof fn law_encoded_is_inert(bytes: Seq<u8>, c: char)
    requires
        percent_encoded(bytes).contains(c),
    ensures
        c == '%' || ((c as int) < 128 && is_unreserved(c as u8)),
        c != '&' && c != '=' && c != '?' && c != '#' && c != '/' && c != '+' && c != ' ',
    decreases bytes.len(),
{
    let before = percent_encoded(bytes.drop_last());
    let all = percent_encoded(bytes);
    let at = choose|at: int| 0 <= at < all.len() && all[at] == c;
    if at < before.len() {
        assert(before[at] == c);
        law_encoded_is_inert(bytes.drop_last(), c);
    } else {
        let e = escaped(bytes.last());
        assert(e[at - before.len()] == c);
    }
}


/// `s` up to the first `c`, or all of it.
pub open spec fn up_to(s: Seq<char>, c: char) -> Seq<char>
    decreases s.len(),
{
    if s.len() == 0 || s[0] == c {
        Seq::empty()
    } else {
        seq![s[0]] + up_to(s.skip(1), c)
    }
}

/// One field of a query: its name, and the bytes that its value stands for.
pub open spec fn query_field(field: Seq<char>) -> (Seq<char>, Seq<u8>) {
    let name = up_to(field, '=');
    (name, percent_decoded(field.skip(name.len() as int + 1)))
}

/// The fields of a query that begins with a question mark.
pub open spec fn query_fields(query: Seq<char>) -> Seq<(Seq<char>, Seq<u8>)> {
    let fields = text::pieces(query.skip(1), '&');
    Seq::new(fields.len(), |i: int| query_field(fields[i]))
}

proof fn lemma_up_to(name: Seq<char>, c: char, rest: Seq<char>)
    requires
        !name.contains(c),
    ensures
        up_to(name.push(c) + rest, c) == name,
    decreases name.len(),
{
    let s = name.push(c) + rest;
    if name.len() == 0 {
        assert(s[0] == c);
        assert(name =~= Seq::empty());
    } else {
        assert(name.contains(name[0]));
        let tail = name.skip(1);
        assert forall|i: int| 0 <= i < tail.len() implies tail[i] != c by {
            assert(name.contains(name[i + 1]));
        }
        lemma_up_to(tail, c, rest);
        assert(s.skip(1) =~= tail.push(c) + rest);
        assert(seq![name[0]] + tail =~= name);
    }
}

/// A field that was written as a name, an equals sign and encoded bytes reads as
/// that name and those bytes.
pub proof fn lemma_field(name: Seq<char>, bytes: Seq<u8>)
    requires
        !name.contains('='),
    ensures
        query_field(name.push('=') + percent_encoded(bytes)) == (name, bytes),
{
    let field = name.push('=') + percent_encoded(bytes);
    lemma_up_to(name, '=', percent_encoded(bytes));
    assert(field.skip(name.len() as int + 1) =~= percent_encoded(bytes));
    law_decode_undoes_encode(bytes);
}

/// Two slashes stand side by side in `s`.
pub open spec fn has_double_slash(s: Seq<char>) -> bool {
    exists|i: int| 0 <= i < s.len() - 1 && #[trigger] s[i] == '/' && s[i + 1] == '/'
}

proof fn lemma_double_slash_behind(s: Seq<char>)
    requires
        s.len() > 0,
        has_double_slash(s.skip(1)),
    ensures
        has_double_slash(s),
{
    let behind = s.skip(1);
    let i = choose|i: int| 0 <= i < behind.len() - 1 && #[trigger] behind[i] == '/' && behind[i + 1]
        == '/';
    let j = i + 1;
    assert(s[j] == '/' && s[j + 1] == '/');
}

proof fn lemma_first_double_slash(scheme: Seq<char>, rest: Seq<char>)
    requires
        !has_double_slash(scheme.push('/')),
    ensures
        after_double_slash(scheme + seq!['/', '/'] + rest) == Some(rest),
    decreases scheme.len(),
{
    let s = scheme + seq!['/', '/'] + rest;
    if scheme.len() == 0 {
        assert(s[0] == '/' && s[1] == '/');
        assert(s.skip(2) =~= rest);
    } else {
        let front = scheme.push('/');
        assert(s[0] == front[0] && s[1] == front[1]);
        assert(!(front[0] == '/' && front[1] == '/'));
        assert(front.skip(1) =~= scheme.skip(1).push('/'));
        if has_double_slash(front.skip(1)) {
            lemma_double_slash_behind(front);
        }
        lemma_first_double_slash(scheme.skip(1), rest);
        assert(s.skip(1) =~= scheme.skip(1) + seq!['/', '/'] + rest);
    }
}

proof fn lemma_no_double_slash(s: Seq<char>)
    requires
        !has_double_slash(s),
    ensures
        after_double_slash(s) is None,
    decreases s.len(),
{
    if s.len() >= 2 {
        assert(!(s[0] == '/' && s[1] == '/'));
        if has_double_slash(s.skip(1)) {
            lemma_double_slash_behind(s);
        }
        lemma_no_double_slash(s.skip(1));
    }
}

/// What stands after the first double slash of an API moves behind the base, with
/// one slash between the two whatever slashes the base ends with, and the suffix
/// follows as it is.
pub proof fn law_api_moves_behind_base(
    base: Seq<char>,
    slashes: Seq<char>,
    scheme: Seq<char>,
    rest: Seq<char>,
    suffix: Seq<char>,
)
    requires
        base.len() == 0 || base.last() != '/',
        forall|i: int| 0 <= i < slashes.len() ==> #[trigger] slashes[i] == '/',
        !has_double_slash(scheme.push('/')),
    ensures
        moved_url(base + slashes, scheme + seq!['/', '/'] + rest, suffix) == base.push('/') + rest
            + suffix,
{
    reveal_strlit("/");
    crate::text_laws::law_trailing_run_goes(base, slashes, '/');
    lemma_first_double_slash(scheme, rest);
    assert(base + "/"@ =~= base.push('/'));
}

/// An API without a double slash moves behind the base as a whole.
pub proof fn law_api_without_scheme_moves_whole(
    base: Seq<char>,
    slashes: Seq<char>,
    api: Seq<char>,
    suffix: Seq<char>,
)
    requires
        base.len() == 0 || base.last() != '/',
        forall|i: int| 0 <= i < slashes.len() ==> #[trigger] slashes[i] == '/',
        !has_double_slash(api),
    ensures
        moved_url(base + slashes, api, suffix) == base.push('/') + api + suffix,
{
    reveal_strlit("/");
    crate::text_laws::law_trailing_run_goes(base, slashes, '/');
    lemma_no_double_slash(api);
    assert(base + "/"@ =~= base.push('/'));
}

/// Bytes are encoded one by one: two runs of bytes give the one encoded followed
/// by the other encoded.
pub proof fn law_encoding_of_two(one: Seq<u8>, other: Seq<u8>)
    ensures
        percent_encoded(one + other) == percent_encoded(one) + percent_encoded(other),
    decreases other.len(),
{
    if other.len() == 0 {
        assert(one + other =~= one);
        assert(percent_encoded(one) + percent_encoded(other) =~= percent_encoded(one));
    } else {
        law_encoding_of_two(one, other.drop_last());
        assert((one + other).drop_last() =~= one + other.drop_last());
        assert(percent_encoded(one + other) =~= percent_encoded(one) + percent_encoded(other));
    }
}

/// ASCII letters, digits and the four marks `-`, `_`, `.` and `~` stand for
/// themselves; any other byte becomes a percent sign and its two hexadecimal
/// digits, in capitals.
pub proof fn law_encoding_of_one(b: u8)
    ensures
        ({
            let c = b as char;
            let kept = 'A' <= c <= 'Z' || 'a' <= c <= 'z' || '0' <= c <= '9' || c == '-' || c == '_'
                || c == '.' || c == '~';
            percent_encoded(seq![b]) == (if kept {
                seq![c]
            } else {
                seq!['%', "0123456789ABCDEF"@[b as int / 16], "0123456789ABCDEF"@[b as int % 16]]
            })
        }),
{
    reveal_strlit("0123456789ABCDEF");
    assert(seq![b].drop_last() =~= Seq::empty());
    assert(percent_encoded(seq![b].drop_last()) =~= Seq::empty());
    assert(percent_encoded(seq![b]) =~= escaped(b));
    assert(hex_digit(b as int / 16) == "0123456789ABCDEF"@[b as int / 16]);
    assert(hex_digit(b as int % 16) == "0123456789ABCDEF"@[b as int % 16]);
}

} // verus!
