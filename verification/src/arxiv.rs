//! References to papers on arXiv.

use vstd::prelude::*;
use crate::chars::{
    ascii_letter, ends_with_text, starts_with, starts_with_text, trim, trimmed,
};
use crate::model::opt_text;
use crate::paths::{last_position, lemma_last_position};
use crate::text::{from_chars, to_chars};

verus! {

pub open spec fn ascii_digit(c: char) -> bool {
    '0' <= c && c <= '9'
}

/// Whether `from..to` holds digits only.
pub open spec fn digits(s: Seq<char>, from: int, to: int) -> bool {
    forall|i: int| from <= i < to ==> ascii_digit(#[trigger] s[i])
}

/// An identifier since 2007: year and month, a dot and a number of four or five
/// digits.
pub open spec fn modern_id(s: Seq<char>) -> bool {
    &&& s.len() == 9 || s.len() == 10
    &&& s[4] == '.'
    &&& digits(s, 0, 4)
    &&& digits(s, 5, s.len() as int)
}

/// An identifier before 2007: a category, a slash and seven digits.
pub open spec fn legacy_id(s: Seq<char>) -> bool {
    let k = s.len() - 8;
    &&& k >= 1
    &&& s[k] == '/'
    &&& digits(s, k + 1, s.len() as int)
    &&& forall|i: int|
        0 <= i < k ==> ascii_letter(#[trigger] s[i]) || s[i] == '-' || s[i] == '.'
}

/// Without any `.pdf` at the end.
pub open spec fn without_pdf(s: Seq<char>) -> Seq<char>
    decreases s.len(),
{
    if s.len() >= 4 && s.skip(s.len() - 4) == seq!['.', 'p', 'd', 'f'] {
        without_pdf(s.take(s.len() - 4))
    } else {
        s
    }
}

/// The identifier that a reference holds: without `arXiv:` before it and
/// `.pdf` behind it.
pub open spec fn bare_id(s: Seq<char>) -> Seq<char> {
    without_pdf(
        if starts_with_text(s, "arXiv:"@) {
            s.skip(6)
        } else {
            s
        },
    )
}

/// Whether a version, a `v` and digits, ends the identifier.
pub open spec fn versioned(s: Seq<char>) -> bool {
    let k = last_position(s, 'v');
    k >= 0 && k + 1 < s.len() && digits(s, k + 1, s.len() as int)
}

/// The identifier without its version.
pub open spec fn unversioned(s: Seq<char>) -> Seq<char> {
    if versioned(s) {
        s.take(last_position(s, 'v'))
    } else {
        s
    }
}

/// The page of a reference: a web address is one, and an identifier has one.
pub open spec fn page_url(reference: Seq<char>) -> Option<Seq<char>> {
    let r = trimmed(reference);
    if starts_with_text(r, "https://"@) || starts_with_text(r, "http://"@) {
        Some(r)
    } else {
        let base = unversioned(bare_id(r));
        if modern_id(base) || legacy_id(base) {
            Some("https://arxiv.org/abs/"@ + bare_id(r))
        } else {
            None
        }
    }
}

fn is_ascii_digit(c: char) -> (r: bool)
    ensures
        r == ascii_digit(c),
{
    '0' <= c && c <= '9'
}

fn all_digits(s: &Vec<char>, from: usize, to: usize) -> (r: bool)
    requires
        to <= s@.len(),
    ensures
        r == digits(s@, from as int, to as int),
{
    let mut i: usize = from;
    while i < to
        invariant
            from <= i,
            i <= to || i == from,
            to <= s@.len(),
            digits(s@, from as int, i as int),
        decreases to - i,
    {
        if !is_ascii_digit(s[i]) {
            return false;
        }
        i = i + 1;
    }
    true
}

fn is_modern(s: &Vec<char>, len: usize) -> (r: bool)
    requires
        len <= s@.len(),
    ensures
        r == modern_id(s@.take(len as int)),
{
    let ghost t = s@.take(len as int);
    if !(len == 9 || len == 10) {
        return false;
    }
    assert(t[4] == s@[4]);
    assert(digits(t, 0, 4) == digits(s@, 0, 4)) by {
        assert(forall|i: int| 0 <= i < len ==> t[i] == s@[i]);
        if digits(t, 0, 4) {
            assert forall|i: int| 0 <= i < 4 implies ascii_digit(#[trigger] s@[i]) by {
                assert(ascii_digit(t[i]));
            }
        }
    }
    assert(digits(t, 5, len as int) == digits(s@, 5, len as int)) by {
        if digits(t, 5, len as int) {
            assert forall|i: int| 5 <= i < len implies ascii_digit(#[trigger] s@[i]) by {
                assert(ascii_digit(t[i]));
            }
        }
    }
    s[4] == '.' && all_digits(s, 0, 4) && all_digits(s, 5, len)
}

fn is_legacy(s: &Vec<char>, len: usize) -> (r: bool)
    requires
        len <= s@.len(),
    ensures
        r == legacy_id(s@.take(len as int)),
{
    let ghost t = s@.take(len as int);
    if len < 9 {
        return false;
    }
    let k: usize = len - 8;
    assert(t[k as int] == s@[k as int]);
    assert(digits(t, k + 1, len as int) == digits(s@, k + 1, len as int)) by {
        if digits(t, k + 1, len as int) {
            assert forall|i: int| k + 1 <= i < len implies ascii_digit(#[trigger] s@[i]) by {
                assert(ascii_digit(t[i]));
            }
        }
    }
    if s[k] != '/' || !all_digits(s, k + 1, len) {
        return false;
    }
    let mut i: usize = 0;
    while i < k
        invariant
            i <= k < len <= s@.len(),
            t == s@.take(len as int),
            k == t.len() - 8,
            forall|j: int|
                0 <= j < i ==> ascii_letter(#[trigger] t[j]) || t[j] == '-' || t[j] == '.',
        decreases k - i,
    {
        let c = s[i];
        assert(t[i as int] == c);
        if !(('a' <= c && c <= 'z') || ('A' <= c && c <= 'Z') || c == '-' || c == '.') {
            return false;
        }
        i = i + 1;
    }
    true
}

fn strip_pdf(s: &Vec<char>, from: usize) -> (to: usize)
    requires
        from <= s@.len(),
    ensures
        from <= to <= s@.len(),
        s@.subrange(from as int, to as int) == without_pdf(s@.skip(from as int)),
{
    let mut to: usize = s.len();
    assert(s@.subrange(from as int, to as int) =~= s@.skip(from as int));
    while to - from >= 4 && s[to - 4] == '.' && s[to - 3] == 'p' && s[to - 2] == 'd' && s[to - 1]
        == 'f'
        invariant
            from <= to <= s@.len(),
            without_pdf(s@.skip(from as int)) == without_pdf(s@.subrange(from as int, to as int)),
        decreases to - from,
    {
        let ghost t = s@.subrange(from as int, to as int);
        assert(t.skip(t.len() - 4) =~= seq!['.', 'p', 'd', 'f']);
        assert(t.take(t.len() - 4) =~= s@.subrange(from as int, to - 4));
        to = to - 4;
    }
    proof {
        let t = s@.subrange(from as int, to as int);
        if t.len() >= 4 && t.skip(t.len() - 4) == seq!['.', 'p', 'd', 'f'] {
            let e = t.skip(t.len() - 4);
            assert(e[0] == s@[to - 4] && e[1] == s@[to - 3] && e[2] == s@[to - 2] && e[3]
                == s@[to - 1]);
        }
    }
    to
}

fn last_v(s: &Vec<char>) -> (r: Option<usize>)
    ensures
        r matches Some(k) ==> k == last_position(s@, 'v') && k < s@.len(),
        r is None ==> last_position(s@, 'v') == -1,
{
    let mut i: usize = s.len();
    assert(s@.take(i as int) =~= s@);
    while i > 0
        invariant
            i <= s@.len(),
            last_position(s@, 'v') == last_position(s@.take(i as int), 'v'),
        decreases i,
    {
        assert(s@.take(i as int).last() == s@[i - 1]);
        assert(s@.take(i as int).drop_last() =~= s@.take(i - 1));
        if s[i - 1] == 'v' {
            return Some(i - 1);
        }
        i = i - 1;
    }
    None
}

/// How many characters of an identifier stand before its version.
fn base_len(id: &Vec<char>) -> (r: usize)
    ensures
        r <= id@.len(),
        id@.take(r as int) == unversioned(id@),
{
    assert(id@.take(id@.len() as int) =~= id@);
    match last_v(id) {
        None => id.len(),
        Some(k) => {
            if id.len() - k > 1 && all_digits(id, k + 1, id.len()) {
                k
            } else {
                id.len()
            }
        },
    }
}

/// The address of the page that a reference names, if it names one.
pub fn arxiv_page_url(reference: &str) -> (r: Option<String>)
    ensures
        opt_text(r) == page_url(reference@),
{
    let trimmed_reference = trim(reference);
    let text = trimmed_reference.as_str();
    if starts_with(text, "https://") || starts_with(text, "http://") {
        return Some(trimmed_reference);
    }
    proof {
        reveal_strlit("arXiv:");
    }
    let v = to_chars(text);
    let from: usize = if starts_with(text, "arXiv:") {
        6
    } else {
        0
    };
    assert(v@.skip(0) =~= v@);
    let to: usize = strip_pdf(&v, from);
    let id = from_chars(&v, from, to);
    assert(id@ == bare_id(text@));
    let chars = to_chars(id.as_str());
    let len: usize = base_len(&chars);
    if is_modern(&chars, len) || is_legacy(&chars, len) {
        let mut url = "https://arxiv.org/abs/".to_owned();
        url.append(id.as_str());
        Some(url)
    } else {
        None
    }
}

/// A web address names itself, without the white space round it.
pub proof fn law_web_addresses_name_themselves(reference: Seq<char>)
    requires
        starts_with_text(trimmed(reference), "https://"@) || starts_with_text(
            trimmed(reference),
            "http://"@,
        ),
    ensures
        page_url(reference) == Some(trimmed(reference)),
{
}

/// An identifier of either form, with or without `arXiv:` before it, has the page of that
/// identifier.
pub proof fn law_identifiers_have_a_page(reference: Seq<char>)
    requires
        ({
            let r = trimmed(reference);
            let id = if starts_with_text(r, "arXiv:"@) { r.skip(6) } else { r };
            &&& !starts_with_text(r, "https://"@)
            &&& !starts_with_text(r, "http://"@)
            &&& !ends_with_text(id, ".pdf"@)
            &&& !id.contains('v')
            &&& modern_id(id) || legacy_id(id)
        }),
    ensures
        ({
            let r = trimmed(reference);
            let id = if starts_with_text(r, "arXiv:"@) { r.skip(6) } else { r };
            page_url(reference) == Some("https://arxiv.org/abs/"@ + id)
        }),
{
    let r = trimmed(reference);
    let id = if starts_with_text(r, "arXiv:"@) {
        r.skip(6)
    } else {
        r
    };
    reveal_strlit(".pdf");
    assert(".pdf"@ =~= seq!['.', 'p', 'd', 'f']);
    assert(without_pdf(id) == id);
    lemma_last_position(id, 'v');
    assert(last_position(id, 'v') == -1);
}

/// What is neither a web address nor an identifier has no page, and a page is always a web
/// address.
pub proof fn law_pages_are_web_addresses(reference: Seq<char>)
    ensures
        page_url(reference) matches Some(url) ==> starts_with_text(url, "https://"@)
            || starts_with_text(url, "http://"@),
        page_url(reference) is Some ==> starts_with_text(trimmed(reference), "https://"@)
            || starts_with_text(trimmed(reference), "http://"@) || modern_id(
            unversioned(bare_id(trimmed(reference))),
        ) || legacy_id(unversioned(bare_id(trimmed(reference)))),
{
    reveal_strlit("https://");
    reveal_strlit("https://arxiv.org/abs/");
    if page_url(reference) is Some {
        let url = page_url(reference)->0;
        let id = bare_id(trimmed(reference));
        let full = "https://arxiv.org/abs/"@ + id;
        assert(full.take(8) =~= "https://"@);
    }
}

/// An identifier since 2007 is four digits, a dot and four or five digits.
pub proof fn law_modern_identifiers(s: Seq<char>)
    ensures
        modern_id(s) <==> (s.len() == 9 || s.len() == 10) && s[4] == '.' && forall|i: int|
            0 <= i < s.len() && i != 4 ==> '0' <= #[trigger] s[i] <= '9',
{
}

/// Taking `.pdf` off the end takes off every one of them and nothing else.
pub proof fn law_extensions_are_taken_off(s: Seq<char>)
    ensures
        without_pdf(s + seq!['.', 'p', 'd', 'f']) == without_pdf(s),
        !ends_with_text(without_pdf(s), seq!['.', 'p', 'd', 'f']),
        !ends_with_text(s, seq!['.', 'p', 'd', 'f']) ==> without_pdf(s) == s,
    decreases s.len(),
{
    let end = seq!['.', 'p', 'd', 'f'];
    let full = s + end;
    assert(full.skip(full.len() - 4) =~= end);
    assert(full.take(full.len() - 4) =~= s);
    if s.len() >= 4 && s.skip(s.len() - 4) == end {
        law_extensions_are_taken_off(s.take(s.len() - 4));
    }
}

/// A version is a `v` with digits behind it at the end, and is taken off with its `v`.
pub proof fn law_versions_are_taken_off(id: Seq<char>, number: Seq<char>)
    requires
        number.len() > 0,
        forall|i: int| 0 <= i < number.len() ==> '0' <= #[trigger] number[i] <= '9',
    ensures
        unversioned(id + seq!['v'] + number) == id,
{
    let s = id + seq!['v'] + number;
    let k = id.len() as int;
    lemma_last_position(s, 'v');
    assert(s[k] == 'v');
    assert forall|i: int| k < i < s.len() implies s[i] != 'v' && ascii_digit(s[i]) by {
        assert(s[i] == number[i - k - 1]);
    }
    assert(last_position(s, 'v') == k);
    assert(s.take(k) =~= id);
}

} // verus!
