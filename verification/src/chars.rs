//! Character classes and small conversions.

use vstd::prelude::*;
use crate::text::{char_width, lemma_char_width};

verus! {

/// Whether a character is white space.
pub uninterp spec fn char_whitespace(c: char) -> bool;

/// Whether a character is a letter or a number.
pub uninterp spec fn char_alphanumeric(c: char) -> bool;

/// The lower-case form of a text.
pub uninterp spec fn lowercase(s: Seq<char>) -> Seq<char>;

/// `char::is_whitespace`: the Unicode property White_Space, which among ASCII
/// characters holds of the space and of tab, line feed, vertical tab, form feed
/// and carriage return.
#[verifier::external_body]
pub(crate) fn is_whitespace(c: char) -> (r: bool)
    ensures
        r == char_whitespace(c),
        c as u32 <= 0x7f ==> r == (c == ' ' || 0x09 <= c as u32 <= 0x0d),
{
    c.is_whitespace()
}

/// `char::is_alphanumeric`: Unicode letters and numbers, which among ASCII
/// characters are `0-9`, `A-Z` and `a-z`.
#[verifier::external_body]
pub(crate) fn is_alphanumeric(c: char) -> (r: bool)
    ensures
        r == char_alphanumeric(c),
        c as u32 <= 0x7f ==> r == (('0' <= c && c <= '9') || ('A' <= c && c <= 'Z')
            || ('a' <= c && c <= 'z')),
{
    c.is_alphanumeric()
}

/// `str::to_lowercase`: the lower-case equivalent of the text, a function of
/// the text alone.
#[verifier::external_body]
pub(crate) fn to_lowercase(s: &str) -> (r: String)
    ensures
        r@ == lowercase(s@),
{
    s.to_lowercase()
}

/// What kind of run a character belongs to in word-wise movement.
#[derive(Debug, Clone, Copy, PartialEq, Eq, Structural)]
pub enum CharClass {
    Space,
    Word,
    Punctuation,
}

/// The class of a character: white space, a word character (letters, numbers
/// and the underscore), or punctuation.
pub open spec fn class_of(c: char) -> CharClass {
    if char_whitespace(c) {
        CharClass::Space
    } else if char_alphanumeric(c) || c == '_' {
        CharClass::Word
    } else {
        CharClass::Punctuation
    }
}

pub fn char_class(c: char) -> (r: CharClass)
    ensures
        r == class_of(c),
{
    if is_whitespace(c) {
        CharClass::Space
    } else if is_alphanumeric(c) || c == '_' {
        CharClass::Word
    } else {
        CharClass::Punctuation
    }
}

/// The bytes `c` takes in UTF-8.
pub fn utf8_width(c: char) -> (w: usize)
    ensures
        w == char_width(c),
        1 <= w <= 4,
{
    proof {
        lemma_char_width(c);
        vstd::utf8::char_is_scalar(c);
    }
    let v: u32 = c as u32;
    if v <= 0x7f {
        1
    } else if v <= 0x7ff {
        2
    } else if v <= 0xffff {
        3
    } else {
        4
    }
}

/// The decimal digit of `d`.
pub open spec fn digit(d: int) -> char {
    if d == 0 {
        '0'
    } else if d == 1 {
        '1'
    } else if d == 2 {
        '2'
    } else if d == 3 {
        '3'
    } else if d == 4 {
        '4'
    } else if d == 5 {
        '5'
    } else if d == 6 {
        '6'
    } else if d == 7 {
        '7'
    } else if d == 8 {
        '8'
    } else {
        '9'
    }
}

/// `n` written in decimal.
pub open spec fn decimal(n: nat) -> Seq<char>
    decreases n,
{
    if n < 10 {
        seq![digit(n as int)]
    } else {
        decimal(n / 10).push(digit((n % 10) as int))
    }
}

fn digit_char(d: u128) -> (c: char)
    requires
        d < 10,
    ensures
        c == digit(d as int),
{
    if d == 0 {
        '0'
    } else if d == 1 {
        '1'
    } else if d == 2 {
        '2'
    } else if d == 3 {
        '3'
    } else if d == 4 {
        '4'
    } else if d == 5 {
        '5'
    } else if d == 6 {
        '6'
    } else if d == 7 {
        '7'
    } else if d == 8 {
        '8'
    } else {
        '9'
    }
}

/// `n` written in decimal.
pub fn decimal_text(n: u128) -> (s: String)
    ensures
        s@ == decimal(n as nat),
    decreases n,
{
    let mut s = String::new();
    if n >= 10 {
        s = decimal_text(n / 10);
    }
    s.push(digit_char(n % 10));
    assert(n < 10 ==> s@ =~= seq![digit(n as int)]);
    s
}

/// `count` spaces.
pub open spec fn spaces(count: nat) -> Seq<char> {
    Seq::new(count, |i: int| ' ')
}

/// Appends `count` spaces.
pub fn push_spaces(s: &mut String, count: usize)
    ensures
        final(s)@ == old(s)@ + spaces(count as nat),
{
    let mut i: usize = 0;
    assert(s@ =~= old(s)@ + spaces(0));
    while i < count
        invariant
            i <= count,
            s@ == old(s)@ + spaces(i as nat),
        decreases count - i,
    {
        assert(spaces((i + 1) as nat) =~= spaces(i as nat).push(' '));
        s.push(' ');
        i = i + 1;
        assert(s@ =~= old(s)@ + spaces(i as nat));
    }
}

/// `s` with spaces before it, at least `width` characters wide.
pub open spec fn pad_left(s: Seq<char>, width: nat) -> Seq<char> {
    if s.len() >= width {
        s
    } else {
        spaces((width - s.len()) as nat) + s
    }
}

/// Whether every character of `s` is white space.
pub open spec fn is_blank(s: Seq<char>) -> bool {
    forall|i: int| 0 <= i < s.len() ==> char_whitespace(#[trigger] s[i])
}

/// `s` without the white space at both ends.
pub open spec fn trimmed(s: Seq<char>) -> Seq<char> {
    trimmed_end(trimmed_start(s))
}

pub open spec fn trimmed_start(s: Seq<char>) -> Seq<char>
    decreases s.len(),
{
    if s.len() > 0 && char_whitespace(s[0]) {
        trimmed_start(s.drop_first())
    } else {
        s
    }
}

pub open spec fn trimmed_end(s: Seq<char>) -> Seq<char>
    decreases s.len(),
{
    if s.len() > 0 && char_whitespace(s.last()) {
        trimmed_end(s.drop_last())
    } else {
        s
    }
}

/// A text is blank exactly when trimming leaves nothing.
pub proof fn lemma_blank_is_trimmed_empty(s: Seq<char>)
    ensures
        is_blank(s) <==> trimmed(s).len() == 0,
        is_blank(s) <==> trimmed_start(s).len() == 0,
    decreases s.len(),
{
    lemma_trim_start(s);
    let t = trimmed_start(s);
    if t.len() > 0 {
        lemma_trim_end_keeps(t, 0);
    }
}

proof fn lemma_trim_start(s: Seq<char>)
    ensures
        is_blank(s) <==> trimmed_start(s).len() == 0,
        trimmed_start(s).len() > 0 ==> !char_whitespace(trimmed_start(s)[0]),
        trimmed_start(s).len() <= s.len(),
        trimmed_start(s) == s.skip(s.len() - trimmed_start(s).len()),
    decreases s.len(),
{
    if s.len() > 0 && char_whitespace(s[0]) {
        let rest = s.drop_first();
        lemma_trim_start(rest);
        assert(is_blank(s) ==> is_blank(rest)) by {
            assert forall|i: int| is_blank(s) && 0 <= i < rest.len() implies char_whitespace(#[trigger] rest[i]) by {
                assert(rest[i] == s[i + 1]);
            }
        }
        assert(is_blank(rest) ==> is_blank(s)) by {
            assert forall|i: int| is_blank(rest) && 0 <= i < s.len() implies char_whitespace(#[trigger] s[i]) by {
                if i > 0 {
                    assert(s[i] == rest[i - 1]);
                }
            }
        }
        assert(trimmed_start(s) =~= s.skip(s.len() - trimmed_start(s).len()));
    } else {
        assert(s.skip(0) =~= s);
    }
}

proof fn lemma_trim_end_keeps(s: Seq<char>, i: int)
    requires
        0 <= i < s.len(),
        !char_whitespace(s[i]),
    ensures
        trimmed_end(s).len() > i,
    decreases s.len(),
{
    if char_whitespace(s.last()) {
        lemma_trim_end_keeps(s.drop_last(), i);
    }
}

/// `s` without the white space at both ends.
pub fn trim(s: &str) -> (r: String)
    ensures
        r@ == trimmed(s@),
{
    let v = crate::text::to_chars(s);
    let mut from: usize = 0;
    let mut to: usize = v.len();
    assert(v@.skip(0) =~= s@);
    while from < to && is_whitespace(v[from])
        invariant
            from <= to,
            to == v@.len(),
            trimmed_start(s@) == trimmed_start(v@.skip(from as int)),
            v@ == s@,
        decreases to - from,
    {
        assert(v@.skip(from as int)[0] == v@[from as int]);
        assert(v@.skip(from as int).drop_first() =~= v@.skip(from + 1));
        from = from + 1;
    }
    proof {
        if from < to {
            assert(v@.skip(from as int)[0] == v@[from as int]);
        }
    }
    let ghost t = v@.skip(from as int);
    assert(trimmed_start(s@) == t);
    assert(v@.subrange(from as int, to as int) =~= t);
    while from < to && is_whitespace(v[to - 1])
        invariant
            from <= to <= v@.len(),
            trimmed_end(t) == trimmed_end(v@.subrange(from as int, to as int)),
        decreases to - from,
    {
        let ghost cur = v@.subrange(from as int, to as int);
        assert(cur.last() == v@[to - 1]);
        assert(cur.drop_last() =~= v@.subrange(from as int, to - 1));
        to = to - 1;
    }
    proof {
        let cur = v@.subrange(from as int, to as int);
        if from < to {
            assert(cur.last() == v@[to - 1]);
        }
    }
    crate::text::from_chars(&v, from, to)
}

/// Whether trimming leaves nothing of `s`.
pub fn blank(s: &str) -> (r: bool)
    ensures
        r == is_blank(s@),
        r == (trimmed(s@).len() == 0),
{
    proof {
        lemma_blank_is_trimmed_empty(s@);
    }
    let v = crate::text::to_chars(s);
    let mut i: usize = 0;
    while i < v.len()
        invariant
            i <= v@.len(),
            v@ == s@,
            forall|k: int| 0 <= k < i ==> char_whitespace(#[trigger] s@[k]),
            is_blank(s@) <==> trimmed(s@).len() == 0,
        decreases v.len() - i,
    {
        if !is_whitespace(v[i]) {
            return false;
        }
        i = i + 1;
    }
    true
}

/// Whether `needle` occurs in `hay` at `at`.
pub open spec fn occurs_at(hay: Seq<char>, needle: Seq<char>, at: int) -> bool {
    0 <= at && at + needle.len() <= hay.len() && hay.subrange(at, at + needle.len()) == needle
}

/// Whether `needle` occurs in `hay`.
pub open spec fn contains_text(hay: Seq<char>, needle: Seq<char>) -> bool {
    exists|at: int| occurs_at(hay, needle, at)
}

fn matches_at(hay: &Vec<char>, needle: &Vec<char>, at: usize) -> (r: bool)
    requires
        at + needle@.len() <= hay@.len(),
    ensures
        r == occurs_at(hay@, needle@, at as int),
{
    let length: usize = hay.len();
    let mut k: usize = 0;
    while k < needle.len()
        invariant
            k <= needle@.len(),
            length == hay@.len(),
            at + needle@.len() <= hay@.len(),
            forall|j: int| 0 <= j < k ==> hay@[at + j] == #[trigger] needle@[j],
        decreases needle.len() - k,
    {
        if hay[at + k] != needle[k] {
            assert(hay@.subrange(at as int, at + needle@.len())[k as int] == hay@[at + k]);
            return false;
        }
        k = k + 1;
    }
    assert(hay@.subrange(at as int, at + needle@.len()) =~= needle@);
    true
}

/// Whether `needle` occurs in `hay`.
pub fn contains(hay: &str, needle: &str) -> (r: bool)
    ensures
        r == contains_text(hay@, needle@),
{
    let h = crate::text::to_chars(hay);
    let n = crate::text::to_chars(needle);
    if n.len() > h.len() {
        return false;
    }
    let last: usize = h.len() - n.len();
    let mut at: usize = 0;
    loop
        invariant
            at <= last,
            last + n@.len() == h@.len(),
            h@ == hay@,
            n@ == needle@,
            forall|k: int| 0 <= k < at ==> !occurs_at(hay@, needle@, k),
        decreases last - at,
    {
        if matches_at(&h, &n, at) {
            return true;
        }
        if at == last {
            return false;
        }
        at = at + 1;
    }
}

/// Whether `s` ends with `suffix`.
pub open spec fn ends_with_text(s: Seq<char>, suffix: Seq<char>) -> bool {
    suffix.len() <= s.len() && s.skip(s.len() - suffix.len()) == suffix
}

/// Whether `s` starts with `prefix`.
pub open spec fn starts_with_text(s: Seq<char>, prefix: Seq<char>) -> bool {
    prefix.len() <= s.len() && s.take(prefix.len() as int) == prefix
}

pub fn starts_with(s: &str, prefix: &str) -> (r: bool)
    ensures
        r == starts_with_text(s@, prefix@),
{
    let h = crate::text::to_chars(s);
    let n = crate::text::to_chars(prefix);
    if n.len() > h.len() {
        return false;
    }
    assert(h@.subrange(0, n@.len() as int) =~= s@.take(prefix@.len() as int));
    matches_at(&h, &n, 0)
}

pub fn ends_with(s: &str, suffix: &str) -> (r: bool)
    ensures
        r == ends_with_text(s@, suffix@),
{
    let h = crate::text::to_chars(s);
    let n = crate::text::to_chars(suffix);
    if n.len() > h.len() {
        return false;
    }
    assert(h@.subrange(h@.len() - n@.len(), h@.len() as int) =~= s@.skip(s@.len() - suffix@.len()));
    matches_at(&h, &n, h.len() - n.len())
}

/// The ASCII lower-case form of a character.
pub open spec fn ascii_lower(c: char) -> char {
    if 'A' <= c && c <= 'Z' {
        ((c as u32) + 32) as char
    } else {
        c
    }
}

/// A letter of ASCII.
pub open spec fn ascii_letter(c: char) -> bool {
    'a' <= c && c <= 'z' || 'A' <= c && c <= 'Z'
}

/// Whether a character is a letter of ASCII.
pub fn is_ascii_letter(c: char) -> (r: bool)
    ensures
        r == ascii_letter(c),
{
    'a' <= c && c <= 'z' || 'A' <= c && c <= 'Z'
}

/// The ASCII lower-case form of a letter.
pub fn lower_ascii(c: char) -> (r: char)
    requires
        ascii_letter(c),
    ensures
        r == ascii_lower(c),
{
    if 'A' <= c && c <= 'Z' {
        let code: u8 = c as u8;
        (code + 32) as char
    } else {
        c
    }
}

/// Equality of two texts without regard to the case of ASCII letters.
pub open spec fn same_ignoring_ascii_case(a: Seq<char>, b: Seq<char>) -> bool {
    &&& a.len() == b.len()
    &&& forall|i: int| 0 <= i < a.len() ==> ascii_lower(#[trigger] a[i]) == ascii_lower(b[i])
}

/// The code of the ASCII lower-case form of `c`.
fn ascii_lower_code(c: char) -> (v: u32)
    ensures
        v == ascii_lower(c) as u32,
{
    let v: u32 = c as u32;
    if 'A' <= c && c <= 'Z' {
        assert(0x41 <= v <= 0x5a);
        v + 32
    } else {
        v
    }
}

/// Whether two characters are the same but for the case of ASCII letters.
pub fn same_letter(a: char, b: char) -> (r: bool)
    ensures
        r == (ascii_lower(a) == ascii_lower(b)),
{
    proof {
        vstd::utf8::char_u32_cast(ascii_lower(a), ascii_lower(a) as u32);
        vstd::utf8::char_u32_cast(ascii_lower(b), ascii_lower(b) as u32);
    }
    ascii_lower_code(a) == ascii_lower_code(b)
}

pub fn eq_ignore_ascii_case(a: &str, b: &str) -> (r: bool)
    ensures
        r == same_ignoring_ascii_case(a@, b@),
{
    let x = crate::text::to_chars(a);
    let y = crate::text::to_chars(b);
    if x.len() != y.len() {
        return false;
    }
    let mut i: usize = 0;
    while i < x.len()
        invariant
            i <= x@.len(),
            x@ == a@,
            y@ == b@,
            x@.len() == y@.len(),
            forall|k: int| 0 <= k < i ==> ascii_lower(#[trigger] a@[k]) == ascii_lower(b@[k]),
        decreases x.len() - i,
    {
        if !same_letter(x[i], y[i]) {
            assert(ascii_lower(a@[i as int]) != ascii_lower(b@[i as int]));
            return false;
        }
        i = i + 1;
    }
    true
}

/// The texts with `separator` between them.
pub open spec fn joined_with(v: Seq<String>, separator: Seq<char>) -> Seq<char>
    decreases v.len(),
{
    if v.len() == 0 {
        Seq::empty()
    } else if v.len() == 1 {
        v[0]@
    } else {
        joined_with(v.drop_last(), separator) + separator + v.last()@
    }
}

/// The texts with `separator` between them.
pub fn join(v: &Vec<String>, separator: &str) -> (r: String)
    ensures
        r@ == joined_with(v@, separator@),
{
    let mut r = String::new();
    let mut i: usize = 0;
    assert(r@ =~= Seq::<char>::empty());
    while i < v.len()
        invariant
            i <= v@.len(),
            r@ == joined_with(v@.take(i as int), separator@),
        decreases v.len() - i,
    {
        proof {
            assert(v@.take(i + 1).drop_last() =~= v@.take(i as int));
            assert(v@.take(i + 1).last() == v@[i as int]);
        }
        if i > 0 {
            r.append(separator);
        }
        r.append(v[i].as_str());
        if i == 0 {
            assert(Seq::<char>::empty() + v@[0]@ =~= v@[0]@);
        }
        i = i + 1;
    }
    assert(v@.take(v@.len() as int) =~= v@);
    r
}

/// Trimming leaves the text between the first and the last character that are no white
/// space, and nothing of a blank text.
pub proof fn law_trimming_takes_white_space_at_the_ends(s: Seq<char>)
    ensures
        exists|from: int, to: int|
            {
                &&& 0 <= from <= to <= s.len()
                &&& trimmed(s) == #[trigger] s.subrange(from, to)
                &&& forall|i: int| 0 <= i < from ==> char_whitespace(#[trigger] s[i])
                &&& forall|i: int| to <= i < s.len() ==> char_whitespace(#[trigger] s[i])
                &&& from < to ==> !char_whitespace(s[from]) && !char_whitespace(s[to - 1])
            },
{
    let from = lemma_trimmed_start(s);
    let rest = trimmed_start(s);
    let len = lemma_trimmed_end(rest);
    let to = from + len;
    assert(trimmed(s) =~= s.subrange(from, to));
    assert forall|i: int| to <= i < s.len() implies char_whitespace(#[trigger] s[i]) by {
        assert(rest[i - from] == s[i]);
    }
    if from < to {
        assert(rest[0] == s[from]);
        assert(rest[len - 1] == s[to - 1]);
    }
}

proof fn lemma_trimmed_start(s: Seq<char>) -> (from: int)
    ensures
        0 <= from <= s.len(),
        trimmed_start(s) == s.skip(from),
        forall|i: int| 0 <= i < from ==> char_whitespace(#[trigger] s[i]),
        from < s.len() ==> !char_whitespace(s[from]),
    decreases s.len(),
{
    if s.len() > 0 && char_whitespace(s[0]) {
        let less = s.drop_first();
        let from = lemma_trimmed_start(less);
        assert(less.skip(from) =~= s.skip(from + 1));
        assert forall|i: int| 0 <= i < from + 1 implies char_whitespace(#[trigger] s[i]) by {
            if i > 0 {
                assert(less[i - 1] == s[i]);
            }
        }
        if from < less.len() {
            assert(less[from] == s[from + 1]);
        }
        from + 1
    } else {
        assert(s.skip(0) =~= s);
        0
    }
}

proof fn lemma_trimmed_end(s: Seq<char>) -> (to: int)
    ensures
        0 <= to <= s.len(),
        trimmed_end(s) == s.take(to),
        forall|i: int| to <= i < s.len() ==> char_whitespace(#[trigger] s[i]),
        0 < to ==> !char_whitespace(s[to - 1]),
    decreases s.len(),
{
    if s.len() > 0 && char_whitespace(s.last()) {
        let less = s.drop_last();
        let to = lemma_trimmed_end(less);
        assert(less.take(to) =~= s.take(to));
        assert forall|i: int| to <= i < s.len() implies char_whitespace(#[trigger] s[i]) by {
            if i < less.len() {
                assert(less[i] == s[i]);
            }
        }
        if 0 < to {
            assert(less[to - 1] == s[to - 1]);
        }
        to
    } else {
        assert(s.take(s.len() as int) =~= s);
        s.len() as int
    }
}

/// The number that a row of decimal digits stands for.
pub open spec fn decimal_value(s: Seq<char>) -> int
    decreases s.len(),
{
    if s.len() == 0 {
        0
    } else {
        10 * decimal_value(s.drop_last()) + (s.last() as int - '0' as int)
    }
}

/// A number in decimal is a row of digits that stands for it, without a zero in front
/// but for zero itself.
pub proof fn law_decimal_stands_for_the_number(n: nat)
    ensures
        decimal_value(decimal(n)) == n,
        decimal(n).len() > 0,
        forall|i: int| 0 <= i < decimal(n).len() ==> '0' <= #[trigger] decimal(n)[i] <= '9',
        n > 0 ==> decimal(n)[0] != '0',
    decreases n,
{
    if n < 10 {
        let s = decimal(n);
        assert(s.drop_last() =~= Seq::empty());
        assert(decimal_value(Seq::<char>::empty()) == 0);
    } else {
        law_decimal_stands_for_the_number(n / 10);
        let s = decimal(n);
        assert(s.drop_last() =~= decimal(n / 10));
        assert forall|i: int| 0 <= i < s.len() implies '0' <= #[trigger] s[i] <= '9' by {
            if i < decimal(n / 10).len() {
                assert(s[i] == decimal(n / 10)[i]);
            }
        }
    }
}

/// Padding puts spaces before a text up to the width, and never shortens it.
pub proof fn law_padding_fills_the_width(s: Seq<char>, width: nat)
    ensures
        pad_left(s, width).len() == if s.len() > width {
            s.len()
        } else {
            width
        },
        pad_left(s, width).skip(pad_left(s, width).len() - s.len()) == s,
        forall|i: int|
            0 <= i < pad_left(s, width).len() - s.len() ==> #[trigger] pad_left(s, width)[i] == ' ',
{
    assert(pad_left(s, width).skip(pad_left(s, width).len() - s.len()) =~= s);
}

/// Joining puts the separator between any two parts of a list, and nowhere else: one
/// text stays as it is, and two lists join to their texts round one separator.
pub proof fn law_joining_separates_the_texts(v: Seq<String>, w: Seq<String>, separator: Seq<char>)
    ensures
        joined_with(Seq::<String>::empty(), separator) == Seq::<char>::empty(),
        v.len() == 1 ==> joined_with(v, separator) == v[0]@,
        v.len() > 0 && w.len() > 0 ==> joined_with(v + w, separator) == joined_with(v, separator)
            + separator + joined_with(w, separator),
    decreases w.len(),
{
    if v.len() > 0 && w.len() > 0 {
        let all = v + w;
        assert(all.last() == w.last());
        if w.len() == 1 {
            assert(all.drop_last() =~= v);
        } else {
            law_joining_separates_the_texts(v, w.drop_last(), separator);
            assert(all.drop_last() =~= v + w.drop_last());
            assert(joined_with(all, separator) =~= joined_with(v, separator) + separator
                + joined_with(w, separator));
        }
    }
}

/// The case of ASCII letters does not count, and nothing else is overlooked.
pub proof fn law_only_the_case_of_ascii_letters_is_ignored(a: char, b: char)
    ensures
        ascii_lower(a) == ascii_lower(b) <==> a == b || ('A' <= a <= 'Z' && b as int == a as int
            + 32) || ('A' <= b <= 'Z' && a as int == b as int + 32),
{
}

/// A text occurs in another exactly where that can be cut into what comes before it, the
/// text, and what comes behind it.
pub proof fn law_contained_text_can_be_cut_out(hay: Seq<char>, needle: Seq<char>)
    ensures
        contains_text(hay, needle) <==> exists|before: Seq<char>, after: Seq<char>|
            hay == #[trigger] (before + needle + after),
{
    if contains_text(hay, needle) {
        let at = choose|at: int| occurs_at(hay, needle, at);
        let before = hay.take(at);
        let after = hay.skip(at + needle.len());
        assert(hay =~= before + needle + after);
    }
    if exists|before: Seq<char>, after: Seq<char>| hay == #[trigger] (before + needle + after) {
        let (before, after) = choose|before: Seq<char>, after: Seq<char>|
            hay == #[trigger] (before + needle + after);
        let at = before.len() as int;
        assert(hay.subrange(at, at + needle.len()) =~= needle);
        assert(occurs_at(hay, needle, at));
    }
}

} // verus!
