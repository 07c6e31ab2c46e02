//! Text as a sequence of characters, addressed by UTF-8 byte offsets.
//!
//! Buffers are `String`s and cursors are byte offsets. Every rule is stated on
//! the characters: `index` turns an offset into a character index and `offset`
//! turns it back.

use vstd::prelude::*;
use vstd::utf8::{
    char_is_scalar, decode_utf8, decode_utf8_encode_utf8, decode_utf8_split, encode_scalar,
    encode_utf8, encode_utf8_decode_utf8, encode_utf8_first_scalar, encode_utf8_valid_utf8,
    is_char_boundary, pop_first_scalar, valid_utf8_split,
};

verus! {

/// Bytes that `c` takes in UTF-8.
pub open spec fn char_width(c: char) -> int {
    encode_scalar(c as u32).len() as int
}

/// Bytes that `s` takes in UTF-8.
#[verifier::opaque]
pub open spec fn byte_len(s: Seq<char>) -> int {
    encode_utf8(s).len() as int
}

/// The byte offset at which character `i` of `s` starts.
#[verifier::opaque]
pub open spec fn offset(s: Seq<char>, i: int) -> int {
    byte_len(s.take(i))
}

/// Whether byte offset `b` lies between two characters of `s` or at an end.
#[verifier::opaque]
pub open spec fn boundary(s: Seq<char>, b: int) -> bool {
    is_char_boundary(encode_utf8(s), b)
}

/// The number of characters of `s` before the boundary `b`.
#[verifier::opaque]
pub open spec fn index(s: Seq<char>, b: int) -> int {
    decode_utf8(encode_utf8(s).subrange(0, b)).len() as int
}

pub proof fn lemma_char_width(c: char)
    ensures
        1 <= char_width(c) <= 4,
        c as u32 <= 0x7f ==> char_width(c) == 1,
{
    char_is_scalar(c);
}

pub proof fn lemma_encode_concat(a: Seq<char>, b: Seq<char>)
    ensures
        encode_utf8(a + b) == encode_utf8(a) + encode_utf8(b),
    decreases a.len(),
{
    if a.len() == 0 {
        assert(a + b =~= b);
        assert(encode_utf8(a) + encode_utf8(b) =~= encode_utf8(b));
    } else {
        lemma_encode_concat(a.drop_first(), b);
        assert((a + b).drop_first() =~= a.drop_first() + b);
        assert((a + b)[0] == a[0]);
        assert(encode_utf8(a + b) =~= encode_utf8(a) + encode_utf8(b));
    }
}

/// The length of a concatenation is the sum of the lengths.
pub proof fn lemma_byte_len_concat(a: Seq<char>, b: Seq<char>)
    ensures
        byte_len(a + b) == byte_len(a) + byte_len(b),
{
    reveal(byte_len);
    lemma_encode_concat(a, b);
}

pub proof fn lemma_byte_len_push(s: Seq<char>, c: char)
    ensures
        byte_len(s.push(c)) == byte_len(s) + char_width(c),
        byte_len(seq![c]) == char_width(c),
{
    reveal(byte_len);
    assert(seq![c].drop_first() =~= Seq::<char>::empty());
    assert(encode_utf8(seq![c]) =~= encode_scalar(c as u32)) by {
        reveal_with_fuel(encode_utf8, 2);
    }
    lemma_byte_len_concat(s, seq![c]);
    assert(s.push(c) =~= s + seq![c]);
}

proof fn lemma_prefix_bytes(s: Seq<char>, i: int)
    requires
        0 <= i <= s.len(),
    ensures
        0 <= offset(s, i) <= byte_len(s),
        encode_utf8(s).subrange(0, offset(s, i)) == encode_utf8(s.take(i)),
        encode_utf8(s).subrange(offset(s, i), byte_len(s)) == encode_utf8(s.skip(i)),
{
    reveal(byte_len);
    reveal(offset);
    lemma_encode_concat(s.take(i), s.skip(i));
    assert(s.take(i) + s.skip(i) =~= s);
    assert(encode_utf8(s).subrange(0, offset(s, i)) =~= encode_utf8(s.take(i)));
    assert(encode_utf8(s).subrange(offset(s, i), byte_len(s)) =~= encode_utf8(s.skip(i)));
}

proof fn lemma_offset_is_boundary(s: Seq<char>, i: int)
    requires
        0 <= i <= s.len(),
    ensures
        boundary(s, offset(s, i)),
    decreases i,
{
    reveal(byte_len);
    reveal(offset);
    reveal(boundary);
    encode_utf8_valid_utf8(s);
    lemma_prefix_bytes(s, i);
    if i == 0 {
        assert(s.take(0) =~= Seq::<char>::empty());
    } else {
        encode_utf8_first_scalar(s);
        let rest = s.drop_first();
        lemma_offset_is_boundary(rest, i - 1);
        assert(pop_first_scalar(encode_utf8(s)) =~= encode_utf8(rest));
        assert(s.take(i).drop_first() =~= rest.take(i - 1));
        assert(s.take(i)[0] == s[0]);
        lemma_char_width(s[0]);
        assert(offset(s, i) == char_width(s[0]) + offset(rest, i - 1));
    }
}

/// Offsets and indices of a text correspond: the offset of a character index
/// is a boundary, and `index` gives the index back.
pub broadcast proof fn lemma_offset(s: Seq<char>, i: int)
    requires
        0 <= i <= s.len(),
    ensures
        boundary(s, #[trigger] offset(s, i)),
        index(s, offset(s, i)) == i,
        0 <= offset(s, i) <= byte_len(s),
{
    reveal(byte_len);
    reveal(offset);
    reveal(boundary);
    reveal(index);
    lemma_offset_is_boundary(s, i);
    lemma_prefix_bytes(s, i);
    encode_utf8_decode_utf8(s.take(i));
}

/// A boundary of a text is the offset of the characters before it.
pub broadcast proof fn lemma_index(s: Seq<char>, b: int)
    requires
        boundary(s, b),
    ensures
        0 <= #[trigger] index(s, b) <= s.len(),
        offset(s, index(s, b)) == b,
        0 <= b <= byte_len(s),
{
    reveal(byte_len);
    reveal(offset);
    reveal(boundary);
    reveal(index);
    let bytes = encode_utf8(s);
    encode_utf8_valid_utf8(s);
    encode_utf8_decode_utf8(s);
    valid_utf8_split(bytes, b);
    decode_utf8_split(bytes, b);
    let first = decode_utf8(bytes.subrange(0, b));
    let second = decode_utf8(bytes.subrange(b, bytes.len() as int));
    assert(s == first + second);
    assert(s.take(first.len() as int) =~= first);
    decode_utf8_encode_utf8(bytes.subrange(0, b));
    lemma_boundary_in_range(bytes, b);
}

proof fn lemma_boundary_in_range(bytes: Seq<u8>, b: int)
    requires
        vstd::utf8::valid_utf8(bytes),
        is_char_boundary(bytes, b),
    ensures
        0 <= b <= bytes.len(),
{
}

/// The ends of a text are boundaries.
pub broadcast proof fn lemma_ends(s: Seq<char>)
    ensures
        #![trigger byte_len(s)]
        offset(s, 0) == 0,
        offset(s, s.len() as int) == byte_len(s),
        boundary(s, 0),
        boundary(s, byte_len(s)),
        index(s, 0) == 0,
        index(s, byte_len(s)) == s.len(),
{
    reveal(byte_len);
    reveal(offset);
    reveal(boundary);
    reveal(index);
    assert(s.take(0) =~= Seq::<char>::empty());
    assert(s.take(s.len() as int) =~= s);
    lemma_offset(s, 0);
    lemma_offset(s, s.len() as int);
}

/// Offsets grow with the index, by the width of the characters passed.
pub proof fn lemma_offset_step(s: Seq<char>, i: int)
    requires
        0 <= i < s.len(),
    ensures
        offset(s, i + 1) == offset(s, i) + char_width(s[i]),
        offset(s, i) < offset(s, i + 1),
{
    reveal(offset);
    assert(s.take(i + 1) =~= s.take(i).push(s[i]));
    lemma_byte_len_push(s.take(i), s[i]);
    lemma_char_width(s[i]);
}

pub proof fn lemma_offset_monotone(s: Seq<char>, i: int, j: int)
    requires
        0 <= i <= j <= s.len(),
    ensures
        offset(s, i) <= offset(s, j),
        i < j ==> offset(s, i) < offset(s, j),
    decreases j - i,
{
    if i < j {
        lemma_offset_step(s, j - 1);
        lemma_offset_monotone(s, i, j - 1);
    }
}

/// The prefix of a text keeps its offsets.
pub proof fn lemma_offset_prefix(s: Seq<char>, t: Seq<char>, i: int)
    requires
        0 <= i <= s.len(),
        i <= t.len(),
        s.take(i) == t.take(i),
    ensures
        offset(s, i) == offset(t, i),
        boundary(t, offset(s, i)),
        index(t, offset(s, i)) == i,
{
    reveal(offset);
    lemma_offset(t, i);
}

/// In text made of ASCII characters an offset is an index.
pub proof fn lemma_ascii_offset(s: Seq<char>, i: int)
    requires
        0 <= i <= s.len(),
        forall|k: int| 0 <= k < i ==> s[k] as u32 <= 0x7f,
    ensures
        offset(s, i) == i,
        boundary(s, i),
        index(s, i) == i,
    decreases i,
{
    if i == 0 {
        lemma_ends(s);
    } else {
        lemma_ascii_offset(s, i - 1);
        lemma_offset_step(s, i - 1);
        lemma_char_width(s[i - 1]);
    }
    lemma_offset(s, i);
}

pub broadcast group group_points {
    lemma_offset,
    lemma_index,
    lemma_ends,
}

/// `String::push`: appends one character at the end.
pub assume_specification[ String::push ](s: &mut String, c: char)
    ensures
        final(s)@ == old(s)@.push(c),
;

/// The length of `s` in bytes.
pub fn text_len(s: &str) -> (n: usize)
    ensures
        n == byte_len(s@),
{
    proof {
        reveal(byte_len);
    }
    s.as_bytes().len()
}

/// The text before the boundary `b`.
pub fn text_before<'a>(s: &'a str, b: usize) -> (r: &'a str)
    requires
        boundary(s@, b as int),
    ensures
        r@ == s@.take(index(s@, b as int)),
{
    proof {
        reveal(byte_len);
        reveal(offset);
        reveal(boundary);
    }
    broadcast use group_points;
    let (before, _after) = s.split_at(b);
    proof {
        encode_utf8_decode_utf8(before@);
        lemma_prefix_bytes(s@, index(s@, b as int));
        encode_utf8_decode_utf8(s@.take(index(s@, b as int)));
    }
    before
}

/// The text from the boundary `b` on.
pub fn text_from<'a>(s: &'a str, b: usize) -> (r: &'a str)
    requires
        boundary(s@, b as int),
    ensures
        r@ == s@.skip(index(s@, b as int)),
{
    proof {
        reveal(byte_len);
        reveal(offset);
        reveal(boundary);
    }
    broadcast use group_points;
    let (_before, after) = s.split_at(b);
    proof {
        encode_utf8_decode_utf8(after@);
        lemma_prefix_bytes(s@, index(s@, b as int));
        encode_utf8_decode_utf8(s@.skip(index(s@, b as int)));
    }
    after
}

/// The characters of `s`.
pub fn to_chars(s: &str) -> (v: Vec<char>)
    ensures
        v@ == s@,
{
    let mut v: Vec<char> = Vec::new();
    for c in it: s.chars()
        invariant
            it.seq() == s@,
            v@ == s@.take(it.index() as int),
    {
        assert(s@.take(it.index() + 1) =~= s@.take(it.index() as int).push(c));
        v.push(c);
    }
    assert(s@.take(s@.len() as int) =~= s@);
    v
}

/// The text made of the characters `from..to` of `v`.
pub fn from_chars(v: &Vec<char>, from: usize, to: usize) -> (s: String)
    requires
        from <= to <= v@.len(),
    ensures
        s@ == v@.subrange(from as int, to as int),
{
    let mut s: String = String::new();
    let mut i: usize = from;
    while i < to
        invariant
            from <= i <= to <= v@.len(),
            s@ == v@.subrange(from as int, i as int),
        decreases to - i,
    {
        assert(v@.subrange(from as int, i + 1) =~= v@.subrange(from as int, i as int).push(v@[i as int]));
        s.push(v[i]);
        i = i + 1;
    }
    s
}

/// The character index of the boundary `b`.
pub fn char_index(s: &str, b: usize) -> (i: usize)
    requires
        boundary(s@, b as int),
    ensures
        i == index(s@, b as int),
        i <= s@.len(),
{
    broadcast use group_points;
    let v = to_chars(text_before(s, b));
    v.len()
}

/// The byte offset of character `i`.
pub fn byte_offset(s: &str, i: usize) -> (b: usize)
    requires
        i <= s@.len(),
    ensures
        b == offset(s@, i as int),
        boundary(s@, b as int),
        index(s@, b as int) == i,
{
    proof {
        reveal(offset);
    }
    broadcast use group_points;
    let before = s.substring_char(0, i);
    assert(before@ =~= s@.take(i as int));
    text_len(before)
}

/// `s` with the text between the boundaries `from` and `to` replaced.
pub fn splice(s: &str, from: usize, to: usize, insert: &str) -> (r: String)
    requires
        boundary(s@, from as int),
        boundary(s@, to as int),
    ensures
        r@ == s@.take(index(s@, from as int)) + insert@ + s@.skip(index(s@, to as int)),
{
    let mut r = text_before(s, from).to_owned();
    r.append(insert);
    r.append(text_from(s, to));
    r
}

/// Whether two texts hold the same characters.
pub fn same_text(a: &str, b: &str) -> (r: bool)
    ensures
        r == (a@ == b@),
{
    let x = a.to_owned();
    let y = b.to_owned();
    x == y
}

/// `r` is the last boundary before `b`.
pub open spec fn boundary_below(s: Seq<char>, b: int, r: int) -> bool {
    &&& boundary(s, r)
    &&& r < b
    &&& forall|x: int| r < x < b ==> !boundary(s, x)
}

/// `r` is the first boundary after `b`.
pub open spec fn boundary_above(s: Seq<char>, b: int, r: int) -> bool {
    &&& boundary(s, r)
    &&& b < r
    &&& forall|x: int| b < x < r ==> !boundary(s, x)
}

/// Whether a byte offset lies between two characters or at an end.
pub fn is_boundary(s: &str, b: usize) -> (r: bool)
    ensures
        r == boundary(s@, b as int),
{
    if b == 0 {
        proof {
            lemma_ends(s@);
        }
        return true;
    }
    let before: usize = boundary_before(s, b);
    let total: usize = text_len(s);
    if b >= total {
        proof {
            lemma_ends(s@);
            if boundary(s@, b as int) {
                lemma_index(s@, b as int);
            }
        }
        return b == total;
    }
    let after: usize = boundary_after(s, before);
    proof {
        if boundary(s@, b as int) && after != b {
            assert(before < b);
        }
    }
    after == b
}

/// The last boundary before `b`.
pub fn boundary_before(s: &str, b: usize) -> (r: usize)
    requires
        b > 0,
    ensures
        boundary_below(s@, b as int, r as int),
{
    let v = to_chars(s);
    let mut i: usize = 0;
    let mut at: usize = 0;
    proof {
        lemma_ends(s@);
    }
    while i < v.len() && b - at > crate::chars::utf8_width(v[i])
        invariant
            v@ == s@,
            i <= v@.len(),
            at == offset(s@, i as int),
            at < b,
        decreases v.len() - i,
    {
        proof {
            lemma_offset_step(s@, i as int);
        }
        at = at + crate::chars::utf8_width(v[i]);
        i = i + 1;
    }
    proof {
        lemma_offset(s@, i as int);
        assert forall|x: int| at < x < b implies !boundary(s@, x) by {
            if boundary(s@, x) {
                lemma_index(s@, x);
                let j = index(s@, x);
                if j <= i {
                    lemma_offset_monotone(s@, j, i as int);
                } else {
                    lemma_offset_step(s@, i as int);
                    lemma_offset_monotone(s@, i + 1, j);
                }
            }
        }
    }
    at
}

/// The first boundary after `b`.
pub fn boundary_after(s: &str, b: usize) -> (r: usize)
    requires
        b < byte_len(s@),
    ensures
        boundary_above(s@, b as int, r as int),
{
    let v = to_chars(s);
    let total: usize = text_len(s);
    let mut i: usize = 0;
    let mut at: usize = 0;
    proof {
        lemma_ends(s@);
    }
    while at <= b
        invariant
            v@ == s@,
            i <= v@.len(),
            at == offset(s@, i as int),
            total == byte_len(s@),
            b < total,
            i > 0 ==> offset(s@, i - 1) <= b,
        decreases v.len() - i,
    {
        proof {
            lemma_ends(s@);
            assert(i < v@.len());
            lemma_offset_step(s@, i as int);
            lemma_offset_monotone(s@, i + 1, s@.len() as int);
        }
        at = at + crate::chars::utf8_width(v[i]);
        i = i + 1;
    }
    proof {
        lemma_offset(s@, i as int);
        assert forall|x: int| b < x < at implies !boundary(s@, x) by {
            if boundary(s@, x) {
                lemma_index(s@, x);
                let j = index(s@, x);
                if j >= i {
                    lemma_offset_monotone(s@, i as int, j);
                } else {
                    lemma_offset_monotone(s@, j, i - 1);
                }
            }
        }
    }
    at
}

} // verus!
