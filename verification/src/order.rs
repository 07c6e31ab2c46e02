//! The order of texts, and lists kept sorted by it.

use vstd::prelude::*;
use crate::chars::{lowercase, starts_with_text, to_lowercase};
use crate::text::to_chars;

verus! {

/// Whether `a` comes before `b`, character by character.
pub open spec fn text_before_in_order(a: Seq<char>, b: Seq<char>) -> bool
    decreases a.len(),
{
    if b.len() == 0 {
        false
    } else if a.len() == 0 {
        true
    } else if a[0] == b[0] {
        text_before_in_order(a.drop_first(), b.drop_first())
    } else {
        (a[0] as u32) < (b[0] as u32)
    }
}

/// Whether `a` comes before `b` in a list that ignores case; texts that differ
/// in case alone come in their own order.
pub open spec fn before_ignoring_case(a: Seq<char>, b: Seq<char>) -> bool {
    text_before_in_order(lowercase(a), lowercase(b)) || lowercase(a) == lowercase(b)
        && text_before_in_order(a, b)
}

pub proof fn lemma_order_total(a: Seq<char>, b: Seq<char>)
    ensures
        text_before_in_order(a, b) || text_before_in_order(b, a) || a == b,
        !(text_before_in_order(a, b) && text_before_in_order(b, a)),
        a == b ==> !text_before_in_order(a, b),
    decreases a.len(),
{
    if a.len() > 0 && b.len() > 0 {
        if a[0] == b[0] {
            lemma_order_total(a.drop_first(), b.drop_first());
            if a.drop_first() == b.drop_first() {
                assert(a =~= seq![a[0]] + a.drop_first());
                assert(b =~= seq![b[0]] + b.drop_first());
            }
        } else {
            vstd::utf8::char_u32_cast(a[0], a[0] as u32);
            vstd::utf8::char_u32_cast(b[0], b[0] as u32);
        }
    } else if a.len() == 0 && b.len() == 0 {
        assert(a =~= b);
    }
}

pub proof fn lemma_order_transitive(a: Seq<char>, b: Seq<char>, c: Seq<char>)
    requires
        text_before_in_order(a, b),
        text_before_in_order(b, c),
    ensures
        text_before_in_order(a, c),
    decreases a.len(),
{
    if a.len() > 0 && a[0] == b[0] && b[0] == c[0] {
        lemma_order_transitive(a.drop_first(), b.drop_first(), c.drop_first());
    }
}

/// The order that ignores case is a strict total order.
pub proof fn law_before_ignoring_case_is_total(a: Seq<char>, b: Seq<char>, c: Seq<char>)
    ensures
        before_ignoring_case(a, b) || before_ignoring_case(b, a) || a == b,
        !(before_ignoring_case(a, b) && before_ignoring_case(b, a)),
        before_ignoring_case(a, b) && before_ignoring_case(b, c) ==> before_ignoring_case(a, c),
{
    lemma_order_total(a, b);
    lemma_order_total(lowercase(a), lowercase(b));
    if before_ignoring_case(a, b) && before_ignoring_case(b, c) {
        if text_before_in_order(lowercase(a), lowercase(b)) && text_before_in_order(
            lowercase(b),
            lowercase(c),
        ) {
            lemma_order_transitive(lowercase(a), lowercase(b), lowercase(c));
        } else if text_before_in_order(a, b) && text_before_in_order(b, c) {
            lemma_order_transitive(a, b, c);
        }
    }
}

/// Whether `a` comes before `b`, character by character.
pub fn text_less(a: &str, b: &str) -> (r: bool)
    ensures
        r == text_before_in_order(a@, b@),
{
    let x = to_chars(a);
    let y = to_chars(b);
    let mut i: usize = 0;
    assert(x@.skip(0) =~= a@);
    assert(y@.skip(0) =~= b@);
    loop
        invariant
            i <= x@.len(),
            i <= y@.len(),
            text_before_in_order(a@, b@) == text_before_in_order(x@.skip(i as int), y@.skip(i as int)),
        decreases x@.len() - i,
    {
        if i >= y.len() {
            return false;
        }
        if i >= x.len() {
            return true;
        }
        assert(x@.skip(i as int)[0] == x@[i as int]);
        assert(y@.skip(i as int)[0] == y@[i as int]);
        if x[i] != y[i] {
            let c: u32 = x[i] as u32;
            let d: u32 = y[i] as u32;
            return c < d;
        }
        assert(x@.skip(i as int).drop_first() =~= x@.skip(i + 1));
        assert(y@.skip(i as int).drop_first() =~= y@.skip(i + 1));
        i = i + 1;
    }
}

/// Whether `a` comes before `b` in a list that ignores case.
pub fn less_ignoring_case(a: &str, b: &str) -> (r: bool)
    ensures
        r == before_ignoring_case(a@, b@),
{
    let x = to_lowercase(a);
    let y = to_lowercase(b);
    text_less(x.as_str(), y.as_str()) || crate::text::same_text(x.as_str(), y.as_str())
        && text_less(a, b)
}

/// Whether a list of texts is sorted without regard to case and has none twice.
pub open spec fn sorted_texts(v: Seq<String>) -> bool {
    forall|i: int, j: int|
        0 <= i < j < v.len() ==> before_ignoring_case(#[trigger] v[i]@, #[trigger] v[j]@)
}

/// Whether a text is in a list.
pub open spec fn has_text(v: Seq<String>, text: Seq<char>) -> bool {
    exists|i: int| 0 <= i < v.len() && #[trigger] v[i]@ == text
}

/// Puts a text in its place of a sorted list, unless it is there.
pub fn insert_sorted(v: &mut Vec<String>, text: String)
    requires
        sorted_texts(old(v)@),
    ensures
        sorted_texts(final(v)@),
        forall|t: Seq<char>|
            has_text(final(v)@, t) == (has_text(old(v)@, t) || t == text@),
{
    let ghost before = v@;
    let mut i: usize = 0;
    while i < v.len() && less_ignoring_case(v[i].as_str(), text.as_str())
        invariant
            i <= v@.len(),
            v@ == before,
            forall|k: int| 0 <= k < i ==> before_ignoring_case(#[trigger] before[k]@, text@),
        decreases v.len() - i,
    {
        i = i + 1;
    }
    if i < v.len() && crate::text::same_text(v[i].as_str(), text.as_str()) {
        assert(has_text(before, text@));
        return ;
    }
    v.insert(i, text);
    let ghost after = v@;
    assert(after =~= before.insert(i as int, text));
    assert forall|a: int, b: int| 0 <= a < b < after.len() implies before_ignoring_case(
        #[trigger] after[a]@,
        #[trigger] after[b]@,
    ) by {
        if i < before.len() {
            law_before_ignoring_case_is_total(text@, before[i as int]@, text@);
        }
        if b == i {
            assert(after[a] == before[a]);
        } else if a == i {
            assert(after[b] == before[b - 1]);
            if b - 1 > i {
                assert(before_ignoring_case(before[i as int]@, before[b - 1]@));
                law_before_ignoring_case_is_total(text@, before[i as int]@, before[b - 1]@);
            }
        } else {
            let x = if a < i { a } else { a - 1 };
            let y = if b < i { b } else { b - 1 };
            assert(after[a] == before[x] && after[b] == before[y]);
            assert(before_ignoring_case(before[x]@, before[y]@));
        }
    }
    assert forall|t: Seq<char>| has_text(after, t) == (has_text(before, t) || t == text@) by {
        if has_text(before, t) {
            let k = choose|k: int| 0 <= k < before.len() && #[trigger] before[k]@ == t;
            if k < i {
                assert(after[k]@ == t);
            } else {
                assert(after[k + 1]@ == t);
            }
        }
        if t == text@ {
            assert(after[i as int]@ == t);
        }
        if has_text(after, t) && t != text@ {
            let k = choose|k: int| 0 <= k < after.len() && #[trigger] after[k]@ == t;
            if k < i {
                assert(before[k]@ == t);
            } else {
                assert(before[k - 1]@ == t);
            }
        }
    }
}

/// Whether `text` starts with `prefix` when case does not count.
pub open spec fn has_prefix_ignoring_case(text: Seq<char>, prefix: Seq<char>) -> bool {
    starts_with_text(lowercase(text), lowercase(prefix))
}

pub fn starts_with_ignoring_case(text: &str, prefix: &str) -> (r: bool)
    ensures
        r == has_prefix_ignoring_case(text@, prefix@),
{
    crate::chars::starts_with(to_lowercase(text).as_str(), to_lowercase(prefix).as_str())
}

/// Of two different texts the one comes first that is the beginning of the other, or else the
/// one with the lesser character where they first differ.
pub proof fn law_texts_are_ordered_by_their_first_difference(
    common: Seq<char>,
    a: Seq<char>,
    b: Seq<char>,
)
    ensures
        a.len() == 0 && b.len() > 0 ==> text_before_in_order(common + a, common + b),
        a.len() > 0 && b.len() > 0 && a[0] != b[0] ==> (text_before_in_order(common + a, common + b)
            <==> (a[0] as u32) < (b[0] as u32)),
    decreases common.len(),
{
    if common.len() > 0 {
        let rest = common.drop_first();
        law_texts_are_ordered_by_their_first_difference(rest, a, b);
        assert((common + a).drop_first() =~= rest + a);
        assert((common + b).drop_first() =~= rest + b);
    } else {
        assert(common + a =~= a);
        assert(common + b =~= b);
    }
}

/// Case counts only between texts that differ in nothing else.
pub proof fn law_case_counts_last(a: Seq<char>, b: Seq<char>)
    ensures
        lowercase(a) != lowercase(b) ==> (before_ignoring_case(a, b) <==> text_before_in_order(
            lowercase(a),
            lowercase(b),
        )),
        lowercase(a) == lowercase(b) ==> (before_ignoring_case(a, b) <==> text_before_in_order(
            a,
            b,
        )),
{
    lemma_order_total(lowercase(a), lowercase(b));
}

/// A text starts with another, case aside, exactly where its lower-case form goes on from
/// that of the other.
pub proof fn law_prefixes_go_on(text: Seq<char>, prefix: Seq<char>)
    ensures
        has_prefix_ignoring_case(text, prefix) <==> exists|rest: Seq<char>|
            lowercase(text) == #[trigger] (lowercase(prefix) + rest),
{
    let (t, p) = (lowercase(text), lowercase(prefix));
    if has_prefix_ignoring_case(text, prefix) {
        assert(t =~= p + t.skip(p.len() as int));
    }
    if exists|rest: Seq<char>| t == #[trigger] (p + rest) {
        let rest = choose|rest: Seq<char>| t == #[trigger] (p + rest);
        assert(t.take(p.len() as int) =~= p);
    }
}

} // verus!
