//! Paths as texts, read as the system reads them.

use vstd::prelude::*;
use crate::chars::{eq_ignore_ascii_case, same_ignoring_ascii_case};
use crate::model::opt_text;
use crate::path_parts::{
    anatomy, as_components, body_names, body_start, components, end_of_names, inner_separators,
    is_absolute, last_name_start, last_separator, leading, lemma_components_take,
    lemma_last_separator, lemma_names_are_whole, lemma_names_concat, lemma_names_end, lemma_prefix,
    lemma_prefix_take, lemma_share_ends, lemma_share_stays, lemma_single_name, main_separator,
    models, names, names_end, no_prefix, path_components, path_names, prefix, separators_of,
    start_of_name, starts_with_dot, starts_with_parts, usual_separators, written_root,
    PathComponent, PathPart, PrefixKind, Separators,
};
use crate::text::{from_chars, same_text, to_chars};
use crate::viewer::Platform;
use crate::wrap::texts;

verus! {

/// The last position of `c` in `s`, or -1.
pub open spec fn last_position(s: Seq<char>, c: char) -> int
    decreases s.len(),
{
    if s.len() == 0 {
        -1
    } else if s.last() == c {
        s.len() - 1
    } else {
        last_position(s.drop_last(), c)
    }
}

pub proof fn lemma_last_position(s: Seq<char>, c: char)
    ensures
        -1 <= last_position(s, c) < s.len(),
        last_position(s, c) >= 0 ==> s[last_position(s, c)] == c,
        forall|i: int| last_position(s, c) < i < s.len() ==> s[i] != c,
    decreases s.len(),
{
    if s.len() > 0 && s.last() != c {
        lemma_last_position(s.drop_last(), c);
        assert forall|i: int| last_position(s, c) < i < s.len() implies s[i] != c by {
            if i < s.len() - 1 {
                assert(s.drop_last()[i] == s[i]);
            }
        }
    }
}

fn find_last(v: &Vec<char>, to: usize, c: char) -> (r: Option<usize>)
    requires
        to <= v@.len(),
    ensures
        r matches Some(i) ==> i < to && i == last_position(v@.take(to as int), c),
        r is None ==> last_position(v@.take(to as int), c) == -1,
{
    let mut i: usize = to;
    while i > 0
        invariant
            i <= to <= v@.len(),
            last_position(v@.take(to as int), c) == last_position(v@.take(i as int), c),
        decreases i,
    {
        assert(v@.take(i as int).last() == v@[i - 1]);
        assert(v@.take(i as int).drop_last() =~= v@.take(i - 1));
        if v[i - 1] == c {
            return Some(i - 1);
        }
        i = i - 1;
    }
    None
}

/// Two texts name the same path: they have the same components.
pub open spec fn same_path(os: Platform, a: Seq<char>, b: Seq<char>) -> bool {
    components(os, a) == components(os, b)
}

/// The path `a` lies at or below `base`: its components start with those of the
/// base. Everything lies below the empty path.
pub open spec fn is_below(os: Platform, a: Seq<char>, base: Seq<char>) -> bool {
    components(os, base).is_prefix_of(components(os, a))
}

/// Everything lies below itself, and what lies below is transitive.
pub proof fn law_below_is_a_preorder(os: Platform, a: Seq<char>, b: Seq<char>, c: Seq<char>)
    ensures
        is_below(os, a, a),
        is_below(os, a, b) && is_below(os, b, c) ==> is_below(os, a, c),
{
    let (x, y, z) = (components(os, a), components(os, b), components(os, c));
    assert(x.subrange(0, x.len() as int) =~= x);
    if is_below(os, a, b) && is_below(os, b, c) {
        assert(x.subrange(0, z.len() as int) =~= y.subrange(0, z.len() as int));
    }
}

/// The directory that holds a path: its text without the last name and what comes
/// after the name before that.
pub open spec fn parent(os: Platform, p: Seq<char>) -> Option<Seq<char>> {
    let start = body_start(os, p);
    let by = inner_separators(os, p);
    let body = p.skip(start);
    if names(body, by).len() > 0 {
        Some(p.take(start + names_end(body.take(last_name_start(body, by)), by)))
    } else if starts_with_dot(os, p) && prefix(os, p).kind == PrefixKind::Nothing {
        Some(Seq::empty())
    } else {
        None
    }
}

/// Where the names before the last one end is no dot of its own.
proof fn lemma_parent_cut(os: Platform, p: Seq<char>)
    requires
        body_names(os, p).len() > 0,
    ensures
        ({
            let start = body_start(os, p);
            let by = inner_separators(os, p);
            let body = p.skip(start);
            let end = names_end(body.take(last_name_start(body, by)), by);
            &&& 0 <= start
            &&& start <= start + end <= p.len()
            &&& names(body.take(end), by) == names(body, by).drop_last()
            &&& starts_with_dot(os, p.take(start + end)) == starts_with_dot(os, p)
        }),
{
    lemma_prefix(os, p);
    let start = body_start(os, p);
    let by = inner_separators(os, p);
    let body = p.skip(start);
    lemma_names_end(body, by);
    let head = body.take(last_name_start(body, by));
    lemma_names_end(head, by);
    let end = names_end(head, by);
    assert(head.take(end) =~= body.take(end));
    assert(names(body, by).drop_last() =~= names(head, by));
    let n = start + end;
    let t = p.take(n);
    let k = prefix(os, p).length;
    lemma_prefix_take(os, p, n);
    if n > k {
        assert(t[k] == p[k]);
        if n > k + 1 {
            assert(t[k + 1] == p[k + 1]);
        }
    }
    if starts_with_dot(os, t) && !starts_with_dot(os, p) {
        assert(start == k && end == 1);
        let dot = body.take(1);
        assert(dot =~= seq!['.']);
        assert(names(dot, by).len() > 0);
        lemma_dot_is_no_name(by);
        assert(false);
    }
}

proof fn lemma_dot_is_no_name(by: Separators)
    requires
        by != Separators::Backslash,
    ensures
        names(seq!['.'], by).len() == 0,
{
    let dot = seq!['.'];
    lemma_last_separator(dot, by);
    if last_separator(dot, by) >= 0 {
        assert(by.has(dot[0]));
    }
}

/// The parent of a path has its components but the last.
pub proof fn law_parent_drops_last_part(os: Platform, p: Seq<char>)
    ensures
        parent(os, p) is Some <==> components(os, p).len() > 0 && components(os, p).last() is Name,
        parent(os, p) matches Some(q) ==> components(os, q) == components(os, p).drop_last(),
{
    lemma_prefix(os, p);
    let found = body_names(os, p);
    let start = body_start(os, p);
    if found.len() > 0 {
        let by = inner_separators(os, p);
        let body = p.skip(start);
        let end = names_end(body.take(last_name_start(body, by)), by);
        lemma_parent_cut(os, p);
        lemma_components_take(os, p, start + end);
        assert(components(os, p).last() == PathComponent::Name(found.last()));
        assert(components(os, p.take(start + end)) =~= components(os, p).drop_last());
    } else {
        assert(components(os, p) =~= leading(os, p));
        if parent(os, p) is Some {
            let none = Seq::<char>::empty();
            assert(none.skip(0) =~= none);
            lemma_names_end(none, usual_separators(os));
            assert(prefix(os, none) == no_prefix());
            assert(names(none, usual_separators(os)).len() == 0);
            assert(components(os, none) =~= components(os, p).drop_last());
        }
    }
}

/// The parent of a path starts where names can follow.
pub proof fn lemma_parent_is_started(os: Platform, p: Seq<char>)
    requires
        parent(os, p) is Some,
    ensures
        started(os, parent(os, p)->0) == components(os, parent(os, p)->0),
{
    lemma_prefix(os, p);
    let start = body_start(os, p);
    if body_names(os, p).len() > 0 {
        let by = inner_separators(os, p);
        let body = p.skip(start);
        lemma_parent_cut(os, p);
        lemma_components_take(
            os,
            p,
            start + names_end(body.take(last_name_start(body, by)), by),
        );
        if prefix(os, p).kind.is_verbatim() && !written_root(os, p) {
            assert(body =~= Seq::<char>::empty());
            lemma_names_end(body, by);
        }
    } else {
        assert(prefix(os, Seq::<char>::empty()) == no_prefix());
    }
}

/// A dot or two, which name no file.
pub open spec fn is_dots(name: Seq<char>) -> bool {
    name == seq!['.'] || name == seq!['.', '.']
}

/// The last name of a path, unless that goes up a directory.
pub open spec fn file_name(os: Platform, p: Seq<char>) -> Option<Seq<char>> {
    let parts = components(os, p);
    if parts.len() == 0 {
        None
    } else {
        match parts.last() {
            PathComponent::Name(name) => if is_dots(name) {
                None
            } else {
                Some(name)
            },
            _ => None,
        }
    }
}

/// What follows the last dot of a name, unless the name starts with it.
pub open spec fn name_extension(name: Seq<char>) -> Option<Seq<char>> {
    if last_position(name, '.') <= 0 {
        None
    } else {
        Some(name.skip(last_position(name, '.') + 1))
    }
}

/// The extension of a path's file name.
pub open spec fn extension(os: Platform, p: Seq<char>) -> Option<Seq<char>> {
    match file_name(os, p) {
        None => None,
        Some(name) => name_extension(name),
    }
}

/// Whether the path has the extension `ext`.
pub open spec fn has_extension(os: Platform, p: Seq<char>, ext: Seq<char>) -> bool {
    extension(os, p) == Some(ext)
}

/// Whether the path has the extension `ext`, in any case.
pub open spec fn has_extension_ignoring_case(os: Platform, p: Seq<char>, ext: Seq<char>) -> bool {
    extension(os, p) matches Some(found) && same_ignoring_ascii_case(found, ext)
}

/// Whether two texts name the same path.
pub fn path_eq(os: Platform, a: &str, b: &str) -> (r: bool)
    ensures
        r == same_path(os, a@, b@),
{
    let x = path_components(os, a);
    let y = path_components(os, b);
    assert(x@.len() == models(x@).len() && y@.len() == models(y@).len());
    if x.len() != y.len() {
        return false;
    }
    assert(models(x@).subrange(0, x@.len() as int) =~= models(x@));
    starts_with_parts(&x, &y)
}

/// Whether `a` lies at or below `base`.
pub fn path_starts_with(os: Platform, a: &str, base: &str) -> (r: bool)
    ensures
        r == is_below(os, a@, base@),
{
    starts_with_parts(&path_components(os, a), &path_components(os, base))
}

/// The directory that holds a path.
pub fn path_parent(os: Platform, p: &str) -> (r: Option<String>)
    ensures
        opt_text(r) == parent(os, p@),
{
    let v = to_chars(p);
    let a = anatomy(os, &v);
    let start: usize = a.body_start;
    let ghost body = p@.skip(start as int);
    proof {
        lemma_names_end(body, a.by);
        assert(v@.subrange(start as int, v@.len() as int) =~= body);
    }
    let end: usize = end_of_names(&v, start, v.len(), a.by);
    if end > start {
        assert(v@.subrange(start as int, end as int) =~= body.take(end - start));
        let name: usize = start_of_name(&v, start, end, a.by);
        assert(v@.subrange(start as int, name as int) =~= body.take(name - start));
        let above: usize = end_of_names(&v, start, name, a.by);
        let r = from_chars(&v, 0, above);
        assert(r@ =~= p@.take(above as int));
        Some(r)
    } else if a.starts_with_dot && a.kind == PrefixKind::Nothing {
        let r = String::new();
        assert(r@ =~= Seq::<char>::empty());
        Some(r)
    } else {
        None
    }
}

/// Whether a name is a dot or two.
pub fn names_dots(name: &str) -> (r: bool)
    ensures
        r == is_dots(name@),
{
    proof {
        reveal_strlit(".");
        reveal_strlit("..");
        assert("."@ =~= seq!['.']);
        assert(".."@ =~= seq!['.', '.']);
    }
    same_text(name, ".") || same_text(name, "..")
}

/// The last name of a path, unless that goes up a directory.
pub fn path_file_name(os: Platform, p: &str) -> (r: Option<String>)
    ensures
        opt_text(r) == file_name(os, p@),
{
    let mut v = path_components(os, p);
    assert(v@.len() == models(v@).len());
    let ghost all = v@;
    match v.pop() {
        None => None,
        Some(last) => {
            assert(models(all).last() == last.model());
            match last {
                PathPart::Name(name) => if names_dots(name.as_str()) {
                    None
                } else {
                    Some(name)
                },
                _ => None,
            }
        },
    }
}

/// The extension of a path's file name.
pub fn path_extension(os: Platform, p: &str) -> (r: Option<String>)
    ensures
        opt_text(r) == extension(os, p@),
{
    match path_file_name(os, p) {
        None => None,
        Some(name) => {
            let v = to_chars(name.as_str());
            assert(v@.take(v@.len() as int) =~= name@);
            match find_last(&v, v.len(), '.') {
                None => None,
                Some(k) => {
                    if k == 0 {
                        None
                    } else {
                        let r = from_chars(&v, k + 1, v.len());
                        assert(r@ =~= name@.skip(k + 1));
                        Some(r)
                    }
                },
            }
        },
    }
}

/// Whether the path has the extension `ext`.
pub fn extension_is(os: Platform, p: &str, ext: &str) -> (r: bool)
    ensures
        r == has_extension(os, p@, ext@),
{
    match path_extension(os, p) {
        None => false,
        Some(found) => same_text(found.as_str(), ext),
    }
}

/// Whether the path has the extension `ext`, in any case.
pub fn extension_is_ignoring_case(os: Platform, p: &str, ext: &str) -> (r: bool)
    ensures
        r == has_extension_ignoring_case(os, p@, ext@),
{
    match path_extension(os, p) {
        None => false,
        Some(found) => eq_ignore_ascii_case(found.as_str(), ext),
    }
}

/// The names that `more` leads to from `start`: a dot stays, two dots go up by one
/// name where there is one.
pub open spec fn resolved(start: Seq<Seq<char>>, more: Seq<Seq<char>>) -> Seq<Seq<char>>
    decreases more.len(),
{
    if more.len() == 0 {
        start
    } else {
        let before = resolved(start, more.drop_last());
        if more.last() == seq!['.'] {
            before
        } else if more.last() == seq!['.', '.'] {
            if before.len() > 0 && !is_dots(before.last()) {
                before.drop_last()
            } else {
                before
            }
        } else {
            before.push(more.last())
        }
    }
}

/// A start with names below it, each after a backslash.
pub open spec fn backslashed(start: Seq<char>, below: Seq<Seq<char>>) -> Seq<char>
    decreases below.len(),
{
    if below.len() == 0 {
        start
    } else {
        backslashed(start, below.drop_last()).push('\\') + below.last()
    }
}

/// `relative` below a base with a verbatim prefix, after which nothing is interpreted:
/// what `relative` says is followed here.
pub open spec fn joined_verbatim(os: Platform, base: Seq<char>, relative: Seq<char>) -> Seq<char> {
    let start = base.take(prefix(os, base).length);
    let below = resolved(
        if written_root(os, relative) {
            Seq::empty()
        } else {
            body_names(os, base)
        },
        body_names(os, relative),
    );
    if below.len() == 0 && (written_root(os, base) || written_root(os, relative)) {
        start.push('\\')
    } else {
        backslashed(start, below)
    }
}

/// Whether a separator goes between `base` and a name: not where there is one, and
/// not after a mere drive.
pub open spec fn takes_separator(os: Platform, base: Seq<char>) -> bool {
    &&& base.len() > 0
    &&& !usual_separators(os).has(base.last())
    &&& !(prefix(os, base).kind == PrefixKind::Disk && prefix(os, base).length == base.len())
}

/// `relative` below `base`. An absolute path, and one with a prefix, replaces the
/// base; one that only starts at a root replaces what follows the prefix of the base.
pub open spec fn joined(os: Platform, base: Seq<char>, relative: Seq<char>) -> Seq<char> {
    if is_absolute(os, relative) || prefix(os, relative).kind != PrefixKind::Nothing {
        relative
    } else if prefix(os, base).kind.is_verbatim() && relative.len() > 0 {
        joined_verbatim(os, base, relative)
    } else if written_root(os, relative) {
        base.take(prefix(os, base).length) + relative
    } else if takes_separator(os, base) {
        base.push(main_separator(os)) + relative
    } else {
        base + relative
    }
}

/// A relative path that goes nowhere but down: it has nothing but names, and none of
/// them is a dot or two.
pub open spec fn goes_down(os: Platform, relative: Seq<char>) -> bool {
    let parts = components(os, relative);
    &&& parts.len() > 0
    &&& forall|i: int|
        0 <= i < parts.len() ==> (#[trigger] parts[i] matches PathComponent::Name(name) && !is_dots(
            name,
        ))
}

/// The components that those of a name below `base` follow: a verbatim prefix takes a
/// root then.
pub open spec fn started(os: Platform, base: Seq<char>) -> Seq<PathComponent> {
    if prefix(os, base).kind.is_verbatim() && !written_root(os, base) {
        components(os, base).push(PathComponent::Root)
    } else {
        components(os, base)
    }
}

/// What goes down has no start of its own.
proof fn lemma_goes_down(os: Platform, relative: Seq<char>)
    requires
        goes_down(os, relative),
    ensures
        prefix(os, relative).kind == PrefixKind::Nothing,
        !written_root(os, relative),
        !starts_with_dot(os, relative),
        relative.len() > 0,
        components(os, relative) == as_components(names(relative, usual_separators(os))),
        forall|i: int|
            0 <= i < names(relative, usual_separators(os)).len() ==> !is_dots(
                #[trigger] names(relative, usual_separators(os))[i],
            ),
{
    let parts = components(os, relative);
    let lead = leading(os, relative);
    lemma_prefix(os, relative);
    if lead.len() > 0 {
        assert(parts[0] == lead[0]);
    }
    assert(relative.skip(0) =~= relative);
    assert(parts =~= as_components(body_names(os, relative)));
    let found = names(relative, usual_separators(os));
    assert forall|i: int| 0 <= i < found.len() implies !is_dots(#[trigger] found[i]) by {
        assert(parts[i] == PathComponent::Name(found[i]));
    }
    if relative.len() == 0 {
        lemma_names_end(relative, usual_separators(os));
    }
}

/// A name that is no more than that goes down.
pub proof fn lemma_plain_name(os: Platform, name: Seq<char>)
    requires
        name.len() > 0,
        !name.contains('/'),
        !name.contains('\\'),
        !is_dots(name),
        prefix(os, name).kind == PrefixKind::Nothing,
    ensures
        goes_down(os, name),
        components(os, name) == seq![PathComponent::Name(name)],
{
    let by = usual_separators(os);
    lemma_prefix(os, name);
    assert forall|j: int| 0 <= j < name.len() implies !by.has(#[trigger] name[j]) by {
        assert(name.contains(name[j]));
    }
    if starts_with_dot(os, name) {
        assert(name.len() == 1) by {
            if name.len() > 1 {
                assert(!by.has(name[1]));
            }
        }
        assert(name =~= seq!['.']);
    }
    assert(name.skip(0) =~= name);
    lemma_single_name(name, by);
    assert(components(os, name) =~= seq![PathComponent::Name(name)]);
}

/// Names that go down are all kept.
proof fn lemma_resolved(start: Seq<Seq<char>>, more: Seq<Seq<char>>)
    requires
        forall|i: int| 0 <= i < more.len() ==> !is_dots(#[trigger] more[i]),
    ensures
        resolved(start, more) == start + more,
    decreases more.len(),
{
    if more.len() == 0 {
        assert(start + more =~= start);
    } else {
        assert(!is_dots(more[more.len() - 1]));
        assert forall|i: int| 0 <= i < more.drop_last().len() implies !is_dots(
            #[trigger] more.drop_last()[i],
        ) by {
            assert(more.drop_last()[i] == more[i]);
        }
        lemma_resolved(start, more.drop_last());
        assert(start + more =~= (start + more.drop_last()).push(more.last()));
    }
}

/// Names after backslashes are read as they were written.
proof fn lemma_backslashed(start: Seq<char>, below: Seq<Seq<char>>)
    requires
        below.len() > 0,
        forall|i: int| 0 <= i < below.len() ==> (#[trigger] below[i]).len() > 0,
        forall|i: int, j: int|
            0 <= i < below.len() && 0 <= j < below[i].len() ==> #[trigger] below[i][j] != '\\',
    ensures
        backslashed(start, below).len() > start.len(),
        backslashed(start, below)[start.len() as int] == '\\',
        names(backslashed(start, below).skip(start.len() as int + 1), Separators::Backslash)
            == below,
    decreases below.len(),
{
    let whole = backslashed(start, below);
    let above = below.drop_last();
    let last = below.last();
    let upper = backslashed(start, above);
    let n = start.len() as int;
    assert(last == below[below.len() - 1]);
    assert forall|j: int| 0 <= j < last.len() implies !Separators::Backslash.has(
        #[trigger] last[j],
    ) by {
        assert(below[below.len() - 1][j] != '\\');
    }
    lemma_single_name(last, Separators::Backslash);
    if above.len() == 0 {
        assert(upper == start);
        assert(whole.skip(n + 1) =~= last);
        assert(below =~= seq![last]);
    } else {
        assert forall|i: int| 0 <= i < above.len() implies (#[trigger] above[i]).len() > 0 by {
            assert(above[i] == below[i]);
        }
        assert forall|i: int, j: int| 0 <= i < above.len() && 0 <= j < above[i].len() implies
            #[trigger] above[i][j] != '\\' by {
            assert(above[i] == below[i]);
            assert(below[i][j] != '\\');
        }
        lemma_backslashed(start, above);
        assert(whole.skip(n + 1) =~= upper.skip(n + 1).push('\\') + last);
        lemma_names_concat(upper.skip(n + 1), '\\', last, Separators::Backslash);
        assert(below =~= above + seq![last]);
        assert(whole[n] == upper[n]);
    }
}

proof fn lemma_joined_verbatim(os: Platform, base: Seq<char>, relative: Seq<char>)
    requires
        goes_down(os, relative),
        prefix(os, base).kind.is_verbatim(),
        prefix(os, joined(os, base, relative)) == prefix(os, base),
    ensures
        components(os, joined(os, base, relative)) == started(os, base) + components(os, relative),
{
    lemma_goes_down(os, relative);
    lemma_prefix(os, base);
    let whole = joined(os, base, relative);
    let k = prefix(os, base).length;
    let first = body_names(os, base);
    let more = names(relative, usual_separators(os));
    assert(relative.skip(0) =~= relative);
    assert(body_names(os, relative) == more);
    lemma_resolved(first, more);
    let below = first + more;
    assert(components(os, relative).len() == more.len());
    assert forall|i: int| 0 <= i < below.len() implies (#[trigger] below[i]).len() > 0 by {
        lemma_whole(os, base, relative, i);
    }
    assert forall|i: int, j: int| 0 <= i < below.len() && 0 <= j < below[i].len() implies
        #[trigger] below[i][j] != '\\' by {
        lemma_whole(os, base, relative, i);
    }
    lemma_backslashed(base.take(k), below);
    assert(whole == backslashed(base.take(k), below));
    assert(written_root(os, whole));
    assert(body_names(os, whole) == below);
    if !written_root(os, base) {
        assert(base.skip(k) =~= Seq::<char>::empty());
        lemma_names_end(base.skip(k), Separators::Backslash);
        assert(first =~= Seq::<Seq<char>>::empty());
    }
    assert(components(os, whole) =~= started(os, base) + components(os, relative));
}

proof fn lemma_whole(os: Platform, base: Seq<char>, relative: Seq<char>, i: int)
    requires
        prefix(os, base).kind.is_verbatim(),
        0 <= i < (body_names(os, base) + names(relative, usual_separators(os))).len(),
    ensures
        (body_names(os, base) + names(relative, usual_separators(os)))[i].len() > 0,
        forall|j: int|
            0 <= j < (body_names(os, base) + names(relative, usual_separators(os)))[i].len()
                ==> #[trigger] (body_names(os, base) + names(relative, usual_separators(os)))[i][j]
                != '\\',
{
    let first = body_names(os, base);
    if i < first.len() {
        lemma_names_are_whole(base.skip(body_start(os, base)), Separators::Backslash, i);
        assert forall|j: int| 0 <= j < first[i].len() implies #[trigger] first[i][j] != '\\' by {
            assert(!Separators::Backslash.has(first[i][j]));
        }
    } else {
        let more = names(relative, usual_separators(os));
        lemma_names_are_whole(relative, usual_separators(os), i - first.len());
        assert(os == Platform::Windows);
        assert forall|j: int| 0 <= j < more[i - first.len()].len() implies #[trigger] more[i
            - first.len()][j] != '\\' by {
            assert(!Separators::Both.has(more[i - first.len()][j]));
        }
    }
}

/// A path below a base that is all prefix, or empty.
proof fn lemma_joined_to_prefix(os: Platform, base: Seq<char>, relative: Seq<char>)
    requires
        goes_down(os, relative),
        !prefix(os, base).kind.is_verbatim(),
        prefix(os, base).length == base.len(),
        prefix(os, joined(os, base, relative)) == prefix(os, base),
    ensures
        components(os, joined(os, base, relative)) == components(os, base) + components(
            os,
            relative,
        ),
{
    lemma_goes_down(os, relative);
    lemma_prefix(os, base);
    let by = usual_separators(os);
    let whole = joined(os, base, relative);
    let k = prefix(os, base).length;
    assert(base.skip(k) =~= Seq::<char>::empty());
    lemma_names_end(base.skip(k), by);
    if takes_separator(os, base) {
        assert(whole[k] == main_separator(os));
        assert(whole.skip(k + 1) =~= relative);
    } else {
        assert(relative.skip(0) =~= relative);
        assert(whole.skip(k) =~= relative);
        assert(whole[k] == relative[0]);
        if relative.len() > 1 {
            assert(whole[k + 1] == relative[1]);
        }
    }
    assert(body_names(os, whole) == names(relative, by));
    assert(components(os, whole) =~= components(os, base) + components(os, relative));
}

/// The names of a path below a base.
proof fn lemma_joined_names(os: Platform, base: Seq<char>, start: int, relative: Seq<char>)
    requires
        0 <= start <= base.len(),
        base.len() > 0,
        usual_separators(os).has(base.last()) || takes_separator(os, base),
    ensures
        ({
            let by = usual_separators(os);
            let whole = if takes_separator(os, base) {
                base.push(main_separator(os)) + relative
            } else {
                base + relative
            };
            names(whole.skip(start), by) == names(base.skip(start), by) + names(relative, by)
        }),
{
    let by = usual_separators(os);
    let sep = main_separator(os);
    let body = base.skip(start);
    assert(by.has(sep));
    if takes_separator(os, base) {
        let whole = base.push(sep) + relative;
        assert(whole.skip(start) =~= body.push(sep) + relative);
        lemma_names_concat(body, sep, relative, by);
    } else {
        let whole = base + relative;
        if body.len() == 0 {
            assert(whole.skip(start) =~= relative);
            lemma_names_end(body, by);
            assert(names(body, by) + names(relative, by) =~= names(relative, by));
        } else {
            let upper = body.drop_last();
            let c = body.last();
            let none = Seq::<char>::empty();
            assert(c == base.last());
            assert(whole.skip(start) =~= upper.push(c) + relative);
            lemma_names_concat(upper, c, relative, by);
            assert(body =~= upper.push(c) + none);
            lemma_names_concat(upper, c, none, by);
            lemma_names_end(none, by);
            assert(none.take(0) =~= none);
            assert(names(none, by) =~= Seq::<Seq<char>>::empty()) by {
                lemma_last_separator(none, by);
            }
            assert(names(body, by) =~= names(upper, by));
        }
    }
}

/// A path below a base starts as the base does.
proof fn lemma_joined_start(os: Platform, base: Seq<char>, relative: Seq<char>)
    requires
        goes_down(os, relative),
        !prefix(os, base).kind.is_verbatim(),
        prefix(os, base).length < base.len(),
        prefix(os, joined(os, base, relative)) == prefix(os, base),
    ensures
        written_root(os, joined(os, base, relative)) == written_root(os, base),
        starts_with_dot(os, joined(os, base, relative)) == starts_with_dot(os, base),
{
    lemma_goes_down(os, relative);
    lemma_prefix(os, base);
    let whole = joined(os, base, relative);
    let k = prefix(os, base).length;
    assert(usual_separators(os).has(main_separator(os)));
    assert(whole[k] == base[k]);
    if base.len() > k + 1 {
        assert(whole[k + 1] == base[k + 1]);
    } else {
        assert(base.last() == base[k]);
        if takes_separator(os, base) {
            assert(whole[k + 1] == main_separator(os));
        }
    }
}

proof fn lemma_joined_plain(os: Platform, base: Seq<char>, relative: Seq<char>)
    requires
        goes_down(os, relative),
        !prefix(os, base).kind.is_verbatim(),
        prefix(os, joined(os, base, relative)) == prefix(os, base),
    ensures
        components(os, joined(os, base, relative)) == components(os, base) + components(
            os,
            relative,
        ),
{
    lemma_goes_down(os, relative);
    lemma_prefix(os, base);
    if base.len() == prefix(os, base).length {
        lemma_joined_to_prefix(os, base, relative);
    } else {
        let whole = joined(os, base, relative);
        let start = body_start(os, base);
        lemma_joined_start(os, base, relative);
        lemma_joined_names(os, base, start, relative);
        assert(body_names(os, whole) == body_names(os, base) + names(
            relative,
            usual_separators(os),
        ));
        assert(components(os, whole) =~= components(os, base) + components(os, relative));
    }
}

/// A path that goes down has its components after those of the base, where it does
/// not complete the prefix of the base.
pub proof fn lemma_joined_components(os: Platform, base: Seq<char>, relative: Seq<char>)
    requires
        goes_down(os, relative),
        prefix(os, joined(os, base, relative)) == prefix(os, base),
    ensures
        components(os, joined(os, base, relative)) == started(os, base) + components(os, relative),
{
    if prefix(os, base).kind.is_verbatim() {
        lemma_joined_verbatim(os, base, relative);
    } else {
        lemma_joined_plain(os, base, relative);
    }
}

/// A name below a base that starts with a drive, a share or nothing at all completes
/// no prefix; nor does any on a system without prefixes.
pub proof fn law_complete_prefixes_stay(os: Platform, base: Seq<char>, relative: Seq<char>)
    requires
        goes_down(os, relative),
        os != Platform::Windows || base.len() == 0 || prefix(os, base).kind == PrefixKind::Disk
            || prefix(os, base).kind == PrefixKind::VerbatimDisk || prefix(os, base).kind
            == PrefixKind::Unc,
    ensures
        prefix(os, joined(os, base, relative)) == prefix(os, base),
{
    lemma_goes_down(os, relative);
    lemma_prefix(os, base);
    let whole = joined(os, base, relative);
    let first = prefix(os, base);
    let k = first.length;
    if os == Platform::Windows {
        if base.len() == 0 {
            assert(whole =~= relative);
            lemma_prefix(os, relative);
        } else if first.kind == PrefixKind::VerbatimDisk {
            let below = body_names(os, base) + names(relative, Separators::Both);
            assert(relative.skip(0) =~= relative);
            lemma_resolved(body_names(os, base), names(relative, Separators::Both));
            assert(components(os, relative).len() == names(relative, Separators::Both).len());
            lemma_backslashed_start(base.take(k), below);
            assert(whole == backslashed(base.take(k), below));
            assert(whole.take(k) =~= base.take(k));
            assert(base.skip(4)[0] == base[4] && base.skip(4)[1] == base[5]);
            assert forall|i: int| 0 <= i < k implies whole[i] == base[i] by {
                assert(whole.take(k)[i] == base.take(k)[i]);
            }
            assert(whole.skip(4)[0] == whole[4] && whole.skip(4)[1] == whole[5]);
            assert(whole.skip(4)[2] == whole[6]);
            assert(prefix(os, whole).length == k);
            lemma_prefix_take(os, base, k);
            lemma_prefix_take(os, whole, k);
        } else {
            assert(whole.take(k) =~= base.take(k));
            assert(whole[0] == base[0] && whole[1] == base[1]);
            if first.kind == PrefixKind::Unc {
                assert(whole.len() > k && Separators::Both.has(whole[k])) by {
                    lemma_share_ends(base);
                    if base.len() > k {
                        assert(whole[k] == base[k]);
                    } else {
                        assert(base.last() == base[k - 1]);
                        assert(whole[k] == '\\');
                    }
                }
                lemma_share_stays(base, whole);
            }
            assert(prefix(os, whole).length == k);
            lemma_prefix_take(os, base, k);
            lemma_prefix_take(os, whole, k);
        }
    }
}

/// Names after backslashes follow the start.
proof fn lemma_backslashed_start(start: Seq<char>, below: Seq<Seq<char>>)
    ensures
        backslashed(start, below).len() >= start.len(),
        backslashed(start, below).take(start.len() as int) == start,
        below.len() > 0 ==> backslashed(start, below).len() > start.len() && backslashed(
            start,
            below,
        )[start.len() as int] == '\\',
    decreases below.len(),
{
    let n = start.len() as int;
    if below.len() == 0 {
        assert(start.take(n) =~= start);
    } else {
        let upper = backslashed(start, below.drop_last());
        lemma_backslashed_start(start, below.drop_last());
        let whole = backslashed(start, below);
        assert(whole.take(n) =~= upper.take(n));
        if below.drop_last().len() > 0 {
            assert(whole[n] == upper[n]);
        }
    }
}

fn resolve_names(start: Vec<String>, more: &Vec<String>) -> (r: Vec<String>)
    ensures
        texts(r@) == resolved(texts(start@), texts(more@)),
{
    let mut r = start;
    let mut i: usize = 0;
    assert(texts(more@).take(0) =~= Seq::<Seq<char>>::empty());
    while i < more.len()
        invariant
            i <= more@.len(),
            texts(r@) == resolved(texts(start@), texts(more@).take(i as int)),
        decreases more.len() - i,
    {
        let ghost all = texts(more@).take(i + 1);
        let ghost before = r@;
        proof {
            assert(all.drop_last() =~= texts(more@).take(i as int));
            assert(all.last() == more@[i as int]@);
            reveal_strlit(".");
            reveal_strlit("..");
            assert("."@ =~= seq!['.']);
            assert(".."@ =~= seq!['.', '.']);
            assert(seq!['.', '.'].len() != seq!['.'].len());
        }
        if same_text(more[i].as_str(), ".") {
        } else if same_text(more[i].as_str(), "..") {
            assert(r@.len() == texts(r@).len());
            if r.len() > 0 && !names_dots(r[r.len() - 1].as_str()) {
                let _last = r.pop();
                assert(texts(r@) =~= texts(before).drop_last());
            }
        } else {
            r.push(more[i].clone());
            assert(texts(r@) =~= texts(before).push(more@[i as int]@));
        }
        i = i + 1;
    }
    assert(texts(more@).take(more@.len() as int) =~= texts(more@));
    r
}

fn append_backslashed(start: String, below: &Vec<String>) -> (r: String)
    ensures
        r@ == backslashed(start@, texts(below@)),
{
    let mut r = start;
    let mut i: usize = 0;
    assert(texts(below@).take(0) =~= Seq::<Seq<char>>::empty());
    while i < below.len()
        invariant
            i <= below@.len(),
            r@ == backslashed(start@, texts(below@).take(i as int)),
        decreases below.len() - i,
    {
        let ghost all = texts(below@).take(i + 1);
        proof {
            assert(all.drop_last() =~= texts(below@).take(i as int));
            assert(all.last() == below@[i as int]@);
        }
        r.push('\\');
        r.append(below[i].as_str());
        i = i + 1;
    }
    assert(texts(below@).take(below@.len() as int) =~= texts(below@));
    r
}

/// `relative` below `base`.
pub fn path_join(os: Platform, base: &str, relative: &str) -> (r: String)
    ensures
        r@ == joined(os, base@, relative@),
{
    let v = to_chars(base);
    let w = to_chars(relative);
    let a = anatomy(os, &v);
    let b = anatomy(os, &w);
    if b.kind != PrefixKind::Nothing || b.written_root && os != Platform::Windows {
        return relative.to_owned();
    }
    proof {
        lemma_prefix(os, base@);
    }
    let start = from_chars(&v, 0, a.prefix_length);
    assert(start@ =~= base@.take(a.prefix_length as int));
    let verbatim = a.kind == PrefixKind::Verbatim || a.kind == PrefixKind::VerbatimUnc || a.kind
        == PrefixKind::VerbatimDisk;
    if verbatim && w.len() > 0 {
        let first: Vec<String> = if b.written_root {
            let none: Vec<String> = Vec::new();
            assert(texts(none@) =~= Seq::<Seq<char>>::empty());
            none
        } else {
            path_names(&v, &a)
        };
        let below = resolve_names(first, &path_names(&w, &b));
        assert(below@.len() == texts(below@).len());
        if below.len() == 0 && (a.written_root || b.written_root) {
            let mut r = start;
            r.push('\\');
            return r;
        }
        return append_backslashed(start, &below);
    }
    if b.written_root {
        let mut r = start;
        r.append(relative);
        return r;
    }
    let mut r = base.to_owned();
    if v.len() > 0 && !separators_of(os).contain(v[v.len() - 1]) && !(a.kind == PrefixKind::Disk
        && a.prefix_length == v.len()) {
        r.push(if os == Platform::Windows { '\\' } else { '/' });
    }
    r.append(relative);
    r
}

/// A text source file of a project.
pub open spec fn text_file(os: Platform, p: Seq<char>) -> bool {
    ||| has_extension(os, p, "tex"@)
    ||| has_extension(os, p, "bib"@)
    ||| has_extension(os, p, "sty"@)
    ||| has_extension(os, p, "cls"@)
    ||| has_extension(os, p, "md"@)
    ||| has_extension(os, p, "txt"@)
    ||| has_extension(os, p, "typ"@)
}

/// Whether the editor opens the file.
pub fn is_project_text_file(os: Platform, path: &str) -> (r: bool)
    ensures
        r == text_file(os, path@),
{
    extension_is(os, path, "tex") || extension_is(os, path, "bib") || extension_is(os, path, "sty")
        || extension_is(
            os,
            path,
            "cls",
        ) || extension_is(os, path, "md") || extension_is(os, path, "txt")
        || extension_is(os, path, "typ")
}

/// Whether an extension, in any case, is one of an image format.
pub open spec fn image_extension(ext: Seq<char>) -> bool {
    exists|i: int|
        0 <= i < image_extensions().len() && same_ignoring_ascii_case(
            ext,
            #[trigger] image_extensions()[i],
        )
}

/// The extensions of the image formats.
pub open spec fn image_extensions() -> Seq<Seq<char>> {
    seq![
        "avif"@, "jpg"@, "jpeg"@, "jfif"@, "png"@, "apng"@, "gif"@, "webp"@, "tif"@, "tiff"@,
        "tga"@, "dds"@, "bmp"@, "ico"@, "hdr"@, "exr"@, "pbm"@, "pam"@, "ppm"@, "pgm"@, "pnm"@,
        "ff"@, "qoi"@,
    ]
}

/// `image::ImageFormat::from_extension`: the crate knows an image format by the
/// extension exactly when it is one of a fixed list, compared without regard to
/// the case of ASCII letters.
#[verifier::external_body]
fn known_image_extension(ext: &str) -> (r: bool)
    ensures
        r == image_extension(ext@),
{
    image::ImageFormat::from_extension(ext).is_some()
}

/// A file that the project tree shows: a text source or an image.
pub open spec fn tree_file(os: Platform, p: Seq<char>) -> bool {
    text_file(os, p) || (extension(os, p) matches Some(ext) && image_extension(ext))
}

/// Whether the project tree shows a file.
pub fn is_project_tree_file(os: Platform, path: &str) -> (r: bool)
    ensures
        r == tree_file(os, path@),
{
    is_project_text_file(os, path) || match path_extension(os, path) {
        None => false,
        Some(ext) => known_image_extension(ext.as_str()),
    }
}

/// Whether two lists hold the same texts up to `n`.
pub fn same_texts_upto(a: &Vec<String>, b: &Vec<String>, n: usize) -> (r: bool)
    requires
        n <= a@.len(),
        n <= b@.len(),
    ensures
        r == (texts(a@).take(n as int) == texts(b@).take(n as int)),
{
    let mut i: usize = 0;
    while i < n
        invariant
            i <= n <= a@.len(),
            n <= b@.len(),
            forall|k: int| 0 <= k < i ==> texts(a@)[k] == #[trigger] texts(b@)[k],
        decreases n - i,
    {
        if !same_text(a[i].as_str(), b[i].as_str()) {
            assert(texts(a@).take(n as int)[i as int] != texts(b@).take(n as int)[i as int]);
            return false;
        }
        i = i + 1;
    }
    assert(texts(a@).take(n as int) =~= texts(b@).take(n as int));
    true
}

/// A path with the extension `ext` in place of the one it has; an empty one takes
/// the extension away. A path that names no file stays.
pub open spec fn with_extension(os: Platform, p: Seq<char>, ext: Seq<char>) -> Seq<char> {
    match file_name(os, p) {
        None => p,
        Some(name) => {
            let start = body_start(os, p);
            let end = start + names_end(p.skip(start), inner_separators(os, p));
            let dot = last_position(name, '.');
            let stem = if dot <= 0 {
                end
            } else {
                end - name.len() + dot
            };
            if ext.len() == 0 {
                p.take(stem)
            } else {
                p.take(stem).push('.') + ext
            }
        },
    }
}

/// The file name stands at the end of the names.
proof fn lemma_file_name(os: Platform, p: Seq<char>)
    requires
        file_name(os, p) is Some,
    ensures
        ({
            let start = body_start(os, p);
            let end = names_end(p.skip(start), inner_separators(os, p));
            0 <= start && start + end <= p.len() && file_name(os, p)->0.len() <= end
        }),
{
    let start = body_start(os, p);
    lemma_prefix(os, p);
    let body = p.skip(start);
    let by = inner_separators(os, p);
    lemma_names_end(body, by);
    let found = names(body, by);
    if found.len() == 0 {
        assert(components(os, p) =~= leading(os, p));
    } else {
        assert(components(os, p).last() == PathComponent::Name(found.last()));
    }
}

/// A path with another extension.
pub fn path_with_extension(os: Platform, p: &str, ext: &str) -> (r: String)
    ensures
        r@ == with_extension(os, p@, ext@),
{
    let name = match path_file_name(os, p) {
        None => return p.to_owned(),
        Some(name) => to_chars(name.as_str()),
    };
    let v = to_chars(p);
    let a = anatomy(os, &v);
    assert(v@.subrange(a.body_start as int, v@.len() as int) =~= p@.skip(a.body_start as int));
    let end: usize = end_of_names(&v, a.body_start, v.len(), a.by);
    proof {
        lemma_file_name(os, p@);
        lemma_last_position(name@, '.');
    }
    assert(name@.take(name@.len() as int) =~= name@);
    let stem: usize = match find_last(&name, name.len(), '.') {
        Some(dot) => if dot == 0 {
            end
        } else {
            end - name.len() + dot
        },
        None => end,
    };
    let mut r = from_chars(&v, 0, stem);
    assert(r@ =~= p@.take(stem as int));
    if !ext.is_empty() {
        r.push('.');
        r.append(ext);
    }
    r
}

/// A path with the file name `name` in place of the one it has.
pub open spec fn with_file_name(os: Platform, p: Seq<char>, name: Seq<char>) -> Seq<char> {
    match (file_name(os, p), parent(os, p)) {
        (Some(_), Some(folder)) => joined(os, folder, name),
        _ => joined(os, p, name),
    }
}

/// A path with another file name.
pub fn path_with_file_name(os: Platform, p: &str, name: &str) -> (r: String)
    ensures
        r@ == with_file_name(os, p@, name@),
{
    match (path_file_name(os, p), path_parent(os, p)) {
        (Some(_), Some(folder)) => path_join(os, folder.as_str(), name),
        _ => path_join(os, p, name),
    }
}

} // verus!
