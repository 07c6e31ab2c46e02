//! What paths have in common: how they are joined, named and extended.

use vstd::prelude::*;
use crate::path_parts::{
    as_components, body_names, body_start, components, inner_separators, last_name_start, leading,
    lemma_last_separator, lemma_names_are_whole, lemma_names_concat, lemma_names_end, lemma_prefix,
    lemma_single_name, main_separator, names, names_end, starts_with_dot, written_root,
    PathComponent, Separators,
};
use crate::paths::{
    extension, file_name, has_extension, is_below, is_dots, joined, last_position,
    law_complete_prefixes_stay,
    law_parent_drops_last_part, lemma_joined_components, lemma_last_position, lemma_plain_name,
    name_extension, parent, resolved, text_file,
    tree_file, with_extension,
};
use crate::viewer::Platform;

verus! {

/// The extension is what follows the last dot of the file name, where something stands before
/// that dot.
pub proof fn law_extensions_follow_the_last_dot(os: Platform, p: Seq<char>, ext: Seq<char>)
    ensures
        has_extension(os, p, ext) <==> (file_name(os, p) matches Some(name) && exists|k: int|
            0 < k < name.len() && #[trigger] name[k] == '.' && name.skip(k + 1) == ext && forall|
                j: int,
            |
                k < j < name.len() ==> name[j] != '.'),
{
    if let Some(name) = file_name(os, p) {
        let d = last_position(name, '.');
        lemma_last_position(name, '.');
        if has_extension(os, p, ext) {
            assert(0 < d < name.len() && name[d] == '.' && name.skip(d + 1) == ext);
        }
        assert forall|k: int|
            0 < k < name.len() && #[trigger] name[k] == '.' && name.skip(k + 1) == ext && (forall|
                j: int,
            |
                k < j < name.len() ==> name[j] != '.') implies has_extension(os, p, ext) by {
            assert(k == d);
        }
    }
}

/// A path with a file name is that name in the directory that holds it, and the name is not
/// empty and holds no separator of the system's own.
pub proof fn law_paths_end_in_their_file_name(os: Platform, p: Seq<char>)
    ensures
        file_name(os, p) matches Some(name) ==> {
            &&& parent(os, p) is Some
            &&& components(os, p) == components(os, parent(os, p)->0).push(
                PathComponent::Name(name),
            )
            &&& name.len() > 0
            &&& !name.contains(main_separator(os))
            &&& name != seq!['.'] && name != seq!['.', '.']
        },
{
    law_parent_drops_last_part(os, p);
    if let Some(name) = file_name(os, p) {
        let parts = components(os, p);
        assert(parts =~= parts.drop_last().push(parts.last()));
        let found = body_names(os, p);
        if found.len() == 0 {
            assert(parts =~= leading(os, p));
            assert(false);
        }
        assert(parts.last() == PathComponent::Name(found.last()));
        lemma_names_are_whole(
            p.skip(body_start(os, p)),
            inner_separators(os, p),
            found.len() - 1,
        );
        assert(!name.contains(main_separator(os)));
    }
}

/// Where only slashes separate, an absolute path replaces the base; any other follows it after
/// exactly one slash, or alone where the base is empty.
pub proof fn law_slashes_join_paths(os: Platform, base: Seq<char>, relative: Seq<char>)
    requires
        os != Platform::Windows,
    ensures
        relative.len() > 0 && relative[0] == '/' ==> joined(os, base, relative) == relative,
        relative.len() == 0 || relative[0] != '/' ==> {
            &&& base.len() == 0 ==> joined(os, base, relative) == relative
            &&& base.len() > 0 && base.last() == '/' ==> joined(os, base, relative) == base
                + relative
            &&& base.len() > 0 && base.last() != '/' ==> joined(os, base, relative) == base
                + seq!['/'] + relative
        },
{
    if base.len() == 0 {
        assert(base + relative =~= relative);
    }
    assert(base.push('/') + relative =~= base + seq!['/'] + relative);
}

/// Where the file name of a path stands in its text: it is the last of the names, and ends there.
proof fn lemma_file_name_place(os: Platform, p: Seq<char>) -> (at: int)
    requires
        os != Platform::Windows,
        file_name(os, p) is Some,
    ensures
        ({
            let name = file_name(os, p)->0;
            let start = body_start(os, p);
            let before = p.subrange(start, at);
            &&& 0 <= start <= at
            &&& at + name.len() <= p.len()
            &&& name == p.subrange(at, at + name.len())
            &&& name.len() > 0
            &&& !name.contains('/')
            &&& at > start ==> p[at - 1] == '/'
            &&& start + names_end(p.skip(start), Separators::Slash) == at + name.len()
            &&& components(os, p).drop_last() == leading(os, p) + as_components(
                names(before, Separators::Slash),
            )
        }),
{
    let name = file_name(os, p)->0;
    let by = Separators::Slash;
    let start = body_start(os, p);
    let body = p.skip(start);
    let found = names(body, by);
    lemma_prefix(os, p);
    lemma_names_end(body, by);
    if found.len() == 0 {
        assert(components(os, p) =~= leading(os, p));
        assert(false);
    }
    assert(components(os, p).last() == PathComponent::Name(found.last()));
    let e = names_end(body, by);
    let b = last_name_start(body, by);
    lemma_last_separator(body.take(e), by);
    lemma_names_are_whole(body, by, found.len() - 1);
    let at = start + b;
    assert(p.subrange(start, at) =~= body.take(b));
    assert(body.subrange(b, e) =~= p.subrange(at, start + e));
    if b > 0 {
        assert(body.take(e)[b - 1] == p[at - 1]);
    }
    assert(components(os, p).drop_last() =~= leading(os, p) + as_components(
        names(body.take(b), by),
    ));
    at
}

/// Another name in the place of the file name is the last of the names.
proof fn lemma_renamed_components(os: Platform, p: Seq<char>, at: int, renamed: Seq<char>)
    requires
        os != Platform::Windows,
        ({
            let start = body_start(os, p);
            &&& 0 <= start <= at < p.len()
            &&& p[at] != '/'
            &&& at > start ==> p[at - 1] == '/'
        }),
        renamed.len() > 0,
        !renamed.contains('/'),
        renamed != seq!['.'],
    ensures
        components(os, p.take(at) + renamed) == (leading(os, p) + as_components(
            names(p.subrange(body_start(os, p), at), Separators::Slash),
        )).push(PathComponent::Name(renamed)),
{
    let by = Separators::Slash;
    let start = body_start(os, p);
    let q = p.take(at) + renamed;
    let before = p.subrange(start, at);
    assert(renamed[0] == q[at]);
    assert(renamed.contains(renamed[0]));
    if at == 0 {
        assert(q =~= renamed);
        if renamed.len() > 1 {
            assert(renamed.contains(renamed[1]));
        }
        if renamed.len() == 1 && renamed[0] == '.' {
            assert(renamed =~= seq!['.']);
        }
        assert(!starts_with_dot(os, q));
    } else {
        assert(q[0] == p[0]);
        if at == 1 {
            assert(q[1] == renamed[0]);
        } else {
            assert(q[1] == p[1]);
        }
    }
    assert(written_root(os, q) == written_root(os, p));
    assert(starts_with_dot(os, q) == starts_with_dot(os, p));
    assert(body_start(os, q) == start);
    assert forall|j: int| 0 <= j < renamed.len() implies !by.has(#[trigger] renamed[j]) by {
        assert(renamed.contains(renamed[j]));
    }
    lemma_single_name(renamed, by);
    assert(names(Seq::<char>::empty(), by) =~= Seq::<Seq<char>>::empty());
    if at == start {
        assert(q.skip(start) =~= renamed);
        assert(before =~= Seq::<char>::empty());
    } else {
        let x = p.subrange(start, at - 1);
        assert(q.skip(start) =~= x.push('/') + renamed);
        lemma_names_concat(x, '/', renamed, by);
        lemma_names_concat(x, '/', Seq::empty(), by);
        assert(before =~= x.push('/') + Seq::<char>::empty());
    }
    assert(names(q.skip(start), by) =~= names(before, by).push(renamed));
    assert(components(os, q) =~= (leading(os, p) + as_components(names(before, by))).push(
        PathComponent::Name(renamed),
    ));
}

/// A stem with a dot and an extension has that extension, and no separator where neither of the
/// two has one.
proof fn lemma_extended_name(stem: Seq<char>, ext: Seq<char>)
    requires
        stem.len() > 0,
        ext.len() > 0,
        !ext.contains('.'),
        !ext.contains('/'),
        !stem.contains('/'),
    ensures
        name_extension(stem + seq!['.'] + ext) == Some(ext),
        !(stem + seq!['.'] + ext).contains('/'),
        !is_dots(stem + seq!['.'] + ext),
{
    let name = stem + seq!['.'] + ext;
    let k = stem.len() as int;
    lemma_last_position(name, '.');
    assert(name[k] == '.');
    assert forall|j: int| k < j < name.len() implies name[j] != '.' && name[j] != '/' by {
        assert(ext.contains(ext[j - k - 1]));
    }
    assert forall|j: int| 0 <= j < k implies name[j] != '/' by {
        assert(stem.contains(stem[j]));
    }
    assert(last_position(name, '.') == k);
    assert(name.skip(k + 1) =~= ext);
}

/// The text of a path with another extension.
proof fn lemma_extension_text(os: Platform, p: Seq<char>, ext: Seq<char>, at: int)
    requires
        file_name(os, p) is Some,
        ext.len() > 0,
        ({
            let name = file_name(os, p)->0;
            let start = body_start(os, p);
            &&& 0 <= at
            &&& at + name.len() <= p.len()
            &&& name == p.subrange(at, at + name.len())
            &&& start + names_end(p.skip(start), inner_separators(os, p)) == at + name.len()
        }),
    ensures
        with_extension(os, p, ext) == p.take(at) + (name_stem(file_name(os, p)->0) + seq!['.']
            + ext),
        name_stem(file_name(os, p)->0).len() <= file_name(os, p)->0.len(),
        file_name(os, p)->0.len() > 0 ==> name_stem(file_name(os, p)->0).len() > 0,
        !file_name(os, p)->0.contains('/') ==> !name_stem(file_name(os, p)->0).contains('/'),
{
    let name = file_name(os, p)->0;
    lemma_last_position(name, '.');
    let dot = last_position(name, '.');
    let k = if dot <= 0 { name.len() as int } else { dot };
    assert(name_stem(name) =~= name.take(k));
    assert(with_extension(os, p, ext) == p.take(at + k).push('.') + ext);
    assert(p.take(at + k) =~= p.take(at) + name.take(k));
    assert(with_extension(os, p, ext) =~= p.take(at) + (name.take(k) + seq!['.'] + ext));
    assert(name_stem(name).contains('/') ==> name.contains('/')) by {
        if name_stem(name).contains('/') {
            let j = choose|j: int| 0 <= j < k && name.take(k)[j] == '/';
            assert(name[j] == '/');
        }
    }
}

/// A name without its extension and the dot before that.
pub open spec fn name_stem(name: Seq<char>) -> Seq<char> {
    match name_extension(name) {
        None => name,
        Some(had) => name.take(name.len() - had.len() - 1),
    }
}

/// A last component that is a name is the file name.
proof fn lemma_last_is_file_name(
    os: Platform,
    p: Seq<char>,
    parts: Seq<PathComponent>,
    name: Seq<char>,
)
    requires
        components(os, p) == parts.push(PathComponent::Name(name)),
        !is_dots(name),
    ensures
        file_name(os, p) == Some(name),
{
    assert(components(os, p).last() == PathComponent::Name(name));
}

/// Where only slashes separate, another extension takes the place of the one that the file name
/// has, or follows the name that has none; the directories stay.
pub proof fn law_extensions_are_replaced(os: Platform, p: Seq<char>, ext: Seq<char>)
    requires
        os != Platform::Windows,
        file_name(os, p) is Some,
        ext.len() > 0,
        !ext.contains('/'),
        !ext.contains('.'),
    ensures
        ({
            let name = file_name(os, p)->0;
            let q = with_extension(os, p, ext);
            let stem = name_stem(name);
            &&& has_extension(os, q, ext)
            &&& file_name(os, q) == Some(stem + seq!['.'] + ext)
            &&& components(os, q) == components(os, p).drop_last().push(
                PathComponent::Name(stem + seq!['.'] + ext),
            )
        }),
{
    let name = file_name(os, p)->0;
    let q = with_extension(os, p, ext);
    let at = lemma_file_name_place(os, p);
    let stem = name_stem(name);
    let renamed = stem + seq!['.'] + ext;
    lemma_extension_text(os, p, ext, at);
    lemma_extended_name(stem, ext);
    assert(name[0] == p[at]);
    assert(name.contains(name[0]));
    assert(renamed != seq!['.']);
    lemma_renamed_components(os, p, at, renamed);
    lemma_last_is_file_name(os, q, components(os, p).drop_last(), renamed);
}

/// The editor opens the sources of LaTeX and Typst, bibliographies, styles and plain text, and
/// the tree shows whatever the editor opens.
pub proof fn law_sources_open_in_the_editor(os: Platform, p: Seq<char>)
    ensures
        has_extension(os, p, "tex"@) || has_extension(os, p, "typ"@) ==> text_file(os, p),
        has_extension(os, p, "bib"@) ==> text_file(os, p),
        has_extension(os, p, "sty"@) || has_extension(os, p, "cls"@) ==> text_file(os, p),
        has_extension(os, p, "md"@) || has_extension(os, p, "txt"@) ==> text_file(os, p),
        text_file(os, p) ==> tree_file(os, p),
        extension(os, p) is None ==> !tree_file(os, p),
        extension(os, p) matches Some(ext) ==> ext.len() > 3 ==> !text_file(os, p),
{
    reveal_strlit("tex");
    reveal_strlit("typ");
    reveal_strlit("bib");
    reveal_strlit("sty");
    reveal_strlit("cls");
    reveal_strlit("md");
    reveal_strlit("txt");
}

/// Two dots lead back out of a directory, and a dot leads nowhere.
pub proof fn law_dots_are_followed(start: Seq<Seq<char>>, name: Seq<char>)
    requires
        !is_dots(name),
    ensures
        resolved(start, seq![name]) == start.push(name),
        resolved(start, seq![seq!['.']]) == start,
        resolved(start, seq![name, seq!['.', '.']]) == start,
        start.len() > 0 && !is_dots(start.last()) ==> resolved(start, seq![seq!['.', '.']])
            == start.drop_last(),
{
    assert(seq![name].drop_last() =~= Seq::<Seq<char>>::empty());
    assert(seq![seq!['.']].drop_last() =~= Seq::<Seq<char>>::empty());
    assert(seq![seq!['.', '.']].drop_last() =~= Seq::<Seq<char>>::empty());
    assert(seq![name, seq!['.', '.']].drop_last() =~= seq![name]);
    assert(resolved(start, Seq::empty()) == start);
    assert(resolved(start, seq![name]) == start.push(name));
    assert(seq!['.', '.'].len() != seq!['.'].len());
    assert(start.push(name).drop_last() =~= start);
}

/// Where only slashes separate, a name below a folder is the file name of the path, which lies in
/// that folder.
pub proof fn law_names_stand_below_their_folder(os: Platform, folder: Seq<char>, name: Seq<char>)
    requires
        os != Platform::Windows,
        name.len() > 0,
        !name.contains('/'),
        !name.contains('\\'),
        !is_dots(name),
    ensures
        file_name(os, joined(os, folder, name)) == Some(name),
        is_below(os, joined(os, folder, name), folder),
        components(os, joined(os, folder, name)).len() == components(os, folder).len() + 1,
{
    lemma_plain_name(os, name);
    law_complete_prefixes_stay(os, folder, name);
    lemma_joined_components(os, folder, name);
    let q = joined(os, folder, name);
    assert(components(os, q) =~= components(os, folder).push(PathComponent::Name(name)));
    lemma_last_is_file_name(os, q, components(os, folder), name);
}

} // verus!
