//! The entries of a project: how the file tree lists them, and how they are
//! created, renamed and deleted.

use vstd::prelude::*;
use crate::chars::{contains, trim, trimmed};
use crate::config_editor::message;
use crate::model::{opt_text, DeletionTarget, Project, ProjectEntry};
use crate::order::{
    lemma_order_total, lemma_order_transitive, text_before_in_order, text_less,
};
use crate::papers::toasted;
use crate::path_parts::{
    components, main_separator, models, path_components, prefix, PathComponent, PathPart,
    PrefixKind,
};
use crate::paths::{
    file_name, goes_down, is_below, is_dots, is_project_text_file, is_project_tree_file, joined,
    lemma_joined_components, lemma_parent_is_started, lemma_plain_name, parent, path_eq,
    path_file_name, path_join, path_parent, path_starts_with, same_path, text_file, tree_file,
    names_dots,
};
use crate::projects::{
    entry_at, find_entry, find_project, law_entries_are_found_by_path,
    law_projects_are_found_by_path, project_at,
};
use crate::select::{clamp_selection, clamped_selection};
use crate::state::{App, AppMode, ProjectEditor, ProjectPane, ProjectState};
use crate::text::{from_chars, group_points, same_text, to_chars};
use crate::workspace::{file_shown, open_project_file};
use crate::viewer::Platform;

verus! {

broadcast use group_points;

/// An entry that the file tree shows: any folder but that of the version
/// control, and the files that the project works with.
pub open spec fn is_listed(os: Platform, entry: ProjectEntry) -> bool {
    file_name(os, entry.path@) != Some(".git"@) && (entry.is_dir || tree_file(os, entry.path@))
}

/// A missing name comes before every name.
pub open spec fn name_before(a: Option<Seq<char>>, b: Option<Seq<char>>) -> bool {
    match (a, b) {
        (None, Some(_)) => true,
        (Some(x), Some(y)) => text_before_in_order(x, y),
        _ => false,
    }
}

/// Folders come before files, and otherwise the names decide.
pub open spec fn entry_before(os: Platform, a: ProjectEntry, b: ProjectEntry) -> bool {
    a.is_dir && !b.is_dir || a.is_dir == b.is_dir && name_before(
        file_name(os, a.path@),
        file_name(os, b.path@),
    )
}

/// No entry comes after one that it should come before.
pub open spec fn in_tree_order(os: Platform, v: Seq<ProjectEntry>) -> bool {
    forall|i: int, j: int| 0 <= i < j < v.len() ==> !entry_before(
        os,
        #[trigger] v[j],
        #[trigger] v[i],
    )
}

/// The order of the file tree is transitive.
pub proof fn law_tree_order_is_transitive(
    os: Platform,
    a: ProjectEntry,
    b: ProjectEntry,
    c: ProjectEntry,
)
    requires
        entry_before(os, a, b),
        entry_before(os, b, c),
    ensures
        entry_before(os, a, c),
{
    if a.is_dir == b.is_dir && b.is_dir == c.is_dir {
        if let (Some(x), Some(y), Some(z)) = (
            file_name(os, a.path@),
            file_name(os, b.path@),
            file_name(os, c.path@),
        ) {
            lemma_order_transitive(x, y, z);
        }
    }
}

fn comes_before(os: Platform, a: &ProjectEntry, b: &ProjectEntry) -> (r: bool)
    ensures
        r == entry_before(os, *a, *b),
{
    if a.is_dir != b.is_dir {
        return a.is_dir;
    }
    match (path_file_name(os, a.path.as_str()), path_file_name(os, b.path.as_str())) {
        (None, Some(_)) => true,
        (Some(x), Some(y)) => text_less(x.as_str(), y.as_str()),
        _ => false,
    }
}

fn shown_in_tree(os: Platform, entry: &ProjectEntry) -> (r: bool)
    ensures
        r == is_listed(os, *entry),
{
    let hidden = match path_file_name(os, entry.path.as_str()) {
        Some(name) => same_text(name.as_str(), ".git"),
        None => false,
    };
    !hidden && (entry.is_dir || is_project_tree_file(os, entry.path.as_str()))
}

/// The first index from `i` on at which `entry` comes before what is there.
pub open spec fn place_of(os: Platform, v: Seq<ProjectEntry>, entry: ProjectEntry, i: int) -> int
    decreases v.len() - i,
{
    if i < 0 || i >= v.len() || entry_before(os, entry, v[i]) {
        i
    } else {
        place_of(os, v, entry, i + 1)
    }
}

/// What the file tree shows of a folder: the entries in their order, those that
/// are equal in the order of the folder.
pub open spec fn listed_entries(os: Platform, listing: Seq<ProjectEntry>) -> Seq<ProjectEntry>
    decreases listing.len(),
{
    if listing.len() == 0 {
        Seq::empty()
    } else {
        let rest = listed_entries(os, listing.drop_last());
        if is_listed(os, listing.last()) {
            rest.insert(place_of(os, rest, listing.last(), 0), listing.last())
        } else {
            rest
        }
    }
}

/// Puts an entry in its place of an ordered list, after those that equal it.
fn insert_entry(os: Platform, v: &mut Vec<ProjectEntry>, entry: ProjectEntry)
    requires
        in_tree_order(os, old(v)@),
    ensures
        in_tree_order(os, final(v)@),
        final(v)@ == old(v)@.insert(place_of(os, old(v)@, entry, 0), entry),
        final(v)@.to_multiset() == old(v)@.to_multiset().insert(entry),
{
    let ghost before = v@;
    let mut i: usize = 0;
    while i < v.len() && !comes_before(os, &entry, &v[i])
        invariant
            i <= v@.len(),
            v@ == before,
            place_of(os, before, entry, 0) == place_of(os, before, entry, i as int),
            forall|k: int| 0 <= k < i ==> !entry_before(os, entry, #[trigger] before[k]),
        decreases v.len() - i,
    {
        i = i + 1;
    }
    v.insert(i, entry);
    let ghost after = v@;
    proof {
        assert(after =~= before.insert(i as int, entry));
        vstd::seq_lib::to_multiset_insert(before, i as int, entry);
        assert forall|a: int, b: int| 0 <= a < b < after.len() implies !entry_before(
            os,
            #[trigger] after[b],
            #[trigger] after[a],
        ) by {
            if b == i {
                assert(after[a] == before[a]);
            } else if a == i {
                assert(after[b] == before[b - 1]);
                if entry_before(os, before[b - 1], entry) {
                    law_tree_order_is_transitive(os, before[b - 1], entry, before[i as int]);
                    if b - 1 > i {
                        assert(!entry_before(os, before[b - 1], before[i as int]));
                    } else {
                        lemma_not_before_itself(os, before[i as int]);
                    }
                }
            } else {
                let x = if a < i { a } else { a - 1 };
                let y = if b < i { b } else { b - 1 };
                assert(after[a] == before[x] && after[b] == before[y]);
                assert(!entry_before(os, before[y], before[x]));
            }
        }
    }
}

proof fn lemma_not_before_itself(os: Platform, a: ProjectEntry)
    ensures
        !entry_before(os, a, a),
{
    if let Some(x) = file_name(os, a.path@) {
        crate::order::lemma_order_total(x, x);
    }
}

/// What the file tree shows of a folder that holds `listing`: folders first, each
/// kind by name.
pub fn project_tree_entries(os: Platform, listing: &Vec<ProjectEntry>) -> (r: Vec<ProjectEntry>)
    ensures
        r@ == listed_entries(os, listing@),
        in_tree_order(os, r@),
        r@.to_multiset() == listing@.filter(|e: ProjectEntry| is_listed(os, e)).to_multiset(),
{
    let mut r: Vec<ProjectEntry> = Vec::new();
    let mut i: usize = 0;
    let ghost keep = |e: ProjectEntry| is_listed(os, e);
    proof {
        reveal(Seq::filter);
        assert(listing@.take(0) =~= Seq::<ProjectEntry>::empty());
        assert(r@ =~= listing@.take(0).filter(keep));
    }
    while i < listing.len()
        invariant
            i <= listing@.len(),
            keep == (|e: ProjectEntry| is_listed(os, e)),
            in_tree_order(os, r@),
            r@ == listed_entries(os, listing@.take(i as int)),
            r@.to_multiset() == listing@.take(i as int).filter(keep).to_multiset(),
        decreases listing.len() - i,
    {
        proof {
            reveal(Seq::filter);
            assert(listing@.take(i + 1).drop_last() =~= listing@.take(i as int));
            assert(listing@.take(i + 1).last() == listing@[i as int]);
            vstd::seq_lib::to_multiset_build(
                listing@.take(i as int).filter(keep),
                listing@[i as int],
            );
        }
        if shown_in_tree(os, &listing[i]) {
            insert_entry(os, &mut r, listing[i].clone());
        }
        i = i + 1;
    }
    assert(listing@.take(listing@.len() as int) =~= listing@);
    r
}

/// A text without the slashes at its end.
pub open spec fn without_end_slashes(s: Seq<char>) -> Seq<char>
    decreases s.len(),
{
    if s.len() > 0 && s.last() == '/' {
        without_end_slashes(s.drop_last())
    } else {
        s
    }
}

/// The name asks for a folder.
pub open spec fn names_folder(name: Seq<char>) -> bool {
    trimmed(name).len() > 0 && trimmed(name).last() == '/'
}

/// The path below the project that a name stands for.
pub open spec fn named_path(name: Seq<char>) -> Seq<char> {
    without_end_slashes(trimmed(name))
}

/// A file or folder that is to be created.
#[derive(Debug)]
pub struct NewEntry {
    pub path: String,
    pub is_directory: bool,
}

/// Whether a relative path goes nowhere but down.
fn leads_down(os: Platform, relative: &str) -> (r: bool)
    ensures
        r == goes_down(os, relative@),
{
    let v = path_components(os, relative);
    assert(v@.len() == models(v@).len());
    let mut i: usize = 0;
    while i < v.len()
        invariant
            i <= v@.len(),
            models(v@) == components(os, relative@),
            v@.len() == models(v@).len(),
            forall|k: int|
                0 <= k < i ==> (#[trigger] components(os, relative@)[k] matches PathComponent::Name(
                    name,
                ) && !is_dots(name)),
        decreases v.len() - i,
    {
        assert(models(v@)[i as int] == v@[i as int].model());
        let down = match &v[i] {
            PathPart::Name(name) => !names_dots(name.as_str()),
            _ => false,
        };
        if !down {
            assert(!goes_down(os, relative@));
            return false;
        }
        i = i + 1;
    }
    v.len() > 0
}

/// What is to be created below `root` for a name that the user gave: a folder
/// where the name ends in a slash, and a file otherwise.
pub fn project_file_target(os: Platform, root: &str, name: &str) -> (r: Result<NewEntry, String>)
    ensures
        match r {
            Ok(entry) => {
                &&& goes_down(os, named_path(name@))
                &&& entry.path@ == joined(os, root@, named_path(name@))
                &&& entry.is_directory == names_folder(name@)
            },
            Err(error) => !goes_down(os, named_path(name@)) && error@
                == "enter a relative file path inside the project"@,
        },
{
    let name = trim(name);
    let v = to_chars(name.as_str());
    let length: usize = v.len();
    let mut end: usize = length;
    assert(v@.take(length as int) =~= v@);
    while end > 0 && v[end - 1] == '/'
        invariant
            end <= length,
            length == v@.len(),
            v@ == name@,
            without_end_slashes(v@) == without_end_slashes(v@.take(end as int)),
        decreases end,
    {
        assert(v@.take(end as int).drop_last() =~= v@.take(end - 1));
        end = end - 1;
    }
    proof {
        assert(v@.subrange(0, end as int) =~= v@.take(end as int));
    }
    let relative = from_chars(&v, 0, end);
    if !leads_down(os, relative.as_str()) {
        return Err("enter a relative file path inside the project".to_owned());
    }
    Ok(
        NewEntry {
            path: path_join(os, root, relative.as_str()),
            is_directory: length > 0 && v[length - 1] == '/',
        },
    )
}

/// What is created for a name lies below the project, unless the name completes the
/// prefix that the project starts with.
pub proof fn law_created_entries_stay_inside(os: Platform, root: Seq<char>, name: Seq<char>)
    requires
        goes_down(os, named_path(name)),
        prefix(os, joined(os, root, named_path(name))) == prefix(os, root),
    ensures
        is_below(os, joined(os, root, named_path(name)), root),
        !same_path(os, joined(os, root, named_path(name)), root),
{
    let whole = joined(os, root, named_path(name));
    lemma_joined_components(os, root, named_path(name));
    assert(components(os, whole).subrange(0, components(os, root).len() as int) =~= components(
        os,
        root,
    ));
}

/// Where to look for a folder that exists, when `ancestor` does not: above it.
pub fn ancestor_above(os: Platform, ancestor: &str) -> (r: Result<String, String>)
    ensures
        match r {
            Ok(above) => parent(os, ancestor@) == Some(above@),
            Err(error) => parent(os, ancestor@) is None && error@
                == "enter a relative file path inside the project"@,
        },
{
    match path_parent(os, ancestor) {
        Some(above) => Ok(above),
        None => Err("enter a relative file path inside the project".to_owned()),
    }
}

/// Whether a folder, with every link resolved, lies in the project.
pub fn check_inside(os: Platform, folder: &str, root: &str) -> (r: Result<(), String>)
    ensures
        match r {
            Ok(_) => is_below(os, folder@, root@),
            Err(error) => !is_below(os, folder@, root@) && error@
                == "file path must stay inside the project"@,
        },
{
    if path_starts_with(os, folder, root) {
        Ok(())
    } else {
        Err("file path must stay inside the project".to_owned())
    }
}

/// Why a file or folder could not be created: `error`, unless there was one.
pub fn creation_error(is_directory: bool, already_exists: bool, error: String) -> (r: String)
    ensures
        r@ == if !already_exists {
            error@
        } else if is_directory {
            "already exists"@
        } else {
            "a file with that name already exists"@
        },
{
    if !already_exists {
        error
    } else if is_directory {
        "already exists".to_owned()
    } else {
        "a file with that name already exists".to_owned()
    }
}

/// The folder that the file tree shows.
pub open spec fn shown_folder(p: ProjectState) -> Option<Seq<char>> {
    match p.active {
        None => None,
        Some(project) => match p.tree_dir {
            Some(dir) => Some(dir@),
            None => Some(project.path@),
        },
    }
}

/// The folder in which an entry is to be created.
pub fn creation_folder(p: &ProjectState) -> (r: Option<String>)
    ensures
        opt_text(r) == shown_folder(*p),
{
    match &p.active {
        None => None,
        Some(project) => match &p.tree_dir {
            Some(dir) => Some(dir.clone()),
            None => Some(project.path.clone()),
        },
    }
}

/// What became of an entry that was created: where it is, whether it is a file,
/// what its folder holds, and its text.
#[derive(Debug)]
pub struct CreatedEntry {
    pub path: String,
    pub is_file: bool,
    pub entries: Vec<ProjectEntry>,
    pub text: Result<String, String>,
}

/// The index of a path among the entries, zero where it is not there.
pub open spec fn entry_or_first(
    os: Platform,
    entries: Seq<ProjectEntry>,
    path: Seq<char>,
) -> usize {
    match entry_at(os, entries, path, 0) {
        Some(i) => i as usize,
        None => 0,
    }
}

fn find_entry_or_first(os: Platform, entries: &Vec<ProjectEntry>, path: &str) -> (r: usize)
    ensures
        r == entry_or_first(os, entries@, path@),
{
    match find_entry(os, entries, path) {
        Some(i) => i,
        None => 0,
    }
}

/// The created entry opens in the editor.
pub open spec fn opens_created(os: Platform, created: CreatedEntry) -> bool {
    created.is_file && text_file(os, created.path@) && created.text is Ok
}

/// The file tree shows a created entry, and the editor opens it where it is a
/// text.
pub open spec fn entry_created(pre: App, name: Seq<char>, created: CreatedEntry, post: App) -> bool {
    &&& post == App {
        toast: post.toast,
        project: ProjectState {
            files: created.entries,
            file_selected: entry_or_first(pre.platform, created.entries@, created.path@),
            pane: if opens_created(pre.platform, created) {
                ProjectPane::Editor
            } else {
                ProjectPane::FileTree
            },
            ..pre.project
        },
        project_editor: post.project_editor,
        ..pre
    }
    &&& opt_text(post.toast) == Some(
        if names_folder(name) {
            "Created folder"@
        } else {
            "Created file"@
        },
    )
    &&& if opens_created(pre.platform, created) {
        &&& file_shown(pre.project_editor, post.project_editor)
        &&& post.project_editor.path == Some(created.path)
        &&& post.project_editor.text == created.text->Ok_0
    } else {
        post.project_editor == pre.project_editor
    }
}

/// Shows an entry that was created, or why it was not.
pub fn create_project_entry(app: &mut App, name: &str, created: Result<CreatedEntry, String>)
    ensures
        if old(app).project.active is None {
            toasted(*old(app), "Could not create file: no project is open."@, *final(app))
        } else {
            match created {
                Err(error) => toasted(
                    *old(app),
                    "Could not create file: "@ + error@,
                    *final(app),
                ),
                Ok(created) => entry_created(*old(app), name@, created, *final(app)),
            }
        },
        old(app).wf() ==> final(app).wf(),
{
    if app.project.active.is_none() {
        app.toast = Some("Could not create file: no project is open.".to_owned());
        return ;
    }
    match created {
        Err(error) => {
            app.toast = Some(message("Could not create file: ", error.as_str()));
        },
        Ok(created) => {
            let selected: usize = find_entry_or_first(
                app.platform,
                &created.entries,
                created.path.as_str(),
            );
            app.project.files = created.entries;
            app.project.file_selected = selected;
            app.project.pane = ProjectPane::FileTree;
            if created.is_file && is_project_text_file(app.platform, created.path.as_str()) {
                open_project_file(app, created.path, created.text);
            }
            let name = trim(name);
            let v = to_chars(name.as_str());
            app.toast = Some(
                if v.len() > 0 && v[v.len() - 1] == '/' {
                    "Created folder".to_owned()
                } else {
                    "Created file".to_owned()
                },
            );
        },
    }
}

/// A single name, with no separator in it.
pub open spec fn single_name(name: Seq<char>) -> bool {
    &&& name.len() > 0
    &&& !name.contains('/')
    &&& !name.contains('\\')
    &&& name != seq!['.']
    &&& name != seq!['.', '.']
}

fn is_single_name(name: &str) -> (r: bool)
    ensures
        r == single_name(name@),
{
    if names_dots(name) {
        return false;
    }
    let v = to_chars(name);
    if v.len() == 0 {
        return false;
    }
    let mut i: usize = 0;
    while i < v.len()
        invariant
            i <= v@.len(),
            v@ == name@,
            forall|k: int| 0 <= k < i ==> v@[k] != '/' && v@[k] != '\\',
        decreases v.len() - i,
    {
        if v[i] == '/' || v[i] == '\\' {
            assert(name@.contains(v@[i as int]));
            return false;
        }
        i = i + 1;
    }
    true
}

/// The new path of an entry that is to be renamed, or why it cannot be.
pub open spec fn rename_target(
    os: Platform,
    p: ProjectState,
    path: Seq<char>,
    name: Seq<char>,
) -> Result<
    Seq<char>,
    Seq<char>,
> {
    match p.active {
        None => Err("Could not rename entry: no project is open."@),
        Some(project) => if !single_name(trimmed(name)) {
            Err("Could not rename entry: enter a single file or folder name."@)
        } else {
            match parent(os, path) {
                None => Err("Could not rename entry: invalid path."@),
                Some(folder) => if is_below(os, path, project.path@) {
                    Ok(joined(os, folder, trimmed(name)))
                } else {
                    Err("Could not rename entry outside the project."@)
                },
            }
        },
    }
}

/// The new path of an entry that is to be renamed; a toast says why there is
/// none.
pub fn rename_project_entry(app: &mut App, path: &str, name: &str) -> (renamed: Option<String>)
    ensures
        match rename_target(old(app).platform, old(app).project, path@, name@) {
            Ok(target) => opt_text(renamed) == Some(target) && *final(app) == *old(app),
            Err(error) => renamed is None && toasted(*old(app), error, *final(app)),
        },
        old(app).wf() ==> final(app).wf(),
{
    let inside = match &app.project.active {
        None => {
            app.toast = Some("Could not rename entry: no project is open.".to_owned());
            return None;
        },
        Some(project) => path_starts_with(app.platform, path, project.path.as_str()),
    };
    let name = trim(name);
    if !is_single_name(name.as_str()) {
        app.toast = Some(
            "Could not rename entry: enter a single file or folder name.".to_owned(),
        );
        return None;
    }
    match path_parent(app.platform, path) {
        None => {
            app.toast = Some("Could not rename entry: invalid path.".to_owned());
            None
        },
        Some(folder) => if inside {
            Some(path_join(app.platform, folder.as_str(), name.as_str()))
        } else {
            app.toast = Some("Could not rename entry outside the project.".to_owned());
            None
        },
    }
}

/// The text of components that have no prefix.
pub open spec fn spelled(os: Platform, parts: Seq<PathComponent>) -> Seq<char>
    decreases parts.len(),
{
    if parts.len() == 0 {
        Seq::empty()
    } else {
        let before = spelled(os, parts.drop_last());
        match parts.last() {
            PathComponent::Name(name) => if parts.len() > 1 && parts[parts.len() - 2] is Name {
                before.push(main_separator(os)) + name
            } else {
                before + name
            },
            _ => before.push(main_separator(os)),
        }
    }
}

/// The path of something at or below `from`, once that is called `to`. A path with a
/// prefix below one that has no components stays.
pub open spec fn moved_path(
    os: Platform,
    path: Seq<char>,
    from: Seq<char>,
    to: Seq<char>,
) -> Seq<char> {
    let rest = components(os, path).skip(components(os, from).len() as int);
    if rest.len() == 0 {
        to
    } else if rest[0] is Prefix {
        path
    } else {
        joined(os, to, spelled(os, rest))
    }
}

/// The path of something at or below `from`, once that is called `to`; nothing for
/// a path elsewhere.
pub fn path_after_move(os: Platform, path: &str, from: &str, to: &str) -> (r: Option<String>)
    ensures
        opt_text(r) == if is_below(os, path@, from@) {
            Some(moved_path(os, path@, from@, to@))
        } else {
            None
        },
{
    if !path_starts_with(os, path, from) {
        return None;
    }
    let v = path_components(os, path);
    let start: usize = path_components(os, from).len();
    assert(v@.len() == models(v@).len());
    assert(start == components(os, from@).len());
    let ghost rest = components(os, path@).skip(start as int);
    if start == v.len() {
        return Some(to.to_owned());
    }
    assert(rest[0] == models(v@)[start as int] && rest[0] == v@[start as int].model());
    if let PathPart::Prefix(..) = &v[start] {
        return Some(path.to_owned());
    }
    let separator = if os == Platform::Windows {
        '\\'
    } else {
        '/'
    };
    let mut text = String::new();
    let mut i: usize = start;
    let mut after_name = false;
    assert(rest.take(0) =~= Seq::<PathComponent>::empty());
    assert(text@ =~= Seq::<char>::empty());
    while i < v.len()
        invariant
            start <= i <= v@.len(),
            models(v@) == components(os, path@),
            v@.len() == models(v@).len(),
            rest == components(os, path@).skip(start as int),
            separator == main_separator(os),
            after_name == (i > start && rest[i - start - 1] is Name),
            text@ == spelled(os, rest.take(i - start)),
        decreases v.len() - i,
    {
        proof {
            assert(rest.take(i + 1 - start).drop_last() =~= rest.take(i - start));
            assert(rest.take(i + 1 - start).last() == rest[i - start]);
            assert(models(v@)[i as int] == v@[i as int].model());
        }
        match &v[i] {
            PathPart::Name(name) => {
                if after_name {
                    text.push(separator);
                }
                text.append(name.as_str());
                after_name = true;
            },
            _ => {
                text.push(separator);
                after_name = false;
            },
        }
        i = i + 1;
    }
    assert(rest.take(v@.len() - start) =~= rest);
    Some(path_join(os, to, text.as_str()))
}

/// The file in the editor follows a renamed entry that it lies in.
pub open spec fn editor_moved(
    os: Platform,
    e: ProjectEditor,
    from: Seq<char>,
    to: Seq<char>,
    post: ProjectEditor,
) -> bool {
    &&& post == ProjectEditor { path: post.path, ..e }
    &&& opt_text(post.path) == match e.path {
        Some(path) => Some(
            if is_below(os, path@, from) {
                moved_path(os, path@, from, to)
            } else {
                path@
            },
        ),
        None => None,
    }
}

fn move_editor(os: Platform, e: &mut ProjectEditor, from: &str, to: &str)
    ensures
        editor_moved(os, *old(e), from@, to@, *final(e)),
{
    let moved = match &e.path {
        Some(edited) => path_after_move(os, edited.as_str(), from, to),
        None => None,
    };
    if moved.is_some() {
        e.path = moved;
    }
}

/// Takes over that an entry was renamed: the entries of its folder, or why it was
/// not.
pub fn finish_entry_rename(
    app: &mut App,
    path: &str,
    renamed: &str,
    result: Result<Vec<ProjectEntry>, String>,
)
    ensures
        match result {
            Err(error) => toasted(
                *old(app),
                "Could not rename entry: "@ + error@,
                *final(app),
            ),
            Ok(entries) => {
                &&& *final(app) == (App {
                    toast: final(app).toast,
                    project: ProjectState {
                        files: entries,
                        file_selected: entry_or_first(old(app).platform, entries@, renamed@),
                        ..old(app).project
                    },
                    project_editor: final(app).project_editor,
                    ..*old(app)
                })
                &&& opt_text(final(app).toast) == Some("Renamed"@)
                &&& editor_moved(
                    old(app).platform,
                    old(app).project_editor,
                    path@,
                    renamed@,
                    final(app).project_editor,
                )
            },
        },
        old(app).wf() ==> final(app).wf(),
{
    match result {
        Err(error) => {
            app.toast = Some(message("Could not rename entry: ", error.as_str()));
        },
        Ok(entries) => {
            move_editor(app.platform, &mut app.project_editor, path, renamed);
            app.project.file_selected = find_entry_or_first(app.platform, &entries, renamed);
            app.project.files = entries;
            app.toast = Some("Renamed".to_owned());
        },
    }
}

/// Asks whether an entry is to be deleted.
pub fn confirm_entry_deletion(app: &mut App, path: String, is_directory: bool)
    ensures
        *final(app) == (App {
            mode: AppMode::ConfirmDelete,
            delete_confirmation: final(app).delete_confirmation,
            ..*old(app)
        }),
        final(app).delete_confirmation matches Some(
            DeletionTarget::ProjectEntry { path: target, name, is_directory: folder },
        ) && target == path && folder == is_directory && name@ == match file_name(
            old(app).platform,
            path@,
        ) {
            Some(name) => name,
            None => "entry"@,
        },
        old(app).wf() ==> final(app).wf(),
{
    let name = match path_file_name(app.platform, path.as_str()) {
        Some(name) => name,
        None => "entry".to_owned(),
    };
    app.delete_confirmation = Some(DeletionTarget::ProjectEntry { path, name, is_directory });
    app.mode = AppMode::ConfirmDelete;
}

/// Why an entry cannot be deleted: only what lies below the project can.
pub open spec fn deletion_refusal(
    os: Platform,
    p: ProjectState,
    path: Seq<char>,
) -> Option<Seq<char>> {
    match p.active {
        None => Some("Could not delete entry: no project is open."@),
        Some(project) => if same_path(
            os,
            path,
            project.path@,
        ) || !is_below(os, path, project.path@) {
            Some("Could not delete entry outside the project."@)
        } else {
            None
        },
    }
}

/// Whether an entry may be deleted; a toast says why not.
pub fn delete_project_entry(app: &mut App, path: &str) -> (allowed: bool)
    ensures
        match deletion_refusal(old(app).platform, old(app).project, path@) {
            None => allowed && *final(app) == *old(app),
            Some(refusal) => !allowed && toasted(*old(app), refusal, *final(app)),
        },
        old(app).wf() ==> final(app).wf(),
{
    let inside = match &app.project.active {
        None => {
            app.toast = Some("Could not delete entry: no project is open.".to_owned());
            return false;
        },
        Some(project) => !path_eq(app.platform, path, project.path.as_str()) && path_starts_with(
            app.platform,
            path,
            project.path.as_str(),
        ),
    };
    if !inside {
        app.toast = Some("Could not delete entry outside the project.".to_owned());
    }
    inside
}

/// Takes over that an entry was deleted: the entries of its folder, or why it was
/// not. The editor closes a file that is gone.
pub fn finish_entry_deletion(
    app: &mut App,
    path: &str,
    result: Result<Vec<ProjectEntry>, String>,
)
    ensures
        match result {
            Err(error) => toasted(
                *old(app),
                "Could not delete entry: "@ + error@,
                *final(app),
            ),
            Ok(entries) => {
                let edited = old(app).project_editor.path matches Some(edited) && same_path(
                    old(app).platform,
                    edited@,
                    path@,
                );
                &&& *final(app) == (App {
                    toast: final(app).toast,
                    project: ProjectState {
                        files: entries,
                        file_selected: clamped_selection(
                            old(app).project.file_selected as int,
                            entries@.len() as int,
                        ) as usize,
                        pane: if edited {
                            ProjectPane::FileTree
                        } else {
                            old(app).project.pane
                        },
                        ..old(app).project
                    },
                    project_editor: final(app).project_editor,
                    ..*old(app)
                })
                &&& opt_text(final(app).toast) == Some("Deleted"@)
                &&& if edited {
                    &&& final(app).project_editor == (ProjectEditor {
                        path: None,
                        text: final(app).project_editor.text,
                        dirty: false,
                        cursor: 0,
                        ..old(app).project_editor
                    })
                    &&& final(app).project_editor.text@.len() == 0
                } else {
                    final(app).project_editor == old(app).project_editor
                }
            },
        },
        old(app).wf() ==> final(app).wf(),
{
    match result {
        Err(error) => {
            app.toast = Some(message("Could not delete entry: ", error.as_str()));
        },
        Ok(entries) => {
            let edited = match &app.project_editor.path {
                Some(edited) => path_eq(app.platform, edited.as_str(), path),
                None => false,
            };
            app.project.file_selected = clamp_selection(
                app.project.file_selected,
                entries.len(),
            );
            app.project.files = entries;
            if edited {
                app.project_editor.path = None;
                app.project_editor.text = String::new();
                app.project_editor.dirty = false;
                app.project_editor.cursor = 0;
                app.project.pane = ProjectPane::FileTree;
                proof {
                    crate::text::lemma_ends(app.project_editor.text@);
                }
            }
            app.toast = Some("Deleted".to_owned());
        },
    }
}

/// The project folder itself is never deleted as an entry, nor anything outside
/// of it.
pub proof fn law_deletion_stays_inside(os: Platform, p: ProjectState, path: Seq<char>)
    requires
        deletion_refusal(os, p, path) is None,
    ensures
        p.active matches Some(project) && is_below(os, path, project.path@) && !same_path(
            os,
            path,
            project.path@,
        ),
{
}

/// A renamed entry stays in its folder, unless its new name starts with a drive or
/// completes the prefix that the folder starts with.
pub proof fn law_rename_stays_in_folder(
    os: Platform,
    p: ProjectState,
    path: Seq<char>,
    name: Seq<char>,
)
    requires
        rename_target(os, p, path, name) is Ok,
        prefix(os, trimmed(name)).kind == PrefixKind::Nothing,
        prefix(os, rename_target(os, p, path, name)->Ok_0) == prefix(os, parent(os, path)->0),
    ensures
        parent(os, path) matches Some(folder) && components(
            os,
            rename_target(os, p, path, name)->Ok_0,
        ) == components(os, folder).push(PathComponent::Name(trimmed(name))),
{
    let name = trimmed(name);
    let folder = parent(os, path)->0;
    lemma_plain_name(os, name);
    lemma_joined_components(os, folder, name);
    lemma_parent_is_started(os, path);
    assert(components(os, folder) + components(os, name) =~= components(os, folder).push(
        PathComponent::Name(name),
    ));
}

/// The index of a project in the list, zero where it is not there.
pub open spec fn project_or_first(os: Platform, projects: Seq<Project>, path: Seq<char>) -> usize {
    match project_at(os, projects, path, 0) {
        Some(i) => i as usize,
        None => 0,
    }
}

/// The list of projects is read anew and selects `path`, and a toast speaks of
/// what was done.
pub open spec fn projects_listed(
    pre: App,
    projects: Vec<Project>,
    path: Seq<char>,
    toast: Seq<char>,
    post: App,
) -> bool {
    &&& post == App {
        toast: post.toast,
        project: ProjectState {
            projects,
            selected: project_or_first(pre.platform, projects@, path),
            ..pre.project
        },
        ..pre
    }
    &&& opt_text(post.toast) == Some(toast)
}

fn list_projects(app: &mut App, projects: Vec<Project>, path: &str, toast: String)
    ensures
        projects_listed(*old(app), projects, path@, toast@, *final(app)),
        old(app).wf() ==> final(app).wf(),
{
    app.project.selected = match find_project(app.platform, &projects, path) {
        Some(i) => i,
        None => 0,
    };
    app.project.projects = projects;
    app.toast = Some(toast);
}

/// Takes over that a project was created.
pub fn finish_project_creation(app: &mut App, project: &Project, projects: Vec<Project>)
    ensures
        projects_listed(
            *old(app),
            projects,
            project.path@,
            "Created project "@ + project.name@,
            *final(app),
        ),
        old(app).wf() ==> final(app).wf(),
{
    let toast = message("Created project ", project.name.as_str());
    list_projects(app, projects, project.path.as_str(), toast);
}

/// Takes over that a project was renamed.
pub fn finish_project_rename(app: &mut App, renamed: &Project, projects: Vec<Project>)
    ensures
        projects_listed(
            *old(app),
            projects,
            renamed.path@,
            "Renamed project to "@ + renamed.name@,
            *final(app),
        ),
        old(app).wf() ==> final(app).wf(),
{
    let toast = message("Renamed project to ", renamed.name.as_str());
    list_projects(app, projects, renamed.path.as_str(), toast);
}

/// The project is the one that is open.
pub open spec fn is_active(os: Platform, p: ProjectState, project: Project) -> bool {
    p.active matches Some(active) && same_path(os, active.path@, project.path@)
}

/// Whether the project is the one that is open.
pub fn is_active_project(os: Platform, p: &ProjectState, project: &Project) -> (r: bool)
    ensures
        r == is_active(os, *p, *project),
{
    match &p.active {
        Some(active) => path_eq(os, active.path.as_str(), project.path.as_str()),
        None => false,
    }
}

/// Shows the file that was in the editor before its project was renamed. `text` is
/// what was read of it, nothing where that failed.
pub fn restore_project_editor(app: &mut App, path: String, text: Option<String>)
    ensures
        *final(app) == match text {
            Some(text) => (App {
                project: ProjectState { pane: ProjectPane::Editor, ..old(app).project },
                project_editor: ProjectEditor { path: Some(path), text, ..old(app).project_editor },
                ..*old(app)
            }),
            None => *old(app),
        },
        old(app).wf() && old(app).project_editor.cursor == 0 ==> final(app).wf(),
{
    if let Some(text) = text {
        proof {
            crate::text::lemma_ends(text@);
        }
        app.project_editor.path = Some(path);
        app.project_editor.text = text;
        app.project.pane = ProjectPane::Editor;
    }
}

/// Asks whether a project is to be deleted.
pub fn confirm_project_deletion(app: &mut App, project: Project)
    ensures
        *final(app) == (App {
            mode: AppMode::ConfirmDelete,
            delete_confirmation: Some(DeletionTarget::Project { project }),
            ..*old(app)
        }),
        old(app).wf() ==> final(app).wf(),
{
    app.delete_confirmation = Some(DeletionTarget::Project { project });
    app.mode = AppMode::ConfirmDelete;
}

/// Takes over that a project was deleted, once it is closed where it was open.
pub fn finish_project_deletion(app: &mut App, project: &Project, projects: Vec<Project>)
    ensures
        *final(app) == (App {
            toast: final(app).toast,
            project: ProjectState {
                pane: ProjectPane::ProjectList,
                projects,
                selected: clamped_selection(
                    old(app).project.selected as int,
                    projects@.len() as int,
                ) as usize,
                ..old(app).project
            },
            ..*old(app)
        }),
        opt_text(final(app).toast) == Some("Deleted project "@ + project.name@),
        old(app).wf() ==> final(app).wf(),
{
    app.project.pane = ProjectPane::ProjectList;
    app.project.selected = clamp_selection(app.project.selected, projects.len());
    app.project.projects = projects;
    app.toast = Some(message("Deleted project ", project.name.as_str()));
}

/// The file tree leaves out the folder of the version control and every file that the project
/// does not work with, and shows every other folder.
pub proof fn law_listed_entries(os: Platform, entry: ProjectEntry)
    ensures
        file_name(os, entry.path@) == Some(".git"@) ==> !is_listed(os, entry),
        entry.is_dir && file_name(os, entry.path@) != Some(".git"@) ==> is_listed(os, entry),
        !entry.is_dir && file_name(os, entry.path@) != Some(".git"@) ==> (is_listed(os, entry)
            <==> tree_file(os, entry.path@)),
{
}

/// Folders stand before files, and among either the names decide.
pub proof fn law_folders_stand_before_files(
    os: Platform,
    v: Seq<ProjectEntry>,
    i: int,
    j: int,
)
    requires
        in_tree_order(os, v),
        0 <= i < j < v.len(),
    ensures
        v[j].is_dir ==> v[i].is_dir,
        v[i].is_dir == v[j].is_dir ==> match (
            file_name(os, v[i].path@),
            file_name(os, v[j].path@),
        ) {
            (Some(a), Some(b)) => a == b || text_before_in_order(a, b),
            (Some(_), None) => false,
            _ => true,
        },
{
    assert(!entry_before(os, v[j], v[i]));
    match (file_name(os, v[i].path@), file_name(os, v[j].path@)) {
        (Some(a), Some(b)) => {
            lemma_order_total(a, b);
        },
        _ => {},
    }
}

/// A name that ends in a slash asks for a folder, and its slashes do not count for the path;
/// any other name is the path itself, without the white space round it.
pub proof fn law_slashes_ask_for_folders(name: Seq<char>)
    ensures
        trimmed(name).len() > 0 && trimmed(name).last() == '/' ==> names_folder(name),
        trimmed(name).len() == 0 || trimmed(name).last() != '/' ==> !names_folder(name)
            && named_path(name) == trimmed(name),
        named_path(name).len() == 0 || named_path(name).last() != '/',
        exists|k: int|
            0 <= k <= trimmed(name).len() && named_path(name) == #[trigger] trimmed(name).take(k)
                && forall|i: int| k <= i < trimmed(name).len() ==> trimmed(name)[i] == '/',
{
    let k = lemma_end_slashes(trimmed(name));
    assert(named_path(name) == trimmed(name).take(k));
}

proof fn lemma_end_slashes(s: Seq<char>) -> (k: int)
    ensures
        0 <= k <= s.len(),
        without_end_slashes(s) == s.take(k),
        forall|i: int| k <= i < s.len() ==> s[i] == '/',
        k == 0 || s[k - 1] != '/',
    decreases s.len(),
{
    if s.len() > 0 && s.last() == '/' {
        let k = lemma_end_slashes(s.drop_last());
        assert(s.drop_last().take(k) =~= s.take(k));
        assert forall|i: int| k <= i < s.len() implies s[i] == '/' by {
            if i < s.len() - 1 {
                assert(s.drop_last()[i] == '/');
            }
        }
        k
    } else {
        assert(s.take(s.len() as int) =~= s);
        s.len() as int
    }
}

/// A created entry is selected in the file tree, and a text opens in the editor, as it is, while
/// the editor keeps what it has for any other entry.
pub proof fn law_created_entries_are_shown(
    pre: App,
    name: Seq<char>,
    created: CreatedEntry,
    post: App,
)
    requires
        entry_created(pre, name, created, post),
    ensures
        post.project.files == created.entries,
        (exists|i: int|
            0 <= i < created.entries@.len() && same_path(
                pre.platform,
                (#[trigger] created.entries@[i]).path@,
                created.path@,
            )) ==> post.project.file_selected < created.entries@.len() && same_path(
            pre.platform,
            created.entries@[post.project.file_selected as int].path@,
            created.path@,
        ),
        ({
            let opens = created.is_file && text_file(pre.platform, created.path@)
                && created.text is Ok;
            &&& opens ==> post.project.pane == ProjectPane::Editor && post.project_editor.path
                == Some(created.path) && post.project_editor.text == created.text->Ok_0
                && post.project_editor.cursor == 0 && !post.project_editor.dirty
            &&& !opens ==> post.project.pane == ProjectPane::FileTree && post.project_editor
                == pre.project_editor
        }),
{
    law_entries_are_found_by_path(pre.platform, created.entries@, created.path@, 0);
    assert(created.entries.len() == created.entries@.len());
}

/// An entry is renamed in its folder to a single name, and nothing outside the open project is
/// renamed.
pub proof fn law_entries_are_renamed_in_place(
    os: Platform,
    p: ProjectState,
    path: Seq<char>,
    name: Seq<char>,
)
    ensures
        rename_target(os, p, path, name) matches Ok(target) ==> {
            &&& p.active is Some && is_below(os, path, p.active->0.path@)
            &&& parent(os, path) is Some && target == joined(
                os,
                parent(os, path)->0,
                trimmed(name),
            )
            &&& !trimmed(name).contains('/') && !trimmed(name).contains('\\')
            &&& trimmed(name).len() > 0
            &&& trimmed(name) != seq!['.'] && trimmed(name) != seq!['.', '.']
        },
        p.active is Some && single_name(trimmed(name)) && parent(os, path) is Some && is_below(
            os,
            path,
            p.active->0.path@,
        ) ==> rename_target(os, p, path, name) is Ok,
{
}

/// The file in the editor keeps its text when an entry is renamed, and its path unless it lies in
/// that entry.
pub proof fn law_edited_files_follow_renames(
    os: Platform,
    e: ProjectEditor,
    from: Seq<char>,
    to: Seq<char>,
    post: ProjectEditor,
)
    requires
        editor_moved(os, e, from, to, post),
    ensures
        post.text == e.text,
        post.cursor == e.cursor,
        post.dirty == e.dirty,
        post.undo == e.undo,
        e.path is None ==> post.path is None,
        e.path matches Some(path) ==> post.path is Some && (!is_below(os, path@, from)
            ==> post.path->0@ == path@) && (components(os, path@) == components(os, from)
            && is_below(os, path@, from) ==> post.path->0@ == to),
{
}

/// Only what lies below the open project, and is not the project itself, may be deleted.
pub proof fn law_deletions_are_refused_outside(os: Platform, p: ProjectState, path: Seq<char>)
    ensures
        deletion_refusal(os, p, path) is None <==> p.active is Some && is_below(
            os,
            path,
            p.active->0.path@,
        ) && !same_path(os, path, p.active->0.path@),
{
}

/// A project that was created or renamed is selected in the list that was read anew.
pub proof fn law_listed_projects_select_the_changed_one(
    pre: App,
    projects: Vec<Project>,
    path: Seq<char>,
    toast: Seq<char>,
    post: App,
)
    requires
        projects_listed(pre, projects, path, toast, post),
    ensures
        post.project.projects == projects,
        post.toast is Some && post.toast->0@ == toast,
        (exists|i: int|
            0 <= i < projects@.len() && same_path(
                pre.platform,
                (#[trigger] projects@[i]).path@,
                path,
            )) ==> post.project.selected < projects@.len() && same_path(
            pre.platform,
            projects@[post.project.selected as int].path@,
            path,
        ),
        post.project.active == pre.project.active,
{
    law_projects_are_found_by_path(pre.platform, projects@, path, 0);
    assert(projects.len() == projects@.len());
}

} // verus!
