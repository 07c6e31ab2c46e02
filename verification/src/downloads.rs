//! Downloads: starting and retrying them, following their progress, and finding
//! the files that earlier ones left.

use vstd::prelude::*;
use sha2::Digest;
use crate::chars::ends_with_text;
use crate::config_editor::message;
use crate::dialogs::download_of;
use crate::library::{index_summary, library_index_summary};
use crate::filters::{query_of, visible_downloads};
use crate::model::{
    clone_text, opt_text, DownloadStatus, DownloadTask, LibraryPaper, RemotePaper,
};
use crate::papers::toasted;
use crate::paths::{
    extension_is, has_extension, is_below, joined, last_position, lemma_last_position, path_join,
    path_starts_with, path_with_extension, with_extension,
};
use crate::select::{clamp_selection, clamped_selection};
use crate::state::{App, DownloadsState, LibraryState};
use crate::text::{from_chars, same_text, to_chars};
use crate::viewer::Platform;

verus! {

/// What is left of a list when only the marked items stay.
pub open spec fn kept<T>(items: Seq<T>, keep: Seq<bool>) -> Seq<T>
    decreases items.len(),
{
    if items.len() == 0 {
        items
    } else {
        let rest = kept(items.drop_last(), keep.drop_last());
        if keep.last() {
            rest.push(items.last())
        } else {
            rest
        }
    }
}

proof fn lemma_kept_is_filter<T>(items: Seq<T>, keep: Seq<bool>, p: spec_fn(T) -> bool)
    requires
        items.len() == keep.len(),
        forall|i: int| 0 <= i < items.len() ==> keep[i] == p(#[trigger] items[i]),
    ensures
        kept(items, keep) == items.filter(p),
    decreases items.len(),
{
    reveal(Seq::filter);
    if items.len() > 0 {
        assert forall|i: int| 0 <= i < items.len() - 1 implies keep.drop_last()[i] == p(
            #[trigger] items.drop_last()[i],
        ) by {
            assert(items.drop_last()[i] == items[i]);
        }
        lemma_kept_is_filter(items.drop_last(), keep.drop_last(), p);
    }
}

/// Drops the tasks that are not marked.
fn keep_tasks(items: &mut Vec<DownloadTask>, keep: &Vec<bool>)
    requires
        keep@.len() == old(items)@.len(),
    ensures
        final(items)@ == kept(old(items)@, keep@),
        final(items)@.len() <= old(items)@.len(),
{
    let ghost before = items@;
    let mut i: usize = 0;
    let mut j: usize = 0;
    assert(before.take(0) =~= Seq::<DownloadTask>::empty());
    assert(kept(before.take(0), keep@.take(0)) + before.skip(0) =~= before);
    while j < keep.len()
        invariant
            keep@.len() == before.len(),
            i <= j <= keep@.len(),
            i == kept(before.take(j as int), keep@.take(j as int)).len(),
            items@ == kept(before.take(j as int), keep@.take(j as int)) + before.skip(j as int),
        decreases keep.len() - j,
    {
        let ghost done = kept(before.take(j as int), keep@.take(j as int));
        proof {
            assert(before.take(j + 1).drop_last() =~= before.take(j as int));
            assert(keep@.take(j + 1).drop_last() =~= keep@.take(j as int));
            assert(before.take(j + 1).last() == before[j as int]);
            assert(keep@.take(j + 1).last() == keep@[j as int]);
        }
        if keep[j] {
            assert(items@ =~= done.push(before[j as int]) + before.skip(j + 1));
            i = i + 1;
        } else {
            items.remove(i);
            assert(items@ =~= done + before.skip(j + 1));
        }
        j = j + 1;
    }
    assert(before.take(keep@.len() as int) =~= before);
    assert(keep@.take(keep@.len() as int) =~= keep@);
    assert(before.skip(keep@.len() as int) =~= Seq::<DownloadTask>::empty());
    assert(items@ =~= kept(before, keep@));
}

/// The first task from index `i` on with the identifier.
pub open spec fn task_at(tasks: Seq<DownloadTask>, id: Seq<char>, i: int) -> Option<int>
    decreases tasks.len() - i,
{
    if i < 0 || i >= tasks.len() {
        None
    } else if tasks[i].id@ == id {
        Some(i)
    } else {
        task_at(tasks, id, i + 1)
    }
}

pub fn find_task(tasks: &Vec<DownloadTask>, id: &str) -> (r: Option<usize>)
    ensures
        r is Some == task_at(tasks@, id@, 0) is Some,
        r matches Some(i) ==> i == task_at(tasks@, id@, 0)->0 && i < tasks@.len(),
{
    let mut i: usize = 0;
    while i < tasks.len()
        invariant
            i <= tasks@.len(),
            task_at(tasks@, id@, 0) == task_at(tasks@, id@, i as int),
        decreases tasks.len() - i,
    {
        if same_text(tasks[i].id.as_str(), id) {
            return Some(i);
        }
        i = i + 1;
    }
    None
}

/// The first task from index `i` on of the paper.
pub open spec fn paper_task_at(tasks: Seq<DownloadTask>, paper_id: i64, i: int) -> Option<int>
    decreases tasks.len() - i,
{
    if i < 0 || i >= tasks.len() {
        None
    } else if tasks[i].paper_id == Some(paper_id) {
        Some(i)
    } else {
        paper_task_at(tasks, paper_id, i + 1)
    }
}

pub fn find_paper_task(tasks: &Vec<DownloadTask>, paper_id: i64) -> (r: Option<usize>)
    ensures
        r is Some == paper_task_at(tasks@, paper_id, 0) is Some,
        r matches Some(i) ==> i == paper_task_at(tasks@, paper_id, 0)->0 && i < tasks@.len(),
{
    let mut i: usize = 0;
    while i < tasks.len()
        invariant
            i <= tasks@.len(),
            paper_task_at(tasks@, paper_id, 0) == paper_task_at(tasks@, paper_id, i as int),
        decreases tasks.len() - i,
    {
        if let Some(found) = tasks[i].paper_id {
            if found == paper_id {
                return Some(i);
            }
        }
        i = i + 1;
    }
    None
}

/// The papers whose download is running, each under its identifier.
#[derive(Debug)]
pub struct PendingDownloads {
    pub papers: Vec<(String, RemotePaper)>,
}

impl PendingDownloads {
    /// Every identifier occurs once.
    pub open spec fn wf(self) -> bool {
        forall|i: int, j: int|
            0 <= i < j < self.papers@.len() ==> (#[trigger] self.papers@[i]).0@ != (
            #[trigger] self.papers@[j]).0@
    }

    /// A paper is pending under the identifier.
    pub open spec fn has(self, id: Seq<char>) -> bool {
        exists|i: int| 0 <= i < self.papers@.len() && (#[trigger] self.papers@[i]).0@ == id
    }

    pub fn new() -> (r: PendingDownloads)
        ensures
            r.wf(),
            r.papers@.len() == 0,
    {
        PendingDownloads { papers: Vec::new() }
    }

    fn find(&self, id: &str) -> (r: Option<usize>)
        ensures
            match r {
                Some(i) => i < self.papers@.len() && self.papers@[i as int].0@ == id@,
                None => !self.has(id@),
            },
    {
        let mut i: usize = 0;
        while i < self.papers.len()
            invariant
                i <= self.papers@.len(),
                forall|k: int| 0 <= k < i ==> (#[trigger] self.papers@[k]).0@ != id@,
            decreases self.papers.len() - i,
        {
            if same_text(self.papers[i].0.as_str(), id) {
                return Some(i);
            }
            i = i + 1;
        }
        None
    }

    /// Whether a paper is pending under the identifier.
    pub fn contains(&self, id: &str) -> (r: bool)
        ensures
            r == self.has(id@),
    {
        match self.find(id) {
            Some(i) => {
                assert(self.papers@[i as int].0@ == id@);
                true
            },
            None => false,
        }
    }

    /// Takes up a paper whose download starts.
    pub fn insert(&mut self, id: String, paper: RemotePaper)
        requires
            old(self).wf(),
            !old(self).has(id@),
        ensures
            final(self).wf(),
            final(self).papers@ == old(self).papers@.push((id, paper)),
            final(self).has(id@),
    {
        let ghost before = self.papers@;
        self.papers.push((id, paper));
        assert forall|i: int, j: int| 0 <= i < j < self.papers@.len() implies (
        #[trigger] self.papers@[i]).0@ != (#[trigger] self.papers@[j]).0@ by {
            assert(before[i] == self.papers@[i]);
        }
        assert(self.papers@[before.len() as int].0@ == id@);
    }

    /// Takes the paper with the identifier out.
    pub fn take(&mut self, id: &str) -> (r: Option<RemotePaper>)
        requires
            old(self).wf(),
        ensures
            final(self).wf(),
            !final(self).has(id@),
            r is Some == old(self).has(id@),
            r matches Some(paper) ==> exists|i: int|
                0 <= i < old(self).papers@.len() && (#[trigger] old(self).papers@[i]).0@ == id@
                    && old(self).papers@[i].1 == paper && final(self).papers@
                    == old(self).papers@.remove(i),
            r is None ==> *final(self) == *old(self),
    {
        let ghost before = self.papers@;
        match self.find(id) {
            Some(i) => {
                assert(before[i as int].0@ == id@);
                let (_, paper) = self.papers.remove(i);
                let ghost after = self.papers@;
                assert(after =~= before.remove(i as int));
                assert forall|a: int, b: int| 0 <= a < b < after.len() implies (
                #[trigger] after[a]).0@ != (#[trigger] after[b]).0@ by {
                    let x = if a < i { a } else { a + 1 };
                    let y = if b < i { b } else { b + 1 };
                    assert(before[x].0@ != before[y].0@);
                }
                assert forall|a: int| 0 <= a < after.len() implies (#[trigger] after[a]).0@
                    != id@ by {
                    let x = if a < i { a } else { a + 1 };
                    if x < i {
                        assert(before[x].0@ != before[i as int].0@);
                    } else {
                        assert(before[i as int].0@ != before[x].0@);
                    }
                }
                Some(paper)
            },
            None => None,
        }
    }
}

/// Where a download comes from and where it goes.
#[derive(Debug)]
pub struct DownloadJob {
    pub id: String,
    pub url: String,
    pub destination: String,
}

/// What follows the last slash of an identifier.
pub open spec fn short_id(id: Seq<char>) -> Seq<char> {
    id.skip(last_position(id, '/') + 1)
}

/// The name of the file for a paper: its title as far as that makes a file name,
/// and otherwise its identifier.
pub open spec fn download_name(id: Seq<char>, title: Seq<char>) -> Seq<char> {
    (if title.len() > 0 {
        title
    } else {
        short_id(id)
    }) + ".pdf"@
}

fn name_for_download(id: &str, title: &str) -> (r: String)
    ensures
        r@ == download_name(id@, title@),
{
    let mut r = if title.is_empty() {
        let v = to_chars(id);
        let mut from: usize = v.len();
        assert(v@.take(from as int) =~= v@);
        while from > 0 && v[from - 1] != '/'
            invariant
                from <= v@.len(),
                v@ == id@,
                last_position(v@, '/') == last_position(v@.take(from as int), '/'),
            decreases from,
        {
            assert(v@.take(from as int).drop_last() =~= v@.take(from - 1));
            from = from - 1;
        }
        assert(from == last_position(v@, '/') + 1) by {
            if from > 0 {
                assert(v@.take(from as int).last() == '/');
            }
        }
        let name = from_chars(&v, from, v.len());
        assert(name@ =~= short_id(id@));
        name
    } else {
        title.to_owned()
    };
    r.append(".pdf");
    r
}

/// A download that is about to start.
pub open spec fn is_new_task(task: DownloadTask, paper: RemotePaper, destination: Seq<char>) -> bool {
    &&& task.id@ == paper.id@
    &&& task.title@ == paper.title@
    &&& task.downloaded == 0
    &&& task.total is None
    &&& task.paper_id is None
    &&& opt_text(task.pdf_path) == Some(destination)
    &&& task.canonical_path is None
    &&& task.status is Starting
    &&& (task.remote_paper matches Some(remote) && remote@ == paper@)
    &&& task.failed_at is None
}

/// What starting a download does: nothing without an address or where it is
/// running already, and a toast where the paper is there.
pub open spec fn start_step(
    pre: App,
    pending: PendingDownloads,
    paper: RemotePaper,
    directory: Seq<char>,
    title: Seq<char>,
    post: App,
    pending2: PendingDownloads,
    job: Option<DownloadJob>,
) -> bool {
    let destination = joined(pre.platform, directory, download_name(paper.id@, title));
    if paper.pdf_url is None {
        post == pre && pending2 == pending && job is None
    } else if download_of(pre.library.papers@, paper, 0) is Some {
        &&& toasted(pre, "Paper already available. Skipping download..."@, post)
        &&& pending2 == pending
        &&& job is None
    } else if pending.has(paper.id@) {
        post == pre && pending2 == pending && job is None
    } else {
        &&& post == App { toast: post.toast, downloads: post.downloads, ..pre }
        &&& opt_text(post.toast) == Some("Downloading paper..."@)
        &&& post.downloads.selected == pre.downloads.selected
        &&& post.downloads.items@.len() == pre.downloads.items@.len() + 1
        &&& post.downloads.items@.drop_last() == pre.downloads.items@
        &&& is_new_task(post.downloads.items@.last(), paper, destination)
        &&& pending2.papers@.len() == pending.papers@.len() + 1
        &&& pending2.papers@.drop_last() == pending.papers@
        &&& pending2.papers@.last().0@ == paper.id@
        &&& pending2.papers@.last().1@ == paper@
        &&& (job matches Some(job) && job.id@ == paper.id@ && opt_text(paper.pdf_url) == Some(
            job.url@,
        ) && job.destination@ == destination)
    }
}

/// Starts the download of a paper into `directory`. `title` is the paper's title
/// as far as it can stand in a file name.
pub fn start_download(
    app: &mut App,
    pending: &mut PendingDownloads,
    paper: RemotePaper,
    directory: &str,
    title: &str,
) -> (job: Option<DownloadJob>)
    requires
        old(pending).wf(),
    ensures
        final(pending).wf(),
        start_step(
            *old(app),
            *old(pending),
            paper,
            directory@,
            title@,
            *final(app),
            *final(pending),
            job,
        ),
        old(app).wf() ==> final(app).wf(),
{
    let url = match &paper.pdf_url {
        None => return None,
        Some(url) => url.clone(),
    };
    if app.downloaded_remote_paper(&paper).is_some() {
        app.toast = Some("Paper already available. Skipping download...".to_owned());
        return None;
    }
    if pending.contains(paper.id.as_str()) {
        return None;
    }
    let name = name_for_download(paper.id.as_str(), title);
    let destination = path_join(app.platform, directory, name.as_str());
    let job = DownloadJob { id: paper.id.clone(), url, destination: destination.clone() };
    let ghost before = pending.papers@;
    pending.insert(paper.id.clone(), paper.clone());
    assert(pending.papers@.drop_last() =~= before);
    app.toast = Some("Downloading paper...".to_owned());
    let ghost tasks = app.downloads.items@;
    app.downloads.items.push(
        DownloadTask {
            id: paper.id.clone(),
            title: paper.title.clone(),
            downloaded: 0,
            total: None,
            paper_id: None,
            pdf_path: Some(destination),
            canonical_path: None,
            status: DownloadStatus::Starting,
            remote_paper: Some(paper),
            failed_at: None,
        },
    );
    assert(app.downloads.items@.drop_last() =~= tasks);
    Some(job)
}

/// No paper is downloaded twice at a time: while one is pending, starting it again
/// changes nothing.
pub proof fn law_pending_downloads_start_once(
    pre: App,
    pending: PendingDownloads,
    paper: RemotePaper,
    directory: Seq<char>,
    title: Seq<char>,
    post: App,
    pending2: PendingDownloads,
    job: Option<DownloadJob>,
)
    requires
        start_step(pre, pending, paper, directory, title, post, pending2, job),
    ensures
        pending.has(paper.id@) ==> pending2 == pending && job is None && post.downloads
            == pre.downloads,
        job is Some ==> pending2.has(paper.id@) && !pending.has(paper.id@),
{
    if job is Some {
        assert(pending2.papers@[pending2.papers@.len() - 1].0@ == paper.id@);
    }
}

/// The task starts over.
pub open spec fn restarted(task: DownloadTask) -> DownloadTask {
    DownloadTask {
        downloaded: 0,
        total: None,
        status: DownloadStatus::Starting,
        failed_at: None,
        ..task
    }
}

fn restart_task(tasks: &mut Vec<DownloadTask>, i: usize)
    requires
        i < old(tasks)@.len(),
    ensures
        final(tasks)@ == old(tasks)@.update(i as int, restarted(old(tasks)@[i as int])),
{
    let ghost before = tasks@;
    tasks[i].downloaded = 0;
    tasks[i].total = None;
    tasks[i].status = DownloadStatus::Starting;
    tasks[i].failed_at = None;
    assert(tasks@ =~= before.update(i as int, restarted(before[i as int])));
}

/// Where a download that is tried again goes.
pub open spec fn retry_destination(
    os: Platform,
    task: DownloadTask,
    id: Seq<char>,
    directory: Seq<char>,
) -> Seq<
    char,
> {
    match task.pdf_path {
        Some(path) => path@,
        None => joined(os, directory, id + ".pdf"@),
    }
}

/// A download that is tried again, and the files of the first try, which are to be
/// removed.
#[derive(Debug)]
pub struct DownloadRetry {
    pub job: DownloadJob,
    pub leftovers: Vec<String>,
}

/// What trying a download again does: nothing while it is pending or where there
/// is no such task.
pub open spec fn retry_step(
    pre: App,
    pending: PendingDownloads,
    id: Seq<char>,
    paper: RemotePaper,
    directory: Seq<char>,
    post: App,
    pending2: PendingDownloads,
    retry: Option<DownloadRetry>,
) -> bool {
    let found = task_at(pre.downloads.items@, id, 0);
    if pending.has(id) || found is None {
        post == pre && pending2 == pending && retry is None
    } else {
        let task = pre.downloads.items@[found->0];
        &&& post == App { toast: post.toast, downloads: post.downloads, ..pre }
        &&& opt_text(post.toast) == Some("Retrying download..."@)
        &&& post.downloads.selected == pre.downloads.selected
        &&& post.downloads.items@ == pre.downloads.items@.update(found->0, restarted(task))
        &&& pending2.papers@.len() == pending.papers@.len() + 1
        &&& pending2.papers@.drop_last() == pending.papers@
        &&& pending2.papers@.last().0@ == id
        &&& pending2.papers@.last().1 == paper
        &&& retry is Some
        &&& retry->0.job.id@ == id
        &&& retry->0.job.url@ == match paper.pdf_url {
            Some(url) => url@,
            None => Seq::empty(),
        }
        &&& retry->0.job.destination@ == retry_destination(pre.platform, task, id, directory)
        &&& match task.pdf_path {
            Some(path) => retry->0.leftovers@.len() == 2 && retry->0.leftovers@[0]@ == path@
                && retry->0.leftovers@[1]@ == with_extension(pre.platform, path@, "pdf.part"@),
            None => retry->0.leftovers@.len() == 0,
        }
    }
}

/// Tries a download again.
pub fn apply_retry_download(
    app: &mut App,
    pending: &mut PendingDownloads,
    id: String,
    paper: RemotePaper,
    directory: &str,
) -> (retry: Option<DownloadRetry>)
    requires
        old(pending).wf(),
    ensures
        final(pending).wf(),
        retry_step(
            *old(app),
            *old(pending),
            id@,
            paper,
            directory@,
            *final(app),
            *final(pending),
            retry,
        ),
        old(app).wf() ==> final(app).wf(),
{
    if pending.contains(id.as_str()) {
        return None;
    }
    let found: usize = match find_task(&app.downloads.items, id.as_str()) {
        None => return None,
        Some(found) => found,
    };
    let url = match &paper.pdf_url {
        Some(url) => url.clone(),
        None => {
            let url = String::new();
            assert(url@ =~= Seq::empty());
            url
        },
    };
    let mut leftovers: Vec<String> = Vec::new();
    let destination = match &app.downloads.items[found].pdf_path {
        Some(path) => {
            leftovers.push(path.clone());
            leftovers.push(path_with_extension(app.platform, path.as_str(), "pdf.part"));
            path.clone()
        },
        None => {
            let name = message(id.as_str(), ".pdf");
            path_join(app.platform, directory, name.as_str())
        },
    };
    restart_task(&mut app.downloads.items, found);
    let ghost before = pending.papers@;
    pending.insert(id.clone(), paper);
    assert(pending.papers@.drop_last() =~= before);
    app.toast = Some("Retrying download...".to_owned());
    Some(DownloadRetry { job: DownloadJob { id, url, destination }, leftovers })
}

/// What a running download reports.
#[allow(inconsistent_fields)]
#[derive(Debug)]
pub enum DownloadEvent {
    Started { id: String, total: Option<u64> },
    Progress { id: String, downloaded: u64 },
    Completed { id: String, path: String },
    Failed { id: String, error: String },
}

impl DownloadEvent {
    /// The download that the event is about.
    pub open spec fn about(self) -> Seq<char> {
        match self {
            DownloadEvent::Started { id, total } => id@,
            DownloadEvent::Progress { id, downloaded } => id@,
            DownloadEvent::Completed { id, path } => id@,
            DownloadEvent::Failed { id, error } => id@,
        }
    }

    fn id(&self) -> (r: &String)
        ensures
            r@ == self.about(),
    {
        match self {
            DownloadEvent::Started { id, .. } => id,
            DownloadEvent::Progress { id, .. } => id,
            DownloadEvent::Completed { id, .. } => id,
            DownloadEvent::Failed { id, .. } => id,
        }
    }
}

/// A file that was downloaded to the end, under its temporary and its final name.
#[derive(Debug)]
pub struct CompletedFile {
    pub temporary: String,
    pub path: String,
}

/// The task after an event of its download.
pub open spec fn task_after(task: DownloadTask, event: DownloadEvent, now: u64) -> DownloadTask {
    match event {
        DownloadEvent::Started { id, total } => DownloadTask {
            status: DownloadStatus::Running,
            total,
            ..task
        },
        DownloadEvent::Progress { id, downloaded } => DownloadTask {
            status: DownloadStatus::Running,
            downloaded,
            ..task
        },
        DownloadEvent::Completed { id, path } => DownloadTask {
            status: DownloadStatus::ExtractingMetadata,
            ..task
        },
        DownloadEvent::Failed { id, error } => DownloadTask {
            status: DownloadStatus::Failed(error),
            failed_at: Some(now),
            ..task
        },
    }
}

/// Notes on a task what an event of its download says.
fn update_task(
    os: Platform,
    tasks: &mut Vec<DownloadTask>,
    i: usize,
    event: DownloadEvent,
    now: u64,
) -> (completed:
    Option<CompletedFile>)
    requires
        i < old(tasks)@.len(),
    ensures
        final(tasks)@ == old(tasks)@.update(
            i as int,
            task_after(old(tasks)@[i as int], event, now),
        ),
        is_completion(os, event, completed),
{
    let ghost before = tasks@;
    let completed = match event {
        DownloadEvent::Started { id: _, total } => {
            tasks[i].status = DownloadStatus::Running;
            tasks[i].total = total;
            None
        },
        DownloadEvent::Progress { id: _, downloaded } => {
            tasks[i].status = DownloadStatus::Running;
            tasks[i].downloaded = downloaded;
            None
        },
        DownloadEvent::Completed { id: _, path } => {
            tasks[i].status = DownloadStatus::ExtractingMetadata;
            let promoted = path_with_extension(os, path.as_str(), "");
            proof {
                reveal_strlit("");
                assert(""@ =~= Seq::<char>::empty());
            }
            Some(CompletedFile { temporary: path, path: promoted })
        },
        DownloadEvent::Failed { id: _, error } => {
            tasks[i].status = DownloadStatus::Failed(error);
            tasks[i].failed_at = Some(now);
            None
        },
    };
    assert(tasks@ =~= before.update(i as int, task_after(before[i as int], event, now)));
    completed
}

/// A completed download leaves a file to be renamed: the temporary name loses its
/// extension.
pub open spec fn is_completion(
    os: Platform,
    event: DownloadEvent,
    completed: Option<CompletedFile>,
) -> bool {
    match event {
        DownloadEvent::Completed { id, path } => completed matches Some(file) && file.temporary
            == path && file.path@ == with_extension(os, path@, Seq::empty()),
        _ => completed is None,
    }
}

/// What an event of a download does: an unknown one is an error; a failed download
/// is no longer pending.
pub open spec fn event_step(
    pre: App,
    pending: PendingDownloads,
    event: DownloadEvent,
    post: App,
    pending2: PendingDownloads,
    r: Result<Option<CompletedFile>, String>,
) -> bool {
    match task_at(pre.downloads.items@, event.about(), 0) {
        None => {
            &&& post == pre
            &&& pending2 == pending
            &&& (r matches Err(error) && error@ == "received download event for unknown task"@)
        },
        Some(i) => {
            &&& post == App { downloads: post.downloads, ..pre }
            &&& post.downloads.selected == pre.downloads.selected
            &&& post.downloads.items@ == pre.downloads.items@.update(
                i,
                task_after(pre.downloads.items@[i], event, pre.clock_ms),
            )
            &&& if event is Failed {
                &&& !pending2.has(event.about())
                &&& (pending.has(event.about()) ==> exists|k: int|
                    0 <= k < pending.papers@.len() && (#[trigger] pending.papers@[k]).0@
                        == event.about() && pending2.papers@ == pending.papers@.remove(k))
                &&& (!pending.has(event.about()) ==> pending2 == pending)
            } else {
                pending2 == pending
            }
            &&& (r matches Ok(completed) && is_completion(pre.platform, event, completed))
        },
    }
}

/// Takes an event of a download. The result is the file of one that is complete.
pub fn apply_download_event(
    app: &mut App,
    pending: &mut PendingDownloads,
    event: DownloadEvent,
) -> (r: Result<Option<CompletedFile>, String>)
    requires
        old(pending).wf(),
    ensures
        final(pending).wf(),
        event_step(*old(app), *old(pending), event, *final(app), *final(pending), r),
        old(app).wf() ==> final(app).wf(),
{
    let found: usize = match find_task(&app.downloads.items, event.id().as_str()) {
        None => return Err("received download event for unknown task".to_owned()),
        Some(found) => found,
    };
    if let DownloadEvent::Failed { id, .. } = &event {
        let _ = pending.take(id.as_str());
    }
    let now: u64 = app.clock_ms;
    Ok(update_task(app.platform, &mut app.downloads.items, found, event, now))
}

/// The PDF file of a download, as the library took it in.
#[derive(Debug)]
pub struct IndexedFile {
    pub path: String,
    pub canonical_path: Option<String>,
    pub size: u64,
}

/// The task of a download whose file is in the library.
pub open spec fn task_indexed(
    task: DownloadTask,
    file: IndexedFile,
    paper_id: Option<i64>,
) -> DownloadTask {
    DownloadTask {
        paper_id: if paper_id is Some {
            paper_id
        } else {
            task.paper_id
        },
        pdf_path: Some(file.path),
        canonical_path: file.canonical_path,
        downloaded: file.size,
        total: Some(file.size),
        ..task
    }
}

fn index_task(tasks: &mut Vec<DownloadTask>, i: usize, file: IndexedFile, paper_id: Option<i64>)
    requires
        i < old(tasks)@.len(),
    ensures
        final(tasks)@ == old(tasks)@.update(
            i as int,
            task_indexed(old(tasks)@[i as int], file, paper_id),
        ),
{
    let ghost before = tasks@;
    if paper_id.is_some() {
        tasks[i].paper_id = paper_id;
    }
    tasks[i].pdf_path = Some(file.path);
    tasks[i].canonical_path = file.canonical_path;
    tasks[i].downloaded = file.size;
    tasks[i].total = Some(file.size);
    assert(tasks@ =~= before.update(i as int, task_indexed(before[i as int], file, paper_id)));
}

/// The library has a paper with the identifier.
pub open spec fn in_library(papers: Seq<LibraryPaper>, id: i64) -> bool {
    exists|i: int| 0 <= i < papers.len() && (#[trigger] papers[i]).id == id
}

fn library_has(papers: &Vec<LibraryPaper>, id: i64) -> (r: bool)
    ensures
        r == in_library(papers@, id),
{
    let mut i: usize = 0;
    while i < papers.len()
        invariant
            i <= papers@.len(),
            forall|k: int| 0 <= k < i ==> (#[trigger] papers@[k]).id != id,
        decreases papers.len() - i,
    {
        if papers[i].id == id {
            assert(papers@[i as int].id == id);
            return true;
        }
        i = i + 1;
    }
    false
}

/// Notes the file of a completed download, and the paper it was attached to where
/// it was still pending. The result says that the library already had the paper.
pub fn record_download(app: &mut App, id: &str, file: IndexedFile, paper_id: Option<i64>) -> (known:
    bool)
    ensures
        *final(app) == (App { downloads: final(app).downloads, ..*old(app) }),
        final(app).downloads.selected == old(app).downloads.selected,
        final(app).downloads.items@ == match task_at(old(app).downloads.items@, id@, 0) {
            Some(i) => old(app).downloads.items@.update(
                i,
                task_indexed(old(app).downloads.items@[i], file, paper_id),
            ),
            None => old(app).downloads.items@,
        },
        known == (paper_id matches Some(paper) && in_library(old(app).library.papers@, paper)),
        old(app).wf() ==> final(app).wf(),
{
    let known = match paper_id {
        Some(paper) => library_has(&app.library.papers, paper),
        None => false,
    };
    if let Some(i) = find_task(&app.downloads.items, id) {
        index_task(&mut app.downloads.items, i, file, paper_id);
    }
    known
}

/// A failed try of the download.
pub open spec fn failed_try(task: DownloadTask, id: Seq<char>) -> bool {
    task.id@ == id && task.status is Failed
}

fn has_failed(task: &DownloadTask) -> (r: bool)
    ensures
        r == (task.status is Failed),
{
    match &task.status {
        DownloadStatus::Failed(_) => true,
        _ => false,
    }
}

fn is_completed(task: &DownloadTask) -> (r: bool)
    ensures
        r == (task.status is Completed),
{
    match &task.status {
        DownloadStatus::Completed => true,
        _ => false,
    }
}

fn drop_failed_tries(tasks: &mut Vec<DownloadTask>, id: &str)
    ensures
        final(tasks)@ == old(tasks)@.filter(|t: DownloadTask| !failed_try(t, id@)),
{
    let mut keep: Vec<bool> = Vec::new();
    let mut i: usize = 0;
    while i < tasks.len()
        invariant
            i <= tasks@.len(),
            tasks@ == old(tasks)@,
            keep@.len() == i,
            forall|k: int| 0 <= k < i ==> keep@[k] == !failed_try(#[trigger] tasks@[k], id@),
        decreases tasks.len() - i,
    {
        keep.push(!(same_text(tasks[i].id.as_str(), id) && has_failed(&tasks[i])));
        i = i + 1;
    }
    proof {
        lemma_kept_is_filter(tasks@, keep@, |t: DownloadTask| !failed_try(t, id@));
    }
    keep_tasks(tasks, &keep);
}

/// Ends a completed download: the library says how many papers it has, a toast
/// says so unless there is another, and failed tries of the download go.
pub fn finish_download(app: &mut App, id: &str, known: bool)
    ensures
        *final(app) == (App {
            toast: final(app).toast,
            library: LibraryState { message: final(app).library.message, ..old(app).library },
            downloads: final(app).downloads,
            ..*old(app)
        }),
        opt_text(final(app).library.message) == Some(
            index_summary(
                old(app).library.papers@.len(),
                if known {
                    0
                } else {
                    1
                },
            ),
        ),
        opt_text(final(app).toast) == match old(app).toast {
            Some(toast) => Some(toast@),
            None => Some("Download complete. Press Enter to open the PDF."@),
        },
        final(app).downloads.selected == old(app).downloads.selected,
        final(app).downloads.items@ == old(app).downloads.items@.filter(
            |t: DownloadTask| !failed_try(t, id@),
        ),
        old(app).wf() ==> final(app).wf(),
{
    app.library.message = Some(
        library_index_summary(
            app.library.papers.len(),
            if known {
                0
            } else {
                1
            },
        ),
    );
    if app.toast.is_none() {
        app.toast = Some("Download complete. Press Enter to open the PDF.".to_owned());
    }
    drop_failed_tries(&mut app.downloads.items, id);
}

/// How long a failed download stays in the list, in milliseconds.
pub const FAILED_DOWNLOAD_MS: u64 = 120_000;

/// A failed download whose time in the list is over.
pub open spec fn is_expired(task: DownloadTask, now: u64) -> bool {
    task.status is Failed && (task.failed_at matches Some(at) && now - at >= FAILED_DOWNLOAD_MS)
}

fn has_expired(task: &DownloadTask, now: u64) -> (r: bool)
    ensures
        r == is_expired(*task, now),
{
    has_failed(task) && match task.failed_at {
        Some(at) => now >= at && now - at >= FAILED_DOWNLOAD_MS,
        None => false,
    }
}

/// Only what failed a while ago leaves the list, and the selection stays in it.
pub open spec fn downloads_expired(d: DownloadsState, now: u64, post: DownloadsState) -> bool {
    &&& post.items@ == d.items@.filter(|t: DownloadTask| !is_expired(t, now))
    &&& post.selected == if post.items@.len() == d.items@.len() {
        d.selected as int
    } else {
        clamped_selection(d.selected as int, post.items@.len() as int)
    }
}

/// Drops what failed a while ago.
pub fn expire_downloads(d: &mut DownloadsState, now: u64) -> (changed: bool)
    ensures
        downloads_expired(*old(d), now, *final(d)),
        changed == (final(d).items@.len() != old(d).items@.len()),
{
    let mut keep: Vec<bool> = Vec::new();
    let mut i: usize = 0;
    while i < d.items.len()
        invariant
            i <= d.items@.len(),
            *d == *old(d),
            keep@.len() == i,
            forall|k: int| 0 <= k < i ==> keep@[k] == !is_expired(#[trigger] d.items@[k], now),
        decreases d.items.len() - i,
    {
        keep.push(!has_expired(&d.items[i], now));
        i = i + 1;
    }
    proof {
        lemma_kept_is_filter(d.items@, keep@, |t: DownloadTask| !is_expired(t, now));
    }
    let before: usize = d.items.len();
    keep_tasks(&mut d.items, &keep);
    if d.items.len() != before {
        d.selected = clamp_selection(d.selected, d.items.len());
        true
    } else {
        false
    }
}

/// A download that is still running stays in the list, however old it is.
pub proof fn law_only_failures_expire(d: DownloadsState, now: u64, post: DownloadsState, i: int)
    requires
        downloads_expired(d, now, post),
        0 <= i < d.items@.len(),
        !(d.items@[i].status is Failed),
    ensures
        post.items@.contains(d.items@[i]),
{
    let p = |t: DownloadTask| !is_expired(t, now);
    d.items@.lemma_filter_contains(p, i);
}

/// Takes the downloads of a paper that was deleted out of the list.
pub fn drop_paper_downloads(d: &mut DownloadsState, paper_id: i64)
    ensures
        final(d).items@ == old(d).items@.filter(
            |t: DownloadTask| t.paper_id != Some(paper_id),
        ),
        final(d).selected == old(d).selected,
{
    let mut keep: Vec<bool> = Vec::new();
    let mut i: usize = 0;
    while i < d.items.len()
        invariant
            i <= d.items@.len(),
            *d == *old(d),
            keep@.len() == i,
            forall|k: int|
                0 <= k < i ==> keep@[k] == ((#[trigger] d.items@[k]).paper_id != Some(paper_id)),
        decreases d.items.len() - i,
    {
        keep.push(
            match d.items[i].paper_id {
                Some(id) => id != paper_id,
                None => true,
            },
        );
        i = i + 1;
    }
    proof {
        lemma_kept_is_filter(
            d.items@,
            keep@,
            |t: DownloadTask| t.paper_id != Some(paper_id),
        );
    }
    keep_tasks(&mut d.items, &keep);
}

/// A file of the download folder. `modified` is when it was last written, in
/// nanoseconds since the Unix epoch.
#[derive(Debug)]
pub struct LocalFile {
    pub path: String,
    pub name: String,
    pub size: u64,
    pub modified: u128,
}

impl Clone for LocalFile {
    fn clone(&self) -> (r: LocalFile)
        ensures
            r == *self,
    {
        LocalFile {
            path: self.path.clone(),
            name: self.name.clone(),
            size: self.size,
            modified: self.modified,
        }
    }
}

/// No file comes after an older one.
pub open spec fn newest_first(v: Seq<LocalFile>) -> bool {
    forall|i: int, j: int|
        0 <= i < j < v.len() ==> (#[trigger] v[i]).modified >= (#[trigger] v[j]).modified
}

/// The first index from `i` on at which an older file than `file` stands.
pub open spec fn place_by_age(v: Seq<LocalFile>, file: LocalFile, i: int) -> int
    decreases v.len() - i,
{
    if i < 0 || i >= v.len() || v[i].modified < file.modified {
        i
    } else {
        place_by_age(v, file, i + 1)
    }
}

/// The PDF files of a folder, the newest first, those of the same age in the order
/// of the folder.
pub open spec fn pdfs_by_age(os: Platform, listing: Seq<LocalFile>) -> Seq<LocalFile>
    decreases listing.len(),
{
    if listing.len() == 0 {
        Seq::empty()
    } else {
        let rest = pdfs_by_age(os, listing.drop_last());
        if has_extension(os, listing.last().path@, "pdf"@) {
            rest.insert(place_by_age(rest, listing.last(), 0), listing.last())
        } else {
            rest
        }
    }
}

fn insert_by_age(v: &mut Vec<LocalFile>, file: LocalFile)
    requires
        newest_first(old(v)@),
    ensures
        newest_first(final(v)@),
        final(v)@ == old(v)@.insert(place_by_age(old(v)@, file, 0), file),
        final(v)@.to_multiset() == old(v)@.to_multiset().insert(file),
{
    let ghost before = v@;
    let mut i: usize = 0;
    while i < v.len() && v[i].modified >= file.modified
        invariant
            i <= v@.len(),
            v@ == before,
            place_by_age(before, file, 0) == place_by_age(before, file, i as int),
            forall|k: int| 0 <= k < i ==> (#[trigger] before[k]).modified >= file.modified,
        decreases v.len() - i,
    {
        i = i + 1;
    }
    v.insert(i, file);
    let ghost after = v@;
    proof {
        assert(after =~= before.insert(i as int, file));
        vstd::seq_lib::to_multiset_insert(before, i as int, file);
        assert forall|a: int, b: int| 0 <= a < b < after.len() implies (
        #[trigger] after[a]).modified >= (#[trigger] after[b]).modified by {
            if b == i {
                assert(after[a] == before[a]);
            } else if a == i {
                assert(after[b] == before[b - 1]);
                if b - 1 > i {
                    assert(before[i as int].modified >= before[b - 1].modified);
                }
            } else {
                let x = if a < i { a } else { a - 1 };
                let y = if b < i { b } else { b - 1 };
                assert(after[a] == before[x] && after[b] == before[y]);
            }
        }
    }
}

/// The PDF files among those of the download folder, the newest first.
pub fn local_pdfs(os: Platform, listing: &Vec<LocalFile>) -> (r: Vec<LocalFile>)
    ensures
        r@ == pdfs_by_age(os, listing@),
        newest_first(r@),
        r@.to_multiset() == listing@.filter(
            |f: LocalFile| has_extension(os, f.path@, "pdf"@),
        ).to_multiset(),
{
    let mut r: Vec<LocalFile> = Vec::new();
    let mut i: usize = 0;
    let ghost keep = |f: LocalFile| has_extension(os, f.path@, "pdf"@);
    proof {
        reveal(Seq::filter);
        assert(listing@.take(0) =~= Seq::<LocalFile>::empty());
        assert(r@ =~= listing@.take(0).filter(keep));
    }
    while i < listing.len()
        invariant
            i <= listing@.len(),
            keep == (|f: LocalFile| has_extension(os, f.path@, "pdf"@)),
            newest_first(r@),
            r@ == pdfs_by_age(os, listing@.take(i as int)),
            r@.to_multiset() == listing@.take(i as int).filter(keep).to_multiset(),
        decreases listing.len() - i,
    {
        proof {
            reveal(Seq::filter);
            assert(listing@.take(i + 1).drop_last() =~= listing@.take(i as int));
            assert(listing@.take(i + 1).last() == listing@[i as int]);
            vstd::seq_lib::to_multiset_build(
                listing@.take(i as int).filter(keep),
                listing@[i as int],
            );
        }
        if extension_is(os, listing[i].path.as_str(), "pdf") {
            insert_by_age(&mut r, listing[i].clone());
        }
        i = i + 1;
    }
    assert(listing@.take(listing@.len() as int) =~= listing@);
    r
}

/// The identifier of a download that its file name gives.
pub open spec fn file_id(name: Seq<char>) -> Seq<char> {
    if ends_with_text(name, ".pdf"@) {
        name.take(name.len() - 4)
    } else {
        name
    }
}

/// The identifier of a download that its file name gives.
pub fn id_of_file_name(name: &str) -> (r: String)
    ensures
        r@ == file_id(name@),
{
    let v = to_chars(name);
    let length: usize = v.len();
    proof {
        reveal_strlit(".pdf");
    }
    if length >= 4 && v[length - 4] == '.' && v[length - 3] == 'p' && v[length - 2] == 'd' && v[length
        - 1] == 'f' {
        assert(name@.skip(length - 4) =~= ".pdf"@);
        let r = from_chars(&v, 0, length - 4);
        assert(r@ =~= name@.take(length - 4));
        r
    } else {
        assert(!ends_with_text(name@, ".pdf"@)) by {
            if ends_with_text(name@, ".pdf"@) {
                let tail = name@.skip(length - 4);
                assert(tail[0] == '.' && tail[1] == 'p' && tail[2] == 'd' && tail[3] == 'f');
            }
        }
        name.to_owned()
    }
}

/// The list has a download for the file already.
pub open spec fn is_known_file(tasks: Seq<DownloadTask>, file: LocalFile) -> bool {
    exists|i: int|
        0 <= i < tasks.len() && (opt_text((#[trigger] tasks[i]).pdf_path) == Some(file.path@)
            || tasks[i].id@ == file_id(file.name@))
}

/// Whether the list has a download for the file already.
pub fn is_listed_file(d: &DownloadsState, file: &LocalFile) -> (r: bool)
    ensures
        r == is_known_file(d.items@, *file),
{
    let id = id_of_file_name(file.name.as_str());
    let mut i: usize = 0;
    while i < d.items.len()
        invariant
            i <= d.items@.len(),
            id@ == file_id(file.name@),
            forall|k: int|
                0 <= k < i ==> opt_text((#[trigger] d.items@[k]).pdf_path) != Some(file.path@)
                    && d.items@[k].id@ != file_id(file.name@),
        decreases d.items.len() - i,
    {
        let same_path = match &d.items[i].pdf_path {
            Some(path) => same_text(path.as_str(), file.path.as_str()),
            None => false,
        };
        if same_path || same_text(d.items[i].id.as_str(), id.as_str()) {
            assert(opt_text(d.items@[i as int].pdf_path) == Some(file.path@)
                || d.items@[i as int].id@ == file_id(file.name@));
            return true;
        }
        i = i + 1;
    }
    false
}

/// The SHA-256 digest of some bytes, as lower-case hexadecimal digits.
pub uninterp spec fn sha256_hex(bytes: Seq<u8>) -> Seq<char>;

/// `sha2::Sha256::digest`, written with `{:x}`: the digest of the bytes alone, as
/// two hexadecimal digits for each of its 32 bytes.
#[verifier::external_body]
fn sha256_text(bytes: &Vec<u8>) -> (r: String)
    ensures
        r@ == sha256_hex(bytes@),
        r@.len() == 64,
{
    format!("{:x}", sha2::Sha256::digest(bytes.as_slice()))
}

/// The digest by which the library knows a file, where its contents could be read.
pub fn content_hash(contents: Option<&Vec<u8>>) -> (r: Option<String>)
    ensures
        opt_text(r) == match contents {
            Some(bytes) => Some(sha256_hex(bytes@)),
            None => None,
        },
{
    match contents {
        Some(bytes) => Some(sha256_text(bytes)),
        None => None,
    }
}

/// What the library knows of a local file: the paper it has at the file's path,
/// the paper and path it has for the file's contents, and the path with every
/// link resolved.
#[derive(Debug)]
pub struct LibraryLookup {
    pub by_path: Option<i64>,
    pub by_canonical_path: Option<i64>,
    pub by_contents: Option<(i64, String)>,
    pub canonical_path: Option<String>,
}

/// The paper that a local file belongs to. Its contents decide before its path.
pub open spec fn paper_of_file(lookup: LibraryLookup) -> Option<i64> {
    match lookup.by_contents {
        Some((id, path)) => Some(id),
        None => if lookup.by_path is Some {
            lookup.by_path
        } else {
            lookup.by_canonical_path
        },
    }
}

/// The library has the contents of the file outside of the download folder.
pub open spec fn is_stale(os: Platform, lookup: LibraryLookup, directory: Seq<char>) -> bool {
    lookup.by_contents matches Some((id, path)) && !is_below(os, path@, directory)
}

/// The completed download that a local file stands for.
pub open spec fn is_task_of_file(task: DownloadTask, file: LocalFile, lookup: LibraryLookup) -> bool {
    &&& task.id@ == file_id(file.name@)
    &&& task.title@ == file.name@
    &&& task.downloaded == file.size
    &&& task.total == Some(file.size)
    &&& task.paper_id == paper_of_file(lookup)
    &&& opt_text(task.pdf_path) == Some(file.path@)
    &&& task.canonical_path == lookup.canonical_path
    &&& task.status is Completed
    &&& task.remote_paper is None
    &&& task.failed_at is None
}

/// Lists a local file as a completed download, unless the list has it. The result
/// says that the file is stale, and is to be removed: its contents were moved
/// elsewhere in the library.
pub fn adopt_local_file(
    os: Platform,
    d: &mut DownloadsState,
    file: LocalFile,
    lookup: LibraryLookup,
    directory: &str,
) -> (stale: bool)
    ensures
        final(d).selected == old(d).selected,
        if is_known_file(old(d).items@, file) {
            !stale && final(d).items@ == old(d).items@
        } else if is_stale(os, lookup, directory@) {
            stale && final(d).items@ == old(d).items@
        } else {
            &&& !stale
            &&& final(d).items@.len() == old(d).items@.len() + 1
            &&& final(d).items@.drop_last() == old(d).items@
            &&& is_task_of_file(final(d).items@.last(), file, lookup)
        },
{
    if is_listed_file(d, &file) {
        return false;
    }
    let paper_id = match &lookup.by_contents {
        Some(found) => {
            if !path_starts_with(os, found.1.as_str(), directory) {
                return true;
            }
            Some(found.0)
        },
        None => match lookup.by_path {
            Some(id) => Some(id),
            None => lookup.by_canonical_path,
        },
    };
    let ghost before = d.items@;
    d.items.push(
        DownloadTask {
            id: id_of_file_name(file.name.as_str()),
            title: file.name,
            downloaded: file.size,
            total: Some(file.size),
            paper_id,
            pdf_path: Some(file.path),
            canonical_path: lookup.canonical_path,
            status: DownloadStatus::Completed,
            remote_paper: None,
            failed_at: None,
        },
    );
    assert(d.items@.drop_last() =~= before);
    false
}

/// A file is listed once: adopting it again changes nothing.
pub proof fn law_adopted_files_are_known(
    tasks: Seq<DownloadTask>,
    file: LocalFile,
    lookup: LibraryLookup,
)
    requires
        tasks.len() > 0,
        is_task_of_file(tasks.last(), file, lookup),
    ensures
        is_known_file(tasks, file),
{
    assert(tasks[tasks.len() - 1].id@ == file_id(file.name@));
}

/// The file of the selected download.
pub open spec fn selected_file(app: App) -> Option<Seq<char>> {
    let shown = visible_downloads(query_of(app), app.downloads.items@);
    if app.downloads.selected < shown.len() {
        opt_text(app.downloads.items@[shown[app.downloads.selected as int] as int].pdf_path)
    } else {
        None
    }
}

/// Starts to read the download folder anew: what is complete leaves the list. The
/// result is the file of the selected download.
pub fn begin_downloads_refresh(app: &mut App) -> (selected: Option<String>)
    ensures
        *final(app) == (App { downloads: final(app).downloads, ..*old(app) }),
        final(app).downloads.selected == old(app).downloads.selected,
        final(app).downloads.items@ == old(app).downloads.items@.filter(
            |t: DownloadTask| !(t.status is Completed),
        ),
        opt_text(selected) == selected_file(*old(app)),
        old(app).wf() ==> final(app).wf(),
{
    let shown = app.filtered_downloads();
    let selected = if app.downloads.selected < shown.len() {
        clone_text(&app.downloads.items[shown[app.downloads.selected]].pdf_path)
    } else {
        None
    };
    drop_completed(&mut app.downloads.items);
    selected
}

fn drop_completed(tasks: &mut Vec<DownloadTask>)
    ensures
        final(tasks)@ == old(tasks)@.filter(|t: DownloadTask| !(t.status is Completed)),
{
    let mut keep: Vec<bool> = Vec::new();
    let mut i: usize = 0;
    while i < tasks.len()
        invariant
            i <= tasks@.len(),
            tasks@ == old(tasks)@,
            keep@.len() == i,
            forall|k: int|
                0 <= k < i ==> keep@[k] == !((#[trigger] tasks@[k]).status is Completed),
        decreases tasks.len() - i,
    {
        keep.push(!is_completed(&tasks[i]));
        i = i + 1;
    }
    proof {
        lemma_kept_is_filter(tasks@, keep@, |t: DownloadTask| !(t.status is Completed));
    }
    keep_tasks(tasks, &keep);
}

/// The first of the shown downloads, from `k` on, with the file.
pub open spec fn shown_file_at(
    tasks: Seq<DownloadTask>,
    shown: Seq<usize>,
    path: Seq<char>,
    k: int,
) -> Option<int>
    decreases shown.len() - k,
{
    if k < 0 || k >= shown.len() {
        None
    } else if opt_text(tasks[shown[k] as int].pdf_path) == Some(path) {
        Some(k)
    } else {
        shown_file_at(tasks, shown, path, k + 1)
    }
}

/// The selection after the download folder was read anew: the same file, where it
/// is still shown.
pub open spec fn download_reselected(app: App, selected: Option<Seq<char>>) -> int {
    let shown = visible_downloads(query_of(app), app.downloads.items@);
    let stays = clamped_selection(app.downloads.selected as int, shown.len() as int);
    match selected {
        Some(path) => match shown_file_at(app.downloads.items@, shown, path, 0) {
            Some(k) => k,
            None => stays,
        },
        None => stays,
    }
}

/// Ends reading the download folder anew, with the file of the download that was
/// selected before.
pub fn finish_downloads_refresh(app: &mut App, selected: Option<String>)
    ensures
        *final(app) == (App {
            downloads: DownloadsState {
                selected: download_reselected(*old(app), opt_text(selected)) as usize,
                ..old(app).downloads
            },
            ..*old(app)
        }),
        old(app).wf() ==> final(app).wf(),
{
    let shown = app.filtered_downloads();
    let stays: usize = clamp_selection(app.downloads.selected, shown.len());
    let path = match selected {
        Some(path) => path,
        None => {
            app.downloads.selected = stays;
            return ;
        },
    };
    let mut k: usize = 0;
    while k < shown.len()
        invariant
            k <= shown@.len(),
            *app == *old(app),
            forall|j: int| 0 <= j < shown@.len() ==> (#[trigger] shown@[j])
                < app.downloads.items@.len(),
            shown_file_at(app.downloads.items@, shown@, path@, 0) == shown_file_at(
                app.downloads.items@,
                shown@,
                path@,
                k as int,
            ),
            selected == Some(path),
            shown@ == visible_downloads(query_of(*app), app.downloads.items@),
        decreases shown.len() - k,
    {
        let here = match &app.downloads.items[shown[k]].pdf_path {
            Some(found) => same_text(found.as_str(), path.as_str()),
            None => false,
        };
        if here {
            app.downloads.selected = k;
            return ;
        }
        k = k + 1;
    }
    app.downloads.selected = stays;
}

/// A task is found by its identifier: the first one that has it, and none only where none
/// has it.
pub proof fn law_tasks_are_found_by_identifier(tasks: Seq<DownloadTask>, id: Seq<char>, i: int)
    requires
        0 <= i <= tasks.len(),
    ensures
        match task_at(tasks, id, i) {
            Some(k) => i <= k < tasks.len() && tasks[k].id@ == id && forall|j: int|
                i <= j < k ==> (#[trigger] tasks[j]).id@ != id,
            None => forall|j: int| i <= j < tasks.len() ==> (#[trigger] tasks[j]).id@ != id,
        },
    decreases tasks.len() - i,
{
    if i < tasks.len() && tasks[i].id@ != id {
        law_tasks_are_found_by_identifier(tasks, id, i + 1);
    }
}

/// The first task of a paper is found, and none only where the paper has none.
pub proof fn law_tasks_are_found_by_paper(tasks: Seq<DownloadTask>, paper_id: i64, i: int)
    requires
        0 <= i <= tasks.len(),
    ensures
        match paper_task_at(tasks, paper_id, i) {
            Some(k) => i <= k < tasks.len() && tasks[k].paper_id == Some(paper_id) && forall|j: int|
                i <= j < k ==> (#[trigger] tasks[j]).paper_id != Some(paper_id),
            None => forall|j: int|
                i <= j < tasks.len() ==> (#[trigger] tasks[j]).paper_id != Some(paper_id),
        },
    decreases tasks.len() - i,
{
    if i < tasks.len() && tasks[i].paper_id != Some(paper_id) {
        law_tasks_are_found_by_paper(tasks, paper_id, i + 1);
    }
}

/// A download starts exactly where the paper has an address, is not in the library already
/// and is not being downloaded: it fetches that address and adds one task, at zero bytes,
/// behind the others.
pub proof fn law_downloads_start_when_wanted(
    pre: App,
    pending: PendingDownloads,
    paper: RemotePaper,
    directory: Seq<char>,
    title: Seq<char>,
    post: App,
    pending2: PendingDownloads,
    job: Option<DownloadJob>,
)
    requires
        start_step(pre, pending, paper, directory, title, post, pending2, job),
    ensures
        job is Some <==> paper.pdf_url is Some && download_of(pre.library.papers@, paper, 0) is None
            && !pending.has(paper.id@),
        job matches Some(job) ==> {
            let task = post.downloads.items@.last();
            &&& job.url@ == paper.pdf_url->0@
            &&& job.id@ == paper.id@
            &&& task.id@ == paper.id@
            &&& task.title@ == paper.title@
            &&& task.status is Starting
            &&& task.downloaded == 0
            &&& task.pdf_path is Some && task.pdf_path->0@ == job.destination@
            &&& post.downloads.items@.len() == pre.downloads.items@.len() + 1
            &&& forall|i: int|
                0 <= i < pre.downloads.items@.len() ==> post.downloads.items@[i]
                    == #[trigger] pre.downloads.items@[i]
        },
        job is None ==> post.downloads == pre.downloads && pending2 == pending,
        post.library == pre.library,
{
    if job is Some {
        assert forall|i: int| 0 <= i < pre.downloads.items@.len() implies post.downloads.items@[i]
            == #[trigger] pre.downloads.items@[i] by {
            assert(post.downloads.items@.drop_last()[i] == post.downloads.items@[i]);
        }
    }
}

/// The file of a download is named by the title, or else by what follows the last slash of
/// the identifier, and always ends in `.pdf`.
pub proof fn law_download_names_end_in_pdf(id: Seq<char>, title: Seq<char>)
    ensures
        title.len() > 0 ==> download_name(id, title) == title + ".pdf"@,
        title.len() == 0 ==> ({
            let stem = download_name(id, title).take(download_name(id, title).len() - 4);
            &&& !stem.contains('/')
            &&& ends_with_text(id, stem)
            &&& stem.len() < id.len() ==> id[id.len() - stem.len() - 1] == '/'
        }),
        ends_with_text(download_name(id, title), ".pdf"@),
{
    reveal_strlit(".pdf");
    let name = download_name(id, title);
    assert(name.skip(name.len() - 4) =~= ".pdf"@);
    if title.len() == 0 {
        let stem = short_id(id);
        assert(name.take(name.len() - 4) =~= stem);
        lemma_last_position(id, '/');
        let k = last_position(id, '/');
        assert(id.skip(id.len() - stem.len()) =~= stem);
        assert forall|i: int| 0 <= i < stem.len() implies stem[i] != '/' by {
            assert(stem[i] == id[k + 1 + i]);
        }
    }
}

/// A retry starts the same task over, in its place, and fetches the paper's address again to
/// where it was going; every other task stays.
pub proof fn law_retries_restart_the_task(
    pre: App,
    pending: PendingDownloads,
    id: Seq<char>,
    paper: RemotePaper,
    directory: Seq<char>,
    post: App,
    pending2: PendingDownloads,
    retry: Option<DownloadRetry>,
)
    requires
        retry_step(pre, pending, id, paper, directory, post, pending2, retry),
    ensures
        retry is Some <==> !pending.has(id) && exists|i: int|
            0 <= i < pre.downloads.items@.len() && (#[trigger] pre.downloads.items@[i]).id@ == id,
        retry is None ==> post == pre && pending2 == pending,
        post.downloads.items@.len() == pre.downloads.items@.len(),
        forall|i: int|
            0 <= i < pre.downloads.items@.len() ==> {
                let (a, b) = (pre.downloads.items@[i], #[trigger] post.downloads.items@[i]);
                ||| b == a
                ||| a.id@ == id && b.id == a.id && b.status is Starting && b.downloaded == 0
                    && b.failed_at is None && b.pdf_path == a.pdf_path && b.title == a.title
            },
        retry matches Some(r) ==> {
            &&& paper.pdf_url is Some ==> r.job.url@ == paper.pdf_url->0@
            &&& r.job.id@ == id
            &&& exists|i: int|
                0 <= i < pre.downloads.items@.len() && (#[trigger] post.downloads.items@[i]).id@
                    == id && post.downloads.items@[i].status is Starting && (
                post.downloads.items@[i].pdf_path is Some ==> r.job.destination@
                    == post.downloads.items@[i].pdf_path->0@)
        },
{
    law_tasks_are_found_by_identifier(pre.downloads.items@, id, 0);
    let found = task_at(pre.downloads.items@, id, 0);
    if retry is Some {
        let k = found->0;
        assert(post.downloads.items@[k] == restarted(pre.downloads.items@[k]));
        assert(pre.downloads.items@[k].id@ == id);
    }
}

/// An event of a download changes the task it is about and no other: a start and progress
/// keep it running with what they report, a failure is noted with its time and its words, and
/// nothing but an event about an unknown task is an error.
pub proof fn law_events_change_their_task(
    pre: App,
    pending: PendingDownloads,
    event: DownloadEvent,
    post: App,
    pending2: PendingDownloads,
    r: Result<Option<CompletedFile>, String>,
    i: int,
)
    requires
        event_step(pre, pending, event, post, pending2, r),
        0 <= i < pre.downloads.items@.len(),
    ensures
        ({
            let (a, b) = (pre.downloads.items@[i], post.downloads.items@[i]);
            let first = a.id@ == event.about() && forall|j: int|
                0 <= j < i ==> (#[trigger] pre.downloads.items@[j]).id@ != event.about();
            &&& post.downloads.items@.len() == pre.downloads.items@.len()
            &&& !first ==> b == a
            &&& first ==> {
                &&& b.id == a.id && b.title == a.title && b.paper_id == a.paper_id && b.pdf_path
                    == a.pdf_path
                &&& event matches DownloadEvent::Started { id, total } ==> b.status is Running
                    && b.total == total && b.downloaded == a.downloaded
                &&& event matches DownloadEvent::Progress { id, downloaded } ==> b.status is Running
                    && b.downloaded == downloaded && b.total == a.total
                &&& event is Completed ==> b.status is ExtractingMetadata
                &&& event matches DownloadEvent::Failed { id, error } ==> b.status
                    == DownloadStatus::Failed(error) && b.failed_at == Some(pre.clock_ms)
            }
            &&& first ==> r is Ok
            &&& event is Failed && first ==> !pending2.has(event.about())
            &&& !(event is Failed) ==> pending2 == pending
        }),
        r is Err ==> forall|j: int|
            0 <= j < pre.downloads.items@.len() ==> (#[trigger] pre.downloads.items@[j]).id@
                != event.about(),
        r matches Ok(completed) ==> (completed is Some <==> event is Completed),
{
    law_tasks_are_found_by_identifier(pre.downloads.items@, event.about(), 0);
}

/// A failed download leaves the list two minutes after it failed, and nothing else ever does.
pub proof fn law_failures_stay_two_minutes(task: DownloadTask, now: u64)
    ensures
        is_expired(task, now) <==> task.status is Failed && task.failed_at is Some && now
            >= task.failed_at->0 + 120_000,
{
}

/// What is left after failures expired keeps its order, all of what has not expired is left,
/// and a selection that is still in the list stays.
pub proof fn law_expiry_keeps_the_rest(d: DownloadsState, now: u64, post: DownloadsState)
    requires
        downloads_expired(d, now, post),
    ensures
        forall|t: DownloadTask| #[trigger]
            post.items@.contains(t) <==> d.items@.contains(t) && !is_expired(t, now),
        post.items@.len() <= d.items@.len(),
        d.selected < post.items@.len() ==> post.selected == d.selected,
        0 < post.items@.len() <= d.selected && post.items@.len() < d.items@.len() ==> post.selected
            == post.items@.len() - 1,
{
    let keep = |t: DownloadTask| !is_expired(t, now);
    d.items@.lemma_filter_len(keep);
    assert forall|t: DownloadTask| #[trigger] post.items@.contains(t) implies d.items@.contains(t)
        && !is_expired(t, now) by {
        let i = choose|i: int| 0 <= i < post.items@.len() && post.items@[i] == t;
        d.items@.lemma_filter_pred(keep, i);
        d.items@.lemma_filter_contains_rev(keep, t);
    }
    assert forall|t: DownloadTask| d.items@.contains(t) && !is_expired(
        t,
        now,
    ) implies #[trigger] post.items@.contains(t) by {
        let i = choose|i: int| 0 <= i < d.items@.len() && d.items@[i] == t;
        d.items@.lemma_filter_contains(keep, i);
    }
}

/// The contents of a local file decide which paper it belongs to; without that its path does,
/// and then the path with every link resolved.
pub proof fn law_contents_decide_the_paper(lookup: LibraryLookup)
    ensures
        lookup.by_contents matches Some((id, path)) ==> paper_of_file(lookup) == Some(id),
        lookup.by_contents is None && lookup.by_path is Some ==> paper_of_file(lookup)
            == lookup.by_path,
        lookup.by_contents is None && lookup.by_path is None ==> paper_of_file(lookup)
            == lookup.by_canonical_path,
{
}

/// After the download folder was read anew the same file is selected where it is still shown;
/// otherwise the selection stays as far as the list goes.
pub proof fn law_reading_anew_keeps_the_selected_file(app: App, path: Seq<char>)
    ensures
        ({
            let shown = visible_downloads(query_of(app), app.downloads.items@);
            let k = download_reselected(app, Some(path));
            let is_there = exists|i: int|
                0 <= i < shown.len() && opt_text(
                    app.downloads.items@[#[trigger] shown[i] as int].pdf_path,
                ) == Some(path);
            &&& is_there ==> 0 <= k < shown.len() && opt_text(
                app.downloads.items@[shown[k] as int].pdf_path,
            ) == Some(path)
            &&& !is_there && app.downloads.selected < shown.len() ==> k == app.downloads.selected
            &&& !is_there && app.downloads.selected >= shown.len() > 0 ==> k == shown.len() - 1
        }),
{
    let shown = visible_downloads(query_of(app), app.downloads.items@);
    lemma_shown_file_at(app.downloads.items@, shown, path, 0);
}

proof fn lemma_shown_file_at(tasks: Seq<DownloadTask>, shown: Seq<usize>, path: Seq<char>, k: int)
    requires
        0 <= k <= shown.len(),
    ensures
        match shown_file_at(tasks, shown, path, k) {
            Some(i) => k <= i < shown.len() && opt_text(tasks[shown[i] as int].pdf_path) == Some(
                path,
            ),
            None => forall|i: int|
                k <= i < shown.len() ==> opt_text(tasks[#[trigger] shown[i] as int].pdf_path)
                    != Some(path),
        },
    decreases shown.len() - k,
{
    if k < shown.len() && opt_text(tasks[shown[k] as int].pdf_path) != Some(path) {
        lemma_shown_file_at(tasks, shown, path, k + 1);
    }
}

/// A file name that ends in `.pdf` gives the identifier before it, and any other name itself.
pub proof fn law_file_names_give_identifiers(name: Seq<char>)
    ensures
        file_id(name + ".pdf"@) == name,
        !ends_with_text(name, ".pdf"@) ==> file_id(name) == name,
{
    reveal_strlit(".pdf");
    let full = name + ".pdf"@;
    assert(full.skip(full.len() - 4) =~= ".pdf"@);
    assert(full.take(full.len() - 4) =~= name);
}

/// Of the PDF files of one age, the folder's order is kept, and all of them are listed.
pub proof fn law_files_of_one_age_keep_their_order(os: Platform, listing: Seq<LocalFile>, age: u128)
    ensures
        newest_first(pdfs_by_age(os, listing)),
        pdfs_by_age(os, listing).filter(|f: LocalFile| f.modified == age) == listing.filter(
            |f: LocalFile| f.modified == age && has_extension(os, f.path@, "pdf"@),
        ),
    decreases listing.len(),
{
    reveal(Seq::filter);
    if listing.len() > 0 {
        law_files_of_one_age_keep_their_order(os, listing.drop_last(), age);
        let rest = pdfs_by_age(os, listing.drop_last());
        let file = listing.last();
        if has_extension(os, file.path@, "pdf"@) {
            let k = place_by_age(rest, file, 0);
            lemma_place_among_ages(rest, file, 0);
            let aged = |f: LocalFile| f.modified == age;
            let (head, tail) = (rest.take(k), rest.skip(k));
            assert(rest =~= head + tail);
            assert(rest.insert(k, file) =~= head.push(file) + tail);
            Seq::filter_distributes_over_add(head, tail, aged);
            Seq::filter_distributes_over_add(head.push(file), tail, aged);
            assert(head.push(file).drop_last() =~= head);
            if file.modified == age {
                lemma_none_of_the_age(tail, age);
                assert(rest.filter(aged) =~= head.filter(aged));
                assert(rest.insert(k, file).filter(aged) =~= head.filter(aged).push(file));
            }
        }
    }
}

proof fn lemma_place_among_ages(v: Seq<LocalFile>, file: LocalFile, i: int)
    requires
        newest_first(v),
        0 <= i <= v.len(),
        forall|j: int| 0 <= j < i ==> (#[trigger] v[j]).modified >= file.modified,
    ensures
        i <= place_by_age(v, file, i) <= v.len(),
        forall|j: int|
            0 <= j < place_by_age(v, file, i) ==> (#[trigger] v[j]).modified >= file.modified,
        forall|j: int|
            place_by_age(v, file, i) <= j < v.len() ==> (#[trigger] v[j]).modified < file.modified,
    decreases v.len() - i,
{
    if i < v.len() && v[i].modified >= file.modified {
        lemma_place_among_ages(v, file, i + 1);
    }
}

proof fn lemma_none_of_the_age(v: Seq<LocalFile>, age: u128)
    requires
        forall|j: int| 0 <= j < v.len() ==> (#[trigger] v[j]).modified != age,
    ensures
        v.filter(|f: LocalFile| f.modified == age).len() == 0,
    decreases v.len(),
{
    reveal(Seq::filter);
    if v.len() > 0 {
        assert(v.last() == v[v.len() - 1]);
        lemma_none_of_the_age(v.drop_last(), age);
    }
}

/// A completed download has the file and its size, and the paper that it was attached to where
/// there is one; its title and state stay.
pub proof fn law_completed_downloads_have_their_file(
    task: DownloadTask,
    file: IndexedFile,
    paper_id: Option<i64>,
)
    ensures
        ({
            let done = task_indexed(task, file, paper_id);
            &&& done.pdf_path == Some(file.path)
            &&& done.downloaded == file.size && done.total == Some(file.size)
            &&& paper_id is Some ==> done.paper_id == paper_id
            &&& paper_id is None ==> done.paper_id == task.paper_id
            &&& done.id == task.id && done.title == task.title && done.status == task.status
        }),
{
}

} // verus!
