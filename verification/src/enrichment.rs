//! Metadata that is looked up in the background for papers of the library.

use vstd::prelude::*;
use crate::chars::{blank, is_blank};
use crate::downloads::{
    find_paper_task, law_tasks_are_found_by_paper, paper_task_at, CompletedFile,
};
use crate::model::{clone_text, DownloadStatus, DownloadTask, RemotePaper, RemotePaperView};
use crate::paths::{path_with_extension, with_extension};
use crate::state::{App, DiscoveryState, TodayState};
use crate::text::same_text;
use crate::viewer::Platform;

verus! {

/// A paper that lacks metadata, and what they could be looked up by.
#[derive(Debug)]
pub struct MetadataCandidate {
    pub paper_id: i64,
    pub arxiv_id: Option<String>,
    pub doi: Option<String>,
    pub pdf_path: Option<String>,
}

impl Clone for MetadataCandidate {
    fn clone(&self) -> (r: MetadataCandidate)
        ensures
            r == *self,
    {
        MetadataCandidate {
            paper_id: self.paper_id,
            arxiv_id: clone_text(&self.arxiv_id),
            doi: clone_text(&self.doi),
            pdf_path: clone_text(&self.pdf_path),
        }
    }
}

/// The metadata that were found, put on a paper that is shown. An abstract that
/// the source lacks stays.
pub open spec fn merged(current: RemotePaperView, enriched: RemotePaperView) -> RemotePaperView {
    RemotePaperView {
        abstract_text: if is_blank(enriched.abstract_text) {
            current.abstract_text
        } else {
            enriched.abstract_text
        },
        ..enriched
    }
}

/// Puts metadata that were found on a paper that is shown.
pub fn merge_enriched_remote_paper(current: &RemotePaper, enriched: &RemotePaper) -> (r: RemotePaper)
    ensures
        r@ == merged(current@, enriched@),
{
    let mut r = enriched.clone();
    if blank(r.abstract_text.as_str()) {
        r.abstract_text = current.abstract_text.clone();
    }
    assert(r@ =~= merged(current@, enriched@));
    r
}

/// An abstract is never replaced by none, and merging the same metadata again
/// changes nothing.
pub proof fn law_merge_keeps_the_abstract(current: RemotePaperView, enriched: RemotePaperView)
    ensures
        is_blank(merged(current, enriched).abstract_text) ==> is_blank(current.abstract_text),
        merged(merged(current, enriched), enriched) == merged(current, enriched),
{
}

/// The metadata are those of the paper: by identifier, or by DOI.
pub open spec fn is_about(candidate: RemotePaper, paper: RemotePaper) -> bool {
    candidate.id@ == paper.id@ || (paper.doi matches Some(doi) && (candidate.doi matches Some(
        other,
    ) && other@ == doi@))
}

fn describes(candidate: &RemotePaper, paper: &RemotePaper) -> (r: bool)
    ensures
        r == is_about(*candidate, *paper),
{
    same_text(candidate.id.as_str(), paper.id.as_str()) || match (&paper.doi, &candidate.doi) {
        (Some(doi), Some(other)) => same_text(other.as_str(), doi.as_str()),
        _ => false,
    }
}

/// The papers that the metadata are about take them over.
pub open spec fn papers_enriched(
    before: Seq<RemotePaper>,
    paper: RemotePaper,
    after: Seq<RemotePaper>,
) -> bool {
    &&& after.len() == before.len()
    &&& forall|i: int|
        0 <= i < before.len() ==> (#[trigger] after[i])@ == if is_about(before[i], paper) {
            merged(before[i]@, paper@)
        } else {
            before[i]@
        }
}

fn enrich_papers(papers: &mut Vec<RemotePaper>, paper: &RemotePaper)
    ensures
        papers_enriched(old(papers)@, *paper, final(papers)@),
{
    let ghost before = papers@;
    let mut i: usize = 0;
    while i < papers.len()
        invariant
            i <= papers@.len(),
            papers@.len() == before.len(),
            before == old(papers)@,
            forall|k: int|
                0 <= k < i ==> (#[trigger] papers@[k])@ == if is_about(before[k], *paper) {
                    merged(before[k]@, paper@)
                } else {
                    before[k]@
                },
            forall|k: int| i <= k < before.len() ==> papers@[k] == before[k],
        decreases papers.len() - i,
    {
        if describes(&papers[i], paper) {
            let fresh = merge_enriched_remote_paper(&papers[i], paper);
            papers[i] = fresh;
        }
        i = i + 1;
    }
}

/// Puts metadata that were found on every paper that the feed and the search show.
pub fn apply_enriched_paper(app: &mut App, paper: &RemotePaper)
    ensures
        *final(app) == (App {
            today: TodayState { papers: final(app).today.papers, ..old(app).today },
            discovery: DiscoveryState {
                results: final(app).discovery.results,
                ..old(app).discovery
            },
            ..*old(app)
        }),
        papers_enriched(old(app).today.papers@, *paper, final(app).today.papers@),
        papers_enriched(old(app).discovery.results@, *paper, final(app).discovery.results@),
        old(app).wf() ==> final(app).wf(),
{
    enrich_papers(&mut app.today.papers, paper);
    enrich_papers(&mut app.discovery.results, paper);
}

/// One of the jobs is about the paper of the task.
pub open spec fn has_job(jobs: Seq<MetadataCandidate>, paper_id: Option<i64>) -> bool {
    exists|i: int| 0 <= i < jobs.len() && Some((#[trigger] jobs[i]).paper_id) == paper_id
}

fn find_job(jobs: &Vec<MetadataCandidate>, paper_id: Option<i64>) -> (r: bool)
    ensures
        r == has_job(jobs@, paper_id),
{
    let id: i64 = match paper_id {
        None => return false,
        Some(id) => id,
    };
    let mut i: usize = 0;
    while i < jobs.len()
        invariant
            i <= jobs@.len(),
            paper_id == Some(id),
            forall|k: int| 0 <= k < i ==> (#[trigger] jobs@[k]).paper_id != id,
        decreases jobs.len() - i,
    {
        if jobs[i].paper_id == id {
            assert(Some(jobs@[i as int].paper_id) == paper_id);
            return true;
        }
        i = i + 1;
    }
    false
}

/// A task whose metadata need not be looked up is complete.
pub open spec fn needs_nothing(task: DownloadTask, jobs: Seq<MetadataCandidate>) -> bool {
    task.status is ExtractingMetadata && !has_job(jobs, task.paper_id)
}

/// The task, complete where its metadata need not be looked up.
pub open spec fn settled(task: DownloadTask, jobs: Seq<MetadataCandidate>) -> DownloadTask {
    if needs_nothing(task, jobs) {
        DownloadTask { status: DownloadStatus::Completed, ..task }
    } else {
        task
    }
}

/// The first task of the paper is being enriched.
pub open spec fn marked(tasks: Seq<DownloadTask>, paper_id: i64) -> Seq<DownloadTask> {
    match paper_task_at(tasks, paper_id, 0) {
        Some(i) => tasks.update(i, DownloadTask { status: DownloadStatus::Enriching, ..tasks[i] }),
        None => tasks,
    }
}

/// The first task of every job's paper is being enriched.
pub open spec fn all_marked(tasks: Seq<DownloadTask>, jobs: Seq<MetadataCandidate>) -> Seq<
    DownloadTask,
>
    decreases jobs.len(),
{
    if jobs.len() == 0 {
        tasks
    } else {
        marked(all_marked(tasks, jobs.drop_last()), jobs.last().paper_id)
    }
}

/// The files of the tasks that became complete, in the order of the tasks.
pub open spec fn settled_files(tasks: Seq<DownloadTask>, jobs: Seq<MetadataCandidate>) -> Seq<
    Seq<char>,
>
    decreases tasks.len(),
{
    if tasks.len() == 0 {
        Seq::empty()
    } else {
        let rest = settled_files(tasks.drop_last(), jobs);
        match tasks.last().pdf_path {
            Some(path) => if needs_nothing(tasks.last(), jobs) {
                rest.push(path@)
            } else {
                rest
            },
            None => rest,
        }
    }
}

/// The files are to get their final names, `paths`, where the temporary ones are
/// still there.
pub open spec fn are_promoted(
    os: Platform,
    files: Seq<CompletedFile>,
    paths: Seq<Seq<char>>,
) -> bool {
    &&& files.len() == paths.len()
    &&& forall|i: int|
        0 <= i < files.len() ==> (#[trigger] files[i]).path@ == paths[i] && files[i].temporary@
            == with_extension(os, paths[i], "pdf.part"@)
}

/// The final and the temporary name of the file of a download.
pub fn finalize_download_task(os: Platform, task: &DownloadTask) -> (r: Option<CompletedFile>)
    ensures
        match task.pdf_path {
            Some(path) => r matches Some(file) && file.path@ == path@ && file.temporary@
                == with_extension(os, path@, "pdf.part"@),
            None => r is None,
        },
{
    match &task.pdf_path {
        Some(path) => Some(
            CompletedFile {
                temporary: path_with_extension(os, path.as_str(), "pdf.part"),
                path: path.clone(),
            },
        ),
        None => None,
    }
}

fn settle_tasks(
    os: Platform,
    tasks: &mut Vec<DownloadTask>,
    jobs: &Vec<MetadataCandidate>,
) -> (files: Vec<
    CompletedFile,
>)
    ensures
        final(tasks)@ == old(tasks)@.map_values(|t: DownloadTask| settled(t, jobs@)),
        are_promoted(os, files@, settled_files(old(tasks)@, jobs@)),
{
    let ghost before = tasks@;
    let mut files: Vec<CompletedFile> = Vec::new();
    let mut i: usize = 0;
    assert(before.take(0) =~= Seq::<DownloadTask>::empty());
    while i < tasks.len()
        invariant
            i <= tasks@.len(),
            tasks@.len() == before.len(),
            before == old(tasks)@,
            forall|k: int| 0 <= k < i ==> tasks@[k] == settled(before[k], jobs@),
            forall|k: int| i <= k < before.len() ==> tasks@[k] == before[k],
            are_promoted(os, files@, settled_files(before.take(i as int), jobs@)),
        decreases tasks.len() - i,
    {
        proof {
            assert(before.take(i + 1).drop_last() =~= before.take(i as int));
            assert(before.take(i + 1).last() == before[i as int]);
        }
        let extracting = match &tasks[i].status {
            DownloadStatus::ExtractingMetadata => true,
            _ => false,
        };
        if extracting && !find_job(jobs, tasks[i].paper_id) {
            let file = finalize_download_task(os, &tasks[i]);
            tasks[i].status = DownloadStatus::Completed;
            if let Some(file) = file {
                files.push(file);
            }
        }
        i = i + 1;
    }
    assert(before.take(before.len() as int) =~= before);
    assert(tasks@ =~= before.map_values(|t: DownloadTask| settled(t, jobs@)));
    files
}

fn mark_tasks(tasks: &mut Vec<DownloadTask>, jobs: &Vec<MetadataCandidate>)
    ensures
        final(tasks)@ == all_marked(old(tasks)@, jobs@),
{
    let ghost before = tasks@;
    let mut i: usize = 0;
    assert(jobs@.take(0) =~= Seq::<MetadataCandidate>::empty());
    while i < jobs.len()
        invariant
            i <= jobs@.len(),
            tasks@ == all_marked(before, jobs@.take(i as int)),
        decreases jobs.len() - i,
    {
        proof {
            assert(jobs@.take(i + 1).drop_last() =~= jobs@.take(i as int));
            assert(jobs@.take(i + 1).last() == jobs@[i as int]);
        }
        if let Some(k) = find_paper_task(tasks, jobs[i].paper_id) {
            let ghost now = tasks@;
            tasks[k].status = DownloadStatus::Enriching;
            assert(tasks@ =~= marked(now, jobs@[i as int].paper_id));
        }
        i = i + 1;
    }
    assert(jobs@.take(jobs@.len() as int) =~= jobs@);
}

/// A set of papers, kept in a list without repetitions.
#[derive(Debug)]
pub struct PaperSet {
    pub ids: Vec<i64>,
}

impl PaperSet {
    pub open spec fn wf(self) -> bool {
        self.ids@.no_duplicates()
    }

    pub open spec fn view(self) -> Set<i64> {
        self.ids@.to_set()
    }

    pub fn new() -> (r: PaperSet)
        ensures
            r.wf(),
            r@ == Set::<i64>::empty(),
    {
        let r = PaperSet { ids: Vec::new() };
        assert(r@ =~= Set::<i64>::empty());
        r
    }

    pub fn contains(&self, id: i64) -> (r: bool)
        ensures
            r == self@.contains(id),
    {
        let mut i: usize = 0;
        while i < self.ids.len()
            invariant
                i <= self.ids@.len(),
                forall|k: int| 0 <= k < i ==> self.ids@[k] != id,
            decreases self.ids.len() - i,
        {
            if self.ids[i] == id {
                assert(self.ids@[i as int] == id);
                return true;
            }
            i = i + 1;
        }
        false
    }

    pub fn insert(&mut self, id: i64)
        requires
            old(self).wf(),
        ensures
            final(self).wf(),
            final(self)@ == old(self)@.insert(id),
    {
        let ghost before = self.ids@;
        if !self.contains(id) {
            self.ids.push(id);
            assert(self.ids@.to_set() =~= before.to_set().insert(id)) by {
                assert forall|p: i64| self.ids@.contains(p) <==> before.contains(p) || p == id by {
                    if before.contains(p) {
                        let k = before.index_of(p);
                        assert(self.ids@[k] == p);
                    }
                    if p == id {
                        assert(self.ids@[before.len() as int] == p);
                    }
                }
            }
            assert(self.ids@.no_duplicates()) by {
                assert(!before.contains(id));
            }
        } else {
            assert(before.to_set() =~= before.to_set().insert(id));
        }
    }

    pub fn remove(&mut self, id: i64)
        requires
            old(self).wf(),
        ensures
            final(self).wf(),
            final(self)@ == old(self)@.remove(id),
    {
        let ghost before = self.ids@;
        let mut i: usize = 0;
        while i < self.ids.len()
            invariant
                i <= self.ids@.len(),
                self.ids@ == before,
                before == old(self).ids@,
                before.no_duplicates(),
                forall|k: int| 0 <= k < i ==> before[k] != id,
            decreases self.ids.len() - i,
        {
            if self.ids[i] == id {
                self.ids.remove(i);
                let ghost after = self.ids@;
                assert(after =~= before.remove(i as int));
                assert(after.to_set() =~= before.to_set().remove(id)) by {
                    assert forall|p: i64| after.contains(p) <==> before.contains(p) && p != id by {
                        if after.contains(p) {
                            let k = after.index_of(p);
                            assert(before[if k < i { k } else { k + 1 }] == p);
                        }
                        if before.contains(p) && p != id {
                            let k = before.index_of(p);
                            assert(after[if k < i { k } else { k - 1 }] == p);
                        }
                    }
                }
                assert(after.no_duplicates()) by {
                    assert forall|a: int, b: int|
                        0 <= a < after.len() && 0 <= b < after.len() && a != b implies after[a]
                        != after[b] by {
                        let x = if a < i { a } else { a + 1 };
                        let y = if b < i { b } else { b + 1 };
                        assert(before[x] != before[y]);
                    }
                }
                return ;
            }
            i = i + 1;
        }
        assert(before.to_set() =~= before.to_set().remove(id)) by {
            assert(!before.contains(id));
        }
    }
}

/// The papers that are not looked up yet, in their order.
pub open spec fn new_jobs(candidates: Seq<MetadataCandidate>, active: Set<i64>) -> Seq<
    MetadataCandidate,
> {
    candidates.filter(|c: MetadataCandidate| !active.contains(c.paper_id))
}

fn pick_jobs(candidates: &Vec<MetadataCandidate>, active: &PaperSet) -> (jobs: Vec<
    MetadataCandidate,
>)
    ensures
        jobs@ == new_jobs(candidates@, active@),
{
    let ghost p = |c: MetadataCandidate| !active@.contains(c.paper_id);
    let mut jobs: Vec<MetadataCandidate> = Vec::new();
    let mut i: usize = 0;
    proof {
        reveal(Seq::filter);
        assert(candidates@.take(0) =~= Seq::<MetadataCandidate>::empty());
    }
    while i < candidates.len()
        invariant
            i <= candidates@.len(),
            p == (|c: MetadataCandidate| !active@.contains(c.paper_id)),
            jobs@ == candidates@.take(i as int).filter(p),
        decreases candidates.len() - i,
    {
        proof {
            reveal(Seq::filter);
            assert(candidates@.take(i + 1).drop_last() =~= candidates@.take(i as int));
            assert(candidates@.take(i + 1).last() == candidates@[i as int]);
        }
        if !active.contains(candidates[i].paper_id) {
            jobs.push(candidates[i].clone());
        }
        i = i + 1;
    }
    assert(candidates@.take(candidates@.len() as int) =~= candidates@);
    jobs
}

fn note_jobs(active: &mut PaperSet, jobs: &Vec<MetadataCandidate>)
    requires
        old(active).wf(),
    ensures
        final(active).wf(),
        forall|id: i64| #[trigger]
            final(active)@.contains(id) == (old(active)@.contains(id) || has_job(jobs@, Some(id))),
{
    let ghost before = active@;
    let mut i: usize = 0;
    while i < jobs.len()
        invariant
            i <= jobs@.len(),
            active.wf(),
            forall|id: i64| #[trigger]
                active@.contains(id) == (before.contains(id) || has_job(
                    jobs@.take(i as int),
                    Some(id),
                )),
        decreases jobs.len() - i,
    {
        let ghost now = active@;
        active.insert(jobs[i].paper_id);
        assert forall|id: i64| #[trigger] active@.contains(id) == (before.contains(id) || has_job(
            jobs@.take(i + 1),
            Some(id),
        )) by {
            let shorter = jobs@.take(i as int);
            let longer = jobs@.take(i + 1);
            assert(now.contains(id) == (before.contains(id) || has_job(shorter, Some(id))));
            if has_job(shorter, Some(id)) {
                let k = choose|k: int|
                    0 <= k < shorter.len() && Some((#[trigger] shorter[k]).paper_id) == Some(id);
                assert(longer[k] == shorter[k]);
            }
            if has_job(longer, Some(id)) && id != jobs@[i as int].paper_id {
                let k = choose|k: int|
                    0 <= k < longer.len() && Some((#[trigger] longer[k]).paper_id) == Some(id);
                assert(longer[k] == shorter[k]);
            }
            assert(longer[i as int] == jobs@[i as int]);
        }
        i = i + 1;
    }
    assert(jobs@.take(jobs@.len() as int) =~= jobs@);
}

/// Lookups that are to be made, and files that are to get their final names.
#[derive(Debug)]
pub struct EnrichmentPlan {
    pub jobs: Vec<MetadataCandidate>,
    pub files: Vec<CompletedFile>,
}

/// Decides which papers are looked up: those that need it and are not looked up
/// already. Downloads that need nothing become complete.
pub fn spawn_enrichment_if_needed(
    app: &mut App,
    active: &mut PaperSet,
    candidates: &Vec<MetadataCandidate>,
) -> (plan: EnrichmentPlan)
    requires
        old(active).wf(),
    ensures
        final(active).wf(),
        *final(app) == (App {
            downloads: final(app).downloads,
            enrichment_pending: old(app).enrichment_pending || plan.jobs@.len() > 0,
            ..*old(app)
        }),
        plan.jobs@ == new_jobs(candidates@, old(active)@),
        final(app).downloads.selected == old(app).downloads.selected,
        final(app).downloads.items@ == all_marked(
            old(app).downloads.items@.map_values(|t: DownloadTask| settled(t, plan.jobs@)),
            plan.jobs@,
        ),
        are_promoted(
            old(app).platform,
            plan.files@,
            settled_files(old(app).downloads.items@, plan.jobs@),
        ),
        forall|id: i64| #[trigger]
            final(active)@.contains(id) == (old(active)@.contains(id) || has_job(
                plan.jobs@,
                Some(id),
            )),
        old(app).wf() ==> final(app).wf(),
{
    let jobs = pick_jobs(candidates, active);
    let files = settle_tasks(app.platform, &mut app.downloads.items, &jobs);
    mark_tasks(&mut app.downloads.items, &jobs);
    note_jobs(active, &jobs);
    if jobs.len() > 0 {
        app.enrichment_pending = true;
    }
    EnrichmentPlan { jobs, files }
}

/// Nothing is looked up twice at a time.
pub proof fn law_lookups_are_new(candidates: Seq<MetadataCandidate>, active: Set<i64>, i: int)
    requires
        0 <= i < new_jobs(candidates, active).len(),
    ensures
        !active.contains(new_jobs(candidates, active)[i].paper_id),
{
    let p = |c: MetadataCandidate| !active.contains(c.paper_id);
    candidates.lemma_filter_pred(p, i);
}

/// The first download of the paper is complete.
pub open spec fn completed(tasks: Seq<DownloadTask>, paper_id: i64) -> Seq<DownloadTask> {
    match paper_task_at(tasks, paper_id, 0) {
        Some(i) => tasks.update(i, DownloadTask { status: DownloadStatus::Completed, ..tasks[i] }),
        None => tasks,
    }
}

/// Ends the lookup of a paper: its download is complete, and the file of that gets
/// its final name.
pub fn finish_enrichment(app: &mut App, active: &mut PaperSet, paper_id: i64) -> (file: Option<
    CompletedFile,
>)
    requires
        old(active).wf(),
    ensures
        final(active).wf(),
        final(active)@ == old(active)@.remove(paper_id),
        *final(app) == (App { downloads: final(app).downloads, ..*old(app) }),
        final(app).downloads.selected == old(app).downloads.selected,
        final(app).downloads.items@ == completed(old(app).downloads.items@, paper_id),
        match paper_task_at(old(app).downloads.items@, paper_id, 0) {
            Some(i) => match old(app).downloads.items@[i].pdf_path {
                Some(path) => file matches Some(file) && file.path@ == path@ && file.temporary@
                    == with_extension(old(app).platform, path@, "pdf.part"@),
                None => file is None,
            },
            None => file is None,
        },
        old(app).wf() ==> final(app).wf(),
{
    active.remove(paper_id);
    match find_paper_task(&app.downloads.items, paper_id) {
        Some(i) => {
            let ghost before = app.downloads.items@;
            let file = finalize_download_task(app.platform, &app.downloads.items[i]);
            app.downloads.items[i].status = DownloadStatus::Completed;
            assert(app.downloads.items@ =~= completed(before, paper_id));
            file
        },
        None => None,
    }
}

/// Notes that no lookup is left to be taken over.
pub fn settle_enrichment(app: &mut App, queue_is_empty: bool) -> (changed: bool)
    ensures
        changed == (queue_is_empty && old(app).enrichment_pending),
        *final(app) == (App {
            enrichment_pending: old(app).enrichment_pending && !queue_is_empty,
            ..*old(app)
        }),
        old(app).wf() ==> final(app).wf(),
{
    if queue_is_empty && app.enrichment_pending {
        app.enrichment_pending = false;
        true
    } else {
        false
    }
}

/// Metadata that were found replace those of the papers they are about, the abstract only by
/// one that is not blank, and leave every other paper as it is.
pub proof fn law_metadata_reach_their_papers(
    before: Seq<RemotePaper>,
    paper: RemotePaper,
    after: Seq<RemotePaper>,
    i: int,
)
    requires
        papers_enriched(before, paper, after),
        0 <= i < before.len(),
    ensures
        after.len() == before.len(),
        ({
            let same_doi = paper.doi is Some && before[i].doi is Some && before[i].doi->0@
                == paper.doi->0@;
            let about = before[i].id@ == paper.id@ || same_doi;
            &&& !about ==> after[i]@ == before[i]@
            &&& about ==> after[i]@ == RemotePaperView {
                abstract_text: after[i]@.abstract_text,
                ..paper@
            }
            &&& about && is_blank(paper@.abstract_text) ==> after[i]@.abstract_text
                == before[i]@.abstract_text
            &&& about && !is_blank(paper@.abstract_text) ==> after[i]@.abstract_text
                == paper@.abstract_text
        }),
{
    assert(after[i]@ == if is_about(before[i], paper) {
        merged(before[i]@, paper@)
    } else {
        before[i]@
    });
}

/// A download whose metadata need not be looked up is complete once its file is there; any
/// other stays as it is.
pub proof fn law_downloads_without_lookup_are_complete(
    task: DownloadTask,
    jobs: Seq<MetadataCandidate>,
)
    ensures
        ({
            let looked_up = exists|i: int|
                0 <= i < jobs.len() && Some((#[trigger] jobs[i]).paper_id) == task.paper_id;
            &&& task.status is ExtractingMetadata && !looked_up ==> settled(task, jobs).status
                is Completed
            &&& !(task.status is ExtractingMetadata) || looked_up ==> settled(task, jobs) == task
        }),
        settled(task, jobs).id == task.id,
        settled(task, jobs).pdf_path == task.pdf_path,
{
}

/// The papers that are looked up are those that lack metadata and are not looked up yet: all
/// of them, in their order.
pub proof fn law_all_new_papers_are_looked_up(
    candidates: Seq<MetadataCandidate>,
    active: Set<i64>,
    c: MetadataCandidate,
)
    ensures
        new_jobs(candidates, active).contains(c) <==> candidates.contains(c) && !active.contains(
            c.paper_id,
        ),
        new_jobs(candidates, active).len() <= candidates.len(),
{
    let keep = |c: MetadataCandidate| !active.contains(c.paper_id);
    candidates.lemma_filter_len(keep);
    if new_jobs(candidates, active).contains(c) {
        candidates.lemma_filter_contains_rev(keep, c);
        let i = choose|i: int|
            0 <= i < new_jobs(candidates, active).len() && new_jobs(candidates, active)[i] == c;
        candidates.lemma_filter_pred(keep, i);
    }
    if candidates.contains(c) && !active.contains(c.paper_id) {
        let i = choose|i: int| 0 <= i < candidates.len() && candidates[i] == c;
        candidates.lemma_filter_contains(keep, i);
    }
}

/// Of the downloads of a paper, the first one is marked as looked up and, once that has ended,
/// as complete; no other download changes.
pub proof fn law_lookups_mark_one_download(tasks: Seq<DownloadTask>, paper_id: i64, i: int)
    requires
        0 <= i < tasks.len(),
    ensures
        marked(tasks, paper_id).len() == tasks.len(),
        completed(tasks, paper_id).len() == tasks.len(),
        ({
            let first = tasks[i].paper_id == Some(paper_id) && forall|j: int|
                0 <= j < i ==> (#[trigger] tasks[j]).paper_id != Some(paper_id);
            &&& first ==> marked(tasks, paper_id)[i] == DownloadTask {
                status: DownloadStatus::Enriching,
                ..tasks[i]
            }
            &&& first ==> completed(tasks, paper_id)[i] == DownloadTask {
                status: DownloadStatus::Completed,
                ..tasks[i]
            }
            &&& !first ==> marked(tasks, paper_id)[i] == tasks[i] && completed(tasks, paper_id)[i]
                == tasks[i]
        }),
{
    law_tasks_are_found_by_paper(tasks, paper_id, 0);
}

/// Looking papers up marks a download exactly where one of them is its paper and it is the
/// first of that paper, whatever the order of the lookups.
pub proof fn law_every_lookup_is_marked(
    tasks: Seq<DownloadTask>,
    jobs: Seq<MetadataCandidate>,
    i: int,
)
    requires
        0 <= i < tasks.len(),
    ensures
        all_marked(tasks, jobs).len() == tasks.len(),
        all_marked(tasks, jobs)[i] == tasks[i] || all_marked(tasks, jobs)[i] == (DownloadTask {
            status: DownloadStatus::Enriching,
            ..tasks[i]
        }),
        ({
            let first = tasks[i].paper_id is Some && forall|j: int|
                0 <= j < i ==> (#[trigger] tasks[j]).paper_id != tasks[i].paper_id;
            &&& has_job(jobs, tasks[i].paper_id) && first ==> all_marked(tasks, jobs)[i].status
                is Enriching
            &&& !has_job(jobs, tasks[i].paper_id) || !first ==> all_marked(tasks, jobs)[i]
                == tasks[i]
        }),
    decreases jobs.len(),
{
    if jobs.len() > 0 {
        let less = jobs.drop_last();
        let before = all_marked(tasks, less);
        let id = jobs.last().paper_id;
        law_every_lookup_is_marked(tasks, less, i);
        assert forall|j: int| 0 <= j < tasks.len() implies (#[trigger] before[j]).paper_id
            == tasks[j].paper_id by {
            law_every_lookup_is_marked(tasks, less, j);
        }
        law_lookups_mark_one_download(before, id, i);
        let first = tasks[i].paper_id is Some && forall|j: int|
            0 <= j < i ==> (#[trigger] tasks[j]).paper_id != tasks[i].paper_id;
        let first_of_id = before[i].paper_id == Some(id) && forall|j: int|
            0 <= j < i ==> (#[trigger] before[j]).paper_id != Some(id);
        if tasks[i].paper_id == Some(id) {
            assert(has_job(jobs, tasks[i].paper_id)) by {
                assert(jobs[jobs.len() - 1].paper_id == id);
            }
            assert(first == first_of_id) by {
                if first {
                    assert forall|j: int| 0 <= j < i implies (#[trigger] before[j]).paper_id != Some(
                        id,
                    ) by {
                        assert(tasks[j].paper_id != tasks[i].paper_id);
                    }
                }
                if first_of_id {
                    assert forall|j: int| 0 <= j < i implies (#[trigger] tasks[j]).paper_id
                        != tasks[i].paper_id by {
                        assert(before[j].paper_id != Some(id));
                    }
                }
            }
        } else {
            assert(has_job(jobs, tasks[i].paper_id) == has_job(less, tasks[i].paper_id)) by {
                if has_job(jobs, tasks[i].paper_id) {
                    let k = choose|k: int|
                        0 <= k < jobs.len() && Some((#[trigger] jobs[k]).paper_id)
                            == tasks[i].paper_id;
                    assert(k < less.len());
                    assert(less[k] == jobs[k]);
                }
                if has_job(less, tasks[i].paper_id) {
                    let k = choose|k: int|
                        0 <= k < less.len() && Some((#[trigger] less[k]).paper_id)
                            == tasks[i].paper_id;
                    assert(less[k] == jobs[k]);
                }
            }
        }
    }
}

/// The files that get their final names are those of the downloads that wait for no metadata.
pub proof fn law_files_of_complete_downloads_are_promoted(
    tasks: Seq<DownloadTask>,
    jobs: Seq<MetadataCandidate>,
    path: Seq<char>,
)
    ensures
        settled_files(tasks, jobs).contains(path) <==> exists|i: int|
            0 <= i < tasks.len() && needs_nothing(#[trigger] tasks[i], jobs)
                && tasks[i].pdf_path is Some && tasks[i].pdf_path->0@ == path,
    decreases tasks.len(),
{
    if tasks.len() > 0 {
        let init = tasks.drop_last();
        law_files_of_complete_downloads_are_promoted(init, jobs, path);
        let rest = settled_files(init, jobs);
        let n = tasks.len() - 1;
        assert forall|i: int| 0 <= i < n implies init[i] == #[trigger] tasks[i] by {}
        assert(tasks[n] == tasks.last());
        if tasks.last().pdf_path is Some && needs_nothing(tasks.last(), jobs) {
            let last = tasks.last().pdf_path->0@;
            assert(rest.push(last)[rest.len() as int] == last);
            if rest.contains(path) {
                let j = choose|j: int| 0 <= j < rest.len() && rest[j] == path;
                assert(rest.push(last)[j] == path);
            }
            if rest.push(last).contains(path) && path != last {
                let j = choose|j: int|
                    0 <= j < rest.push(last).len() && rest.push(last)[j] == path;
                assert(rest[j] == path);
            }
        }
        if rest.contains(path) {
            let i = choose|i: int|
                0 <= i < init.len() && needs_nothing(#[trigger] init[i], jobs)
                    && init[i].pdf_path is Some && init[i].pdf_path->0@ == path;
            assert(needs_nothing(tasks[i], jobs));
        }
        if exists|i: int|
            0 <= i < tasks.len() && needs_nothing(#[trigger] tasks[i], jobs)
                && tasks[i].pdf_path is Some && tasks[i].pdf_path->0@ == path {
            let i = choose|i: int|
                0 <= i < tasks.len() && needs_nothing(#[trigger] tasks[i], jobs)
                    && tasks[i].pdf_path is Some && tasks[i].pdf_path->0@ == path;
            if i < n {
                assert(needs_nothing(init[i], jobs));
            }
        }
    }
}

} // verus!
