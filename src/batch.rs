//! A run as a sequence of jobs: listing directories, converting files, and
//! the record of what became of each file.  The caller performs each job's
//! filesystem work and the conversion pipeline, and reports back here.

use vstd::prelude::*;
use crate::error::FatalError;
use crate::mode::Mode;
use crate::names::{derive_identifier, derived_identifier, is_recognized, is_recognized_name, target_name};
use crate::paths::{is_under, mirror, retarget, FsPath};

verus! {

/// One entry of a directory listing.
#[derive(Clone, Debug)]
pub struct DirEntry {
    pub path: FsPath,
    pub is_dir: bool,
}

/// A unit of work.
#[derive(Clone, Debug)]
pub enum Job {
    /// List `dir`; its mirror in the output tree is `out`.
    Descend { dir: FsPath, out: FsPath },
    /// Convert the file `source` into the file `target`.
    Convert { source: FsPath, target: FsPath },
}

/// A job in terms of path models.
pub enum JobModel {
    Descend(Seq<Seq<char>>, Seq<Seq<char>>),
    Convert(Seq<Seq<char>>, Seq<Seq<char>>),
}

impl View for Job {
    type V = JobModel;

    open spec fn view(&self) -> JobModel {
        match self {
            Job::Descend { dir, out } => JobModel::Descend(dir@, out@),
            Job::Convert { source, target } => JobModel::Convert(source@, target@),
        }
    }
}

/// What the conversion pipeline made of one file's text.
#[derive(Clone, Debug)]
pub enum PipelineOutcome {
    /// The translated text.
    Translated(String),
    /// The text could not be parsed; the parser's message.
    ParseFailed(String),
    /// The translation reported an error; its message.
    Rejected(String),
    /// The pipeline stopped abnormally.
    Fault,
}

/// What became of one source file.
pub enum RecordModel {
    Converted(Seq<Seq<char>>, Seq<Seq<char>>),
    Skipped(Seq<Seq<char>>),
}

/// What became of one source file.
#[derive(Clone, Debug)]
pub enum Record {
    /// Its translation was handed out to be written to `target`.
    Converted { source: FsPath, target: FsPath },
    /// The conversion failed; the file was skipped and the run went on.
    Skipped { source: FsPath, reason: PipelineOutcome },
}

impl View for Record {
    type V = RecordModel;

    open spec fn view(&self) -> RecordModel {
        match self {
            Record::Converted { source, target } => RecordModel::Converted(source@, target@),
            Record::Skipped { source, .. } => RecordModel::Skipped(source@),
        }
    }
}

/// The options handed to the conversion pipeline for one file.
#[derive(Clone, Debug)]
pub struct ConversionConfig {
    /// The name of the generated interface.
    pub interface_name: Vec<char>,
    /// The prefix of the singleton interface.
    pub singleton_prefix: Vec<char>,
    /// Unsupported constructs are dropped rather than failing the file.
    pub skip_unsupported: bool,
}

/// The singleton interface prefix.
pub open spec fn singleton_prefix() -> Seq<char> {
    seq!['g', 'l', 'o', 'b', 'a', 'l', '-']
}

/// The job for one listed entry, if any: a directory is descended into, a
/// recognized file is converted, anything else is left alone.
pub open spec fn entry_job(
    base: Seq<Seq<char>>,
    out_root: Seq<Seq<char>>,
    p: Seq<Seq<char>>,
    is_dir: bool,
) -> Option<JobModel> {
    if is_dir {
        Some(JobModel::Descend(p, mirror(base, out_root, p)))
    } else if p.len() > 0 && is_recognized(p.last()) {
        Some(JobModel::Convert(p, retarget(mirror(base, out_root, p))))
    } else {
        None
    }
}

/// The model of a listing: each entry's path and whether it is a directory.
pub open spec fn listing(entries: Seq<DirEntry>) -> Seq<(Seq<Seq<char>>, bool)> {
    entries.map_values(|e: DirEntry| (e.path@, e.is_dir))
}

/// The jobs of a listing, last entry first, so that popping them from the
/// end of a stack visits the entries in listing order.
pub open spec fn stacked_jobs(
    base: Seq<Seq<char>>,
    out_root: Seq<Seq<char>>,
    es: Seq<(Seq<Seq<char>>, bool)>,
) -> Seq<JobModel>
    decreases es.len(),
{
    if es.len() == 0 {
        Seq::empty()
    } else {
        let rest = stacked_jobs(base, out_root, es.drop_first());
        match entry_job(base, out_root, es[0].0, es[0].1) {
            Some(j) => rest.push(j),
            None => rest,
        }
    }
}

/// `p` lies strictly inside the directory `base`.
pub open spec fn is_inside(base: Seq<Seq<char>>, p: Seq<Seq<char>>) -> bool {
    is_under(base, p) && p.len() > base.len()
}

/// Every listed entry lies inside the root.
pub open spec fn all_inside(base: Seq<Seq<char>>, es: Seq<(Seq<Seq<char>>, bool)>) -> bool {
    forall|i: int| 0 <= i < es.len() ==> is_inside(base, #[trigger] es[i].0)
}

/// A run in progress.
pub struct Batch {
    /// The root of the source tree.
    pub base: FsPath,
    /// The root of the output tree.
    pub out_root: FsPath,
    /// Jobs still to do; the next one is last.
    pub pending: Vec<Job>,
    /// What became of each file converted so far, in order.
    pub log: Vec<Record>,
}

impl Batch {
    pub open spec fn pending_model(&self) -> Seq<JobModel> {
        self.pending@.map_values(|j: Job| j@)
    }

    pub open spec fn log_model(&self) -> Seq<RecordModel> {
        self.log@.map_values(|r: Record| r@)
    }

    /// The run that a mode calls for: one job for the file modes, a listing
    /// of the root for the tree mode.  In the file modes no listing is ever
    /// expanded, and the roots hold the source and the target.
    pub fn start(mode: Mode) -> (r: Batch)
        ensures
            r.log@.len() == 0,
            match mode {
                Mode::SingleFile { source, target } | Mode::FileIntoDirectory { source, target } =>
                    r.pending_model() == seq![JobModel::Convert(source@, target@)],
                Mode::Tree { root, out_root } => r.base@ == root@ && r.out_root@ == out_root@
                    && r.pending_model() == seq![JobModel::Descend(root@, out_root@)],
            },
    {
        match mode {
            Mode::SingleFile { source, target } | Mode::FileIntoDirectory { source, target } => {
                let job = Job::Convert { source: source.duplicate(), target: target.duplicate() };
                let r = Batch {
                    base: source,
                    out_root: target,
                    pending: vec![job],
                    log: Vec::new(),
                };
                assert(r.pending_model() =~= seq![r.pending@[0]@]);
                r
            },
            Mode::Tree { root, out_root } => {
                let job = Job::Descend { dir: root.duplicate(), out: out_root.duplicate() };
                let r = Batch { base: root, out_root, pending: vec![job], log: Vec::new() };
                assert(r.pending_model() =~= seq![r.pending@[0]@]);
                r
            },
        }
    }
}

/// Every file of a listing that has a recognized name gets a conversion job
/// whose target is the file's mirror under the output root, renamed to its
/// stem with the target extension.
pub proof fn recognized_files_are_converted(
    base: Seq<Seq<char>>,
    out_root: Seq<Seq<char>>,
    es: Seq<(Seq<Seq<char>>, bool)>,
    i: int,
)
    requires
        all_inside(base, es),
        0 <= i < es.len(),
        !es[i].1,
        is_recognized(es[i].0.last()),
    ensures
        stacked_jobs(base, out_root, es).contains(
            JobModel::Convert(es[i].0, retarget(mirror(base, out_root, es[i].0))),
        ),
        retarget(mirror(base, out_root, es[i].0)) == out_root + es[i].0.skip(base.len() as int).update(
            es[i].0.len() - base.len() - 1,
            target_name(es[i].0.last()),
        ),
    decreases es.len(),
{
    let p = es[i].0;
    assert(is_inside(base, p));
    let rest = stacked_jobs(base, out_root, es.drop_first());
    if i == 0 {
        let m = mirror(base, out_root, p);
        assert(m.last() == p.last());
        let j = JobModel::Convert(p, retarget(m));
        assert(stacked_jobs(base, out_root, es) == rest.push(j));
        assert(rest.push(j)[rest.len() as int] == j);
    } else {
        assert(all_inside(base, es.drop_first())) by {
            assert forall|k: int| 0 <= k < es.drop_first().len() implies is_inside(
                base,
                #[trigger] es.drop_first()[k].0,
            ) by {
                assert(es.drop_first()[k] == es[k + 1]);
            }
        }
        assert(es.drop_first()[i - 1] == es[i]);
        recognized_files_are_converted(base, out_root, es.drop_first(), i - 1);
        let j = JobModel::Convert(p, retarget(mirror(base, out_root, p)));
        let idx = choose|x: int| 0 <= x < rest.len() && rest[x] == j;
        match entry_job(base, out_root, es[0].0, es[0].1) {
            Some(h) => {
                assert(rest.push(h)[idx] == j);
            },
            None => {},
        }
    }
    assert(mirror(base, out_root, p).last() == p.last());
    assert(retarget(mirror(base, out_root, p)) =~= out_root + p.skip(base.len() as int).update(
        p.len() - base.len() - 1,
        target_name(p.last()),
    ));
}

/// Jobs come from listed entries alone: every conversion job converts a
/// listed file with a recognized name, and every descent lists a listed
/// directory.  Files with other names get no job at all.
pub proof fn only_recognized_files_are_converted(
    base: Seq<Seq<char>>,
    out_root: Seq<Seq<char>>,
    es: Seq<(Seq<Seq<char>>, bool)>,
)
    ensures
        forall|j: int|
            0 <= j < stacked_jobs(base, out_root, es).len() ==> match #[trigger] stacked_jobs(
                base,
                out_root,
                es,
            )[j] {
                JobModel::Convert(src, _) => src.len() > 0 && is_recognized(src.last()) && exists|
                    i: int,
                | 0 <= i < es.len() && es[i].0 == src && !es[i].1,
                JobModel::Descend(dir, _) => exists|i: int| 0 <= i < es.len() && es[i].0 == dir && es[i].1,
            },
    decreases es.len(),
{
    if es.len() > 0 {
        let rest = stacked_jobs(base, out_root, es.drop_first());
        only_recognized_files_are_converted(base, out_root, es.drop_first());
        let all = stacked_jobs(base, out_root, es);
        assert forall|j: int| 0 <= j < all.len() implies match #[trigger] all[j] {
            JobModel::Convert(src, _) => src.len() > 0 && is_recognized(src.last()) && exists|i: int|
                0 <= i < es.len() && es[i].0 == src && !es[i].1,
            JobModel::Descend(dir, _) => exists|i: int| 0 <= i < es.len() && es[i].0 == dir && es[i].1,
        } by {
            if j < rest.len() {
                assert(all[j] == rest[j]);
                match rest[j] {
                    JobModel::Convert(src, _) => {
                        let i = choose|i: int|
                            0 <= i < es.drop_first().len() && es.drop_first()[i].0 == src
                                && !es.drop_first()[i].1;
                        assert(es[i + 1] == es.drop_first()[i]);
                    },
                    JobModel::Descend(dir, _) => {
                        let i = choose|i: int|
                            0 <= i < es.drop_first().len() && es.drop_first()[i].0 == dir
                                && es.drop_first()[i].1;
                        assert(es[i + 1] == es.drop_first()[i]);
                    },
                }
            } else {
                assert(all[j] == entry_job(base, out_root, es[0].0, es[0].1)->0);
            }
        }
    }
}

/// The options for converting `source`: the identifier derived from its file
/// name, the fixed singleton prefix, and unsupported constructs skipped.
pub fn config_for(source: &FsPath) -> (r: Result<ConversionConfig, FatalError>)
    ensures
        match r {
            Ok(c) => source@.len() > 0 && c.interface_name@ == derived_identifier(source@.last())
                && c.singleton_prefix@ == singleton_prefix() && c.skip_unsupported,
            Err(e) => source@.len() == 0 && e is MissingFileName,
        },
{
    match source.file_name() {
        None => Err(FatalError::MissingFileName),
        Some(name) => {
            let prefix = vec!['g', 'l', 'o', 'b', 'a', 'l', '-'];
            assert(prefix@ =~= singleton_prefix());
            Ok(
                ConversionConfig {
                    interface_name: derive_identifier(&name),
                    singleton_prefix: prefix,
                    skip_unsupported: true,
                },
            )
        },
    }
}

/// The job for one listed entry that lies inside the root.
fn job_for_entry(base: &FsPath, out_root: &FsPath, e: &DirEntry) -> (r: Option<Job>)
    requires
        is_inside(base@, e.path@),
    ensures
        match r {
            Some(j) => entry_job(base@, out_root@, e.path@, e.is_dir) == Some(j@),
            None => entry_job(base@, out_root@, e.path@, e.is_dir) is None,
        },
{
    let rel = match e.path.relative_to(base) {
        Some(rel) => rel,
        None => {
            return None;
        },
    };
    let mirrored = out_root.join(&rel);
    if e.is_dir {
        Some(Job::Descend { dir: e.path.duplicate(), out: mirrored })
    } else {
        match e.path.file_name() {
            Some(name) => {
                if is_recognized_name(&name) {
                    Some(Job::Convert { source: e.path.duplicate(), target: mirrored.with_target_name() })
                } else {
                    None
                }
            },
            None => None,
        }
    }
}

impl Batch {
    /// Takes the next job, if any is left.
    pub fn next_job(&mut self) -> (r: Option<Job>)
        ensures
            final(self).base == old(self).base,
            final(self).out_root == old(self).out_root,
            final(self).log == old(self).log,
            old(self).pending@.len() == 0 ==> r is None && final(self).pending@ == old(self).pending@,
            old(self).pending@.len() > 0 ==> r is Some && r->0@ == old(self).pending_model().last()
                && final(self).pending_model() == old(self).pending_model().drop_last(),
    {
        let r = self.pending.pop();
        proof {
            if old(self).pending@.len() > 0 {
                assert(self.pending_model() =~= old(self).pending_model().drop_last());
            }
        }
        r
    }

    /// Adds the jobs for the listing of a directory of this run's tree, so
    /// that they are taken in listing order before any job pending already.
    /// An entry outside the root fails the run and adds nothing.
    pub fn expand(&mut self, entries: &Vec<DirEntry>) -> (r: Result<(), FatalError>)
        ensures
            final(self).base == old(self).base,
            final(self).out_root == old(self).out_root,
            final(self).log == old(self).log,
            all_inside(old(self).base@, listing(entries@)) ==> r is Ok
                && final(self).pending_model() == old(self).pending_model() + stacked_jobs(
                old(self).base@,
                old(self).out_root@,
                listing(entries@),
            ),
            !all_inside(old(self).base@, listing(entries@)) ==> (r matches Err(
                FatalError::OutsideRoot,
            )) && final(self).pending == old(self).pending,
    {
        let ghost es = listing(entries@);
        let ghost base = self.base@;
        let ghost out_root = self.out_root@;
        let n = entries.len();
        let mut i: usize = 0;
        while i < n
            invariant
                n == entries@.len(),
                es == listing(entries@),
                base == self.base@,
                i <= n,
                forall|j: int| 0 <= j < i ==> is_inside(base, #[trigger] es[j].0),
            decreases n - i,
        {
            let inside = match entries[i].path.relative_to(&self.base) {
                Some(_) => entries[i].path.parts.len() > self.base.parts.len(),
                None => false,
            };
            if !inside {
                assert(!is_inside(base, es[i as int].0));
                return Err(FatalError::OutsideRoot);
            }
            i = i + 1;
        }
        let ghost start = self.pending_model();
        let mut k: usize = n;
        assert(es.skip(n as int) =~= Seq::<(Seq<Seq<char>>, bool)>::empty());
        assert(start + Seq::<JobModel>::empty() =~= start);
        while k > 0
            invariant
                n == entries@.len(),
                es == listing(entries@),
                base == self.base@,
                out_root == self.out_root@,
                k <= n,
                all_inside(base, es),
                self.pending_model() == start + stacked_jobs(base, out_root, es.skip(k as int)),
                self.log == old(self).log,
                self.base == old(self).base,
                self.out_root == old(self).out_root,
            decreases k,
        {
            let ghost prev = self.pending@;
            let ghost tail = es.skip(k - 1);
            assert(tail.drop_first() =~= es.skip(k as int));
            assert(tail[0] == es[k - 1]);
            assert(is_inside(base, es[k - 1].0));
            assert(es[k - 1].0 == entries@[k - 1].path@);
            let job = job_for_entry(&self.base, &self.out_root, &entries[k - 1]);
            match job {
                Some(j) => {
                    self.pending.push(j);
                    assert(self.pending_model() =~= prev.map_values(|j: Job| j@).push(j@));
                },
                None => {},
            }
            k = k - 1;
            assert(self.pending_model() =~= start + stacked_jobs(base, out_root, es.skip(k as int)));
        }
        assert(es.skip(0) =~= es);
        Ok(())
    }

    /// Records what the pipeline made of `source`, bound for `target`, and
    /// returns the text to write, if any.  Whatever the outcome, the pending
    /// jobs stay as they were: a failed file never stops the run.
    pub fn finish_unit(&mut self, source: FsPath, target: FsPath, outcome: PipelineOutcome) -> (r:
        Option<String>)
        ensures
            final(self).base == old(self).base,
            final(self).out_root == old(self).out_root,
            final(self).pending == old(self).pending,
            match outcome {
                PipelineOutcome::Translated(text) => r == Some(text) && final(self).log_model()
                    == old(self).log_model().push(RecordModel::Converted(source@, target@)),
                _ => r is None && final(self).log_model() == old(self).log_model().push(
                    RecordModel::Skipped(source@),
                ),
            },
    {
        let ghost prev = self.log@;
        match outcome {
            PipelineOutcome::Translated(text) => {
                self.log.push(Record::Converted { source, target });
                assert(self.log_model() =~= prev.map_values(|r: Record| r@).push(
                    self.log@.last()@,
                ));
                Some(text)
            },
            other => {
                self.log.push(Record::Skipped { source, reason: other });
                assert(self.log_model() =~= prev.map_values(|r: Record| r@).push(
                    self.log@.last()@,
                ));
                None
            },
        }
    }
}

} // verus!
