//! Jobs over a file that are checkpointed: what a start needs, where a cut
//! lies, and what a checkpoint comes to.

use super::plan::{layout, layout_from_physical, PlanLayout, PlanStage};
use super::spec::PipelineSpec;
use super::validate::{
    aligned_plan_fault, copied_path, file_contract, resolve_file_contract, validate_aligned_plan,
    FileFacts,
};
use crate::error::io;
use crate::file_replay::{FileContract, SourcePosition};
use crate::model::{err, fault, ErrorCode, Fault, SparrowError};
use crate::policy::{check_data_path_in, path_fault, resolved_seen};
use crate::text::{cat2, same, texts};
use vstd::prelude::*;

verus! {

/// How long a checkpoint may take, in milliseconds.
pub const CHECKPOINT_TIMEOUT_MS: u64 = 5000;

/// Where a pipeline's checkpoints go: where it says, else next to its file.
pub open spec fn checkpoint_place(s: PipelineSpec, path: Seq<char>) -> Seq<char> {
    match s.checkpoint_dir {
        Some(d) => d@,
        None => path + ".sparrow-chk"@,
    }
}

/// Where a pipeline's checkpoints go.
pub fn checkpoint_dir(spec: &PipelineSpec, path: &str) -> (r: String)
    ensures
        r@ == checkpoint_place(*spec, path@),
{
    match &spec.checkpoint_dir {
        Some(d) => d.clone(),
        None => cat2(path, ".sparrow-chk"),
    }
}

/// Whether a pipeline starts from a checkpoint.
pub open spec fn restores(s: PipelineSpec) -> bool {
    s.restore matches Some(r) && r.kind@ == "checkpoint"@
}

/// What a start of a checkpointed job needs.
#[derive(Debug)]
pub struct AlignedSetup {
    pub layout: PlanLayout,
    pub checkpoint_dir: String,
    pub contract: FileContract,
    /// The job starts from the last checkpoint.
    pub restore: bool,
}

/// Why a checkpointed job over the file cannot be started. `files` speaks of the
/// file and of the directory that its checkpoints go to.
pub open spec fn setup_fault(
    s: PipelineSpec,
    stages: Seq<PlanStage>,
    path: Seq<char>,
    files: FileFacts,
) -> Option<Fault> {
    let roots = texts(files.roots@);
    let plan = aligned_plan_fault(s, stages, files);
    let file = path_fault(path, resolved_seen(files.path), roots);
    let dir = path_fault(checkpoint_place(s, path), resolved_seen(files.checkpoint_dir), roots);
    if plan is Some {
        plan
    } else if layout(stages) is Err {
        Some(layout(stages)->Err_0)
    } else if file is Some {
        file
    } else if dir is Some {
        dir
    } else if file_contract(s.source) is Err {
        Some(file_contract(s.source)->Err_0)
    } else {
        None
    }
}

/// Works out what a start needs, or why it cannot be.
pub fn prepare_aligned(
    spec: &PipelineSpec,
    stages: &Vec<PlanStage>,
    path: &str,
    files: &FileFacts,
) -> (r: Result<AlignedSetup, SparrowError>)
    ensures
        match r {
            Ok(a) => {
                &&& setup_fault(*spec, stages@, path@, *files) is None
                &&& layout(stages@) == Ok::<PlanLayout, Fault>(a.layout)
                &&& a.checkpoint_dir@ == checkpoint_place(*spec, path@)
                &&& file_contract(spec.source) == Ok::<FileContract, Fault>(a.contract)
                &&& a.restore == restores(*spec)
            },
            Err(e) => setup_fault(*spec, stages@, path@, *files) == Some(e@),
        },
{
    match validate_aligned_plan(spec, stages, files) {
        Ok(()) => {},
        Err(e) => {
            return Err(e);
        },
    }
    let found: PlanLayout = match layout_from_physical(stages) {
        Ok(l) => l,
        Err(e) => {
            return Err(e);
        },
    };
    let dir: String = checkpoint_dir(spec, path);
    match check_data_path_in(path, copied_path(&files.path), &files.roots) {
        Ok(()) => {},
        Err(e) => {
            return Err(io(e));
        },
    }
    match check_data_path_in(dir.as_str(), copied_path(&files.checkpoint_dir), &files.roots) {
        Ok(()) => {},
        Err(e) => {
            return Err(io(e));
        },
    }
    let contract: FileContract = match resolve_file_contract(spec) {
        Ok(c) => c,
        Err(e) => {
            return Err(e);
        },
    };
    let restore: bool = match &spec.restore {
        Some(x) => same(x.kind.as_str(), "checkpoint"),
        None => false,
    };
    Ok(AlignedSetup { layout: found, checkpoint_dir: dir, contract, restore })
}

/// What the control plane reads of a committed checkpoint.
#[derive(Clone, Debug)]
pub struct Snapshot {
    pub checkpoint_id: u64,
    pub source: SourcePosition,
    pub ingested_rows: u64,
    pub layout: PlanLayout,
}

/// The fault of a checkpoint that was made by another plan.
pub open spec fn layout_fault() -> Fault {
    fault(ErrorCode::UnsupportedRestore, "checkpoint layout does not match the plan"@)
}

/// The state of a checkpointed source.
#[derive(Debug)]
pub struct AlignedRun {
    /// The number of the next checkpoint.
    pub next_id: u64,
    /// Rows that were sent on.
    pub ingested: u64,
    /// Where reading stands, between batches.
    pub position: SourcePosition,
    pub commits: u64,
    pub aborts: u64,
}

/// A number that does not pass the largest.
pub open spec fn following(id: u64) -> u64 {
    if id < u64::MAX {
        (id + 1) as u64
    } else {
        u64::MAX
    }
}

/// Two positions say the same.
pub open spec fn same_position(a: SourcePosition, b: SourcePosition) -> bool {
    &&& a.offset_bytes == b.offset_bytes
    &&& a.record_index == b.record_index
    &&& a.identity == b.identity
}

fn copy_position(p: &SourcePosition) -> (r: SourcePosition)
    ensures
        same_position(r, *p),
{
    SourcePosition {
        offset_bytes: p.offset_bytes,
        record_index: p.record_index,
        identity: p.identity.clone(),
    }
}

/// Where the source is when a barrier goes out.
#[derive(Debug)]
pub struct Cut {
    pub checkpoint_id: u64,
    pub source: SourcePosition,
    pub ingested_rows: u64,
}

/// A cut, by what it holds: a number, a place in a file and the rows before it.
pub ghost struct Place {
    pub id: u64,
    pub offset: u64,
    pub index: u64,
    pub identity: crate::file_replay::SourceIdentity,
    pub rows: u64,
}

/// The place of a cut.
pub open spec fn cut_at(c: Cut) -> Place {
    Place {
        id: c.checkpoint_id,
        offset: c.source.offset_bytes,
        index: c.source.record_index,
        identity: c.source.identity,
        rows: c.ingested_rows,
    }
}

/// The place that a snapshot keeps.
pub open spec fn kept_at(s: Snapshot) -> Place {
    Place {
        id: s.checkpoint_id,
        offset: s.source.offset_bytes,
        index: s.source.record_index,
        identity: s.source.identity,
        rows: s.ingested_rows,
    }
}

/// The place where a source is; its number is that of its next checkpoint.
pub open spec fn standing(a: AlignedRun) -> Place {
    Place {
        id: a.next_id,
        offset: a.position.offset_bytes,
        index: a.position.record_index,
        identity: a.position.identity,
        rows: a.ingested,
    }
}

/// Where a job stands that is started from a snapshot.
pub open spec fn resumed(p: Place) -> Place {
    Place { id: following(p.id), ..p }
}

/// The answer to a request for a checkpoint.
#[derive(Debug)]
pub enum CheckpointReply {
    /// It is committed under this number.
    Committed(u64),
    Failed(SparrowError),
}

impl AlignedRun {
    /// A job that starts from the beginning of its file.
    pub fn fresh(position: SourcePosition) -> (r: Self)
        ensures
            r.next_id == 1,
            r.ingested == 0,
            r.position == position,
            r.commits == 0,
            r.aborts == 0,
    {
        AlignedRun { next_id: 1, ingested: 0, position, commits: 0, aborts: 0 }
    }

    /// A job that starts from a checkpoint, which must have been made by the
    /// same plan.
    pub fn restored(snapshot: &Snapshot, now: &PlanLayout) -> (r: Result<Self, SparrowError>)
        ensures
            match r {
                Ok(a) => {
                    &&& snapshot.layout == *now
                    &&& standing(a) == resumed(kept_at(*snapshot))
                    &&& a.commits == 0
                    &&& a.aborts == 0
                },
                Err(e) => snapshot.layout != *now && e@ == layout_fault(),
            },
    {
        if snapshot.layout != *now {
            return Err(
                err(ErrorCode::UnsupportedRestore, "checkpoint layout does not match the plan"),
            );
        }
        Ok(
            AlignedRun {
                next_id: snapshot.checkpoint_id.saturating_add(1),
                ingested: snapshot.ingested_rows,
                position: copy_position(&snapshot.source),
                commits: 0,
                aborts: 0,
            },
        )
    }

    /// A batch was read: reading stands behind it, and its rows are about to be
    /// sent on.
    pub fn on_batch(&mut self, position: SourcePosition, rows: u64)
        requires
            old(self).ingested + rows <= u64::MAX,
        ensures
            final(self).position == position,
            final(self).ingested == old(self).ingested + rows,
            final(self).next_id == old(self).next_id,
            final(self).commits == old(self).commits,
            final(self).aborts == old(self).aborts,
    {
        self.position = position;
        self.ingested = self.ingested + rows;
    }

    /// The cut of the next checkpoint: where the source is now.
    pub fn cut(&self) -> (r: Cut)
        ensures
            cut_at(r) == standing(*self),
    {
        Cut {
            checkpoint_id: self.next_id,
            source: copy_position(&self.position),
            ingested_rows: self.ingested,
        }
    }

    /// The barrier could not be sent: the source has ended.
    pub fn on_no_barrier(&self) -> (r: CheckpointReply)
        ensures
            r is Failed,
            r->Failed_0@ == fault(
                ErrorCode::Cancelled,
                "aligned source ended before barrier"@,
            ),
    {
        CheckpointReply::Failed(err(ErrorCode::Cancelled, "aligned source ended before barrier"))
    }

    /// The acknowledgements did not come. The number is given up, so that what
    /// comes late cannot count for the next checkpoint.
    pub fn on_abandoned(&mut self, cut: &Cut, error: SparrowError) -> (r: CheckpointReply)
        requires
            old(self).aborts < u64::MAX,
        ensures
            r == CheckpointReply::Failed(error),
            final(self).next_id == following(cut.checkpoint_id),
            final(self).aborts == old(self).aborts + 1,
            final(self).commits == old(self).commits,
            final(self).ingested == old(self).ingested,
            final(self).position == old(self).position,
    {
        self.next_id = cut.checkpoint_id.saturating_add(1);
        self.aborts = self.aborts + 1;
        CheckpointReply::Failed(error)
    }

    /// What is committed: the cut as it was when the barrier went out, not where
    /// the source has come to since.
    pub fn snapshot(&self, cut: &Cut, layout_: &PlanLayout) -> (r: Snapshot)
        ensures
            kept_at(r) == cut_at(*cut),
            r.layout == *layout_,
    {
        Snapshot {
            checkpoint_id: cut.checkpoint_id,
            source: copy_position(&cut.source),
            ingested_rows: cut.ingested_rows,
            layout: *layout_,
        }
    }

    /// Takes in whether the checkpoint was committed, and under which number.
    pub fn on_committed(&mut self, committed: Result<u64, SparrowError>) -> (r: CheckpointReply)
        requires
            old(self).aborts < u64::MAX,
            old(self).commits < u64::MAX,
        ensures
            final(self).ingested == old(self).ingested,
            final(self).position == old(self).position,
            match committed {
                Ok(id) => {
                    &&& r == CheckpointReply::Committed(id)
                    &&& final(self).next_id == following(id)
                    &&& final(self).commits == old(self).commits + 1
                    &&& final(self).aborts == old(self).aborts
                },
                Err(e) => {
                    &&& r == CheckpointReply::Failed(e)
                    &&& final(self).next_id == old(self).next_id
                    &&& final(self).commits == old(self).commits
                    &&& final(self).aborts == old(self).aborts + 1
                },
            },
    {
        match committed {
            Ok(id) => {
                self.next_id = id.saturating_add(1);
                self.commits = self.commits + 1;
                CheckpointReply::Committed(id)
            },
            Err(e) => {
                self.aborts = self.aborts + 1;
                CheckpointReply::Failed(e)
            },
        }
    }
}

/// What happens to a checkpointed source, as far as its numbers go.
pub ghost enum Round {
    /// The acknowledgements of the checkpoint under way did not come.
    Abandoned,
    /// It was committed under its number.
    Committed,
    /// It could not be committed.
    Refused,
}

/// The number of the next checkpoint after these rounds.
pub open spec fn number_after(first: u64, rounds: Seq<Round>) -> u64
    decreases rounds.len(),
{
    if rounds.len() == 0 {
        first
    } else {
        let n = number_after(first, rounds.drop_last());
        match rounds.last() {
            Round::Refused => n,
            _ => following(n),
        }
    }
}

/// A number that was committed or given up is never used again: the checkpoint
/// that follows has a larger one, as long as there are numbers.
pub proof fn law_numbers_are_not_used_again(first: u64, rounds: Seq<Round>, i: int)
    requires
        0 <= i < rounds.len(),
        !(rounds[i] is Refused),
        number_after(first, rounds) < u64::MAX,
    ensures
        number_after(first, rounds.take(i)) < number_after(first, rounds),
    decreases rounds.len(),
{
    let before = rounds.drop_last();
    if i == rounds.len() - 1 {
        assert(rounds.take(i) =~= before);
    } else {
        assert(rounds.take(i) =~= before.take(i));
        law_numbers_are_not_used_again(first, before, i);
    }
}

/// A job that is started from a snapshot stands where the source was when the
/// barrier of that snapshot went out, having counted the same rows, and its next
/// checkpoint has a new number, as long as there are numbers.
pub proof fn law_restore_returns_to_the_cut(run: AlignedRun, s: Snapshot, again: AlignedRun)
    requires
        kept_at(s) == standing(run),
        standing(again) == resumed(kept_at(s)),
    ensures
        same_position(again.position, run.position),
        again.ingested == run.ingested,
        run.next_id < u64::MAX ==> again.next_id > run.next_id,
{
}

/// The fault of a start from a checkpoint where there is none.
pub open spec fn missing_fault() -> Fault {
    fault(ErrorCode::UnsupportedRestore, "there is no checkpoint to start from"@)
}

/// What a checkpointed job starts as. `found` is what was looked up in its
/// checkpoint directory, and `at` is where its file begins. A job that is to
/// start from a checkpoint starts from that one or not at all; any other starts
/// from the beginning of its file.
pub fn begin(
    setup: &AlignedSetup,
    found: Option<Result<Snapshot, SparrowError>>,
    at: SourcePosition,
) -> (r: Result<AlignedRun, SparrowError>)
    ensures
        match r {
            Ok(a) => {
                &&& a.commits == 0
                &&& a.aborts == 0
                &&& if setup.restore {
                    &&& found matches Some(Ok(s))
                    &&& s.layout == setup.layout
                    &&& standing(a) == resumed(kept_at(s))
                } else {
                    &&& a.next_id == 1
                    &&& a.ingested == 0
                    &&& a.position == at
                }
            },
            Err(e) => setup.restore && match found {
                None => e@ == missing_fault(),
                Some(Err(x)) => e == x,
                Some(Ok(s)) => s.layout != setup.layout && e@ == layout_fault(),
            },
        },
{
    if !setup.restore {
        return Ok(AlignedRun::fresh(at));
    }
    match found {
        None => Err(err(ErrorCode::UnsupportedRestore, "there is no checkpoint to start from")),
        Some(Err(e)) => Err(e),
        Some(Ok(s)) => AlignedRun::restored(&s, &setup.layout),
    }
}

/// What a source and its job came to: the job's error comes first.
pub fn joined(
    job: Result<(), SparrowError>,
    source: Result<(), SparrowError>,
) -> (r: Result<(), SparrowError>)
    ensures
        r == match job {
            Err(e) => Err::<(), SparrowError>(e),
            Ok(()) => source,
        },
{
    match job {
        Err(e) => Err(e),
        Ok(()) => source,
    }
}

} // verus!
