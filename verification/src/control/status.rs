//! The statuses of a pipeline.

use crate::model::{fault, outcome, ErrorCode, Fault, SparrowError};
use crate::text::{cat3, same};
use vstd::prelude::*;

verus! {

/// What a pipeline is wanted to do, or does. Only running and stopped can be
/// wanted.
#[derive(Clone, Copy, Debug, PartialEq, Eq, Structural)]
pub enum PipelineStatus {
    Stopped,
    Starting,
    Running,
    /// There is no room for one more job.
    Waiting,
    Failed,
    Completed,
}

impl PipelineStatus {
    /// The status's name.
    pub open spec fn name(self) -> Seq<char> {
        match self {
            PipelineStatus::Stopped => "stopped"@,
            PipelineStatus::Starting => "starting"@,
            PipelineStatus::Running => "running"@,
            PipelineStatus::Waiting => "waiting"@,
            PipelineStatus::Failed => "failed"@,
            PipelineStatus::Completed => "completed"@,
        }
    }

    /// The status of that name, or the fault.
    pub open spec fn named(s: Seq<char>) -> Result<PipelineStatus, Fault> {
        if s == "stopped"@ {
            Ok(PipelineStatus::Stopped)
        } else if s == "starting"@ {
            Ok(PipelineStatus::Starting)
        } else if s == "running"@ {
            Ok(PipelineStatus::Running)
        } else if s == "waiting"@ {
            Ok(PipelineStatus::Waiting)
        } else if s == "failed"@ {
            Ok(PipelineStatus::Failed)
        } else if s == "completed"@ {
            Ok(PipelineStatus::Completed)
        } else {
            Err(fault(ErrorCode::InvalidArgument, "unknown pipeline status '"@ + s + "'"@))
        }
    }

    /// Whether the status can be wanted.
    pub open spec fn wanted(self) -> bool {
        self == PipelineStatus::Running || self == PipelineStatus::Stopped
    }

    /// The status's name.
    pub fn as_str(self) -> (r: &'static str)
        ensures
            r@ == self.name(),
    {
        match self {
            PipelineStatus::Stopped => "stopped",
            PipelineStatus::Starting => "starting",
            PipelineStatus::Running => "running",
            PipelineStatus::Waiting => "waiting",
            PipelineStatus::Failed => "failed",
            PipelineStatus::Completed => "completed",
        }
    }

    /// Reads the name of a status.
    pub fn parse(name: &str) -> (r: Result<Self, SparrowError>)
        ensures
            outcome(r) == Self::named(name@),
    {
        if same(name, "stopped") {
            Ok(PipelineStatus::Stopped)
        } else if same(name, "starting") {
            Ok(PipelineStatus::Starting)
        } else if same(name, "running") {
            Ok(PipelineStatus::Running)
        } else if same(name, "waiting") {
            Ok(PipelineStatus::Waiting)
        } else if same(name, "failed") {
            Ok(PipelineStatus::Failed)
        } else if same(name, "completed") {
            Ok(PipelineStatus::Completed)
        } else {
            Err(
                SparrowError::new(
                    ErrorCode::InvalidArgument,
                    cat3("unknown pipeline status '", name, "'"),
                ),
            )
        }
    }

    /// Whether the status can be wanted.
    pub fn is_desired(self) -> (r: bool)
        ensures
            r == self.wanted(),
    {
        self == PipelineStatus::Running || self == PipelineStatus::Stopped
    }
}

/// The name of every status is read back as that status.
pub proof fn law_status_name_is_read_back(s: PipelineStatus)
    ensures
        PipelineStatus::named(s.name()) == Ok::<PipelineStatus, Fault>(s),
{
    reveal_strlit("stopped");
    reveal_strlit("starting");
    reveal_strlit("running");
    reveal_strlit("waiting");
    reveal_strlit("failed");
    reveal_strlit("completed");
    assert("stopped"@[2] == 'o' && "starting"@[2] == 'a' && "running"@[0] == 'r');
    assert("waiting"@[0] == 'w' && "failed"@[0] == 'f' && "completed"@[0] == 'c');
    assert("stopped"@[0] == 's' && "starting"@[0] == 's');
}

} // verus!
