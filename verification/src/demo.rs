//! The demonstration pipeline over sensor readings, and the runs that exercise
//! it.

use crate::expr::{BinaryOp, Expr};
use crate::model::{fault, DataType, ErrorCode, Fault, Field, Scalar, Schema, SparrowError};
use crate::text::{cat2, cat5, dec, decimal, number, read_number, same, texts};
use vstd::prelude::*;
use vstd::string::*;

verus! {

/// The bits of the double that is twenty-five.
pub const TWENTY_FIVE: u64 = 0x4039000000000000;

/// A field by what it holds.
pub open spec fn is_field(f: Field, id: u16, name: Seq<char>, ty: DataType, nullable: bool) -> bool {
    f.id == id && f.name@ == name && f.data_type == ty && f.nullable == nullable
}

fn field(id: u16, name: &str, data_type: DataType, nullable: bool) -> (r: Field)
    ensures
        is_field(r, id, name@, data_type, nullable),
{
    Field { id, name: name.to_owned(), data_type, nullable }
}

/// The columns that the demonstration lets through.
pub fn projected_sensor_schema() -> (r: Schema)
    ensures
        r.id == 2,
        r.fields@.len() == 3,
        is_field(r.fields@[0], 1, "device_id"@, DataType::Utf8, false),
        is_field(r.fields@[1], 2, "temperature"@, DataType::Float64, true),
        is_field(r.fields@[2], 4, "ts"@, DataType::TimestampMicrosUTC, false),
{
    let mut fields: Vec<Field> = Vec::new();
    fields.push(field(1, "device_id", DataType::Utf8, false));
    fields.push(field(2, "temperature", DataType::Float64, true));
    fields.push(field(4, "ts", DataType::TimestampMicrosUTC, false));
    Schema { id: 2, fields }
}

/// The condition of the demonstration: hotter than twenty-five degrees.
pub fn hot_sensor_filter() -> (r: Expr)
    ensures
        r is Binary,
        r->Binary_op == BinaryOp::Gt,
        *r->left is Column,
        (*r->left)->Column_name@ == "temperature"@,
        *r->right == Expr::Literal(Scalar::Float64(TWENTY_FIVE)),
{
    Expr::Binary {
        op: BinaryOp::Gt,
        left: Box::new(Expr::Column { name: "temperature".to_owned() }),
        right: Box::new(Expr::Literal(Scalar::Float64(TWENTY_FIVE))),
    }
}

/// Whether enough bodies arrived.
#[derive(Debug)]
pub enum Arrival {
    Enough,
    Wait,
    Late(SparrowError),
}

/// What is said where too few bodies arrived in time.
pub open spec fn late_text(got: u64, wanted: u64, shown: Seq<char>) -> Seq<char> {
    "HTTP capture has "@ + decimal(got as nat) + " bodies, expected >= "@ + decimal(wanted as nat)
        + " ("@ + shown + ")"@
}

/// Whether to go on waiting for bodies; `shown` are the counters as text.
pub fn wait_http_at_least(got: u64, wanted: u64, waited_ms: u64, timeout_ms: u64, shown: &str) -> (r:
    Arrival)
    ensures
        match r {
            Arrival::Enough => got >= wanted,
            Arrival::Wait => got < wanted && waited_ms <= timeout_ms,
            Arrival::Late(e) => got < wanted && waited_ms > timeout_ms && e@ == fault(
                ErrorCode::Internal,
                late_text(got, wanted, shown@),
            ),
        },
{
    if got >= wanted {
        Arrival::Enough
    } else if waited_ms > timeout_ms {
        let head: String = cat5(
            "HTTP capture has ",
            dec(got).as_str(),
            " bodies, expected >= ",
            dec(wanted).as_str(),
            " (",
        );
        let body: String = cat2(head.as_str(), shown);
        Arrival::Late(SparrowError::new(ErrorCode::Internal, cat2(body.as_str(), ")")))
    } else {
        Arrival::Wait
    }
}

/// What a stop says where tasks outlive their job.
pub open spec fn orphans(job: u64, kernel: u64) -> Fault {
    fault(
        ErrorCode::Internal,
        "orphan kernel tasks after stop: job="@ + decimal(job as nat) + " kernel="@ + decimal(
            kernel as nat,
        ),
    )
}

/// Checks that no task outlives its job.
pub fn check_stopped(job: u64, kernel: u64) -> (r: Result<(), SparrowError>)
    ensures
        match r {
            Ok(()) => job == 0 && kernel == 0,
            Err(e) => (job != 0 || kernel != 0) && e@ == orphans(job, kernel),
        },
{
    if job != 0 || kernel != 0 {
        let head: String = cat2("orphan kernel tasks after stop: job=", dec(job).as_str());
        let tail: String = cat2(" kernel=", dec(kernel).as_str());
        let text: String = cat2(head.as_str(), tail.as_str());
        assert(text@ =~= "orphan kernel tasks after stop: job="@ + decimal(job as nat)
            + " kernel="@ + decimal(kernel as nat));
        Err(SparrowError::new(ErrorCode::Internal, text))
    } else {
        Ok(())
    }
}

/// What a run over a file with checkpoints is asked to do.
#[derive(Debug)]
pub struct CheckpointRun {
    pub data: String,
    pub chk: String,
    pub mode: String,
    pub until: Option<u64>,
    pub window: String,
}

/// What a run over a file with checkpoints is asked to do, by what it holds.
#[verifier::ext_equal]
pub ghost struct CheckpointArgs {
    pub data: Option<Seq<char>>,
    pub chk: Option<Seq<char>>,
    pub mode: Seq<char>,
    pub until: Option<u64>,
    pub window: Seq<char>,
}

/// Where nothing is given.
pub open spec fn no_args() -> CheckpointArgs {
    CheckpointArgs { data: None, chk: None, mode: "gold"@, until: None, window: "count"@ }
}

/// The number that an argument is, none where it is no number.
pub open spec fn count_or_zero(s: Seq<char>) -> u64 {
    match number(s, u64::MAX as nat) {
        Ok(n) => n as u64,
        Err(_) => 0,
    }
}

/// The arguments with one more; nothing is said of a name that is not known.
pub open spec fn with_arg(c: CheckpointArgs, name: Seq<char>, value: Seq<char>) -> Option<
    CheckpointArgs,
> {
    if name == "--data"@ {
        Some(CheckpointArgs { data: Some(value), ..c })
    } else if name == "--chk"@ {
        Some(CheckpointArgs { chk: Some(value), ..c })
    } else if name == "--mode"@ {
        Some(CheckpointArgs { mode: value, ..c })
    } else if name == "--until"@ {
        Some(CheckpointArgs { until: Some(count_or_zero(value)), ..c })
    } else if name == "--window"@ {
        Some(CheckpointArgs { window: value, ..c })
    } else {
        None
    }
}

/// What the arguments say, pair by pair. One that is not known, or whose value is
/// missing, makes them say nothing.
pub open spec fn checkpoint_args(args: Seq<Seq<char>>, c: CheckpointArgs) -> Option<CheckpointArgs>
    decreases args.len(),
{
    if args.len() == 0 {
        Some(c)
    } else if args.len() == 1 {
        None
    } else {
        match with_arg(c, args[0], args[1]) {
            Some(d) => checkpoint_args(args.skip(2), d),
            None => None,
        }
    }
}

/// Reads what a run over a file with checkpoints is asked to do; none where the
/// usage is to be shown.
pub fn parse_checkpoint_run(args: &Vec<String>) -> (r: Option<CheckpointRun>)
    ensures
        match checkpoint_args(texts(args@), no_args()) {
            Some(c) => if c.data is Some && c.chk is Some {
                r is Some && Some(r->0.data@) == c.data && Some(r->0.chk@) == c.chk && r->0.mode@
                    == c.mode && r->0.until == c.until && r->0.window@ == c.window
            } else {
                r is None
            },
            None => r is None,
        },
{
    let ghost all = texts(args@);
    let mut data: Option<String> = None;
    let mut chk: Option<String> = None;
    let mut mode: String = "gold".to_owned();
    let mut until: Option<u64> = None;
    let mut window: String = "count".to_owned();
    let ghost mut c = no_args();
    let mut i: usize = 0;
    assert(all.skip(0) =~= all);
    while i < args.len()
        invariant
            i <= args.len(),
            all == texts(args@),
            checkpoint_args(all, no_args()) == checkpoint_args(all.skip(i as int), c),
            c.data == (match data {
                Some(s) => Some(s@),
                None => None,
            }),
            c.chk == (match chk {
                Some(s) => Some(s@),
                None => None,
            }),
            c.mode == mode@,
            c.until == until,
            c.window == window@,
        decreases args.len() - i,
    {
        let ghost rest = all.skip(i as int);
        assert(rest[0] == args@[i as int]@);
        let name: &str = args[i].as_str();
        if args.len() - i < 2 {
            return None;
        }
        assert(rest[1] == args@[i + 1]@);
        assert(rest.skip(2) =~= all.skip(i + 2));
        let value: String = args[i + 1].clone();
        proof {
            match with_arg(c, name@, value@) {
                Some(d) => {
                    c = d;
                },
                None => {},
            }
        }
        if same(name, "--data") {
            data = Some(value);
        } else if same(name, "--chk") {
            chk = Some(value);
        } else if same(name, "--mode") {
            mode = value;
        } else if same(name, "--until") {
            until = Some(
                match read_number(value.as_str(), u64::MAX) {
                    Ok(n) => n,
                    Err(_) => 0,
                },
            );
        } else if same(name, "--window") {
            window = value;
        } else {
            return None;
        }
        i = i + 2;
    }
    assert(all.skip(i as int) =~= Seq::<Seq<char>>::empty());
    match (data, chk) {
        (Some(data), Some(chk)) => Some(CheckpointRun { data, chk, mode, until, window }),
        _ => None,
    }
}

impl CheckpointRun {
    /// After how many rows the run stops: only a run up to a checkpoint does.
    pub fn limit(&self) -> (r: Option<u64>)
        ensures
            r == if self.mode@ == "checkpoint"@ {
                match self.until {
                    Some(n) => Some(n),
                    None => Some(2u64),
                }
            } else {
                None
            },
    {
        if same(self.mode.as_str(), "checkpoint") {
            match self.until {
                Some(n) => Some(n),
                None => Some(2),
            }
        } else {
            None
        }
    }
}

} // verus!
