//! Reddit runners (workers): their schedule and the assistant's worker arguments.
use vstd::prelude::*;
use crate::text::{i64_to_string, int_decimal, trim, trim_str, u64_digits, decimal};

verus! {

/// Shortest interval between two passes of a runner, in seconds.
pub const MIN_RUNNER_INTERVAL_SECS: i64 = 60;

/// Seconds between passes of a runner configured with `duration_secs`.
pub fn runner_interval_secs(duration_secs: i64) -> (r: u64)
    ensures
        r as int == if duration_secs >= MIN_RUNNER_INTERVAL_SECS {
            duration_secs as int
        } else {
            MIN_RUNNER_INTERVAL_SECS as int
        },
{
    if duration_secs >= MIN_RUNNER_INTERVAL_SECS {
        duration_secs as u64
    } else {
        MIN_RUNNER_INTERVAL_SECS as u64
    }
}

/// Arguments of the assistant's `reddit_add_worker`.
#[derive(Debug, Clone)]
pub struct AddWorkerArgs {
    pub worker_name: String,
    pub worker_duration: Option<String>,
    pub source_ids: Vec<i64>,
}

/// The name of a new worker: trimmed, and required.
pub fn new_worker_name(args: &AddWorkerArgs) -> (r: Result<String, String>)
    ensures
        r is Err <==> trim(args.worker_name@).len() == 0,
        r matches Ok(n) ==> n@ == trim(args.worker_name@),
        r matches Err(m) ==> m@ == "worker_name required"@,
{
    let n = trim_str(args.worker_name.as_str());
    if n.as_str().is_empty() {
        Err(String::from_str("worker_name required"))
    } else {
        Ok(n)
    }
}

/// The duration text of a new worker: as given, `5m` by default.
pub fn new_worker_duration(args: &AddWorkerArgs) -> (r: String)
    ensures
        args.worker_duration matches Some(d) ==> r@ == d@,
        args.worker_duration is None ==> r@ == "5m"@,
{
    match &args.worker_duration {
        Some(d) => d.clone(),
        None => String::from_str("5m"),
    }
}

/// A worker's name after an edit: a given non-blank name (trimmed) replaces it.
pub fn edited_worker_name(existing: &str, given: &Option<String>) -> (r: String)
    ensures
        r@ == match given {
            Some(g) => if trim(g@).len() > 0 {
                trim(g@)
            } else {
                existing@
            },
            None => existing@,
        },
{
    match given {
        Some(g) => {
            let t = trim_str(g.as_str());
            if t.as_str().is_empty() {
                String::from_str(existing)
            } else {
                t
            }
        },
        None => String::from_str(existing),
    }
}

/// A runner can be deleted only when no source is assigned to it.
pub fn delete_worker_check(id: i64, linked: u64) -> (r: Result<(), String>)
    ensures
        r is Ok <==> linked == 0,
        r matches Err(m) ==> m@ == "cannot delete runner "@ + int_decimal(id as int) + ": "@
            + decimal(linked as nat) + " source(s) still assigned"@,
{
    if linked == 0 {
        return Ok(());
    }
    let mut m = String::from_str("cannot delete runner ");
    let n = i64_to_string(id);
    m.append(n.as_str());
    m.append(": ");
    let d = u64_digits(linked);
    let ds = crate::text::string_of(&d);
    m.append(ds.as_str());
    m.append(" source(s) still assigned");
    Err(m)
}

/// A stored runner (worker); timestamps are Unix seconds.
#[derive(Debug, Clone)]
pub struct RunnerRow {
    pub id: i64,
    pub name: String,
    pub duration_secs: i64,
    pub created_at: Option<i64>,
    pub updated_at: Option<i64>,
}

/// Arguments of the assistant's `reddit_edit_worker`.
#[derive(Debug, Clone)]
pub struct EditWorkerArgs {
    pub reddit_runner_id: i64,
    pub worker_name: Option<String>,
    pub worker_duration: Option<String>,
    pub source_ids: Option<Vec<i64>>,
}

pub open spec fn runner_gone_text() -> Seq<char> {
    "runner not found"@
}

/// The runner after an assistant edit at `now`.  `existing` is the stored
/// runner with the edited id, if any; `parsed_duration` is what parsing the
/// given duration text gave (`None` when no duration was given).  A missing
/// runner is refused first, then a duration that did not parse; a given
/// non-blank name (trimmed) replaces the stored one.
pub fn apply_worker_edit(
    existing: Option<RunnerRow>,
    args: &EditWorkerArgs,
    parsed_duration: Option<Result<i64, String>>,
    now: i64,
) -> (r: Result<RunnerRow, String>)
    ensures
        existing is None ==> (r matches Err(m) && m@ == runner_gone_text()),
        existing is Some ==> (parsed_duration matches Some(Err(e)) ==> (r matches Err(m) && m@ == e@)),
        r is Ok <==> existing is Some && !(parsed_duration matches Some(Err(_))),
        r matches Ok(w) ==> existing matches Some(e) && {
            &&& w.id == e.id
            &&& w.created_at == e.created_at
            &&& w.updated_at == Some(now)
            &&& w.name@ == match args.worker_name {
                Some(g) => if trim(g@).len() > 0 {
                    trim(g@)
                } else {
                    e.name@
                },
                None => e.name@,
            }
            &&& w.duration_secs == match parsed_duration {
                Some(Ok(d)) => d,
                _ => e.duration_secs,
            }
        },
{
    let e = match existing {
        Some(e) => e,
        None => return Err(String::from_str("runner not found")),
    };
    let duration_secs = match parsed_duration {
        Some(Ok(d)) => d,
        Some(Err(m)) => return Err(m),
        None => e.duration_secs,
    };
    let name = edited_worker_name(e.name.as_str(), &args.worker_name);
    Ok(RunnerRow { id: e.id, name, duration_secs, created_at: e.created_at, updated_at: Some(now) })
}

/// Whether a runner may be deleted: it must exist (`found`) and no source may
/// be assigned to it (`linked` sources are).
pub fn delete_worker_step(found: bool, id: i64, linked: u64) -> (r: Result<(), String>)
    ensures
        !found ==> (r matches Err(m) && m@ == runner_gone_text()),
        r is Ok <==> found && linked == 0,
        found && linked > 0 ==> (r matches Err(m) && m@ == "cannot delete runner "@ + int_decimal(
            id as int,
        ) + ": "@ + decimal(linked as nat) + " source(s) still assigned"@),
{
    if !found {
        return Err(String::from_str("runner not found"));
    }
    delete_worker_check(id, linked)
}

/// Message for a runner id that does not exist.
pub fn runner_not_found_message(id: i64) -> (r: String)
    ensures
        r@ == "runner "@ + int_decimal(id as int) + " not found"@,
{
    let mut m = String::from_str("runner ");
    let n = i64_to_string(id);
    m.append(n.as_str());
    m.append(" not found");
    m
}

/// The ids of the sources assigned to `runner`, in the given order.
pub open spec fn assigned_sources(sources: Seq<(i64, Option<i64>)>, runner: i64) -> Seq<i64>
    decreases sources.len(),
{
    if sources.len() == 0 {
        Seq::empty()
    } else {
        let rest = assigned_sources(sources.drop_last(), runner);
        if sources.last().1 == Some(runner) {
            rest.push(sources.last().0)
        } else {
            rest
        }
    }
}

/// The sources of a runner, from `(source id, runner id)` pairs.
pub fn source_ids_for_runner(sources: &Vec<(i64, Option<i64>)>, runner: i64) -> (r: Vec<i64>)
    ensures
        r@ == assigned_sources(sources@, runner),
{
    let mut out: Vec<i64> = Vec::new();
    let mut i: usize = 0;
    while i < sources.len()
        invariant
            i <= sources@.len(),
            out@ == assigned_sources(sources@.take(i as int), runner),
        decreases sources.len() - i,
    {
        assert(sources@.take(i as int + 1).drop_last() =~= sources@.take(i as int));
        let (id, r) = sources[i];
        if r == Some(runner) {
            out.push(id);
        }
        i = i + 1;
    }
    assert(sources@.take(sources@.len() as int) =~= sources@);
    out
}

/// Message when a script function got no argument object.
pub fn missing_object_arg_message(name: &str) -> (r: String)
    ensures
        r@ == name@ + " requires an object argument"@,
{
    let mut m = String::from_str(name);
    m.append(" requires an object argument");
    m
}

/// Message when a script function's arguments do not decode.
pub fn invalid_args_message(name: &str, detail: &str) -> (r: String)
    ensures
        r@ == "invalid "@ + name@ + " arguments: "@ + detail@,
{
    let mut m = String::from_str("invalid ");
    m.append(name);
    m.append(" arguments: ");
    m.append(detail);
    m
}

/// One row of the worker picker.
#[derive(Debug, Clone)]
pub struct WorkerSelectRow {
    pub id: i64,
    pub name: String,
}

/// The worker picker: the rows, the filter as typed, the input a selection
/// fills, and the page's own path and query.
#[derive(Debug, Clone)]
pub struct RedditWorkerSelectPage {
    pub runners: Vec<WorkerSelectRow>,
    pub filter_name: String,
    pub target_input: String,
    pub path_and_query: String,
}

impl RedditWorkerSelectPage {
    /// The input the table's rows fill: the page's target, or `reddit_runner_id` when it is empty.
    pub fn table_target(&self) -> (r: String)
        ensures
            self.target_input@.len() == 0 ==> r@ == "reddit_runner_id"@,
            self.target_input@.len() > 0 ==> r@ == self.target_input@,
    {
        if self.target_input.as_str().is_empty() {
            String::from_str("reddit_runner_id")
        } else {
            self.target_input.clone()
        }
    }
}

} // verus!
