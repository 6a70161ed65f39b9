//! One delivery of an event: it is run, what came of it is recorded, and the
//! outcome that was recorded first is the one that counts.
use crate::codex::{self, CodexHookInput, DeliveryStamp, NormalizedTool};
use crate::error::AppError;
use crate::event::{AdapterIdentity, EventView, HookEvent, InternalHookEvent};
use crate::model::{HookOutcomeView, InternalHookOutcome};
use crate::replies::{self, RecordedEvent};
use vstd::prelude::*;

verus! {

broadcast use {vstd::string::group_string_axioms, vstd::seq::group_seq_axioms};

/// What is done next.
#[derive(Debug, PartialEq, Eq)]
pub enum DeliveryPhase {
    /// Run the event.
    Run(InternalHookEvent),
    /// Record the event and its outcome.
    Record(InternalHookEvent, InternalHookOutcome),
    /// Record that the event failed, and why.
    RecordFailure(InternalHookEvent, AppError),
    /// The event is answered with this outcome.
    Done(InternalHookOutcome),
    /// The event is not answered.
    Failed(AppError),
}

/// What came of it.
#[derive(Debug, PartialEq, Eq)]
pub enum DeliveryReply {
    Ran(Result<InternalHookOutcome, AppError>),
    Recorded(Result<RecordedEvent, AppError>),
    /// Whether the failure could be recorded is not told.
    FailureRecorded,
}

/// What follows what was done, by what came of it.
pub open spec fn next(phase: DeliveryPhase, reply: DeliveryReply) -> DeliveryPhase {
    match (phase, reply) {
        (DeliveryPhase::Run(event), DeliveryReply::Ran(Ok(outcome))) => DeliveryPhase::Record(
            event,
            outcome,
        ),
        (DeliveryPhase::Run(event), DeliveryReply::Ran(Err(e))) => DeliveryPhase::RecordFailure(
            event,
            e,
        ),
        (DeliveryPhase::Record(_, outcome), DeliveryReply::Recorded(Ok(recorded))) =>
            DeliveryPhase::Done(
            match recorded {
                RecordedEvent::Inserted => outcome,
                RecordedEvent::Duplicate(first) => first,
            },
        ),
        (DeliveryPhase::Record(_, _), DeliveryReply::Recorded(Err(e))) => DeliveryPhase::Failed(e),
        (DeliveryPhase::RecordFailure(_, e), _) => DeliveryPhase::Failed(e),
        (DeliveryPhase::Done(outcome), _) => DeliveryPhase::Done(outcome),
        (DeliveryPhase::Failed(e), _) => DeliveryPhase::Failed(e),
        _ => DeliveryPhase::Failed(AppError::UnexpectedReply),
    }
}

impl DeliveryPhase {
    /// Goes on with what came of what was done.
    pub fn step(self, reply: DeliveryReply) -> (r: Self)
        ensures
            r == next(self, reply),
    {
        match (self, reply) {
            (DeliveryPhase::Run(event), DeliveryReply::Ran(ran)) => match ran {
                Ok(outcome) => DeliveryPhase::Record(event, outcome),
                Err(e) => DeliveryPhase::RecordFailure(event, e),
            },
            (DeliveryPhase::Record(_, outcome), DeliveryReply::Recorded(recorded)) => {
                match recorded {
                    Ok(recorded) => DeliveryPhase::Done(replies::settled(outcome, recorded)),
                    Err(e) => DeliveryPhase::Failed(e),
                }
            },
            (DeliveryPhase::RecordFailure(_, e), _) => DeliveryPhase::Failed(e),
            (DeliveryPhase::Done(outcome), _) => DeliveryPhase::Done(outcome),
            (DeliveryPhase::Failed(e), _) => DeliveryPhase::Failed(e),
            _ => DeliveryPhase::Failed(AppError::UnexpectedReply),
        }
    }
}

// ---------------------------------------------------------------------------
// What holds of every delivery
// ---------------------------------------------------------------------------

/// A delivery that turns out to be a duplicate is answered with the outcome
/// that was recorded first, whatever its own run came to.
pub proof fn duplicates_are_answered_with_the_first_outcome(
    again: InternalHookEvent,
    computed: InternalHookOutcome,
    first: InternalHookOutcome,
)
    ensures
        next(
            DeliveryPhase::Record(again, computed),
            DeliveryReply::Recorded(Ok(RecordedEvent::Duplicate(first))),
        ) == DeliveryPhase::Done(first),
{
}

/// An event that fails is recorded as failed before its failure is told, and
/// it is never recorded with an outcome.
pub proof fn failures_are_recorded_first(
    event: InternalHookEvent,
    e: AppError,
    reply: DeliveryReply,
)
    ensures
        next(DeliveryPhase::Run(event), DeliveryReply::Ran(Err(e)))
            == DeliveryPhase::RecordFailure(event, e),
        next(DeliveryPhase::RecordFailure(event, e), reply) == DeliveryPhase::Failed(e),
{
}

/// How far a delivery is from its end.
pub open spec fn distance(phase: DeliveryPhase) -> nat {
    match phase {
        DeliveryPhase::Run(_) => 2,
        DeliveryPhase::Record(_, _) => 1,
        DeliveryPhase::RecordFailure(_, _) => 1,
        DeliveryPhase::Done(_) => 0,
        DeliveryPhase::Failed(_) => 0,
    }
}

/// Every delivery ends.
pub proof fn deliveries_end(phase: DeliveryPhase, reply: DeliveryReply)
    requires
        !(phase is Done),
        !(phase is Failed),
    ensures
        distance(next(phase, reply)) < distance(phase),
{
}

// ---------------------------------------------------------------------------
// Deliveries of one call
// ---------------------------------------------------------------------------

/// The rows of an audit log: under project and name, the event as it was
/// recorded and the outcome that was recorded with it.
pub type Rows = Map<(Seq<char>, Seq<char>), (EventView, HookOutcomeView)>;

/// The row of an event.
pub open spec fn row_of(event: EventView) -> (Seq<char>, Seq<char>) {
    (event.project_key, event.event_id)
}

/// A log answers the recording of an event as one does that keeps what comes
/// first: a new name gets a row, a name that is recorded with the same event
/// is a duplicate, and one that is recorded with another event is refused.
/// Nothing is recorded where the answer is an error.
pub open spec fn keeps_the_first(
    before: Rows,
    event: EventView,
    outcome: HookOutcomeView,
    answer: Result<RecordedEvent, AppError>,
    after: Rows,
) -> bool {
    match answer {
        Ok(RecordedEvent::Inserted) => !before.dom().contains(row_of(event)) && after
            == before.insert(row_of(event), (event, outcome)),
        Ok(RecordedEvent::Duplicate(first)) => before.dom().contains(row_of(event))
            && before[row_of(event)] == (event, first@) && after == before,
        Err(_) => after == before,
    }
}

/// Two hook calls say the same, besides what their tools do.
pub open spec fn same_call(a: CodexHookInput, b: CodexHookInput) -> bool {
    &&& a.session_id@ == b.session_id@
    &&& a.cwd@ == b.cwd@
    &&& a.turn_id@ == b.turn_id@
    &&& a.tool_name@ == b.tool_name@
    &&& a.tool_use_id@ == b.tool_use_id@
    &&& codex::status_of(a.tool_response@) == codex::status_of(b.tool_response@)
}

/// Two tools are the same operation and do the same.
pub open spec fn same_tool(a: NormalizedTool, b: NormalizedTool) -> bool {
    a.operation_id@ == b.operation_id@ && a.action@ == b.action@
}

/// The hook of a project that a call comes in by: its root, its key, the
/// version of the protocol, the agent and the agent's namespace.
pub struct Port {
    pub root: Seq<char>,
    pub project_key: Seq<char>,
    pub protocol_version: u32,
    pub adapter: AdapterIdentity,
    pub namespace: Seq<char>,
}

/// An event tells of a call that came in by a hook.
pub open spec fn came_in(
    e: InternalHookEvent,
    port: Port,
    event: HookEvent,
    input: CodexHookInput,
    tool: NormalizedTool,
    stamp: Result<DeliveryStamp, String>,
) -> bool {
    codex::event_says(
        e,
        port.root,
        port.project_key,
        port.protocol_version,
        event,
        input,
        port.adapter,
        port.namespace,
        Some(tool),
        stamp,
    )
}

/// A tool call with an identifier of the agent's own is one event however
/// often it is delivered.
pub proof fn one_call_is_one_event(
    port: Port,
    event: HookEvent,
    a: InternalHookEvent,
    a_input: CodexHookInput,
    a_tool: NormalizedTool,
    a_stamp: Result<DeliveryStamp, String>,
    b: InternalHookEvent,
    b_input: CodexHookInput,
    b_tool: NormalizedTool,
    b_stamp: Result<DeliveryStamp, String>,
)
    requires
        event.of_tool(),
        !codex::blank(a_input.tool_use_id@),
        came_in(a, port, event, a_input, a_tool, a_stamp),
        came_in(b, port, event, b_input, b_tool, b_stamp),
        same_call(a_input, b_input),
        same_tool(a_tool, b_tool),
    ensures
        a@ == b@,
{
    assert(a.payload@ == b.payload@);
}

/// Calls of one session with the same identifier are named the same, and where
/// their tools do something else they are not the same event.
pub proof fn other_actions_only_share_the_name(
    port: Port,
    event: HookEvent,
    a: InternalHookEvent,
    a_input: CodexHookInput,
    a_tool: NormalizedTool,
    a_stamp: Result<DeliveryStamp, String>,
    b: InternalHookEvent,
    b_input: CodexHookInput,
    b_tool: NormalizedTool,
    b_stamp: Result<DeliveryStamp, String>,
)
    requires
        event.of_tool(),
        !codex::blank(a_input.tool_use_id@),
        a_input.tool_use_id@ == b_input.tool_use_id@,
        came_in(a, port, event, a_input, a_tool, a_stamp),
        came_in(b, port, event, b_input, b_tool, b_stamp),
        a.session_key@ == b.session_key@,
        a_tool.action@ != b_tool.action@,
    ensures
        row_of(a@) == row_of(b@),
        a@ != b@,
{
    assert(a.payload@ != b.payload@);
}

/// A tool call with an identifier of the agent's own that is delivered a second
/// time is answered as it was the first time, whatever its second run came to,
/// unless that could not be recorded; and the log holds one row for it, which
/// the second delivery leaves as it is.
pub proof fn a_call_is_answered_once(
    port: Port,
    event: HookEvent,
    a: InternalHookEvent,
    a_input: CodexHookInput,
    a_tool: NormalizedTool,
    a_stamp: Result<DeliveryStamp, String>,
    a_outcome: InternalHookOutcome,
    a_answer: Result<RecordedEvent, AppError>,
    b: InternalHookEvent,
    b_input: CodexHookInput,
    b_tool: NormalizedTool,
    b_stamp: Result<DeliveryStamp, String>,
    b_outcome: InternalHookOutcome,
    b_answer: Result<RecordedEvent, AppError>,
    rows: (Rows, Rows, Rows),
)
    requires
        event.of_tool(),
        !codex::blank(a_input.tool_use_id@),
        came_in(a, port, event, a_input, a_tool, a_stamp),
        came_in(b, port, event, b_input, b_tool, b_stamp),
        same_call(a_input, b_input),
        same_tool(a_tool, b_tool),
        keeps_the_first(rows.0, a@, a_outcome@, a_answer, rows.1),
        keeps_the_first(rows.1, b@, b_outcome@, b_answer, rows.2),
        next(DeliveryPhase::Record(a, a_outcome), DeliveryReply::Recorded(a_answer)) is Done,
    ensures
        ({
            let first = next(
                DeliveryPhase::Record(a, a_outcome),
                DeliveryReply::Recorded(a_answer),
            )->Done_0;
            let second = next(
                DeliveryPhase::Record(b, b_outcome),
                DeliveryReply::Recorded(b_answer),
            );
            &&& b_answer matches Ok(recorded) ==> recorded is Duplicate && second is Done
            &&& b_answer is Err ==> second == DeliveryPhase::Failed(b_answer->Err_0)
            &&& second matches DeliveryPhase::Done(outcome) ==> outcome@ == first@
            &&& rows.1.dom().contains(row_of(a@)) && rows.1[row_of(a@)] == (a@, first@)
            &&& rows.2 == rows.1
        }),
{
    one_call_is_one_event(
        port,
        event,
        a,
        a_input,
        a_tool,
        a_stamp,
        b,
        b_input,
        b_tool,
        b_stamp,
    );
}

/// A call that was recorded is not taken for another one: where a call of the
/// same session has the same identifier and its tool does something else, it
/// is refused with the error of the log, and the log stays as it is.
pub proof fn changed_calls_are_refused(
    port: Port,
    event: HookEvent,
    a: InternalHookEvent,
    a_input: CodexHookInput,
    a_tool: NormalizedTool,
    a_stamp: Result<DeliveryStamp, String>,
    kept: HookOutcomeView,
    b: InternalHookEvent,
    b_input: CodexHookInput,
    b_tool: NormalizedTool,
    b_stamp: Result<DeliveryStamp, String>,
    b_outcome: InternalHookOutcome,
    b_answer: Result<RecordedEvent, AppError>,
    rows: (Rows, Rows),
)
    requires
        event.of_tool(),
        !codex::blank(a_input.tool_use_id@),
        a_input.tool_use_id@ == b_input.tool_use_id@,
        came_in(a, port, event, a_input, a_tool, a_stamp),
        came_in(b, port, event, b_input, b_tool, b_stamp),
        a.session_key@ == b.session_key@,
        a_tool.action@ != b_tool.action@,
        rows.0.dom().contains(row_of(a@)) && rows.0[row_of(a@)] == (a@, kept),
        keeps_the_first(rows.0, b@, b_outcome@, b_answer, rows.1),
    ensures
        b_answer is Err,
        next(DeliveryPhase::Record(b, b_outcome), DeliveryReply::Recorded(b_answer))
            == DeliveryPhase::Failed(b_answer->Err_0),
        rows.1 == rows.0,
{
    other_actions_only_share_the_name(
        port,
        event,
        a,
        a_input,
        a_tool,
        a_stamp,
        b,
        b_input,
        b_tool,
        b_stamp,
    );
}

} // verus!
