//! How hook calls are answered: the answers that the command-line agents take,
//! and those that the extensions of the other agents take.
use crate::codex::{self, CodexHookInput, CodexHookOutput};
use crate::error::{AppError, ErrorView};
use crate::event::{AdapterIdentity, AdapterKind, HookEvent};
use crate::json::{self, Json, JsonView};
use crate::model::{
    self, ContextItem, FeedbackItem, FeedbackView, GateDecision, GateView, HookOutcomePayload,
    InternalHookOutcome, OutcomeView, StopDecision, StopView,
};
use crate::project;
use crate::text;
use vstd::prelude::*;

verus! {

broadcast use {vstd::string::group_string_axioms, vstd::seq::group_seq_axioms};

// ---------------------------------------------------------------------------
// The agents
// ---------------------------------------------------------------------------

/// An agent as its hooks are told apart: the name under which its sessions,
/// operations and events are named, and whether it goes on when it is told to
/// at the end of a task.
#[derive(Debug, Clone, Copy, PartialEq, Eq)]
pub struct Adapter {
    pub identity: AdapterIdentity,
    pub namespace: &'static str,
    pub continuation_supported: bool,
}

/// The name under which an agent's events are told apart.
pub open spec fn namespace_of(kind: AdapterKind) -> Seq<char> {
    match kind {
        AdapterKind::Codex => "codex"@,
        AdapterKind::ClaudeCode => "claude_code"@,
        AdapterKind::PrimeAgent => "prime_agent"@,
        AdapterKind::Pi => "pi"@,
        AdapterKind::Opencode => "opencode"@,
        AdapterKind::Dsh => "dsh"@,
    }
}

/// The version of an agent's adapter.
pub open spec fn version_of(kind: AdapterKind) -> u16 {
    if kind == AdapterKind::Dsh {
        2
    } else {
        1
    }
}

/// An agent goes on when it is told to.
pub open spec fn continues(kind: AdapterKind) -> bool {
    kind != AdapterKind::Opencode && kind != AdapterKind::PrimeAgent
}

/// An agent as its hooks are told apart.
pub fn adapter(kind: AdapterKind) -> (r: Adapter)
    ensures
        r.identity.kind == kind,
        r.identity.adapter_version == version_of(kind),
        r.namespace@ == namespace_of(kind),
        r.continuation_supported == continues(kind),
{
    let (adapter_version, namespace, continuation_supported): (u16, &'static str, bool) =
        match kind {
        AdapterKind::Codex => (1, "codex", true),
        AdapterKind::ClaudeCode => (1, "claude_code", true),
        AdapterKind::PrimeAgent => (1, "prime_agent", false),
        AdapterKind::Pi => (1, "pi", true),
        AdapterKind::Opencode => (1, "opencode", false),
        AdapterKind::Dsh => (2, "dsh", true),
    };
    Adapter {
        identity: AdapterIdentity { kind, adapter_version },
        namespace,
        continuation_supported,
    }
}

/// No two agents share a name, so no two share a label for what they name.
pub proof fn namespaces_are_apart(a: AdapterKind, b: AdapterKind)
    requires
        namespace_of(a) == namespace_of(b),
    ensures
        a == b,
{
    reveal_strlit("codex");
    reveal_strlit("claude_code");
    reveal_strlit("prime_agent");
    reveal_strlit("pi");
    reveal_strlit("opencode");
    reveal_strlit("dsh");
    assert("codex"@[0] == 'c' && "codex"@.len() == 5);
    assert("claude_code"@[0] == 'c' && "claude_code"@.len() == 11);
    assert("prime_agent"@[0] == 'p' && "prime_agent"@.len() == 11);
    assert("pi"@.len() == 2 && "opencode"@.len() == 8 && "dsh"@.len() == 3);
}

/// Whatever two agents name, they name it apart: the same session, tool call or
/// turn of two agents never shares a name.
pub proof fn agents_name_apart(
    a: AdapterKind,
    b: AdapterKind,
    label: Seq<char>,
    x: Seq<Seq<u8>>,
    y: Seq<Seq<u8>>,
)
    requires
        a != b,
    ensures
        codex::id_of(namespace_of(a) + label, x) != codex::id_of(namespace_of(b) + label, y),
{
    reveal_strlit("codex");
    reveal_strlit("claude_code");
    reveal_strlit("prime_agent");
    reveal_strlit("pi");
    reveal_strlit("opencode");
    reveal_strlit("dsh");
    let p = namespace_of(a);
    let q = namespace_of(b);
    let s = codex::id_of(p + label, x);
    let t = codex::id_of(q + label, y);
    assert(p.len() >= 2 && q.len() >= 2);
    assert(s[0] == p[0] && s[1] == p[1]);
    assert(t[0] == q[0] && t[1] == q[1]);
    assert("codex"@[0] == 'c' && "codex"@[1] == 'o');
    assert("claude_code"@[0] == 'c' && "claude_code"@[1] == 'l');
    assert("prime_agent"@[0] == 'p' && "prime_agent"@[1] == 'r');
    assert("pi"@[0] == 'p' && "pi"@[1] == 'i');
    assert("opencode"@[0] == 'o' && "dsh"@[0] == 'd');
}

// ---------------------------------------------------------------------------
// Texts
// ---------------------------------------------------------------------------

/// The texts of context items.
fn context_text(items: &Vec<ContextItem>) -> (r: Vec<String>)
    ensures
        text::views(r@) == model::context_texts(items@),
{
    let mut out: Vec<String> = Vec::new();
    let mut i: usize = 0;
    while i < items.len()
        invariant
            i <= items@.len(),
            out@.len() == i,
            forall|k: int| 0 <= k < i ==> (#[trigger] out@[k])@ == items@[k].text@,
        decreases items@.len() - i,
    {
        out.push(items[i].text.clone());
        i = i + 1;
    }
    assert(text::views(out@) =~= model::context_texts(items@));
    out
}

/// The texts of feedback.
pub open spec fn feedback_texts(items: Seq<FeedbackView>) -> Seq<Seq<char>> {
    items.map_values(|f: FeedbackView| f.1)
}

fn feedback_text(items: &Vec<FeedbackItem>) -> (r: Vec<String>)
    ensures
        text::views(r@) == feedback_texts(model::feedback_views(items@)),
{
    let mut out: Vec<String> = Vec::new();
    let mut i: usize = 0;
    while i < items.len()
        invariant
            i <= items@.len(),
            out@.len() == i,
            forall|k: int| 0 <= k < i ==> (#[trigger] out@[k])@ == items@[k].text@,
        decreases items@.len() - i,
    {
        out.push(items[i].text.clone());
        i = i + 1;
    }
    assert(text::views(out@) =~= feedback_texts(model::feedback_views(items@)));
    out
}

// ---------------------------------------------------------------------------
// Answers to command-line agents
// ---------------------------------------------------------------------------

/// What is added to an agent's context at an event.
pub open spec fn context_answer(event: Seq<char>, texts: Seq<Seq<char>>) -> JsonView {
    json::empty().with(
        "hookSpecificOutput"@,
        json::empty().with("hookEventName"@, JsonView::Text(event)).with(
            "additionalContext"@,
            JsonView::Text(text::joined(texts, "\n"@)),
        ),
    )
}

/// What is added to an agent's context, where there is anything.
pub open spec fn context_or_nothing(event: Seq<char>, texts: Seq<Seq<char>>) -> JsonView {
    if texts.len() == 0 {
        json::empty()
    } else {
        context_answer(event, texts)
    }
}

/// A block, for a reason.
pub open spec fn block_answer(reason: Seq<char>) -> JsonView {
    json::empty().with("decision"@, JsonView::Text("block"@)).with(
        "reason"@,
        JsonView::Text(reason),
    )
}

/// A tool that may not run, for a reason.
pub open spec fn deny_answer(reason: Seq<char>) -> JsonView {
    json::empty().with(
        "hookSpecificOutput"@,
        json::empty().with("hookEventName"@, JsonView::Text("PreToolUse"@)).with(
            "permissionDecision"@,
            JsonView::Text("deny"@),
        ).with("permissionDecisionReason"@, JsonView::Text(reason)),
    )
}

/// A task that may end.
pub open spec fn continue_answer() -> JsonView {
    json::empty().with("continue"@, JsonView::Bool(true))
}

/// How an outcome is answered.  An agent that knows no replanning is told no.
pub open spec fn answer_of(outcome: OutcomeView) -> JsonView {
    match outcome {
        OutcomeView::SessionOpened(texts) => context_answer("SessionStart"@, texts),
        OutcomeView::IntentDeclared(gate, texts) => match gate {
            GateView::Deny(reason) => block_answer(reason),
            GateView::Replan(reason) => block_answer(reason),
            GateView::NoVeto => context_or_nothing("UserPromptSubmit"@, texts),
        },
        OutcomeView::ContextRequested(texts) => context_or_nothing("PreStep"@, texts),
        OutcomeView::ToolAboutToRun(gate, texts) => match gate {
            GateView::Deny(reason) => deny_answer(reason),
            GateView::Replan(reason) => deny_answer(reason),
            GateView::NoVeto => context_or_nothing("PreToolUse"@, texts),
        },
        OutcomeView::ToolFinished(feedback) => context_or_nothing(
            "PostToolUse"@,
            feedback_texts(feedback),
        ),
        OutcomeView::TaskStopping(stop, _) => match stop {
            StopView::AllowStop => continue_answer(),
            StopView::ContinueWork(reason) => block_answer(reason),
        },
    }
}

fn context_output(event: &str, texts: &Vec<String>) -> (r: Json)
    ensures
        r@ == context_answer(event@, text::views(texts@)),
{
    let joined = text::join(texts, "\n");
    let inner = Json::empty_object().with("hookEventName", Json::text(event)).with(
        "additionalContext",
        Json::Text(joined),
    );
    Json::empty_object().with("hookSpecificOutput", inner)
}

fn context_or_empty(event: &str, texts: &Vec<String>) -> (r: Json)
    ensures
        r@ == context_or_nothing(event@, text::views(texts@)),
{
    assert(text::views(texts@).len() == texts@.len());
    if texts.len() == 0 {
        return Json::empty_object();
    }
    context_output(event, texts)
}

fn block_output(reason: &str) -> (r: Json)
    ensures
        r@ == block_answer(reason@),
{
    Json::empty_object().with("decision", Json::text("block")).with("reason", Json::text(reason))
}

fn deny_output(reason: &str) -> (r: Json)
    ensures
        r@ == deny_answer(reason@),
{
    let inner = Json::empty_object().with("hookEventName", Json::text("PreToolUse")).with(
        "permissionDecision",
        Json::text("deny"),
    ).with("permissionDecisionReason", Json::text(reason));
    Json::empty_object().with("hookSpecificOutput", inner)
}

fn continue_output() -> (r: Json)
    ensures
        r@ == continue_answer(),
{
    Json::empty_object().with("continue", Json::Bool(true))
}

/// How an outcome is answered.
pub fn map_outcome(outcome: &InternalHookOutcome) -> (r: CodexHookOutput)
    ensures
        r.0@ == answer_of(outcome.payload@),
{
    let output = match &outcome.payload {
        HookOutcomePayload::SessionOpened { inject } => {
            let texts = context_text(inject);
            context_output("SessionStart", &texts)
        },
        HookOutcomePayload::IntentDeclared { gate, inject } => match gate {
            GateDecision::Deny { reason } => block_output(reason.as_str()),
            GateDecision::Replan { reason } => block_output(reason.as_str()),
            GateDecision::NoVeto => {
                let texts = context_text(inject);
                context_or_empty("UserPromptSubmit", &texts)
            },
        },
        HookOutcomePayload::ContextRequested { inject } => {
            let texts = context_text(inject);
            context_or_empty("PreStep", &texts)
        },
        HookOutcomePayload::ToolAboutToRun { gate, inject } => match gate {
            GateDecision::Deny { reason } => deny_output(reason.as_str()),
            GateDecision::Replan { reason } => deny_output(reason.as_str()),
            GateDecision::NoVeto => {
                let texts = context_text(inject);
                context_or_empty("PreToolUse", &texts)
            },
        },
        HookOutcomePayload::ToolFinished { feedback } => {
            let texts = feedback_text(feedback);
            context_or_empty("PostToolUse", &texts)
        },
        HookOutcomePayload::TaskStopping { stop, feedback: _ } => match stop {
            StopDecision::AllowStop => continue_output(),
            StopDecision::ContinueWork { reason } => block_output(reason.as_str()),
        },
    };
    CodexHookOutput(output)
}

/// How a failure is answered, where it is answered at all: a tool may not run,
/// and a task may not end unless the agent is being held already.
pub open spec fn failure_answer(event: HookEvent, held: bool, error: Seq<char>) -> Option<JsonView> {
    let reason = "Project Brain 治理或审计失败，拒绝默认放行："@ + error;
    match event {
        HookEvent::PreToolUse => Some(deny_answer(reason)),
        HookEvent::Stop => if held {
            Some(continue_answer())
        } else {
            Some(block_answer(reason))
        },
        _ => None,
    }
}

/// How a failure is answered, where it is answered at all.
pub fn failure_output(event: HookEvent, input: &CodexHookInput, error: &str) -> (r: Option<
    CodexHookOutput,
>)
    ensures
        match r {
            Some(output) => failure_answer(event, input.stop_hook_active, error@) == Some(
                output.0@,
            ),
            None => failure_answer(event, input.stop_hook_active, error@) is None,
        },
{
    let reason = text::cat2(
        "Project Brain 治理或审计失败，拒绝默认放行：",
        error,
    );
    match event {
        HookEvent::PreToolUse => Some(CodexHookOutput(deny_output(reason.as_str()))),
        HookEvent::Stop => {
            if input.stop_hook_active {
                Some(CodexHookOutput(continue_output()))
            } else {
                Some(CodexHookOutput(block_output(reason.as_str())))
            }
        },
        _ => None,
    }
}

/// How a hook call is answered, by what came of it.
pub fn answer(
    event: HookEvent,
    input: &CodexHookInput,
    outcome: Result<InternalHookOutcome, AppError>,
) -> (r: Result<CodexHookOutput, AppError>)
    ensures
        match outcome {
            Ok(outcome) => r matches Ok(output) && output.0@ == answer_of(outcome.payload@),
            Err(e) => match failure_answer(event, input.stop_hook_active, e@.message()) {
                Some(answered) => r matches Ok(output) && output.0@ == answered,
                None => r == Err::<CodexHookOutput, AppError>(e),
            },
        },
{
    match outcome {
        Ok(outcome) => Ok(map_outcome(&outcome)),
        Err(error) => {
            let message = error.message();
            match failure_output(event, input, message.as_str()) {
                Some(output) => Ok(output),
                None => Err(error),
            }
        },
    }
}

/// How a hook call is answered where the project at hand is not the one that is
/// registered for its directory.
pub open spec fn stranger_answer(
    event: HookEvent,
    stop_hook_active: bool,
    registered: Seq<char>,
    found: Seq<char>,
) -> Option<Result<JsonView, ErrorView>> {
    match project::registration_refusal(registered, found) {
        None => None,
        Some(e) => match failure_answer(
            event,
            stop_hook_active,
            project::registration_mismatch(registered, found),
        ) {
            Some(answered) => Some(Ok(answered)),
            None => Some(Err(e)),
        },
    }
}

/// Whether a hook call is answered at once, because the project at hand is not
/// the one that is registered for its directory.
pub fn answer_stranger(
    event: HookEvent,
    input: &CodexHookInput,
    registered: &str,
    found: &str,
) -> (r: Option<Result<CodexHookOutput, AppError>>)
    ensures
        match r {
            None => stranger_answer(event, input.stop_hook_active, registered@, found@) is None,
            Some(Ok(output)) => stranger_answer(
                event,
                input.stop_hook_active,
                registered@,
                found@,
            ) == Some(Ok::<JsonView, ErrorView>(output.0@)),
            Some(Err(e)) => stranger_answer(event, input.stop_hook_active, registered@, found@)
                == Some(Err::<JsonView, ErrorView>(e@)),
        },
{
    match project::check_registered(registered, found) {
        Ok(()) => None,
        Err(e) => {
            let said = project::mismatch_text(registered, found);
            match failure_output(event, input, said.as_str()) {
                Some(output) => Some(Ok(output)),
                None => Some(Err(e)),
            }
        },
    }
}

/// What came of recording an event: it was new, or it had been recorded before
/// with an outcome.
#[derive(Debug, Clone, PartialEq, Eq)]
pub enum RecordedEvent {
    Inserted,
    Duplicate(InternalHookOutcome),
}

/// The outcome that counts: the first one that was recorded for the event.
pub fn settled(outcome: InternalHookOutcome, recorded: RecordedEvent) -> (r: InternalHookOutcome)
    ensures
        r == (match recorded {
            RecordedEvent::Inserted => outcome,
            RecordedEvent::Duplicate(first) => first,
        }),
{
    match recorded {
        RecordedEvent::Inserted => outcome,
        RecordedEvent::Duplicate(first) => first,
    }
}

/// Milliseconds, at most the largest number there is.
pub fn elapsed_millis(millis: u128) -> (r: u64)
    ensures
        r == (if millis > u64::MAX {
            u64::MAX as int
        } else {
            millis as int
        }),
{
    if millis > 0xffff_ffff_ffff_ffff {
        return u64::MAX;
    }
    millis as u64
}

// ---------------------------------------------------------------------------
// Answers to extensions
// ---------------------------------------------------------------------------

/// What an extension is answered.
#[derive(Debug, PartialEq, Eq)]
pub struct ExtensionHookOutput(pub Json);

/// The front of every answer to an extension.
pub open spec fn headed(event: Seq<char>) -> JsonView {
    json::empty().with("schema_version"@, JsonView::Integer(1)).with(
        "event"@,
        JsonView::Text(event),
    )
}

fn head(event: &str) -> (r: Json)
    ensures
        r@ == headed(event@),
{
    Json::empty_object().with("schema_version", Json::Integer(1)).with("event", Json::text(event))
}

/// How a gate is answered.
pub open spec fn gate_answer(event: Seq<char>, gate: GateView, texts: Seq<Seq<char>>) -> JsonView {
    match gate {
        GateView::NoVeto => headed(event).with("block"@, JsonView::Bool(false)).with(
            "context"@,
            json::text_array(texts),
        ),
        GateView::Replan(reason) => headed(event).with("block"@, JsonView::Bool(true)).with(
            "replan"@,
            JsonView::Bool(true),
        ).with("reason"@, JsonView::Text(reason)).with("context"@, json::text_array(texts)),
        GateView::Deny(reason) => headed(event).with("block"@, JsonView::Bool(true)).with(
            "reason"@,
            JsonView::Text(reason),
        ).with("context"@, json::text_array(texts)),
    }
}

fn gate_output(event: &str, gate: &GateDecision, texts: &Vec<String>) -> (r: Json)
    ensures
        r@ == gate_answer(event@, gate@, text::views(texts@)),
{
    let context = json::array_of_texts(texts);
    match gate {
        GateDecision::NoVeto => head(event).with("block", Json::Bool(false)).with(
            "context",
            context,
        ),
        GateDecision::Replan { reason } => head(event).with("block", Json::Bool(true)).with(
            "replan",
            Json::Bool(true),
        ).with("reason", Json::text(reason.as_str())).with("context", context),
        GateDecision::Deny { reason } => head(event).with("block", Json::Bool(true)).with(
            "reason",
            Json::text(reason.as_str()),
        ).with("context", context),
    }
}

/// Whether an agent is asked to go on, and why.
pub open spec fn continuation(requested: bool, supported: bool, reason: Option<Seq<char>>) -> JsonView {
    json::empty().with("requested"@, JsonView::Bool(requested)).with(
        "supported"@,
        JsonView::Bool(supported),
    ).with(
        "reason"@,
        match reason {
            Some(reason) => JsonView::Text(reason),
            None => JsonView::Null,
        },
    )
}

fn continuation_output(requested: bool, supported: bool, reason: Option<&str>) -> (r: Json)
    ensures
        r@ == continuation(
            requested,
            supported,
            match reason {
                Some(reason) => Some(reason@),
                None => None,
            },
        ),
{
    let shown = match reason {
        Some(reason) => Json::text(reason),
        None => Json::Null,
    };
    Json::empty_object().with("requested", Json::Bool(requested)).with(
        "supported",
        Json::Bool(supported),
    ).with("reason", shown)
}

/// How an outcome is answered to an extension.
pub open spec fn extension_answer(outcome: OutcomeView, supported: bool) -> JsonView {
    match outcome {
        OutcomeView::SessionOpened(texts) => headed("session_opened"@).with(
            "context"@,
            json::text_array(texts),
        ),
        OutcomeView::IntentDeclared(gate, texts) => gate_answer("intent_declared"@, gate, texts),
        OutcomeView::ContextRequested(texts) => headed("context_requested"@).with(
            "context"@,
            json::text_array(texts),
        ),
        OutcomeView::ToolAboutToRun(gate, texts) => gate_answer("tool_about_to_run"@, gate, texts),
        OutcomeView::ToolFinished(feedback) => headed("tool_finished"@).with(
            "feedback"@,
            json::text_array(feedback_texts(feedback)),
        ),
        OutcomeView::TaskStopping(stop, feedback) => headed("task_stopping"@).with(
            "feedback"@,
            json::text_array(feedback_texts(feedback)),
        ).with(
            "continuation"@,
            match stop {
                StopView::AllowStop => continuation(false, supported, None),
                StopView::ContinueWork(reason) => continuation(true, supported, Some(reason)),
            },
        ),
    }
}

/// How an outcome is answered to an extension.
pub fn map_extension_outcome(outcome: &InternalHookOutcome, continuation_supported: bool) -> (r:
    ExtensionHookOutput)
    ensures
        r.0@ == extension_answer(outcome.payload@, continuation_supported),
{
    let value = match &outcome.payload {
        HookOutcomePayload::SessionOpened { inject } => {
            let texts = context_text(inject);
            head("session_opened").with("context", json::array_of_texts(&texts))
        },
        HookOutcomePayload::IntentDeclared { gate, inject } => {
            let texts = context_text(inject);
            gate_output("intent_declared", gate, &texts)
        },
        HookOutcomePayload::ContextRequested { inject } => {
            let texts = context_text(inject);
            head("context_requested").with("context", json::array_of_texts(&texts))
        },
        HookOutcomePayload::ToolAboutToRun { gate, inject } => {
            let texts = context_text(inject);
            gate_output("tool_about_to_run", gate, &texts)
        },
        HookOutcomePayload::ToolFinished { feedback } => {
            let texts = feedback_text(feedback);
            head("tool_finished").with("feedback", json::array_of_texts(&texts))
        },
        HookOutcomePayload::TaskStopping { stop, feedback } => {
            let texts = feedback_text(feedback);
            let continued = match stop {
                StopDecision::AllowStop => continuation_output(
                    false,
                    continuation_supported,
                    None,
                ),
                StopDecision::ContinueWork { reason } => continuation_output(
                    true,
                    continuation_supported,
                    Some(reason.as_str()),
                ),
            };
            head("task_stopping").with("feedback", json::array_of_texts(&texts)).with(
                "continuation",
                continued,
            )
        },
    };
    ExtensionHookOutput(value)
}

/// A tool that may not run because of a failure.
pub open spec fn failed_gate(reason: Seq<char>) -> JsonView {
    gate_answer("tool_about_to_run"@, GateView::Deny(reason), Seq::empty())
}

/// An event that was not looked at because of a failure.
pub open spec fn degraded(event: HookEvent, reason: Seq<char>) -> JsonView {
    headed(event.event_name()).with("degraded"@, JsonView::Bool(true)).with(
        "feedback"@,
        json::text_array(seq![reason]),
    )
}

/// What is said of a failure.
pub open spec fn failure_reason(error: Seq<char>) -> Seq<char> {
    "Project Brain 治理或审计失败："@ + error
}

/// How a failure is answered to an extension.  An agent that is being held
/// already is not held again.
pub open spec fn extension_failure(
    event: HookEvent,
    error: Seq<char>,
    supported: bool,
    held: bool,
) -> JsonView {
    let reason = failure_reason(error);
    match event {
        HookEvent::PreToolUse => failed_gate(reason),
        HookEvent::Stop => headed("task_stopping"@).with(
            "feedback"@,
            json::text_array(seq![reason]),
        ).with(
            "continuation"@,
            if supported && !held {
                continuation(true, supported, Some(reason))
            } else {
                continuation(false, supported, None)
            },
        ),
        _ => degraded(event, reason),
    }
}

fn one_text(s: &str) -> (r: Json)
    ensures
        r@ == json::text_array(seq![s@]),
{
    let mut items: Vec<String> = Vec::new();
    items.push(s.to_owned());
    assert(text::views(items@) =~= seq![s@]);
    json::array_of_texts(&items)
}

fn failed_gate_output(reason: &str) -> (r: Json)
    ensures
        r@ == failed_gate(reason@),
{
    let none: Vec<String> = Vec::new();
    assert(text::views(none@) =~= Seq::<Seq<char>>::empty());
    let gate = GateDecision::Deny { reason: reason.to_owned() };
    gate_output("tool_about_to_run", &gate, &none)
}

fn degraded_output(event: HookEvent, reason: &str) -> (r: Json)
    ensures
        r@ == degraded(event, reason@),
{
    head(event.name()).with("degraded", Json::Bool(true)).with("feedback", one_text(reason))
}

/// How a failure is answered to an extension.
pub fn adapter_failure_output(
    event: HookEvent,
    error: &str,
    continuation_supported: bool,
    stop_hook_active: bool,
) -> (r: ExtensionHookOutput)
    ensures
        r.0@ == extension_failure(event, error@, continuation_supported, stop_hook_active),
{
    let reason = text::cat2("Project Brain 治理或审计失败：", error);
    let value = match event {
        HookEvent::PreToolUse => failed_gate_output(reason.as_str()),
        HookEvent::Stop => {
            let continued = if continuation_supported && !stop_hook_active {
                continuation_output(true, continuation_supported, Some(reason.as_str()))
            } else {
                continuation_output(false, continuation_supported, None)
            };
            head("task_stopping").with("feedback", one_text(reason.as_str())).with(
                "continuation",
                continued,
            )
        },
        _ => degraded_output(event, reason.as_str()),
    };
    ExtensionHookOutput(value)
}

/// How a hook call of an extension is answered, by what came of it.
pub fn answer_extension(
    event: HookEvent,
    input: &CodexHookInput,
    outcome: &Result<InternalHookOutcome, AppError>,
    continuation_supported: bool,
) -> (r: ExtensionHookOutput)
    ensures
        r.0@ == (match *outcome {
            Ok(outcome) => extension_answer(outcome.payload@, continuation_supported),
            Err(e) => extension_failure(
                event,
                e@.message(),
                continuation_supported,
                input.stop_hook_active,
            ),
        }),
{
    match outcome {
        Ok(outcome) => map_extension_outcome(outcome, continuation_supported),
        Err(error) => {
            let message = error.message();
            adapter_failure_output(
                event,
                message.as_str(),
                continuation_supported,
                input.stop_hook_active,
            )
        },
    }
}

// ---------------------------------------------------------------------------
// Answers to Prime Agent
// ---------------------------------------------------------------------------

/// What Prime Agent is answered.
#[derive(Debug, PartialEq, Eq)]
pub struct PrimeHookOutput(pub Json);

/// How a failure is answered to Prime Agent, which never goes on when told to.
pub open spec fn prime_failure(event: HookEvent, error: Seq<char>) -> JsonView {
    let reason = failure_reason(error);
    match event {
        HookEvent::PreToolUse => failed_gate(reason),
        HookEvent::Stop => headed("task_stopping"@).with(
            "feedback"@,
            json::text_array(seq![reason]),
        ).with(
            "continuation"@,
            json::empty().with("requested"@, JsonView::Bool(false)).with(
                "supported"@,
                JsonView::Bool(false),
            ),
        ),
        _ => degraded(event, reason),
    }
}

/// How a failure is answered to Prime Agent.
pub fn prime_failure_output(event: HookEvent, error: &str) -> (r: PrimeHookOutput)
    ensures
        r.0@ == prime_failure(event, error@),
{
    let reason = text::cat2("Project Brain 治理或审计失败：", error);
    let value = match event {
        HookEvent::PreToolUse => failed_gate_output(reason.as_str()),
        HookEvent::Stop => {
            let continued = Json::empty_object().with("requested", Json::Bool(false)).with(
                "supported",
                Json::Bool(false),
            );
            head("task_stopping").with("feedback", one_text(reason.as_str())).with(
                "continuation",
                continued,
            )
        },
        _ => degraded_output(event, reason.as_str()),
    };
    PrimeHookOutput(value)
}

/// How a hook call of Prime Agent is answered, by what came of it.
pub fn answer_prime(event: HookEvent, outcome: &Result<InternalHookOutcome, AppError>) -> (r:
    PrimeHookOutput)
    ensures
        r.0@ == (match *outcome {
            Ok(outcome) => extension_answer(outcome.payload@, false),
            Err(e) => prime_failure(event, e@.message()),
        }),
{
    match outcome {
        Ok(outcome) => {
            let mapped = map_extension_outcome(outcome, false);
            PrimeHookOutput(mapped.0)
        },
        Err(error) => {
            let message = error.message();
            prime_failure_output(event, message.as_str())
        },
    }
}

/// Whether a hook call of Prime Agent is answered at once, because the project
/// at hand is not the one that is registered for its directory.
pub fn answer_prime_stranger(event: HookEvent, registered: &str, found: &str) -> (r: Option<
    PrimeHookOutput,
>)
    ensures
        match r {
            None => registered@ == found@,
            Some(output) => registered@ != found@ && output.0@ == prime_failure(
                event,
                project::registration_mismatch(registered@, found@),
            ),
        },
{
    match project::check_registered(registered, found) {
        Ok(()) => None,
        Err(_) => {
            let said = project::mismatch_text(registered, found);
            Some(prime_failure_output(event, said.as_str()))
        },
    }
}

// ---------------------------------------------------------------------------
// What holds of every answer
// ---------------------------------------------------------------------------

proof fn names_differ()
    ensures
        "hookSpecificOutput"@ != "decision"@,
        "hookEventName"@ != "permissionDecision"@,
        "additionalContext"@ != "permissionDecision"@,
        "schema_version"@ != "block"@,
        "event"@ != "block"@,
{
    reveal_strlit("hookSpecificOutput");
    reveal_strlit("decision");
    reveal_strlit("hookEventName");
    reveal_strlit("permissionDecision");
    reveal_strlit("additionalContext");
    reveal_strlit("schema_version");
    reveal_strlit("block");
    reveal_strlit("event");
    assert("hookSpecificOutput"@.len() != "decision"@.len());
    assert("hookEventName"@.len() != "permissionDecision"@.len());
    assert("additionalContext"@.len() != "permissionDecision"@.len());
    assert("schema_version"@.len() != "block"@.len());
    assert("event"@[0] != "block"@[0]);
}

/// Without a veto the agent's own permissions stand: an answer that lets a tool
/// run never approves it.
pub proof fn no_veto_never_approves(texts: Seq<Seq<char>>)
    ensures
        ({
            let answered = answer_of(OutcomeView::ToolAboutToRun(GateView::NoVeto, texts));
            match answered.member("hookSpecificOutput"@) {
                None => answered == json::empty(),
                Some(inner) => inner.member("permissionDecision"@) is None,
            }
        }),
{
    names_differ();
    let key = "permissionDecision"@;
    let a = json::empty();
    let b = a.with("hookEventName"@, JsonView::Text("PreToolUse"@));
    let joined = JsonView::Text(text::joined(texts, "\n"@));
    let c = b.with("additionalContext"@, joined);
    json::members_of_more(a, "hookEventName"@, JsonView::Text("PreToolUse"@), key);
    json::members_of_more(b, "additionalContext"@, joined, key);
    json::members_of_more(a, "hookSpecificOutput"@, c, "hookSpecificOutput"@);
}

/// What has happened is not undone by an answer: a tool that has finished is
/// reported on, never blocked.
pub proof fn finished_tools_are_not_blocked(feedback: Seq<FeedbackView>)
    ensures
        answer_of(OutcomeView::ToolFinished(feedback)).member("decision"@) is None,
{
    names_differ();
    let texts = feedback_texts(feedback);
    if texts.len() > 0 {
        let inner = json::empty().with("hookEventName"@, JsonView::Text("PostToolUse"@)).with(
            "additionalContext"@,
            JsonView::Text(text::joined(texts, "\n"@)),
        );
        json::members_of_more(json::empty(), "hookSpecificOutput"@, inner, "decision"@);
    }
}

/// Where deciding fails before a tool runs, the tool does not run: every agent
/// is told so.
pub proof fn failures_keep_tools_from_running(error: Seq<char>, supported: bool, held: bool)
    ensures
        failure_answer(HookEvent::PreToolUse, held, error) == Some(
            deny_answer("Project Brain 治理或审计失败，拒绝默认放行："@ + error),
        ),
        extension_failure(HookEvent::PreToolUse, error, supported, held).member("block"@) == Some(
            JsonView::Bool(true),
        ),
        prime_failure(HookEvent::PreToolUse, error).member("block"@) == Some(JsonView::Bool(true)),
{
    names_differ();
    let key = "block"@;
    let reason = JsonView::Text(failure_reason(error));
    let event = JsonView::Text("tool_about_to_run"@);
    let a = json::empty();
    let b = a.with("schema_version"@, JsonView::Integer(1));
    let c = b.with("event"@, event);
    let d = c.with("block"@, JsonView::Bool(true));
    let e = d.with("reason"@, reason);
    json::members_of_more(a, "schema_version"@, JsonView::Integer(1), key);
    json::members_of_more(b, "event"@, event, key);
    json::members_of_more(c, "block"@, JsonView::Bool(true), key);
    json::members_of_more(d, "reason"@, reason, key);
    json::members_of_more(e, "context"@, json::text_array(Seq::empty()), key);
}

/// An agent that is being held at the end of a task already is let go where
/// deciding fails, so that a failure never holds it for good.
pub proof fn failures_hold_at_most_once(error: Seq<char>, supported: bool)
    ensures
        failure_answer(HookEvent::Stop, true, error) == Some(continue_answer()),
        extension_failure(HookEvent::Stop, error, supported, true) == headed(
            "task_stopping"@,
        ).with("feedback"@, json::text_array(seq![failure_reason(error)])).with(
            "continuation"@,
            continuation(false, supported, None),
        ),
{
}

proof fn two_members(
    j: JsonView,
    a: Seq<char>,
    x: JsonView,
    b: Seq<char>,
    y: JsonView,
)
    requires
        j is Object,
        j.member(a) is None,
        j.member(b) is None,
        a != b,
    ensures
        j.with(a, x).member(a) == Some(x),
        j.with(a, x).with(b, y).member(a) == Some(x),
        j.with(a, x).with(b, y).member(b) == Some(y),
{
    json::members_of_more(j, a, x, a);
    json::members_of_more(j, a, x, b);
    json::members_of_more(j.with(a, x), b, y, a);
    json::members_of_more(j.with(a, x), b, y, b);
}

proof fn answer_keys()
    ensures
        "decision"@ != "reason"@,
        "hookEventName"@ != "additionalContext"@,
        "hookEventName"@ != "permissionDecision"@,
        "hookEventName"@ != "permissionDecisionReason"@,
        "permissionDecision"@ != "permissionDecisionReason"@,
        "schema_version"@ != "event"@,
        "schema_version"@ != "block"@ && "event"@ != "block"@,
        "schema_version"@ != "replan"@ && "event"@ != "replan"@ && "block"@ != "replan"@,
        "schema_version"@ != "reason"@ && "event"@ != "reason"@ && "block"@ != "reason"@,
        "replan"@ != "reason"@,
        "schema_version"@ != "context"@ && "event"@ != "context"@ && "block"@ != "context"@,
        "replan"@ != "context"@ && "reason"@ != "context"@,
        "schema_version"@ != "feedback"@ && "event"@ != "feedback"@,
        "schema_version"@ != "continuation"@ && "event"@ != "continuation"@,
        "feedback"@ != "continuation"@,
        "requested"@ != "supported"@ && "requested"@ != "reason"@ && "supported"@ != "reason"@,
{
    reveal_strlit("decision");
    reveal_strlit("reason");
    reveal_strlit("hookEventName");
    reveal_strlit("additionalContext");
    reveal_strlit("permissionDecision");
    reveal_strlit("permissionDecisionReason");
    reveal_strlit("schema_version");
    reveal_strlit("event");
    reveal_strlit("block");
    reveal_strlit("replan");
    reveal_strlit("context");
    reveal_strlit("feedback");
    reveal_strlit("continuation");
    reveal_strlit("requested");
    reveal_strlit("supported");
    assert("decision"@.len() == 8 && "feedback"@.len() == 8 && "continuation"@.len() == 12);
    assert("reason"@.len() == 6 && "reason"@[2] == 'a');
    assert("replan"@.len() == 6 && "replan"@[2] == 'p');
    assert("hookEventName"@.len() == 13 && "additionalContext"@.len() == 17);
    assert("permissionDecision"@.len() == 18 && "permissionDecisionReason"@.len() == 24);
    assert("schema_version"@.len() == 14 && "context"@.len() == 7);
    assert("event"@.len() == 5 && "event"@[0] == 'e');
    assert("block"@.len() == 5 && "block"@[0] == 'b');
    assert("requested"@.len() == 9 && "requested"@[0] == 'r');
    assert("supported"@.len() == 9 && "supported"@[0] == 's');
}

/// A tool that is denied or sent back to planning is answered with a denial and
/// its reason; one that is let through is answered with the context alone, all
/// of it and one item under another.
pub proof fn vetoes_reach_the_agent(reason: Seq<char>, texts: Seq<Seq<char>>)
    ensures
        ({
            let denied = answer_of(OutcomeView::ToolAboutToRun(GateView::Deny(reason), texts));
            let inner = denied.member("hookSpecificOutput"@);
            &&& inner is Some
            &&& inner->0.member("hookEventName"@) == Some(JsonView::Text("PreToolUse"@))
            &&& inner->0.member("permissionDecision"@) == Some(JsonView::Text("deny"@))
            &&& inner->0.member("permissionDecisionReason"@) == Some(JsonView::Text(reason))
        }),
        answer_of(OutcomeView::ToolAboutToRun(GateView::Replan(reason), texts)) == answer_of(
            OutcomeView::ToolAboutToRun(GateView::Deny(reason), texts),
        ),
        texts.len() == 0 ==> answer_of(OutcomeView::ToolAboutToRun(GateView::NoVeto, texts))
            == json::empty(),
        texts.len() > 0 ==> {
            let let_through = answer_of(OutcomeView::ToolAboutToRun(GateView::NoVeto, texts));
            let inner = let_through.member("hookSpecificOutput"@);
            &&& inner is Some
            &&& inner->0.member("additionalContext"@) == Some(
                JsonView::Text(text::joined(texts, "\n"@)),
            )
        },
{
    answer_keys();
    let e = json::empty();
    json::members_of_more(
        e,
        "hookSpecificOutput"@,
        e.with("hookEventName"@, JsonView::Text("PreToolUse"@)).with(
            "permissionDecision"@,
            JsonView::Text("deny"@),
        ).with("permissionDecisionReason"@, JsonView::Text(reason)),
        "hookSpecificOutput"@,
    );
    two_members(
        e,
        "hookEventName"@,
        JsonView::Text("PreToolUse"@),
        "permissionDecision"@,
        JsonView::Text("deny"@),
    );
    let two = e.with("hookEventName"@, JsonView::Text("PreToolUse"@)).with(
        "permissionDecision"@,
        JsonView::Text("deny"@),
    );
    let one = e.with("hookEventName"@, JsonView::Text("PreToolUse"@));
    json::members_of_more(
        e,
        "hookEventName"@,
        JsonView::Text("PreToolUse"@),
        "permissionDecisionReason"@,
    );
    json::members_of_more(
        one,
        "permissionDecision"@,
        JsonView::Text("deny"@),
        "permissionDecisionReason"@,
    );
    json::members_of_more(
        two,
        "permissionDecisionReason"@,
        JsonView::Text(reason),
        "hookEventName"@,
    );
    json::members_of_more(
        two,
        "permissionDecisionReason"@,
        JsonView::Text(reason),
        "permissionDecision"@,
    );
    json::members_of_more(
        two,
        "permissionDecisionReason"@,
        JsonView::Text(reason),
        "permissionDecisionReason"@,
    );
    two_members(
        e,
        "hookEventName"@,
        JsonView::Text("PreToolUse"@),
        "additionalContext"@,
        JsonView::Text(text::joined(texts, "\n"@)),
    );
    json::members_of_more(
        e,
        "hookSpecificOutput"@,
        e.with("hookEventName"@, JsonView::Text("PreToolUse"@)).with(
            "additionalContext"@,
            JsonView::Text(text::joined(texts, "\n"@)),
        ),
        "hookSpecificOutput"@,
    );
}

/// A prompt that is vetoed and a task that may not end are blocked with the
/// reason; a task that may end is told to go on as it would, and not blocked.
pub proof fn blocked_agents_are_told_why(
    reason: Seq<char>,
    texts: Seq<Seq<char>>,
    feedback: Seq<FeedbackView>,
)
    ensures
        ({
            let blocked = answer_of(
                OutcomeView::TaskStopping(StopView::ContinueWork(reason), feedback),
            );
            &&& blocked.member("decision"@) == Some(JsonView::Text("block"@))
            &&& blocked.member("reason"@) == Some(JsonView::Text(reason))
            &&& answer_of(OutcomeView::IntentDeclared(GateView::Deny(reason), texts)) == blocked
            &&& answer_of(OutcomeView::IntentDeclared(GateView::Replan(reason), texts)) == blocked
        }),
        ({
            let free = answer_of(OutcomeView::TaskStopping(StopView::AllowStop, feedback));
            &&& free.member("continue"@) == Some(JsonView::Bool(true))
            &&& free.member("decision"@) is None
        }),
{
    answer_keys();
    two_members(
        json::empty(),
        "decision"@,
        JsonView::Text("block"@),
        "reason"@,
        JsonView::Text(reason),
    );
    reveal_strlit("decision");
    reveal_strlit("continue");
    assert("decision"@[0] == 'd' && "continue"@[0] == 'c');
    json::members_of_more(json::empty(), "continue"@, JsonView::Bool(true), "continue"@);
    json::members_of_more(json::empty(), "continue"@, JsonView::Bool(true), "decision"@);
}

proof fn headed_members(event: Seq<char>, key: Seq<char>)
    requires
        key != "schema_version"@,
        key != "event"@,
    ensures
        headed(event) is Object,
        headed(event).member(key) is None,
{
    json::members_of_more(json::empty(), "schema_version"@, JsonView::Integer(1), key);
    json::members_of_more(
        json::empty().with("schema_version"@, JsonView::Integer(1)),
        "event"@,
        JsonView::Text(event),
        key,
    );
}

/// An extension is told to block exactly where there is a veto, and then why;
/// it is told that planning again is enough exactly where that is so, and it is
/// always handed the context.
pub proof fn extensions_are_told_of_vetoes(
    event: Seq<char>,
    gate: GateView,
    texts: Seq<Seq<char>>,
)
    ensures
        gate_answer(event, gate, texts).member("block"@) == Some(
            JsonView::Bool(!(gate is NoVeto)),
        ),
        gate_answer(event, gate, texts).member("context"@) == Some(json::text_array(texts)),
        gate matches GateView::Deny(reason) ==> gate_answer(event, gate, texts).member("reason"@)
            == Some(JsonView::Text(reason)) && gate_answer(event, gate, texts).member("replan"@)
            is None,
        gate matches GateView::Replan(reason) ==> gate_answer(event, gate, texts).member(
            "reason"@,
        ) == Some(JsonView::Text(reason)) && gate_answer(event, gate, texts).member("replan"@)
            == Some(JsonView::Bool(true)),
{
    answer_keys();
    let h = headed(event);
    headed_members(event, "block"@);
    headed_members(event, "replan"@);
    headed_members(event, "reason"@);
    headed_members(event, "context"@);
    let keys = seq!["block"@, "replan"@, "reason"@, "context"@];
    let open = h.with("block"@, JsonView::Bool(false));
    let shut = h.with("block"@, JsonView::Bool(true));
    let again = shut.with("replan"@, JsonView::Bool(true));
    assert forall|i: int| 0 <= i < 4 implies {
        let key = #[trigger] keys[i];
        &&& open.member(key) == if key == "block"@ {
            Some(JsonView::Bool(false))
        } else {
            None
        }
        &&& shut.member(key) == if key == "block"@ {
            Some(JsonView::Bool(true))
        } else {
            None
        }
    } by {
        json::members_of_more(h, "block"@, JsonView::Bool(false), keys[i]);
        json::members_of_more(h, "block"@, JsonView::Bool(true), keys[i]);
    }
    assert(keys[0] == "block"@ && keys[1] == "replan"@ && keys[2] == "reason"@ && keys[3]
        == "context"@);
    assert forall|i: int| 0 <= i < 4 implies again.member(#[trigger] keys[i]) == if keys[i]
        == "replan"@ {
        Some(JsonView::Bool(true))
    } else {
        shut.member(keys[i])
    } by {
        json::members_of_more(shut, "replan"@, JsonView::Bool(true), keys[i]);
    }
    match gate {
        GateView::NoVeto => {
            json::members_of_more(open, "context"@, json::text_array(texts), "block"@);
            json::members_of_more(open, "context"@, json::text_array(texts), "context"@);
        },
        GateView::Deny(reason) => {
            let why = shut.with("reason"@, JsonView::Text(reason));
            assert forall|i: int| 0 <= i < 4 implies why.member(#[trigger] keys[i]) == if keys[i]
                == "reason"@ {
                Some(JsonView::Text(reason))
            } else {
                shut.member(keys[i])
            } by {
                json::members_of_more(shut, "reason"@, JsonView::Text(reason), keys[i]);
            }
            assert forall|i: int| 0 <= i < 4 implies why.with(
                "context"@,
                json::text_array(texts),
            ).member(#[trigger] keys[i]) == if keys[i] == "context"@ {
                Some(json::text_array(texts))
            } else {
                why.member(keys[i])
            } by {
                json::members_of_more(why, "context"@, json::text_array(texts), keys[i]);
            }
        },
        GateView::Replan(reason) => {
            let why = again.with("reason"@, JsonView::Text(reason));
            assert forall|i: int| 0 <= i < 4 implies why.member(#[trigger] keys[i]) == if keys[i]
                == "reason"@ {
                Some(JsonView::Text(reason))
            } else {
                again.member(keys[i])
            } by {
                json::members_of_more(again, "reason"@, JsonView::Text(reason), keys[i]);
            }
            assert forall|i: int| 0 <= i < 4 implies why.with(
                "context"@,
                json::text_array(texts),
            ).member(#[trigger] keys[i]) == if keys[i] == "context"@ {
                Some(json::text_array(texts))
            } else {
                why.member(keys[i])
            } by {
                json::members_of_more(why, "context"@, json::text_array(texts), keys[i]);
            }
        },
    }
}

proof fn continuation_members(requested: bool, supported: bool, reason: Option<Seq<char>>)
    ensures
        continuation(requested, supported, reason).member("requested"@) == Some(
            JsonView::Bool(requested),
        ),
        continuation(requested, supported, reason).member("supported"@) == Some(
            JsonView::Bool(supported),
        ),
        continuation(requested, supported, reason).member("reason"@) == Some(
            match reason {
                Some(reason) => JsonView::Text(reason),
                None => JsonView::Null,
            },
        ),
{
    answer_keys();
    let told = match reason {
        Some(reason) => JsonView::Text(reason),
        None => JsonView::Null,
    };
    let e = json::empty();
    let one = e.with("requested"@, JsonView::Bool(requested));
    let two = one.with("supported"@, JsonView::Bool(supported));
    two_members(
        e,
        "requested"@,
        JsonView::Bool(requested),
        "supported"@,
        JsonView::Bool(supported),
    );
    json::members_of_more(e, "requested"@, JsonView::Bool(requested), "reason"@);
    json::members_of_more(one, "supported"@, JsonView::Bool(supported), "reason"@);
    json::members_of_more(two, "reason"@, told, "requested"@);
    json::members_of_more(two, "reason"@, told, "supported"@);
    json::members_of_more(two, "reason"@, told, "reason"@);
}

/// At the end of a task an extension is asked to go on exactly where work is not
/// done, with the reason, and told truly whether its agent can; all feedback is
/// handed over.
pub proof fn extensions_are_asked_to_go_on(
    stop: StopView,
    feedback: Seq<FeedbackView>,
    supported: bool,
)
    ensures
        ({
            let answered = extension_answer(OutcomeView::TaskStopping(stop, feedback), supported);
            let asked = answered.member("continuation"@);
            &&& answered.member("feedback"@) == Some(json::text_array(feedback_texts(feedback)))
            &&& asked is Some
            &&& asked->0.member("requested"@) == Some(JsonView::Bool(stop is ContinueWork))
            &&& asked->0.member("supported"@) == Some(JsonView::Bool(supported))
            &&& stop matches StopView::ContinueWork(reason) ==> asked->0.member("reason"@) == Some(
                JsonView::Text(reason),
            )
        }),
{
    answer_keys();
    headed_members("task_stopping"@, "feedback"@);
    headed_members("task_stopping"@, "continuation"@);
    let h = headed("task_stopping"@);
    let asked = match stop {
        StopView::AllowStop => continuation(false, supported, None),
        StopView::ContinueWork(reason) => continuation(true, supported, Some(reason)),
    };
    two_members(
        h,
        "feedback"@,
        json::text_array(feedback_texts(feedback)),
        "continuation"@,
        asked,
    );
    match stop {
        StopView::AllowStop => continuation_members(false, supported, None),
        StopView::ContinueWork(reason) => continuation_members(true, supported, Some(reason)),
    }
}

/// What each agent can do is what its hooks allow: all go on when they are told
/// to but for OpenCode and Prime Agent.
pub proof fn capabilities_are_not_made_up(kind: AdapterKind)
    ensures
        continues(kind) <==> kind == AdapterKind::Codex || kind == AdapterKind::ClaudeCode || kind
            == AdapterKind::Pi || kind == AdapterKind::Dsh,
        version_of(kind) == 2 <==> kind == AdapterKind::Dsh,
        version_of(kind) == 1 <==> kind != AdapterKind::Dsh,
{
}

} // verus!
