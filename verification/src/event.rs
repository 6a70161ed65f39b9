//! Hook events in the form that decisions are made on, whatever agent they
//! came from.
use crate::control::SessionOrigin;
use crate::model::{self, ToolAction, ToolActionView, ToolStatus};
use vstd::prelude::*;

verus! {

/// The agents that events come from.
#[derive(Debug, Clone, Copy, PartialEq, Eq, Structural)]
pub enum AdapterKind {
    Codex,
    ClaudeCode,
    PrimeAgent,
    Pi,
    Opencode,
    Dsh,
}

/// The points at which an agent calls its hooks.  `PreStep` comes before each
/// step of the model, where an agent has such a point.
#[derive(Debug, Clone, Copy, PartialEq, Eq, Structural)]
pub enum HookEvent {
    SessionStart,
    UserPromptSubmit,
    PreStep,
    PreToolUse,
    PostToolUse,
    Stop,
}

impl HookEvent {
    /// The written name of the event that a hook tells of.
    pub open spec fn event_name(self) -> Seq<char> {
        match self {
            HookEvent::SessionStart => "session_opened"@,
            HookEvent::UserPromptSubmit => "intent_declared"@,
            HookEvent::PreStep => "context_requested"@,
            HookEvent::PreToolUse => "tool_about_to_run"@,
            HookEvent::PostToolUse => "tool_finished"@,
            HookEvent::Stop => "task_stopping"@,
        }
    }

    /// The written name of the event that a hook tells of.
    pub fn name(self) -> (r: &'static str)
        ensures
            r@ == self.event_name(),
    {
        match self {
            HookEvent::SessionStart => "session_opened",
            HookEvent::UserPromptSubmit => "intent_declared",
            HookEvent::PreStep => "context_requested",
            HookEvent::PreToolUse => "tool_about_to_run",
            HookEvent::PostToolUse => "tool_finished",
            HookEvent::Stop => "task_stopping",
        }
    }

    /// A hook that tells of a tool.
    pub open spec fn of_tool(self) -> bool {
        self == HookEvent::PreToolUse || self == HookEvent::PostToolUse
    }
}

/// How far an event's identity can be relied on when it is delivered again.
#[derive(Debug, Clone, Copy, PartialEq, Eq, Structural)]
pub enum EventIdentityQuality {
    VendorStable,
    DerivedStable,
    PerDelivery,
}

#[derive(Debug, Clone, Copy, PartialEq, Eq, Structural)]
pub enum SessionOpenReason {
    Startup,
    Resume,
    Clear,
    Compact,
    Unknown,
}

#[derive(Debug, Clone, Copy, PartialEq, Eq, Structural)]
pub enum IntentOrigin {
    Interactive,
}

#[derive(Debug, Clone, Copy, PartialEq, Eq, Structural)]
pub struct AdapterIdentity {
    pub kind: AdapterKind,
    pub adapter_version: u16,
}

#[derive(Debug, Clone, PartialEq, Eq)]
pub struct SessionOpened {
    pub reason: SessionOpenReason,
    pub previous_session_key: Option<String>,
    pub parent_session_key: Option<String>,
    pub origin: SessionOrigin,
    pub delegation_depth: u32,
}

#[derive(Debug, Clone, PartialEq, Eq)]
pub struct IntentDeclared {
    pub text: String,
    pub origin: IntentOrigin,
}

/// A tool that is about to run; `action_json` is the canonical JSON form of
/// its action.
#[derive(Debug, Clone, PartialEq, Eq)]
pub struct ToolAboutToRun {
    pub operation_id: String,
    pub tool_name: String,
    pub action: ToolAction,
    pub action_json: Vec<u8>,
}

#[derive(Debug, Clone, PartialEq, Eq)]
pub struct ToolFinished {
    pub operation_id: String,
    pub tool_name: String,
    pub action: ToolAction,
    pub status: ToolStatus,
    pub duration_ms: Option<u64>,
    pub result_digest: Option<String>,
}

#[derive(Debug, Clone, PartialEq, Eq)]
pub struct TaskStopping {
    pub last_assistant_message: Option<String>,
    pub vendor_loop_active: bool,
}

#[derive(Debug, Clone, PartialEq, Eq)]
pub enum HookEventPayload {
    SessionOpened(SessionOpened),
    IntentDeclared(IntentDeclared),
    ContextRequested,
    ToolAboutToRun(ToolAboutToRun),
    ToolFinished(ToolFinished),
    TaskStopping(TaskStopping),
}

#[derive(Debug, Clone, PartialEq, Eq)]
pub struct InternalHookEvent {
    pub protocol_version: u32,
    pub project_key: String,
    pub event_id: String,
    pub identity_quality: EventIdentityQuality,
    pub adapter: AdapterIdentity,
    pub session_key: String,
    pub cwd: String,
    pub turn_key: Option<String>,
    pub payload: HookEventPayload,
}

/// What an event tells.
pub enum PayloadView {
    SessionOpened {
        reason: SessionOpenReason,
        previous_session_key: Option<Seq<char>>,
        parent_session_key: Option<Seq<char>>,
        origin: SessionOrigin,
        delegation_depth: u32,
    },
    IntentDeclared { text: Seq<char>, origin: IntentOrigin },
    ContextRequested,
    ToolAboutToRun { operation_id: Seq<char>, tool_name: Seq<char>, action: ToolActionView },
    ToolFinished {
        operation_id: Seq<char>,
        tool_name: Seq<char>,
        action: ToolActionView,
        status: ToolStatus,
        duration_ms: Option<u64>,
        result_digest: Option<Seq<char>>,
    },
    TaskStopping { last_assistant_message: Option<Seq<char>>, vendor_loop_active: bool },
}

impl View for HookEventPayload {
    type V = PayloadView;

    open spec fn view(&self) -> PayloadView {
        match self {
            HookEventPayload::SessionOpened(opened) => PayloadView::SessionOpened {
                reason: opened.reason,
                previous_session_key: model::opt_view(opened.previous_session_key),
                parent_session_key: model::opt_view(opened.parent_session_key),
                origin: opened.origin,
                delegation_depth: opened.delegation_depth,
            },
            HookEventPayload::IntentDeclared(intent) => PayloadView::IntentDeclared {
                text: intent.text@,
                origin: intent.origin,
            },
            HookEventPayload::ContextRequested => PayloadView::ContextRequested,
            HookEventPayload::ToolAboutToRun(tool) => PayloadView::ToolAboutToRun {
                operation_id: tool.operation_id@,
                tool_name: tool.tool_name@,
                action: tool.action@,
            },
            HookEventPayload::ToolFinished(tool) => PayloadView::ToolFinished {
                operation_id: tool.operation_id@,
                tool_name: tool.tool_name@,
                action: tool.action@,
                status: tool.status,
                duration_ms: tool.duration_ms,
                result_digest: model::opt_view(tool.result_digest),
            },
            HookEventPayload::TaskStopping(stopping) => PayloadView::TaskStopping {
                last_assistant_message: model::opt_view(stopping.last_assistant_message),
                vendor_loop_active: stopping.vendor_loop_active,
            },
        }
    }
}

/// What an event says, as it is recorded: the canonical form of an action is
/// made from the action and is not recorded beside it.
pub struct EventView {
    pub protocol_version: u32,
    pub project_key: Seq<char>,
    pub event_id: Seq<char>,
    pub identity_quality: EventIdentityQuality,
    pub adapter: AdapterIdentity,
    pub session_key: Seq<char>,
    pub cwd: Seq<char>,
    pub turn_key: Option<Seq<char>>,
    pub payload: PayloadView,
}

impl View for InternalHookEvent {
    type V = EventView;

    open spec fn view(&self) -> EventView {
        EventView {
            protocol_version: self.protocol_version,
            project_key: self.project_key@,
            event_id: self.event_id@,
            identity_quality: self.identity_quality,
            adapter: self.adapter,
            session_key: self.session_key@,
            cwd: self.cwd@,
            turn_key: model::opt_view(self.turn_key),
            payload: self.payload@,
        }
    }
}

} // verus!
