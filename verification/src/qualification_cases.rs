//! The cases of the qualification suite: what each sets up and what has to be
//! observed for it to pass.
use crate::event::EventIdentityQuality;
use crate::json::{self, Json, JsonView};
use crate::model::{
    self, ActionKind, ContextItem, FeedbackItem, FeedbackView, GateDecision, GateView,
    HookOutcomePayload, OutcomeView, ToolAction, ToolStatus,
};
use crate::order;
use crate::qualification::{
    CONCURRENT_SESSION_COUNT, LONG_SESSION_EVENT_COUNT, OPERATIONS_PER_SESSION,
};
use crate::text;
use vstd::prelude::*;

verus! {

broadcast use {vstd::string::group_string_axioms, vstd::seq::group_seq_axioms};

/// A result passes with metrics or fails with a message.
pub open spec fn comes_to(
    r: Result<Json, String>,
    passes: bool,
    metrics: JsonView,
    message: Seq<char>,
) -> bool {
    match r {
        Ok(m) => passes && m@ == metrics,
        Err(e) => !passes && e@ == message,
    }
}

fn number(n: u64) -> (r: Json)
    ensures
        r@ == JsonView::Integer(n as int),
{
    Json::Integer(n as i128)
}

fn flag(b: bool) -> (r: Json)
    ensures
        r@ == JsonView::Bool(b),
{
    Json::Bool(b)
}

// ---------------------------------------------------------------------------
// Adapters
// ---------------------------------------------------------------------------

/// What the adapters answered, and what was audited of it.
#[derive(Debug, PartialEq, Eq)]
pub struct AdapterObservation {
    pub codex_output: Json,
    pub pi_output: Json,
    pub opencode_output: Json,
    pub dsh_output: Json,
    pub wrong_type_accepted: bool,
    pub audited: Vec<AuditedEvent>,
    pub audited_event_count: u64,
    pub codex_deny_intent: String,
    pub pi_continue_after_stop: String,
    pub opencode_continue_after_stop: String,
    pub dsh_continue_after_stop: String,
    pub capabilities_hash: String,
}

/// An audited event: its id, and how far that can be relied on.
#[derive(Debug, Clone, PartialEq, Eq)]
pub struct AuditedEvent {
    pub event_id: String,
    pub identity_quality: EventIdentityQuality,
}

/// The answer of an adapter says that it grants permission.
pub open spec fn grants(output: JsonView) -> bool {
    match output.member("hookSpecificOutput"@) {
        Some(specific) => specific.text_member("permissionDecision"@) == Some("allow"@),
        None => false,
    }
}

/// The answer of an adapter says that nothing is blocked.
pub open spec fn does_not_block(output: JsonView) -> bool {
    output.member("block"@) == Some(JsonView::Bool(false))
}

/// The ids of the events that are told apart only by delivery.
pub open spec fn per_delivery_ids(events: Seq<AuditedEvent>) -> Seq<Seq<char>>
    decreases events.len(),
{
    if events.len() == 0 {
        Seq::empty()
    } else {
        let before = per_delivery_ids(events.drop_last());
        if events.last().identity_quality == EventIdentityQuality::PerDelivery {
            before.push(events.last().event_id@)
        } else {
            before
        }
    }
}

/// Why the adapters do not keep their contract.
pub open spec fn adapter_failure(seen: AdapterObservation) -> Option<Seq<char>> {
    let ids = per_delivery_ids(seen.audited@);
    if grants(seen.codex_output@) || !does_not_block(seen.pi_output@) || !does_not_block(
        seen.opencode_output@,
    ) || !does_not_block(seen.dsh_output@) {
        Some("adapter no-veto 被错误表达成授权或缺少 block=false"@)
    } else if seen.wrong_type_accepted {
        Some("adapter 接受了已知字段的错误类型"@)
    } else if ids.len() != 2 || ids[0] == ids[1] {
        Some("缺少 vendor stable ID 时没有诚实生成两个 per_delivery 事件"@)
    } else if seen.opencode_continue_after_stop@ != "unsupported"@ || seen.pi_continue_after_stop@
        != "emulated"@ || seen.dsh_continue_after_stop@ != "supported"@ || seen.codex_deny_intent@
        != "unsupported"@ {
        Some("adapter capability contract 与显式降级边界不一致"@)
    } else {
        None
    }
}

fn is_granting(output: &Json) -> (r: bool)
    ensures
        r == grants(output@),
{
    match output.get("hookSpecificOutput") {
        Some(specific) => match specific.get_text("permissionDecision") {
            Some(decision) => text::same(decision, "allow"),
            None => false,
        },
        None => false,
    }
}

fn is_not_blocking(output: &Json) -> (r: bool)
    ensures
        r == does_not_block(output@),
{
    match output.get("block") {
        Some(Json::Bool(b)) => !*b,
        _ => false,
    }
}

fn list_per_delivery(events: &Vec<AuditedEvent>) -> (r: Vec<String>)
    ensures
        text::views(r@) == per_delivery_ids(events@),
{
    let mut out: Vec<String> = Vec::new();
    let mut i: usize = 0;
    assert(events@.take(0) =~= Seq::<AuditedEvent>::empty());
    assert(text::views(out@) =~= Seq::<Seq<char>>::empty());
    while i < events.len()
        invariant
            i <= events@.len(),
            text::views(out@) == per_delivery_ids(events@.take(i as int)),
        decreases events@.len() - i,
    {
        assert(events@.take(i + 1).drop_last() =~= events@.take(i as int));
        if events[i].identity_quality == EventIdentityQuality::PerDelivery {
            let ghost before = text::views(out@);
            out.push(events[i].event_id.clone());
            assert(text::views(out@) =~= before.push(events@[i as int].event_id@));
        }
        i = i + 1;
    }
    assert(events@.take(events@.len() as int) =~= events@);
    out
}

/// What is reported of the adapters.
pub open spec fn adapter_metrics(seen: AdapterObservation) -> JsonView {
    json::object(
        seq![
            ("adapter_count"@, JsonView::Integer(4)),
            ("audited_event_count"@, JsonView::Integer(seen.audited_event_count as int)),
            (
                "per_delivery_event_count"@,
                JsonView::Integer(per_delivery_ids(seen.audited@).len() as int),
            ),
            ("capabilities_hash"@, JsonView::Text(seen.capabilities_hash@)),
        ],
    )
}

/// Whether the adapters keep their contract: not to object is never expressed
/// as permission, wrong types are refused, events without an identity of
/// their own are told apart by delivery, and what is not supported is said.
pub fn case_adapter_contract(seen: &AdapterObservation) -> (r: Result<Json, String>)
    ensures
        comes_to(
            r,
            adapter_failure(*seen) is None,
            adapter_metrics(*seen),
            adapter_failure(*seen)->0,
        ),
{
    if is_granting(&seen.codex_output) || !is_not_blocking(&seen.pi_output) || !is_not_blocking(
        &seen.opencode_output,
    ) || !is_not_blocking(&seen.dsh_output) {
        return Err("adapter no-veto 被错误表达成授权或缺少 block=false".to_owned());
    }
    if seen.wrong_type_accepted {
        return Err("adapter 接受了已知字段的错误类型".to_owned());
    }
    let ids = list_per_delivery(&seen.audited);
    if ids.len() != 2 || text::same(ids[0].as_str(), ids[1].as_str()) {
        return Err("缺少 vendor stable ID 时没有诚实生成两个 per_delivery 事件".to_owned());
    }
    if !text::same(seen.opencode_continue_after_stop.as_str(), "unsupported") || !text::same(
        seen.pi_continue_after_stop.as_str(),
        "emulated",
    ) || !text::same(seen.dsh_continue_after_stop.as_str(), "supported") || !text::same(
        seen.codex_deny_intent.as_str(),
        "unsupported",
    ) {
        return Err("adapter capability contract 与显式降级边界不一致".to_owned());
    }
    let metrics = Json::empty_object().with("adapter_count", number(4)).with(
        "audited_event_count",
        number(seen.audited_event_count),
    ).with("per_delivery_event_count", number(ids.len() as u64)).with(
        "capabilities_hash",
        Json::text(seen.capabilities_hash.as_str()),
    );
    assert(metrics@->Object_0 =~= adapter_metrics(*seen)->Object_0);
    Ok(metrics)
}

// ---------------------------------------------------------------------------
// Isolation and replay
// ---------------------------------------------------------------------------

/// A row of the audit of a project.
#[derive(Debug, Clone, PartialEq, Eq)]
pub struct AuditRow {
    pub project_key: String,
    pub session_key: String,
}

/// Two projects with an event of the same id stay apart.
pub open spec fn isolated(a: Seq<AuditRow>, b: Seq<AuditRow>) -> bool {
    &&& a.len() == 1 && b.len() == 1
    &&& a[0].project_key@ != b[0].project_key@
    &&& a[0].session_key@ == "session-a"@
    &&& b[0].session_key@ == "session-b"@
}

/// Whether two projects with an event of the same id stay apart.
pub fn case_project_isolation(a: &Vec<AuditRow>, b: &Vec<AuditRow>) -> (r: Result<Json, String>)
    ensures
        comes_to(
            r,
            isolated(a@, b@),
            json::object(
                seq![
                    ("project_count"@, JsonView::Integer(2)),
                    ("shared_event_id"@, JsonView::Bool(true)),
                    (
                        "rows_per_project"@,
                        JsonView::Array(
                            seq![
                                JsonView::Integer(a@.len() as int),
                                JsonView::Integer(b@.len() as int),
                            ],
                        ),
                    ),
                ],
            ),
            "相同 adapter/event_id 的两个 project 没有保持严格隔离"@,
        ),
{
    if a.len() != 1 || b.len() != 1 || text::same(
        a[0].project_key.as_str(),
        b[0].project_key.as_str(),
    ) || !text::same(a[0].session_key.as_str(), "session-a") || !text::same(
        b[0].session_key.as_str(),
        "session-b",
    ) {
        return Err("相同 adapter/event_id 的两个 project 没有保持严格隔离".to_owned());
    }
    let mut rows: Vec<Json> = Vec::new();
    rows.push(number(a.len() as u64));
    rows.push(number(b.len() as u64));
    proof {
        json::array_view_index(rows@);
    }
    let ghost counted = seq![
        JsonView::Integer(a@.len() as int),
        JsonView::Integer(b@.len() as int),
    ];
    assert(json::array_view(rows@) =~= counted);
    let metrics = Json::empty_object().with("project_count", number(2)).with(
        "shared_event_id",
        flag(true),
    ).with("rows_per_project", Json::Array(rows));
    assert(metrics@->Object_0 =~= seq![
        ("project_count"@, JsonView::Integer(2)),
        ("shared_event_id"@, JsonView::Bool(true)),
        ("rows_per_project"@, JsonView::Array(counted)),
    ]);
    Ok(metrics)
}

/// What came of delivering one event many times.
#[derive(Debug, Clone, Copy, PartialEq, Eq, Structural)]
pub struct ReplayObservation {
    pub inserted: u64,
    pub duplicate: u64,
    pub restart_duplicate: bool,
    pub collision_rejected: bool,
    pub rows: u64,
}

/// One event stayed one event.
pub open spec fn converged(seen: ReplayObservation) -> bool {
    &&& seen.inserted == 1
    &&& seen.duplicate == 79
    &&& seen.restart_duplicate
    &&& seen.collision_rejected
    &&& seen.rows == 1
}

/// Whether one event stays one event, however often and from wherever it is
/// delivered, and is not confused with a different one of its id.
pub fn case_replay_idempotency(seen: ReplayObservation) -> (r: Result<Json, String>)
    ensures
        comes_to(
            r,
            converged(seen),
            json::object(
                seq![
                    ("deliveries"@, JsonView::Integer(81)),
                    ("inserted"@, JsonView::Integer(seen.inserted as int)),
                    ("duplicates_before_restart"@, JsonView::Integer(seen.duplicate as int)),
                    ("restart_replayed"@, JsonView::Bool(true)),
                    ("different_payload_rejected"@, JsonView::Bool(true)),
                    ("persisted_rows"@, JsonView::Integer(seen.rows as int)),
                ],
            ),
            "并发、重启或碰撞重放没有收敛到唯一原始事件"@,
        ),
{
    if seen.inserted != 1 || seen.duplicate != 79 || !seen.restart_duplicate
        || !seen.collision_rejected || seen.rows != 1 {
        return Err("并发、重启或碰撞重放没有收敛到唯一原始事件".to_owned());
    }
    let metrics = Json::empty_object().with("deliveries", number(81)).with(
        "inserted",
        number(seen.inserted),
    ).with("duplicates_before_restart", number(seen.duplicate)).with(
        "restart_replayed",
        flag(true),
    ).with("different_payload_rejected", flag(true)).with("persisted_rows", number(seen.rows));
    assert(metrics@->Object_0 =~= seq![
        ("deliveries"@, JsonView::Integer(81)),
        ("inserted"@, JsonView::Integer(seen.inserted as int)),
        ("duplicates_before_restart"@, JsonView::Integer(seen.duplicate as int)),
        ("restart_replayed"@, JsonView::Bool(true)),
        ("different_payload_rejected"@, JsonView::Bool(true)),
        ("persisted_rows"@, JsonView::Integer(seen.rows as int)),
    ]);
    Ok(metrics)
}

// ---------------------------------------------------------------------------
// Interleaving
// ---------------------------------------------------------------------------

/// A number in decimal with zeros before it, up to a width.
pub open spec fn padded(n: nat, width: nat) -> Seq<char> {
    let digits = text::decimal(n);
    if digits.len() >= width {
        digits
    } else {
        Seq::new((width - digits.len()) as nat, |i: int| '0') + digits
    }
}

fn pad(n: u64, width: usize) -> (r: String)
    ensures
        r@ == padded(n as nat, width as nat),
{
    let digits = text::decimal_text(n);
    let len: usize = text::chars_of(digits.as_str()).len();
    if len >= width {
        return digits;
    }
    let mut out = String::new();
    let mut i: usize = len;
    assert(out@ =~= Seq::new(0, |i: int| '0'));
    while i < width
        invariant
            len <= i <= width,
            out@ == Seq::new((i - len) as nat, |i: int| '0'),
        decreases width - i,
    {
        out.push('0');
        i = i + 1;
        assert(out@ =~= Seq::new((i - len) as nat, |i: int| '0'));
    }
    out.append(digits.as_str());
    out
}

/// One delivery of the interleaving case: an operation of a session of a
/// project, before or after it runs, and what is recorded as the answer to it.
/// How an operation ended and how long it took is only told of one that is
/// finished.
#[derive(Debug, Clone, PartialEq, Eq)]
pub struct Delivery {
    pub project: String,
    pub session_key: String,
    pub event_id: String,
    pub operation_id: String,
    pub tool_name: String,
    pub action: ToolAction,
    pub finished: bool,
    pub status: Option<ToolStatus>,
    pub duration_ms: Option<u64>,
    pub outcome: HookOutcomePayload,
}

/// The name of an operation.
pub open spec fn operation_name(session: nat, operation: nat) -> Seq<char> {
    "operation-"@ + padded(session, 2) + "-"@ + padded(operation, 3)
}

/// The project of a session.
pub open spec fn project_of(session: nat) -> Seq<char> {
    if session % 2 == 0 {
        "qualification_q4_a"@
    } else {
        "qualification_q4_b"@
    }
}

/// A delivery is the one of an operation, before or after it runs.
pub open spec fn delivers(d: Delivery, session: nat, operation: nat, finished: bool) -> bool {
    &&& d.project@ == project_of(session)
    &&& d.session_key@ == "session-"@ + padded(session, 2)
    &&& d.operation_id@ == operation_name(session, operation)
    &&& d.event_id@ == (if finished {
        "post-"@
    } else {
        "pre-"@
    }) + operation_name(session, operation)
    &&& d.tool_name@ == "Edit"@
    &&& d.action.kind == ActionKind::Modify
    &&& text::views(d.action.target_files@) == seq![
        "src/session-"@ + padded(session, 2) + ".rs"@,
    ]
    &&& d.action.command is None
    &&& d.action.deterministic_impacts@.len() == 0
    &&& d.action.proposed_change is None
    &&& d.finished == finished
    &&& d.status == (if finished {
        Some(ToolStatus::Succeeded)
    } else {
        None
    })
    &&& d.duration_ms == (if finished {
        Some(1u64)
    } else {
        None
    })
    &&& d.outcome@ == (if finished {
        OutcomeView::ToolFinished(Seq::empty())
    } else {
        OutcomeView::ToolAboutToRun(GateView::NoVeto, Seq::empty())
    })
}

/// The delivery of an operation, before or after it runs.
pub fn delivery(session: usize, operation: usize, finished: bool) -> (r: Delivery)
    ensures
        delivers(r, session as nat, operation as nat, finished),
{
    let s = pad(session as u64, 2);
    let o = pad(operation as u64, 3);
    let operation_id = text::cat4("operation-", s.as_str(), "-", o.as_str());
    let event_id = text::cat2(
        if finished {
            "post-"
        } else {
            "pre-"
        },
        operation_id.as_str(),
    );
    let target_files: Vec<String> = vec![text::cat3("src/session-", s.as_str(), ".rs")];
    assert(text::views(target_files@) =~= seq![
        "src/session-"@ + padded(session as nat, 2) + ".rs"@,
    ]);
    let outcome = if finished {
        let feedback: Vec<FeedbackItem> = Vec::new();
        assert(model::feedback_views(feedback@) =~= Seq::<FeedbackView>::empty());
        HookOutcomePayload::ToolFinished { feedback }
    } else {
        let inject: Vec<ContextItem> = Vec::new();
        assert(model::context_texts(inject@) =~= Seq::<Seq<char>>::empty());
        HookOutcomePayload::ToolAboutToRun { gate: GateDecision::NoVeto, inject }
    };
    Delivery {
        project: (if session % 2 == 0 {
            "qualification_q4_a"
        } else {
            "qualification_q4_b"
        }).to_owned(),
        session_key: text::cat2("session-", s.as_str()),
        event_id,
        operation_id,
        tool_name: "Edit".to_owned(),
        action: ToolAction {
            kind: ActionKind::Modify,
            target_files,
            command: None,
            deterministic_impacts: Vec::new(),
            proposed_change: None,
        },
        finished,
        status: if finished {
            Some(ToolStatus::Succeeded)
        } else {
            None
        },
        duration_ms: if finished {
            Some(1)
        } else {
            None
        },
        outcome,
    }
}

/// Deliveries one by one: those of each operation of each session, before and
/// after it runs.
pub open spec fn delivered_in_order(all: Seq<Delivery>) -> bool {
    forall|i: int|
        0 <= i < all.len() ==> delivers(
            #[trigger] all[i],
            (i / 200) as nat,
            (i / 2 % 100) as nat,
            i % 2 == 1,
        )
}

/// All deliveries of the interleaving case.
pub fn interleaving_deliveries() -> (r: Vec<Delivery>)
    ensures
        r@.len() == CONCURRENT_SESSION_COUNT * OPERATIONS_PER_SESSION * 2,
        delivered_in_order(r@),
{
    let mut out: Vec<Delivery> = Vec::new();
    let mut i: usize = 0;
    while i < 6400
        invariant
            i <= 6400,
            out@.len() == i,
            delivered_in_order(out@),
        decreases 6400 - i,
    {
        let one = delivery(i / 200, i / 2 % 100, i % 2 == 1);
        let ghost before = out@;
        out.push(one);
        assert(delivered_in_order(out@)) by {
            assert forall|k: int| 0 <= k < out@.len() implies delivers(
                #[trigger] out@[k],
                (k / 200) as nat,
                (k / 2 % 100) as nat,
                k % 2 == 1,
            ) by {
                if k < before.len() {
                    assert(out@[k] == before[k]);
                }
            }
        }
        i = i + 1;
    }
    out
}

/// The next number of the fixed schedule.
#[verifier::opaque]
pub open spec fn next_state(state: u64) -> u64 {
    state.wrapping_mul(6_364_136_223_846_793_005u64).wrapping_add(1_442_695_040_888_963_407u64)
}

fn advance(state: u64) -> (r: u64)
    ensures
        r == next_state(state),
{
    reveal(next_state);
    state.wrapping_mul(6_364_136_223_846_793_005).wrapping_add(1_442_695_040_888_963_407)
}

/// A list with two of its items in each other's place.
pub open spec fn swapped(v: Seq<usize>, i: int, j: int) -> Seq<usize> {
    v.update(i, v[j]).update(j, v[i])
}

/// A list shuffled by a schedule, from an index down.
pub open spec fn shuffled_from(v: Seq<usize>, index: nat, state: u64) -> Seq<usize>
    decreases index,
{
    if index == 0 || index >= v.len() {
        v
    } else {
        let next = next_state(state);
        shuffled_from(
            swapped(v, index as int, next as int % (index as int + 1)),
            (index - 1) as nat,
            next,
        )
    }
}

/// A list shuffled by the fixed schedule.
pub open spec fn shuffled(v: Seq<usize>) -> Seq<usize> {
    if v.len() == 0 {
        v
    } else {
        shuffled_from(v, (v.len() - 1) as nat, 0x5eed_c0de_d15c_a11eu64)
    }
}

/// Shuffle a list by the fixed schedule.
pub fn deterministic_shuffle(values: &mut Vec<usize>)
    ensures
        final(values)@ == shuffled(old(values)@),
{
    if values.len() == 0 {
        return;
    }
    let mut state: u64 = 0x5eed_c0de_d15c_a11e;
    let n: usize = values.len();
    let mut index: usize = n - 1;
    while index > 0
        invariant
            index < n == values@.len(),
            values@.len() == old(values)@.len(),
            shuffled(old(values)@) == shuffled_from(values@, index as nat, state),
        decreases index,
    {
        let ghost before = values@;
        state = advance(state);
        let place: u64 = state % ((index + 1) as u64);
        let swap: usize = place as usize;
        let a: usize = values[index];
        let b: usize = values[swap];
        values.set(index, b);
        values.set(swap, a);
        assert(values@ =~= swapped(before, index as int, swap as int));
        index = index - 1;
    }
}

proof fn swapping_permutes(v: Seq<usize>, i: int, j: int)
    requires
        0 <= i < v.len(),
        0 <= j < v.len(),
    ensures
        swapped(v, i, j).to_multiset() == v.to_multiset(),
        swapped(v, i, j).len() == v.len(),
{
    let one = v.update(i, v[j]);
    vstd::seq_lib::to_multiset_update(v, i, v[j]);
    vstd::seq_lib::to_multiset_update(one, j, v[i]);
    v.to_multiset_ensures();
    one.to_multiset_ensures();
    if i == j {
        assert(swapped(v, i, j) =~= v);
    } else {
        assert(one[j] == v[j]);
        assert(v.to_multiset().count(v[i]) > 0) by {
            assert(v.contains(v[i]));
        }
        assert(one.to_multiset().count(v[j]) > 0) by {
            assert(one.contains(one[j]));
        }
        assert(swapped(v, i, j).to_multiset() =~= v.to_multiset());
    }
}

proof fn shuffling_from_permutes(v: Seq<usize>, index: nat, state: u64)
    ensures
        shuffled_from(v, index, state).to_multiset() == v.to_multiset(),
        shuffled_from(v, index, state).len() == v.len(),
    decreases index,
{
    if 0 < index < v.len() {
        let next = next_state(state);
        let j = next as int % (index as int + 1);
        swapping_permutes(v, index as int, j);
        shuffling_from_permutes(swapped(v, index as int, j), (index - 1) as nat, next);
    }
}

/// Shuffling loses and repeats nothing: every delivery is made exactly once.
pub proof fn shuffling_permutes(v: Seq<usize>)
    ensures
        shuffled(v).to_multiset() == v.to_multiset(),
        shuffled(v).len() == v.len(),
{
    if v.len() > 0 {
        shuffling_from_permutes(v, (v.len() - 1) as nat, 0x5eed_c0de_d15c_a11eu64);
    }
}

/// A tool event that was found again: of which operation, and whether it is
/// the one after it ran; nothing where it is no tool event.
#[derive(Debug, Clone, PartialEq, Eq)]
pub struct FoundEvent {
    pub operation_id: Option<String>,
    pub finished: bool,
}

/// Every event is one of a tool.
pub open spec fn all_tools(events: Seq<FoundEvent>) -> bool {
    forall|i: int| 0 <= i < events.len() ==> (#[trigger] events[i]).operation_id is Some
}

/// The operations of a project of which a phase was found.
pub open spec fn operations_found(
    project: Seq<char>,
    events: Seq<FoundEvent>,
    finished: bool,
) -> Seq<Seq<char>>
    decreases events.len(),
{
    if events.len() == 0 {
        Seq::empty()
    } else {
        let before = operations_found(project, events.drop_last(), finished);
        if events.last().finished == finished && events.last().operation_id is Some {
            before.push(project + "/"@ + events.last().operation_id->0@)
        } else {
            before
        }
    }
}

fn find_operations(project: &str, events: &Vec<FoundEvent>, finished: bool) -> (r: Vec<String>)
    ensures
        text::views(r@) == operations_found(project@, events@, finished),
{
    let mut out: Vec<String> = Vec::new();
    let mut i: usize = 0;
    assert(events@.take(0) =~= Seq::<FoundEvent>::empty());
    assert(text::views(out@) =~= Seq::<Seq<char>>::empty());
    while i < events.len()
        invariant
            i <= events@.len(),
            text::views(out@) == operations_found(project@, events@.take(i as int), finished),
        decreases events@.len() - i,
    {
        assert(events@.take(i + 1).drop_last() =~= events@.take(i as int));
        match &events[i].operation_id {
            Some(id) => {
                if events[i].finished == finished {
                    let ghost before = text::views(out@);
                    let name = text::cat3(project, "/", id.as_str());
                    out.push(name);
                    assert(text::views(out@) =~= before.push(name@));
                }
            },
            None => {},
        }
        i = i + 1;
    }
    assert(events@.take(events@.len() as int) =~= events@);
    out
}

fn are_all_tools(events: &Vec<FoundEvent>) -> (r: bool)
    ensures
        r == all_tools(events@),
{
    let mut i: usize = 0;
    while i < events.len()
        invariant
            i <= events@.len(),
            forall|k: int| 0 <= k < i ==> (#[trigger] events@[k]).operation_id is Some,
        decreases events@.len() - i,
    {
        if events[i].operation_id.is_none() {
            assert(events@[i as int].operation_id is None);
            return false;
        }
        i = i + 1;
    }
    true
}

/// How many events each project has to have.
pub open spec fn events_per_project() -> nat {
    (CONCURRENT_SESSION_COUNT * OPERATIONS_PER_SESSION) as nat
}

/// The message where a project has another number of events.
pub open spec fn count_failure(project: Seq<char>, actual: nat) -> Seq<char> {
    project + " 期望 "@ + text::decimal(events_per_project()) + " 条事件，实际 "@ + text::decimal(
        actual,
    )
}

/// Why the interleaved deliveries are not all found again.
pub open spec fn interleaving_failure(a: Seq<FoundEvent>, b: Seq<FoundEvent>) -> Option<Seq<char>> {
    let started = order::sorted_set_of(
        operations_found("qualification_q4_a"@, a, false) + operations_found(
            "qualification_q4_b"@,
            b,
            false,
        ),
    );
    let finished = order::sorted_set_of(
        operations_found("qualification_q4_a"@, a, true) + operations_found(
            "qualification_q4_b"@,
            b,
            true,
        ),
    );
    if a.len() != events_per_project() {
        Some(count_failure("qualification_q4_a"@, a.len()))
    } else if !all_tools(a) {
        Some("Q4 出现非工具事件"@)
    } else if b.len() != events_per_project() {
        Some(count_failure("qualification_q4_b"@, b.len()))
    } else if !all_tools(b) {
        Some("Q4 出现非工具事件"@)
    } else if started != finished || started.len() != events_per_project() {
        Some("并发交错后 operation pre/post 因果关联不完整"@)
    } else {
        None
    }
}

/// What is reported of the interleaved deliveries.
pub open spec fn interleaving_metrics() -> JsonView {
    json::object(
        seq![
            ("sessions"@, JsonView::Integer(32)),
            ("operations_per_session"@, JsonView::Integer(100)),
            ("event_count"@, JsonView::Integer(6400)),
            ("correlated_operations"@, JsonView::Integer(3200)),
            ("worker_count"@, JsonView::Integer(8)),
            ("fixed_schedule_seed"@, JsonView::Text("0x5eed_c0de_d15c_a11e"@)),
        ],
    )
}

fn same_lists(a: &Vec<String>, b: &Vec<String>) -> (r: bool)
    ensures
        r == (text::views(a@) == text::views(b@)),
{
    if a.len() != b.len() {
        assert(text::views(a@).len() != text::views(b@).len());
        return false;
    }
    let mut i: usize = 0;
    while i < a.len()
        invariant
            i <= a@.len(),
            a@.len() == b@.len(),
            forall|k: int| 0 <= k < i ==> (#[trigger] a@[k])@ == b@[k]@,
        decreases a@.len() - i,
    {
        if !text::same(a[i].as_str(), b[i].as_str()) {
            assert(text::views(a@)[i as int] != text::views(b@)[i as int]);
            return false;
        }
        i = i + 1;
    }
    assert(text::views(a@) =~= text::views(b@));
    true
}

fn report_count(project: &str, actual: usize) -> (r: String)
    ensures
        r@ == count_failure(project@, actual as nat),
{
    let expected = text::decimal_text(3200);
    let found = text::decimal_text(actual as u64);
    let mut out = text::cat4(project, " 期望 ", expected.as_str(), " 条事件，实际 ");
    out.append(found.as_str());
    out
}

fn joined_sets(a: Vec<String>, b: Vec<String>) -> (r: Vec<String>)
    ensures
        text::views(r@) == order::sorted_set_of(text::views(a@) + text::views(b@)),
{
    let mut all = a;
    let mut more = b;
    all.append(&mut more);
    assert(text::views(all@) =~= text::views(a@) + text::views(b@));
    order::sorted_set(&all)
}

/// Whether every operation of every session is found again, before and after
/// it ran, in the project that it belongs to.
pub fn case_concurrent_interleaving(a: &Vec<FoundEvent>, b: &Vec<FoundEvent>) -> (r: Result<
    Json,
    String,
>)
    ensures
        comes_to(
            r,
            interleaving_failure(a@, b@) is None,
            interleaving_metrics(),
            interleaving_failure(a@, b@)->0,
        ),
{
    if a.len() != 3200 {
        return Err(report_count("qualification_q4_a", a.len()));
    }
    if !are_all_tools(a) {
        return Err("Q4 出现非工具事件".to_owned());
    }
    if b.len() != 3200 {
        return Err(report_count("qualification_q4_b", b.len()));
    }
    if !are_all_tools(b) {
        return Err("Q4 出现非工具事件".to_owned());
    }
    let started = joined_sets(
        find_operations("qualification_q4_a", a, false),
        find_operations("qualification_q4_b", b, false),
    );
    let finished = joined_sets(
        find_operations("qualification_q4_a", a, true),
        find_operations("qualification_q4_b", b, true),
    );
    if !same_lists(&started, &finished) || started.len() != 3200 {
        return Err("并发交错后 operation pre/post 因果关联不完整".to_owned());
    }
    let metrics = Json::empty_object().with("sessions", number(32)).with(
        "operations_per_session",
        number(100),
    ).with("event_count", number(6400)).with("correlated_operations", number(3200)).with(
        "worker_count",
        number(8),
    ).with("fixed_schedule_seed", Json::text("0x5eed_c0de_d15c_a11e"));
    assert(metrics@->Object_0 =~= interleaving_metrics()->Object_0);
    Ok(metrics)
}

// ---------------------------------------------------------------------------
// Drift, stop loops and long sessions
// ---------------------------------------------------------------------------

/// A changed artifact is noticed: its fingerprint is another one, and the
/// refusal says that the content drifted.
pub open spec fn drift_noticed(pinned: Seq<char>, current: Seq<char>, error: Seq<char>) -> bool {
    current != pinned && text::occurs(error, "内容发生漂移"@)
}

/// Whether a changed artifact is noticed.
pub fn case_provider_drift(pinned: &str, current: &str, drift_error: &str) -> (r: Result<
    Json,
    String,
>)
    ensures
        comes_to(
            r,
            drift_noticed(pinned@, current@, drift_error@),
            json::object(
                seq![
                    ("original_sha256"@, JsonView::Text(pinned@)),
                    ("drifted_sha256"@, JsonView::Text(current@)),
                    ("drift_detected"@, JsonView::Bool(true)),
                    ("trusted_snapshot_committed"@, JsonView::Bool(false)),
                ],
            ),
            "Provider 同路径内容漂移未被正式 binding 校验路径识别"@,
        ),
{
    if text::same(current, pinned) || !text::contains(drift_error, "内容发生漂移") {
        return Err("Provider 同路径内容漂移未被正式 binding 校验路径识别".to_owned());
    }
    let metrics = Json::empty_object().with("original_sha256", Json::text(pinned)).with(
        "drifted_sha256",
        Json::text(current),
    ).with("drift_detected", flag(true)).with("trusted_snapshot_committed", flag(false));
    assert(metrics@->Object_0 =~= seq![
        ("original_sha256"@, JsonView::Text(pinned@)),
        ("drifted_sha256"@, JsonView::Text(current@)),
        ("drift_detected"@, JsonView::Bool(true)),
        ("trusted_snapshot_committed"@, JsonView::Bool(false)),
    ]);
    Ok(metrics)
}

/// An answer lets an agent stop.
pub open spec fn lets_stop(output: JsonView) -> bool {
    output.member("continue"@) == Some(JsonView::Bool(true))
}

/// Every answer lets an agent stop.
pub open spec fn all_let_stop(outputs: Seq<Json>) -> bool {
    forall|i: int| 0 <= i < outputs.len() ==> lets_stop((#[trigger] outputs[i])@)
}

/// What an answer says of whether it can keep an agent at work.
pub open spec fn continuation_supported(output: JsonView) -> Option<JsonView> {
    match output.member("continuation"@) {
        Some(c) => c.member("supported"@),
        None => None,
    }
}

/// Why stopping is not bounded.
pub open spec fn stop_loop_failure(
    first: JsonView,
    active: Seq<Json>,
    pi: JsonView,
    opencode: JsonView,
) -> Option<Seq<char>> {
    if first.text_member("decision"@) != Some("block"@) {
        Some("首个未通过对账的 Stop 没有请求继续工作"@)
    } else if !all_let_stop(active) {
        Some("vendor loop active 时 Stop 没有确定性放行，存在自递归风险"@)
    } else if continuation_supported(pi) != Some(JsonView::Bool(true)) {
        Some("PI 未声明已验证的 Stop continuation"@)
    } else if continuation_supported(opencode) != Some(JsonView::Bool(false)) {
        Some("opencode 被错误声明为支持 Stop continuation"@)
    } else {
        None
    }
}

fn is_letting_stop(output: &Json) -> (r: bool)
    ensures
        r == lets_stop(output@),
{
    match output.get("continue") {
        Some(Json::Bool(b)) => *b,
        _ => false,
    }
}

/// Whether an answer says of continuation what it has to.
fn says_continuation(output: &Json, supported: bool) -> (r: bool)
    ensures
        r == (continuation_supported(output@) == Some(JsonView::Bool(supported))),
{
    match output.get("continuation") {
        Some(c) => match c.get("supported") {
            Some(Json::Bool(b)) => *b == supported,
            _ => false,
        },
        None => false,
    }
}

/// What is reported of stopping.
pub open spec fn stop_loop_metrics() -> JsonView {
    json::object(
        seq![
            ("initial_continue_request_count"@, JsonView::Integer(1)),
            ("vendor_loop_active_allow_count"@, JsonView::Integer(20)),
            ("maximum_project_brain_owned_reentry"@, JsonView::Integer(1)),
            ("pi_continuation_mode"@, JsonView::Text("emulated"@)),
            ("opencode_continuation_supported"@, JsonView::Bool(false)),
        ],
    )
}

/// Whether an agent is kept at work at most once in a row.
pub fn case_stop_loop_boundedness(
    first: &Json,
    active: &Vec<Json>,
    pi: &Json,
    opencode: &Json,
) -> (r: Result<Json, String>)
    ensures
        comes_to(
            r,
            stop_loop_failure(first@, active@, pi@, opencode@) is None,
            stop_loop_metrics(),
            stop_loop_failure(first@, active@, pi@, opencode@)->0,
        ),
{
    let blocked = match first.get_text("decision") {
        Some(decision) => text::same(decision, "block"),
        None => false,
    };
    if !blocked {
        return Err("首个未通过对账的 Stop 没有请求继续工作".to_owned());
    }
    let mut i: usize = 0;
    while i < active.len()
        invariant
            i <= active@.len(),
            first@.text_member("decision"@) == Some("block"@),
            forall|k: int| 0 <= k < i ==> lets_stop((#[trigger] active@[k])@),
        decreases active@.len() - i,
    {
        if !is_letting_stop(&active[i]) {
            assert(!lets_stop(active@[i as int]@));
            return Err(
                "vendor loop active 时 Stop 没有确定性放行，存在自递归风险".to_owned(),
            );
        }
        i = i + 1;
    }
    if !says_continuation(pi, true) {
        return Err("PI 未声明已验证的 Stop continuation".to_owned());
    }
    if !says_continuation(opencode, false) {
        return Err("opencode 被错误声明为支持 Stop continuation".to_owned());
    }
    let metrics = Json::empty_object().with("initial_continue_request_count", number(1)).with(
        "vendor_loop_active_allow_count",
        number(20),
    ).with("maximum_project_brain_owned_reentry", number(1)).with(
        "pi_continuation_mode",
        Json::text("emulated"),
    ).with("opencode_continuation_supported", flag(false));
    assert(metrics@->Object_0 =~= stop_loop_metrics()->Object_0);
    Ok(metrics)
}

/// Numbers in ascending order, the same ones as in a list.
pub open spec fn sorted_copy(s: Seq<u64>, v: Seq<u64>) -> bool {
    &&& s.to_multiset() == v.to_multiset()
    &&& forall|i: int, j: int| 0 <= i <= j < s.len() ==> s[i] <= s[j]
}

fn sort_numbers(v: &Vec<u64>) -> (r: Vec<u64>)
    ensures
        sorted_copy(r@, v@),
        r@.len() == v@.len(),
{
    let mut out: Vec<u64> = Vec::new();
    let mut i: usize = 0;
    assert(v@.take(0) =~= Seq::<u64>::empty());
    while i < v.len()
        invariant
            i <= v@.len(),
            out@.len() == i,
            sorted_copy(out@, v@.take(i as int)),
        decreases v@.len() - i,
    {
        let x: u64 = v[i];
        let mut at: usize = out.len();
        while at > 0 && out[at - 1] > x
            invariant
                at <= out@.len(),
                forall|k: int| at <= k < out@.len() ==> out@[k] > x,
            decreases at,
        {
            at = at - 1;
        }
        let ghost before = out@;
        proof {
            assert forall|k: int| 0 <= k < at implies before[k] <= x by {
                assert(before[k] <= before[at - 1]);
            }
        }
        out.insert(at, x);
        proof {
            vstd::seq_lib::to_multiset_insert(before, at as int, x);
            before.to_multiset_ensures();
            v@.take(i as int).to_multiset_ensures();
            assert(v@.take(i + 1) =~= v@.take(i as int).push(x));
            assert(out@.to_multiset() =~= v@.take(i + 1).to_multiset());
            assert forall|a: int, b: int| 0 <= a <= b < out@.len() implies out@[a] <= out@[b] by {
                let p = if a < at {
                    a
                } else {
                    a - 1
                };
                let q = if b < at {
                    b
                } else {
                    b - 1
                };
                if a != at && b != at {
                    assert(before[p] <= before[q]);
                }
            }
        }
        i = i + 1;
    }
    assert(v@.take(v@.len() as int) =~= v@);
    out
}

/// The ninety-fifth percentile of some numbers.
pub open spec fn is_percentile_95(r: u64, values: Seq<u64>) -> bool {
    exists|s: Seq<u64>| #[trigger]
        sorted_copy(s, values) && s.len() == values.len() && r == s[(values.len() - 1) * 95 / 100]
}

/// The ninety-fifth percentile of some numbers.
pub fn percentile_95(values: &Vec<u64>) -> (r: u64)
    requires
        values@.len() > 0,
        (values@.len() - 1) * 95 <= usize::MAX,
    ensures
        is_percentile_95(r, values@),
{
    let sorted = sort_numbers(values);
    let index: usize = (sorted.len() - 1) * 95 / 100;
    sorted[index]
}

/// How slow the end of a long session may be.
pub open spec fn allowed_p95(first: u64) -> nat {
    let doubled = if 2 * first > u64::MAX {
        u64::MAX as nat
    } else {
        (2 * first) as nat
    };
    if doubled + 50_000 > u64::MAX {
        u64::MAX as nat
    } else {
        doubled + 50_000
    }
}

/// A long session stays stable: nothing is lost, and it does not slow down.
pub open spec fn stays_stable(rows: nat, first: u64, last: u64) -> bool {
    rows == LONG_SESSION_EVENT_COUNT && last <= allowed_p95(first)
}

/// The message where a long session is not stable.
pub open spec fn stability_failure(rows: nat, first: u64, last: u64) -> Seq<char> {
    "长会话不满足稳定性阈值：rows="@ + text::decimal(rows) + " first_p95_us="@ + text::decimal(
        first as nat,
    ) + " last_p95_us="@ + text::decimal(last as nat) + " allowed_us="@ + text::decimal(
        allowed_p95(first),
    )
}

/// What is reported of a long session.
pub open spec fn stability_metrics(rows: nat, first: u64, last: u64) -> JsonView {
    json::object(
        seq![
            ("event_count"@, JsonView::Integer(10000)),
            ("persisted_after_restart"@, JsonView::Integer(rows as int)),
            ("first_quartile_p95_us"@, JsonView::Integer(first as int)),
            ("last_quartile_p95_us"@, JsonView::Integer(last as int)),
            ("allowed_last_quartile_p95_us"@, JsonView::Integer(allowed_p95(first) as int)),
            ("lost_events"@, JsonView::Integer(0)),
        ],
    )
}

/// Whether a long session stays stable, given how many events were found
/// again and how long recording took in its first and its last quarter.
pub fn case_long_session_stability(rows: u64, first_p95: u64, last_p95: u64) -> (r: Result<
    Json,
    String,
>)
    ensures
        comes_to(
            r,
            stays_stable(rows as nat, first_p95, last_p95),
            stability_metrics(rows as nat, first_p95, last_p95),
            stability_failure(rows as nat, first_p95, last_p95),
        ),
{
    let doubled: u64 = if first_p95 > u64::MAX / 2 {
        u64::MAX
    } else {
        first_p95 * 2
    };
    let allowed: u64 = if doubled > u64::MAX - 50_000 {
        u64::MAX
    } else {
        doubled + 50_000
    };
    assert(allowed == allowed_p95(first_p95));
    if rows != 10000 || last_p95 > allowed {
        let a = text::decimal_text(rows);
        let b = text::decimal_text(first_p95);
        let c = text::decimal_text(last_p95);
        let d = text::decimal_text(allowed);
        let mut line = text::cat5(
            "长会话不满足稳定性阈值：rows=",
            a.as_str(),
            " first_p95_us=",
            b.as_str(),
            " last_p95_us=",
        );
        line.append(c.as_str());
        line.append(" allowed_us=");
        line.append(d.as_str());
        return Err(line);
    }
    let metrics = Json::empty_object().with("event_count", number(10000)).with(
        "persisted_after_restart",
        number(rows),
    ).with("first_quartile_p95_us", number(first_p95)).with(
        "last_quartile_p95_us",
        number(last_p95),
    ).with("allowed_last_quartile_p95_us", number(allowed)).with("lost_events", number(0));
    assert(metrics@->Object_0 =~= stability_metrics(rows as nat, first_p95, last_p95)->Object_0);
    Ok(metrics)
}

/// The identifiers of deliveries are those of all events that have one of their
/// own for each delivery, in their order.
pub proof fn all_delivery_identifiers_are_seen(events: Seq<AuditedEvent>)
    ensures
        per_delivery_ids(events) == events.filter(
            |e: AuditedEvent| e.identity_quality == EventIdentityQuality::PerDelivery,
        ).map_values(|e: AuditedEvent| e.event_id@),
    decreases events.len(),
{
    reveal(Seq::filter);
    let kept = |e: AuditedEvent| e.identity_quality == EventIdentityQuality::PerDelivery;
    let told = |e: AuditedEvent| e.event_id@;
    if events.len() > 0 {
        let init = events.drop_last();
        all_delivery_identifiers_are_seen(init);
        if kept(events.last()) {
            assert(events.filter(kept) =~= init.filter(kept).push(events.last()));
            assert(events.filter(kept).map_values(told) =~= init.filter(kept).map_values(told).push(
                told(events.last()),
            ));
        } else {
            assert(events.filter(kept) =~= init.filter(kept));
        }
    } else {
        assert(per_delivery_ids(events) =~= events.filter(kept).map_values(told));
    }
}

/// The adapters pass exactly where none of them grants anything or blocks, wrong
/// types are refused, two deliveries are two events, and each says what it can
/// do.
pub proof fn adapters_pass_without_granting(seen: AdapterObservation)
    ensures
        adapter_failure(seen) is None <==> {
            &&& !(seen.codex_output@.member("hookSpecificOutput"@) is Some
                && seen.codex_output@.member("hookSpecificOutput"@)->0.text_member(
                "permissionDecision"@,
            ) == Some("allow"@))
            &&& seen.pi_output@.member("block"@) == Some(JsonView::Bool(false))
            &&& seen.opencode_output@.member("block"@) == Some(JsonView::Bool(false))
            &&& seen.dsh_output@.member("block"@) == Some(JsonView::Bool(false))
            &&& !seen.wrong_type_accepted
            &&& per_delivery_ids(seen.audited@).len() == 2
            &&& per_delivery_ids(seen.audited@)[0] != per_delivery_ids(seen.audited@)[1]
            &&& seen.opencode_continue_after_stop@ == "unsupported"@
            &&& seen.pi_continue_after_stop@ == "emulated"@
            &&& seen.dsh_continue_after_stop@ == "supported"@
            &&& seen.codex_deny_intent@ == "unsupported"@
        },
{
}

/// A repeated event is stored once, whoever repeats it, and two projects keep
/// their sessions to themselves.
pub proof fn repeats_converge_and_projects_stay_apart(
    seen: ReplayObservation,
    a: Seq<AuditRow>,
    b: Seq<AuditRow>,
)
    ensures
        converged(seen) <==> seen.inserted == 1 && seen.inserted + seen.duplicate == 80
            && seen.restart_duplicate && seen.collision_rejected && seen.rows == 1,
        isolated(a, b) ==> a.len() == 1 && b.len() == 1 && a[0].project_key@ != b[0].project_key@
            && a[0].session_key@ != b[0].session_key@,
{
    reveal_strlit("session-a");
    reveal_strlit("session-b");
    assert("session-a"@[8] == 'a' && "session-b"@[8] == 'b');
}

/// The operations found are those of all events of the kind, in their order.
pub proof fn all_operations_are_found(
    project: Seq<char>,
    events: Seq<FoundEvent>,
    finished: bool,
)
    ensures
        operations_found(project, events, finished) == events.filter(
            |e: FoundEvent| e.finished == finished && e.operation_id is Some,
        ).map_values(|e: FoundEvent| project + "/"@ + e.operation_id->0@),
    decreases events.len(),
{
    reveal(Seq::filter);
    let kept = |e: FoundEvent| e.finished == finished && e.operation_id is Some;
    let told = |e: FoundEvent| project + "/"@ + e.operation_id->0@;
    if events.len() > 0 {
        let init = events.drop_last();
        all_operations_are_found(project, init, finished);
        if kept(events.last()) {
            assert(events.filter(kept) =~= init.filter(kept).push(events.last()));
            assert(events.filter(kept).map_values(told) =~= init.filter(kept).map_values(told).push(
                told(events.last()),
            ));
        } else {
            assert(events.filter(kept) =~= init.filter(kept));
        }
    } else {
        assert(operations_found(project, events, finished) =~= events.filter(kept).map_values(
            told,
        ));
    }
}

/// Stopping passes exactly where the first stop is blocked, every one in the
/// agent's own loop is let through, and only the agent that can go on says so.
pub proof fn stop_loops_end(
    first: JsonView,
    active: Seq<Json>,
    pi: JsonView,
    opencode: JsonView,
)
    ensures
        stop_loop_failure(first, active, pi, opencode) is None <==> {
            &&& first.text_member("decision"@) == Some("block"@)
            &&& forall|i: int|
                0 <= i < active.len() ==> (#[trigger] active[i])@.member("continue"@) == Some(
                    JsonView::Bool(true),
                )
            &&& continuation_supported(pi) == Some(JsonView::Bool(true))
            &&& continuation_supported(opencode) == Some(JsonView::Bool(false))
        },
        pi.member("continuation"@) is Some ==> continuation_supported(pi) == pi.member(
            "continuation"@,
        )->0.member("supported"@),
{
}

/// A session stays stable exactly where all its events were stored and the last
/// ones took no longer than twice the first and a fixed allowance.
pub proof fn long_sessions_stay_fast(rows: nat, first: u64, last: u64)
    ensures
        2 * first + 50_000 <= u64::MAX ==> (stays_stable(rows, first, last) <==> rows == 10_000
            && last <= 2 * first + 50_000),
        stays_stable(rows, first, last) ==> rows == 10_000,
{
}

/// Numbers are padded with zeros in front to their width, and never cut.
pub proof fn numbers_are_padded_in_front(n: nat, width: nat)
    ensures
        padded(n, width).len() >= width,
        padded(n, width).len() >= text::decimal(n).len(),
        padded(n, width).len() > width ==> padded(n, width) == text::decimal(n),
        padded(n, width).skip(padded(n, width).len() - text::decimal(n).len()) == text::decimal(n),
        forall|i: int|
            0 <= i < padded(n, width).len() - text::decimal(n).len() ==> #[trigger] padded(
                n,
                width,
            )[i] == '0',
{
    assert(padded(n, width).skip(padded(n, width).len() - text::decimal(n).len())
        =~= text::decimal(n));
}

} // verus!
