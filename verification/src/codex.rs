//! The hooks of Codex, and of the agents whose hooks have the same form: what
//! they ask, in the form that decisions are made on, and how they are answered.
use crate::control::SessionOrigin;
use crate::digest;
use crate::error::{AppError, ErrorView};
use crate::event::{
    AdapterIdentity, EventIdentityQuality, HookEvent, HookEventPayload, IntentDeclared,
    IntentOrigin, InternalHookEvent, SessionOpenReason, SessionOpened, TaskStopping, ToolAboutToRun,
    ToolFinished,
};
use crate::json::{self, Json, JsonView};
use crate::model::{self, ActionKind, ImpactView, LineRange, ToolAction, ToolImpact, ToolStatus};
use crate::order;
use crate::shell;
use crate::text;
use vstd::prelude::*;

verus! {

broadcast use {vstd::string::group_string_axioms, vstd::seq::group_seq_axioms};

/// What a hook is handed.  Texts that were not given are empty, documents that
/// were not given are `null`.
#[derive(Debug, PartialEq, Eq)]
pub struct CodexHookInput {
    pub session_id: String,
    pub cwd: String,
    pub source: String,
    pub turn_id: String,
    pub prompt: String,
    pub tool_name: String,
    pub tool_use_id: String,
    pub tool_input: Json,
    pub tool_response: Json,
    pub last_assistant_message: Option<String>,
    pub stop_hook_active: bool,
}

impl CodexHookInput {
    pub fn cwd(&self) -> (r: &str)
        ensures
            r@ == self.cwd@,
    {
        self.cwd.as_str()
    }

    pub fn stop_hook_active(&self) -> (r: bool)
        ensures
            r == self.stop_hook_active,
    {
        self.stop_hook_active
    }
}

impl Default for CodexHookInput {
    fn default() -> (r: Self)
        ensures
            r.session_id@ == Seq::<char>::empty(),
            r.cwd@ == Seq::<char>::empty(),
            r.source@ == Seq::<char>::empty(),
            r.turn_id@ == Seq::<char>::empty(),
            r.prompt@ == Seq::<char>::empty(),
            r.tool_name@ == Seq::<char>::empty(),
            r.tool_use_id@ == Seq::<char>::empty(),
            r.tool_input@ == JsonView::Null,
            r.tool_response@ == JsonView::Null,
            r.last_assistant_message is None,
            !r.stop_hook_active,
    {
        CodexHookInput {
            session_id: String::new(),
            cwd: String::new(),
            source: String::new(),
            turn_id: String::new(),
            prompt: String::new(),
            tool_name: String::new(),
            tool_use_id: String::new(),
            tool_input: Json::Null,
            tool_response: Json::Null,
            last_assistant_message: None,
            stop_hook_active: false,
        }
    }
}

/// What a hook answers.
#[derive(Debug, PartialEq, Eq)]
pub struct CodexHookOutput(pub Json);

// ---------------------------------------------------------------------------
// Names of sessions, operations and events
// ---------------------------------------------------------------------------

/// What is hashed for a name.
pub open spec fn transcript(label: Seq<char>, parts: Seq<Seq<u8>>) -> Seq<u8> {
    vstd::utf8::encode_utf8("project-brain/internal-hook/v1\0"@) + vstd::utf8::encode_utf8(label)
        + digest::framed_le(parts)
}

/// A name under a label, made from parts.
pub open spec fn id_of(label: Seq<char>, parts: Seq<Seq<u8>>) -> Seq<char> {
    label + "_"@ + digest::sha256_hex(transcript(label, parts))
}

/// A text is the name under a label that is made from parts; their lengths are
/// numbers of the machine.
pub open spec fn names(id: Seq<char>, label: Seq<char>, parts: Seq<Seq<u8>>) -> bool {
    &&& id == id_of(label, parts)
    &&& id.len() == label.len() + 65
    &&& forall|i: int| 0 <= i < parts.len() ==> (#[trigger] parts[i]).len() <= u64::MAX
}

/// A name under a label, made from parts.
pub fn hash_id_bytes(label: &str, parts: &Vec<Vec<u8>>) -> (r: String)
    ensures
        names(r@, label@, digest::byte_views(parts@)),
{
    let mut bytes: Vec<u8> = Vec::new();
    digest::append_text(&mut bytes, "project-brain/internal-hook/v1\0");
    digest::append_text(&mut bytes, label);
    digest::append_framed_le(&mut bytes, parts);
    assert(bytes@ =~= transcript(label@, digest::byte_views(parts@)));
    let hex = digest::hash_bytes(bytes.as_slice());
    proof {
        reveal_strlit("_");
        assert forall|i: int| 0 <= i < parts@.len() implies (#[trigger] digest::byte_views(
            parts@,
        )[i]).len() <= u64::MAX by {
            assert(parts@[i]@.len() == parts@[i].len());
        }
    }
    text::cat3(label, "_", hex.as_str())
}

fn utf8_bytes(s: &str) -> (r: Vec<u8>)
    ensures
        r@ == vstd::utf8::encode_utf8(s@),
{
    let mut bytes: Vec<u8> = Vec::new();
    digest::append_text(&mut bytes, s);
    assert(bytes@ =~= vstd::utf8::encode_utf8(s@));
    bytes
}

/// A name under a label, made from texts.
pub fn hash_id(label: &str, parts: &Vec<&str>) -> (r: String)
    ensures
        names(r@, label@, digest::utf8_of(text::str_views(parts@))),
{
    let mut encoded: Vec<Vec<u8>> = Vec::new();
    let mut i: usize = 0;
    while i < parts.len()
        invariant
            i <= parts@.len(),
            encoded@.len() == i,
            forall|k: int|
                0 <= k < i ==> (#[trigger] encoded@[k])@ == vstd::utf8::encode_utf8(parts@[k]@),
        decreases parts@.len() - i,
    {
        encoded.push(utf8_bytes(parts[i]));
        i = i + 1;
    }
    assert(digest::byte_views(encoded@) =~= digest::utf8_of(text::str_views(parts@)));
    hash_id_bytes(label, &encoded)
}

/// What is hashed for a name under a label tells all of its parts apart.
pub proof fn names_tell_their_parts(label: Seq<char>, a: Seq<Seq<u8>>, b: Seq<Seq<u8>>)
    requires
        forall|i: int| 0 <= i < a.len() ==> (#[trigger] a[i]).len() <= u64::MAX,
        forall|i: int| 0 <= i < b.len() ==> (#[trigger] b[i]).len() <= u64::MAX,
        transcript(label, a) == transcript(label, b),
    ensures
        a == b,
{
    let head = vstd::utf8::encode_utf8("project-brain/internal-hook/v1\0"@)
        + vstd::utf8::encode_utf8(label);
    assert(transcript(label, a).skip(head.len() as int) =~= digest::framed_le(a));
    assert(transcript(label, b).skip(head.len() as int) =~= digest::framed_le(b));
    digest::framed_le_is_injective(a, b);
}

/// Nothing but white space.
pub open spec fn blank(s: Seq<char>) -> bool {
    text::trimmed(s).len() == 0
}

fn is_blank(s: &str) -> (r: bool)
    ensures
        r == blank(s@),
{
    text::length(text::trim(s).as_str()) == 0
}

/// The directory that a hook was called in: the project itself where it is
/// not told.
pub open spec fn cwd_of(root: Seq<char>, cwd: Seq<char>) -> Seq<char> {
    if blank(cwd) {
        root
    } else {
        cwd
    }
}

/// The directory that a hook was called in.
pub fn effective_cwd(root: &str, input: &CodexHookInput) -> (r: String)
    ensures
        r@ == cwd_of(root@, input.cwd@),
{
    if is_blank(input.cwd.as_str()) {
        return root.to_owned();
    }
    input.cwd.clone()
}

/// The session that a hook was called in: one made from the project and the
/// directory where it is not told.
pub open spec fn session_of(
    namespace: Seq<char>,
    project_key: Seq<char>,
    cwd: Seq<char>,
    session_id: Seq<char>,
) -> Seq<char> {
    if blank(session_id) {
        id_of(namespace + "_session"@, digest::utf8_of(seq![project_key, cwd]))
    } else {
        session_id
    }
}

/// The session that a hook was called in.
pub fn session_key(namespace: &str, project_key: &str, cwd: &str, input: &CodexHookInput) -> (r:
    String)
    ensures
        r@ == session_of(namespace@, project_key@, cwd@, input.session_id@),
{
    if is_blank(input.session_id.as_str()) {
        let label = text::cat2(namespace, "_session");
        let parts: Vec<&str> = vec![project_key, cwd];
        assert(text::str_views(parts@) =~= seq![project_key@, cwd@]);
        return hash_id(label.as_str(), &parts);
    }
    input.session_id.clone()
}

/// What tells one delivery of an event from another.
#[derive(Debug, Clone, Copy, PartialEq, Eq)]
pub struct DeliveryStamp {
    pub nonce: u128,
    pub sequence: u64,
    pub process_id: u32,
}

/// What an agent gives to tell events apart, where it does.
pub open spec fn stable_key(
    event: HookEvent,
    tool_use_id: Seq<char>,
    turn_id: Seq<char>,
) -> Option<(Seq<char>, EventIdentityQuality)> {
    if event.of_tool() && !blank(tool_use_id) {
        Some((tool_use_id, EventIdentityQuality::VendorStable))
    } else if event == HookEvent::UserPromptSubmit && !blank(turn_id) {
        Some((turn_id, EventIdentityQuality::DerivedStable))
    } else {
        None
    }
}

/// What names an event that an agent tells apart itself.
pub open spec fn stable_parts(
    project_key: Seq<char>,
    session: Seq<char>,
    event: HookEvent,
    key: Seq<char>,
) -> Seq<Seq<u8>> {
    digest::utf8_of(seq![project_key, session, event.event_name(), key])
}

/// What names an event that is told apart by its delivery.
pub open spec fn delivered_parts(
    project_key: Seq<char>,
    session: Seq<char>,
    event: HookEvent,
    stamp: DeliveryStamp,
) -> Seq<Seq<u8>> {
    digest::utf8_of(seq![project_key, session, event.event_name()]) + seq![
        vstd::bytes::spec_u128_to_le_bytes(stamp.nonce),
        vstd::bytes::spec_u64_to_le_bytes(stamp.sequence),
        vstd::bytes::spec_u32_to_le_bytes(stamp.process_id),
    ]
}

/// A result is the name of an event, and how far it can be relied on: the name
/// is made from what the agent gives to tell events apart, and only where it
/// gives nothing from the delivery.
pub open spec fn identified(
    r: Result<(String, EventIdentityQuality), AppError>,
    event: HookEvent,
    input: CodexHookInput,
    project_key: Seq<char>,
    session: Seq<char>,
    namespace: Seq<char>,
    stamp: Result<DeliveryStamp, String>,
) -> bool {
    match stable_key(event, input.tool_use_id@, input.turn_id@) {
        Some((key, quality)) => r matches Ok((id, q)) && q == quality && names(
            id@,
            namespace + "_event"@,
            stable_parts(project_key, session, event, key),
        ),
        None => match stamp {
            Ok(stamp) => r matches Ok((id, q)) && q == EventIdentityQuality::PerDelivery && names(
                id@,
                namespace + "_event"@,
                delivered_parts(project_key, session, event, stamp),
            ),
            Err(e) => r matches Err(error) && error@ == ErrorView::Clock(e@),
        },
    }
}

/// The name of an event, and how far it can be relied on when the event is
/// delivered again.  The stamp only matters where the agent tells nothing.
pub fn event_identity(
    event: HookEvent,
    input: &CodexHookInput,
    project_key: &str,
    session: &str,
    namespace: &str,
    stamp: &Result<DeliveryStamp, String>,
) -> (r: Result<(String, EventIdentityQuality), AppError>)
    ensures
        identified(r, event, *input, project_key@, session@, namespace@, *stamp),
{
    let label = text::cat2(namespace, "_event");
    let name = event.name();
    let of_tool = match event {
        HookEvent::PreToolUse => true,
        HookEvent::PostToolUse => true,
        _ => false,
    };
    let of_prompt = match event {
        HookEvent::UserPromptSubmit => true,
        _ => false,
    };
    if of_tool && !is_blank(input.tool_use_id.as_str()) {
        let parts: Vec<&str> = vec![project_key, session, name, input.tool_use_id.as_str()];
        assert(text::str_views(parts@) =~= seq![
            project_key@,
            session@,
            name@,
            input.tool_use_id@,
        ]);
        return Ok((hash_id(label.as_str(), &parts), EventIdentityQuality::VendorStable));
    }
    if of_prompt && !is_blank(input.turn_id.as_str()) {
        let parts: Vec<&str> = vec![project_key, session, name, input.turn_id.as_str()];
        assert(text::str_views(parts@) =~= seq![project_key@, session@, name@, input.turn_id@]);
        return Ok((hash_id(label.as_str(), &parts), EventIdentityQuality::DerivedStable));
    }
    match stamp {
        Err(e) => Err(AppError::Clock(e.clone())),
        Ok(stamp) => {
            let mut parts: Vec<Vec<u8>> = Vec::new();
            parts.push(utf8_bytes(project_key));
            parts.push(utf8_bytes(session));
            parts.push(utf8_bytes(name));
            parts.push(vstd::bytes::u128_to_le_bytes(stamp.nonce));
            parts.push(vstd::bytes::u64_to_le_bytes(stamp.sequence));
            parts.push(vstd::bytes::u32_to_le_bytes(stamp.process_id));
            assert(digest::byte_views(parts@) =~= digest::utf8_of(
                seq![project_key@, session@, name@],
            ) + seq![
                vstd::bytes::spec_u128_to_le_bytes(stamp.nonce),
                vstd::bytes::spec_u64_to_le_bytes(stamp.sequence),
                vstd::bytes::spec_u32_to_le_bytes(stamp.process_id),
            ]);
            Ok((hash_id_bytes(label.as_str(), &parts), EventIdentityQuality::PerDelivery))
        },
    }
}

/// The name of an operation: made from the agent's own where it gives one, and
/// from everything that is known of the operation where it does not.
pub open spec fn operation_of(
    namespace: Seq<char>,
    project_key: Seq<char>,
    session: Seq<char>,
    input: CodexHookInput,
    action_json: Seq<u8>,
) -> Seq<char> {
    if blank(input.tool_use_id@) {
        id_of(
            namespace + "_operation"@,
            digest::utf8_of(
                seq![
                    input.session_id@,
                    project_key,
                    session,
                    input.turn_id@,
                    input.tool_name@,
                ],
            ).push(action_json),
        )
    } else {
        id_of(
            namespace + "_operation"@,
            digest::utf8_of(seq![project_key, session, input.tool_use_id@]),
        )
    }
}

/// The name of an operation, given the canonical JSON form of its action.
pub fn operation_id(
    namespace: &str,
    project_key: &str,
    session: &str,
    input: &CodexHookInput,
    action_json: &Vec<u8>,
) -> (r: String)
    ensures
        r@ == operation_of(namespace@, project_key@, session@, *input, action_json@),
{
    let label = text::cat2(namespace, "_operation");
    if is_blank(input.tool_use_id.as_str()) {
        let mut parts: Vec<Vec<u8>> = Vec::new();
        parts.push(utf8_bytes(input.session_id.as_str()));
        parts.push(utf8_bytes(project_key));
        parts.push(utf8_bytes(session));
        parts.push(utf8_bytes(input.turn_id.as_str()));
        parts.push(utf8_bytes(input.tool_name.as_str()));
        let mut copy: Vec<u8> = Vec::new();
        digest::append_bytes(&mut copy, action_json.as_slice());
        assert(copy@ =~= action_json@);
        parts.push(copy);
        assert(digest::byte_views(parts@) =~= digest::utf8_of(
            seq![input.session_id@, project_key@, session@, input.turn_id@, input.tool_name@],
        ).push(action_json@));
        return hash_id_bytes(label.as_str(), &parts);
    }
    let parts: Vec<&str> = vec![project_key, session, input.tool_use_id.as_str()];
    assert(text::str_views(parts@) =~= seq![project_key@, session@, input.tool_use_id@]);
    hash_id(label.as_str(), &parts)
}

// ---------------------------------------------------------------------------
// Targets
// ---------------------------------------------------------------------------

/// A text, as a list of at most one.
pub open spec fn at_most_one(t: Option<Seq<char>>) -> Seq<Seq<char>> {
    match t {
        Some(t) => seq![t],
        None => Seq::empty(),
    }
}

/// The paths that a tool is handed by name.
pub open spec fn named_paths(input: JsonView) -> Seq<Seq<char>> {
    at_most_one(input.text_member("path"@)) + at_most_one(input.text_member("file"@))
        + at_most_one(input.text_member("file_path"@)) + at_most_one(
        input.text_member("target_file"@),
    ) + match input.member("paths"@) {
        Some(JsonView::Array(items)) => json::texts_among(items),
        _ => Seq::empty(),
    }
}

/// The path behind a marker at the front of a line of a patch.
pub open spec fn marked_path(line: Seq<char>, marker: Seq<char>) -> Option<Seq<char>> {
    match text::after_prefix(text::trimmed(line), marker) {
        Some(rest) => Some(text::trimmed(rest)),
        None => None,
    }
}

/// The paths behind some markers in a line of a patch.
pub open spec fn paths_in_line(line: Seq<char>, markers: Seq<Seq<char>>) -> Seq<Seq<char>>
    decreases markers.len(),
{
    if markers.len() == 0 {
        Seq::empty()
    } else {
        paths_in_line(line, markers.drop_last()) + at_most_one(marked_path(line, markers.last()))
    }
}

/// The paths behind some markers in the lines of a patch.
pub open spec fn paths_in_lines(lines: Seq<Seq<char>>, markers: Seq<Seq<char>>) -> Seq<Seq<char>>
    decreases lines.len(),
{
    if lines.len() == 0 {
        Seq::empty()
    } else {
        paths_in_lines(lines.drop_last(), markers) + paths_in_line(lines.last(), markers)
    }
}

/// The markers of the files that a patch touches.
pub open spec fn patch_markers() -> Seq<Seq<char>> {
    seq!["*** Add File:"@, "*** Update File:"@, "*** Delete File:"@]
}

/// The markers of the files that a patch touches as a whole.
pub open spec fn whole_markers() -> Seq<Seq<char>> {
    seq!["*** Add File:"@, "*** Delete File:"@]
}

/// The files that a tool is told to touch.
pub open spec fn target_files(input: JsonView) -> Seq<Seq<char>> {
    named_paths(input) + match input.text_member("command"@) {
        Some(command) => paths_in_lines(text::lines_of(command), patch_markers()),
        None => Seq::empty(),
    }
}

fn push_text_member(input: &Json, key: &str, out: &mut Vec<String>)
    ensures
        text::views(final(out)@) == text::views(old(out)@) + at_most_one(
            input@.text_member(key@),
        ),
{
    match input.get_text(key) {
        Some(t) => {
            out.push(t.to_owned());
            assert(text::views(out@) =~= text::views(old(out)@) + seq![t@]);
        },
        None => {
            assert(text::views(out@) =~= text::views(old(out)@) + Seq::<Seq<char>>::empty());
        },
    }
}

fn extract_named_paths(input: &Json, out: &mut Vec<String>)
    ensures
        text::views(final(out)@) == text::views(old(out)@) + named_paths(input@),
{
    push_text_member(input, "path", out);
    push_text_member(input, "file", out);
    push_text_member(input, "file_path", out);
    push_text_member(input, "target_file", out);
    match input.get("paths") {
        Some(paths) => {
            paths.append_texts(out);
        },
        None => {},
    }
    assert(text::views(out@) =~= text::views(old(out)@) + named_paths(input@));
}

fn push_marked_paths(line: &Vec<char>, markers: &Vec<&str>, out: &mut Vec<String>)
    ensures
        text::views(final(out)@) == text::views(old(out)@) + paths_in_line(
            line@,
            text::str_views(markers@),
        ),
{
    let trimmed = text::trim_chars(line);
    let shown = text::text_of(trimmed.as_slice());
    let ghost all = text::str_views(markers@);
    let ghost before = text::views(out@);
    let mut i: usize = 0;
    assert(all.take(0) =~= Seq::<Seq<char>>::empty());
    assert(text::views(out@) =~= before + paths_in_line(line@, all.take(0)));
    while i < markers.len()
        invariant
            i <= markers@.len(),
            all == text::str_views(markers@),
            shown@ == text::trimmed(line@),
            text::views(out@) == before + paths_in_line(line@, all.take(i as int)),
        decreases markers@.len() - i,
    {
        assert(all.take(i + 1).drop_last() =~= all.take(i as int));
        assert(all.take(i + 1).last() == markers@[i as int]@);
        let ghost so_far = text::views(out@);
        match text::strip_prefix(shown.as_str(), markers[i]) {
            Some(rest) => {
                let path = text::trim(rest.as_str());
                out.push(path);
                assert(text::views(out@) =~= so_far + seq![path@]);
            },
            None => {
                assert(text::views(out@) =~= so_far + Seq::<Seq<char>>::empty());
            },
        }
        assert(text::views(out@) =~= before + paths_in_line(line@, all.take(i + 1)));
        i = i + 1;
    }
    assert(all.take(all.len() as int) =~= all);
}

fn extract_patch_paths(command: &str, markers: &Vec<&str>, out: &mut Vec<String>)
    ensures
        text::views(final(out)@) == text::views(old(out)@) + paths_in_lines(
            text::lines_of(command@),
            text::str_views(markers@),
        ),
{
    let chars = text::chars_of(command);
    let lines = text::split_lines(&chars);
    let ghost all = text::lines_of(command@);
    let ghost names = text::str_views(markers@);
    let ghost before = text::views(out@);
    let mut i: usize = 0;
    assert(all.take(0) =~= Seq::<Seq<char>>::empty());
    assert(text::views(out@) =~= before + paths_in_lines(all.take(0), names));
    while i < lines.len()
        invariant
            i <= lines@.len(),
            all == text::char_views(lines@),
            names == text::str_views(markers@),
            text::views(out@) == before + paths_in_lines(all.take(i as int), names),
        decreases lines@.len() - i,
    {
        assert(all.take(i + 1).drop_last() =~= all.take(i as int));
        assert(all.take(i + 1).last() == lines@[i as int]@);
        push_marked_paths(&lines[i], markers, out);
        assert(text::views(out@) =~= before + paths_in_lines(all.take(i + 1), names));
        i = i + 1;
    }
    assert(all.take(all.len() as int) =~= all);
}

/// The files that a tool is told to touch: those it is handed by name, and
/// those that a patch names.
pub fn extract_target_files(tool_input: &Json) -> (r: Vec<String>)
    ensures
        text::views(r@) == target_files(tool_input@),
{
    let mut out: Vec<String> = Vec::new();
    assert(text::views(out@) =~= Seq::<Seq<char>>::empty());
    extract_named_paths(tool_input, &mut out);
    match tool_input.get_text("command") {
        Some(command) => {
            let markers: Vec<&str> = vec![
                "*** Add File:",
                "*** Update File:",
                "*** Delete File:",
            ];
            assert(text::str_views(markers@) =~= patch_markers());
            extract_patch_paths(command, &markers, &mut out);
        },
        None => {},
    }
    assert(text::views(out@) =~= target_files(tool_input@));
    out
}

/// All that a tool is told to touch or to delete, each once and in order.
pub open spec fn all_targets(input: JsonView) -> Seq<Seq<char>> {
    order::sorted_set_of(
        target_files(input) + match input.text_member("command"@) {
            Some(command) => shell::deleted_paths(command),
            None => Seq::empty(),
        },
    )
}

/// All that a tool is told to touch or to delete, each once and in order.
pub fn raw_targets(tool_input: &Json) -> (r: Vec<String>)
    ensures
        text::views(r@) == all_targets(tool_input@),
{
    let mut targets = extract_target_files(tool_input);
    let ghost before = text::views(targets@);
    match tool_input.get_text("command") {
        Some(command) => {
            let deleted = shell::extract_destructive_command_paths(command);
            let mut i: usize = 0;
            let ghost more = text::views(deleted@);
            assert(text::views(targets@) =~= before + more.take(0));
            while i < deleted.len()
                invariant
                    i <= deleted@.len(),
                    more == text::views(deleted@),
                    text::views(targets@) == before + more.take(i as int),
                decreases deleted@.len() - i,
            {
                let ghost so_far = text::views(targets@);
                targets.push(deleted[i].clone());
                assert(text::views(targets@) =~= so_far.push(more[i as int]));
                assert(text::views(targets@) =~= before + more.take(i + 1));
                i = i + 1;
            }
            assert(more.take(more.len() as int) =~= more);
        },
        None => {
            assert(before + Seq::<Seq<char>>::empty() =~= before);
        },
    }
    order::sorted_set(&targets)
}

// ---------------------------------------------------------------------------
// What kind of action a tool takes
// ---------------------------------------------------------------------------

/// What kind of action a shell command takes.
pub open spec fn shell_kind(command: Seq<char>) -> ActionKind {
    let low = text::lowered(command);
    if shell::deleted_paths(low).len() > 0 {
        ActionKind::Delete
    } else if text::occurs(low, "git "@) || text::begins(low, "git"@) {
        ActionKind::GitOperation
    } else if text::occurs(low, "remove-item"@) || text::occurs(low, "rm "@) || text::occurs(
        low,
        "unlink "@,
    ) || text::occurs(low, "del "@) || text::occurs(low, "erase "@) {
        ActionKind::Delete
    } else {
        ActionKind::Execute
    }
}

/// What kind of action an editor's command takes.
pub open spec fn editor_kind(command: Seq<char>) -> ActionKind {
    let low = text::lowered(command);
    if low == "view"@ {
        ActionKind::Read
    } else if low == "create"@ {
        ActionKind::Create
    } else if low == "str_replace"@ || low == "insert"@ {
        ActionKind::Modify
    } else {
        ActionKind::Unknown
    }
}

/// What kind of action a patch takes.
pub open spec fn patch_kind(command: Seq<char>) -> ActionKind {
    if text::occurs(command, "*** Delete File:"@) {
        ActionKind::Delete
    } else if text::occurs(command, "*** Add File:"@) && !text::occurs(
        command,
        "*** Update File:"@,
    ) {
        ActionKind::Create
    } else {
        ActionKind::Modify
    }
}

/// What kind of action a tool takes.
pub open spec fn kind_of(
    tool_name: Seq<char>,
    command: Option<Seq<char>>,
    first_target_exists: bool,
) -> ActionKind {
    let tool = text::lowered(tool_name);
    let given = match command {
        Some(c) => c,
        None => Seq::empty(),
    };
    if tool == "write"@ {
        if first_target_exists {
            ActionKind::Modify
        } else {
            ActionKind::Create
        }
    } else if tool == "apply_patch"@ || tool == "edit"@ {
        patch_kind(given)
    } else if tool == "str_replace_editor"@ {
        editor_kind(given)
    } else if tool == "bash"@ || tool == "pwsh"@ || tool == "shell_command"@ {
        shell_kind(given)
    } else if text::occurs(tool, "read"@) || text::occurs(tool, "search"@) || text::occurs(
        tool,
        "find"@,
    ) {
        ActionKind::Read
    } else {
        ActionKind::Unknown
    }
}

fn classify_shell(command: &str) -> (r: ActionKind)
    ensures
        r == shell_kind(command@),
{
    let low = text::to_lower(command);
    let deleted = shell::extract_destructive_command_paths(low.as_str());
    if deleted.len() > 0 {
        assert(text::views(deleted@).len() == deleted@.len());
        return ActionKind::Delete;
    }
    assert(text::views(deleted@).len() == deleted@.len());
    let chars = text::chars_of(low.as_str());
    if text::chars_contain(&chars, "git ") || text::chars_begin(&chars, "git") {
        return ActionKind::GitOperation;
    }
    if text::chars_contain(&chars, "remove-item") || text::chars_contain(&chars, "rm ")
        || text::chars_contain(&chars, "unlink ") || text::chars_contain(&chars, "del ")
        || text::chars_contain(&chars, "erase ") {
        return ActionKind::Delete;
    }
    ActionKind::Execute
}

fn classify_editor(command: &str) -> (r: ActionKind)
    ensures
        r == editor_kind(command@),
{
    let low = text::to_lower(command);
    if text::same(low.as_str(), "view") {
        ActionKind::Read
    } else if text::same(low.as_str(), "create") {
        ActionKind::Create
    } else if text::same(low.as_str(), "str_replace") || text::same(low.as_str(), "insert") {
        ActionKind::Modify
    } else {
        ActionKind::Unknown
    }
}

fn classify_patch(command: &str) -> (r: ActionKind)
    ensures
        r == patch_kind(command@),
{
    let chars = text::chars_of(command);
    if text::chars_contain(&chars, "*** Delete File:") {
        ActionKind::Delete
    } else if text::chars_contain(&chars, "*** Add File:") && !text::chars_contain(
        &chars,
        "*** Update File:",
    ) {
        ActionKind::Create
    } else {
        ActionKind::Modify
    }
}

/// What kind of action a tool takes, given whether the first of its targets
/// exists.
pub fn classify_action(tool_name: &str, command: Option<&str>, first_target_exists: bool) -> (r:
    ActionKind)
    ensures
        r == kind_of(
            tool_name@,
            match command {
                Some(c) => Some(c@),
                None => None,
            },
            first_target_exists,
        ),
{
    let none = String::new();
    let given: &str = match command {
        Some(c) => c,
        None => none.as_str(),
    };
    assert(given@ =~= match command {
        Some(c) => c@,
        None => Seq::empty(),
    });
    let tool = text::to_lower(tool_name);
    if text::same(tool.as_str(), "write") {
        return if first_target_exists {
            ActionKind::Modify
        } else {
            ActionKind::Create
        };
    }
    if text::same(tool.as_str(), "apply_patch") || text::same(tool.as_str(), "edit") {
        return classify_patch(given);
    }
    if text::same(tool.as_str(), "str_replace_editor") {
        return classify_editor(given);
    }
    if text::same(tool.as_str(), "bash") || text::same(tool.as_str(), "pwsh") || text::same(
        tool.as_str(),
        "shell_command",
    ) {
        return classify_shell(given);
    }
    let chars = text::chars_of(tool.as_str());
    if text::chars_contain(&chars, "read") || text::chars_contain(&chars, "search")
        || text::chars_contain(&chars, "find") {
        return ActionKind::Read;
    }
    ActionKind::Unknown
}

// ---------------------------------------------------------------------------
// What a tool certainly touches
// ---------------------------------------------------------------------------

/// What a tool is told to touch, as far as it is certain before it runs: files
/// as a whole, those that a patch adds or deletes, the place of an insertion,
/// or a text that is replaced.
#[derive(Debug, Clone, PartialEq, Eq)]
pub enum ImpactPlan {
    Nothing,
    Whole { paths: Vec<String> },
    Patch { paths: Vec<String> },
    Insertion { path: String, line: usize },
    Replacement { path: String, old: String },
}

/// What a tool is told to touch.
pub enum PlanView {
    Nothing,
    Whole(Seq<Seq<char>>),
    Patch(Seq<Seq<char>>),
    Insertion(Seq<char>, usize),
    Replacement(Seq<char>, Seq<char>),
}

impl View for ImpactPlan {
    type V = PlanView;

    open spec fn view(&self) -> PlanView {
        match self {
            ImpactPlan::Nothing => PlanView::Nothing,
            ImpactPlan::Whole { paths } => PlanView::Whole(text::views(paths@)),
            ImpactPlan::Patch { paths } => PlanView::Patch(text::views(paths@)),
            ImpactPlan::Insertion { path, line } => PlanView::Insertion(path@, *line),
            ImpactPlan::Replacement { path, old } => PlanView::Replacement(path@, old@),
        }
    }
}

impl PlanView {
    /// The paths that a plan speaks of.
    pub open spec fn paths(self) -> Seq<Seq<char>> {
        match self {
            PlanView::Nothing => Seq::empty(),
            PlanView::Whole(paths) => paths,
            PlanView::Patch(paths) => paths,
            PlanView::Insertion(path, _) => seq![path],
            PlanView::Replacement(path, _) => seq![path],
        }
    }
}

/// The text of a member, or of another where there is no such member.
pub open spec fn text_of_either(input: JsonView, first: Seq<char>, second: Seq<char>) -> Option<
    Seq<char>,
> {
    match input.member(first) {
        Some(v) => v.text(),
        None => input.text_member(second),
    }
}

/// The line that a member names, where it is a number that a line can have.
pub open spec fn line_member(input: JsonView, key: Seq<char>) -> Option<usize> {
    match input.member(key) {
        Some(JsonView::Integer(n)) => if 0 <= n <= u64::MAX && n <= usize::MAX {
            Some(n as usize)
        } else {
            None
        },
        _ => None,
    }
}

/// What a tool is told to touch.
pub open spec fn plan_of(tool_name: Seq<char>, input: JsonView) -> PlanView {
    let tool = text::lowered(tool_name);
    let editor = tool == "str_replace_editor"@;
    let command = match input.text_member("command"@) {
        Some(c) => c,
        None => Seq::empty(),
    };
    if tool == "write"@ || (editor && command == "create"@) {
        PlanView::Whole(target_files(input))
    } else if tool == "apply_patch"@ {
        PlanView::Patch(paths_in_lines(text::lines_of(command), whole_markers()))
    } else if editor && command == "insert"@ {
        match (input.text_member("path"@), line_member(input, "insert_line"@)) {
            (Some(path), Some(line)) => PlanView::Insertion(path, line),
            _ => PlanView::Nothing,
        }
    } else if tool == "edit"@ || (editor && command == "str_replace"@) {
        match (
            text_of_either(input, "file_path"@, "path"@),
            text_of_either(input, "old_string"@, "old_str"@),
        ) {
            (Some(path), Some(old)) => if old.len() > 0 {
                PlanView::Replacement(path, old)
            } else {
                PlanView::Nothing
            },
            _ => PlanView::Nothing,
        }
    } else {
        PlanView::Nothing
    }
}

fn get_text_of_either<'a>(input: &'a Json, first: &str, second: &str) -> (r: Option<&'a str>)
    ensures
        match r {
            Some(t) => text_of_either(input@, first@, second@) == Some(t@),
            None => text_of_either(input@, first@, second@) is None,
        },
{
    match input.get(first) {
        Some(v) => v.as_text(),
        None => input.get_text(second),
    }
}

fn get_line(input: &Json, key: &str) -> (r: Option<usize>)
    ensures
        r == line_member(input@, key@),
{
    match input.get(key) {
        Some(v) => match v.as_integer() {
            Some(n) => {
                if n >= 0 && n <= u64::MAX as i128 && n <= usize::MAX as i128 {
                    Some(n as usize)
                } else {
                    None
                }
            },
            None => None,
        },
        None => None,
    }
}

/// What a tool is told to touch, as far as it is certain before it runs.
pub fn impact_plan(tool_name: &str, tool_input: &Json) -> (r: ImpactPlan)
    ensures
        r@ == plan_of(tool_name@, tool_input@),
{
    let tool = text::to_lower(tool_name);
    let editor = text::same(tool.as_str(), "str_replace_editor");
    let none = String::new();
    let command: &str = match tool_input.get_text("command") {
        Some(c) => c,
        None => none.as_str(),
    };
    assert(command@ =~= match tool_input@.text_member("command"@) {
        Some(c) => c,
        None => Seq::empty(),
    });
    if text::same(tool.as_str(), "write") || (editor && text::same(command, "create")) {
        return ImpactPlan::Whole { paths: extract_target_files(tool_input) };
    }
    if text::same(tool.as_str(), "apply_patch") {
        let mut paths: Vec<String> = Vec::new();
        let markers: Vec<&str> = vec!["*** Add File:", "*** Delete File:"];
        assert(text::str_views(markers@) =~= whole_markers());
        extract_patch_paths(command, &markers, &mut paths);
        assert(text::views(paths@) =~= paths_in_lines(
            text::lines_of(command@),
            whole_markers(),
        ));
        return ImpactPlan::Patch { paths };
    }
    if editor && text::same(command, "insert") {
        return match (tool_input.get_text("path"), get_line(tool_input, "insert_line")) {
            (Some(path), Some(line)) => ImpactPlan::Insertion { path: path.to_owned(), line },
            _ => ImpactPlan::Nothing,
        };
    }
    if text::same(tool.as_str(), "edit") || (editor && text::same(command, "str_replace")) {
        return match (
            get_text_of_either(tool_input, "file_path", "path"),
            get_text_of_either(tool_input, "old_string", "old_str"),
        ) {
            (Some(path), Some(old)) => {
                if text::length(old) > 0 {
                    ImpactPlan::Replacement { path: path.to_owned(), old: old.to_owned() }
                } else {
                    ImpactPlan::Nothing
                }
            },
            _ => ImpactPlan::Nothing,
        };
    }
    ImpactPlan::Nothing
}

impl ImpactPlan {
    /// The paths that a plan speaks of.
    pub fn paths(&self) -> (r: Vec<String>)
        ensures
            text::views(r@) == self@.paths(),
    {
        match self {
            ImpactPlan::Nothing => {
                let out: Vec<String> = Vec::new();
                assert(text::views(out@) =~= Seq::<Seq<char>>::empty());
                out
            },
            ImpactPlan::Whole { paths } => text::clone_texts(paths),
            ImpactPlan::Patch { paths } => text::clone_texts(paths),
            ImpactPlan::Insertion { path, line: _ } => one_text(path),
            ImpactPlan::Replacement { path, old: _ } => one_text(path),
        }
    }
}

fn one_text(s: &String) -> (r: Vec<String>)
    ensures
        text::views(r@) == seq![s@],
{
    let mut out: Vec<String> = Vec::new();
    out.push(s.clone());
    assert(text::views(out@) =~= seq![s@]);
    out
}

/// How many line feeds stand in a text.
pub open spec fn line_feeds(s: Seq<char>) -> nat
    decreases s.len(),
{
    if s.len() == 0 {
        0
    } else {
        line_feeds(s.drop_last()) + if s.last() == '\n' {
            1nat
        } else {
            0
        }
    }
}

proof fn line_feeds_bounded(s: Seq<char>)
    ensures
        line_feeds(s) <= s.len(),
    decreases s.len(),
{
    if s.len() > 0 {
        line_feeds_bounded(s.drop_last());
    }
}

fn count_line_feeds(s: &Vec<char>, to: usize) -> (r: usize)
    requires
        to <= s@.len(),
    ensures
        r == line_feeds(s@.take(to as int)),
        r <= to,
{
    let mut count: usize = 0;
    let mut i: usize = 0;
    assert(s@.take(0) =~= Seq::<char>::empty());
    while i < to
        invariant
            i <= to <= s@.len(),
            count == line_feeds(s@.take(i as int)),
            count <= i,
        decreases to - i,
    {
        assert(s@.take(i + 1).drop_last() =~= s@.take(i as int));
        if s[i] == '\n' {
            count = count + 1;
        }
        i = i + 1;
    }
    count
}

/// A text stands at a place, not before it, and not again behind it.
pub open spec fn stands_once(source: Seq<char>, old: Seq<char>, at: int) -> bool {
    &&& text::occurs_at(source, old, at)
    &&& forall|j: int| 0 <= j < at ==> !text::occurs_at(source, old, j)
    &&& forall|j: int| at + old.len() <= j ==> !text::occurs_at(source, old, j)
}

/// The only place where a text stands.
pub open spec fn only_place(source: Seq<char>, old: Seq<char>) -> Option<int> {
    if exists|at: int| stands_once(source, old, at) {
        Some(choose|at: int| stands_once(source, old, at))
    } else {
        None
    }
}

proof fn place_is_only(source: Seq<char>, old: Seq<char>, at: int)
    requires
        stands_once(source, old, at),
    ensures
        only_place(source, old) == Some(at),
{
    let other = only_place(source, old)->0;
    assert(stands_once(source, old, other));
    if other < at {
        assert(!text::occurs_at(source, old, other));
    } else if at < other {
        assert(!text::occurs_at(source, old, at));
    }
}

fn find_only_place(source: &Vec<char>, old: &Vec<char>) -> (r: Option<usize>)
    requires
        old@.len() > 0,
    ensures
        match r {
            Some(at) => only_place(source@, old@) == Some(at as int) && at + old@.len()
                <= source@.len(),
            None => only_place(source@, old@) is None,
        },
{
    match text::find_from(source, old, 0) {
        None => {
            assert(forall|at: int| !stands_once(source@, old@, at));
            None
        },
        Some(at) => {
            let n: usize = source.len();
            assert(at + old@.len() <= n);
            let behind: usize = at + old.len();
            match text::find_from(source, old, behind) {
                None => {
                    proof {
                        place_is_only(source@, old@, at as int);
                    }
                    Some(at)
                },
                Some(again) => {
                    assert forall|other: int| !stands_once(source@, old@, other) by {
                        if stands_once(source@, old@, other) {
                            if other < at {
                                assert(!text::occurs_at(source@, old@, other));
                            } else if other > at {
                                assert(!text::occurs_at(source@, old@, at as int));
                            } else {
                                assert(!text::occurs_at(source@, old@, again as int));
                            }
                        }
                    }
                    None
                },
            }
        },
    }
}

/// Files touched as a whole.
pub open spec fn whole_files(paths: Seq<Seq<char>>) -> Seq<ImpactView> {
    paths.map_values(
        |path: Seq<char>|
            ImpactView { path, whole_file: true, ranges: Seq::<LineRange>::empty() },
    )
}

/// A number and one more, at most the largest there is.
pub open spec fn one_more(n: usize) -> usize {
    if n == usize::MAX {
        n
    } else {
        (n + 1) as usize
    }
}

/// One range of lines of a file.
pub open spec fn one_range(path: Seq<char>, start_line: usize, end_line: usize) -> Seq<ImpactView> {
    seq![
        ImpactView {
            path,
            whole_file: false,
            ranges: seq![LineRange { start_line, end_line }],
        },
    ]
}

/// What a plan certainly touches, given the paths that it speaks of as they
/// are in the project, and what stands in the file of a replacement.
pub open spec fn impacts_of(
    plan: PlanView,
    relative: Seq<Seq<char>>,
    source: Option<Seq<char>>,
) -> Seq<ImpactView> {
    match plan {
        PlanView::Nothing => Seq::empty(),
        PlanView::Whole(_) => whole_files(relative),
        PlanView::Patch(_) => whole_files(order::sorted_set_of(relative)),
        PlanView::Insertion(_, line) => one_range(relative[0], one_more(line), one_more(line)),
        PlanView::Replacement(_, old) => match source {
            None => Seq::empty(),
            Some(source) => match only_place(source, old) {
                None => Seq::empty(),
                Some(at) => {
                    let start = line_feeds(source.take(at)) + 1;
                    one_range(relative[0], start as usize, (start + line_feeds(old)) as usize)
                },
            },
        },
    }
}

fn whole_impacts(paths: &Vec<String>) -> (r: Vec<ToolImpact>)
    ensures
        model::impact_views(r@) == whole_files(text::views(paths@)),
{
    let mut out: Vec<ToolImpact> = Vec::new();
    let mut i: usize = 0;
    while i < paths.len()
        invariant
            i <= paths@.len(),
            out@.len() == i,
            forall|k: int|
                0 <= k < i ==> (#[trigger] out@[k])@ == (ImpactView {
                    path: paths@[k]@,
                    whole_file: true,
                    ranges: Seq::<LineRange>::empty(),
                }),
        decreases paths@.len() - i,
    {
        let impact = ToolImpact { path: paths[i].clone(), whole_file: true, ranges: Vec::new() };
        assert(impact.ranges@ =~= Seq::<LineRange>::empty());
        out.push(impact);
        i = i + 1;
    }
    assert(model::impact_views(out@) =~= whole_files(text::views(paths@)));
    out
}

fn range_impact(path: &String, start_line: usize, end_line: usize) -> (r: Vec<ToolImpact>)
    ensures
        model::impact_views(r@) == one_range(path@, start_line, end_line),
{
    let mut ranges: Vec<LineRange> = Vec::new();
    ranges.push(LineRange { start_line, end_line });
    assert(ranges@ =~= seq![LineRange { start_line, end_line }]);
    let mut out: Vec<ToolImpact> = Vec::new();
    out.push(ToolImpact { path: path.clone(), whole_file: false, ranges });
    assert(model::impact_views(out@) =~= one_range(path@, start_line, end_line));
    out
}

fn no_impacts() -> (r: Vec<ToolImpact>)
    ensures
        model::impact_views(r@) == Seq::<ImpactView>::empty(),
{
    let out: Vec<ToolImpact> = Vec::new();
    assert(model::impact_views(out@) =~= Seq::<ImpactView>::empty());
    out
}

/// What a plan certainly touches.  A replacement counts only where what it
/// replaces stands in the file once.
pub fn deterministic_impacts(
    plan: &ImpactPlan,
    relative: &Vec<String>,
    source: &Option<String>,
) -> (r: Vec<ToolImpact>)
    requires
        relative@.len() == plan@.paths().len(),
        source matches Some(s) ==> s@.len() < usize::MAX,
        plan@ matches PlanView::Replacement(_, old) ==> old.len() > 0,
    ensures
        model::impact_views(r@) == impacts_of(
            plan@,
            text::views(relative@),
            model::opt_view(*source),
        ),
{
    match plan {
        ImpactPlan::Nothing => no_impacts(),
        ImpactPlan::Whole { paths: _ } => whole_impacts(relative),
        ImpactPlan::Patch { paths: _ } => {
            let sorted = order::sorted_set(relative);
            whole_impacts(&sorted)
        },
        ImpactPlan::Insertion { path: _, line } => {
            let at: usize = if *line == usize::MAX {
                *line
            } else {
                *line + 1
            };
            assert(text::views(relative@)[0] == relative@[0]@);
            range_impact(&relative[0], at, at)
        },
        ImpactPlan::Replacement { path: _, old } => match source {
            None => no_impacts(),
            Some(source) => {
                let chars = text::chars_of(source.as_str());
                let wanted = text::chars_of(old.as_str());
                match find_only_place(&chars, &wanted) {
                    None => no_impacts(),
                    Some(at) => {
                        let before = count_line_feeds(&chars, at);
                        let within = count_line_feeds(&wanted, wanted.len());
                        assert(wanted@.take(wanted@.len() as int) =~= wanted@);
                        assert(text::views(relative@)[0] == relative@[0]@);
                        range_impact(&relative[0], before + 1, before + 1 + within)
                    },
                }
            },
        },
    }
}

proof fn plans_replace_something(tool_name: Seq<char>, input: JsonView)
    ensures
        plan_of(tool_name, input) matches PlanView::Replacement(_, old) ==> old.len() > 0,
{
}

/// An edit is only taken to touch lines that hold what it replaces: where it
/// touches anything, the replaced text stands at one place of the file and
/// nowhere else, and the lines are those of that place.
pub proof fn edits_touch_one_place(
    path: Seq<char>,
    old: Seq<char>,
    relative: Seq<Seq<char>>,
    source: Option<Seq<char>>,
)
    requires
        impacts_of(PlanView::Replacement(path, old), relative, source).len() > 0,
    ensures
        source is Some,
        only_place(source->0, old) is Some,
        stands_once(source->0, old, only_place(source->0, old)->0),
{
}

// ---------------------------------------------------------------------------
// Events
// ---------------------------------------------------------------------------

/// What is found for a tool: its targets and the paths of its plan as they are
/// in the project, whether the first of its targets exists, and what stands in
/// the file of a replacement.
#[derive(Debug, Clone, PartialEq, Eq)]
pub struct ResolvedTool {
    pub targets: Vec<String>,
    pub impact_paths: Vec<String>,
    pub first_target_exists: bool,
    pub source: Option<String>,
}

/// The action of a tool.
pub open spec fn action_says(a: ToolAction, input: CodexHookInput, found: ResolvedTool) -> bool {
    &&& a.kind == kind_of(
        input.tool_name@,
        input.tool_input@.text_member("command"@),
        found.first_target_exists,
    )
    &&& text::views(a.target_files@) == text::views(found.targets@)
    &&& model::opt_view(a.command) == input.tool_input@.text_member("command"@)
    &&& model::impact_views(a.deterministic_impacts@) == impacts_of(
        plan_of(input.tool_name@, input.tool_input@),
        text::views(found.impact_paths@),
        model::opt_view(found.source),
    )
    &&& a.proposed_change is None
}

/// The action of a tool, given what was found for its targets (see
/// `raw_targets`) and for its plan (see `impact_plan`).
pub fn normalized_action(input: &CodexHookInput, found: &ResolvedTool) -> (r: ToolAction)
    requires
        found.targets@.len() == all_targets(input.tool_input@).len(),
        found.impact_paths@.len() == plan_of(input.tool_name@, input.tool_input@).paths().len(),
        found.source matches Some(s) ==> s@.len() < usize::MAX,
    ensures
        action_says(r, *input, *found),
{
    let command = input.tool_input.get_text("command");
    let plan = impact_plan(input.tool_name.as_str(), &input.tool_input);
    proof {
        plans_replace_something(input.tool_name@, input.tool_input@);
    }
    ToolAction {
        kind: classify_action(input.tool_name.as_str(), command, found.first_target_exists),
        target_files: text::clone_texts(&found.targets),
        command: match command {
            Some(c) => Some(c.to_owned()),
            None => None,
        },
        deterministic_impacts: deterministic_impacts(&plan, &found.impact_paths, &found.source),
        proposed_change: None,
    }
}

/// Why a session was opened.
pub open spec fn reason_of(source: Seq<char>) -> SessionOpenReason {
    let low = text::lowered(source);
    if low == "startup"@ {
        SessionOpenReason::Startup
    } else if low == "resume"@ {
        SessionOpenReason::Resume
    } else if low == "clear"@ {
        SessionOpenReason::Clear
    } else if low == "compact"@ {
        SessionOpenReason::Compact
    } else {
        SessionOpenReason::Unknown
    }
}

/// Why a session was opened.
pub fn session_reason(source: &str) -> (r: SessionOpenReason)
    ensures
        r == reason_of(source@),
{
    let low = text::to_lower(source);
    if text::same(low.as_str(), "startup") {
        SessionOpenReason::Startup
    } else if text::same(low.as_str(), "resume") {
        SessionOpenReason::Resume
    } else if text::same(low.as_str(), "clear") {
        SessionOpenReason::Clear
    } else if text::same(low.as_str(), "compact") {
        SessionOpenReason::Compact
    } else {
        SessionOpenReason::Unknown
    }
}

/// Success or failure.
pub open spec fn success_is(b: bool) -> ToolStatus {
    if b {
        ToolStatus::Succeeded
    } else {
        ToolStatus::Failed
    }
}

/// What a status that is written out says.
pub open spec fn written_status(status: Option<Seq<char>>) -> ToolStatus {
    match status {
        None => ToolStatus::Unknown,
        Some(status) => {
            let low = text::lowered(status);
            if low == "success"@ || low == "succeeded"@ || low == "completed"@ || low == "ok"@ {
                ToolStatus::Succeeded
            } else if low == "error"@ || low == "failed"@ || low == "cancelled"@ || low
                == "timed_out"@ {
                ToolStatus::Failed
            } else {
                ToolStatus::Unknown
            }
        },
    }
}

/// How a tool ended, by its response: what the response says outright, then its
/// exit code, then whether it tells of an error, then the status it writes out.
pub open spec fn status_of(response: JsonView) -> ToolStatus {
    match response.member("success"@) {
        Some(JsonView::Bool(b)) => success_is(b),
        _ => match response.member("exit_code"@) {
            Some(JsonView::Integer(n)) if i64::MIN <= n <= i64::MAX => success_is(n == 0),
            _ => match response.member("error"@) {
                Some(e) if !(e is Null) => ToolStatus::Failed,
                _ => written_status(response.text_member("status"@)),
            },
        },
    }
}

fn read_status(status: Option<&str>) -> (r: ToolStatus)
    ensures
        r == written_status(
            match status {
                Some(s) => Some(s@),
                None => None,
            },
        ),
{
    match status {
        None => ToolStatus::Unknown,
        Some(status) => {
            let low = text::to_lower(status);
            if text::same(low.as_str(), "success") || text::same(low.as_str(), "succeeded")
                || text::same(low.as_str(), "completed") || text::same(low.as_str(), "ok") {
                ToolStatus::Succeeded
            } else if text::same(low.as_str(), "error") || text::same(low.as_str(), "failed")
                || text::same(low.as_str(), "cancelled") || text::same(low.as_str(), "timed_out") {
                ToolStatus::Failed
            } else {
                ToolStatus::Unknown
            }
        },
    }
}

/// How a tool ended, by its response.
pub fn tool_status(response: &Json) -> (r: ToolStatus)
    ensures
        r == status_of(response@),
{
    match response.get("success") {
        Some(v) => match v.as_bool() {
            Some(true) => {
                return ToolStatus::Succeeded;
            },
            Some(false) => {
                return ToolStatus::Failed;
            },
            None => {},
        },
        None => {},
    }
    match response.get("exit_code") {
        Some(v) => match v.as_integer() {
            Some(n) => {
                if n >= i64::MIN as i128 && n <= i64::MAX as i128 {
                    return if n == 0 {
                        ToolStatus::Succeeded
                    } else {
                        ToolStatus::Failed
                    };
                }
            },
            None => {},
        },
        None => {},
    }
    match response.get("error") {
        Some(v) => {
            if !v.is_null() {
                return ToolStatus::Failed;
            }
        },
        None => {},
    }
    read_status(response.get_text("status"))
}

/// A tool as an event tells of it: the name of the operation, the action, and
/// the canonical JSON form of the action.
#[derive(Debug, Clone, PartialEq, Eq)]
pub struct NormalizedTool {
    pub operation_id: String,
    pub action: ToolAction,
    pub action_json: Vec<u8>,
}

/// What an event tells.
pub open spec fn payload_says(
    payload: HookEventPayload,
    event: HookEvent,
    input: CodexHookInput,
    tool: Option<NormalizedTool>,
) -> bool {
    match (event, payload) {
        (HookEvent::SessionStart, HookEventPayload::SessionOpened(opened)) => {
            &&& opened.reason == reason_of(input.source@)
            &&& opened.previous_session_key is None
            &&& opened.parent_session_key is None
            &&& opened.origin == SessionOrigin::Unknown
            &&& opened.delegation_depth == 0
        },
        (HookEvent::UserPromptSubmit, HookEventPayload::IntentDeclared(intent)) => {
            &&& intent.text@ == input.prompt@
            &&& intent.origin == IntentOrigin::Interactive
        },
        (HookEvent::PreStep, HookEventPayload::ContextRequested) => true,
        (HookEvent::PreToolUse, HookEventPayload::ToolAboutToRun(about)) => {
            &&& about.operation_id == tool->0.operation_id
            &&& about.tool_name@ == input.tool_name@
            &&& about.action == tool->0.action
            &&& about.action_json == tool->0.action_json
        },
        (HookEvent::PostToolUse, HookEventPayload::ToolFinished(finished)) => {
            &&& finished.operation_id == tool->0.operation_id
            &&& finished.tool_name@ == input.tool_name@
            &&& finished.action == tool->0.action
            &&& finished.status == status_of(input.tool_response@)
            &&& finished.duration_ms is None
            &&& finished.result_digest is None
        },
        (HookEvent::Stop, HookEventPayload::TaskStopping(stopping)) => {
            &&& model::opt_view(stopping.last_assistant_message) == model::opt_view(
                input.last_assistant_message,
            )
            &&& stopping.vendor_loop_active == input.stop_hook_active
        },
        _ => false,
    }
}

fn event_payload(event: HookEvent, input: &CodexHookInput, tool: Option<NormalizedTool>) -> (r:
    HookEventPayload)
    requires
        event.of_tool() ==> tool is Some,
    ensures
        payload_says(r, event, *input, tool),
{
    match event {
        HookEvent::SessionStart => HookEventPayload::SessionOpened(
            SessionOpened {
                reason: session_reason(input.source.as_str()),
                previous_session_key: None,
                parent_session_key: None,
                origin: SessionOrigin::Unknown,
                delegation_depth: 0,
            },
        ),
        HookEvent::UserPromptSubmit => HookEventPayload::IntentDeclared(
            IntentDeclared { text: input.prompt.clone(), origin: IntentOrigin::Interactive },
        ),
        HookEvent::PreStep => HookEventPayload::ContextRequested,
        HookEvent::PreToolUse => {
            let tool = tool.unwrap();
            HookEventPayload::ToolAboutToRun(
                ToolAboutToRun {
                    operation_id: tool.operation_id,
                    tool_name: input.tool_name.clone(),
                    action: tool.action,
                    action_json: tool.action_json,
                },
            )
        },
        HookEvent::PostToolUse => {
            let tool = tool.unwrap();
            HookEventPayload::ToolFinished(
                ToolFinished {
                    operation_id: tool.operation_id,
                    tool_name: input.tool_name.clone(),
                    action: tool.action,
                    status: tool_status(&input.tool_response),
                    duration_ms: None,
                    result_digest: None,
                },
            )
        },
        HookEvent::Stop => HookEventPayload::TaskStopping(
            TaskStopping {
                last_assistant_message: model::clone_opt(&input.last_assistant_message),
                vendor_loop_active: input.stop_hook_active,
            },
        ),
    }
}

/// An event tells of a hook call.
pub open spec fn event_says(
    e: InternalHookEvent,
    root: Seq<char>,
    project_key: Seq<char>,
    protocol_version: u32,
    event: HookEvent,
    input: CodexHookInput,
    adapter: AdapterIdentity,
    namespace: Seq<char>,
    tool: Option<NormalizedTool>,
    stamp: Result<DeliveryStamp, String>,
) -> bool {
    let cwd = cwd_of(root, input.cwd@);
    let session = session_of(namespace, project_key, cwd, input.session_id@);
    &&& e.protocol_version == protocol_version
    &&& e.project_key@ == project_key
    &&& e.adapter == adapter
    &&& e.cwd@ == cwd
    &&& e.session_key@ == session
    &&& model::opt_view(e.turn_key) == (if blank(input.turn_id@) {
        None
    } else {
        Some(input.turn_id@)
    })
    &&& payload_says(e.payload, event, input, tool)
    &&& identified(
        Ok((e.event_id, e.identity_quality)),
        event,
        input,
        project_key,
        session,
        namespace,
        stamp,
    )
}

/// A hook call as an event: the same for every agent but for the name under
/// which its sessions, operations and events are told apart.
pub fn to_internal_event(
    root: &str,
    project_key: &str,
    protocol_version: u32,
    event: HookEvent,
    input: &CodexHookInput,
    adapter: AdapterIdentity,
    namespace: &str,
    tool: Option<NormalizedTool>,
    stamp: &Result<DeliveryStamp, String>,
) -> (r: Result<InternalHookEvent, AppError>)
    requires
        event.of_tool() ==> tool is Some,
    ensures
        r is Err <==> stable_key(event, input.tool_use_id@, input.turn_id@) is None
            && *stamp is Err,
        r matches Err(e) ==> e@ == ErrorView::Clock((*stamp)->Err_0@),
        r matches Ok(e) ==> event_says(
            e,
            root@,
            project_key@,
            protocol_version,
            event,
            *input,
            adapter,
            namespace@,
            tool,
            *stamp,
        ),
{
    let cwd = effective_cwd(root, input);
    let session = session_key(namespace, project_key, cwd.as_str(), input);
    let turn_key = if is_blank(input.turn_id.as_str()) {
        None
    } else {
        Some(input.turn_id.clone())
    };
    let payload = event_payload(event, input, tool);
    match event_identity(event, input, project_key, session.as_str(), namespace, stamp) {
        Err(e) => Err(e),
        Ok((event_id, identity_quality)) => Ok(
            InternalHookEvent {
                protocol_version,
                project_key: project_key.to_owned(),
                event_id,
                identity_quality,
                adapter,
                session_key: session,
                cwd,
                turn_key,
                payload,
            },
        ),
    }
}

// ---------------------------------------------------------------------------
// What holds of every two names
// ---------------------------------------------------------------------------

/// Two names are the same exactly where they stand under the same label and are
/// made from the same parts, or where what is hashed for them collides.
pub proof fn names_are_told_apart(
    a: (Seq<char>, Seq<char>, Seq<Seq<u8>>),
    b: (Seq<char>, Seq<char>, Seq<Seq<u8>>),
)
    requires
        names(a.0, a.1, a.2),
        names(b.0, b.1, b.2),
    ensures
        a.0 == b.0 <==> a.1 == b.1 && (a.2 == b.2 || digest::collide(
            transcript(a.1, a.2),
            transcript(b.1, b.2),
        )),
{
    let x = transcript(a.1, a.2);
    let y = transcript(b.1, b.2);
    digest::fingerprints_tell_bytes(x, y);
    if a.0 == b.0 {
        assert(a.1.len() == b.1.len());
        assert(a.1 =~= a.0.take(a.1.len() as int));
        assert(b.1 =~= b.0.take(b.1.len() as int));
        let n = (a.1 + "_"@).len() as int;
        assert(digest::sha256_hex(x) =~= a.0.skip(n));
        assert(digest::sha256_hex(y) =~= b.0.skip(n));
        if x == y {
            names_tell_their_parts(a.1, a.2, b.2);
        }
    }
}

proof fn texts_are_told(a: Seq<Seq<char>>, b: Seq<Seq<char>>, i: int)
    requires
        0 <= i < a.len(),
        0 <= i < b.len(),
        vstd::utf8::encode_utf8(a[i]) == vstd::utf8::encode_utf8(b[i]),
    ensures
        a[i] == b[i],
{
    vstd::utf8::encode_utf8_decode_utf8(a[i]);
    vstd::utf8::encode_utf8_decode_utf8(b[i]);
}

proof fn event_names_differ(a: HookEvent, b: HookEvent)
    requires
        a.event_name() == b.event_name(),
    ensures
        a == b,
{
    reveal_strlit("session_opened");
    reveal_strlit("intent_declared");
    reveal_strlit("context_requested");
    reveal_strlit("tool_about_to_run");
    reveal_strlit("tool_finished");
    reveal_strlit("task_stopping");
    assert("session_opened"@.len() == 14);
    assert("intent_declared"@.len() == 15);
    assert("context_requested"@.len() == 17 && "context_requested"@[0] == 'c');
    assert("tool_about_to_run"@.len() == 17 && "tool_about_to_run"@[0] == 't');
    assert("tool_finished"@.len() == 13 && "tool_finished"@[1] == 'o');
    assert("task_stopping"@.len() == 13 && "task_stopping"@[1] == 'a');
}

proof fn labels_tell_namespaces(a: Seq<char>, b: Seq<char>)
    requires
        a + "_event"@ == b + "_event"@,
    ensures
        a == b,
{
    assert((a + "_event"@).len() == (b + "_event"@).len());
    assert(a =~= (a + "_event"@).take(a.len() as int));
    assert(b =~= (b + "_event"@).take(b.len() as int));
}

/// Two tool events with an identifier of the agent's own are named the same
/// exactly where project, session, event, identifier and namespace are the
/// same, or where what is hashed for them collides.  Nothing else of the input
/// matters, nor when or by which process they were delivered, and both names
/// can be relied on.
pub proof fn tool_events_are_named_by_their_call(
    a: Result<(String, EventIdentityQuality), AppError>,
    a_event: HookEvent,
    a_input: CodexHookInput,
    a_place: (Seq<char>, Seq<char>, Seq<char>),
    a_stamp: Result<DeliveryStamp, String>,
    b: Result<(String, EventIdentityQuality), AppError>,
    b_event: HookEvent,
    b_input: CodexHookInput,
    b_place: (Seq<char>, Seq<char>, Seq<char>),
    b_stamp: Result<DeliveryStamp, String>,
)
    requires
        identified(a, a_event, a_input, a_place.0, a_place.1, a_place.2, a_stamp),
        identified(b, b_event, b_input, b_place.0, b_place.1, b_place.2, b_stamp),
        a_event.of_tool() && !blank(a_input.tool_use_id@),
        b_event.of_tool() && !blank(b_input.tool_use_id@),
    ensures
        a is Ok && b is Ok,
        a->Ok_0.1 == EventIdentityQuality::VendorStable,
        b->Ok_0.1 == EventIdentityQuality::VendorStable,
        a->Ok_0.0@ == b->Ok_0.0@ <==> {
            ||| a_place == b_place && a_event == b_event && a_input.tool_use_id@
                == b_input.tool_use_id@
            ||| a_place.2 == b_place.2 && digest::collide(
                transcript(
                    a_place.2 + "_event"@,
                    stable_parts(a_place.0, a_place.1, a_event, a_input.tool_use_id@),
                ),
                transcript(
                    b_place.2 + "_event"@,
                    stable_parts(b_place.0, b_place.1, b_event, b_input.tool_use_id@),
                ),
            )
        },
{
    let p = seq![a_place.0, a_place.1, a_event.event_name(), a_input.tool_use_id@];
    let q = seq![b_place.0, b_place.1, b_event.event_name(), b_input.tool_use_id@];
    let x = digest::utf8_of(p);
    let y = digest::utf8_of(q);
    names_are_told_apart(
        (a->Ok_0.0@, a_place.2 + "_event"@, x),
        (b->Ok_0.0@, b_place.2 + "_event"@, y),
    );
    if a_place.2 + "_event"@ == b_place.2 + "_event"@ {
        labels_tell_namespaces(a_place.2, b_place.2);
    }
    if x == y {
        assert forall|i: int| 0 <= i < 4 implies p[i] == q[i] by {
            assert(x[i] == vstd::utf8::encode_utf8(p[i]) && y[i] == vstd::utf8::encode_utf8(q[i]));
            texts_are_told(p, q, i);
        }
        assert(p[0] == q[0] && p[1] == q[1] && p[2] == q[2] && p[3] == q[3]);
        event_names_differ(a_event, b_event);
    }
}

/// Two events that an agent does not tell apart itself, such as the end of a
/// task, are named the same only where they are one delivery: project, session,
/// event, namespace and stamp are the same, or what is hashed for them
/// collides.  Two deliveries have different stamps, so neither is taken for
/// the other even where all else is the same.
pub proof fn deliveries_are_named_apart(
    a: Result<(String, EventIdentityQuality), AppError>,
    a_event: HookEvent,
    a_input: CodexHookInput,
    a_place: (Seq<char>, Seq<char>, Seq<char>),
    a_stamp: DeliveryStamp,
    b: Result<(String, EventIdentityQuality), AppError>,
    b_event: HookEvent,
    b_input: CodexHookInput,
    b_place: (Seq<char>, Seq<char>, Seq<char>),
    b_stamp: DeliveryStamp,
)
    requires
        identified(a, a_event, a_input, a_place.0, a_place.1, a_place.2, Ok(a_stamp)),
        identified(b, b_event, b_input, b_place.0, b_place.1, b_place.2, Ok(b_stamp)),
        stable_key(a_event, a_input.tool_use_id@, a_input.turn_id@) is None,
        stable_key(b_event, b_input.tool_use_id@, b_input.turn_id@) is None,
    ensures
        a is Ok && b is Ok,
        a->Ok_0.1 == EventIdentityQuality::PerDelivery,
        b->Ok_0.1 == EventIdentityQuality::PerDelivery,
        a->Ok_0.0@ == b->Ok_0.0@ <==> {
            ||| a_place == b_place && a_event == b_event && a_stamp == b_stamp
            ||| a_place.2 == b_place.2 && digest::collide(
                transcript(
                    a_place.2 + "_event"@,
                    delivered_parts(a_place.0, a_place.1, a_event, a_stamp),
                ),
                transcript(
                    b_place.2 + "_event"@,
                    delivered_parts(b_place.0, b_place.1, b_event, b_stamp),
                ),
            )
        },
{
    let p = seq![a_place.0, a_place.1, a_event.event_name()];
    let q = seq![b_place.0, b_place.1, b_event.event_name()];
    let x = delivered_parts(a_place.0, a_place.1, a_event, a_stamp);
    let y = delivered_parts(b_place.0, b_place.1, b_event, b_stamp);
    names_are_told_apart(
        (a->Ok_0.0@, a_place.2 + "_event"@, x),
        (b->Ok_0.0@, b_place.2 + "_event"@, y),
    );
    if a_place.2 + "_event"@ == b_place.2 + "_event"@ {
        labels_tell_namespaces(a_place.2, b_place.2);
    }
    if x == y {
        assert forall|i: int| 0 <= i < 3 implies p[i] == q[i] by {
            assert(x[i] == vstd::utf8::encode_utf8(p[i]) && y[i] == vstd::utf8::encode_utf8(q[i]));
            texts_are_told(p, q, i);
        }
        assert(p[0] == q[0] && p[1] == q[1] && p[2] == q[2]);
        event_names_differ(a_event, b_event);
        assert(x[3] == y[3] && x[4] == y[4] && x[5] == y[5]);
        vstd::bytes::lemma_auto_spec_u128_to_from_le_bytes();
        vstd::bytes::lemma_auto_spec_u64_to_from_le_bytes();
        vstd::bytes::lemma_auto_spec_u32_to_from_le_bytes();
    }
}

// ---------------------------------------------------------------------------
// What holds of every tool call
// ---------------------------------------------------------------------------

proof fn marked_paths_are_found(
    lines: Seq<Seq<char>>,
    markers: Seq<Seq<char>>,
    path: Seq<char>,
)
    ensures
        paths_in_lines(lines, markers).contains(path) <==> exists|k: int, m: int|
            #![trigger lines[k], markers[m]]
            0 <= k < lines.len() && 0 <= m < markers.len() && marked_path(lines[k], markers[m])
                == Some(path),
    decreases lines.len(),
{
    if lines.len() > 0 {
        let init = lines.drop_last();
        marked_paths_are_found(init, markers, path);
        line_paths_are_found(lines.last(), markers, path);
        let a = paths_in_lines(init, markers);
        let b = paths_in_line(lines.last(), markers);
        both_contain(a, b, path);
        if a.contains(path) {
            let (k, m) = choose|k: int, m: int|
                #![trigger init[k], markers[m]]
                0 <= k < init.len() && 0 <= m < markers.len() && marked_path(init[k], markers[m])
                    == Some(path);
            assert(lines[k] == init[k] && markers[m] == markers[m]);
        }
        if b.contains(path) {
            let m = choose|m: int|
                0 <= m < markers.len() && marked_path(lines.last(), #[trigger] markers[m]) == Some(
                    path,
                );
            assert(lines[lines.len() - 1] == lines.last() && markers[m] == markers[m]);
        }
        if exists|k: int, m: int|
            #![trigger lines[k], markers[m]]
            0 <= k < lines.len() && 0 <= m < markers.len() && marked_path(lines[k], markers[m])
                == Some(path) {
            let (k, m) = choose|k: int, m: int|
                #![trigger lines[k], markers[m]]
                0 <= k < lines.len() && 0 <= m < markers.len() && marked_path(lines[k], markers[m])
                    == Some(path);
            if k < init.len() {
                assert(init[k] == lines[k] && markers[m] == markers[m]);
            }
        }
    }
}

proof fn line_paths_are_found(line: Seq<char>, markers: Seq<Seq<char>>, path: Seq<char>)
    ensures
        paths_in_line(line, markers).contains(path) <==> exists|m: int|
            0 <= m < markers.len() && marked_path(line, #[trigger] markers[m]) == Some(path),
    decreases markers.len(),
{
    if markers.len() > 0 {
        let init = markers.drop_last();
        line_paths_are_found(line, init, path);
        let a = paths_in_line(line, init);
        let b = at_most_one(marked_path(line, markers.last()));
        both_contain(a, b, path);
        one_contains(marked_path(line, markers.last()), path);
        if a.contains(path) {
            let m = choose|m: int|
                0 <= m < init.len() && marked_path(line, #[trigger] init[m]) == Some(path);
            assert(markers[m] == init[m]);
        }
        assert(markers[markers.len() - 1] == markers.last());
        if exists|m: int|
            0 <= m < markers.len() && marked_path(line, #[trigger] markers[m]) == Some(path) {
            let m = choose|m: int|
                0 <= m < markers.len() && marked_path(line, #[trigger] markers[m]) == Some(path);
            if m < init.len() {
                assert(init[m] == markers[m]);
            }
        }
    }
}

proof fn one_contains(t: Option<Seq<char>>, x: Seq<char>)
    ensures
        at_most_one(t).contains(x) <==> t == Some(x),
{
    if t is Some {
        assert(at_most_one(t)[0] == t->0);
    }
}

proof fn both_contain(a: Seq<Seq<char>>, b: Seq<Seq<char>>, x: Seq<char>)
    ensures
        (a + b).contains(x) <==> a.contains(x) || b.contains(x),
{
    let all = a + b;
    if a.contains(x) {
        let k = choose|k: int| 0 <= k < a.len() && a[k] == x;
        assert(all[k] == x);
    }
    if b.contains(x) {
        let k = choose|k: int| 0 <= k < b.len() && b[k] == x;
        assert(all[a.len() + k] == x);
    }
    if all.contains(x) {
        let k = choose|k: int| 0 <= k < all.len() && all[k] == x;
        if k < a.len() {
            assert(a[k] == x);
        } else {
            assert(b[k - a.len()] == x);
        }
    }
}

/// A line of a patch names a path behind a marker: the line, without the white
/// space around it, is the marker and the path with white space around that.
pub open spec fn names_file(line: Seq<char>, marker: Seq<char>, path: Seq<char>) -> bool {
    text::begins(text::trimmed(line), marker) && path == text::trimmed(
        text::trimmed(line).skip(marker.len() as int),
    )
}

/// A tool is told to touch exactly the files that it is handed under `path`,
/// `file`, `file_path` or `target_file`, those in the list under `paths`, and
/// those that a line of its command adds, updates or deletes as a line of a
/// patch does.  All that it touches are these and what its command deletes.
pub proof fn all_named_files_are_targets(input: JsonView, path: Seq<char>)
    ensures
        target_files(input).contains(path) <==> {
            ||| input.text_member("path"@) == Some(path)
            ||| input.text_member("file"@) == Some(path)
            ||| input.text_member("file_path"@) == Some(path)
            ||| input.text_member("target_file"@) == Some(path)
            ||| input.member("paths"@) matches Some(JsonView::Array(items)) && items.contains(
                JsonView::Text(path),
            )
            ||| input.text_member("command"@) matches Some(command) && exists|k: int|
                0 <= k < text::lines_of(command).len() && {
                    ||| names_file(
                        #[trigger] text::lines_of(command)[k],
                        "*** Add File:"@,
                        path,
                    )
                    ||| names_file(text::lines_of(command)[k], "*** Update File:"@, path)
                    ||| names_file(text::lines_of(command)[k], "*** Delete File:"@, path)
                }
        },
        all_targets(input).contains(path) <==> target_files(input).contains(path) || (
        input.text_member("command"@) matches Some(command) && shell::deleted_paths(
            command,
        ).contains(path)),
        order::ascending(all_targets(input)),
{
    let a = at_most_one(input.text_member("path"@));
    let b = at_most_one(input.text_member("file"@));
    let c = at_most_one(input.text_member("file_path"@));
    let d = at_most_one(input.text_member("target_file"@));
    one_contains(input.text_member("path"@), path);
    one_contains(input.text_member("file"@), path);
    one_contains(input.text_member("file_path"@), path);
    one_contains(input.text_member("target_file"@), path);
    let listed = match input.member("paths"@) {
        Some(JsonView::Array(items)) => json::texts_among(items),
        _ => Seq::empty(),
    };
    if let Some(JsonView::Array(items)) = input.member("paths"@) {
        json::all_texts_are_found(items);
        assert(listed.contains(path) <==> items.contains(JsonView::Text(path)));
    }
    both_contain(a, b, path);
    both_contain(a + b, c, path);
    both_contain(a + b + c, d, path);
    both_contain(a + b + c + d, listed, path);
    let patched = match input.text_member("command"@) {
        Some(command) => paths_in_lines(text::lines_of(command), patch_markers()),
        None => Seq::empty(),
    };
    both_contain(named_paths(input), patched, path);
    if let Some(command) = input.text_member("command"@) {
        let lines = text::lines_of(command);
        let markers = patch_markers();
        marked_paths_are_found(lines, markers, path);
        if patched.contains(path) {
            let (k, m) = choose|k: int, m: int|
                #![trigger lines[k], markers[m]]
                0 <= k < lines.len() && 0 <= m < markers.len() && marked_path(lines[k], markers[m])
                    == Some(path);
            assert(names_file(lines[k], markers[m], path));
            assert(m == 0 || m == 1 || m == 2);
        }
        if exists|k: int|
            0 <= k < lines.len() && {
                ||| names_file(#[trigger] lines[k], "*** Add File:"@, path)
                ||| names_file(lines[k], "*** Update File:"@, path)
                ||| names_file(lines[k], "*** Delete File:"@, path)
            } {
            let k = choose|k: int|
                0 <= k < lines.len() && {
                    ||| names_file(#[trigger] lines[k], "*** Add File:"@, path)
                    ||| names_file(lines[k], "*** Update File:"@, path)
                    ||| names_file(lines[k], "*** Delete File:"@, path)
                };
            assert(lines[k] == lines[k]);
            assert(markers[0] == "*** Add File:"@ && markers[1] == "*** Update File:"@
                && markers[2] == "*** Delete File:"@);
        }
    }
    let deleted = match input.text_member("command"@) {
        Some(command) => shell::deleted_paths(command),
        None => Seq::empty(),
    };
    both_contain(target_files(input), deleted, path);
    order::sorted_set_keeps_members(target_files(input) + deleted);
}

/// What a shell is told counts as deleting where it names a path to delete,
/// whatever else it holds; otherwise as an operation of Git where it calls Git;
/// otherwise as deleting where a deleting word stands in it; and otherwise as
/// executing.  It never counts as reading or as a plain edit.
pub proof fn shell_commands_are_judged_by_what_they_delete(
    tool_name: Seq<char>,
    command: Seq<char>,
    exists_already: bool,
)
    requires
        text::lowered(tool_name) == "bash"@ || text::lowered(tool_name) == "pwsh"@
            || text::lowered(tool_name) == "shell_command"@,
    ensures
        ({
            let kind = kind_of(tool_name, Some(command), exists_already);
            let low = text::lowered(command);
            let deleting = exists|path: Seq<char>| #[trigger]
                shell::deleted_paths(low).contains(path);
            let git = text::begins(low, "git"@) || text::occurs(low, "git "@);
            let word = text::occurs(low, "remove-item"@) || text::occurs(low, "rm "@)
                || text::occurs(low, "unlink "@) || text::occurs(low, "del "@) || text::occurs(
                low,
                "erase "@,
            );
            &&& kind == ActionKind::Delete <==> deleting || !git && word
            &&& kind == ActionKind::GitOperation <==> !deleting && git
            &&& kind == ActionKind::Execute <==> !deleting && !git && !word
        }),
{
    shell_tools_are_no_others(tool_name);
    let low = text::lowered(command);
    let paths = shell::deleted_paths(low);
    if paths.len() > 0 {
        assert(paths.contains(paths[0]));
    }
}

proof fn shell_tools_are_no_others(tool_name: Seq<char>)
    requires
        text::lowered(tool_name) == "bash"@ || text::lowered(tool_name) == "pwsh"@
            || text::lowered(tool_name) == "shell_command"@,
    ensures
        text::lowered(tool_name) != "write"@,
        text::lowered(tool_name) != "apply_patch"@,
        text::lowered(tool_name) != "edit"@,
        text::lowered(tool_name) != "str_replace_editor"@,
{
    reveal_strlit("bash");
    reveal_strlit("pwsh");
    reveal_strlit("shell_command");
    reveal_strlit("write");
    reveal_strlit("apply_patch");
    reveal_strlit("edit");
    reveal_strlit("str_replace_editor");
    assert("bash"@[0] == 'b' && "bash"@.len() == 4);
    assert("pwsh"@[0] == 'p' && "pwsh"@.len() == 4);
    assert("shell_command"@.len() == 13);
    assert("write"@.len() == 5 && "apply_patch"@.len() == 11 && "str_replace_editor"@.len() == 18);
    assert("edit"@[0] == 'e' && "edit"@.len() == 4);
}

/// A patch counts as deleting where it deletes any file, as creating where it
/// adds files and neither deletes nor updates one, and otherwise as an edit.
pub proof fn patches_are_judged_by_their_strongest_part(
    tool_name: Seq<char>,
    command: Seq<char>,
    exists_already: bool,
)
    requires
        text::lowered(tool_name) == "apply_patch"@ || text::lowered(tool_name) == "edit"@,
    ensures
        ({
            let kind = kind_of(tool_name, Some(command), exists_already);
            let adds = text::occurs(command, "*** Add File:"@);
            let updates = text::occurs(command, "*** Update File:"@);
            let removes = text::occurs(command, "*** Delete File:"@);
            &&& kind == ActionKind::Delete <==> removes
            &&& kind == ActionKind::Create <==> adds && !updates && !removes
            &&& kind == ActionKind::Modify <==> !removes && (updates || !adds)
        }),
{
    reveal_strlit("write");
    reveal_strlit("apply_patch");
    reveal_strlit("edit");
    assert("write"@.len() == 5 && "apply_patch"@.len() == 11 && "edit"@.len() == 4);
}

/// Writing counts as creating exactly where nothing is there yet, and as an edit
/// otherwise; an editor reads, creates or edits as its command says.
pub proof fn writes_and_editors_are_judged(
    write: Seq<char>,
    editor: Seq<char>,
    command: Seq<char>,
    exists_already: bool,
)
    requires
        text::lowered(write) == "write"@,
        text::lowered(editor) == "str_replace_editor"@,
    ensures
        kind_of(write, Some(command), true) == ActionKind::Modify,
        kind_of(write, Some(command), false) == ActionKind::Create,
        kind_of(write, None, exists_already) == kind_of(write, Some(command), exists_already),
        ({
            let kind = kind_of(editor, Some(command), exists_already);
            let low = text::lowered(command);
            &&& kind == ActionKind::Read <==> low == "view"@
            &&& kind == ActionKind::Create <==> low == "create"@
            &&& kind == ActionKind::Modify <==> low == "str_replace"@ || low == "insert"@
            &&& kind == ActionKind::Unknown <==> low != "view"@ && low != "create"@ && low
                != "str_replace"@ && low != "insert"@
        }),
{
    reveal_strlit("write");
    reveal_strlit("str_replace_editor");
    reveal_strlit("apply_patch");
    reveal_strlit("edit");
    reveal_strlit("view");
    reveal_strlit("create");
    reveal_strlit("str_replace");
    reveal_strlit("insert");
    assert("write"@.len() == 5 && "str_replace_editor"@.len() == 18 && "apply_patch"@.len() == 11
        && "edit"@.len() == 4);
    assert("view"@.len() == 4 && "str_replace"@.len() == 11);
    assert("create"@.len() == 6 && "create"@[0] == 'c');
    assert("insert"@.len() == 6 && "insert"@[0] == 'i');
}

/// Any other tool is taken to read exactly where its name says so, and nothing
/// is known of it otherwise: no tool that is not known to write is taken for
/// harmless.
pub proof fn unknown_tools_are_not_trusted(
    tool_name: Seq<char>,
    command: Option<Seq<char>>,
    exists_already: bool,
)
    requires
        ({
            let tool = text::lowered(tool_name);
            &&& tool != "write"@ && tool != "apply_patch"@ && tool != "edit"@
            &&& tool != "str_replace_editor"@
            &&& tool != "bash"@ && tool != "pwsh"@ && tool != "shell_command"@
        }),
    ensures
        kind_of(tool_name, command, exists_already) == ActionKind::Read || kind_of(
            tool_name,
            command,
            exists_already,
        ) == ActionKind::Unknown,
        kind_of(tool_name, command, exists_already) == ActionKind::Read <==> text::occurs(
            text::lowered(tool_name),
            "read"@,
        ) || text::occurs(text::lowered(tool_name), "search"@) || text::occurs(
            text::lowered(tool_name),
            "find"@,
        ),
{
}

/// Line feeds are counted one by one.
pub proof fn line_feeds_are_counted(s: Seq<char>)
    ensures
        line_feeds(s) == s.filter(|c: char| c == '\n').len(),
    decreases s.len(),
{
    reveal(Seq::filter);
    if s.len() > 0 {
        line_feeds_are_counted(s.drop_last());
    }
}

/// What a tool certainly touches.  A file that is written, added or deleted is
/// touched as a whole; an insertion touches the line behind the one that it
/// names; and a replacement touches the lines that hold the replaced text, from
/// the line that it begins in to the line that it ends in, where the text stands
/// at one place of the file, and otherwise nothing is certain.
pub proof fn impacts_are_where_the_edit_is(
    relative: Seq<Seq<char>>,
    listed: Seq<Seq<char>>,
    path: Seq<char>,
    line: usize,
    old: Seq<char>,
    source: Seq<char>,
    at: int,
    i: int,
)
    requires
        0 <= i < relative.len(),
    ensures
        ({
            let whole = impacts_of(PlanView::Whole(listed), relative, None);
            &&& whole.len() == relative.len()
            &&& whole[i].path == relative[i] && whole[i].whole_file && whole[i].ranges.len() == 0
        }),
        ({
            let patch = impacts_of(PlanView::Patch(listed), relative, None);
            exists|k: int|
                0 <= k < patch.len() && (#[trigger] patch[k]).path == relative[i]
                    && patch[k].whole_file
        }),
        ({
            let put = impacts_of(PlanView::Insertion(path, line), relative, None);
            &&& put.len() == 1 && put[0].path == relative[0] && !put[0].whole_file
            &&& put[0].ranges.len() == 1
            &&& line < usize::MAX ==> put[0].ranges[0].start_line == line + 1
                && put[0].ranges[0].end_line == line + 1
        }),
        impacts_of(PlanView::Replacement(path, old), relative, None).len() == 0,
        impacts_of(PlanView::Nothing, relative, Some(source)).len() == 0,
        old.len() > 0 && source.len() < usize::MAX && text::occurs_at(source, old, at) && (forall|
            j: int,
        |
            #![trigger text::occurs_at(source, old, j)]
            0 <= j < at || at + old.len() <= j ==> !text::occurs_at(source, old, j)) ==> {
            let edit = impacts_of(PlanView::Replacement(path, old), relative, Some(source));
            let before = source.take(at).filter(|c: char| c == '\n').len();
            let within = old.filter(|c: char| c == '\n').len();
            &&& edit.len() == 1 && edit[0].path == relative[0] && !edit[0].whole_file
            &&& edit[0].ranges.len() == 1
            &&& edit[0].ranges[0].start_line == before + 1
            &&& edit[0].ranges[0].end_line == before + 1 + within
        },
        (forall|j: int| !(#[trigger] text::occurs_at(source, old, j))) ==> impacts_of(
            PlanView::Replacement(path, old),
            relative,
            Some(source),
        ).len() == 0,
{
    order::sorted_set_keeps_members(relative);
    let set = order::sorted_set_of(relative);
    let patch = impacts_of(PlanView::Patch(listed), relative, None);
    assert(relative.contains(relative[i]));
    assert(set.contains(relative[i]));
    let k = choose|k: int| 0 <= k < set.len() && set[k] == relative[i];
    assert(patch[k].path == relative[i]);
    if old.len() > 0 && source.len() < usize::MAX && text::occurs_at(source, old, at) && (forall|
        j: int,
    |
        #![trigger text::occurs_at(source, old, j)]
        0 <= j < at || at + old.len() <= j ==> !text::occurs_at(source, old, j)) {
        assert(stands_once(source, old, at));
        let found = choose|a: int| stands_once(source, old, a);
        assert(stands_once(source, old, found));
        assert(found == at) by {
            if found < at {
                assert(!text::occurs_at(source, old, found));
            }
            if at < found {
                assert(!text::occurs_at(source, old, at));
            }
        }
        line_feeds_are_counted(source.take(at));
        line_feeds_are_counted(old);
        let newline = |c: char| c == '\n';
        source.take(at).lemma_filter_len(newline);
        old.lemma_filter_len(newline);
    }
}

/// How a tool ended.  What a response says outright counts before its exit code,
/// the exit code before an error that it tells of, and that before the status
/// that it writes out.  Only an outright success, an exit code of zero or a
/// written success without an error is a success.
pub proof fn responses_are_read_in_order(response: JsonView, said: bool, code: int, e: JsonView)
    ensures
        response.member("success"@) == Some(JsonView::Bool(said)) ==> (status_of(response)
            == ToolStatus::Succeeded <==> said) && (status_of(response) == ToolStatus::Failed
            <==> !said),
        !(response.member("success"@) is Some && response.member("success"@)->0 is Bool)
            && response.member("exit_code"@) == Some(JsonView::Integer(code)) && i64::MIN <= code
            <= i64::MAX ==> (status_of(response) == ToolStatus::Succeeded <==> code == 0) && (
        status_of(response) == ToolStatus::Failed <==> code != 0),
        response.member("success"@) is None && response.member("exit_code"@) is None
            && response.member("error"@) == Some(e) && !(e is Null) ==> status_of(response)
            == ToolStatus::Failed,
        response.member("success"@) is None && response.member("exit_code"@) is None
            && response.member("error"@) is None ==> {
            let low = match response.text_member("status"@) {
                Some(status) => Some(text::lowered(status)),
                None => None,
            };
            &&& status_of(response) == ToolStatus::Succeeded <==> low == Some("success"@) || low
                == Some("succeeded"@) || low == Some("completed"@) || low == Some("ok"@)
            &&& status_of(response) == ToolStatus::Failed <==> low == Some("error"@) || low == Some(
                "failed"@,
            ) || low == Some("cancelled"@) || low == Some("timed_out"@)
        },
{
    reveal_strlit("success");
    reveal_strlit("succeeded");
    reveal_strlit("completed");
    reveal_strlit("ok");
    reveal_strlit("error");
    reveal_strlit("failed");
    reveal_strlit("cancelled");
    reveal_strlit("timed_out");
    assert("success"@.len() == 7 && "ok"@.len() == 2 && "error"@.len() == 5 && "failed"@.len()
        == 6);
    assert("succeeded"@.len() == 9 && "succeeded"@[0] == 's');
    assert("completed"@.len() == 9 && "completed"@[1] == 'o');
    assert("cancelled"@.len() == 9 && "cancelled"@[1] == 'a');
    assert("timed_out"@.len() == 9 && "timed_out"@[0] == 't');
}

/// A session was opened for the reason that its source names, whatever the case
/// it is written in, and for none that is known otherwise.
pub proof fn session_reasons_are_read(source: Seq<char>)
    ensures
        reason_of(source) == SessionOpenReason::Startup <==> text::lowered(source) == "startup"@,
        reason_of(source) == SessionOpenReason::Resume <==> text::lowered(source) == "resume"@,
        reason_of(source) == SessionOpenReason::Clear <==> text::lowered(source) == "clear"@,
        reason_of(source) == SessionOpenReason::Compact <==> text::lowered(source) == "compact"@,
{
    reveal_strlit("startup");
    reveal_strlit("resume");
    reveal_strlit("clear");
    reveal_strlit("compact");
    assert("startup"@.len() == 7 && "startup"@[0] == 's');
    assert("compact"@.len() == 7 && "compact"@[0] == 'c');
    assert("resume"@.len() == 6 && "clear"@.len() == 5);
}

/// An event tells what the hook was handed: project, directory and session as
/// they were given, or as they are made up where they were not; the tool and its
/// action for an event of a tool, with the status that its response has once it
/// has run; the prompt of a user; and whether the agent is already being kept at
/// work where it wants to stop.
pub proof fn events_tell_what_the_hook_was_handed(
    e: InternalHookEvent,
    root: Seq<char>,
    project_key: Seq<char>,
    protocol_version: u32,
    event: HookEvent,
    input: CodexHookInput,
    adapter: AdapterIdentity,
    namespace: Seq<char>,
    tool: Option<NormalizedTool>,
    stamp: Result<DeliveryStamp, String>,
)
    requires
        event_says(
            e,
            root,
            project_key,
            protocol_version,
            event,
            input,
            adapter,
            namespace,
            tool,
            stamp,
        ),
    ensures
        e.project_key@ == project_key,
        e.protocol_version == protocol_version,
        e.adapter == adapter,
        (forall|i: int| 0 <= i < input.cwd@.len() ==> text::white_space(#[trigger] input.cwd@[i]))
            ==> e.cwd@ == root,
        !(forall|i: int|
            0 <= i < input.cwd@.len() ==> text::white_space(#[trigger] input.cwd@[i])) ==> e.cwd@
            == input.cwd@,
        !(forall|i: int|
            0 <= i < input.session_id@.len() ==> text::white_space(
                #[trigger] input.session_id@[i],
            )) ==> e.session_key@ == input.session_id@,
        event == HookEvent::SessionStart <==> e.payload is SessionOpened,
        event == HookEvent::UserPromptSubmit <==> e.payload is IntentDeclared,
        event == HookEvent::PreStep <==> e.payload is ContextRequested,
        event == HookEvent::PreToolUse <==> e.payload is ToolAboutToRun,
        event == HookEvent::PostToolUse <==> e.payload is ToolFinished,
        event == HookEvent::Stop <==> e.payload is TaskStopping,
        e.payload matches HookEventPayload::IntentDeclared(intent) ==> intent.text@
            == input.prompt@,
        e.payload matches HookEventPayload::ToolAboutToRun(about) ==> about.action
            == tool->0.action && about.operation_id == tool->0.operation_id && about.tool_name@
            == input.tool_name@,
        e.payload matches HookEventPayload::ToolFinished(finished) ==> finished.action
            == tool->0.action && finished.operation_id == tool->0.operation_id
            && finished.tool_name@ == input.tool_name@ && finished.status == status_of(
            input.tool_response@,
        ),
        e.payload matches HookEventPayload::TaskStopping(stopping) ==> stopping.vendor_loop_active
            == input.stop_hook_active,
{
    let a = text::trimming_only_takes_white_space(input.cwd@);
    let b = text::trimming_only_takes_white_space(input.session_id@);
}

} // verus!
