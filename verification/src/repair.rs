//! What an action may change, and what is allowed while a deviation waits to
//! be repaired.
use crate::digest;
use crate::json;
use crate::model::{self, ActionKind, ToolAction, ToolImpact};
use crate::order;
use crate::paths::PathRelation;
use crate::text;
use vstd::prelude::*;

verus! {

broadcast use {vstd::string::group_string_axioms, vstd::seq::group_seq_axioms};

/// An action that says itself that it writes files.
pub open spec fn mutates(kind: ActionKind) -> bool {
    kind == ActionKind::Create || kind == ActionKind::Modify || kind == ActionKind::Delete
}

/// An action whose effect on files cannot be told from it.
pub open spec fn may_mutate_unseen(kind: ActionKind) -> bool {
    kind == ActionKind::Execute || kind == ActionKind::GitOperation || kind == ActionKind::Unknown
}

/// An action before which the source is recorded.
pub open spec fn needs_baseline(kind: ActionKind) -> bool {
    mutates(kind) || kind == ActionKind::Execute || kind == ActionKind::GitOperation
}

pub fn explicit_mutation(action: &ToolAction) -> (r: bool)
    ensures
        r == mutates(action.kind),
        r <==> action.kind == ActionKind::Create || action.kind == ActionKind::Modify
            || action.kind == ActionKind::Delete,
{
    matches!(action.kind, ActionKind::Create | ActionKind::Modify | ActionKind::Delete)
}

pub fn opaque_action_may_mutate_source(action: &ToolAction) -> (r: bool)
    ensures
        r == may_mutate_unseen(action.kind),
        r <==> action.kind == ActionKind::Execute || action.kind == ActionKind::GitOperation
            || action.kind == ActionKind::Unknown,
{
    matches!(action.kind, ActionKind::Execute | ActionKind::GitOperation | ActionKind::Unknown)
}

pub fn pre_action_may_mutate_source(action: &ToolAction) -> (r: bool)
    ensures
        r == needs_baseline(action.kind),
        r <==> action.kind != ActionKind::Read && action.kind != ActionKind::Unknown,
{
    explicit_mutation(action) || matches!(
        action.kind,
        ActionKind::Execute | ActionKind::GitOperation
    )
}

/// The paths of a list of impacts.
pub open spec fn impact_paths(impacts: Seq<ToolImpact>) -> Seq<Seq<char>> {
    impacts.map_values(|i: ToolImpact| i.path@)
}

/// Every path that an action names: its targets and its certain impacts.
pub open spec fn named_paths(action: ToolAction) -> Seq<Seq<char>> {
    text::views(action.target_files@) + impact_paths(action.deterministic_impacts@)
}

/// The paths that an action names, sorted and without repetition.
pub fn mutation_paths(action: &ToolAction) -> (r: Vec<String>)
    ensures
        order::is_sorted_set_of(text::views(r@), named_paths(*action)),
        text::views(r@) == order::sorted_set_of(named_paths(*action)),
{
    let mut all: Vec<String> = text::clone_texts(&action.target_files);
    let mut i: usize = 0;
    assert(text::views(all@) =~= text::views(action.target_files@) + impact_paths(
        action.deterministic_impacts@,
    ).take(0));
    while i < action.deterministic_impacts.len()
        invariant
            i <= action.deterministic_impacts@.len(),
            text::views(all@) == text::views(action.target_files@) + impact_paths(
                action.deterministic_impacts@,
            ).take(i as int),
        decreases action.deterministic_impacts@.len() - i,
    {
        let ghost before = text::views(all@);
        all.push(action.deterministic_impacts[i].path.clone());
        proof {
            let paths = impact_paths(action.deterministic_impacts@);
            assert(text::views(all@) =~= before.push(paths[i as int]));
            assert(paths.take(i + 1) =~= paths.take(i as int).push(paths[i as int]));
            assert(text::views(action.target_files@) + paths.take(i + 1) =~= before.push(
                paths[i as int],
            ));
        }
        i = i + 1;
    }
    proof {
        let paths = impact_paths(action.deterministic_impacts@);
        assert(paths.take(paths.len() as int) =~= paths);
    }
    order::sorted_set(&all)
}

/// The identity of a proposed action: the one it carries, or the fingerprint
/// of its canonical form.
pub open spec fn proposal_digest_of(action: ToolAction, canonical: Seq<u8>) -> Seq<char> {
    match action.proposed_change {
        Some(change) => change.proposal_digest@,
        None => digest::marked_sha256(
            digest::framed(
                seq![
                    vstd::utf8::encode_utf8("project-brain/action-proposal/v1"@),
                    canonical,
                ],
            ),
        ),
    }
}

/// The identity of a proposed action, given its canonical JSON form.
pub fn action_proposal_digest(action: &ToolAction, canonical: &Vec<u8>) -> (r: String)
    ensures
        r@ == proposal_digest_of(*action, canonical@),
{
    match &action.proposed_change {
        Some(change) => change.proposal_digest.clone(),
        None => {
            let mut parts: Vec<Vec<u8>> = Vec::new();
            parts.push("project-brain/action-proposal/v1".as_bytes_vec());
            let mut copy: Vec<u8> = Vec::new();
            digest::append_bytes(&mut copy, canonical.as_slice());
            assert(copy@ =~= canonical@);
            parts.push(copy);
            assert(digest::byte_views(parts@) =~= seq![
                vstd::utf8::encode_utf8("project-brain/action-proposal/v1"@),
                canonical@,
            ]);
            digest::digest_parts(&parts)
        },
    }
}

// ---------------------------------------------------------------------------
// Inspection during a repair
// ---------------------------------------------------------------------------

/// What marks a command as one that writes.
pub open spec fn mutating_markers() -> Seq<Seq<char>> {
    seq![
        "remove-item"@,
        "set-content"@,
        "add-content"@,
        "out-file"@,
        "new-item"@,
        "copy-item"@,
        "move-item"@,
        "rename-item"@,
        "clear-content"@,
        "git add"@,
        "git commit"@,
        "git checkout"@,
        "git switch"@,
        "git reset"@,
        "git restore"@,
        "git clean"@,
        "git rm"@,
        " rm "@,
        " del "@,
        " erase "@,
        "mkdir"@,
        "touch "@,
        "apply_patch"@,
        ">"@,
    ]
}

/// How a command that only looks may begin.
pub open spec fn inspection_prefixes() -> Seq<Seq<char>> {
    seq![
        "git status"@,
        "git diff"@,
        "git log"@,
        "git show"@,
        "git branch"@,
        "get-childitem"@,
        "get-content"@,
        "write-host"@,
        "write-output"@,
        "select-string"@,
        "where.exe"@,
        "rg "@,
        "rg\t"@,
        "node --version"@,
        "npm --version"@,
    ]
}

/// A command, in lower case, made of nothing but looking.
pub open spec fn inspection_command(command: Seq<char>) -> bool {
    &&& !text::any_occurs(command, mutating_markers())
    &&& forall|i: int|
        0 <= i < text::pieces(command, ';').len() ==> inspection_segment(
            text::trimmed(#[trigger] text::pieces(command, ';')[i]),
        )
}

/// One command of a sequence: nothing, or one that only looks.
pub open spec fn inspection_segment(segment: Seq<char>) -> bool {
    segment.len() == 0 || text::any_begins(segment, inspection_prefixes())
}

/// An action that only looks, so that it may go on during a repair.
pub open spec fn inspects(kind: ActionKind, command: Option<Seq<char>>) -> bool {
    ||| kind == ActionKind::Read
    ||| {
        &&& kind == ActionKind::Execute || kind == ActionKind::GitOperation
        &&& command is Some
        &&& inspection_command(text::lowered(command->0))
    }
}

/// Whether an action only looks.
pub fn repair_inspection_action(action: &ToolAction) -> (r: bool)
    ensures
        r == inspects(action.kind, model::opt_view(action.command)),
{
    if action.kind == ActionKind::Read {
        return true;
    }
    if !matches!(action.kind, ActionKind::Execute | ActionKind::GitOperation) {
        return false;
    }
    let command = match &action.command {
        Some(command) => text::lower_chars(command.as_str()),
        None => {
            return false;
        },
    };
    let markers: Vec<&str> = vec![
        "remove-item", "set-content", "add-content", "out-file", "new-item", "copy-item",
        "move-item", "rename-item", "clear-content", "git add", "git commit", "git checkout",
        "git switch", "git reset", "git restore", "git clean", "git rm", " rm ", " del ",
        " erase ", "mkdir", "touch ", "apply_patch", ">",
    ];
    assert(text::str_views(markers@) =~= mutating_markers());
    if text::contains_any(&command, &markers) {
        return false;
    }
    let prefixes: Vec<&str> = vec![
        "git status", "git diff", "git log", "git show", "git branch", "get-childitem",
        "get-content", "write-host", "write-output", "select-string", "where.exe", "rg ", "rg\t",
        "node --version", "npm --version",
    ];
    assert(text::str_views(prefixes@) =~= inspection_prefixes());
    let segments = text::split_chars(&command, ';');
    let ghost all = text::pieces(command@, ';');
    let mut i: usize = 0;
    while i < segments.len()
        invariant
            i <= segments@.len(),
            action.kind != ActionKind::Read,
            action.command is Some,
            command@ == text::lowered(action.command->0@),
            all == text::pieces(command@, ';'),
            text::char_views(segments@) == all,
            text::str_views(prefixes@) == inspection_prefixes(),
            forall|j: int| 0 <= j < i ==> inspection_segment(text::trimmed(#[trigger] all[j])),
        decreases segments@.len() - i,
    {
        let segment = text::trim_chars(&segments[i]);
        assert(all[i as int] == segments@[i as int]@);
        if segment.len() > 0 && !text::begins_with_any(&segment, &prefixes) {
            assert(!inspection_segment(text::trimmed(all[i as int])));
            return false;
        }
        i = i + 1;
    }
    assert(all.len() == segments@.len());
    true
}

// ---------------------------------------------------------------------------
// Holds
// ---------------------------------------------------------------------------

/// The paths that a repair hold names, read from its record.
pub open spec fn repair_paths_of(payload: Option<Seq<char>>) -> Seq<Seq<char>> {
    match payload {
        Some(document) => match json::json_list_field(document, "unexpected_paths"@) {
            Some(paths) => paths,
            None => Seq::empty(),
        },
        None => Seq::empty(),
    }
}

/// The paths that a repair hold names; none where its record cannot be read.
pub fn repair_paths(payload: &Option<String>) -> (r: Vec<String>)
    ensures
        text::views(r@) == repair_paths_of(model::opt_view(*payload)),
{
    let empty: Vec<String> = Vec::new();
    assert(text::views(empty@) =~= Seq::<Seq<char>>::empty());
    match payload {
        Some(document) => match json::read_list_field(document.as_str(), "unexpected_paths") {
            Some(paths) => paths,
            None => empty,
        },
        None => empty,
    }
}

/// An action works on a repair when it says that it writes, the hold names
/// paths, and one of the paths that the action names contains or is contained
/// in one of them.  Row `i` of the relation tells of the `i`-th path that
/// `mutation_paths` lists, column `j` of the `j`-th path to repair.
pub open spec fn addresses_repair(
    kind: ActionKind,
    targets: int,
    repairs: int,
    related: PathRelation,
) -> bool {
    mutates(kind) && repairs > 0 && related.any_related(targets, repairs)
}

/// Whether an action works on a repair.
pub fn action_addresses_repair(
    action: &ToolAction,
    targets: &Vec<String>,
    repairs: &Vec<String>,
    related: &PathRelation,
) -> (r: bool)
    ensures
        r == addresses_repair(
            action.kind,
            targets@.len() as int,
            repairs@.len() as int,
            *related,
        ),
{
    explicit_mutation(action) && repairs.len() > 0 && related.is_any_related(
        targets.len(),
        repairs.len(),
    )
}

/// A replan that was put before the model and asks for this very proposal.
pub open spec fn replan_matches(
    kind: Option<Seq<char>>,
    delivered: bool,
    held_digest: Option<Seq<char>>,
    proposal_digest: Seq<char>,
) -> bool {
    kind == Some("replan"@) && delivered && held_digest == Some(proposal_digest)
}

/// Whether a delivered replan asks for this proposal, given the digest that
/// its record holds.
pub fn held_replan_matches(
    kind: &Option<String>,
    delivered: bool,
    held_digest: &Option<String>,
    proposal_digest: &str,
) -> (r: bool)
    ensures
        r == replan_matches(
            model::opt_view(*kind),
            delivered,
            model::opt_view(*held_digest),
            proposal_digest@,
        ),
{
    model::opt_is(kind, "replan") && delivered && model::opt_is(held_digest, proposal_digest)
}

/// The proposal digest in the record of a hold.
pub open spec fn held_digest_of(payload: Option<Seq<char>>) -> Option<Seq<char>> {
    match payload {
        Some(document) => json::json_text_field(document, "proposal_digest"@),
        None => None,
    }
}

/// Whether a delivered replan asks for this proposal.
pub fn delivered_replan_matches(
    kind: &Option<String>,
    delivered: bool,
    payload: &Option<String>,
    proposal_digest: &str,
) -> (r: bool)
    ensures
        r == replan_matches(
            model::opt_view(*kind),
            delivered,
            held_digest_of(model::opt_view(*payload)),
            proposal_digest@,
        ),
{
    let held = match payload {
        Some(document) => json::read_text_field(document.as_str(), "proposal_digest"),
        None => None,
    };
    held_replan_matches(kind, delivered, &held, proposal_digest)
}

// ---------------------------------------------------------------------------
// Laws
// ---------------------------------------------------------------------------

/// While a repair is held, nothing that says it writes passes as inspection.
pub proof fn inspection_never_writes(kind: ActionKind, command: Option<Seq<char>>)
    requires
        inspects(kind, command),
    ensures
        !mutates(kind),
        kind != ActionKind::Unknown,
{
}

/// A command that carries a mark of writing is never inspection, wherever the
/// mark stands and in whatever case it is written.
pub proof fn marked_commands_are_not_inspection(
    kind: ActionKind,
    command: Seq<char>,
    marker: int,
)
    requires
        0 <= marker < mutating_markers().len(),
        text::occurs(text::lowered(command), mutating_markers()[marker]),
        kind != ActionKind::Read,
    ensures
        !inspects(kind, Some(command)),
{
    assert(text::any_occurs(text::lowered(command), mutating_markers()));
}

/// Reading is the only kind of action that changes nothing: every other one
/// either says that it writes or may do so unseen, and none does both.  The
/// source is recorded before every action of a known kind that may write.
pub proof fn only_reading_leaves_files_alone(kind: ActionKind)
    ensures
        mutates(kind) <==> kind == ActionKind::Create || kind == ActionKind::Modify || kind
            == ActionKind::Delete,
        mutates(kind) || may_mutate_unseen(kind) <==> kind != ActionKind::Read,
        !(mutates(kind) && may_mutate_unseen(kind)),
        needs_baseline(kind) <==> kind != ActionKind::Read && kind != ActionKind::Unknown,
{
}

/// A text carries a mark of writing.
pub open spec fn marked(low: Seq<char>) -> bool {
    ||| text::occurs(low, "remove-item"@)
    ||| text::occurs(low, "set-content"@)
    ||| text::occurs(low, "add-content"@)
    ||| text::occurs(low, "out-file"@)
    ||| text::occurs(low, "new-item"@)
    ||| text::occurs(low, "copy-item"@)
    ||| text::occurs(low, "move-item"@)
    ||| text::occurs(low, "rename-item"@)
    ||| text::occurs(low, "clear-content"@)
    ||| text::occurs(low, "git add"@)
    ||| text::occurs(low, "git commit"@)
    ||| text::occurs(low, "git checkout"@)
    ||| text::occurs(low, "git switch"@)
    ||| text::occurs(low, "git reset"@)
    ||| text::occurs(low, "git restore"@)
    ||| text::occurs(low, "git clean"@)
    ||| text::occurs(low, "git rm"@)
    ||| text::occurs(low, " rm "@)
    ||| text::occurs(low, " del "@)
    ||| text::occurs(low, " erase "@)
    ||| text::occurs(low, "mkdir"@)
    ||| text::occurs(low, "touch "@)
    ||| text::occurs(low, "apply_patch"@)
    ||| text::occurs(low, ">"@)
}

/// One command of a sequence begins as one that only looks.
pub open spec fn looks(piece: Seq<char>) -> bool {
    ||| text::begins(piece, "git status"@)
    ||| text::begins(piece, "git diff"@)
    ||| text::begins(piece, "git log"@)
    ||| text::begins(piece, "git show"@)
    ||| text::begins(piece, "git branch"@)
    ||| text::begins(piece, "get-childitem"@)
    ||| text::begins(piece, "get-content"@)
    ||| text::begins(piece, "write-host"@)
    ||| text::begins(piece, "write-output"@)
    ||| text::begins(piece, "select-string"@)
    ||| text::begins(piece, "where.exe"@)
    ||| text::begins(piece, "rg "@)
    ||| text::begins(piece, "rg\t"@)
    ||| text::begins(piece, "node --version"@)
    ||| text::begins(piece, "npm --version"@)
}

/// An action goes on during a repair exactly where it reads, or where it is a
/// command that carries no mark of writing and of which every part between two
/// semicolons is empty or begins as one that only looks.
pub proof fn inspection_is_looking_only(kind: ActionKind, command: Option<Seq<char>>)
    ensures
        inspects(kind, command) <==> {
            ||| kind == ActionKind::Read
            ||| (kind == ActionKind::Execute || kind == ActionKind::GitOperation) && command
                is Some && !marked(text::lowered(command->0)) && forall|i: int|
                0 <= i < text::pieces(text::lowered(command->0), ';').len() ==> {
                    let piece = text::trimmed(
                        #[trigger] text::pieces(text::lowered(command->0), ';')[i],
                    );
                    piece.len() == 0 || looks(piece)
                }
        },
{
    if command is Some {
        let low = text::lowered(command->0);
        markers_are_listed(low);
        let parts = text::pieces(low, ';');
        assert forall|i: int| 0 <= i < parts.len() implies inspection_segment(
            text::trimmed(#[trigger] parts[i]),
        ) == (text::trimmed(parts[i]).len() == 0 || looks(text::trimmed(parts[i]))) by {
            prefixes_are_listed(text::trimmed(parts[i]));
        }
        if inspection_command(low) {
            assert forall|i: int| 0 <= i < parts.len() implies ({
                let piece = text::trimmed(#[trigger] parts[i]);
                piece.len() == 0 || looks(piece)
            }) by {
                assert(inspection_segment(text::trimmed(parts[i])));
            }
        }
        if !marked(low) && (forall|i: int|
            0 <= i < parts.len() ==> {
                let piece = text::trimmed(#[trigger] parts[i]);
                piece.len() == 0 || looks(piece)
            }) {
            assert forall|i: int| 0 <= i < parts.len() implies inspection_segment(
                text::trimmed(#[trigger] parts[i]),
            ) by {
                assert(parts[i] == parts[i]);
            }
        }
    }
}

proof fn markers_are_listed(low: Seq<char>)
    ensures
        text::any_occurs(low, mutating_markers()) == marked(low),
{
    let markers = mutating_markers();
    assert(markers.len() == 24);
    assert(markers[0] == "remove-item"@);
    assert(markers[1] == "set-content"@);
    assert(markers[2] == "add-content"@);
    assert(markers[3] == "out-file"@);
    assert(markers[4] == "new-item"@);
    assert(markers[5] == "copy-item"@);
    assert(markers[6] == "move-item"@);
    assert(markers[7] == "rename-item"@);
    assert(markers[8] == "clear-content"@);
    assert(markers[9] == "git add"@);
    assert(markers[10] == "git commit"@);
    assert(markers[11] == "git checkout"@);
    assert(markers[12] == "git switch"@);
    assert(markers[13] == "git reset"@);
    assert(markers[14] == "git restore"@);
    assert(markers[15] == "git clean"@);
    assert(markers[16] == "git rm"@);
    assert(markers[17] == " rm "@);
    assert(markers[18] == " del "@);
    assert(markers[19] == " erase "@);
    assert(markers[20] == "mkdir"@);
    assert(markers[21] == "touch "@);
    assert(markers[22] == "apply_patch"@);
    assert(markers[23] == ">"@);
    if text::any_occurs(low, markers) {
        let i = choose|i: int|
            0 <= i < markers.len() && text::occurs(low, #[trigger] markers[i]);
        assert(marked(low));
    }
}

proof fn prefixes_are_listed(piece: Seq<char>)
    ensures
        text::any_begins(piece, inspection_prefixes()) == looks(piece),
{
    let prefixes = inspection_prefixes();
    assert(prefixes.len() == 15);
    assert(prefixes[0] == "git status"@);
    assert(prefixes[1] == "git diff"@);
    assert(prefixes[2] == "git log"@);
    assert(prefixes[3] == "git show"@);
    assert(prefixes[4] == "git branch"@);
    assert(prefixes[5] == "get-childitem"@);
    assert(prefixes[6] == "get-content"@);
    assert(prefixes[7] == "write-host"@);
    assert(prefixes[8] == "write-output"@);
    assert(prefixes[9] == "select-string"@);
    assert(prefixes[10] == "where.exe"@);
    assert(prefixes[11] == "rg "@);
    assert(prefixes[12] == "rg\t"@);
    assert(prefixes[13] == "node --version"@);
    assert(prefixes[14] == "npm --version"@);
    if text::any_begins(piece, prefixes) {
        let i = choose|i: int|
            0 <= i < prefixes.len() && text::begins(piece, #[trigger] prefixes[i]);
        assert(looks(piece));
    }
}

/// An action works on a repair exactly where it creates, edits or deletes and
/// one of the paths that it names relates to one of the paths to repair.
pub proof fn repairs_are_addressed_by_their_paths(
    kind: ActionKind,
    targets: int,
    repairs: int,
    related: PathRelation,
)
    ensures
        addresses_repair(kind, targets, repairs, related) <==> (kind == ActionKind::Create || kind
            == ActionKind::Modify || kind == ActionKind::Delete) && exists|i: int, j: int|
            0 <= i < targets && 0 <= j < repairs && #[trigger] related.related(i, j),
{
    if related.any_related(targets, repairs) {
        let i = choose|i: int| 0 <= i < targets && #[trigger] related.related_to_any(i, repairs);
        let j = choose|j: int| 0 <= j < repairs && related.related(i, j);
        assert(related.related(i, j));
    }
    if exists|i: int, j: int|
        0 <= i < targets && 0 <= j < repairs && #[trigger] related.related(i, j) {
        let (i, j) = choose|i: int, j: int|
            0 <= i < targets && 0 <= j < repairs && #[trigger] related.related(i, j);
        assert(related.related_to_any(i, repairs));
    }
}

/// A plan that was asked for is given exactly by the proposal that it was asked
/// for, once the model was told of it.
pub proof fn replans_match_the_held_proposal(
    kind: Option<Seq<char>>,
    delivered: bool,
    held: Option<Seq<char>>,
    proposal: Seq<char>,
)
    ensures
        replan_matches(kind, delivered, held, proposal) <==> kind == Some("replan"@) && delivered
            && held == Some(proposal),
{
}

} // verus!
