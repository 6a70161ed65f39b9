//! What is written down of a deviation, so that a later event can tell what it
//! asks for.
use crate::json;
use crate::model;
use crate::protocol::{HoldRecord, HoldView};
use crate::repair;
use crate::text;
use vstd::prelude::*;

verus! {

broadcast use {vstd::string::group_string_axioms, vstd::seq::group_seq_axioms};

/// The tool whose end showed a deviation.
#[derive(Debug, Clone, PartialEq, Eq)]
pub struct HeldTool {
    pub operation_id: String,
    pub tool_name: String,
    pub result_digest: Option<String>,
}

/// A text as JSON, and `null` where there is none.
pub open spec fn text_or_null(s: Option<Seq<char>>) -> Seq<char> {
    match s {
        Some(s) => json::json_written(s),
        None => "null"@,
    }
}

/// What is written down of a deviation, member by member with the JSON text of
/// each; `decision` is the decision of a replan as JSON.
pub open spec fn parts(hold: HoldView, tool: HeldTool, decision: Seq<char>) -> Seq<
    (Seq<char>, Seq<char>),
> {
    let note = json::json_written(hold.note());
    let result = text_or_null(model::opt_view(tool.result_digest));
    match hold {
        HoldView::Replan { proposal_digest, target_files, .. } => seq![
            ("schema_version"@, "1"@),
            ("proposal_digest"@, json::json_written(proposal_digest)),
            ("target_files"@, json::list_written(target_files)),
            ("decision"@, decision),
            ("instruction"@, note),
        ],
        HoldView::MissingProposal { declared_targets } => seq![
            ("schema_version"@, "1"@),
            ("operation_id"@, json::json_written(tool.operation_id@)),
            ("tool_name"@, json::json_written(tool.tool_name@)),
            ("reason"@, note),
            ("declared_targets"@, json::list_written(declared_targets)),
            ("result_digest"@, result),
        ],
        HoldView::MissingBaseline { declared_targets } => seq![
            ("schema_version"@, "1"@),
            ("operation_id"@, json::json_written(tool.operation_id@)),
            ("tool_name"@, json::json_written(tool.tool_name@)),
            ("reason"@, note),
            ("declared_targets"@, json::list_written(declared_targets)),
            ("result_digest"@, result),
        ],
        HoldView::Deviation {
            proposal_digest,
            expected_paths,
            observed_paths,
            unexpected_paths,
        } => seq![
            ("schema_version"@, "1"@),
            ("operation_id"@, json::json_written(tool.operation_id@)),
            ("tool_name"@, json::json_written(tool.tool_name@)),
            ("proposal_digest"@, json::json_written(proposal_digest)),
            ("expected_paths"@, json::list_written(expected_paths)),
            ("observed_paths"@, json::list_written(observed_paths)),
            ("unexpected_paths"@, json::list_written(unexpected_paths)),
            ("result_digest"@, result),
            ("instruction"@, note),
        ],
    }
}

fn optional_text(s: &Option<String>) -> (r: String)
    ensures
        r@ == text_or_null(model::opt_view(*s)),
{
    match s {
        Some(s) => json::write_string(s.as_str()),
        None => "null".to_owned(),
    }
}

proof fn names_differ(hold: HoldView, tool: HeldTool, decision: Seq<char>)
    ensures
        json::members_apart(parts(hold, tool, decision)),
{
    reveal_strlit("schema_version");
    reveal_strlit("operation_id");
    reveal_strlit("tool_name");
    reveal_strlit("proposal_digest");
    reveal_strlit("target_files");
    reveal_strlit("decision");
    reveal_strlit("instruction");
    reveal_strlit("reason");
    reveal_strlit("declared_targets");
    reveal_strlit("result_digest");
    reveal_strlit("expected_paths");
    reveal_strlit("observed_paths");
    reveal_strlit("unexpected_paths");
    assert("schema_version"@.len() == 14 && "schema_version"@[0] == 's');
    assert("operation_id"@.len() == 12 && "operation_id"@[0] == 'o');
    assert("tool_name"@.len() == 9);
    assert("proposal_digest"@.len() == 15);
    assert("target_files"@.len() == 12 && "target_files"@[0] == 't');
    assert("decision"@.len() == 8);
    assert("instruction"@.len() == 11);
    assert("reason"@.len() == 6);
    assert("declared_targets"@.len() == 16);
    assert("result_digest"@.len() == 13);
    assert("expected_paths"@.len() == 14 && "expected_paths"@[0] == 'e');
    assert("observed_paths"@.len() == 14 && "observed_paths"@[0] == 'o');
    assert("unexpected_paths"@.len() == 16);
}

fn members_of(hold: &HoldRecord, tool: &HeldTool, decision: String) -> (r: Vec<
    (&'static str, String),
>)
    ensures
        json::member_views(r@) == parts(hold@, *tool, decision@),
{
    let one = "1".to_owned();
    let note = json::write_string(hold.note());
    let members: Vec<(&'static str, String)> = match hold {
        HoldRecord::Replan { proposal_digest, target_files, .. } => vec![
            ("schema_version", one),
            ("proposal_digest", json::write_string(proposal_digest.as_str())),
            ("target_files", json::write_list(target_files)),
            ("decision", decision),
            ("instruction", note),
        ],
        HoldRecord::MissingProposal { declared_targets }
        | HoldRecord::MissingBaseline { declared_targets } => vec![
            ("schema_version", one),
            ("operation_id", json::write_string(tool.operation_id.as_str())),
            ("tool_name", json::write_string(tool.tool_name.as_str())),
            ("reason", note),
            ("declared_targets", json::write_list(declared_targets)),
            ("result_digest", optional_text(&tool.result_digest)),
        ],
        HoldRecord::Deviation {
            proposal_digest,
            expected_paths,
            observed_paths,
            unexpected_paths,
        } => vec![
            ("schema_version", one),
            ("operation_id", json::write_string(tool.operation_id.as_str())),
            ("tool_name", json::write_string(tool.tool_name.as_str())),
            ("proposal_digest", json::write_string(proposal_digest.as_str())),
            ("expected_paths", json::write_list(expected_paths)),
            ("observed_paths", json::write_list(observed_paths)),
            ("unexpected_paths", json::write_list(unexpected_paths)),
            ("result_digest", optional_text(&tool.result_digest)),
            ("instruction", note),
        ],
    };
    assert(json::member_views(members@) =~= parts(hold@, *tool, decision@));
    members
}

/// What is written down of a deviation.  What a later event looks for is read
/// back from it, where it can be read at all: the digest of the proposal that
/// has to be made again, and the paths that went beyond what was proposed.
pub fn description(hold: &HoldRecord, tool: &HeldTool, decision: String) -> (r: String)
    ensures
        r@ == json::json_object_written(parts(hold@, *tool, decision@)),
        json::json_complaint(vstd::utf8::encode_utf8(r@)) is None ==> match hold@ {
            HoldView::Replan { proposal_digest, .. } => repair::held_digest_of(Some(r@)) == Some(
                proposal_digest,
            ),
            HoldView::Deviation { proposal_digest, unexpected_paths, .. } => {
                &&& repair::held_digest_of(Some(r@)) == Some(proposal_digest)
                &&& repair::repair_paths_of(Some(r@)) == unexpected_paths
            },
            _ => true,
        },
{
    let ghost said = decision@;
    let members = members_of(hold, tool, decision);
    proof {
        names_differ(hold@, *tool, said);
    }
    let r = json::write_object(&members);
    proof {
        let p = parts(hold@, *tool, said);
        let views = json::member_views(members@);
        assert(views == p);
        assert(members@.len() == p.len());
        match hold@ {
            HoldView::Replan { proposal_digest, .. } => {
                assert(p.len() == 5);
                assert(p[1] == ("proposal_digest"@, json::json_written(proposal_digest)));
                assert(views[1] == (members@[1].0@, members@[1].1@));
                assert(members@[1].1@ == json::json_written(proposal_digest));
            },
            HoldView::Deviation { proposal_digest, unexpected_paths, .. } => {
                assert(p.len() == 9);
                assert(p[3] == ("proposal_digest"@, json::json_written(proposal_digest)));
                assert(p[6] == ("unexpected_paths"@, json::list_written(unexpected_paths)));
                assert(views[3] == (members@[3].0@, members@[3].1@));
                assert(views[6] == (members@[6].0@, members@[6].1@));
                assert(members@[3].1@ == json::json_written(proposal_digest));
                assert(members@[6].1@ == json::list_written(unexpected_paths));
            },
            _ => {},
        }
    }
    r
}

} // verus!
