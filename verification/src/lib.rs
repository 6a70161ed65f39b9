//! The decision core of Project Brain: deterministic rules, evidence and
//! control-session logic, stated as contracts and proved.
#![allow(unused_imports)]

pub mod analyze;
pub mod artifact_store;
pub mod build_evidence;
pub mod build_run;
pub mod bundle_run;
pub mod codex;
pub mod compaction;
pub mod compaction_run;
pub mod control;
pub mod database;
pub mod decision;
pub mod delivery;
pub mod digest;
pub mod engine_run;
pub mod error;
pub mod event;
pub mod evidence;
pub mod evidence_flow;
pub mod evidence_inputs;
pub mod evidence_provider;
pub mod execution;
pub mod findings;
pub mod git;
pub mod godot;
pub mod governance;
pub mod holds;
pub mod impact;
pub mod json;
pub mod model;
pub mod order;
pub mod paths;
pub mod project;
pub mod protocol;
pub mod provider;
pub mod provider_bind;
pub mod provider_flow;
pub mod provider_import;
pub mod provider_run;
pub mod qualification;
pub mod qualification_cases;
pub mod qualification_run;
pub mod reconcile;
pub mod repair;
pub mod replies;
pub mod shell;
pub mod sorting;
pub mod stability;
pub mod stability_run;
pub mod status;
pub mod symbols;
pub mod text;
