# Project Brain

Project Brain is a deterministic control plane for coding agents. It remembers
what a project has decided, answers the hook calls of an agent from that memory,
and keeps evidence of what indexers, engines and builds have found. Rules and
evidence decide what an agent may do; nothing is guessed, and whatever is not
known for certain only ever counts as advice.

## Layout

- `src/` is the library. Every item of it is verified with Verus: its functions
  state in `requires` and `ensures` what they do, and the laws that hold across
  functions stand next to them as public proof functions.
- `tests/` runs the library on concrete values.
- `app/` is the command line around it: files, processes, Git, locks, the clock
  and the store.

## The library

| Area | Modules |
| --- | --- |
| Texts, digests, paths, order, documents | `text`, `digest`, `paths`, `order`, `sorting`, `json` |
| What is said to and by agents | `event`, `model`, `codex`, `shell`, `replies`, `error` |
| A hook call from event to outcome | `delivery`, `protocol`, `control`, `decision`, `symbols`, `findings`, `reconcile`, `repair`, `holds`, `impact`, `evidence` |
| The project and its repository | `project`, `governance`, `git`, `analyze`, `status` |
| Programs that index projects | `provider`, `provider_bind`, `provider_run`, `provider_flow`, `provider_import`, `stability`, `stability_run`, `execution` |
| Evidence of providers, engines and builds | `evidence_provider`, `evidence_inputs`, `evidence_flow`, `godot`, `engine_run`, `build_evidence`, `build_run`, `artifact_store`, `bundle_run` |
| Maintenance of the database | `database`, `compaction`, `compaction_run` |
| Qualification of the control plane | `qualification`, `qualification_cases`, `qualification_run` |

What alternates between deciding and acting is a machine: a value with a phase
that says what has to be done next, and a `step` that takes what came of it. The
machine never touches a file or a process itself. `app/` carries out the phase
and hands the reply back, so what a run does on every reply is stated and proved
in one place.

## What is trusted

A handful of calls are taken on trust, each behind one item with a contract of
its own: SHA-256 from `sha2`, the reading and writing of JSON with `serde_json`,
and a few functions of the standard library on strings.
