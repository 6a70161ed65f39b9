//! A project: how it is named, what its configuration begins with, and where
//! it is found.
use crate::digest;
use crate::error::{self, AppError, ErrorView};
use crate::event::AdapterKind;
use crate::model::{self, ActionKind, Authority, MemoryStatus, Rule, RuleEffect, RuleStrength};
use crate::protocol::StopReconcileConfig;
use crate::text;
use vstd::prelude::*;

verus! {

broadcast use {vstd::string::group_string_axioms, vstd::seq::group_seq_axioms};

/// The most that is read of what a hook is handed, in bytes.
pub const MAX_HOOK_INPUT_BYTES: u64 = 1048576;

/// The agents that hooks are installed for.
#[derive(Debug, Clone, Copy, PartialEq, Eq, Structural)]
pub enum AgentKind {
    Codex,
    ClaudeCode,
    PrimeAgent,
}

impl AgentKind {
    /// The agent as events tell of it.
    pub open spec fn kind(self) -> AdapterKind {
        match self {
            AgentKind::Codex => AdapterKind::Codex,
            AgentKind::ClaudeCode => AdapterKind::ClaudeCode,
            AgentKind::PrimeAgent => AdapterKind::PrimeAgent,
        }
    }

    /// The agent as events tell of it.
    pub fn adapter_kind(self) -> (r: AdapterKind)
        ensures
            r == self.kind(),
    {
        match self {
            AgentKind::Codex => AdapterKind::Codex,
            AgentKind::ClaudeCode => AdapterKind::ClaudeCode,
            AgentKind::PrimeAgent => AdapterKind::PrimeAgent,
        }
    }
}

// ---------------------------------------------------------------------------
// Profiles
// ---------------------------------------------------------------------------

/// What a project is set up for, as its user says.  Nothing is guessed from the
/// files of a repository.
#[derive(Debug, Clone, Copy, PartialEq, Eq, PartialOrd, Ord, Structural)]
pub enum ProjectProfile {
    Rust,
    Dotnet,
    Python,
}

#[derive(Debug, Clone, PartialEq, Eq)]
pub struct ProjectLanguageProfile {
    pub language: String,
    pub roots: Vec<String>,
}

#[derive(Debug, Clone, Copy, PartialEq, Eq, Structural)]
pub enum SemanticProviderFormat {
    Scip,
}

#[derive(Debug, Clone, PartialEq, Eq)]
pub struct SemanticLanguageMapping {
    pub raw_language: Option<String>,
    pub language: String,
    pub allow_missing_language: bool,
}

/// A provider of symbols as a project configures it.
#[derive(Debug, Clone, PartialEq, Eq)]
pub struct ConfiguredProvider {
    pub id: String,
    pub format: SemanticProviderFormat,
    pub producer: String,
    pub contract_version: u32,
    pub language_mappings: Vec<SemanticLanguageMapping>,
}

/// What a language mapping says.
pub struct MappingView {
    pub raw_language: Option<Seq<char>>,
    pub language: Seq<char>,
    pub allow_missing_language: bool,
}

/// What a provider's configuration says.
pub struct ProviderView {
    pub id: Seq<char>,
    pub format: SemanticProviderFormat,
    pub producer: Seq<char>,
    pub contract_version: u32,
    pub mappings: Seq<MappingView>,
}

impl View for SemanticLanguageMapping {
    type V = MappingView;

    open spec fn view(&self) -> MappingView {
        MappingView {
            raw_language: model::opt_view(self.raw_language),
            language: self.language@,
            allow_missing_language: self.allow_missing_language,
        }
    }
}

impl View for ConfiguredProvider {
    type V = ProviderView;

    open spec fn view(&self) -> ProviderView {
        ProviderView {
            id: self.id@,
            format: self.format,
            producer: self.producer@,
            contract_version: self.contract_version,
            mappings: self.language_mappings@.map_values(|m: SemanticLanguageMapping| m@),
        }
    }
}

/// The languages of language profiles; none of them is bound to a directory.
pub open spec fn languages_say(v: Seq<ProjectLanguageProfile>, names: Seq<Seq<char>>) -> bool {
    &&& v.len() == names.len()
    &&& forall|i: int|
        0 <= i < v.len() ==> (#[trigger] v[i]).language@ == names[i] && v[i].roots@.len() == 0
}

/// A mapping from a language that an index names.
pub open spec fn named(raw: Seq<char>, language: Seq<char>) -> MappingView {
    MappingView { raw_language: Some(raw), language, allow_missing_language: false }
}

/// The languages of a profile.
pub open spec fn languages_of(profile: ProjectProfile) -> Seq<Seq<char>> {
    match profile {
        ProjectProfile::Rust => seq!["rust"@],
        ProjectProfile::Dotnet => seq!["csharp"@, "visual-basic"@],
        ProjectProfile::Python => seq!["python"@],
    }
}

/// The provider of a profile.
pub open spec fn provider_of(profile: ProjectProfile) -> ProviderView {
    match profile {
        ProjectProfile::Rust => ProviderView {
            id: "rust-main"@,
            format: SemanticProviderFormat::Scip,
            producer: "rust-analyzer"@,
            contract_version: 1,
            mappings: seq![named("rust"@, "rust"@)],
        },
        ProjectProfile::Dotnet => ProviderView {
            id: "dotnet-main"@,
            format: SemanticProviderFormat::Scip,
            producer: "scip-dotnet"@,
            contract_version: 1,
            mappings: seq![
                named("C#"@, "csharp"@),
                named("Visual Basic"@, "visual-basic"@),
            ],
        },
        ProjectProfile::Python => ProviderView {
            id: "python-main"@,
            format: SemanticProviderFormat::Scip,
            producer: "scip-python"@,
            contract_version: 1,
            mappings: seq![
                MappingView {
                    raw_language: None,
                    language: "python"@,
                    allow_missing_language: true,
                },
            ],
        },
    }
}

/// The profiles among some, each once and in their own order.
pub open spec fn distinct_profiles(profiles: Seq<ProjectProfile>) -> Seq<ProjectProfile> {
    seq![ProjectProfile::Rust, ProjectProfile::Dotnet, ProjectProfile::Python].filter(
        |p: ProjectProfile| profiles.contains(p),
    )
}

/// The languages of profiles, one after another.
pub open spec fn all_languages(profiles: Seq<ProjectProfile>) -> Seq<Seq<char>>
    decreases profiles.len(),
{
    if profiles.len() == 0 {
        Seq::empty()
    } else {
        all_languages(profiles.drop_last()) + languages_of(profiles.last())
    }
}

/// The providers of profiles, one after another.
pub open spec fn all_providers(profiles: Seq<ProjectProfile>) -> Seq<ProviderView> {
    profiles.map_values(|p: ProjectProfile| provider_of(p))
}

/// What providers' configurations say.
pub open spec fn provider_views(v: Seq<ConfiguredProvider>) -> Seq<ProviderView> {
    v.map_values(|p: ConfiguredProvider| p@)
}

fn has_profile(profiles: &Vec<ProjectProfile>, profile: ProjectProfile) -> (r: bool)
    ensures
        r == profiles@.contains(profile),
{
    let mut i: usize = 0;
    while i < profiles.len()
        invariant
            i <= profiles@.len(),
            forall|k: int| 0 <= k < i ==> profiles@[k] != profile,
        decreases profiles@.len() - i,
    {
        if profiles[i] == profile {
            return true;
        }
        i = i + 1;
    }
    false
}

fn unique_profiles(profiles: &Vec<ProjectProfile>) -> (r: Vec<ProjectProfile>)
    ensures
        r@ == distinct_profiles(profiles@),
{
    let known: Vec<ProjectProfile> = vec![
        ProjectProfile::Rust,
        ProjectProfile::Dotnet,
        ProjectProfile::Python,
    ];
    let ghost all = seq![ProjectProfile::Rust, ProjectProfile::Dotnet, ProjectProfile::Python];
    let ghost wanted = |p: ProjectProfile| profiles@.contains(p);
    assert(known@ =~= all);
    let mut out: Vec<ProjectProfile> = Vec::new();
    let mut i: usize = 0;
    proof {
        reveal(Seq::filter);
    }
    assert(all.take(0) =~= Seq::<ProjectProfile>::empty());
    assert(all.take(0).filter(wanted) =~= Seq::<ProjectProfile>::empty());
    while i < known.len()
        invariant
            i <= known@.len(),
            known@ == all,
            wanted == (|p: ProjectProfile| profiles@.contains(p)),
            out@ == all.take(i as int).filter(wanted),
        decreases known@.len() - i,
    {
        proof {
            reveal(Seq::filter);
        }
        assert(all.take(i + 1).drop_last() =~= all.take(i as int));
        assert(all.take(i + 1).last() == all[i as int]);
        if has_profile(profiles, known[i]) {
            out.push(known[i]);
        }
        i = i + 1;
    }
    assert(all.take(all.len() as int) =~= all);
    out
}

fn language(name: &str) -> (r: ProjectLanguageProfile)
    ensures
        r.language@ == name@,
        r.roots@.len() == 0,
{
    ProjectLanguageProfile { language: name.to_owned(), roots: Vec::new() }
}

fn mapping(raw: &str, name: &str) -> (r: SemanticLanguageMapping)
    ensures
        r@ == named(raw@, name@),
{
    SemanticLanguageMapping {
        raw_language: Some(raw.to_owned()),
        language: name.to_owned(),
        allow_missing_language: false,
    }
}

fn provider_template(profile: ProjectProfile) -> (r: ConfiguredProvider)
    ensures
        r@ == provider_of(profile),
{
    let mut language_mappings: Vec<SemanticLanguageMapping> = Vec::new();
    let (id, producer): (&str, &str) = match profile {
        ProjectProfile::Rust => {
            language_mappings.push(mapping("rust", "rust"));
            ("rust-main", "rust-analyzer")
        },
        ProjectProfile::Dotnet => {
            language_mappings.push(mapping("C#", "csharp"));
            language_mappings.push(mapping("Visual Basic", "visual-basic"));
            ("dotnet-main", "scip-dotnet")
        },
        ProjectProfile::Python => {
            language_mappings.push(
                SemanticLanguageMapping {
                    raw_language: None,
                    language: "python".to_owned(),
                    allow_missing_language: true,
                },
            );
            ("python-main", "scip-python")
        },
    };
    let r = ConfiguredProvider {
        id: id.to_owned(),
        format: SemanticProviderFormat::Scip,
        producer: producer.to_owned(),
        contract_version: 1,
        language_mappings,
    };
    assert(r@.mappings =~= provider_of(profile).mappings);
    r
}

fn push_languages(profile: ProjectProfile, out: &mut Vec<ProjectLanguageProfile>)
    ensures
        forall|names: Seq<Seq<char>>|
            #[trigger] languages_say(old(out)@, names) ==> languages_say(
                final(out)@,
                names + languages_of(profile),
            ),
{
    match profile {
        ProjectProfile::Rust => {
            out.push(language("rust"));
        },
        ProjectProfile::Dotnet => {
            out.push(language("csharp"));
            out.push(language("visual-basic"));
        },
        ProjectProfile::Python => {
            out.push(language("python"));
        },
    }
}

/// The languages and providers of profiles, each profile once.
pub fn profile_config(profiles: &Vec<ProjectProfile>) -> (r: (
    Vec<ProjectLanguageProfile>,
    Vec<ConfiguredProvider>,
))
    ensures
        languages_say(r.0@, all_languages(distinct_profiles(profiles@))),
        provider_views(r.1@) == all_providers(distinct_profiles(profiles@)),
{
    let wanted = unique_profiles(profiles);
    let mut languages: Vec<ProjectLanguageProfile> = Vec::new();
    let mut providers: Vec<ConfiguredProvider> = Vec::new();
    let mut i: usize = 0;
    assert(wanted@.take(0) =~= Seq::<ProjectProfile>::empty());
    assert(provider_views(providers@) =~= all_providers(wanted@.take(0)));
    while i < wanted.len()
        invariant
            i <= wanted@.len(),
            languages_say(languages@, all_languages(wanted@.take(i as int))),
            provider_views(providers@) == all_providers(wanted@.take(i as int)),
        decreases wanted@.len() - i,
    {
        let ghost before = provider_views(providers@);
        assert(wanted@.take(i + 1).drop_last() =~= wanted@.take(i as int));
        push_languages(wanted[i], &mut languages);
        providers.push(provider_template(wanted[i]));
        assert(provider_views(providers@) =~= before.push(provider_of(wanted@[i as int])));
        assert(all_providers(wanted@.take(i + 1)) =~= before.push(provider_of(wanted@[i as int])));
        i = i + 1;
    }
    assert(wanted@.take(wanted@.len() as int) =~= wanted@);
    (languages, providers)
}

/// A project that asks for no profile gets none, and asking twice is asking
/// once: only which profiles are asked for counts.
pub proof fn profiles_are_never_guessed(a: Seq<ProjectProfile>, b: Seq<ProjectProfile>)
    requires
        forall|p: ProjectProfile| a.contains(p) <==> b.contains(p),
    ensures
        distinct_profiles(a) == distinct_profiles(b),
        a.len() == 0 ==> distinct_profiles(a).len() == 0,
{
    let f = |p: ProjectProfile| a.contains(p);
    let g = |p: ProjectProfile| b.contains(p);
    assert(f =~= g);
    if a.len() == 0 {
        reveal(Seq::filter);
        let all = seq![ProjectProfile::Rust, ProjectProfile::Dotnet, ProjectProfile::Python];
        assert(all.drop_last() =~= seq![ProjectProfile::Rust, ProjectProfile::Dotnet]);
        assert(all.drop_last().drop_last() =~= seq![ProjectProfile::Rust]);
        assert(all.drop_last().drop_last().drop_last() =~= Seq::<ProjectProfile>::empty());
        assert(Seq::<ProjectProfile>::empty().filter(f).len() == 0);
        assert(seq![ProjectProfile::Rust].filter(f).len() == 0);
        assert(seq![ProjectProfile::Rust, ProjectProfile::Dotnet].filter(f).len() == 0);
    }
}

// ---------------------------------------------------------------------------
// The first configuration
// ---------------------------------------------------------------------------

/// The configuration that a project begins with.
#[derive(Debug, Clone, PartialEq, Eq)]
pub struct InitialConfig {
    pub schema_version: u32,
    pub project_key: String,
    pub project_name: String,
    pub language_profiles: Vec<ProjectLanguageProfile>,
    pub semantic_providers: Vec<ConfiguredProvider>,
    pub stop_reconcile: StopReconcileConfig,
    pub rules: Vec<Rule>,
}

/// What a rule of the first configuration says: an active rule of the
/// repository without bounds on symbols.
pub open spec fn core_rule(
    r: Rule,
    id: Seq<char>,
    strength: RuleStrength,
    effect: RuleEffect,
    include_paths: Seq<Seq<char>>,
    exclude_paths: Seq<Seq<char>>,
    actions: Seq<ActionKind>,
    operations: Seq<Seq<char>>,
    operation_contains: Seq<Seq<char>>,
) -> bool {
    &&& r.id@ == id
    &&& r.status == MemoryStatus::Active
    &&& r.authority == Authority::RepositoryRule
    &&& r.strength == strength
    &&& r.effect == effect
    &&& text::views(r.include_paths@) == include_paths
    &&& text::views(r.exclude_paths@) == exclude_paths
    &&& r.actions@ == actions
    &&& text::views(r.operations@) == operations
    &&& text::views(r.operation_contains@) == operation_contains
    &&& r.symbol_scopes@.len() == 0
}

fn texts(items: &Vec<&str>) -> (r: Vec<String>)
    ensures
        text::views(r@) == text::str_views(items@),
{
    let mut out: Vec<String> = Vec::new();
    let mut i: usize = 0;
    while i < items.len()
        invariant
            i <= items@.len(),
            out@.len() == i,
            forall|k: int| 0 <= k < i ==> (#[trigger] out@[k])@ == items@[k]@,
        decreases items@.len() - i,
    {
        out.push(items[i].to_owned());
        i = i + 1;
    }
    assert(text::views(out@) =~= text::str_views(items@));
    out
}

fn make_rule(
    id: &str,
    strength: RuleStrength,
    effect: RuleEffect,
    include_paths: &Vec<&str>,
    exclude_paths: &Vec<&str>,
    actions: Vec<ActionKind>,
    operations: &Vec<&str>,
    operation_contains: &Vec<&str>,
    message: &str,
    rationale: &str,
) -> (r: Rule)
    ensures
        core_rule(
            r,
            id@,
            strength,
            effect,
            text::str_views(include_paths@),
            text::str_views(exclude_paths@),
            actions@,
            text::str_views(operations@),
            text::str_views(operation_contains@),
        ),
        r.message@ == message@,
        r.rationale@ == rationale@,
{
    Rule {
        id: id.to_owned(),
        status: MemoryStatus::Active,
        authority: Authority::RepositoryRule,
        strength,
        effect,
        include_paths: texts(include_paths),
        exclude_paths: texts(exclude_paths),
        actions,
        operations: texts(operations),
        operation_contains: texts(operation_contains),
        symbol_scopes: Vec::new(),
        message: message.to_owned(),
        rationale: rationale.to_owned(),
    }
}

/// The rules of the first configuration: the configuration is not deleted, be
/// it by path or by a shell command, and whoever changes what stands next to it
/// is reminded of what depends on it.
pub open spec fn first_rules(rules: Seq<Rule>) -> bool {
    &&& rules.len() == 3
    &&& core_rule(
        rules[0],
        "PB-CORE-001"@,
        RuleStrength::Hard,
        RuleEffect::Block,
        seq![".project-brain/config.json"@],
        Seq::empty(),
        seq![ActionKind::Delete],
        Seq::empty(),
        Seq::empty(),
    )
    &&& rules[0].message@
        == "禁止通过普通删除操作移除 Project Brain 的项目规则配置"@
    &&& rules[0].rationale@ == "规则控制面必须通过显式的规则修订流程变更"@
    &&& core_rule(
        rules[1],
        "PB-CORE-002"@,
        RuleStrength::Soft,
        RuleEffect::InjectContext,
        seq![".project-brain"@],
        seq![".project-brain/brain.db"@],
        seq![ActionKind::Create, ActionKind::Modify],
        Seq::empty(),
        Seq::empty(),
    )
    &&& rules[1].message@
        == "正在修改项目决策控制面；请保持 schema_version、authority 与 lifecycle 语义兼容"@
    &&& rules[1].rationale@ == "控制面规则变化会影响后续所有 Agent 行为"@
    &&& core_rule(
        rules[2],
        "PB-CORE-003"@,
        RuleStrength::Hard,
        RuleEffect::Block,
        Seq::empty(),
        Seq::empty(),
        seq![ActionKind::Delete],
        seq!["Bash"@],
        seq![".project-brain/config.json"@, ".project-brain\\config.json"@],
    )
    &&& rules[2].message@ == "禁止通过 shell 删除 Project Brain 的项目规则配置"@
    &&& rules[2].rationale@
        == "无结构化路径参数的 shell 删除需要单独匹配命令载荷"@
}

fn core_rules() -> (r: Vec<Rule>)
    ensures
        first_rules(r@),
{
    let none: Vec<&str> = Vec::new();
    assert(text::str_views(none@) =~= Seq::<Seq<char>>::empty());
    let config: Vec<&str> = vec![".project-brain/config.json"];
    assert(text::str_views(config@) =~= seq![".project-brain/config.json"@]);
    let directory: Vec<&str> = vec![".project-brain"];
    assert(text::str_views(directory@) =~= seq![".project-brain"@]);
    let database: Vec<&str> = vec![".project-brain/brain.db"];
    assert(text::str_views(database@) =~= seq![".project-brain/brain.db"@]);
    let shell: Vec<&str> = vec!["Bash"];
    assert(text::str_views(shell@) =~= seq!["Bash"@]);
    let written: Vec<&str> = vec![".project-brain/config.json", ".project-brain\\config.json"];
    assert(text::str_views(written@) =~= seq![
        ".project-brain/config.json"@,
        ".project-brain\\config.json"@,
    ]);
    let delete: Vec<ActionKind> = vec![ActionKind::Delete];
    assert(delete@ =~= seq![ActionKind::Delete]);
    let change: Vec<ActionKind> = vec![ActionKind::Create, ActionKind::Modify];
    assert(change@ =~= seq![ActionKind::Create, ActionKind::Modify]);
    let again: Vec<ActionKind> = vec![ActionKind::Delete];
    assert(again@ =~= seq![ActionKind::Delete]);
    let mut rules: Vec<Rule> = Vec::new();
    rules.push(
        make_rule(
            "PB-CORE-001",
            RuleStrength::Hard,
            RuleEffect::Block,
            &config,
            &none,
            delete,
            &none,
            &none,
            "禁止通过普通删除操作移除 Project Brain 的项目规则配置",
            "规则控制面必须通过显式的规则修订流程变更",
        ),
    );
    rules.push(
        make_rule(
            "PB-CORE-002",
            RuleStrength::Soft,
            RuleEffect::InjectContext,
            &directory,
            &database,
            change,
            &none,
            &none,
            "正在修改项目决策控制面；请保持 schema_version、authority 与 lifecycle 语义兼容",
            "控制面规则变化会影响后续所有 Agent 行为",
        ),
    );
    rules.push(
        make_rule(
            "PB-CORE-003",
            RuleStrength::Hard,
            RuleEffect::Block,
            &none,
            &none,
            again,
            &shell,
            &written,
            "禁止通过 shell 删除 Project Brain 的项目规则配置",
            "无结构化路径参数的 shell 删除需要单独匹配命令载荷",
        ),
    );
    rules
}

/// The configuration that a project begins with.
pub fn initial_config(
    schema_version: u32,
    project_name: String,
    project_key: String,
    profiles: &Vec<ProjectProfile>,
) -> (r: InitialConfig)
    ensures
        r.schema_version == schema_version,
        r.project_name == project_name,
        r.project_key == project_key,
        languages_say(r.language_profiles@, all_languages(distinct_profiles(profiles@))),
        provider_views(r.semantic_providers@) == all_providers(distinct_profiles(profiles@)),
        r.stop_reconcile.enabled,
        r.stop_reconcile.base@ == "HEAD"@,
        r.stop_reconcile.envelope@ == ".project-brain/envelope.json"@,
        first_rules(r.rules@),
{
    let (language_profiles, semantic_providers) = profile_config(profiles);
    InitialConfig {
        schema_version,
        project_key,
        project_name,
        language_profiles,
        semantic_providers,
        stop_reconcile: StopReconcileConfig {
            enabled: true,
            base: "HEAD".to_owned(),
            envelope: ".project-brain/envelope.json".to_owned(),
        },
        rules: core_rules(),
    }
}

// ---------------------------------------------------------------------------
// Keys
// ---------------------------------------------------------------------------

/// A project key made from bytes.
pub open spec fn key_of(bytes: Seq<u8>) -> Seq<char> {
    "pb_"@ + text::shortened(digest::sha256_hex(bytes), 32)
}

fn make_key(bytes: &Vec<u8>) -> (r: String)
    ensures
        r@ == key_of(bytes@),
{
    let hex = digest::hash_bytes(bytes.as_slice());
    let head = text::shorten(hex.as_str(), 32);
    text::cat2("pb_", head.as_str())
}

/// What a new project key is made from.
pub open spec fn key_transcript(root: Seq<char>, nonce: u128, process_id: u32) -> Seq<u8> {
    vstd::utf8::encode_utf8("project-brain/project-key/v1\0"@) + vstd::utf8::encode_utf8(root)
        + vstd::bytes::spec_u128_to_le_bytes(nonce) + vstd::bytes::spec_u32_to_le_bytes(process_id)
}

/// A new project key, made from where the project stands, the time and the
/// process.
pub fn generate_project_key(root: &str, nonce: u128, process_id: u32) -> (r: String)
    ensures
        r@ == key_of(key_transcript(root@, nonce, process_id)),
{
    let mut bytes: Vec<u8> = Vec::new();
    digest::append_text(&mut bytes, "project-brain/project-key/v1\0");
    digest::append_text(&mut bytes, root);
    let time = vstd::bytes::u128_to_le_bytes(nonce);
    digest::append_bytes(&mut bytes, time.as_slice());
    let process = vstd::bytes::u32_to_le_bytes(process_id);
    digest::append_bytes(&mut bytes, process.as_slice());
    assert(bytes@ =~= key_transcript(root@, nonce, process_id));
    make_key(&bytes)
}

/// What the key of a project without one is made from.
pub open spec fn legacy_transcript(config: Seq<u8>) -> Seq<u8> {
    vstd::utf8::encode_utf8("project-brain/legacy-project-key/v1\0"@) + config
}

/// The key of a project whose configuration has none: made from the
/// configuration alone, as canonical JSON, wherever the project stands.
pub fn legacy_project_key(config: &Vec<u8>) -> (r: String)
    ensures
        r@ == key_of(legacy_transcript(config@)),
{
    let mut bytes: Vec<u8> = Vec::new();
    digest::append_text(&mut bytes, "project-brain/legacy-project-key/v1\0");
    digest::append_bytes(&mut bytes, config.as_slice());
    assert(bytes@ =~= legacy_transcript(config@));
    make_key(&bytes)
}

/// The key that a configuration without one is given; the configuration is
/// handed over as canonical JSON.
pub fn migrated_project_key(project_key: &str, config: &Vec<u8>) -> (r: Option<String>)
    ensures
        model::opt_view(r) == (if project_key@.len() == 0 {
            Some(key_of(legacy_transcript(config@)))
        } else {
            None
        }),
{
    if text::length(project_key) == 0 {
        return Some(legacy_project_key(config));
    }
    None
}

/// Different configurations are hashed differently.
pub proof fn legacy_keys_depend_on_the_configuration(a: Seq<u8>, b: Seq<u8>)
    requires
        a != b,
    ensures
        legacy_transcript(a) != legacy_transcript(b),
{
    let n = vstd::utf8::encode_utf8("project-brain/legacy-project-key/v1\0"@).len() as int;
    assert(legacy_transcript(a).skip(n) =~= a);
    assert(legacy_transcript(b).skip(n) =~= b);
}

// ---------------------------------------------------------------------------
// Where a project is
// ---------------------------------------------------------------------------

/// Which of the directories above a place is the project's: the nearest that
/// holds its configuration, told for each from the place upward.
pub fn discover_root(holds_configuration: &Vec<bool>) -> (r: Result<usize, AppError>)
    ensures
        match r {
            Ok(i) => {
                &&& i < holds_configuration@.len()
                &&& holds_configuration@[i as int]
                &&& forall|k: int| 0 <= k < i ==> !#[trigger] holds_configuration@[k]
            },
            Err(e) => {
                &&& forall|k: int|
                    0 <= k < holds_configuration@.len() ==> !#[trigger] holds_configuration@[k]
                &&& e@ == ErrorView::ProjectNotInitialized
            },
        },
{
    let mut i: usize = 0;
    while i < holds_configuration.len()
        invariant
            i <= holds_configuration@.len(),
            forall|k: int| 0 <= k < i ==> !#[trigger] holds_configuration@[k],
        decreases holds_configuration@.len() - i,
    {
        if holds_configuration[i] {
            return Ok(i);
        }
        i = i + 1;
    }
    Err(AppError::ProjectNotInitialized)
}

/// Whether a project may be set up: it has no configuration yet.
pub fn check_uninitialized(has_configuration: bool, shown: &str) -> (r: Result<(), AppError>)
    ensures
        error::follows(
            r,
            if has_configuration {
                Some(ErrorView::AlreadyInitialized(shown@))
            } else {
                None
            },
        ),
{
    if has_configuration {
        return Err(AppError::AlreadyInitialized(shown.to_owned()));
    }
    Ok(())
}

/// What is said where the project at hand is not the registered one.
pub open spec fn registration_mismatch(registered: Seq<char>, found: Seq<char>) -> Seq<char> {
    "本机注册 project_key="@ + registered + " 与仓库 project_key="@ + found + " 不一致"@
}

/// What is said where the project at hand is not the registered one.
pub fn mismatch_text(registered: &str, found: &str) -> (r: String)
    ensures
        r@ == registration_mismatch(registered@, found@),
{
    text::cat5(
        "本机注册 project_key=",
        registered,
        " 与仓库 project_key=",
        found,
        " 不一致",
    )
}

/// Whether a project is the one that is registered for its directory.
pub open spec fn registration_refusal(registered: Seq<char>, found: Seq<char>) -> Option<ErrorView> {
    if registered == found {
        None
    } else {
        Some(ErrorView::Setup(registration_mismatch(registered, found)))
    }
}

/// Whether a project is the one that is registered for its directory.
pub fn check_registered(registered: &str, found: &str) -> (r: Result<(), AppError>)
    ensures
        error::follows(r, registration_refusal(registered@, found@)),
{
    if text::same(registered, found) {
        return Ok(());
    }
    Err(AppError::Setup(mismatch_text(registered, found)))
}

/// Whether what a hook is handed is small enough to be read.
pub fn check_hook_input(len: u64, limit: u64) -> (r: Result<(), AppError>)
    ensures
        error::follows(
            r,
            if len > limit {
                Some(
                    ErrorView::Setup(
                        "Hook 输入超过最大允许字节数："@ + text::decimal(limit as nat),
                    ),
                )
            } else {
                None
            },
        ),
{
    if len > limit {
        let shown = text::decimal_text(limit);
        return Err(
            AppError::Setup(text::cat2("Hook 输入超过最大允许字节数：", shown.as_str())),
        );
    }
    Ok(())
}

/// A project begins with rules that protect its own configuration: active rules
/// of the repository that block deleting it, be it by path or by a shell
/// command, and one that only informs whoever changes what stands next to it.
pub proof fn the_configuration_protects_itself(rules: Seq<Rule>)
    requires
        first_rules(rules),
    ensures
        rules.len() == 3,
        forall|i: int|
            0 <= i < rules.len() ==> (#[trigger] rules[i]).status == MemoryStatus::Active
                && rules[i].authority == Authority::RepositoryRule && rules[i].symbol_scopes@.len()
                == 0,
        rules[0].effect == RuleEffect::Block && rules[0].strength == RuleStrength::Hard,
        rules[0].actions@ == seq![ActionKind::Delete],
        text::views(rules[0].include_paths@) == seq![".project-brain/config.json"@],
        rules[0].exclude_paths@.len() == 0 && rules[0].operations@.len() == 0
            && rules[0].operation_contains@.len() == 0,
        rules[1].effect == RuleEffect::InjectContext && rules[1].strength == RuleStrength::Soft,
        rules[2].effect == RuleEffect::Block && rules[2].strength == RuleStrength::Hard,
        rules[2].actions@ == seq![ActionKind::Delete],
        rules[2].include_paths@.len() == 0 && rules[2].exclude_paths@.len() == 0,
        text::views(rules[2].operations@) == seq!["Bash"@],
        text::views(rules[2].operation_contains@) == seq![
            ".project-brain/config.json"@,
            ".project-brain\\config.json"@,
        ],
{
    assert(text::views(rules[0].exclude_paths@).len() == rules[0].exclude_paths@.len());
    assert(text::views(rules[0].operations@).len() == rules[0].operations@.len());
    assert(text::views(rules[0].operation_contains@).len() == rules[0].operation_contains@.len());
    assert(text::views(rules[2].include_paths@).len() == rules[2].include_paths@.len());
    assert(text::views(rules[2].exclude_paths@).len() == rules[2].exclude_paths@.len());
    assert forall|i: int| 0 <= i < rules.len() implies (#[trigger] rules[i]).status
        == MemoryStatus::Active && rules[i].authority == Authority::RepositoryRule
        && rules[i].symbol_scopes@.len() == 0 by {
        assert(i == 0 || i == 1 || i == 2);
    }
}

/// Every profile that is asked for brings its provider, and no other does; two
/// keys of one place are made from different bytes where time or process
/// differ.
pub proof fn profiles_bring_their_providers(profiles: Seq<ProjectProfile>)
    ensures
        distinct_profiles(profiles).len() <= 3,
        distinct_profiles(profiles).contains(ProjectProfile::Rust) <==> profiles.contains(
            ProjectProfile::Rust,
        ),
        distinct_profiles(profiles).contains(ProjectProfile::Dotnet) <==> profiles.contains(
            ProjectProfile::Dotnet,
        ),
        distinct_profiles(profiles).contains(ProjectProfile::Python) <==> profiles.contains(
            ProjectProfile::Python,
        ),
        all_providers(distinct_profiles(profiles)).len() == distinct_profiles(profiles).len(),
        provider_of(ProjectProfile::Rust).producer == "rust-analyzer"@,
        provider_of(ProjectProfile::Dotnet).producer == "scip-dotnet"@,
        provider_of(ProjectProfile::Python).producer == "scip-python"@,
        languages_of(ProjectProfile::Rust) == seq!["rust"@],
        languages_of(ProjectProfile::Dotnet) == seq!["csharp"@, "visual-basic"@],
        languages_of(ProjectProfile::Python) == seq!["python"@],
{
    let all = seq![ProjectProfile::Rust, ProjectProfile::Dotnet, ProjectProfile::Python];
    let wanted = |p: ProjectProfile| profiles.contains(p);
    broadcast use vstd::seq_lib::group_filter_ensures;

    let some = all.filter(wanted);
    assert forall|i: int| 0 <= i < all.len() implies some.contains(#[trigger] all[i])
        == profiles.contains(all[i]) by {
        if some.contains(all[i]) {
            let k = choose|k: int| 0 <= k < some.len() && some[k] == all[i];
            assert(wanted(some[k]));
        }
    }
    assert(all[0] == ProjectProfile::Rust && all[1] == ProjectProfile::Dotnet && all[2]
        == ProjectProfile::Python);
}

/// What two keys of one place are made from differs where the time or the
/// process differs.
pub proof fn new_keys_differ_by_time_and_process(
    root: Seq<char>,
    a: (u128, u32),
    b: (u128, u32),
)
    ensures
        key_transcript(root, a.0, a.1) == key_transcript(root, b.0, b.1) <==> a == b,
{
    let front = vstd::utf8::encode_utf8("project-brain/project-key/v1\0"@)
        + vstd::utf8::encode_utf8(root);
    let x = vstd::bytes::spec_u128_to_le_bytes(a.0);
    let y = vstd::bytes::spec_u128_to_le_bytes(b.0);
    let p = vstd::bytes::spec_u32_to_le_bytes(a.1);
    let q = vstd::bytes::spec_u32_to_le_bytes(b.1);
    vstd::bytes::lemma_auto_spec_u128_to_from_le_bytes();
    vstd::bytes::lemma_auto_spec_u32_to_from_le_bytes();
    let n = front.len() as int;
    if key_transcript(root, a.0, a.1) == key_transcript(root, b.0, b.1) {
        assert(x =~= (front + x + p).subrange(n, n + 16));
        assert(y =~= (front + y + q).subrange(n, n + 16));
        assert(p =~= (front + x + p).subrange(n + 16, n + 20));
        assert(q =~= (front + y + q).subrange(n + 16, n + 20));
    }
}

} // verus!
