//! What people decide about rules and lineage, and what they have to say for it.
use crate::error::{self, AppError, ErrorView};
use crate::model::{self, Rule, RuleSymbolScope};
use crate::order;
use crate::text;
use vstd::prelude::*;

verus! {

broadcast use {vstd::string::group_string_axioms, vstd::seq::group_seq_axioms};

/// Why an operation is not carried out without a person.
pub open spec fn confirmation_refusal(confirmed: bool, operation: Seq<char>) -> Option<ErrorView> {
    if confirmed {
        None
    } else {
        Some(
            ErrorView::Governance(
                operation
                    + " 改变人工治理事实，必须由操作者显式提供 --human-confirmed"@,
            ),
        )
    }
}

/// Whether a person stands behind an operation.
pub fn require_human_confirmation(confirmed: bool, operation: &str) -> (r: Result<(), AppError>)
    ensures
        error::follows(r, confirmation_refusal(confirmed, operation@)),
{
    if confirmed {
        return Ok(());
    }
    Err(
        AppError::Governance(
            text::cat2(
                operation,
                " 改变人工治理事实，必须由操作者显式提供 --human-confirmed",
            ),
        ),
    )
}

// ---------------------------------------------------------------------------
// Compaction of lineage proposals
// ---------------------------------------------------------------------------

/// What is done about lineage proposals that are no longer needed.
#[derive(Debug, Clone, PartialEq, Eq)]
pub enum LineageCompaction {
    Preview,
    Apply { request_id: String, approved_manifest_hash: String },
}

/// Why nothing is done about them.
pub open spec fn lineage_refusal(
    backup_inside_project: bool,
    apply: bool,
    request_id: Option<Seq<char>>,
    approved_manifest_hash: Option<Seq<char>>,
    human_confirmed: bool,
) -> Option<ErrorView> {
    if backup_inside_project {
        Some(
            ErrorView::Governance(
                "lineage 删除前备份必须位于项目工作树之外的机器级数据目录"@,
            ),
        )
    } else if apply {
        match confirmation_refusal(human_confirmed, "compact legacy lineage proposals"@) {
            Some(e) => Some(e),
            None => if request_id is None {
                Some(
                    ErrorView::Governance(
                        "--apply 必须同时提供非空 --request-id 以保证幂等审计"@,
                    ),
                )
            } else if approved_manifest_hash is None {
                Some(
                    ErrorView::Governance(
                        "--apply 必须提供 dry-run 输出的 --approved-manifest-hash；计划变化时拒绝删除"@,
                    ),
                )
            } else {
                None
            },
        }
    } else if request_id is Some || approved_manifest_hash is Some || human_confirmed {
        Some(
            ErrorView::Governance(
                "dry-run 不接受 --request-id、--approved-manifest-hash 或 --human-confirmed；只有 --apply 会写数据库"@,
            ),
        )
    } else {
        None
    }
}

/// What is done about lineage proposals that are no longer needed.
pub fn begin_lineage_compaction(
    backup_inside_project: bool,
    apply: bool,
    request_id: &Option<String>,
    approved_manifest_hash: &Option<String>,
    human_confirmed: bool,
) -> (r: Result<LineageCompaction, AppError>)
    ensures
        error::follows(
            r,
            lineage_refusal(
                backup_inside_project,
                apply,
                model::opt_view(*request_id),
                model::opt_view(*approved_manifest_hash),
                human_confirmed,
            ),
        ),
        r matches Ok(step) ==> match step {
            LineageCompaction::Preview => !apply,
            LineageCompaction::Apply { request_id: id, approved_manifest_hash: hash } => {
                &&& apply
                &&& model::opt_view(*request_id) == Some(id@)
                &&& model::opt_view(*approved_manifest_hash) == Some(hash@)
            },
        },
{
    if backup_inside_project {
        return Err(
            AppError::Governance(
                "lineage 删除前备份必须位于项目工作树之外的机器级数据目录".to_owned(),
            ),
        );
    }
    if !apply {
        if request_id.is_some() || approved_manifest_hash.is_some() || human_confirmed {
            return Err(
                AppError::Governance(
                    "dry-run 不接受 --request-id、--approved-manifest-hash 或 --human-confirmed；只有 --apply 会写数据库".to_owned(),
                ),
            );
        }
        return Ok(LineageCompaction::Preview);
    }
    match require_human_confirmation(human_confirmed, "compact legacy lineage proposals") {
        Err(e) => {
            return Err(e);
        },
        Ok(()) => {},
    }
    match (request_id, approved_manifest_hash) {
        (None, _) => Err(
            AppError::Governance(
                "--apply 必须同时提供非空 --request-id 以保证幂等审计".to_owned(),
            ),
        ),
        (Some(_), None) => Err(
            AppError::Governance(
                "--apply 必须提供 dry-run 输出的 --approved-manifest-hash；计划变化时拒绝删除".to_owned(),
            ),
        ),
        (Some(id), Some(hash)) => Ok(
            LineageCompaction::Apply {
                request_id: id.clone(),
                approved_manifest_hash: hash.clone(),
            },
        ),
    }
}

// ---------------------------------------------------------------------------
// Symbols that rules are about
// ---------------------------------------------------------------------------

/// What a scope says.
pub struct ScopeView {
    pub profile: Seq<char>,
    pub contract: Seq<char>,
    pub language: Seq<char>,
    pub snapshot: Seq<char>,
    pub symbol: Seq<char>,
}

/// What a scope says.
pub open spec fn scope_view(s: RuleSymbolScope) -> ScopeView {
    ScopeView {
        profile: s.provider_profile_id@,
        contract: s.provider_contract_id@,
        language: s.language_id@,
        snapshot: s.anchor_snapshot_fingerprint@,
        symbol: s.anchor_symbol_id@,
    }
}

/// What scopes say.
pub open spec fn scope_views(v: Seq<RuleSymbolScope>) -> Seq<ScopeView> {
    v.map_values(|s: RuleSymbolScope| scope_view(s))
}

/// One scope goes before another: by the first part in which they differ.
pub open spec fn scope_before(a: ScopeView, b: ScopeView) -> bool {
    if a.profile != b.profile {
        order::text_before(a.profile, b.profile)
    } else if a.contract != b.contract {
        order::text_before(a.contract, b.contract)
    } else if a.language != b.language {
        order::text_before(a.language, b.language)
    } else if a.snapshot != b.snapshot {
        order::text_before(a.snapshot, b.snapshot)
    } else {
        order::text_before(a.symbol, b.symbol)
    }
}

fn is_scope_before(a: &RuleSymbolScope, b: &RuleSymbolScope) -> (r: bool)
    ensures
        r == scope_before(scope_view(*a), scope_view(*b)),
{
    if !text::same(a.provider_profile_id.as_str(), b.provider_profile_id.as_str()) {
        return order::is_before(a.provider_profile_id.as_str(), b.provider_profile_id.as_str());
    }
    if !text::same(a.provider_contract_id.as_str(), b.provider_contract_id.as_str()) {
        return order::is_before(a.provider_contract_id.as_str(), b.provider_contract_id.as_str());
    }
    if !text::same(a.language_id.as_str(), b.language_id.as_str()) {
        return order::is_before(a.language_id.as_str(), b.language_id.as_str());
    }
    if !text::same(
        a.anchor_snapshot_fingerprint.as_str(),
        b.anchor_snapshot_fingerprint.as_str(),
    ) {
        return order::is_before(
            a.anchor_snapshot_fingerprint.as_str(),
            b.anchor_snapshot_fingerprint.as_str(),
        );
    }
    order::is_before(a.anchor_symbol_id.as_str(), b.anchor_symbol_id.as_str())
}

fn is_same_scope(a: &RuleSymbolScope, b: &RuleSymbolScope) -> (r: bool)
    ensures
        r == (scope_view(*a) == scope_view(*b)),
{
    text::same(a.provider_profile_id.as_str(), b.provider_profile_id.as_str()) && text::same(
        a.provider_contract_id.as_str(),
        b.provider_contract_id.as_str(),
    ) && text::same(a.language_id.as_str(), b.language_id.as_str()) && text::same(
        a.anchor_snapshot_fingerprint.as_str(),
        b.anchor_snapshot_fingerprint.as_str(),
    ) && text::same(a.anchor_symbol_id.as_str(), b.anchor_symbol_id.as_str())
}

/// Where a scope goes: behind the last one that it does not go before.
pub open spec fn scope_place(v: Seq<ScopeView>, s: ScopeView) -> int
    decreases v.len(),
{
    if v.len() == 0 || !scope_before(s, v.last()) {
        v.len() as int
    } else {
        scope_place(v.drop_last(), s)
    }
}

/// Scopes in order.
pub open spec fn scopes_sorted(v: Seq<ScopeView>) -> Seq<ScopeView>
    decreases v.len(),
{
    if v.len() == 0 {
        v
    } else {
        let before = scopes_sorted(v.drop_last());
        before.insert(scope_place(before, v.last()), v.last())
    }
}

proof fn scope_place_in_range(v: Seq<ScopeView>, s: ScopeView)
    ensures
        0 <= scope_place(v, s) <= v.len(),
    decreases v.len(),
{
    if v.len() > 0 && scope_before(s, v.last()) {
        scope_place_in_range(v.drop_last(), s);
    }
}

fn find_scope_place(v: &Vec<RuleSymbolScope>, s: &RuleSymbolScope) -> (r: usize)
    ensures
        r == scope_place(scope_views(v@), scope_view(*s)),
        r <= v@.len(),
{
    let mut n: usize = v.len();
    let ghost all = scope_views(v@);
    assert(all.take(n as int) =~= all);
    while n > 0 && is_scope_before(s, &v[n - 1])
        invariant
            n <= v@.len(),
            all == scope_views(v@),
            scope_place(all, scope_view(*s)) == scope_place(all.take(n as int), scope_view(*s)),
        decreases n,
    {
        assert(all.take(n as int).last() == scope_view(v@[n - 1]));
        assert(all.take(n as int).drop_last() =~= all.take(n - 1));
        n = n - 1;
    }
    if n > 0 {
        assert(all.take(n as int).last() == scope_view(v@[n - 1]));
    }
    n
}

fn copy_scope(s: &RuleSymbolScope) -> (r: RuleSymbolScope)
    ensures
        r == *s,
{
    RuleSymbolScope {
        provider_profile_id: s.provider_profile_id.clone(),
        provider_contract_id: s.provider_contract_id.clone(),
        language_id: s.language_id.clone(),
        anchor_snapshot_fingerprint: s.anchor_snapshot_fingerprint.clone(),
        anchor_symbol_id: s.anchor_symbol_id.clone(),
    }
}

fn sort_scopes(v: &Vec<RuleSymbolScope>) -> (r: Vec<RuleSymbolScope>)
    ensures
        scope_views(r@) == scopes_sorted(scope_views(v@)),
{
    let mut out: Vec<RuleSymbolScope> = Vec::new();
    let ghost all = scope_views(v@);
    let mut i: usize = 0;
    assert(all.take(0) =~= Seq::<ScopeView>::empty());
    assert(scope_views(out@) =~= Seq::<ScopeView>::empty());
    while i < v.len()
        invariant
            i <= v@.len(),
            all == scope_views(v@),
            scope_views(out@) == scopes_sorted(all.take(i as int)),
        decreases v@.len() - i,
    {
        let ghost before = scope_views(out@);
        let at = find_scope_place(&out, &v[i]);
        out.insert(at, copy_scope(&v[i]));
        assert(all.take(i + 1).drop_last() =~= all.take(i as int));
        assert(all.take(i + 1).last() == scope_view(v@[i as int]));
        assert(scope_views(out@) =~= before.insert(at as int, scope_view(v@[i as int])));
        i = i + 1;
    }
    assert(all.take(all.len() as int) =~= all);
    out
}

/// Where the first rule of a name stands.
pub open spec fn rule_place(rules: Seq<Rule>, id: Seq<char>) -> Option<int>
    decreases rules.len(),
{
    if rules.len() == 0 {
        None
    } else {
        match rule_place(rules.drop_last(), id) {
            Some(i) => Some(i),
            None => if rules.last().id@ == id {
                Some(rules.len() - 1)
            } else {
                None
            },
        }
    }
}

proof fn rule_place_stays(rules: Seq<Rule>, id: Seq<char>, n: int)
    requires
        0 <= n <= rules.len(),
        rule_place(rules.take(n), id) is Some,
    ensures
        rule_place(rules, id) == rule_place(rules.take(n), id),
    decreases rules.len() - n,
{
    if n < rules.len() {
        assert(rules.take(n + 1).drop_last() =~= rules.take(n));
        rule_place_stays(rules, id, n + 1);
    } else {
        assert(rules.take(n) =~= rules);
    }
}

fn find_rule(rules: &Vec<Rule>, id: &str) -> (r: Result<usize, AppError>)
    ensures
        match r {
            Ok(i) => i < rules@.len() && rule_place(rules@, id@) == Some(i as int),
            Err(e) => rule_place(rules@, id@) is None && e@ == ErrorView::Governance(
                "找不到 rule="@ + text::quoted(id@),
            ),
        },
{
    let mut i: usize = 0;
    assert(rules@.take(0) =~= Seq::<Rule>::empty());
    while i < rules.len()
        invariant
            i <= rules@.len(),
            rule_place(rules@.take(i as int), id@) is None,
        decreases rules@.len() - i,
    {
        assert(rules@.take(i + 1).drop_last() =~= rules@.take(i as int));
        if text::same(rules[i].id.as_str(), id) {
            proof {
                rule_place_stays(rules@, id@, i + 1);
            }
            return Ok(i);
        }
        i = i + 1;
    }
    assert(rules@.take(rules@.len() as int) =~= rules@);
    let shown = text::quote(id);
    Err(AppError::Governance(text::cat2("找不到 rule=", shown.as_str())))
}

fn has_scope(v: &Vec<RuleSymbolScope>, s: &RuleSymbolScope) -> (r: bool)
    ensures
        r == scope_views(v@).contains(scope_view(*s)),
{
    let ghost all = scope_views(v@);
    let mut i: usize = 0;
    while i < v.len()
        invariant
            i <= v@.len(),
            all == scope_views(v@),
            forall|k: int| 0 <= k < i ==> all[k] != scope_view(*s),
        decreases v@.len() - i,
    {
        assert(all[i as int] == scope_view(v@[i as int]));
        if is_same_scope(&v[i], s) {
            return true;
        }
        i = i + 1;
    }
    false
}

/// Why a symbol is not bound to a rule.
pub open spec fn bind_refusal(
    rules: Seq<Rule>,
    rule_id: Seq<char>,
    scope: ScopeView,
    unresolved: Option<Option<Seq<char>>>,
    confirmed: bool,
) -> Option<ErrorView> {
    match confirmation_refusal(confirmed, "bind rule symbol"@) {
        Some(e) => Some(e),
        None => match unresolved {
            Some(reason) => Some(
                ErrorView::Governance(
                    "拒绝绑定不可解析的 semantic 锚点："@ + match reason {
                        Some(reason) => reason,
                        None => "unknown"@,
                    },
                ),
            ),
            None => match rule_place(rules, rule_id) {
                None => Some(ErrorView::Governance("找不到 rule="@ + text::quoted(rule_id))),
                Some(i) => if scope_views(rules[i].symbol_scopes@).contains(scope) {
                    Some(ErrorView::Governance("symbol scope 已存在"@))
                } else {
                    None
                },
            },
        },
    }
}

/// What rules come to when one of them gets other scopes: nothing else changes.
pub open spec fn only_scopes_differ(
    before: Seq<Rule>,
    after: Seq<Rule>,
    at: int,
    scopes: Seq<ScopeView>,
) -> bool {
    &&& after.len() == before.len()
    &&& 0 <= at < before.len()
    &&& scope_views(after[at].symbol_scopes@) == scopes
    &&& after[at] == (Rule { symbol_scopes: after[at].symbol_scopes, ..before[at] })
    &&& forall|i: int| 0 <= i < before.len() && i != at ==> after[i] == before[i]
}

/// A scope as a person names it: the language is taken in lower case.
pub open spec fn normalized_scope(
    profile: Seq<char>,
    contract: Seq<char>,
    language: Seq<char>,
    snapshot: Seq<char>,
    symbol: Seq<char>,
) -> ScopeView {
    ScopeView {
        profile,
        contract,
        language: text::lowered(text::trimmed(language)),
        snapshot,
        symbol,
    }
}

fn with_scopes(rules: Vec<Rule>, at: usize, scopes: Vec<RuleSymbolScope>) -> (r: Vec<Rule>)
    requires
        at < rules@.len(),
    ensures
        only_scopes_differ(rules@, r@, at as int, scope_views(scopes@)),
{
    let mut rules = rules;
    let mut rule = rules.swap_remove(at);
    rule.symbol_scopes = scopes;
    rules.push(rule);
    let last: usize = rules.len() - 1;
    if at < last {
        let moved = rules.swap_remove(at);
        rules.push(moved);
    }
    rules
}

/// Binds a symbol to a rule, on a person's word, where the symbol can be found;
/// `unresolved` tells that it cannot, with the reason where there is one.
pub fn bind_rule_symbol(
    rules: Vec<Rule>,
    rule_id: &str,
    provider_profile_id: &str,
    provider_contract_id: &str,
    language_id: &str,
    snapshot: &str,
    symbol: &str,
    unresolved: &Option<Option<String>>,
    human_confirmed: bool,
) -> (r: Result<Vec<Rule>, AppError>)
    ensures
        ({
            let scope = normalized_scope(
                provider_profile_id@,
                provider_contract_id@,
                language_id@,
                snapshot@,
                symbol@,
            );
            &&& error::follows(
                r,
                bind_refusal(
                    rules@,
                    rule_id@,
                    scope,
                    match *unresolved {
                        Some(reason) => Some(model::opt_view(reason)),
                        None => None,
                    },
                    human_confirmed,
                ),
            )
            &&& r matches Ok(after) ==> {
                let at = rule_place(rules@, rule_id@)->0;
                only_scopes_differ(
                    rules@,
                    after@,
                    at,
                    scopes_sorted(scope_views(rules@[at].symbol_scopes@).push(scope)),
                )
            }
        }),
{
    match require_human_confirmation(human_confirmed, "bind rule symbol") {
        Err(e) => {
            return Err(e);
        },
        Ok(()) => {},
    }
    match unresolved {
        Some(reason) => {
            let shown: &str = match reason {
                Some(reason) => reason.as_str(),
                None => "unknown",
            };
            return Err(
                AppError::Governance(
                    text::cat2("拒绝绑定不可解析的 semantic 锚点：", shown),
                ),
            );
        },
        None => {},
    }
    let at = match find_rule(&rules, rule_id) {
        Err(e) => {
            return Err(e);
        },
        Ok(i) => i,
    };
    let trimmed = text::trim(language_id);
    let scope = RuleSymbolScope {
        provider_profile_id: provider_profile_id.to_owned(),
        provider_contract_id: provider_contract_id.to_owned(),
        language_id: text::to_lower(trimmed.as_str()),
        anchor_snapshot_fingerprint: snapshot.to_owned(),
        anchor_symbol_id: symbol.to_owned(),
    };
    if has_scope(&rules[at].symbol_scopes, &scope) {
        return Err(AppError::Governance("symbol scope 已存在".to_owned()));
    }
    let mut scopes: Vec<RuleSymbolScope> = Vec::new();
    let ghost old_scopes = scope_views(rules@[at as int].symbol_scopes@);
    let mut i: usize = 0;
    assert(scope_views(scopes@) =~= old_scopes.take(0));
    while i < rules[at].symbol_scopes.len()
        invariant
            at < rules@.len(),
            i <= rules@[at as int].symbol_scopes@.len(),
            old_scopes == scope_views(rules@[at as int].symbol_scopes@),
            scope_views(scopes@) == old_scopes.take(i as int),
        decreases rules@[at as int].symbol_scopes@.len() - i,
    {
        let ghost before = scope_views(scopes@);
        scopes.push(copy_scope(&rules[at].symbol_scopes[i]));
        assert(scope_views(scopes@) =~= before.push(old_scopes[i as int]));
        assert(old_scopes.take(i + 1) =~= before.push(old_scopes[i as int]));
        i = i + 1;
    }
    assert(old_scopes.take(old_scopes.len() as int) =~= old_scopes);
    scopes.push(scope);
    assert(scope_views(scopes@) =~= old_scopes.push(scope_view(scope)));
    let sorted = sort_scopes(&scopes);
    Ok(with_scopes(rules, at, sorted))
}

/// A scope is the one that a person names.
pub open spec fn is_named(s: ScopeView, wanted: ScopeView) -> bool {
    &&& s.profile == wanted.profile
    &&& s.contract == wanted.contract
    &&& text::lowered(s.language) == text::lowered(wanted.language)
    &&& s.snapshot == wanted.snapshot
    &&& s.symbol == wanted.symbol
}

/// The scopes that are not the one that a person names.
pub open spec fn other_scopes(v: Seq<ScopeView>, wanted: ScopeView) -> Seq<ScopeView>
    decreases v.len(),
{
    if v.len() == 0 {
        v
    } else {
        let before = other_scopes(v.drop_last(), wanted);
        if is_named(v.last(), wanted) {
            before
        } else {
            before.push(v.last())
        }
    }
}

/// Why a symbol is not taken from a rule.
pub open spec fn unbind_refusal(
    rules: Seq<Rule>,
    rule_id: Seq<char>,
    wanted: ScopeView,
    confirmed: bool,
) -> Option<ErrorView> {
    match confirmation_refusal(confirmed, "unbind rule symbol"@) {
        Some(e) => Some(e),
        None => match rule_place(rules, rule_id) {
            None => Some(ErrorView::Governance("找不到 rule="@ + text::quoted(rule_id))),
            Some(i) => {
                let scopes = scope_views(rules[i].symbol_scopes@);
                if other_scopes(scopes, wanted).len() == scopes.len() {
                    Some(ErrorView::Governance("找不到精确匹配的 symbol scope"@))
                } else {
                    None
                }
            },
        },
    }
}

/// Takes a symbol from a rule, on a person's word.
pub fn unbind_rule_symbol(
    rules: Vec<Rule>,
    rule_id: &str,
    provider_profile_id: &str,
    provider_contract_id: &str,
    language_id: &str,
    snapshot: &str,
    symbol: &str,
    human_confirmed: bool,
) -> (r: Result<Vec<Rule>, AppError>)
    ensures
        ({
            let wanted = ScopeView {
                profile: provider_profile_id@,
                contract: provider_contract_id@,
                language: language_id@,
                snapshot: snapshot@,
                symbol: symbol@,
            };
            &&& error::follows(
                r,
                unbind_refusal(rules@, rule_id@, wanted, human_confirmed),
            )
            &&& r matches Ok(after) ==> {
                let at = rule_place(rules@, rule_id@)->0;
                only_scopes_differ(
                    rules@,
                    after@,
                    at,
                    other_scopes(scope_views(rules@[at].symbol_scopes@), wanted),
                )
            }
        }),
{
    match require_human_confirmation(human_confirmed, "unbind rule symbol") {
        Err(e) => {
            return Err(e);
        },
        Ok(()) => {},
    }
    let at = match find_rule(&rules, rule_id) {
        Err(e) => {
            return Err(e);
        },
        Ok(i) => i,
    };
    let ghost wanted = ScopeView {
        profile: provider_profile_id@,
        contract: provider_contract_id@,
        language: language_id@,
        snapshot: snapshot@,
        symbol: symbol@,
    };
    let ghost all = scope_views(rules@[at as int].symbol_scopes@);
    let mut kept: Vec<RuleSymbolScope> = Vec::new();
    let mut i: usize = 0;
    assert(all.take(0) =~= Seq::<ScopeView>::empty());
    assert(scope_views(kept@) =~= Seq::<ScopeView>::empty());
    while i < rules[at].symbol_scopes.len()
        invariant
            at < rules@.len(),
            i <= rules@[at as int].symbol_scopes@.len(),
            all == scope_views(rules@[at as int].symbol_scopes@),
            wanted == (ScopeView {
                profile: provider_profile_id@,
                contract: provider_contract_id@,
                language: language_id@,
                snapshot: snapshot@,
                symbol: symbol@,
            }),
            scope_views(kept@) == other_scopes(all.take(i as int), wanted),
        decreases rules@[at as int].symbol_scopes@.len() - i,
    {
        let s = &rules[at].symbol_scopes[i];
        assert(all.take(i + 1).drop_last() =~= all.take(i as int));
        assert(all.take(i + 1).last() == scope_view(*s));
        let named = text::same(s.provider_profile_id.as_str(), provider_profile_id) && text::same(
            s.provider_contract_id.as_str(),
            provider_contract_id,
        ) && text::same_ignoring_case(s.language_id.as_str(), language_id) && text::same(
            s.anchor_snapshot_fingerprint.as_str(),
            snapshot,
        ) && text::same(s.anchor_symbol_id.as_str(), symbol);
        if !named {
            let ghost before = scope_views(kept@);
            kept.push(copy_scope(s));
            assert(scope_views(kept@) =~= before.push(scope_view(*s)));
        }
        i = i + 1;
    }
    assert(all.take(all.len() as int) =~= all);
    assert(scope_views(kept@).len() == kept@.len());
    if kept.len() == rules[at].symbol_scopes.len() {
        return Err(AppError::Governance("找不到精确匹配的 symbol scope".to_owned()));
    }
    Ok(with_scopes(rules, at, kept))
}

/// The scopes of the rules that pass a filter, with the rules' names.
pub open spec fn listed(rules: Seq<Rule>, filter: Option<Seq<char>>, n: nat) -> Seq<
    (Seq<char>, ScopeView),
>
    decreases n,
{
    if n == 0 {
        Seq::empty()
    } else {
        let before = listed(rules, filter, (n - 1) as nat);
        let rule = rules[n - 1];
        if filter is None || filter == Some(rule.id@) {
            before + rule.symbol_scopes@.map_values(
                |s: RuleSymbolScope| (rule.id@, scope_view(s)),
            )
        } else {
            before
        }
    }
}

/// What a list of scopes with the names of their rules says.
pub open spec fn listed_views(v: Seq<(String, RuleSymbolScope)>) -> Seq<(Seq<char>, ScopeView)> {
    v.map_values(|x: (String, RuleSymbolScope)| (x.0@, scope_view(x.1)))
}

/// The scopes of the rules that pass a filter, with the rules' names.
pub fn rule_symbol_scopes(rules: &Vec<Rule>, filter: &Option<String>) -> (r: Vec<
    (String, RuleSymbolScope),
>)
    ensures
        listed_views(r@) == listed(rules@, model::opt_view(*filter), rules@.len()),
{
    let mut out: Vec<(String, RuleSymbolScope)> = Vec::new();
    let mut i: usize = 0;
    assert(listed_views(out@) =~= Seq::<(Seq<char>, ScopeView)>::empty());
    while i < rules.len()
        invariant
            i <= rules@.len(),
            listed_views(out@) == listed(rules@, model::opt_view(*filter), i as nat),
        decreases rules@.len() - i,
    {
        let ghost before = listed_views(out@);
        let rule = &rules[i];
        let wanted = match filter {
            Some(filter) => text::same(filter.as_str(), rule.id.as_str()),
            None => true,
        };
        if wanted {
            let ghost all = rule.symbol_scopes@.map_values(
                |s: RuleSymbolScope| (rule.id@, scope_view(s)),
            );
            let mut j: usize = 0;
            assert(all.take(0) =~= Seq::<(Seq<char>, ScopeView)>::empty());
            while j < rule.symbol_scopes.len()
                invariant
                    j <= rule.symbol_scopes@.len(),
                    all == rule.symbol_scopes@.map_values(
                        |s: RuleSymbolScope| (rule.id@, scope_view(s)),
                    ),
                    listed_views(out@) == before + all.take(j as int),
                decreases rule.symbol_scopes@.len() - j,
            {
                let ghost here = listed_views(out@);
                out.push((rule.id.clone(), copy_scope(&rule.symbol_scopes[j])));
                assert(listed_views(out@) =~= here.push(all[j as int]));
                assert(all.take(j + 1) =~= all.take(j as int).push(all[j as int]));
                assert(listed_views(out@) =~= before + all.take(j + 1));
                j = j + 1;
            }
            assert(all.take(all.len() as int) =~= all);
        }
        i = i + 1;
    }
    out
}

proof fn sorting_keeps_scopes(v: Seq<ScopeView>, s: ScopeView)
    ensures
        scopes_sorted(v).contains(s) <==> v.contains(s),
        scopes_sorted(v).len() == v.len(),
    decreases v.len(),
{
    if v.len() > 0 {
        let init = v.drop_last();
        let before = scopes_sorted(init);
        let at = scope_place(before, v.last());
        let after = before.insert(at, v.last());
        sorting_keeps_scopes(init, s);
        scope_place_in_range(before, v.last());
        assert(v =~= init.push(v.last()));
        if v.contains(s) {
            if init.contains(s) {
                let k = choose|k: int| 0 <= k < before.len() && before[k] == s;
                assert(after[if k < at {
                    k
                } else {
                    k + 1
                }] == s);
            } else {
                let k = choose|k: int| 0 <= k < v.len() && v[k] == s;
                assert(k == v.len() - 1 || init[k] == s);
                assert(after[at] == s);
            }
        }
        if after.contains(s) {
            let k = choose|k: int| 0 <= k < after.len() && after[k] == s;
            if k == at {
                assert(v[v.len() - 1] == s);
            } else {
                assert(before[if k < at {
                    k
                } else {
                    k - 1
                }] == s);
                let m = choose|m: int| 0 <= m < init.len() && init[m] == s;
                assert(v[m] == s);
            }
        }
    }
}

/// Binding a symbol to a rule adds that symbol and loses none.
pub proof fn binding_adds_one_symbol(scopes: Seq<ScopeView>, scope: ScopeView, other: ScopeView)
    ensures
        scopes_sorted(scopes.push(scope)).contains(other) <==> scopes.contains(other) || other
            == scope,
        scopes_sorted(scopes.push(scope)).len() == scopes.len() + 1,
{
    sorting_keeps_scopes(scopes.push(scope), other);
    if scopes.contains(other) {
        let k = choose|k: int| 0 <= k < scopes.len() && scopes[k] == other;
        assert(scopes.push(scope)[k] == other);
    }
    assert(scopes.push(scope)[scopes.len() as int] == scope);
    if scopes.push(scope).contains(other) && other != scope {
        let k = choose|k: int|
            0 <= k < scopes.push(scope).len() && scopes.push(scope)[k] == other;
        assert(scopes[k] == other);
    }
}

/// A symbol that was taken from a rule is no longer there, in whatever case its
/// language was named; every other one is.
pub proof fn unbinding_takes_one_symbol(
    scopes: Seq<ScopeView>,
    wanted: ScopeView,
    other: ScopeView,
)
    ensures
        other_scopes(scopes, wanted).contains(other) <==> scopes.contains(other) && !is_named(
            other,
            wanted,
        ),
    decreases scopes.len(),
{
    if scopes.len() > 0 {
        let init = scopes.drop_last();
        let before = other_scopes(init, wanted);
        let after = other_scopes(scopes, wanted);
        unbinding_takes_one_symbol(init, wanted, other);
        assert(scopes =~= init.push(scopes.last()));
        if scopes.contains(other) && other != scopes.last() {
            let k = choose|k: int| 0 <= k < scopes.len() && scopes[k] == other;
            assert(init[k] == other);
        }
        if init.contains(other) {
            let k = choose|k: int| 0 <= k < init.len() && init[k] == other;
            assert(scopes[k] == other);
        }
        assert(scopes[scopes.len() - 1] == scopes.last());
        if before.contains(other) {
            let k = choose|k: int| 0 <= k < before.len() && before[k] == other;
            assert(after[k] == other);
        }
        if !is_named(scopes.last(), wanted) {
            assert(after[before.len() as int] == scopes.last());
            if after.contains(other) && !before.contains(other) {
                let k = choose|k: int| 0 <= k < after.len() && after[k] == other;
                if k < before.len() {
                    assert(before[k] == other);
                }
            }
        }
    }
}

/// Nothing that people decide is changed without a person's word, and lineage
/// proposals are only deleted with a backup outside the project, under a request
/// and against an approved plan; a look at them takes none of these.
pub proof fn people_decide(
    confirmed: bool,
    operation: Seq<char>,
    inside: bool,
    request: Option<Seq<char>>,
    approved: Option<Seq<char>>,
)
    ensures
        confirmation_refusal(confirmed, operation) is None <==> confirmed,
        lineage_refusal(inside, true, request, approved, confirmed) is None <==> !inside
            && confirmed && request is Some && approved is Some,
        lineage_refusal(inside, false, request, approved, confirmed) is None <==> !inside
            && !confirmed && request is None && approved is None,
{
}

/// The rule of a name is the first one with it.
pub proof fn the_first_rule_of_a_name_counts(rules: Seq<Rule>, id: Seq<char>)
    ensures
        rule_place(rules, id) is None <==> forall|i: int|
            0 <= i < rules.len() ==> (#[trigger] rules[i]).id@ != id,
        rule_place(rules, id) matches Some(i) ==> 0 <= i < rules.len() && rules[i].id@ == id
            && forall|k: int| 0 <= k < i ==> (#[trigger] rules[k]).id@ != id,
    decreases rules.len(),
{
    if rules.len() > 0 {
        let init = rules.drop_last();
        the_first_rule_of_a_name_counts(init, id);
        assert forall|i: int| 0 <= i < init.len() implies #[trigger] init[i] == rules[i] by {}
        if rule_place(init, id) is None {
            assert forall|k: int| 0 <= k < rules.len() - 1 implies (#[trigger] rules[k]).id@
                != id by {
                assert(init[k] == rules[k]);
            }
        } else {
            let i = rule_place(init, id)->0;
            assert(rules[i] == init[i]);
            assert forall|k: int| 0 <= k < i implies (#[trigger] rules[k]).id@ != id by {
                assert(init[k] == rules[k]);
            }
        }
    }
}

/// A symbol is bound exactly where a person confirms it, it can be found, the
/// rule is there and the rule does not have it yet; and it is taken away exactly
/// where a person confirms it and the rule is there and has it.
pub proof fn symbols_are_bound_and_taken_on_request(
    rules: Seq<Rule>,
    rule_id: Seq<char>,
    scope: ScopeView,
    unresolved: Option<Option<Seq<char>>>,
    confirmed: bool,
)
    ensures
        bind_refusal(rules, rule_id, scope, unresolved, confirmed) is None <==> {
            &&& confirmed
            &&& unresolved is None
            &&& rule_place(rules, rule_id) matches Some(i) && !scope_views(
                rules[i].symbol_scopes@,
            ).contains(scope)
        },
        unbind_refusal(rules, rule_id, scope, confirmed) is None <==> {
            &&& confirmed
            &&& rule_place(rules, rule_id) matches Some(i) && exists|k: int|
                0 <= k < rules[i].symbol_scopes@.len() && {
                    let s = scope_view(#[trigger] rules[i].symbol_scopes@[k]);
                    &&& s.profile == scope.profile && s.contract == scope.contract
                    &&& text::lowered(s.language) == text::lowered(scope.language)
                    &&& s.snapshot == scope.snapshot && s.symbol == scope.symbol
                }
        },
{
    if let Some(i) = rule_place(rules, rule_id) {
        let v = scope_views(rules[i].symbol_scopes@);
        kept_scopes(v, scope);
        if exists|k: int| 0 <= k < v.len() && is_named(#[trigger] v[k], scope) {
            let k = choose|k: int| 0 <= k < v.len() && is_named(#[trigger] v[k], scope);
            assert(v[k] == scope_view(rules[i].symbol_scopes@[k]));
        }
        if exists|k: int|
            0 <= k < rules[i].symbol_scopes@.len() && is_named(
                scope_view(#[trigger] rules[i].symbol_scopes@[k]),
                scope,
            ) {
            let k = choose|k: int|
                0 <= k < rules[i].symbol_scopes@.len() && is_named(
                    scope_view(#[trigger] rules[i].symbol_scopes@[k]),
                    scope,
                );
            assert(is_named(v[k], scope));
        }
    }
}

proof fn kept_scopes(v: Seq<ScopeView>, wanted: ScopeView)
    ensures
        other_scopes(v, wanted) == v.filter(|s: ScopeView| !is_named(s, wanted)),
        other_scopes(v, wanted).len() <= v.len(),
        other_scopes(v, wanted).len() == v.len() <==> forall|k: int|
            0 <= k < v.len() ==> !is_named(#[trigger] v[k], wanted),
    decreases v.len(),
{
    reveal(Seq::filter);
    if v.len() > 0 {
        let init = v.drop_last();
        kept_scopes(init, wanted);
        assert forall|k: int| 0 <= k < init.len() implies #[trigger] init[k] == v[k] by {}
        if exists|k: int| 0 <= k < init.len() && is_named(#[trigger] init[k], wanted) {
            let k = choose|k: int| 0 <= k < init.len() && is_named(#[trigger] init[k], wanted);
            assert(is_named(v[k], wanted));
        }
        if !is_named(v.last(), wanted) {
            if other_scopes(init, wanted).len() == init.len() {
                assert forall|k: int| 0 <= k < v.len() implies !is_named(#[trigger] v[k], wanted) by {
                    if k < init.len() {
                        assert(init[k] == v[k]);
                    }
                }
            }
        } else {
            assert(is_named(v[v.len() - 1], wanted));
        }
    }
}

/// What is left when a symbol is taken from a rule is every other one, in the
/// same order.
pub proof fn the_other_symbols_keep_their_order(scopes: Seq<ScopeView>, wanted: ScopeView)
    ensures
        other_scopes(scopes, wanted) == scopes.filter(
            |s: ScopeView|
                !(s.profile == wanted.profile && s.contract == wanted.contract && text::lowered(
                    s.language,
                ) == text::lowered(wanted.language) && s.snapshot == wanted.snapshot && s.symbol
                    == wanted.symbol),
        ),
{
    kept_scopes(scopes, wanted);
    assert((|s: ScopeView| !is_named(s, wanted)) =~= (|s: ScopeView|
        !(s.profile == wanted.profile && s.contract == wanted.contract && text::lowered(
            s.language,
        ) == text::lowered(wanted.language) && s.snapshot == wanted.snapshot && s.symbol
            == wanted.symbol)));
}

/// The list of symbols holds every symbol of every rule that passes the filter,
/// under the name of its rule, and no other.
pub proof fn all_symbols_are_listed(
    rules: Seq<Rule>,
    filter: Option<Seq<char>>,
    n: nat,
    x: (Seq<char>, ScopeView),
)
    requires
        n <= rules.len(),
    ensures
        listed(rules, filter, n).contains(x) <==> exists|i: int, k: int|
            #![trigger rules[i].symbol_scopes@[k]]
            0 <= i < n && 0 <= k < rules[i].symbol_scopes@.len() && (filter is None || filter
                == Some(rules[i].id@)) && x == (rules[i].id@, scope_view(rules[i].symbol_scopes@[k])),
    decreases n,
{
    if n > 0 {
        let n0 = (n - 1) as nat;
        all_symbols_are_listed(rules, filter, n0, x);
        let before = listed(rules, filter, n0);
        let all = listed(rules, filter, n);
        let rule = rules[n - 1];
        let more = rule.symbol_scopes@.map_values(
            |s: RuleSymbolScope| (rule.id@, scope_view(s)),
        );
        let passes = filter is None || filter == Some(rule.id@);
        if before.contains(x) {
            let m = choose|m: int| 0 <= m < before.len() && before[m] == x;
            assert(all[m] == x);
        }
        if passes && more.contains(x) {
            let k = choose|k: int| 0 <= k < more.len() && more[k] == x;
            assert(all[before.len() + k] == x);
            assert(rules[n - 1].symbol_scopes@[k] == rule.symbol_scopes@[k]);
        }
        if all.contains(x) && !before.contains(x) {
            let m = choose|m: int| 0 <= m < all.len() && all[m] == x;
            if m < before.len() {
                assert(before[m] == x);
            }
            let k = m - before.len();
            assert(more[k] == x);
            assert(rules[n - 1].symbol_scopes@[k] == rule.symbol_scopes@[k]);
        }
        if exists|i: int, k: int|
            #![trigger rules[i].symbol_scopes@[k]]
            0 <= i < n && 0 <= k < rules[i].symbol_scopes@.len() && (filter is None || filter
                == Some(rules[i].id@)) && x == (rules[i].id@, scope_view(rules[i].symbol_scopes@[k])) {
            let (i, k) = choose|i: int, k: int|
                #![trigger rules[i].symbol_scopes@[k]]
                0 <= i < n && 0 <= k < rules[i].symbol_scopes@.len() && (filter is None || filter
                    == Some(rules[i].id@)) && x == (
                    rules[i].id@,
                    scope_view(rules[i].symbol_scopes@[k]),
                );
            if i == n - 1 {
                assert(more[k] == x);
                assert(more.contains(x));
            }
        }
    }
}

} // verus!
