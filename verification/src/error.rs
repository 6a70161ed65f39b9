//! What can go wrong.
use crate::text;
use vstd::prelude::*;

verus! {

#[derive(Debug, Clone, PartialEq, Eq)]
pub enum AppError {
    Io(String),
    Clock(String),
    Json(String),
    /// An error of the store, of an analyzer or of an importer, as it says it.
    Outside(String),
    ProjectNotInitialized,
    /// A run was told something that it did not ask for.
    UnexpectedReply,
    AlreadyInitialized(String),
    EnvelopeOutsideRoot(String),
    RepositoryPathOutsideRoot(String),
    NonUtf8GitPath,
    NonUtf8Source(String),
    UnsupportedSchemaVersion { actual: u32, expected: u32 },
    ScipProfileMismatch(String),
    Setup(String),
    Provider(String),
    Governance(String),
    DatabaseMaintenance(String),
    DatabaseSwapBusy(String),
    Qualification(String),
    QualificationDatabase(String),
    DoctorDegraded(String),
    IntegrationDrift(String),
    ConcurrentModification(String),
    Git(String),
}

/// What an error says.
pub enum ErrorView {
    Io(Seq<char>),
    Clock(Seq<char>),
    Json(Seq<char>),
    Outside(Seq<char>),
    ProjectNotInitialized,
    UnexpectedReply,
    AlreadyInitialized(Seq<char>),
    EnvelopeOutsideRoot(Seq<char>),
    RepositoryPathOutsideRoot(Seq<char>),
    NonUtf8GitPath,
    NonUtf8Source(Seq<char>),
    UnsupportedSchemaVersion { actual: u32, expected: u32 },
    ScipProfileMismatch(Seq<char>),
    Setup(Seq<char>),
    Provider(Seq<char>),
    Governance(Seq<char>),
    DatabaseMaintenance(Seq<char>),
    DatabaseSwapBusy(Seq<char>),
    Qualification(Seq<char>),
    QualificationDatabase(Seq<char>),
    DoctorDegraded(Seq<char>),
    IntegrationDrift(Seq<char>),
    ConcurrentModification(Seq<char>),
    Git(Seq<char>),
}

impl View for AppError {
    type V = ErrorView;

    open spec fn view(&self) -> ErrorView {
        match self {
            AppError::Io(s) => ErrorView::Io(s@),
            AppError::Clock(s) => ErrorView::Clock(s@),
            AppError::Json(s) => ErrorView::Json(s@),
            AppError::Outside(s) => ErrorView::Outside(s@),
            AppError::ProjectNotInitialized => ErrorView::ProjectNotInitialized,
            AppError::UnexpectedReply => ErrorView::UnexpectedReply,
            AppError::AlreadyInitialized(s) => ErrorView::AlreadyInitialized(s@),
            AppError::EnvelopeOutsideRoot(s) => ErrorView::EnvelopeOutsideRoot(s@),
            AppError::RepositoryPathOutsideRoot(s) => ErrorView::RepositoryPathOutsideRoot(s@),
            AppError::NonUtf8GitPath => ErrorView::NonUtf8GitPath,
            AppError::NonUtf8Source(s) => ErrorView::NonUtf8Source(s@),
            AppError::UnsupportedSchemaVersion { actual, expected } =>
                ErrorView::UnsupportedSchemaVersion { actual: *actual, expected: *expected },
            AppError::ScipProfileMismatch(s) => ErrorView::ScipProfileMismatch(s@),
            AppError::Setup(s) => ErrorView::Setup(s@),
            AppError::Provider(s) => ErrorView::Provider(s@),
            AppError::Governance(s) => ErrorView::Governance(s@),
            AppError::DatabaseMaintenance(s) => ErrorView::DatabaseMaintenance(s@),
            AppError::DatabaseSwapBusy(s) => ErrorView::DatabaseSwapBusy(s@),
            AppError::Qualification(s) => ErrorView::Qualification(s@),
            AppError::QualificationDatabase(s) => ErrorView::QualificationDatabase(s@),
            AppError::DoctorDegraded(s) => ErrorView::DoctorDegraded(s@),
            AppError::IntegrationDrift(s) => ErrorView::IntegrationDrift(s@),
            AppError::ConcurrentModification(s) => ErrorView::ConcurrentModification(s@),
            AppError::Git(s) => ErrorView::Git(s@),
        }
    }
}

impl ErrorView {
    /// What an error says to the user.
    pub open spec fn message(self) -> Seq<char> {
        match self {
            ErrorView::Io(s) => "I/O 操作失败："@ + s,
            ErrorView::Clock(s) => "系统时间无效："@ + s,
            ErrorView::Json(s) => "JSON 解析或序列化失败："@ + s,
            ErrorView::Outside(s) => s,
            ErrorView::ProjectNotInitialized =>
                "找不到 Project Brain 配置；请先在项目根目录执行 project-brain init"@,
            ErrorView::UnexpectedReply => "控制流程收到与请求不符的答复"@,
            ErrorView::AlreadyInitialized(s) => "Project Brain 已初始化："@ + s,
            ErrorView::EnvelopeOutsideRoot(s) => "Change Envelope 必须位于项目根目录内："@ + s,
            ErrorView::RepositoryPathOutsideRoot(s) => "仓库路径解析后越出项目根目录："@ + s,
            ErrorView::NonUtf8GitPath =>
                "Git 返回了非 UTF-8 路径；当前协议拒绝有损转换"@,
            ErrorView::NonUtf8Source(s) => "源码不是有效 UTF-8："@ + s,
            ErrorView::UnsupportedSchemaVersion { actual, expected } => "不支持的 schema version "@
                + text::decimal(actual as nat) + "，当前版本为 "@ + text::decimal(expected as nat),
            ErrorView::ScipProfileMismatch(s) =>
                "SCIP 导入不符合当前项目 language profile："@ + s,
            ErrorView::Setup(s) => "机器级安装或项目 bootstrap 失败："@ + s,
            ErrorView::Provider(s) => "语义 Provider 执行失败："@ + s,
            ErrorView::Governance(s) => "规则治理操作失败："@ + s,
            ErrorView::DatabaseMaintenance(s) => "数据库维护操作失败："@ + s,
            ErrorView::DatabaseSwapBusy(s) => "数据库原子替换仍被临时占用："@ + s,
            ErrorView::Qualification(s) => "Production Qualification 失败："@ + s,
            ErrorView::QualificationDatabase(s) => "Production Qualification 账本失败："@ + s,
            ErrorView::DoctorDegraded(s) => "Project Brain doctor 检查未通过："@ + s,
            ErrorView::IntegrationDrift(s) => "Codex Hook 集成发生漂移，拒绝覆盖："@ + s,
            ErrorView::ConcurrentModification(s) =>
                "目标在写入期间被并发修改，拒绝覆盖："@ + s,
            ErrorView::Git(s) => "Git 命令失败："@ + s,
        }
    }
}

impl AppError {
    /// What an error says to the user.
    pub fn message(&self) -> (r: String)
        ensures
            r@ == self@.message(),
    {
        match self {
            AppError::Io(s) => text::cat2("I/O 操作失败：", s.as_str()),
            AppError::Clock(s) => text::cat2("系统时间无效：", s.as_str()),
            AppError::Json(s) => text::cat2("JSON 解析或序列化失败：", s.as_str()),
            AppError::Outside(s) => s.clone(),
            AppError::ProjectNotInitialized =>
                "找不到 Project Brain 配置；请先在项目根目录执行 project-brain init".to_owned(),
            AppError::UnexpectedReply => "控制流程收到与请求不符的答复".to_owned(),
            AppError::AlreadyInitialized(s) => text::cat2("Project Brain 已初始化：", s.as_str()),
            AppError::EnvelopeOutsideRoot(s) => text::cat2(
                "Change Envelope 必须位于项目根目录内：",
                s.as_str(),
            ),
            AppError::RepositoryPathOutsideRoot(s) => text::cat2(
                "仓库路径解析后越出项目根目录：",
                s.as_str(),
            ),
            AppError::NonUtf8GitPath =>
                "Git 返回了非 UTF-8 路径；当前协议拒绝有损转换".to_owned(),
            AppError::NonUtf8Source(s) => text::cat2("源码不是有效 UTF-8：", s.as_str()),
            AppError::UnsupportedSchemaVersion { actual, expected } => {
                let a = text::decimal_text(*actual as u64);
                let e = text::decimal_text(*expected as u64);
                text::cat4("不支持的 schema version ", a.as_str(), "，当前版本为 ", e.as_str())
            },
            AppError::ScipProfileMismatch(s) => text::cat2(
                "SCIP 导入不符合当前项目 language profile：",
                s.as_str(),
            ),
            AppError::Setup(s) => text::cat2("机器级安装或项目 bootstrap 失败：", s.as_str()),
            AppError::Provider(s) => text::cat2("语义 Provider 执行失败：", s.as_str()),
            AppError::Governance(s) => text::cat2("规则治理操作失败：", s.as_str()),
            AppError::DatabaseMaintenance(s) => text::cat2("数据库维护操作失败：", s.as_str()),
            AppError::DatabaseSwapBusy(s) => text::cat2(
                "数据库原子替换仍被临时占用：",
                s.as_str(),
            ),
            AppError::Qualification(s) => text::cat2(
                "Production Qualification 失败：",
                s.as_str(),
            ),
            AppError::QualificationDatabase(s) => text::cat2(
                "Production Qualification 账本失败：",
                s.as_str(),
            ),
            AppError::DoctorDegraded(s) => text::cat2(
                "Project Brain doctor 检查未通过：",
                s.as_str(),
            ),
            AppError::IntegrationDrift(s) => text::cat2(
                "Codex Hook 集成发生漂移，拒绝覆盖：",
                s.as_str(),
            ),
            AppError::ConcurrentModification(s) => text::cat2(
                "目标在写入期间被并发修改，拒绝覆盖：",
                s.as_str(),
            ),
            AppError::Git(s) => text::cat2("Git 命令失败：", s.as_str()),
        }
    }
}

/// What a refusal comes to, as a result.
pub open spec fn follows<T>(r: Result<T, AppError>, refusal: Option<ErrorView>) -> bool {
    match r {
        Ok(_) => refusal is None,
        Err(e) => refusal == Some(e@),
    }
}

/// A copy of an error.
pub fn copy_error(e: &AppError) -> (r: AppError)
    ensures
        r@ == e@,
{
    match e {
        AppError::ProjectNotInitialized => AppError::ProjectNotInitialized,
        AppError::UnexpectedReply => AppError::UnexpectedReply,
        AppError::NonUtf8GitPath => AppError::NonUtf8GitPath,
        AppError::UnsupportedSchemaVersion { actual, expected } =>
            AppError::UnsupportedSchemaVersion { actual: *actual, expected: *expected },
        AppError::Io(s) => AppError::Io(s.clone()),
        AppError::Clock(s) => AppError::Clock(s.clone()),
        AppError::Json(s) => AppError::Json(s.clone()),
        AppError::Outside(s) => AppError::Outside(s.clone()),
        AppError::AlreadyInitialized(s) => AppError::AlreadyInitialized(s.clone()),
        AppError::EnvelopeOutsideRoot(s) => AppError::EnvelopeOutsideRoot(s.clone()),
        AppError::RepositoryPathOutsideRoot(s) => AppError::RepositoryPathOutsideRoot(s.clone()),
        AppError::NonUtf8Source(s) => AppError::NonUtf8Source(s.clone()),
        AppError::ScipProfileMismatch(s) => AppError::ScipProfileMismatch(s.clone()),
        AppError::Setup(s) => AppError::Setup(s.clone()),
        AppError::Provider(s) => AppError::Provider(s.clone()),
        AppError::Governance(s) => AppError::Governance(s.clone()),
        AppError::DatabaseMaintenance(s) => AppError::DatabaseMaintenance(s.clone()),
        AppError::DatabaseSwapBusy(s) => AppError::DatabaseSwapBusy(s.clone()),
        AppError::Qualification(s) => AppError::Qualification(s.clone()),
        AppError::QualificationDatabase(s) => AppError::QualificationDatabase(s.clone()),
        AppError::DoctorDegraded(s) => AppError::DoctorDegraded(s.clone()),
        AppError::IntegrationDrift(s) => AppError::IntegrationDrift(s.clone()),
        AppError::ConcurrentModification(s) => AppError::ConcurrentModification(s.clone()),
        AppError::Git(s) => AppError::Git(s.clone()),
    }
}

} // verus!
