//! Errors of transfers and of remote directories, their messages, and which
//! of them are worth another attempt.
use vstd::prelude::*;
use vstd::string::*;

use crate::text::{
    cat2, cat3, cat4, has_part, lemma_part_behind, lemma_part_between, replace_char,
    with_char_replaced,
};

verus! {

/// What can go wrong when a remote directory is made.
#[derive(Debug, Clone)]
pub enum MkdirError<S = String> {
    /// The path is taken by a file.
    ExistsAsFile(S),
    /// The server refused: the path and its message.
    SftpError(S, S),
}

impl View for MkdirError<String> {
    type V = MkdirError<Seq<char>>;

    open spec fn view(&self) -> MkdirError<Seq<char>> {
        match self {
            MkdirError::ExistsAsFile(p) => MkdirError::ExistsAsFile(p@),
            MkdirError::SftpError(p, m) => MkdirError::SftpError(p@, m@),
        }
    }
}

impl MkdirError<Seq<char>> {
    /// The message for the user, with forward slashes in the path.
    pub open spec fn text(self) -> Seq<char> {
        match self {
            MkdirError::ExistsAsFile(p) => "远端已有同名文件（期望目录）: "@ + replace_char(p, '\\', '/'),
            MkdirError::SftpError(p, m) => "创建远端目录失败: "@ + replace_char(p, '\\', '/') + " — "@ + m,
        }
    }
}

impl MkdirError {
    /// The message for the user.
    pub fn message(&self) -> (r: String)
        ensures
            r@ == self@.text(),
    {
        match self {
            MkdirError::ExistsAsFile(p) => cat2(
                "远端已有同名文件（期望目录）: ",
                with_char_replaced(p.as_str(), '\\', '/').as_str(),
            ),
            MkdirError::SftpError(p, m) => cat4(
                "创建远端目录失败: ",
                with_char_replaced(p.as_str(), '\\', '/').as_str(),
                " — ",
                m.as_str(),
            ),
        }
    }
}

/// What can go wrong in a transfer.
#[derive(Debug, Clone)]
pub enum TransferError<S = String> {
    /// Both ends are local, or both are remote.
    InvalidDirection,
    /// A wildcard stands where none is supported.
    UnsupportedGlobUsage(S),
    /// No server has this alias.
    AliasNotFound(S),
    /// The remote target has to be an existing directory.
    RemoteTargetMustBeDir(S),
    /// The directory above the remote target is missing.
    RemoteTargetParentMissing(S),
    /// A remote directory could not be made: the path and the reason.
    CreateRemoteDirFailed(S, S),
    /// The local target has to be an existing directory.
    LocalTargetMustBeDir(S),
    /// The directory above the local target is missing.
    LocalTargetParentMissing(S),
    /// A local directory could not be made: the path and the reason.
    CreateLocalDirFailed(S, S),
    /// A pattern matched nothing.
    GlobNoMatches(S),
    /// A worker has no session for this alias.
    WorkerNoSession(S),
    /// A worker has no SFTP channel for this alias.
    WorkerNoSftp(S),
    /// An SFTP channel could not be opened.
    SftpCreateFailed(S),
    /// An address could not be resolved.
    SshNoAddress(S),
    /// An SSH session could not be set up.
    SshSessionCreateFailed(S),
    /// The SSH handshake failed.
    SshHandshakeFailed(S),
    /// The server refused the keys.
    SshAuthFailed(S),
    /// A worker could not connect.
    WorkerBuildSessionFailed(S),
    /// An upload names no source.
    MissingLocalSource(S),
    /// A download names more than one source.
    DownloadMultipleRemoteSources(S),
    /// Any other failure of a command.
    OperationFailed(S),
    /// Reading or writing failed during a transfer.
    WorkerIo(S),
}

impl View for TransferError<String> {
    type V = TransferError<Seq<char>>;

    open spec fn view(&self) -> TransferError<Seq<char>> {
        match self {
            TransferError::InvalidDirection => TransferError::InvalidDirection,
            TransferError::UnsupportedGlobUsage(a) => TransferError::UnsupportedGlobUsage(a@),
            TransferError::AliasNotFound(a) => TransferError::AliasNotFound(a@),
            TransferError::RemoteTargetMustBeDir(a) => TransferError::RemoteTargetMustBeDir(a@),
            TransferError::RemoteTargetParentMissing(a) => TransferError::RemoteTargetParentMissing(a@),
            TransferError::CreateRemoteDirFailed(a, b) => TransferError::CreateRemoteDirFailed(a@, b@),
            TransferError::LocalTargetMustBeDir(a) => TransferError::LocalTargetMustBeDir(a@),
            TransferError::LocalTargetParentMissing(a) => TransferError::LocalTargetParentMissing(a@),
            TransferError::CreateLocalDirFailed(a, b) => TransferError::CreateLocalDirFailed(a@, b@),
            TransferError::GlobNoMatches(a) => TransferError::GlobNoMatches(a@),
            TransferError::WorkerNoSession(a) => TransferError::WorkerNoSession(a@),
            TransferError::WorkerNoSftp(a) => TransferError::WorkerNoSftp(a@),
            TransferError::SftpCreateFailed(a) => TransferError::SftpCreateFailed(a@),
            TransferError::SshNoAddress(a) => TransferError::SshNoAddress(a@),
            TransferError::SshSessionCreateFailed(a) => TransferError::SshSessionCreateFailed(a@),
            TransferError::SshHandshakeFailed(a) => TransferError::SshHandshakeFailed(a@),
            TransferError::SshAuthFailed(a) => TransferError::SshAuthFailed(a@),
            TransferError::WorkerBuildSessionFailed(a) => TransferError::WorkerBuildSessionFailed(a@),
            TransferError::MissingLocalSource(a) => TransferError::MissingLocalSource(a@),
            TransferError::DownloadMultipleRemoteSources(a) => TransferError::DownloadMultipleRemoteSources(a@),
            TransferError::OperationFailed(a) => TransferError::OperationFailed(a@),
            TransferError::WorkerIo(a) => TransferError::WorkerIo(a@),
        }
    }
}

impl TransferError<Seq<char>> {
    /// The message for the user.
    pub open spec fn text(self) -> Seq<char> {
        match self {
            TransferError::InvalidDirection => "命令必须且只有一端为远端（alias:/path），请检查源和目标"@,
            TransferError::UnsupportedGlobUsage(a) => "不支持的通配符用法（仅允许最后一段）："@ + a,
            TransferError::AliasNotFound(a) => "别名 '"@ + a + "' 不存在"@,
            TransferError::RemoteTargetMustBeDir(a) => "目标必须存在且为目录: "@ + a + " (远端)"@,
            TransferError::RemoteTargetParentMissing(a) => "目标父目录不存在: "@ + a + " (远端)，不会自动创建多级目录"@,
            TransferError::CreateRemoteDirFailed(a, b) => "创建远端目录失败: "@ + a + " — "@ + b,
            TransferError::LocalTargetMustBeDir(a) => "目标必须存在且为目录: "@ + a + " (本地)，建议先创建或移除尾部/"@,
            TransferError::LocalTargetParentMissing(a) => "目标父目录不存在: "@ + a + " (本地)，不会自动创建多级目录，请手动创建父目录"@,
            TransferError::CreateLocalDirFailed(a, b) => "创建目标目录失败: "@ + a + " (本地) — "@ + b,
            TransferError::GlobNoMatches(a) => "glob 无匹配项（远端），请确认模式与路径是否正确: "@ + a,
            TransferError::WorkerNoSession(a) => "工作线程无法建立会话: "@ + a,
            TransferError::WorkerNoSftp(a) => "工作线程无法创建 SFTP 会话: "@ + a,
            TransferError::SftpCreateFailed(a) => "SFTP 创建失败: "@ + a,
            TransferError::SshNoAddress(a) => "无法解析地址: "@ + a,
            TransferError::SshSessionCreateFailed(a) => "无法创建 SSH Session: "@ + a,
            TransferError::SshHandshakeFailed(a) => "SSH 握手失败: "@ + a,
            TransferError::SshAuthFailed(a) => "SSH 认证失败: "@ + a,
            TransferError::WorkerBuildSessionFailed(a) => "工作线程构建会话失败: "@ + a,
            TransferError::MissingLocalSource(a) => "缺少本地源: "@ + a,
            TransferError::DownloadMultipleRemoteSources(a) => "下载仅支持单个远端源: "@ + a,
            TransferError::OperationFailed(a) => "操作失败: "@ + a,
            TransferError::WorkerIo(a) => "传输/IO 错误: "@ + a,
        }
    }

    /// The name of the kind of failure, as failure records carry it.
    pub open spec fn variant(self) -> Seq<char> {
        match self {
            TransferError::InvalidDirection => "InvalidDirection"@,
            TransferError::UnsupportedGlobUsage(_) => "UnsupportedGlobUsage"@,
            TransferError::AliasNotFound(_) => "AliasNotFound"@,
            TransferError::RemoteTargetMustBeDir(_) => "RemoteTargetMustBeDir"@,
            TransferError::RemoteTargetParentMissing(_) => "RemoteTargetParentMissing"@,
            TransferError::CreateRemoteDirFailed(_, _) => "CreateRemoteDirFailed"@,
            TransferError::LocalTargetMustBeDir(_) => "LocalTargetMustBeDir"@,
            TransferError::LocalTargetParentMissing(_) => "LocalTargetParentMissing"@,
            TransferError::CreateLocalDirFailed(_, _) => "CreateLocalDirFailed"@,
            TransferError::GlobNoMatches(_) => "GlobNoMatches"@,
            TransferError::WorkerNoSession(_) => "WorkerNoSession"@,
            TransferError::WorkerNoSftp(_) => "WorkerNoSftp"@,
            TransferError::SftpCreateFailed(_) => "SftpCreateFailed"@,
            TransferError::SshNoAddress(_) => "SshNoAddress"@,
            TransferError::SshSessionCreateFailed(_) => "SshSessionCreateFailed"@,
            TransferError::SshHandshakeFailed(_) => "SshHandshakeFailed"@,
            TransferError::SshAuthFailed(_) => "SshAuthFailed"@,
            TransferError::WorkerBuildSessionFailed(_) => "WorkerBuildSessionFailed"@,
            TransferError::MissingLocalSource(_) => "MissingLocalSource"@,
            TransferError::DownloadMultipleRemoteSources(_) => "DownloadMultipleRemoteSources"@,
            TransferError::OperationFailed(_) => "OperationFailed"@,
            TransferError::WorkerIo(_) => "WorkerIo"@,
        }
    }

    /// The members of a failure record beside its kind: what the failure is
    /// about, and the message.
    pub open spec fn details(self) -> Seq<(Seq<char>, Seq<char>)> {
        match self {
            TransferError::InvalidDirection => seq![("message"@, self.text())],
            TransferError::UnsupportedGlobUsage(a) => seq![("pattern"@, a), ("message"@, self.text())],
            TransferError::AliasNotFound(a) => seq![("alias"@, a), ("message"@, self.text())],
            TransferError::RemoteTargetMustBeDir(a) => seq![("path"@, a), ("message"@, self.text())],
            TransferError::RemoteTargetParentMissing(a) => seq![("path"@, a), ("message"@, self.text())],
            TransferError::CreateRemoteDirFailed(a, b) => seq![("path"@, a), ("error"@, b), ("message"@, self.text())],
            TransferError::LocalTargetMustBeDir(a) => seq![("path"@, a), ("message"@, self.text())],
            TransferError::LocalTargetParentMissing(a) => seq![("path"@, a), ("message"@, self.text())],
            TransferError::CreateLocalDirFailed(a, b) => seq![("path"@, a), ("error"@, b), ("message"@, self.text())],
            TransferError::GlobNoMatches(a) => seq![("pattern"@, a), ("message"@, self.text())],
            TransferError::WorkerNoSession(a) => seq![("alias"@, a), ("message"@, self.text())],
            TransferError::WorkerNoSftp(a) => seq![("alias"@, a), ("message"@, self.text())],
            TransferError::SftpCreateFailed(a) => seq![("error"@, a), ("message"@, self.text())],
            TransferError::SshNoAddress(a) => seq![("addr"@, a), ("message"@, self.text())],
            TransferError::SshSessionCreateFailed(a) => seq![("addr"@, a), ("message"@, self.text())],
            TransferError::SshHandshakeFailed(a) => seq![("addr"@, a), ("message"@, self.text())],
            TransferError::SshAuthFailed(a) => seq![("addr"@, a), ("message"@, self.text())],
            TransferError::WorkerBuildSessionFailed(a) => seq![("addr"@, a), ("message"@, self.text())],
            TransferError::MissingLocalSource(a) => seq![("detail"@, a), ("message"@, self.text())],
            TransferError::DownloadMultipleRemoteSources(a) => seq![("detail"@, a), ("message"@, self.text())],
            TransferError::OperationFailed(a) => seq![("message"@, a)],
            TransferError::WorkerIo(a) => seq![("message"@, a)],
        }
    }

    /// Whether a failure before any data has moved may pass on another attempt:
    /// connecting failed.
    pub open spec fn passing_before(self) -> bool {
        ||| self is SshSessionCreateFailed
        ||| self is SshHandshakeFailed
        ||| self is WorkerBuildSessionFailed
        ||| self is SftpCreateFailed
        ||| self is WorkerNoSession
        ||| self is WorkerNoSftp
    }

    /// Whether a failure while data moves may pass on another attempt: reading
    /// or writing failed, or the channel is gone.
    pub open spec fn passing_during(self) -> bool {
        ||| self is WorkerIo
        ||| self is SftpCreateFailed
        ||| self is WorkerNoSftp
        ||| self is WorkerNoSession
    }
}

impl TransferError {
    /// The message for the user.
    pub fn message(&self) -> (r: String)
        ensures
            r@ == self@.text(),
    {
        match self {
            TransferError::InvalidDirection => "命令必须且只有一端为远端（alias:/path），请检查源和目标".to_owned(),
            TransferError::UnsupportedGlobUsage(a) => cat2("不支持的通配符用法（仅允许最后一段）：", a.as_str()),
            TransferError::AliasNotFound(a) => cat3("别名 '", a.as_str(), "' 不存在"),
            TransferError::RemoteTargetMustBeDir(a) => cat3("目标必须存在且为目录: ", a.as_str(), " (远端)"),
            TransferError::RemoteTargetParentMissing(a) => cat3("目标父目录不存在: ", a.as_str(), " (远端)，不会自动创建多级目录"),
            TransferError::CreateRemoteDirFailed(a, b) => cat4("创建远端目录失败: ", a.as_str(), " — ", b.as_str()),
            TransferError::LocalTargetMustBeDir(a) => cat3("目标必须存在且为目录: ", a.as_str(), " (本地)，建议先创建或移除尾部/"),
            TransferError::LocalTargetParentMissing(a) => cat3("目标父目录不存在: ", a.as_str(), " (本地)，不会自动创建多级目录，请手动创建父目录"),
            TransferError::CreateLocalDirFailed(a, b) => cat4("创建目标目录失败: ", a.as_str(), " (本地) — ", b.as_str()),
            TransferError::GlobNoMatches(a) => cat2("glob 无匹配项（远端），请确认模式与路径是否正确: ", a.as_str()),
            TransferError::WorkerNoSession(a) => cat2("工作线程无法建立会话: ", a.as_str()),
            TransferError::WorkerNoSftp(a) => cat2("工作线程无法创建 SFTP 会话: ", a.as_str()),
            TransferError::SftpCreateFailed(a) => cat2("SFTP 创建失败: ", a.as_str()),
            TransferError::SshNoAddress(a) => cat2("无法解析地址: ", a.as_str()),
            TransferError::SshSessionCreateFailed(a) => cat2("无法创建 SSH Session: ", a.as_str()),
            TransferError::SshHandshakeFailed(a) => cat2("SSH 握手失败: ", a.as_str()),
            TransferError::SshAuthFailed(a) => cat2("SSH 认证失败: ", a.as_str()),
            TransferError::WorkerBuildSessionFailed(a) => cat2("工作线程构建会话失败: ", a.as_str()),
            TransferError::MissingLocalSource(a) => cat2("缺少本地源: ", a.as_str()),
            TransferError::DownloadMultipleRemoteSources(a) => cat2("下载仅支持单个远端源: ", a.as_str()),
            TransferError::OperationFailed(a) => cat2("操作失败: ", a.as_str()),
            TransferError::WorkerIo(a) => cat2("传输/IO 错误: ", a.as_str()),
        }
    }

    /// The name of the kind of failure.
    pub fn variant_name(&self) -> (r: String)
        ensures
            r@ == self@.variant(),
    {
        match self {
            TransferError::InvalidDirection => "InvalidDirection".to_owned(),
            TransferError::UnsupportedGlobUsage(_) => "UnsupportedGlobUsage".to_owned(),
            TransferError::AliasNotFound(_) => "AliasNotFound".to_owned(),
            TransferError::RemoteTargetMustBeDir(_) => "RemoteTargetMustBeDir".to_owned(),
            TransferError::RemoteTargetParentMissing(_) => "RemoteTargetParentMissing".to_owned(),
            TransferError::CreateRemoteDirFailed(_, _) => "CreateRemoteDirFailed".to_owned(),
            TransferError::LocalTargetMustBeDir(_) => "LocalTargetMustBeDir".to_owned(),
            TransferError::LocalTargetParentMissing(_) => "LocalTargetParentMissing".to_owned(),
            TransferError::CreateLocalDirFailed(_, _) => "CreateLocalDirFailed".to_owned(),
            TransferError::GlobNoMatches(_) => "GlobNoMatches".to_owned(),
            TransferError::WorkerNoSession(_) => "WorkerNoSession".to_owned(),
            TransferError::WorkerNoSftp(_) => "WorkerNoSftp".to_owned(),
            TransferError::SftpCreateFailed(_) => "SftpCreateFailed".to_owned(),
            TransferError::SshNoAddress(_) => "SshNoAddress".to_owned(),
            TransferError::SshSessionCreateFailed(_) => "SshSessionCreateFailed".to_owned(),
            TransferError::SshHandshakeFailed(_) => "SshHandshakeFailed".to_owned(),
            TransferError::SshAuthFailed(_) => "SshAuthFailed".to_owned(),
            TransferError::WorkerBuildSessionFailed(_) => "WorkerBuildSessionFailed".to_owned(),
            TransferError::MissingLocalSource(_) => "MissingLocalSource".to_owned(),
            TransferError::DownloadMultipleRemoteSources(_) => "DownloadMultipleRemoteSources".to_owned(),
            TransferError::OperationFailed(_) => "OperationFailed".to_owned(),
            TransferError::WorkerIo(_) => "WorkerIo".to_owned(),
        }
    }

    /// Whether another attempt is worth it when this happens before any data
    /// has moved. Failures to connect are; a refused key, a bad argument or a
    /// missing directory is not.
    pub fn is_retriable_pre_transfer(&self) -> (r: bool)
        ensures
            r == self@.passing_before(),
    {
        match self {
            TransferError::SshSessionCreateFailed(_)
            | TransferError::SshHandshakeFailed(_)
            | TransferError::WorkerBuildSessionFailed(_)
            | TransferError::SftpCreateFailed(_)
            | TransferError::WorkerNoSession(_)
            | TransferError::WorkerNoSftp(_) => true,
            _ => false,
        }
    }

    /// Whether another attempt is worth it when this happens while data moves.
    pub fn is_retriable_during_transfer(&self) -> (r: bool)
        ensures
            r == self@.passing_during(),
    {
        match self {
            TransferError::WorkerIo(_)
            | TransferError::SftpCreateFailed(_)
            | TransferError::WorkerNoSftp(_)
            | TransferError::WorkerNoSession(_) => true,
            _ => false,
        }
    }
}

/// A failed operation: one of the transfer errors, or any other failure, of
/// which only the message is known.
#[derive(Debug, Clone)]
pub enum OpError<S = String> {
    Transfer(TransferError<S>),
    Other(S),
}

impl View for OpError<String> {
    type V = OpError<Seq<char>>;

    open spec fn view(&self) -> OpError<Seq<char>> {
        match self {
            OpError::Transfer(e) => OpError::Transfer(e@),
            OpError::Other(m) => OpError::Other(m@),
        }
    }
}

impl OpError<Seq<char>> {
    /// The message for the user.
    pub open spec fn text(self) -> Seq<char> {
        match self {
            OpError::Transfer(e) => e.text(),
            OpError::Other(m) => m,
        }
    }
}

impl OpError {
    /// The message for the user.
    pub fn message(&self) -> (r: String)
        ensures
            r@ == self@.text(),
    {
        match self {
            OpError::Transfer(e) => e.message(),
            OpError::Other(m) => m.clone(),
        }
    }
}

/// A failure that the server's refusal of the keys, a bad argument, or the
/// state of the target directory causes is never tried again, neither before
/// nor during a transfer.
pub proof fn settled_failures_are_not_retried(e: TransferError<Seq<char>>)
    requires
        e is SshAuthFailed || e is AliasNotFound || e is InvalidDirection
            || e is UnsupportedGlobUsage || e is MissingLocalSource
            || e is RemoteTargetParentMissing || e is RemoteTargetMustBeDir
            || e is LocalTargetParentMissing || e is LocalTargetMustBeDir || e is GlobNoMatches
            || e is CreateLocalDirFailed || e is CreateRemoteDirFailed,
    ensures
        !e.passing_before(),
        !e.passing_during(),
{
}

/// The message of a failure holds all that the failure is about.
pub proof fn messages_hold_what_failed(e: TransferError<Seq<char>>)
    ensures
        match e {
            TransferError::InvalidDirection => e.text().len() > 0,
            TransferError::CreateRemoteDirFailed(a, b) => has_part(e.text(), a) && has_part(
                e.text(),
                b,
            ),
            TransferError::CreateLocalDirFailed(a, b) => has_part(e.text(), a) && has_part(
                e.text(),
                b,
            ),
            TransferError::UnsupportedGlobUsage(a) => has_part(e.text(), a),
            TransferError::AliasNotFound(a) => has_part(e.text(), a),
            TransferError::RemoteTargetMustBeDir(a) => has_part(e.text(), a),
            TransferError::RemoteTargetParentMissing(a) => has_part(e.text(), a),
            TransferError::LocalTargetMustBeDir(a) => has_part(e.text(), a),
            TransferError::LocalTargetParentMissing(a) => has_part(e.text(), a),
            TransferError::GlobNoMatches(a) => has_part(e.text(), a),
            TransferError::WorkerNoSession(a) => has_part(e.text(), a),
            TransferError::WorkerNoSftp(a) => has_part(e.text(), a),
            TransferError::SftpCreateFailed(a) => has_part(e.text(), a),
            TransferError::SshNoAddress(a) => has_part(e.text(), a),
            TransferError::SshSessionCreateFailed(a) => has_part(e.text(), a),
            TransferError::SshHandshakeFailed(a) => has_part(e.text(), a),
            TransferError::SshAuthFailed(a) => has_part(e.text(), a),
            TransferError::WorkerBuildSessionFailed(a) => has_part(e.text(), a),
            TransferError::MissingLocalSource(a) => has_part(e.text(), a),
            TransferError::DownloadMultipleRemoteSources(a) => has_part(e.text(), a),
            TransferError::OperationFailed(a) => has_part(e.text(), a),
            TransferError::WorkerIo(a) => has_part(e.text(), a),
        },
        OpError::Transfer(e).text() == e.text(),
{
    match e {
        TransferError::InvalidDirection => {
            reveal_strlit("命令必须且只有一端为远端（alias:/path），请检查源和目标");
        },
        TransferError::CreateRemoteDirFailed(a, b) => {
            lemma_part_behind("创建远端目录失败: "@ + a + " — "@, b);
            lemma_part_between("创建远端目录失败: "@, a, " — "@ + b);
            assert(e.text() =~= "创建远端目录失败: "@ + a + (" — "@ + b));
        },
        TransferError::CreateLocalDirFailed(a, b) => {
            lemma_part_behind("创建目标目录失败: "@ + a + " (本地) — "@, b);
            lemma_part_between("创建目标目录失败: "@, a, " (本地) — "@ + b);
            assert(e.text() =~= "创建目标目录失败: "@ + a + (" (本地) — "@ + b));
        },
        TransferError::AliasNotFound(a) => {
            lemma_part_between("别名 '"@, a, "' 不存在"@);
        },
        TransferError::RemoteTargetMustBeDir(a) => {
            lemma_part_between("目标必须存在且为目录: "@, a, " (远端)"@);
        },
        TransferError::RemoteTargetParentMissing(a) => {
            lemma_part_between("目标父目录不存在: "@, a, " (远端)，不会自动创建多级目录"@);
        },
        TransferError::LocalTargetMustBeDir(a) => {
            lemma_part_between("目标必须存在且为目录: "@, a, " (本地)，建议先创建或移除尾部/"@);
        },
        TransferError::LocalTargetParentMissing(a) => {
            lemma_part_between(
                "目标父目录不存在: "@,
                a,
                " (本地)，不会自动创建多级目录，请手动创建父目录"@,
            );
        },
        TransferError::UnsupportedGlobUsage(a) => {
            lemma_part_behind("不支持的通配符用法（仅允许最后一段）："@, a);
        },
        TransferError::GlobNoMatches(a) => {
            lemma_part_behind("glob 无匹配项（远端），请确认模式与路径是否正确: "@, a);
        },
        TransferError::WorkerNoSession(a) => {
            lemma_part_behind("工作线程无法建立会话: "@, a);
        },
        TransferError::WorkerNoSftp(a) => {
            lemma_part_behind("工作线程无法创建 SFTP 会话: "@, a);
        },
        TransferError::SftpCreateFailed(a) => {
            lemma_part_behind("SFTP 创建失败: "@, a);
        },
        TransferError::SshNoAddress(a) => {
            lemma_part_behind("无法解析地址: "@, a);
        },
        TransferError::SshSessionCreateFailed(a) => {
            lemma_part_behind("无法创建 SSH Session: "@, a);
        },
        TransferError::SshHandshakeFailed(a) => {
            lemma_part_behind("SSH 握手失败: "@, a);
        },
        TransferError::SshAuthFailed(a) => {
            lemma_part_behind("SSH 认证失败: "@, a);
        },
        TransferError::WorkerBuildSessionFailed(a) => {
            lemma_part_behind("工作线程构建会话失败: "@, a);
        },
        TransferError::MissingLocalSource(a) => {
            lemma_part_behind("缺少本地源: "@, a);
        },
        TransferError::DownloadMultipleRemoteSources(a) => {
            lemma_part_behind("下载仅支持单个远端源: "@, a);
        },
        TransferError::OperationFailed(a) => {
            lemma_part_behind("操作失败: "@, a);
        },
        TransferError::WorkerIo(a) => {
            lemma_part_behind("传输/IO 错误: "@, a);
        },
    }
}

/// A failure of another kind is told as it came.
pub proof fn other_failures_are_told_as_they_are(m: Seq<char>)
    ensures
        OpError::Other(m).text() == m,
{
}

/// The message of a directory that could not be made holds its path, with
/// forward slashes, and the reason.
pub proof fn unmade_directories_are_named(p: Seq<char>, m: Seq<char>)
    requires
        !p.contains('\\'),
    ensures
        has_part(MkdirError::ExistsAsFile(p).text(), p),
        has_part(MkdirError::SftpError(p, m).text(), p),
        has_part(MkdirError::SftpError(p, m).text(), m),
{
    assert forall|j: int| 0 <= j < p.len() implies p[j] != '\\' by {
        assert(p.contains(p[j]));
    }
    assert(replace_char(p, '\\', '/') =~= p);
    lemma_part_behind("远端已有同名文件（期望目录）: "@, p);
    lemma_part_behind("创建远端目录失败: "@ + p + " — "@, m);
    lemma_part_between("创建远端目录失败: "@, p, " — "@ + m);
    assert(MkdirError::SftpError(p, m).text() =~= "创建远端目录失败: "@ + p + (" — "@ + m));
}

/// Backward slashes in the path of a directory that could not be made are told
/// as forward ones.
pub proof fn unmade_directories_are_named_with_forward_slashes(
    p: Seq<char>,
    q: Seq<char>,
    m: Seq<char>,
)
    requires
        q.len() == p.len(),
        forall|i: int|
            0 <= i < p.len() ==> #[trigger] q[i] == if p[i] == '\\' {
                '/'
            } else {
                p[i]
            },
    ensures
        MkdirError::ExistsAsFile(p).text() == MkdirError::ExistsAsFile(q).text(),
        MkdirError::SftpError(p, m).text() == MkdirError::SftpError(q, m).text(),
{
    assert(replace_char(p, '\\', '/') =~= q);
    assert(replace_char(q, '\\', '/') =~= q);
}

/// Where connecting failed, or the channel is gone, another attempt may help
/// before data moves; where reading or writing failed, or the channel is gone,
/// while it does. A failed connection does not come up while data moves, nor
/// reading and writing before.
pub proof fn passing_failures_are_retried(e: TransferError<Seq<char>>)
    ensures
        e is WorkerNoSession || e is WorkerNoSftp || e is SftpCreateFailed ==> e.passing_before()
            && e.passing_during(),
        e is SshSessionCreateFailed || e is SshHandshakeFailed || e is WorkerBuildSessionFailed
            ==> e.passing_before() && !e.passing_during(),
        e is WorkerIo ==> e.passing_during() && !e.passing_before(),
        e is SshNoAddress || e is DownloadMultipleRemoteSources || e is OperationFailed
            ==> !e.passing_before() && !e.passing_during(),
{
}

} // verus!
