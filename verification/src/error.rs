//! The error taxonomy: every failure the tool reports, as plain values.

use vstd::prelude::*;

use crate::strutil::{i64_to_string, spec_decimal, spec_decimal_i64, u64_to_string};

verus! {

/// Everything that can go wrong, from missing privileges to a failed chunk fetch.
/// Failures coming out of outside libraries carry their rendered message.
#[derive(Debug, Clone)]
pub enum TronCtlError {
    InsufficientPermissions,
    IncompatibleJavaVersion { required: String, current: String },
    InsufficientMemory { recommended: u64, current: u64 },
    InsufficientDisk { recommended: u64, current: u64 },
    NodeNotInitialized,
    NodeAlreadyRunning(i32),
    NodeNotRunning,
    DownloadFailed(String),
    Md5Mismatch { expected: String, actual: String },
    ProcessStartFailed(String),
    RpcCallFailed(String),
    ConfigError(String),
    IoError(String),
    HttpError(String),
    JsonError(String),
    TomlDeError(String),
    TomlSerError(String),
    Other(String),
}

/// The one-line human-readable rendering of each error.
pub open spec fn spec_message(e: &TronCtlError) -> Seq<char> {
    match e {
        TronCtlError::InsufficientPermissions => "权限不足: 需要 root 权限"@,
        TronCtlError::IncompatibleJavaVersion { required, current } => "Java 版本不兼容: 需要 Java "@
            + required@ + ", 当前 "@ + current@,
        TronCtlError::InsufficientMemory { recommended, current } => "内存不足: 推荐 "@
            + spec_decimal(*recommended as int) + "GB, 当前 "@ + spec_decimal(*current as int)
            + "GB"@,
        TronCtlError::InsufficientDisk { recommended, current } => "磁盘空间不足: 推荐 "@
            + spec_decimal(*recommended as int) + "GB, 当前 "@ + spec_decimal(*current as int)
            + "GB"@,
        TronCtlError::NodeNotInitialized => "节点未初始化: 请先运行 'tronctl init'"@,
        TronCtlError::NodeAlreadyRunning(pid) => "节点已在运行中: PID "@ + spec_decimal_i64(
            *pid as int,
        ),
        TronCtlError::NodeNotRunning => "节点未运行"@,
        TronCtlError::DownloadFailed(msg) => "下载失败: "@ + msg@,
        TronCtlError::Md5Mismatch { expected, actual } => "MD5 校验失败: 期望 "@ + expected@
            + ", 实际 "@ + actual@,
        TronCtlError::ProcessStartFailed(msg) => "进程启动失败: "@ + msg@,
        TronCtlError::RpcCallFailed(msg) => "RPC 调用失败: "@ + msg@,
        TronCtlError::ConfigError(msg) => "配置文件错误: "@ + msg@,
        TronCtlError::IoError(msg) => "IO 错误: "@ + msg@,
        TronCtlError::HttpError(msg) => "HTTP 错误: "@ + msg@,
        TronCtlError::JsonError(msg) => "JSON 解析错误: "@ + msg@,
        TronCtlError::TomlDeError(msg) => "TOML 解析错误: "@ + msg@,
        TronCtlError::TomlSerError(msg) => "TOML 序列化错误: "@ + msg@,
        TronCtlError::Other(msg) => "其他错误: "@ + msg@,
    }
}

impl TronCtlError {
    /// Render the error as its one-line message.
    pub fn message(&self) -> (r: String)
        ensures
            r@ == spec_message(self),
    {
        match self {
            TronCtlError::InsufficientPermissions => String::from_str(
                "权限不足: 需要 root 权限",
            ),
            TronCtlError::IncompatibleJavaVersion { required, current } => {
                let mut s = String::from_str("Java 版本不兼容: 需要 Java ");
                s.append(required.as_str());
                s.append(", 当前 ");
                s.append(current.as_str());
                s
            },
            TronCtlError::InsufficientMemory { recommended, current } => {
                let mut s = String::from_str("内存不足: 推荐 ");
                s.append(u64_to_string(*recommended).as_str());
                s.append("GB, 当前 ");
                s.append(u64_to_string(*current).as_str());
                s.append("GB");
                s
            },
            TronCtlError::InsufficientDisk { recommended, current } => {
                let mut s = String::from_str("磁盘空间不足: 推荐 ");
                s.append(u64_to_string(*recommended).as_str());
                s.append("GB, 当前 ");
                s.append(u64_to_string(*current).as_str());
                s.append("GB");
                s
            },
            TronCtlError::NodeNotInitialized => String::from_str(
                "节点未初始化: 请先运行 'tronctl init'",
            ),
            TronCtlError::NodeAlreadyRunning(pid) => {
                let mut s = String::from_str("节点已在运行中: PID ");
                s.append(i64_to_string(*pid as i64).as_str());
                s
            },
            TronCtlError::NodeNotRunning => String::from_str("节点未运行"),
            TronCtlError::DownloadFailed(msg) => {
                let mut s = String::from_str("下载失败: ");
                s.append(msg.as_str());
                s
            },
            TronCtlError::Md5Mismatch { expected, actual } => {
                let mut s = String::from_str("MD5 校验失败: 期望 ");
                s.append(expected.as_str());
                s.append(", 实际 ");
                s.append(actual.as_str());
                s
            },
            TronCtlError::ProcessStartFailed(msg) => {
                let mut s = String::from_str("进程启动失败: ");
                s.append(msg.as_str());
                s
            },
            TronCtlError::RpcCallFailed(msg) => {
                let mut s = String::from_str("RPC 调用失败: ");
                s.append(msg.as_str());
                s
            },
            TronCtlError::ConfigError(msg) => {
                let mut s = String::from_str("配置文件错误: ");
                s.append(msg.as_str());
                s
            },
            TronCtlError::IoError(msg) => {
                let mut s = String::from_str("IO 错误: ");
                s.append(msg.as_str());
                s
            },
            TronCtlError::HttpError(msg) => {
                let mut s = String::from_str("HTTP 错误: ");
                s.append(msg.as_str());
                s
            },
            TronCtlError::JsonError(msg) => {
                let mut s = String::from_str("JSON 解析错误: ");
                s.append(msg.as_str());
                s
            },
            TronCtlError::TomlDeError(msg) => {
                let mut s = String::from_str("TOML 解析错误: ");
                s.append(msg.as_str());
                s
            },
            TronCtlError::TomlSerError(msg) => {
                let mut s = String::from_str("TOML 序列化错误: ");
                s.append(msg.as_str());
                s
            },
            TronCtlError::Other(msg) => {
                let mut s = String::from_str("其他错误: ");
                s.append(msg.as_str());
                s
            },
        }
    }
}

} // verus!
