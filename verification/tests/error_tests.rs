use tronctl::error::TronCtlError;

#[test]
fn test_insufficient_permissions_error() {
    let err = TronCtlError::InsufficientPermissions;
    assert_eq!(err.message(), "权限不足: 需要 root 权限");
}

#[test]
fn test_incompatible_java_version_error() {
    let err = TronCtlError::IncompatibleJavaVersion {
        required: "1.8".to_string(),
        current: "11".to_string(),
    };
    assert!(err.message().contains("1.8"));
    assert!(err.message().contains("11"));
}

#[test]
fn test_insufficient_memory_error() {
    let err = TronCtlError::InsufficientMemory {
        recommended: 32,
        current: 16,
    };
    assert!(err.message().contains("32"));
    assert!(err.message().contains("16"));
}

#[test]
fn test_node_already_running_error() {
    let err = TronCtlError::NodeAlreadyRunning(12345);
    assert!(err.message().contains("12345"));
}

#[test]
fn test_md5_mismatch_error() {
    let err = TronCtlError::Md5Mismatch {
        expected: "abc123".to_string(),
        actual: "def456".to_string(),
    };
    assert!(err.message().contains("abc123"));
    assert!(err.message().contains("def456"));
}

#[test]
fn test_download_failed_error() {
    let err = TronCtlError::DownloadFailed("网络超时".to_string());
    assert!(err.message().contains("网络超时"));
}

#[test]
fn test_config_error() {
    let err = TronCtlError::ConfigError("配置无效".to_string());
    assert!(err.message().contains("配置无效"));
}

#[test]
fn test_io_error_message() {
    let err = TronCtlError::IoError("file not found".to_string());
    assert!(err.message().contains("IO 错误"));
}

#[test]
fn test_insufficient_disk_error() {
    let err = TronCtlError::InsufficientDisk {
        recommended: 2560,
        current: 100,
    };
    assert!(err.message().contains("2560"));
    assert!(err.message().contains("100"));
}

#[test]
fn test_wrapped_library_error_messages() {
    assert!(TronCtlError::HttpError("timeout".to_string())
        .message()
        .contains("HTTP 错误"));
    assert!(TronCtlError::JsonError("bad".to_string())
        .message()
        .contains("JSON 解析错误"));
    assert!(TronCtlError::TomlDeError("bad".to_string())
        .message()
        .contains("TOML 解析错误"));
    assert!(TronCtlError::TomlSerError("bad".to_string())
        .message()
        .contains("TOML 序列化错误"));
    assert!(TronCtlError::Other("oops".to_string())
        .message()
        .contains("其他错误"));
    assert_eq!(
        TronCtlError::NodeNotInitialized.message(),
        "节点未初始化: 请先运行 'tronctl init'"
    );
    assert!(TronCtlError::ProcessStartFailed("spawn".to_string())
        .message()
        .contains("进程启动失败"));
    assert!(TronCtlError::RpcCallFailed("HTTP 500".to_string())
        .message()
        .contains("RPC 调用失败"));
}

#[test]
fn test_node_not_running_message() {
    let err = TronCtlError::NodeNotRunning;
    assert_eq!(err.message(), "节点未运行");
}
