pub mod cli;
pub mod commands;
pub mod constants;
pub mod downloader;
pub mod environment;
pub mod error;
pub mod extractor;
pub mod health;
pub mod models;
pub mod process;
pub mod snapshot;
pub mod strutil;

pub use cli::Cli;
pub use cli::Commands;
pub use environment::EnvironmentChecker;
pub use error::TronCtlError;
pub use health::HealthChecker;
pub use process::ProcessManager;
pub use snapshot::SnapshotManager;
pub use models::BlockHeader;
pub use models::BlockInfo;
pub use models::BlockRawData;
pub use models::HealthStatus;
pub use models::NodeStatus;
pub use models::SnapshotMetadata;
pub use models::SnapshotServer;
pub use models::TronCtlConfig;
