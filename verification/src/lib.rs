//! A development-time file synchroniser library: it models the watcher,
//! dispatcher and transfer-client pipeline that replicates changed local
//! files to a remote host over SFTP.

pub mod pathmodel;
pub mod strutil;
pub mod chunks;
pub mod upload_pair;
pub mod filter;
pub mod local_utils;
pub mod sftp_client;
pub mod dispatcher;
pub mod watcher;
