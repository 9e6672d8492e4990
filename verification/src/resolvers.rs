//! Link resolvers: one per protocol family, each scoring inputs and
//! turning accepted links into draft items.

pub mod adb;
pub mod bt;
pub mod ed2k;
pub mod ftp;
pub mod github;
pub mod http;
pub mod sftp;
