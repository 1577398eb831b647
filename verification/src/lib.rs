//! Backup and restore of installed packages: the metadata envelope, the durable
//! write protocol, the orchestration of a package's own procedures and the
//! notification ledger.

pub mod auth;
pub mod backup;
pub mod cbor;
pub mod durable;
pub mod error;
pub mod json;
pub mod list;
pub mod metadata;
pub mod migration;
pub mod notifications;
pub mod package;
pub mod prefix;
pub mod text;
pub mod timestamp;
pub mod version;
pub mod volume;
