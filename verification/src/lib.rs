//! Pieces of an Oracle database driver: authentication, connection messages, batches, session
//! pooling and statement caching.

pub mod batch;
pub mod batch_laws;
pub mod buffer;
pub mod capabilities;
pub mod config;
pub mod constants;
pub mod crypto;
pub mod drcp;
pub mod error;
pub mod hex_codec;
pub mod messages;
pub mod packet;
pub mod row;
pub mod statement;
pub mod statement_cache;
pub mod statement_cache_laws;
pub mod statement_laws;
pub mod text;
pub mod text_laws;

pub use batch::{BatchBinds, BatchBuilder, BatchError, BatchOptions, BatchResult};
pub use capabilities::Capabilities;
pub use config::Config;
pub use drcp::{DrcpOptions, DrcpSession, ReleaseMode, SessionPurity};
pub use error::{Error, Result};
pub use row::Value;
pub use statement::Statement;
pub use statement_cache::StatementCache;
