//! A time-tracking ledger: named projects holding work sessions, an
//! append-only action log as the single source of truth, and the replay
//! engine that rebuilds the in-memory view from that log.

pub mod clock;
pub mod record;
pub mod key;
pub mod project;
pub mod wire;
pub mod action;
pub mod registry;
pub mod ledger;
pub mod database;
pub mod wal;
pub mod storage;
pub mod phrase;
pub mod report;

pub use action::{Action, Outcome};
pub use clock::Timestamp;
pub use database::{load_all, Database, Pending, SomeDbError, Step};
pub use key::ProjectKey;
pub use ledger::DbErrorKind;
pub use project::{Project, RecordAdded};
pub use record::{IllegalStateError, Record, RecordEnded};
