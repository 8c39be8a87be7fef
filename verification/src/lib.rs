//! A scoring-engine library for security-training exercises.
//!
//! The library keeps a ledger of scores, a registry of vulnerability checks,
//! and the scheduling state that decides which checks run on which tick.
//! Callers drive the tick loop and supply the predicates; every decision the
//! engine makes about its own state is verified here.

mod apps;
mod config;
mod engine;
mod ledger;
mod passwd;
mod registry;
mod shared;
mod util;

pub use apps::AppData;
pub use apps::AppInstallMethod;
pub use apps::InstallMethod;
pub use apps::TripleBool;
pub use config::DataFiles;
pub use config::ConfigNumber;
pub use config::ConfigValue;
pub use config::get_database_entry;
pub use engine::Engine;
pub use ledger::ScoreEntry;
pub use ledger::ScoreLedger;
pub use passwd::PasswdRecord;
pub use passwd::parse_passwd_entry;
pub use registry::Condition;
pub use registry::ConditionEntry;
pub use registry::ConditionRegistry;
pub use shared::SharedLedger;
pub use util::bytes_contain;
pub use util::errno;
pub use util::list_contains;
pub use util::lists_name;
pub use util::sudo_refusal_phrase;
pub use util::occurs_at;
pub use util::occurs_in;
