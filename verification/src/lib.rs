//! A search-and-launch engine over a fixed collection of browsing-history
//! records: a query is matched fuzzily against every record title, the
//! records are ranked by score with a deterministic tie-break, and a bounded
//! result list drives an activate-by-index protocol.

pub mod record;
pub mod score;
pub mod rank;
pub mod session;

pub use record::HistoryEntry;
pub use session::ActivateOutcome;
pub use session::ChromeHistorys;
pub use session::Response;
