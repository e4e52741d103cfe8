//! Correlates the emails of a mailing-list archive with their replies to find
//! the messages that never received an answer, and turns the statistics
//! service's response into the record a report is made from.
pub mod analysis;
pub mod client;
pub mod dates;
pub mod display;
pub mod email;
pub mod ids;
pub mod stats;
pub mod text;
pub mod thread;
