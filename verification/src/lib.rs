//! Verified core of `moneo`, a command-line manager for the reminders kept
//! by the Due app: the reminder database model, its queries and edits, the
//! time arithmetic in Hong Kong time, and the text that the tool shows.

pub mod text;
pub mod json;
pub mod time;
pub mod order;
pub mod reminders;
pub mod recur;
pub mod paths;
pub mod listing;
pub mod snapshot;
pub mod remove;
pub mod add;
pub mod sync;
pub mod edit;
pub mod store;
