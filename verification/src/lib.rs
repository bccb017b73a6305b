//! Verified core of a personal-finance bot: category handling, calendar
//! arithmetic, command arguments, the dialogue state machine and the text
//! of every reply.

pub mod arguments;
pub mod calendar;
pub mod category;
pub mod dialogue;
pub mod ordering;
pub mod photo;
pub mod reports;
pub mod text;
