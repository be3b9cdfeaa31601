//! One poll cycle of each tracked collection: from what was fetched and what
//! was last seen to the events that are due.

pub mod disclosed_reports;
pub mod hall_of_fame;
pub mod leaderboard_laws;
