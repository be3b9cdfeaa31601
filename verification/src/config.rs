//! What the tracker is started with.

use vstd::prelude::*;

verus! {

/// The seconds between two polls of the leaderboard.
pub const HALL_OF_FAME_POLL_INTERVAL: u64 = 180;

/// The seconds between two polls of the disclosure stream.
pub const DISCLOSED_REPORTS_POLL_INTERVAL: u64 = 300;

/// The settings of one tracker: whose session to use, where the last seen
/// state is kept, which programme to watch, and where to report.
#[derive(Debug, PartialEq, Eq)]
pub struct Arguments {
    pub bugcrowd_session_token: Option<String>,
    pub redis: String,
    pub engagement_handle: String,
    pub discord_webhook_url: String,
}

impl Default for Arguments {
    fn default() -> (r: Arguments)
        ensures
            r.bugcrowd_session_token.is_none(),
            r.redis@ == Seq::<char>::empty(),
            r.engagement_handle@ == Seq::<char>::empty(),
            r.discord_webhook_url@ == Seq::<char>::empty(),
    {
        Arguments {
            bugcrowd_session_token: None,
            redis: String::new(),
            engagement_handle: String::new(),
            discord_webhook_url: String::new(),
        }
    }
}

} // verus!
