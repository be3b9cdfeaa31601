//! Where the last seen state of each collection is kept: the keys under
//! which a programme's leaderboard and its newest disclosed report are
//! stored.

use vstd::prelude::*;

verus! {

/// The key of the leaderboard last seen for a programme.
pub open spec fn hall_of_fame_key_text(program_handle: Seq<char>) -> Seq<char> {
    "bugcrowd_tracker:/hof/"@ + program_handle
}

/// The key of the newest disclosed report seen for a programme.
pub open spec fn disclosed_reports_key_text(program_handle: Seq<char>) -> Seq<char> {
    "bugcrowd_tracker:/disclosed/"@ + program_handle
}

/// The key of the leaderboard last seen for a programme.
pub fn hall_of_fame_key(program_handle: &str) -> (key: String)
    ensures
        key@ == hall_of_fame_key_text(program_handle@),
{
    let mut key = String::from_str("bugcrowd_tracker:/hof/");
    key.append(program_handle);
    key
}

/// The key of the newest disclosed report seen for a programme.
pub fn disclosed_reports_key(program_handle: &str) -> (key: String)
    ensures
        key@ == disclosed_reports_key_text(program_handle@),
{
    let mut key = String::from_str("bugcrowd_tracker:/disclosed/");
    key.append(program_handle);
    key
}

} // verus!
