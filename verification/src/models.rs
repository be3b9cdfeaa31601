//! The records that the remote collections are made of.

use vstd::prelude::*;

verus! {

/// What a page says of the collection it was cut from.
#[derive(Debug, PartialEq, Eq)]
pub struct PaginationMeta {
    /// The most entries a page can hold.
    pub limit: u64,
    /// The number of entries in the whole collection.
    pub total_count: u64,
}

/// One page of the leaderboard.
#[derive(Debug, PartialEq, Eq)]
pub struct HallOfFame {
    pub pagination_meta: PaginationMeta,
    pub presented_heroes: HallOfFameHeros,
}

/// The entries of one leaderboard page.
#[derive(Debug, PartialEq, Eq)]
pub struct HallOfFameHeros {
    pub heroes: Vec<Hero>,
    pub hide_points: bool,
    /// The number of entries the leaderboard presents in all.
    pub total: u64,
}

/// The username under which the source lists researchers who do not show
/// theirs.
pub const ANONYMOUS_HERO_NAME: &'static str = "anonymous";

/// One researcher on the leaderboard. Two entries are the same researcher
/// when their usernames agree.
#[derive(Debug, PartialEq, Eq)]
pub struct Hero {
    pub accent_color: Option<String>,
    pub avatar: String,
    pub points: u64,
    pub profile_url: Option<String>,
    pub username: String,
    /// The 1-based position on the leaderboard; 0 until it is assigned.
    pub rank: usize,
}

/// One page of the disclosure stream, newest report first.
#[derive(Debug, PartialEq, Eq)]
pub struct CrowdStream {
    pub pagination_meta: PaginationMeta,
    pub results: Vec<DisclosedReport>,
}

/// A moment in time, as seconds since the Unix epoch and the nanoseconds
/// into that second.
#[derive(Debug, Clone, Copy, PartialEq, Eq, Structural)]
pub struct Instant {
    pub seconds: i64,
    pub nanos: u32,
}

impl Instant {
    /// Whether the instant lies in the years 1 to 9999 and names a
    /// nanosecond of its second.
    pub open spec fn in_calendar(self) -> bool {
        -62_135_596_800 <= self.seconds <= 253_402_300_799 && self.nanos < 1_000_000_000
    }
}

/// One disclosed report of the stream. Two reports are the same report when
/// their ids agree.
#[derive(Debug, PartialEq, Eq)]
pub struct DisclosedReport {
    pub id: String,
    pub title: String,
    pub target: Option<String>,
    pub researcher_username: Option<String>,
    pub amount: Option<String>,
    pub priority: u32,
    pub created_at: Instant,
    pub disclosed_at: Instant,
    pub disclosure_report_url: String,
}

/// A copy of an optional string.
pub fn clone_optional(text: &Option<String>) -> (r: Option<String>)
    ensures
        r == *text,
{
    match text {
        Some(s) => Some(s.clone()),
        None => None,
    }
}

impl Clone for PaginationMeta {
    fn clone(&self) -> (r: PaginationMeta)
        ensures
            r == *self,
    {
        PaginationMeta { limit: self.limit, total_count: self.total_count }
    }
}

impl Clone for Hero {
    fn clone(&self) -> (r: Hero)
        ensures
            r == *self,
    {
        Hero {
            accent_color: clone_optional(&self.accent_color),
            avatar: self.avatar.clone(),
            points: self.points,
            profile_url: clone_optional(&self.profile_url),
            username: self.username.clone(),
            rank: self.rank,
        }
    }
}

impl Clone for DisclosedReport {
    fn clone(&self) -> (r: DisclosedReport)
        ensures
            r == *self,
    {
        DisclosedReport {
            id: self.id.clone(),
            title: self.title.clone(),
            target: clone_optional(&self.target),
            researcher_username: clone_optional(&self.researcher_username),
            amount: clone_optional(&self.amount),
            priority: self.priority,
            created_at: self.created_at,
            disclosed_at: self.disclosed_at,
            disclosure_report_url: self.disclosure_report_url.clone(),
        }
    }
}

impl Default for DisclosedReport {
    fn default() -> (r: DisclosedReport)
        ensures
            r.id@ == Seq::<char>::empty(),
            r.title@ == Seq::<char>::empty(),
            r.target.is_none(),
            r.researcher_username.is_none(),
            r.amount.is_none(),
            r.priority == 0,
            r.created_at == (Instant { seconds: 0, nanos: 0 }),
            r.disclosed_at == (Instant { seconds: 0, nanos: 0 }),
            r.disclosure_report_url@ == Seq::<char>::empty(),
    {
        DisclosedReport {
            id: String::new(),
            title: String::new(),
            target: None,
            researcher_username: None,
            amount: None,
            priority: 0,
            created_at: Instant { seconds: 0, nanos: 0 },
            disclosed_at: Instant { seconds: 0, nanos: 0 },
            disclosure_report_url: String::new(),
        }
    }
}

impl Hero {
    /// Whether `self` and `other` are entries of the same researcher.
    pub open spec fn same_key(&self, other: &Hero) -> bool {
        self.username@ == other.username@
    }
}

} // verus!
