//! Paging through the remote collections: which address to ask next, what
//! to keep of each page, and when the collection is complete.

use vstd::prelude::*;
use crate::models::{CrowdStream, DisclosedReport, HallOfFame, Hero};
use crate::ranking::{rank_heroes, ranked, well_ranked};
use crate::text::{decimal, push_decimal};

verus! {

/// Why a fetch gave no collection. Nothing is kept of a fetch that fails.
#[derive(Debug, Clone, Copy, PartialEq, Eq, Structural)]
pub enum TransportError {
    /// The request did not get an answer.
    Network,
    /// The answer came with a status other than success.
    Status(u16),
    /// The answer could not be read as a page.
    Malformed,
}

/// Whether an HTTP status stands for success.
pub open spec fn success_status(status: u16) -> bool {
    200 <= status < 300
}

/// Whether an HTTP status stands for success.
pub fn is_success(status: u16) -> (r: bool)
    ensures
        r == success_status(status),
{
    200 <= status && status < 300
}

/// Accepts the status of an answer, or says why the fetch fails.
pub fn check_status(status: u16) -> (r: Result<(), TransportError>)
    ensures
        success_status(status) ==> r == Ok::<(), TransportError>(()),
        !success_status(status) ==> r == Err::<(), TransportError>(TransportError::Status(status)),
{
    if is_success(status) {
        Ok(())
    } else {
        Err(TransportError::Status(status))
    }
}

/// What came back for the request of a page.
#[derive(Debug, PartialEq, Eq)]
pub enum Reply<T> {
    /// The request did not get an answer.
    NoAnswer,
    /// The answer: its status, and the page that its body holds, if the
    /// body could be read as one.
    Answer { status: u16, page: Option<T> },
}

/// Takes the page out of what came back for its request, or says why the
/// fetch fails: for want of an answer, for a status other than success,
/// whatever the body holds, or for a body that is no page.
pub fn page_of<T>(reply: Reply<T>) -> (r: Result<T, TransportError>)
    ensures
        r == match reply {
            Reply::NoAnswer => Err::<T, TransportError>(TransportError::Network),
            Reply::Answer { status, page } => if !success_status(status) {
                Err(TransportError::Status(status))
            } else {
                match page {
                    Some(page) => Ok(page),
                    None => Err(TransportError::Malformed),
                }
            },
        },
{
    match reply {
        Reply::NoAnswer => Err(TransportError::Network),
        Reply::Answer { status, page } => {
            match check_status(status) {
                Err(error) => Err(error),
                Ok(()) => match page {
                    Some(page) => Ok(page),
                    None => Err(TransportError::Malformed),
                },
            }
        },
    }
}

/// How the tracker names itself to the source.
pub const USER_AGENT: &'static str = "BugcrowdTracker/1.0";

/// The address that keeps a session alive.
pub const KEEPALIVE_URL: &'static str = "https://bugcrowd.com/auth/session?update_activity=true";

/// The seconds between two requests that keep the session alive.
pub const PING_SESSION_INTERVAL: u64 = 60;

/// The cookie that carries a session token.
pub open spec fn session_cookie_text(session_token: Seq<char>) -> Seq<char> {
    "_bugcrowd_session="@ + session_token
}

/// The cookie that carries a session token.
pub fn session_cookie(session_token: &str) -> (cookie: String)
    ensures
        cookie@ == session_cookie_text(session_token@),
{
    let mut cookie = String::from_str("_bugcrowd_session=");
    cookie.append(session_token);
    cookie
}

/// The address that tells whether a programme can be seen.
pub open spec fn announcements_address(program: Seq<char>) -> Seq<char> {
    "https://bugcrowd.com/engagements/"@ + program + "/announcements.json"@
}

/// The address of one page of a programme's leaderboard.
pub open spec fn hall_of_fame_address(program: Seq<char>, page: u64) -> Seq<char> {
    "https://bugcrowd.com/engagements/"@ + program + "/hall_of_fames.json?page="@ + decimal(
        page as nat,
    )
}

/// The address of one page of a programme's disclosure stream.
pub open spec fn crowdstream_address(program: Seq<char>, page: u64) -> Seq<char> {
    "https://bugcrowd.com/engagements/"@ + program + "/crowdstream.json?page="@ + decimal(
        page as nat,
    ) + "&filter_by=disclosures"@
}

/// The address that tells whether a programme can be seen.
pub fn announcements_url(program: &str) -> (url: String)
    ensures
        url@ == announcements_address(program@),
{
    let mut url = String::from_str("https://bugcrowd.com/engagements/");
    url.append(program);
    url.append("/announcements.json");
    url
}

/// The address of one page of a programme's leaderboard.
pub fn hall_of_fame_url(program: &str, page: u64) -> (url: String)
    ensures
        url@ == hall_of_fame_address(program@, page),
{
    let mut url = String::from_str("https://bugcrowd.com/engagements/");
    url.append(program);
    url.append("/hall_of_fames.json?page=");
    push_decimal(&mut url, page);
    url
}

/// The address of one page of a programme's disclosure stream.
pub fn crowdstream_url(program: &str, page: u64) -> (url: String)
    ensures
        url@ == crowdstream_address(program@, page),
{
    let mut url = String::from_str("https://bugcrowd.com/engagements/");
    url.append(program);
    url.append("/crowdstream.json?page=");
    push_decimal(&mut url, page);
    url.append("&filter_by=disclosures");
    url
}

/// A leaderboard fetch between two requests: what the pages so far held,
/// and which page is due.
#[derive(Debug, PartialEq, Eq)]
pub struct HallOfFameFetch {
    pub heros: Vec<Hero>,
    pub page: u64,
}

/// How a leaderboard fetch goes on after a page.
#[derive(Debug, PartialEq, Eq)]
pub enum FetchProgress {
    /// Another page is due.
    Continue(HallOfFameFetch),
    /// Every entry is in: the leaderboard, ordered and ranked.
    Complete(Vec<Hero>),
}

/// Whether a leaderboard is complete once `collected` entries are in and the
/// last page was `page`: the count that the source reports is reached, or
/// the page says that the leaderboard presents nothing.
pub open spec fn leaderboard_complete(collected: nat, page: HallOfFame) -> bool {
    page.pagination_meta.total_count == collected || page.presented_heroes.total == 0
}

impl HallOfFameFetch {
    /// A fetch that has yet to ask for the first page.
    pub fn new() -> (r: HallOfFameFetch)
        ensures
            r.heros@ == Seq::<Hero>::empty(),
            r.page == 1,
    {
        HallOfFameFetch { heros: Vec::new(), page: 1 }
    }

    /// The address of the page that is due.
    pub fn url(&self, program: &str) -> (url: String)
        ensures
            url@ == hall_of_fame_address(program@, self.page),
    {
        hall_of_fame_url(program, self.page)
    }

    /// Takes in the page that was asked for. The fetch is complete when the
    /// entries so far are as many as the source reports in all, or when the
    /// page says that the leaderboard presents nothing; else the next page
    /// is due.
    pub fn accept(self, page: HallOfFame) -> (r: FetchProgress)
        requires
            self.page < u64::MAX,
        ensures
            match r {
                FetchProgress::Complete(heros) => {
                    &&& leaderboard_complete(
                        (self.heros@ + page.presented_heroes.heroes@).len(),
                        page,
                    )
                    &&& heros@ == ranked(self.heros@ + page.presented_heroes.heroes@)
                    &&& well_ranked(heros@)
                },
                FetchProgress::Continue(next) => {
                    &&& !leaderboard_complete(
                        (self.heros@ + page.presented_heroes.heroes@).len(),
                        page,
                    )
                    &&& next.heros@ == self.heros@ + page.presented_heroes.heroes@
                    &&& next.page == self.page + 1
                },
            },
    {
        let mut heros = self.heros;
        let mut found = page.presented_heroes.heroes;
        heros.append(&mut found);
        if page.pagination_meta.total_count == heros.len() as u64 || page.presented_heroes.total
            == 0 {
            FetchProgress::Complete(rank_heroes(heros))
        } else {
            FetchProgress::Continue(HallOfFameFetch { heros, page: self.page + 1 })
        }
    }
}

/// The position of the first report of `results` with the id `id`.
pub open spec fn report_position(results: Seq<DisclosedReport>, id: Seq<char>) -> Option<int>
    decreases results.len(),
{
    if results.len() == 0 {
        None
    } else if results[0].id@ == id {
        Some(0)
    } else {
        match report_position(results.drop_first(), id) {
            Some(i) => Some(i + 1),
            None => None,
        }
    }
}

/// The reports of a page that are newer than the watermark: those before
/// it, or all of them where the page does not hold it.
pub open spec fn newer_on_page(results: Seq<DisclosedReport>, watermark: Seq<char>) -> Seq<
    DisclosedReport,
> {
    match report_position(results, watermark) {
        Some(i) => results.take(i),
        None => results,
    }
}

/// Whether a scan ends with the page `page`, once `collected` reports are
/// in: the page holds the watermark, or the count that the source reports
/// is reached.
pub open spec fn scan_complete(collected: nat, page: CrowdStream, watermark: Seq<char>) -> bool {
    report_position(page.results@, watermark).is_some() || page.pagination_meta.total_count
        == collected
}

/// A position found by `report_position` is the first one with that id.
pub proof fn lemma_report_position(results: Seq<DisclosedReport>, id: Seq<char>)
    ensures
        match report_position(results, id) {
            Some(i) => 0 <= i < results.len() && results[i].id@ == id && forall|j: int|
                0 <= j < i ==> results[j].id@ != id,
            None => forall|j: int| 0 <= j < results.len() ==> results[j].id@ != id,
        },
    decreases results.len(),
{
    if results.len() > 0 && results[0].id@ != id {
        let rest = results.drop_first();
        lemma_report_position(rest, id);
        match report_position(rest, id) {
            Some(i) => {
                assert forall|j: int| 0 <= j < i + 1 implies results[j].id@ != id by {
                    if j > 0 {
                        assert(rest[j - 1] == results[j]);
                    }
                }
            },
            None => {
                assert forall|j: int| 0 <= j < results.len() implies results[j].id@ != id by {
                    if j > 0 {
                        assert(rest[j - 1] == results[j]);
                    }
                }
            },
        }
    }
}

/// The first position at which `results` holds the report `id`.
pub fn find_report(results: &Vec<DisclosedReport>, id: &String) -> (r: Option<usize>)
    ensures
        match r {
            Some(i) => i < results.len() && report_position(results@, id@) == Some(i as int),
            None => report_position(results@, id@).is_none(),
        },
{
    let mut i: usize = 0;
    while i < results.len()
        invariant
            i <= results.len(),
            forall|j: int| 0 <= j < i ==> results[j].id@ != id@,
        decreases results.len() - i,
    {
        if results[i].id == *id {
            proof {
                lemma_report_position(results@, id@);
            }
            return Some(i);
        }
        i += 1;
    }
    proof {
        lemma_report_position(results@, id@);
    }
    None
}

/// A scan of the disclosure stream between two requests: the reports so
/// far, newest first, and which page is due.
#[derive(Debug, PartialEq, Eq)]
pub struct ReportScan {
    pub reports: Vec<DisclosedReport>,
    pub page: u64,
}

/// How a scan goes on after a page.
#[derive(Debug, PartialEq, Eq)]
pub enum ScanProgress {
    /// Another page is due.
    Continue(ReportScan),
    /// The scan is over: the reports newer than the watermark, newest first.
    Complete(Vec<DisclosedReport>),
}

impl ReportScan {
    /// A scan that has yet to ask for the first page.
    pub fn new() -> (r: ReportScan)
        ensures
            r.reports@ == Seq::<DisclosedReport>::empty(),
            r.page == 1,
    {
        ReportScan { reports: Vec::new(), page: 1 }
    }

    /// The address of the page that is due.
    pub fn url(&self, program: &str) -> (url: String)
        ensures
            url@ == crowdstream_address(program@, self.page),
    {
        crowdstream_url(program, self.page)
    }

    /// Takes in the page that was asked for. Of a page that holds the
    /// watermark only the reports before it are kept, and the scan is over;
    /// it is over too when the reports so far are as many as the source
    /// reports in all. Else the next page is due.
    pub fn accept(self, page: CrowdStream, watermark: &String) -> (r: ScanProgress)
        requires
            self.page < u64::MAX,
        ensures
            match r {
                ScanProgress::Complete(reports) => {
                    &&& scan_complete(
                        (self.reports@ + newer_on_page(page.results@, watermark@)).len(),
                        page,
                        watermark@,
                    )
                    &&& reports@ == self.reports@ + newer_on_page(page.results@, watermark@)
                },
                ScanProgress::Continue(next) => {
                    &&& !scan_complete(
                        (self.reports@ + newer_on_page(page.results@, watermark@)).len(),
                        page,
                        watermark@,
                    )
                    &&& next.reports@ == self.reports@ + newer_on_page(page.results@, watermark@)
                    &&& next.page == self.page + 1
                },
            },
    {
        let mut reports = self.reports;
        let mut results = page.results;
        let found = find_report(&results, watermark);
        match found {
            Some(at) => {
                results.truncate(at);
            },
            None => {},
        }
        reports.append(&mut results);
        if page.pagination_meta.total_count == reports.len() as u64 || found.is_some() {
            ScanProgress::Complete(reports)
        } else {
            ScanProgress::Continue(ReportScan { reports, page: self.page + 1 })
        }
    }
}

/// The newest report of the first page of the stream, if it holds any.
pub fn newest_report(stream: CrowdStream) -> (r: Option<DisclosedReport>)
    ensures
        stream.results@.len() == 0 ==> r.is_none(),
        stream.results@.len() > 0 ==> r == Some(stream.results@[0]),
{
    let mut reports = stream.results;
    if reports.len() > 0 {
        Some(reports.remove(0))
    } else {
        None
    }
}

} // verus!
