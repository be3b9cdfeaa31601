//! One poll cycle of the disclosure stream: what to fetch, which events are
//! due, and which report to remember as the newest one seen.

use vstd::prelude::*;
use crate::models::{DisclosedReport, Instant};

verus! {

/// A change on the disclosure stream.
#[derive(Debug, PartialEq, Eq)]
pub enum Event {
    /// A report that was disclosed since the last cycle.
    ReportDisclosed(DisclosedReport),
}

/// The newest report that earlier cycles have seen.
#[derive(Debug, PartialEq, Eq)]
pub enum Watermark {
    /// No cycle has run yet.
    Unset,
    /// The newest report of the last cycle that saw one.
    Seen(DisclosedReport),
}

/// What a cycle asks of the stream.
#[derive(Debug, PartialEq, Eq)]
pub enum Plan {
    /// Only the newest report, to remember it: the backlog is not reported.
    Seed,
    /// Every report newer than the one with this id.
    ScanNewer(String),
}

/// What a cycle that scanned the stream yields: the events in the order
/// they are due, and the report to remember once all of them are handed
/// over, if there is a new one.
#[derive(Debug, PartialEq, Eq)]
pub struct Disclosures {
    pub events: Vec<Event>,
    pub watermark: Option<DisclosedReport>,
}

/// One event for each report of `reports`, the last report first.
pub open spec fn disclosure_events(reports: Seq<DisclosedReport>) -> Seq<Event> {
    Seq::new(reports.len(), |i: int| Event::ReportDisclosed(reports[reports.len() - 1 - i]))
}

/// Whether `report` is the placeholder that is remembered when the stream
/// holds no report yet.
pub open spec fn is_stub(report: DisclosedReport) -> bool {
    &&& report.id@ == "0"@
    &&& report.title@ == "stub"@
    &&& report.target.is_none()
    &&& report.researcher_username.is_none()
    &&& report.amount.is_none()
    &&& report.priority == 0
    &&& report.created_at == (Instant { seconds: 0, nanos: 0 })
    &&& report.disclosed_at == (Instant { seconds: 0, nanos: 0 })
    &&& report.disclosure_report_url@ == Seq::<char>::empty()
}

impl Watermark {
    /// The watermark that the store holds: unset until a report was saved.
    pub fn from_saved(saved: Option<DisclosedReport>) -> (r: Watermark)
        ensures
            match saved {
                Some(report) => r == Watermark::Seen(report),
                None => r is Unset,
            },
    {
        match saved {
            Some(report) => Watermark::Seen(report),
            None => Watermark::Unset,
        }
    }
}

/// Decides what a cycle asks of the stream: the first cycle only looks at
/// the newest report, every later one scans down to the report it
/// remembers.
pub fn plan(watermark: &Watermark) -> (r: Plan)
    ensures
        match *watermark {
            Watermark::Unset => r is Seed,
            Watermark::Seen(report) => r matches Plan::ScanNewer(id) && id@ == report.id@,
        },
{
    match watermark {
        Watermark::Unset => Plan::Seed,
        Watermark::Seen(report) => Plan::ScanNewer(report.id.clone()),
    }
}

/// The report that the first cycle remembers: the newest one of the stream,
/// or a placeholder where the stream is empty. The first cycle reports
/// nothing.
pub fn seed(newest: Option<DisclosedReport>) -> (r: DisclosedReport)
    ensures
        match newest {
            Some(report) => r == report,
            None => is_stub(r),
        },
{
    match newest {
        Some(report) => report,
        None => {
            let mut stub = DisclosedReport::default();
            stub.id = String::from_str("0");
            stub.title = String::from_str("stub");
            stub
        },
    }
}

/// Turns the reports of a scan, newest first, into the events of the cycle:
/// one for each report, oldest first. The report to remember is the newest
/// one of the scan; an empty scan changes nothing.
pub fn disclose(new_disclosed: Vec<DisclosedReport>) -> (r: Disclosures)
    ensures
        r.events@ == disclosure_events(new_disclosed@),
        new_disclosed@.len() == 0 ==> r.watermark.is_none(),
        new_disclosed@.len() > 0 ==> r.watermark == Some(new_disclosed@[0]),
{
    let watermark = if new_disclosed.len() > 0 {
        Some(new_disclosed[0].clone())
    } else {
        None
    };
    let mut events: Vec<Event> = Vec::new();
    let mut left = new_disclosed;
    let ghost all = left@;
    while left.len() > 0
        invariant
            left@.len() <= all.len(),
            left@ == all.take(left@.len() as int),
            events@ == disclosure_events(all).take(all.len() - left@.len()),
        decreases left.len(),
    {
        let report = left.pop().unwrap();
        assert(report == all[left@.len() as int]);
        events.push(Event::ReportDisclosed(report));
        assert(left@ =~= all.take(left@.len() as int));
        assert(events@ =~= disclosure_events(all).take(all.len() - left@.len()));
    }
    assert(events@ =~= disclosure_events(all));
    Disclosures { events, watermark }
}

} // verus!
