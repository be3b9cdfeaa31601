//! The messages that tell of newly disclosed reports.

use vstd::prelude::*;
use crate::models::{DisclosedReport, Instant};
use crate::poll::disclosed_reports::Event;
use crate::text::{decimal, push_decimal};
use crate::webhook::{Field, FieldView, Message, MessageView};

verus! {

/// The colour of a message on a disclosed report.
pub const REPORT_COLOR: u32 = 2368553;

/// The name of a priority, 1 being the highest.
pub open spec fn priority_text(severity: u32) -> Seq<char> {
    if severity == 1 {
        "Critical"@
    } else if severity == 2 {
        "High"@
    } else if severity == 3 {
        "Medium"@
    } else if severity == 4 {
        "Low"@
    } else {
        "Informative"@
    }
}

/// The name of a priority, 1 being the highest.
pub fn priority_as_string(severity: u32) -> (s: &'static str)
    ensures
        s@ == priority_text(severity),
{
    match severity {
        1 => "Critical",
        2 => "High",
        3 => "Medium",
        4 => "Low",
        _ => "Informative",
    }
}

/// How the researcher behind a report is named: by the username, linked to
/// the profile, or as anonymous.
pub open spec fn reporter_text(username: Option<String>) -> Seq<char> {
    match username {
        Some(name) => "[**`"@ + name@ + "`**](https://bugcrowd.com/h/"@ + name@ + ")"@,
        None => "Anonymous"@,
    }
}

/// The text of `text`, or `fallback` where there is none.
pub open spec fn text_or(text: Option<String>, fallback: Seq<char>) -> Seq<char> {
    match text {
        Some(s) => s@,
        None => fallback,
    }
}

/// The message that tells of `report`, where `reported` and `disclosed`
/// say in words how long ago it was reported and disclosed.
pub open spec fn report_view(report: DisclosedReport, reported: Seq<char>, disclosed: Seq<char>) -> MessageView {
    MessageView {
        color: REPORT_COLOR,
        title: Some(report.title@),
        url: Some("https://bugcrowd.com"@ + report.disclosure_report_url@),
        description: None,
        fields: seq![
            FieldView {
                name: "Reporter"@,
                value: reporter_text(report.researcher_username),
                inline: false,
            },
            FieldView { name: "Target"@, value: text_or(report.target, "unknown"@), inline: false },
            FieldView {
                name: "Severity"@,
                value: priority_text(report.priority) + " (P"@ + decimal(report.priority as nat)
                    + ")"@,
                inline: true,
            },
            FieldView {
                name: "Bounty Award"@,
                value: text_or(report.amount, "Unknown"@),
                inline: true,
            },
        ],
        footer: Some("Reported "@ + reported + ", disclosed "@ + disclosed),
    }
}

/// A copy of `text`, or `fallback` where there is none.
fn copy_or(text: &Option<String>, fallback: &str) -> (s: String)
    ensures
        s@ == text_or(*text, fallback@),
{
    match text {
        Some(s) => s.clone(),
        None => String::from_str(fallback),
    }
}

/// Writes the message that tells of `report`, where `reported` and
/// `disclosed` say in words how long ago it was reported and disclosed.
pub fn report_message(report: &DisclosedReport, reported: &str, disclosed: &str) -> (message:
    Message)
    ensures
        message@ == report_view(*report, reported@, disclosed@),
{
    let mut url = String::from_str("https://bugcrowd.com");
    url.append(report.disclosure_report_url.as_str());
    let reporter = match &report.researcher_username {
        Some(username) => {
            let mut s = String::from_str("[**`");
            s.append(username.as_str());
            s.append("`**](https://bugcrowd.com/h/");
            s.append(username.as_str());
            s.append(")");
            s
        },
        None => String::from_str("Anonymous"),
    };
    let mut severity = String::from_str(priority_as_string(report.priority));
    severity.append(" (P");
    push_decimal(&mut severity, report.priority as u64);
    severity.append(")");
    let mut footer = String::from_str("Reported ");
    footer.append(reported);
    footer.append(", disclosed ");
    footer.append(disclosed);
    let mut fields: Vec<Field> = Vec::new();
    fields.push(Field { name: String::from_str("Reporter"), value: reporter, inline: false });
    fields.push(
        Field {
            name: String::from_str("Target"),
            value: copy_or(&report.target, "unknown"),
            inline: false,
        },
    );
    fields.push(Field { name: String::from_str("Severity"), value: severity, inline: true });
    fields.push(
        Field {
            name: String::from_str("Bounty Award"),
            value: copy_or(&report.amount, "Unknown"),
            inline: true,
        },
    );
    let message = Message {
        color: REPORT_COLOR,
        title: Some(report.title.clone()),
        url: Some(url),
        description: None,
        fields,
        footer: Some(footer),
    };
    assert(message@.fields =~= report_view(*report, reported@, disclosed@).fields);
    message
}

/// Says in words how long ago, or how far ahead, `at` lies, as
/// `chrono_humanize::HumanTime` writes the time between
/// `chrono::DateTime::from_timestamp` of `at` and now; `None` where chrono
/// has no date for `at`. chrono has a date for every second of the years
/// -262143 to 262142 and every nanosecond below a thousand million, which
/// covers the years 1 to 9999 that the contract speaks of. The words
/// depend on the clock, so nothing is claimed of them.
#[verifier::external_body]
fn humanize(at: Instant) -> (r: Option<String>)
    ensures
        at.in_calendar() ==> r is Some,
{
    chrono::DateTime::from_timestamp(at.seconds, at.nanos).map(
        |when| chrono_humanize::HumanTime::from(when).to_string(),
    )
}

/// Writes the message that tells of `event`, with the times of the report
/// put in words as of now; `None` where one of them is no date. Times in
/// the years 1 to 9999 are dates.
pub fn message_for(event: &Event) -> (r: Option<Message>)
    ensures
        match *event {
            Event::ReportDisclosed(report) => report.created_at.in_calendar()
                && report.disclosed_at.in_calendar() ==> r is Some,
        },
        match (r, *event) {
            (Some(message), Event::ReportDisclosed(report)) => exists|
                reported: Seq<char>,
                disclosed: Seq<char>,
            | message@ == report_view(report, reported, disclosed),
            (None, _) => true,
        },
{
    match event {
        Event::ReportDisclosed(report) => {
            match (humanize(report.created_at), humanize(report.disclosed_at)) {
                (Some(reported), Some(disclosed)) => Some(
                    report_message(report, reported.as_str(), disclosed.as_str()),
                ),
                _ => None,
            }
        },
    }
}

} // verus!
