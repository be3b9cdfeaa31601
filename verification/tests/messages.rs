use bugcrowd_tracker::models::{DisclosedReport, Hero, Instant, ANONYMOUS_HERO_NAME};
use bugcrowd_tracker::poll::disclosed_reports::Event as StreamEvent;
use bugcrowd_tracker::poll::hall_of_fame::Event;
use bugcrowd_tracker::webhook::disclosed_reports::{
    message_for as report_message_for, priority_as_string, report_message, REPORT_COLOR,
};
use bugcrowd_tracker::webhook::hall_of_fame::{
    display, draft, message_for, BUGCROWD_THEME_COLOR, FAILURE_COLOR, SUCCESS_COLOR,
};
use bugcrowd_tracker::webhook::{Field, Message};

fn hero(username: &str, points: u64, rank: usize) -> Hero {
    Hero {
        accent_color: None,
        avatar: String::new(),
        points,
        profile_url: None,
        username: username.to_string(),
        rank,
    }
}

fn plain(color: u32, description: &str, footer: Option<&str>) -> Message {
    Message {
        color,
        title: None,
        url: None,
        description: Some(description.to_string()),
        fields: vec![],
        footer: footer.map(|s| s.to_string()),
    }
}

fn report() -> DisclosedReport {
    DisclosedReport {
        id: "r1".to_string(),
        title: "Stored XSS in profile".to_string(),
        target: Some("app.example".to_string()),
        researcher_username: Some("ada".to_string()),
        amount: Some("$1,500".to_string()),
        priority: 2,
        created_at: Instant { seconds: 1_600_000_000, nanos: 0 },
        disclosed_at: Instant { seconds: 1_600_600_000, nanos: 0 },
        disclosure_report_url: "/disclosures/r1".to_string(),
    }
}

#[test]
fn researchers_are_named_by_link_by_name_or_as_anonymous() {
    let linked = Hero { profile_url: Some("https://bugcrowd.com/h/ada".into()), ..hero("ada", 1, 1) };
    assert_eq!(display(&linked), "[**`ada`**](https://bugcrowd.com/h/ada)");
    assert_eq!(display(&hero("ada", 1, 1)), "**`ada`**");
    assert_eq!(display(&hero(ANONYMOUS_HERO_NAME, 1, 1)), "**Anonymous User**");
    let linked_anonymous = Hero { profile_url: Some("/x".into()), ..hero(ANONYMOUS_HERO_NAME, 1, 1) };
    assert_eq!(display(&linked_anonymous), format!("[**`{ANONYMOUS_HERO_NAME}`**](/x)"));
}

#[test]
fn an_addition_tells_points_breakdown_and_rank() {
    let message = message_for(&Event::HeroAdded(hero("ada", 80, 3))).unwrap();
    assert_eq!(
        message,
        plain(
            BUGCROWD_THEME_COLOR,
            "**`ada`** was added to the leaderboard with **80 points (Critical(2))**\n-# (rank: #3)",
            None
        )
    );
    let message = message_for(&Event::HeroAdded(hero("ada", 3, 12))).unwrap();
    assert_eq!(
        message.description.as_deref(),
        Some("**`ada`** was added to the leaderboard with **3 points**\n-# (rank: #12)")
    );
    let message = message_for(&Event::HeroAdded(hero("ada", 0, 1))).unwrap();
    assert_eq!(
        message.description.as_deref(),
        Some("**`ada`** was added to the leaderboard with **0 points**\n-# (rank: #1)")
    );
}

#[test]
fn a_removal_tells_the_last_rank() {
    let message = message_for(&Event::HeroRemoved(hero("bob", 20, 7))).unwrap();
    assert_eq!(
        message,
        plain(FAILURE_COLOR, "**`bob`** was removed from the leaderboard", Some("rank: 7"))
    );
}

#[test]
fn an_update_tells_what_was_won_and_the_change_of_rank() {
    let message = message_for(&Event::HeroUpdated(hero("ada", 40, 5), hero("ada", 105, 2))).unwrap();
    assert_eq!(
        message,
        plain(
            SUCCESS_COLOR,
            "**`ada`** gained **+65 points (Critical, High, Low)** and now has **105 points**",
            Some("#5 -> #2 (+3)")
        )
    );
    let message = message_for(&Event::HeroUpdated(hero("ada", 40, 2), hero("ada", 41, 2))).unwrap();
    assert_eq!(
        message,
        plain(SUCCESS_COLOR, "**`ada`** gained **+1 points** and now has **41 points**", None)
    );
    let message = message_for(&Event::HeroUpdated(hero("ada", 40, 2), hero("ada", 45, 4))).unwrap();
    assert_eq!(message.footer.as_deref(), Some("#2 -> #4 (+-2)"));
}

#[test]
fn an_update_tells_what_was_lost_and_the_change_of_rank() {
    let message = message_for(&Event::HeroUpdated(hero("ada", 105, 2), hero("ada", 40, 5))).unwrap();
    assert_eq!(
        message,
        plain(
            FAILURE_COLOR,
            "**`ada`** lost **-65 points** and now has **40 points**",
            Some("#2 -> #5 (--3))")
        )
    );
    let message = message_for(&Event::HeroUpdated(hero("ada", 105, 5), hero("ada", 40, 2))).unwrap();
    assert_eq!(message.footer.as_deref(), Some("#5 -> #2 (-3))"));
    let message = message_for(&Event::HeroUpdated(hero("ada", 105, 5), hero("ada", 40, 5))).unwrap();
    assert_eq!(message.footer, None);
}

#[test]
fn the_breakdown_goes_by_the_low_32_bits_of_the_points() {
    let points = (1u64 << 32) + 40;
    let message = draft(&Event::HeroAdded(hero("ada", points, 1)));
    assert_eq!(
        message.description.as_deref(),
        Some("**`ada`** was added to the leaderboard with **4294967336 points (Critical)**\n-# (rank: #1)")
    );
    let message = draft(&Event::HeroAdded(hero("ada", u64::MAX, 1)));
    assert_eq!(
        message.description.as_deref(),
        Some("**`ada`** was added to the leaderboard with **18446744073709551615 points**\n-# (rank: #1)")
    );
}

#[test]
fn a_message_within_the_limits_is_written() {
    let name = "n".repeat(4000);
    let event = Event::HeroRemoved(hero(&name, 1, 1));
    let message = message_for(&event).unwrap();
    assert_eq!(message, draft(&event));
    assert_eq!(message.description.as_ref().unwrap().chars().count(), 4000 + 6 + 33);
}

#[test]
fn a_description_of_more_characters_than_the_limit_is_turned_down() {
    let fits = "n".repeat(4096 - 6 - 33);
    assert!(message_for(&Event::HeroRemoved(hero(&fits, 1, 1))).is_ok());
    let too_long = "n".repeat(4096 - 6 - 33 + 1);
    assert!(message_for(&Event::HeroRemoved(hero(&too_long, 1, 1))).is_err());
    assert_eq!(
        draft(&Event::HeroRemoved(hero(&too_long, 1, 1))).description.unwrap().chars().count(),
        4097
    );
}

#[test]
fn texts_of_more_bytes_than_the_limit_for_the_whole_are_turned_down() {
    // 2000 characters of three bytes each: within the limit for a
    // description, beyond the limit for the whole.
    let wide = "€".repeat(2000);
    let error = message_for(&Event::HeroRemoved(hero(&wide, 1, 1))).unwrap_err();
    assert!(format!("{:?}", error.cause).contains("EmbedTooLarge"));
    let narrow = "€".repeat(1900);
    assert!(message_for(&Event::HeroRemoved(hero(&narrow, 1, 1))).is_ok());
}

#[test]
fn priorities_have_names() {
    assert_eq!(priority_as_string(1), "Critical");
    assert_eq!(priority_as_string(2), "High");
    assert_eq!(priority_as_string(3), "Medium");
    assert_eq!(priority_as_string(4), "Low");
    assert_eq!(priority_as_string(5), "Informative");
    assert_eq!(priority_as_string(0), "Informative");
    assert_eq!(priority_as_string(u32::MAX), "Informative");
}

#[test]
fn a_report_is_told_with_reporter_target_severity_and_award() {
    let message = report_message(&report(), "3 years ago", "2 years ago");
    assert_eq!(
        message,
        Message {
            color: REPORT_COLOR,
            title: Some("Stored XSS in profile".to_string()),
            url: Some("https://bugcrowd.com/disclosures/r1".to_string()),
            description: None,
            fields: vec![
                Field {
                    name: "Reporter".to_string(),
                    value: "[**`ada`**](https://bugcrowd.com/h/ada)".to_string(),
                    inline: false,
                },
                Field { name: "Target".to_string(), value: "app.example".to_string(), inline: false },
                Field { name: "Severity".to_string(), value: format!("High (P{})", 2), inline: true },
                Field { name: "Bounty Award".to_string(), value: "$1,500".to_string(), inline: true },
            ],
            footer: Some("Reported 3 years ago, disclosed 2 years ago".to_string()),
        }
    );
}

#[test]
fn a_report_without_details_is_told_with_fallbacks() {
    let bare = DisclosedReport {
        target: None,
        researcher_username: None,
        amount: None,
        priority: 9,
        ..report()
    };
    let message = report_message(&bare, "now", "now");
    let values: Vec<&str> = message.fields.iter().map(|f| f.value.as_str()).collect();
    let severity = format!("Informative (P{})", 9);
    assert_eq!(values, vec!["Anonymous", "unknown", severity.as_str(), "Unknown"]);
    assert_eq!(message.footer.as_deref(), Some("Reported now, disclosed now"));
}

#[test]
fn report_times_are_put_in_words_as_of_now() {
    let message = report_message_for(&StreamEvent::ReportDisclosed(report())).unwrap();
    let footer = message.footer.clone().unwrap();
    assert!(footer.starts_with("Reported "), "{footer}");
    assert!(footer.contains(", disclosed "), "{footer}");
    assert!(footer.ends_with(" ago"), "{footer}");
    assert!(!footer.contains("1600000000"), "{footer}");
    let (reported, disclosed) = footer["Reported ".len()..].split_once(", disclosed ").unwrap();
    assert_eq!(message, report_message(&report(), reported, disclosed));

    let ahead = DisclosedReport {
        disclosed_at: Instant { seconds: 253_402_300_799, nanos: 999_999_999 },
        created_at: Instant { seconds: -62_135_596_800, nanos: 0 },
        ..report()
    };
    let footer = report_message_for(&StreamEvent::ReportDisclosed(ahead)).unwrap().footer.unwrap();
    assert!(footer.contains("ago, disclosed in "), "{footer}");
}

#[test]
fn a_time_that_is_no_date_gives_no_message() {
    let undated = DisclosedReport { created_at: Instant { seconds: i64::MAX, nanos: 0 }, ..report() };
    assert_eq!(report_message_for(&StreamEvent::ReportDisclosed(undated)), None);
    let undated = DisclosedReport {
        disclosed_at: Instant { seconds: 0, nanos: 2_000_000_000 },
        ..report()
    };
    assert_eq!(report_message_for(&StreamEvent::ReportDisclosed(undated)), None);
}
