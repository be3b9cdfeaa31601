use bugcrowd_tracker::client::{
    announcements_url, check_status, crowdstream_url, find_report, hall_of_fame_url, is_success,
    newest_report, page_of, session_cookie, FetchProgress, HallOfFameFetch, Reply, ReportScan,
    ScanProgress, TransportError,
};
use bugcrowd_tracker::models::{
    CrowdStream, DisclosedReport, HallOfFame, HallOfFameHeros, Hero, Instant, PaginationMeta,
};
use bugcrowd_tracker::ranking::rank_heroes;

fn hero(username: &str, points: u64) -> Hero {
    Hero {
        accent_color: Some("#ff8800".to_string()),
        avatar: String::new(),
        points,
        profile_url: None,
        username: username.to_string(),
        rank: 0,
    }
}

fn ranked(username: &str, points: u64, rank: usize) -> Hero {
    Hero { rank, ..hero(username, points) }
}

fn hof_page(heroes: Vec<Hero>, total_count: u64, total: u64) -> HallOfFame {
    HallOfFame {
        pagination_meta: PaginationMeta { limit: 2, total_count },
        presented_heroes: HallOfFameHeros { heroes, hide_points: false, total },
    }
}

fn report(id: &str) -> DisclosedReport {
    DisclosedReport {
        id: id.to_string(),
        title: format!("report {id}"),
        target: None,
        researcher_username: None,
        amount: None,
        priority: 3,
        created_at: Instant { seconds: 1_700_000_000, nanos: 0 },
        disclosed_at: Instant { seconds: 1_700_086_400, nanos: 0 },
        disclosure_report_url: format!("/disclosures/{id}"),
    }
}

fn stream_page(ids: &[&str], total_count: u64) -> CrowdStream {
    CrowdStream {
        pagination_meta: PaginationMeta { limit: 3, total_count },
        results: ids.iter().map(|id| report(id)).collect(),
    }
}

fn scan_all(pages: Vec<CrowdStream>, watermark: &str) -> (Vec<DisclosedReport>, usize) {
    let mut scan = ReportScan::new();
    let mut asked = 0;
    for page in pages {
        asked += 1;
        match scan.accept(page, &watermark.to_string()) {
            ScanProgress::Complete(reports) => return (reports, asked),
            ScanProgress::Continue(next) => scan = next,
        }
    }
    panic!("the scan ran out of pages");
}

#[test]
fn addresses_name_the_programme_and_the_page() {
    assert_eq!(
        announcements_url("acme"),
        "https://bugcrowd.com/engagements/acme/announcements.json"
    );
    assert_eq!(
        hall_of_fame_url("acme", 1),
        "https://bugcrowd.com/engagements/acme/hall_of_fames.json?page=1"
    );
    assert_eq!(
        hall_of_fame_url("acme-corp", 120),
        "https://bugcrowd.com/engagements/acme-corp/hall_of_fames.json?page=120"
    );
    assert_eq!(
        crowdstream_url("acme", 7),
        "https://bugcrowd.com/engagements/acme/crowdstream.json?page=7&filter_by=disclosures"
    );
    assert_eq!(
        crowdstream_url("acme", u64::MAX),
        "https://bugcrowd.com/engagements/acme/crowdstream.json?page=18446744073709551615&filter_by=disclosures"
    );
}

#[test]
fn only_statuses_from_200_to_299_are_success() {
    assert!(is_success(200));
    assert!(is_success(204));
    assert!(is_success(299));
    assert!(!is_success(199));
    assert!(!is_success(300));
    assert!(!is_success(404));
    assert_eq!(check_status(200), Ok(()));
    assert_eq!(check_status(302), Err(TransportError::Status(302)));
    assert_eq!(check_status(404), Err(TransportError::Status(404)));
    assert_eq!(check_status(500), Err(TransportError::Status(500)));
}

#[test]
fn fetch_collects_pages_until_the_reported_count_is_reached() {
    let fetch = HallOfFameFetch::new();
    assert_eq!(fetch.page, 1);
    assert_eq!(
        fetch.url("acme"),
        "https://bugcrowd.com/engagements/acme/hall_of_fames.json?page=1"
    );
    let fetch = match fetch.accept(hof_page(vec![hero("a", 10), hero("b", 30)], 3, 3)) {
        FetchProgress::Continue(next) => next,
        FetchProgress::Complete(_) => panic!("one page of two is not the whole"),
    };
    assert_eq!(fetch.page, 2);
    assert_eq!(fetch.heros, vec![hero("a", 10), hero("b", 30)]);
    assert_eq!(
        fetch.url("acme"),
        "https://bugcrowd.com/engagements/acme/hall_of_fames.json?page=2"
    );
    match fetch.accept(hof_page(vec![hero("c", 20)], 3, 3)) {
        FetchProgress::Complete(heros) => {
            assert_eq!(heros, vec![ranked("b", 30, 1), ranked("c", 20, 2), ranked("a", 10, 3)]);
        }
        FetchProgress::Continue(_) => panic!("the count was reached"),
    }
}

#[test]
fn fetch_of_an_empty_leaderboard_ends_with_the_first_page() {
    match HallOfFameFetch::new().accept(hof_page(vec![], 0, 0)) {
        FetchProgress::Complete(heros) => assert!(heros.is_empty()),
        FetchProgress::Continue(_) => panic!("an empty leaderboard has no second page"),
    }
    match HallOfFameFetch::new().accept(hof_page(vec![], 5, 0)) {
        FetchProgress::Complete(heros) => assert!(heros.is_empty()),
        FetchProgress::Continue(_) => panic!("a page that presents nothing ends the fetch"),
    }
    match HallOfFameFetch::new().accept(hof_page(vec![hero("a", 1)], 5, 0)) {
        FetchProgress::Complete(heros) => assert_eq!(heros, vec![ranked("a", 1, 1)]),
        FetchProgress::Continue(_) => panic!("a page that presents nothing ends the fetch"),
    }
}

#[test]
fn fetch_goes_on_while_the_count_is_not_reached() {
    match HallOfFameFetch::new().accept(hof_page(vec![], 4, 4)) {
        FetchProgress::Continue(next) => {
            assert_eq!(next.page, 2);
            assert!(next.heros.is_empty());
        }
        FetchProgress::Complete(_) => panic!("four entries are still due"),
    }
    match HallOfFameFetch::new().accept(hof_page(vec![hero("a", 1), hero("b", 2)], 1, 1)) {
        FetchProgress::Continue(next) => assert_eq!(next.heros.len(), 2),
        FetchProgress::Complete(_) => panic!("the count was passed, not reached"),
    }
}

#[test]
fn ranking_orders_by_points_and_keeps_fetch_order_among_equals() {
    let fetched = vec![hero("a", 10), hero("b", 30), hero("c", 10), hero("d", 30), hero("e", 20)];
    let board = rank_heroes(fetched);
    assert_eq!(
        board,
        vec![
            ranked("b", 30, 1),
            ranked("d", 30, 2),
            ranked("e", 20, 3),
            ranked("a", 10, 4),
            ranked("c", 10, 5),
        ]
    );
    assert!(rank_heroes(vec![]).is_empty());
    assert_eq!(rank_heroes(vec![ranked("z", 0, 77)]), vec![ranked("z", 0, 1)]);
}

#[test]
fn ranking_gives_contiguous_ranks_and_descending_points() {
    let mut fetched = Vec::new();
    for i in 0..50u64 {
        fetched.push(hero(&format!("h{i}"), (i * 37) % 11));
    }
    let board = rank_heroes(fetched.clone());
    assert_eq!(board.len(), fetched.len());
    for (i, entry) in board.iter().enumerate() {
        assert_eq!(entry.rank, i + 1);
        if i > 0 {
            assert!(board[i - 1].points >= entry.points);
        }
    }
    for entry in &fetched {
        assert_eq!(board.iter().filter(|h| h.username == entry.username).count(), 1);
    }
}

#[test]
fn scan_stops_at_the_watermark_on_the_second_of_three_pages() {
    let pages = vec![
        stream_page(&["r9", "r8", "r7"], 9),
        stream_page(&["r6", "r5", "r4"], 9),
        stream_page(&["r3", "r2", "r1"], 9),
    ];
    let (reports, asked) = scan_all(pages, "r5");
    assert_eq!(asked, 2);
    assert_eq!(reports, vec![report("r9"), report("r8"), report("r7"), report("r6")]);
}

#[test]
fn scan_with_the_watermark_in_front_yields_nothing() {
    let (reports, asked) = scan_all(vec![stream_page(&["r9", "r8"], 9)], "r9");
    assert_eq!(asked, 1);
    assert!(reports.is_empty());
}

#[test]
fn scan_without_the_watermark_yields_every_report() {
    let pages = vec![stream_page(&["r4", "r3"], 4), stream_page(&["r2", "r1"], 4)];
    let (reports, asked) = scan_all(pages, "r0");
    assert_eq!(asked, 2);
    assert_eq!(reports, vec![report("r4"), report("r3"), report("r2"), report("r1")]);
}

#[test]
fn scan_of_an_empty_stream_ends_with_the_first_page() {
    let scan = ReportScan::new();
    assert_eq!(scan.page, 1);
    assert_eq!(
        scan.url("acme"),
        "https://bugcrowd.com/engagements/acme/crowdstream.json?page=1&filter_by=disclosures"
    );
    match scan.accept(stream_page(&[], 0), &"r1".to_string()) {
        ScanProgress::Complete(reports) => assert!(reports.is_empty()),
        ScanProgress::Continue(_) => panic!("an empty stream has no second page"),
    }
}

#[test]
fn scan_goes_on_to_the_next_page_while_reports_are_due() {
    match ReportScan::new().accept(stream_page(&["r4", "r3"], 4), &"r0".to_string()) {
        ScanProgress::Continue(next) => {
            assert_eq!(next.page, 2);
            assert_eq!(next.reports, vec![report("r4"), report("r3")]);
            assert_eq!(
                next.url("acme"),
                "https://bugcrowd.com/engagements/acme/crowdstream.json?page=2&filter_by=disclosures"
            );
        }
        ScanProgress::Complete(_) => panic!("two reports are still due"),
    }
}

#[test]
fn scan_keeps_what_stands_before_the_first_of_two_watermarks() {
    let (reports, _) = scan_all(vec![stream_page(&["r3", "w", "r2", "w"], 9)], "w");
    assert_eq!(reports, vec![report("r3")]);
    let results = vec![report("a"), report("b"), report("a")];
    assert_eq!(find_report(&results, &"a".to_string()), Some(0));
    assert_eq!(find_report(&results, &"b".to_string()), Some(1));
    assert_eq!(find_report(&results, &"c".to_string()), None);
}

#[test]
fn newest_report_is_the_first_of_the_page() {
    assert_eq!(newest_report(stream_page(&["r9", "r8"], 9)), Some(report("r9")));
    assert_eq!(newest_report(stream_page(&[], 0)), None);
}

#[test]
fn a_fetch_fails_without_an_answer_a_success_status_or_a_page() {
    assert_eq!(page_of(Reply::<CrowdStream>::NoAnswer), Err(TransportError::Network));
    assert_eq!(
        page_of(Reply::Answer { status: 503, page: Some(stream_page(&["r1"], 1)) }),
        Err(TransportError::Status(503))
    );
    assert_eq!(
        page_of(Reply::<CrowdStream>::Answer { status: 404, page: None }),
        Err(TransportError::Status(404))
    );
    assert_eq!(
        page_of(Reply::<CrowdStream>::Answer { status: 200, page: None }),
        Err(TransportError::Malformed)
    );
    assert_eq!(
        page_of(Reply::Answer { status: 200, page: Some(stream_page(&["r1"], 1)) }),
        Ok(stream_page(&["r1"], 1))
    );
}

#[test]
fn the_session_token_travels_as_a_cookie() {
    assert_eq!(session_cookie("s3cr3t"), "_bugcrowd_session=s3cr3t");
    assert_eq!(session_cookie(""), "_bugcrowd_session=");
}
