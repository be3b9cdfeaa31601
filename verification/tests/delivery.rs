use bugcrowd_tracker::text::{decimal_string, parse_decimal};
use bugcrowd_tracker::webhook::{
    extract_webhook, on_reply, on_response, webhook_url, Delivery, FatalDeliveryError,
    SinkResponse, Webhook,
};

fn answer(status: u16, retry_after: Option<&str>) -> SinkResponse {
    SinkResponse { status, retry_after: retry_after.map(|s| s.to_string()) }
}

/// Delivers one message to a sink that answers with `answers` in turn:
/// the outcome, the number of retries, and the seconds waited in all.
fn deliver(answers: Vec<SinkResponse>) -> (Delivery, u32, u64) {
    let mut retries = 0;
    let mut waited = 0;
    for response in &answers {
        match on_response(response) {
            Delivery::RetryAfter(seconds) => {
                retries += 1;
                waited += seconds;
            }
            outcome => return (outcome, retries, waited),
        }
    }
    panic!("the sink stopped answering");
}

#[test]
fn a_rate_limit_with_a_delay_is_retried_once_and_then_delivered() {
    let (outcome, retries, waited) = deliver(vec![answer(429, Some("2")), answer(200, None)]);
    assert_eq!(outcome, Delivery::Delivered);
    assert_eq!(retries, 1);
    assert!(waited >= 2);
    assert_eq!(waited, 2);
}

#[test]
fn a_rate_limit_without_a_delay_is_fatal_and_not_retried() {
    let (outcome, retries, waited) = deliver(vec![answer(429, None), answer(200, None)]);
    assert_eq!(outcome, Delivery::Failed(FatalDeliveryError::RateLimitedWithoutDelay));
    assert_eq!(retries, 0);
    assert_eq!(waited, 0);
}

#[test]
fn a_rate_limit_with_an_unreadable_delay_is_fatal() {
    for text in ["", "soon", "1.5", "-1", " 2", "2 ", "18446744073709551616", "+"] {
        assert_eq!(
            on_response(&answer(429, Some(text))),
            Delivery::Failed(FatalDeliveryError::RateLimitedWithoutDelay),
            "retry-after {text:?}"
        );
    }
}

#[test]
fn rate_limits_are_retried_as_often_as_the_sink_asks() {
    let (outcome, retries, waited) = deliver(vec![
        answer(429, Some("1")),
        answer(429, Some("30")),
        answer(429, Some("0")),
        answer(204, None),
    ]);
    assert_eq!(outcome, Delivery::Delivered);
    assert_eq!(retries, 3);
    assert_eq!(waited, 31);
}

#[test]
fn any_other_failure_is_fatal() {
    assert_eq!(on_response(&answer(400, None)), Delivery::Failed(FatalDeliveryError::Rejected(400)));
    assert_eq!(on_response(&answer(404, Some("2"))), Delivery::Failed(FatalDeliveryError::Rejected(404)));
    assert_eq!(on_response(&answer(500, None)), Delivery::Failed(FatalDeliveryError::Rejected(500)));
    assert_eq!(on_response(&answer(301, None)), Delivery::Failed(FatalDeliveryError::Rejected(301)));
    assert_eq!(on_response(&answer(200, Some("2"))), Delivery::Delivered);
    assert_eq!(on_response(&answer(429, Some("18446744073709551615"))), Delivery::RetryAfter(u64::MAX));
    assert_eq!(on_response(&answer(429, Some("+7"))), Delivery::RetryAfter(7));
    assert_eq!(on_response(&answer(429, Some("007"))), Delivery::RetryAfter(7));
}

#[test]
fn numerals_are_written_and_read_back() {
    for n in [0u64, 1, 9, 10, 11, 99, 100, 12345, u64::MAX - 1, u64::MAX] {
        let text = decimal_string(n);
        assert_eq!(text, n.to_string());
        assert_eq!(parse_decimal(&text), Some(n));
    }
    assert_eq!(parse_decimal("0"), Some(0));
    assert_eq!(parse_decimal("000"), Some(0));
    assert_eq!(parse_decimal("+0"), Some(0));
    assert_eq!(parse_decimal("42"), Some(42));
    assert_eq!(parse_decimal(""), None);
    assert_eq!(parse_decimal("+"), None);
    assert_eq!(parse_decimal("++1"), None);
    assert_eq!(parse_decimal("-1"), None);
    assert_eq!(parse_decimal("4 2"), None);
    assert_eq!(parse_decimal("４２"), None);
    assert_eq!(parse_decimal("18446744073709551616"), None);
    assert_eq!(parse_decimal("99999999999999999999999"), None);
}

#[test]
fn webhook_is_read_out_of_its_url() {
    assert_eq!(
        extract_webhook("https://discord.com/api/webhooks/123456/abc-DEF_token"),
        Some(Webhook { id: 123456, token: "abc-DEF_token".to_string() })
    );
    assert_eq!(
        extract_webhook("discord.com/api/webhooks/7/t"),
        Some(Webhook { id: 7, token: "t".to_string() })
    );
    assert_eq!(
        extract_webhook("https://https://discord.com/api/webhooks/7/t/more/parts"),
        Some(Webhook { id: 7, token: "t".to_string() })
    );
    assert_eq!(
        extract_webhook("https://discord.com/api/webhooks/7/"),
        Some(Webhook { id: 7, token: String::new() })
    );
    assert_eq!(
        extract_webhook("https://discord.com/api/webhooks/7/tökén"),
        Some(Webhook { id: 7, token: "tökén".to_string() })
    );
}

#[test]
fn urls_that_name_no_webhook_are_turned_down() {
    for url in [
        "",
        "https://",
        "https://discord.com",
        "https://discord.com/api/webhooks",
        "https://discord.com/api/webhooks/7",
        "https://discord.com/api/webhook/7/t",
        "https://discord.com/v9/webhooks/7/t",
        "https://discord.com/api/webhooks/seven/t",
        "https://discord.com/api/webhooks/0/t",
        "https://discord.com/api/webhooks//t",
        "https://discord.com/api/webhooks/18446744073709551616/t",
        "http://discord.com/api/webhooks/7/t",
    ] {
        assert_eq!(extract_webhook(url), None, "{url:?}");
    }
}

#[test]
fn messages_are_posted_to_the_webhook_address() {
    let webhook = Webhook { id: 123456, token: "abc".to_string() };
    assert_eq!(webhook_url(&webhook), "https://discord.com/api/v9/webhooks/123456/abc?wait=true");
    assert_eq!(webhook.clone(), webhook);
}

#[test]
fn a_message_without_an_answer_is_given_up() {
    assert_eq!(on_reply(&None), Delivery::Failed(FatalDeliveryError::Unreachable));
    assert_eq!(on_reply(&Some(answer(204, None))), Delivery::Delivered);
    assert_eq!(on_reply(&Some(answer(429, Some("3")))), Delivery::RetryAfter(3));
    assert_eq!(
        on_reply(&Some(answer(429, None))),
        Delivery::Failed(FatalDeliveryError::RateLimitedWithoutDelay)
    );
}
