use mailscrape::client::{period_bounds, stats_url, MailingListResponse, SearchParams};
use mailscrape::dates::{brief_date_label_of, fill_date, full_date_label_of, full_date_label_with, with_resolved_date};
use mailscrape::display::DisplayConfig;
use mailscrape::email::Email;
use mailscrape::stats::MailingListStats;
use mailscrape::text::{chars_of, remove_all};
use mailscrape::thread::{ThreadStruct, ThreadStructValue};
use std::collections::HashMap;

fn dated(epoch: i64, date: Option<&str>) -> Email {
    Email {
        in_reply_to: String::new(),
        private: false,
        attachments: vec![],
        subject: "Subject".to_string(),
        mid: "mid".to_string(),
        epoch,
        list: String::new(),
        gravatar: String::new(),
        message_id: "<id>".to_string(),
        from: "from@example.com".to_string(),
        list_raw: String::new(),
        id: String::new(),
        body: String::new(),
        date: date.map(|d| d.to_string()),
    }
}

fn response(d: Option<&str>, emails: Vec<Email>) -> MailingListResponse {
    MailingListResponse {
        hits: 4,
        participants: vec![],
        no_threads: 2,
        search_params: d.map(|d| SearchParams {
            list: "dev".to_string(),
            domain: "example.org".to_string(),
            d: d.to_string(),
            full: None,
        }),
        list: "dev".to_string(),
        domain: "example.org".to_string(),
        emails,
        thread_struct: ThreadStructValue::default(),
        active_months: HashMap::new(),
    }
}

#[test]
fn period_is_split_at_the_bar() {
    let (start, end) = period_bounds("dfr=2025-01-01|dto=2025-01-31");
    assert_eq!(start, "2025-01-01");
    assert_eq!(end, "2025-01-31");
}

#[test]
fn period_without_bar_has_no_end() {
    let (start, end) = period_bounds("dfr=2025-03-01");
    assert_eq!(start, "2025-03-01");
    assert_eq!(end, "");
    let (start, end) = period_bounds("");
    assert_eq!(start, "");
    assert_eq!(end, "");
}

#[test]
fn period_takes_only_the_second_piece_as_end() {
    let (start, end) = period_bounds("2025-01-01|dto=2025-02-01|extra");
    assert_eq!(start, "2025-01-01");
    assert_eq!(end, "2025-02-01");
    let (start, end) = period_bounds("|");
    assert_eq!(start, "");
    assert_eq!(end, "");
}

#[test]
fn markers_are_removed_wherever_they_stand() {
    let (start, end) = period_bounds("dto=dfr=x|ydfr=z");
    assert_eq!(start, "x");
    assert_eq!(end, "yz");
}

#[test]
fn remove_all_removes_every_occurrence_from_the_left() {
    assert_eq!(remove_all("aaa", "aa"), "a");
    assert_eq!(remove_all("abcabc", "bc"), "aa");
    assert_eq!(remove_all("xyz", "q"), "xyz");
    assert_eq!(remove_all("", "q"), "");
    assert_eq!(remove_all("ddfr==", "dfr="), "d=");
}

#[test]
fn characters_come_out_one_by_one() {
    assert_eq!(chars_of("ab€"), vec!['a', 'b', '€']);
    assert!(chars_of("").is_empty());
}

#[test]
fn stats_url_names_list_domain_and_period() {
    assert_eq!(
        stats_url("2025-01-01", "2025-01-31", "dev", "cloudstack.apache.org"),
        "https://lists.apache.org/api/stats.lua?list=dev&domain=cloudstack.apache.org&d=dfr=2025-01-01|dto=2025-01-31"
    );
}

#[test]
fn known_epoch_gives_its_day() {
    let e = fill_date(dated(1609459200, Some("2025-01-01")));
    assert_eq!(e.date, Some("2021-01-01".to_string()));
    assert_eq!(e.subject, "Subject");
    assert_eq!(e.epoch, 1609459200);
    let e = fill_date(dated(1609459200 + 86399, None));
    assert_eq!(e.date, Some("2021-01-01".to_string()));
}

#[test]
fn unknown_epoch_keeps_date_or_takes_placeholder() {
    let e = fill_date(dated(0, Some("2025-02-03")));
    assert_eq!(e.date, Some("2025-02-03".to_string()));
    let e = fill_date(dated(0, None));
    assert_eq!(e.date, Some("Unknown date".to_string()));
    let e = fill_date(dated(-5, None));
    assert_eq!(e.date, Some("Unknown date".to_string()));
}

#[test]
fn unrepresentable_epoch_keeps_date() {
    let e = fill_date(dated(i64::MAX, Some("kept")));
    assert_eq!(e.date, Some("kept".to_string()));
    let e = with_resolved_date(dated(10, None), None);
    assert_eq!(e.date, None);
    let e = with_resolved_date(dated(10, None), Some("day".to_string()));
    assert_eq!(e.date, Some("day".to_string()));
}

#[test]
fn conversion_fills_dates_and_counts() {
    let r = response(
        Some("dfr=2021-01-01|dto=2021-01-31"),
        vec![dated(1609459200, None), dated(0, None), dated(0, Some("given"))],
    );
    let stats = MailingListStats::from_response(r);
    assert_eq!(stats.total_emails, 4);
    assert_eq!(stats.total_participants, 0);
    assert_eq!(stats.total_threads, 2);
    assert_eq!(stats.period_start, "2021-01-01");
    assert_eq!(stats.period_end, "2021-01-31");
    assert_eq!(stats.emails.len(), 3);
    assert_eq!(stats.emails[0].date, Some("2021-01-01".to_string()));
    assert_eq!(stats.emails[1].date, Some("Unknown date".to_string()));
    assert_eq!(stats.emails[2].date, Some("given".to_string()));
    assert!(stats.thread_struct.is_empty());
}

#[test]
fn conversion_without_query_has_empty_period() {
    let stats: MailingListStats = response(None, vec![]).into();
    assert_eq!(stats.period_start, "");
    assert_eq!(stats.period_end, "");
    assert_eq!(stats.list_name, "dev");
    assert_eq!(stats.domain, "example.org");
}

#[test]
fn full_date_label_prefers_given_date() {
    assert_eq!(full_date_label_of(&dated(1609459200, Some("given"))), "given");
    assert_eq!(full_date_label_of(&dated(1609459200, None)), "2021-01-01");
    assert_eq!(full_date_label_of(&dated(0, None)), "Unknown date");
    assert_eq!(full_date_label_of(&dated(i64::MAX, None)), "Epoch: 9223372036854775807");
    assert_eq!(full_date_label_with(&dated(42, None), None), "Epoch: 42");
    assert_eq!(full_date_label_with(&dated(42, None), Some("d".to_string())), "d");
}

#[test]
fn brief_date_label_uses_placeholder() {
    assert_eq!(brief_date_label_of(&dated(1609459200, None)), "Unknown date");
    assert_eq!(brief_date_label_of(&dated(0, Some("x"))), "x");
}

#[test]
fn display_config_builders_set_one_flag_each() {
    let c = DisplayConfig::new();
    assert!(!c.show_header && !c.show_emails && !c.show_threads && !c.show_daily_activity);
    assert!(!c.show_averages && !c.show_summary && !c.show_unanswered && !c.verbose);
    let c = c
        .with_header(true)
        .with_emails(true)
        .with_threads(false)
        .with_daily_activity(true)
        .with_averages(false)
        .with_summary(true)
        .with_unanswered_emails(true)
        .verbose(true);
    assert!(c.show_header && c.show_emails && !c.show_threads && c.show_daily_activity);
    assert!(!c.show_averages && c.show_summary && c.show_unanswered && c.verbose);
    let d = DisplayConfig::default().with_summary(true);
    assert!(d.show_summary && !d.show_header);
}

#[test]
fn thread_values_from_a_list() {
    let nodes = vec![ThreadStruct {
        children: vec![],
        tid: "t".to_string(),
        subject: "s".to_string(),
        tsubject: "ts".to_string(),
        epoch: 1,
        nest: 0,
    }];
    let value: ThreadStructValue = nodes.into();
    assert_eq!(value.len(), 1);
    let again = ThreadStructValue::from_vec(value.clone().into_vec());
    assert_eq!(again.iter()[0].tid, "t");
    assert!(ThreadStructValue::default().is_empty());
}

#[test]
fn cloned_tree_is_deep_copy() {
    let tree = ThreadStruct {
        children: vec![ThreadStruct {
            children: vec![],
            tid: "c".to_string(),
            subject: "cs".to_string(),
            tsubject: "cts".to_string(),
            epoch: 2,
            nest: 1,
        }],
        tid: "p".to_string(),
        subject: "ps".to_string(),
        tsubject: "pts".to_string(),
        epoch: 1,
        nest: 0,
    };
    let copy = tree.clone();
    assert_eq!(copy.tid, "p");
    assert_eq!(copy.children.len(), 1);
    assert_eq!(copy.children[0].tid, "c");
    assert_eq!(copy.children[0].nest, 1);
}

#[test]
fn empty_pattern_removes_nothing() {
    assert_eq!(remove_all("dfr=2025", ""), "dfr=2025");
    assert_eq!(remove_all("", ""), "");
}

#[test]
fn epoch_label_writes_every_digit() {
    assert_eq!(full_date_label_with(&dated(7, None), None), "Epoch: 7");
    assert_eq!(full_date_label_with(&dated(10, None), None), "Epoch: 10");
    assert_eq!(full_date_label_with(&dated(1234567890, None), None), "Epoch: 1234567890");
    assert_eq!(full_date_label_with(&dated(1000000000000, None), None), "Epoch: 1000000000000");
}
