use email_tool::analysis::{str_lt, LabelStats};
use email_tool::model::{MessageListResponse, MessageRef};
use email_tool::sampling::{collect_target, label_filter_ids, sample_ids, sample_size, IdCollector};

fn labels(xs: &[&str]) -> Option<Vec<String>> {
    Some(xs.iter().map(|s| s.to_string()).collect())
}

#[test]
fn string_order_is_code_point_order() {
    assert!(str_lt("INBOX", "UNREAD"));
    assert!(!str_lt("UNREAD", "INBOX"));
    assert!(str_lt("A", "AB"));
    assert!(!str_lt("A", "A"));
    assert!(str_lt("Z", "a"));
    assert_eq!(str_lt("é", "z"), "é" < "z");
}

#[test]
fn label_frequencies_are_counted_and_ranked() {
    let mut stats = LabelStats::new();
    let m1 = labels(&["INBOX", "UNREAD"]);
    let m2 = labels(&["INBOX"]);
    let m3 = labels(&["UNREAD", "INBOX", "IMPORTANT"]);
    for m in [&m1, &m2, &m3, &None] {
        assert!(stats.can_record(m));
        stats.record_message(m);
    }
    let ranked = stats.ranked_labels();
    assert_eq!(ranked[0], ("INBOX".to_string(), 3));
    assert_eq!(ranked[1], ("UNREAD".to_string(), 2));
    assert_eq!(ranked[2], ("IMPORTANT".to_string(), 1));
    assert_eq!(ranked.len(), 3);
}

#[test]
fn co_occurrences_ignore_label_order() {
    let mut stats = LabelStats::new();
    stats.record_message(&labels(&["UNREAD", "INBOX"]));
    stats.record_message(&labels(&["INBOX", "UNREAD"]));
    stats.record_message(&labels(&["INBOX", "IMPORTANT", "UNREAD"]));
    let top = stats.top_pairs(10);
    assert_eq!(top[0], (("INBOX".to_string(), "UNREAD".to_string()), 3));
    assert_eq!(top.len(), 3);
    let rest: Vec<u64> = top[1..].iter().map(|e| e.1).collect();
    assert_eq!(rest, vec![1, 1]);
}

#[test]
fn repeated_label_pairs_with_itself() {
    let mut stats = LabelStats::new();
    stats.record_message(&labels(&["A", "A"]));
    assert_eq!(stats.ranked_labels(), vec![("A".to_string(), 2)]);
    assert_eq!(stats.top_pairs(10), vec![(("A".to_string(), "A".to_string()), 1)]);
}

#[test]
fn top_pairs_keeps_ten() {
    let mut stats = LabelStats::new();
    let many: Vec<String> = (0..6).map(|i| format!("L{i}")).collect();
    stats.record_message(&Some(many));
    assert_eq!(stats.top_pairs(10).len(), 10);
    assert_eq!(stats.top_pairs(100).len(), 15);
}

#[test]
fn fetch_failures_are_counted() {
    let mut stats = LabelStats::new();
    stats.record_failure();
    stats.record_failure();
    assert_eq!(stats.fetch_error_count(), 2);
    assert!(stats.ranked_labels().is_empty());
}

#[test]
fn sample_size_defaults_and_clamps() {
    assert_eq!(sample_size(None), 500);
    assert_eq!(sample_size(Some(0)), 1);
    assert_eq!(sample_size(Some(5000)), 2000);
    assert_eq!(sample_size(Some(42)), 42);
}

#[test]
fn collect_target_is_three_samples_at_most_2000() {
    assert_eq!(collect_target(10), 30);
    assert_eq!(collect_target(500), 1500);
    assert_eq!(collect_target(700), 2000);
}

#[test]
fn label_filter_becomes_a_single_label() {
    assert_eq!(label_filter_ids(None), None);
    assert_eq!(label_filter_ids(Some("INBOX".to_string())), Some(vec!["INBOX".to_string()]));
}

fn page(ids: &[&str], next: Option<&str>) -> MessageListResponse {
    MessageListResponse {
        messages: Some(ids.iter().map(|i| MessageRef { id: i.to_string() }).collect()),
        next_page_token: next.map(|s| s.to_string()),
        result_size_estimate: None,
    }
}

#[test]
fn collector_asks_for_more_pages_until_enough() {
    let mut c = IdCollector::new(3);
    assert_eq!(c.absorb(page(&["a", "b"], Some("p2"))), Some("p2".to_string()));
    assert_eq!(c.absorb(page(&["c"], Some("p3"))), None);
    assert_eq!(c.into_ids(), vec!["a", "b", "c"]);
}

#[test]
fn collector_stops_at_the_last_page() {
    let mut c = IdCollector::new(100);
    assert_eq!(c.absorb(page(&["a"], None)), None);
    let empty = MessageListResponse { messages: None, next_page_token: Some("x".to_string()), result_size_estimate: Some(0) };
    let mut d = IdCollector::new(1);
    assert_eq!(d.absorb(empty), Some("x".to_string()));
    assert!(d.into_ids().is_empty());
    assert_eq!(c.into_ids(), vec!["a"]);
}

#[test]
fn sample_is_drawn_from_the_ids() {
    let ids: Vec<String> = (0..50).map(|i| i.to_string()).collect();
    let s = sample_ids(ids.clone(), 10).unwrap();
    assert_eq!(s.len(), 10);
    for x in &s {
        assert!(ids.contains(x));
    }
    let all = sample_ids(ids.clone(), 100).unwrap();
    let mut sorted = all.clone();
    sorted.sort_by_key(|x| x.parse::<u32>().unwrap());
    assert_eq!(sorted, ids);
}

#[test]
fn sample_order_is_shuffled() {
    let ids: Vec<String> = (0..60).map(|i| i.to_string()).collect();
    let moved = (0..5).any(|_| sample_ids(ids.clone(), 60).unwrap() != ids);
    assert!(moved);
}

#[test]
fn recording_order_does_not_matter() {
    let a = labels(&["INBOX", "Work", "UNREAD"]);
    let b = labels(&["Work", "INBOX"]);
    let mut s1 = LabelStats::new();
    s1.record_message(&a);
    s1.record_message(&b);
    let mut s2 = LabelStats::new();
    s2.record_message(&b);
    s2.record_message(&a);
    let mut r1 = s1.ranked_labels();
    let mut r2 = s2.ranked_labels();
    r1.sort();
    r2.sort();
    assert_eq!(r1, r2);
    let mut p1 = s1.top_pairs(100);
    let mut p2 = s2.top_pairs(100);
    p1.sort();
    p2.sort();
    assert_eq!(p1, p2);
}

#[test]
fn every_label_and_pair_of_positions_is_counted_once() {
    let mut stats = LabelStats::new();
    stats.record_message(&labels(&["A", "B", "A", "C"]));
    let total: u64 = stats.ranked_labels().iter().map(|e| e.1).sum();
    assert_eq!(total, 4);
    let pairs: u64 = stats.top_pairs(100).iter().map(|e| e.1).sum();
    assert_eq!(pairs, 6);
}

#[test]
fn one_message_with_two_labels_gives_one_pair() {
    let mut stats = LabelStats::new();
    stats.record_message(&labels(&["B", "A"]));
    assert_eq!(stats.top_pairs(10), vec![(("A".to_string(), "B".to_string()), 1)]);
    assert_eq!(stats.ranked_labels().len(), 2);
}
