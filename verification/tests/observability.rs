use webcat::observability::{network_body_bytes, now_ms, NetworkEntry, ObservabilityStore};

fn net(url: &str, status: Option<i64>) -> NetworkEntry {
    NetworkEntry {
        seq: 0,
        ts_ms: 0,
        kind: "response".into(),
        method: Some("GET".into()),
        url: url.into(),
        status,
        mime: None,
        request_id: "r".into(),
        request_body: None,
        response_body: None,
        response_body_base64: None,
    }
}

#[test]
fn seq_increases_monotonically_across_buffers() {
    let mut s = ObservabilityStore::new(10);
    s.push_console("log".into(), "a".into(), None, None, 1);
    s.push_network(net("https://x", Some(200)), 2);
    s.push_console("log".into(), "b".into(), None, None, 3);

    let c = s.console_since(0, None, 100);
    let n = s.network_since(0, None, 100);
    assert_eq!(c.entries[0].seq, 1);
    assert_eq!(n.entries[0].seq, 2);
    assert_eq!(c.entries[1].seq, 3);
    assert_eq!((c.entries[0].ts_ms, n.entries[0].ts_ms, c.entries[1].ts_ms), (1, 2, 3));
    assert_eq!((c.latest_seq, n.latest_seq, s.latest_seq()), (3, 3, 3));
}

#[test]
fn since_seq_filters_old_entries() {
    let mut s = ObservabilityStore::new(10);
    s.push_console("log".into(), "a".into(), None, None, 0);
    s.push_console("log".into(), "b".into(), None, None, 0);
    let page = s.console_since(1, None, 100);
    assert_eq!(page.entries.len(), 1);
    assert_eq!(page.entries[0].text, "b");
}

#[test]
fn ring_buffer_drops_oldest_and_counts() {
    let mut s = ObservabilityStore::new(2);
    for i in 0..5 {
        s.push_console("log".into(), format!("{i}"), None, None, 0);
    }
    let page = s.console_since(0, None, 100);
    assert_eq!(page.entries.len(), 2);
    assert_eq!(page.entries[0].text, "3");
    assert_eq!(page.dropped, 3);
}

#[test]
fn level_filter_matches_exact() {
    let mut s = ObservabilityStore::new(10);
    s.push_console("error".into(), "e".into(), None, None, 0);
    s.push_console("log".into(), "l".into(), None, None, 0);
    let page = s.console_since(0, Some("error"), 100);
    assert_eq!(page.entries.len(), 1);
    assert_eq!(page.entries[0].text, "e");
}

#[test]
fn status_filter_matches_network() {
    let mut s = ObservabilityStore::new(10);
    s.push_network(net("https://ok", Some(200)), 0);
    s.push_network(net("https://err", Some(404)), 0);
    let page = s.network_since(0, Some(404), 100);
    assert_eq!(page.entries.len(), 1);
    assert_eq!(page.entries[0].url, "https://err");
}

#[test]
fn attaches_full_response_body_without_truncating() {
    let mut s = ObservabilityStore::new(10);
    s.push_network(net("https://graphql", Some(200)), 0);
    let body = "x".repeat(1024 * 1024);
    assert!(s.attach_response_body("r", body.clone(), false));
    let page = s.network_since(0, None, 100);
    assert_eq!(page.entries[0].response_body.as_deref(), Some(body.as_str()));
    assert_eq!(page.entries[0].response_body_base64, Some(false));
}

#[test]
fn body_budget_evicts_whole_old_entries() {
    let mut s = ObservabilityStore::with_body_budget(10, 16 * 1024 * 1024);
    for i in 0..20 {
        let mut entry = net(&format!("https://x/{i}"), Some(200));
        entry.request_id = i.to_string();
        entry.response_body = Some("x".repeat(1024 * 1024));
        s.push_network(entry, 0);
    }

    let page = s.network_since(0, None, 100);
    assert!(page.dropped > 0);
    assert!(page.entries.iter().all(|e| {
        e.response_body
            .as_ref()
            .is_some_and(|body| body.len() == 1024 * 1024)
    }));
}

#[test]
fn body_budget_counts_bytes_and_spares_the_newest() {
    let mut s = ObservabilityStore::with_body_budget(10, 6);
    let mut a = net("a", None);
    a.request_body = Some("가".into()); // three bytes
    assert_eq!(network_body_bytes(&a), 3);
    let mut b = net("b", None);
    b.response_body = Some("xyz".into());
    s.push_network(a, 0);
    s.push_network(b, 0);
    assert_eq!(s.network_since(0, None, 9).dropped, 0);
    let mut c = net("c", None);
    c.response_body = Some("0123456789".into());
    s.push_network(c, 0);
    let page = s.network_since(0, None, 9);
    assert_eq!(page.dropped, 2);
    assert_eq!(page.entries.len(), 1, "the newest stays, though it is over the budget");
    assert_eq!(page.entries[0].url, "c");
}

#[test]
fn body_goes_to_the_last_response_only() {
    let mut s = ObservabilityStore::new(10);
    s.push_network(net("first", Some(301)), 0);
    s.push_network(net("second", Some(200)), 0);
    let mut q = net("third", None);
    q.kind = "request".into();
    s.push_network(q, 0);
    assert!(s.attach_response_body("r", "body".into(), true));
    assert!(!s.attach_response_body("other", "body".into(), true));
    let page = s.network_since(0, None, 9);
    assert_eq!(page.entries[0].response_body, None);
    assert_eq!(page.entries[1].response_body.as_deref(), Some("body"));
    assert_eq!(page.entries[1].response_body_base64, Some(true));
    assert_eq!(page.entries[2].response_body, None);
}

#[test]
fn pages_continue_from_the_cursor() {
    let mut s = ObservabilityStore::new(10);
    for i in 0..7 {
        let level = if i % 2 == 0 { "log" } else { "error" };
        s.push_console(level.into(), format!("{i}"), None, None, 0);
    }
    let a = s.console_since(0, Some("log"), 2);
    let b = s.console_since(a.entries[1].seq, Some("log"), 9);
    let all: Vec<String> = s.console_since(0, Some("log"), 9).entries.into_iter().map(|e| e.text).collect();
    let joined: Vec<String> = a.entries.into_iter().chain(b.entries).map(|e| e.text).collect();
    assert_eq!(joined, all);
    assert_eq!(all, vec!["0", "2", "4", "6"]);
}

#[test]
fn every_number_is_held_or_counted() {
    let mut s = ObservabilityStore::with_body_budget(3, 4);
    for i in 0..9u64 {
        let mut e = net("u", None);
        e.response_body = Some("xx".into());
        s.push_network(e, 0);
        s.push_console("log".into(), "t".into(), Some("u".into()), Some(7), 0);
        let c = s.console_since(0, None, 99);
        let n = s.network_since(0, None, 99);
        let sum = c.entries.len() as u64 + c.dropped + n.entries.len() as u64 + n.dropped;
        assert_eq!(sum, 2 * (i + 1));
    }
}

#[test]
fn store_without_room_keeps_nothing() {
    let mut s = ObservabilityStore::new(0);
    s.push_console("log".into(), "a".into(), None, None, 0);
    s.push_network(net("u", None), 0);
    assert!(s.console_since(0, None, 9).entries.is_empty());
    assert_eq!(s.network_since(0, None, 9).dropped, 1);
    assert_eq!(s.latest_seq(), 2);
}

#[test]
fn clock_before_the_epoch_is_zero() {
    assert_eq!(now_ms(None), 0);
    assert_eq!(now_ms(Some(1_700_000_000_123)), 1_700_000_000_123);
    assert_eq!(now_ms(Some((1u128 << 64) + 5)), 5);
}

#[test]
fn pushed_entry_is_answered_alone() {
    let mut s = ObservabilityStore::with_body_budget(1, 3);
    s.push_console("log".into(), "one".into(), None, None, 5);
    let before = s.latest_seq();
    s.push_console("error".into(), "two".into(), Some("u".into()), Some(9), 6);
    let page = s.console_since(before, Some("error"), 10);
    assert_eq!(page.entries.len(), 1);
    assert_eq!(page.entries[0].text, "two");
    assert_eq!(page.entries[0].seq, before + 1);
    assert!(s.console_since(page.latest_seq, None, 10).entries.is_empty());

    let before = s.latest_seq();
    let mut big = net("https://b", Some(200));
    big.request_body = Some("more than three bytes".into());
    s.push_network(big, 7);
    let page = s.network_since(before, None, 10);
    assert_eq!(page.entries.len(), 1);
    assert_eq!(page.entries[0].url, "https://b");
    assert!(s.network_since(page.latest_seq, None, 10).entries.is_empty());
}

#[test]
fn queries_are_parts_of_the_whole_page() {
    let mut s = ObservabilityStore::new(4);
    for i in 0..6u64 {
        let level = if i % 2 == 0 { "log" } else { "error" };
        s.push_console(level.into(), format!("m{i}"), None, None, i);
        s.push_network(net("https://a", Some(200)), i);
    }
    let all = s.console_since(0, None, usize::MAX);
    let texts: Vec<&str> = all.entries.iter().map(|e| e.text.as_str()).collect();
    assert_eq!(texts, ["m2", "m3", "m4", "m5"]);
    assert!(all.entries.windows(2).all(|w| w[0].seq < w[1].seq));
    for since in 0..=all.latest_seq {
        for level in [None, Some("log"), Some("error"), Some("x")] {
            for limit in 0..6 {
                let page = s.console_since(since, level, limit);
                let got: Vec<u64> = page.entries.iter().map(|e| e.seq).collect();
                let want: Vec<u64> = all
                    .entries
                    .iter()
                    .filter(|e| e.seq > since && level.map_or(true, |l| e.level == l))
                    .map(|e| e.seq)
                    .take(limit)
                    .collect();
                assert_eq!(got, want);
                assert_eq!(page.dropped, all.dropped);
                assert_eq!(page.latest_seq, all.latest_seq);
            }
        }
    }
    let all = s.network_since(0, None, usize::MAX);
    assert_eq!(all.entries.len(), 4);
    assert_eq!(s.network_since(0, Some(404), 9).entries.len(), 0);
}
