use aiav_core::events::FsEvent;
use aiav_core::file_monitor::FileEventType as MonitorEvent;
use aiav_core::logging::LogMessageVisitor;
use aiav_core::text::{split_lines, trim_str, u64_to_string};
use aiav_core::watcher::FileEventType as WatcherEvent;
use aiav_core::web::{cache_is_stale, expired, gather_domains, normalize, parse_hosts,
    restore_dns_auto, set_dns_to_local, CacheMetadata, WebSecurity};
use aiav_core::settings::WebSecuritySettings;

fn web_settings(blacklist: &[&str], whitelist: &[&str]) -> WebSecuritySettings {
    WebSecuritySettings {
        blocklist_urls: Vec::new(),
        user_whitelist: whitelist.iter().map(|s| s.to_string()).collect(),
        user_blacklist: blacklist.iter().map(|s| s.to_string()).collect(),
        enable_tracker_protection: true,
        enable_malware_protection: true,
    }
}

#[test]
fn cache_expiry_has_a_24_hour_window() {
    assert!(expired(0, 1_000));
    assert!(!expired(1_000, 1_000 + 24 * 3600));
    assert!(expired(1_000, 1_000 + 24 * 3600 + 1));
    // a timestamp from the future is treated as fresh
    assert!(!expired(2_000, 1_000));
}

#[test]
fn cache_staleness_checks_source_and_age() {
    let meta = CacheMetadata { last_updated: 1_000, source_url: "https://a".to_string() };
    assert!(!cache_is_stale(Some(&meta), "https://a", 2_000));
    assert!(cache_is_stale(Some(&meta), "https://b", 2_000));
    assert!(cache_is_stale(Some(&meta), "https://a", 1_000 + 25 * 3600));
    assert!(cache_is_stale(None, "https://a", 2_000));
}

#[test]
fn hosts_parsing_takes_the_second_token_and_lowers_case() {
    let content = "0.0.0.0 Evil.com\n# a comment\n\nBadHost.ORG\n127.0.0.1 tracker.net extra";
    let hosts = parse_hosts(content);
    let views: Vec<&str> = hosts.iter().map(|h| h.as_str()).collect();
    assert_eq!(views, vec!["evil.com", "badhost.org", "tracker.net"]);
}

#[test]
fn normalize_extracts_url_hosts_and_lowers_case() {
    let list = vec![
        "  Plain.Example  ".to_string(),
        "https://Tracker.Example.org/some/path".to_string(),
        "# commented out".to_string(),
        "".to_string(),
        "http://".to_string(),
    ];
    let domains = normalize(&list);
    let views: Vec<&str> = domains.iter().map(|d| d.as_str()).collect();
    assert_eq!(views, vec!["plain.example", "tracker.example.org"]);
}

#[test]
fn gathering_respects_flags_and_whitelist() {
    let s = web_settings(&["Manual.Block"], &["allowed.site"]);
    let domains = gather_domains(
        Some("0.0.0.0 allowed.site\n0.0.0.0 blocked.site"),
        Some("tracked.site"),
        &s,
    );
    let views: Vec<&str> = domains.iter().map(|d| d.as_str()).collect();
    assert_eq!(views, vec!["blocked.site", "tracked.site", "manual.block"]);
}

#[test]
fn gathering_skips_disabled_lists() {
    let mut s = web_settings(&[], &[]);
    s.enable_malware_protection = false;
    let domains = gather_domains(Some("0.0.0.0 malware.site"), None, &s);
    assert!(domains.is_empty());
}

#[test]
fn blocking_ignores_case_and_trailing_dots() {
    let mut ws = WebSecurity::new().unwrap();
    ws.update_blocklist(vec!["evil.com".to_string()]).unwrap();
    assert!(ws.should_block("EVIL.COM."));
    assert!(ws.should_block("evil.com"));
    assert!(!ws.should_block("good.com"));
    assert!(!ws.should_block("sub.evil.com"));
}

#[test]
fn protection_state_follows_start_and_stop() {
    let mut ws = WebSecurity::new().unwrap();
    assert!(!ws.is_protection_active());
    ws.start_protection(vec!["evil.com".to_string()]).unwrap();
    assert!(ws.is_protection_active());
    ws.stop_protection().unwrap();
    assert!(!ws.is_protection_active());
    assert!(ws.should_block("evil.com"));
}

#[test]
fn dns_helpers_succeed_with_nothing_to_change() {
    assert!(set_dns_to_local().is_ok());
    assert!(restore_dns_auto().is_ok());
}

#[test]
fn watcher_events_trigger_scans_on_create_and_modify() {
    assert!(WatcherEvent::Created.triggers_scan());
    assert!(WatcherEvent::Modified.triggers_scan());
    assert!(!WatcherEvent::Deleted.triggers_scan());
    assert!(FsEvent::Create("/a".to_string()).triggers_scan());
    assert!(FsEvent::Modify("/a".to_string()).triggers_scan());
    assert!(!FsEvent::Remove("/a".to_string()).triggers_scan());
    assert!(!FsEvent::Rename("/a".to_string(), "/b".to_string()).triggers_scan());
}

#[test]
fn monitor_event_codes_round_trip() {
    let events = [
        MonitorEvent::FileAdded,
        MonitorEvent::FileRemoved,
        MonitorEvent::FileModified,
        MonitorEvent::FileRenamedOldName,
        MonitorEvent::FileRenamedNewName,
    ];
    for e in events {
        assert_eq!(MonitorEvent::from_code(e.code()).unwrap(), e);
    }
    assert!(MonitorEvent::from_code(5).is_err());
    assert!(MonitorEvent::from_code(-1).is_err());
    assert!(MonitorEvent::FileAdded.triggers_scan());
    assert!(MonitorEvent::FileModified.triggers_scan());
    assert!(!MonitorEvent::FileRenamedNewName.triggers_scan());
    assert!(!MonitorEvent::FileRenamedOldName.triggers_scan());
    assert!(!MonitorEvent::FileRemoved.triggers_scan());
}

#[test]
fn log_visitor_keeps_only_the_message_field() {
    let mut visitor = LogMessageVisitor::new();
    assert_eq!(visitor.message, "");
    visitor.record_message("other", "ignored");
    assert_eq!(visitor.message, "");
    visitor.record_message("message", "hello there");
    assert_eq!(visitor.message, "hello there");
}

#[test]
fn line_splitting_matches_the_usual_reading() {
    let lines = split_lines("a\r\nb\n\nc");
    let views: Vec<&str> = lines.iter().map(|l| l.as_str()).collect();
    assert_eq!(views, vec!["a", "b", "", "c"]);
    assert!(split_lines("").is_empty());
    let trailing = split_lines("x\n");
    assert_eq!(trailing.len(), 1);
    assert_eq!(trailing[0], "x");
}

#[test]
fn trimming_and_digits() {
    assert_eq!(trim_str("  padded \t").as_str(), "padded");
    assert_eq!(u64_to_string(0).as_str(), "0");
    assert_eq!(u64_to_string(90210).as_str(), "90210");
}
