use cyberdesk::update_state::{
    check_interval_secs, check_outcome, current_cef_version, current_chromium_version,
    current_cyberdesk_version, current_tor_version, dismiss, feed_url, fetch_target,
    info_snapshot, info_snapshot_json, plural, rebuild_state, relative_ago, update_count, FetchTarget, Fetched,
};
use cyberdesk::updates::{build_items, Component, Manifest, Product};

const GOOD: &str = r#"{"schema":1,"cyberdesk":{"latest":"0.9.0"}}"#;

fn component(recommended: &str, reason: &str, notes_url: &str) -> Component {
    Component {
        recommended: recommended.to_string(),
        reason: Some(reason.to_string()),
        notes_url: Some(notes_url.to_string()),
    }
}

/// A manifest with the product and both tracked components behind the
/// running versions used below; the Tor reason is written " Info ".
fn good() -> Manifest {
    Manifest {
        schema: 1,
        cyberdesk: Product {
            latest: "0.9.0".to_string(),
            notes_url: Some("https://carvilon.example/notes/0.9.0.html".to_string()),
        },
        components: vec![
            (
                "cef".to_string(),
                component(
                    "150.0.1+chromium-150.0.7900.100",
                    "security",
                    "https://carvilon.example/notes/cef-150.html",
                ),
            ),
            (
                "tor".to_string(),
                component("0.45.0", " Info ", "https://carvilon.example/notes/tor-0.45.html"),
            ),
        ],
    }
}

#[test]
fn relative_ago_is_honest_and_pluralized() {
    assert_eq!(relative_ago(-5), "just now");
    assert_eq!(relative_ago(10), "just now");
    assert_eq!(relative_ago(60), "1 minute ago");
    assert_eq!(relative_ago(180), "3 minutes ago");
    assert_eq!(relative_ago(3600), "1 hour ago");
    assert_eq!(relative_ago(90000), "1 day ago");
}

#[test]
fn relative_ago_boundaries() {
    assert_eq!(relative_ago(59), "just now");
    assert_eq!(relative_ago(3599), "59 minutes ago");
    assert_eq!(relative_ago(7200), "2 hours ago");
    assert_eq!(relative_ago(86399), "23 hours ago");
    assert_eq!(relative_ago(86400 * 400), "400 days ago");
    assert_eq!(relative_ago(i64::MIN), "just now");
    assert_eq!(plural(1), "");
    assert_eq!(plural(0), "s");
}

#[test]
fn running_version_texts() {
    assert_eq!(current_cyberdesk_version(), "0.1.0");
    assert_eq!(current_tor_version(None), "unknown");
    assert_eq!(current_tor_version(Some("0.44.0")), "0.44.0");
    assert_eq!(current_cef_version(149, 0, 6), "149.0.6");
    assert_eq!(current_chromium_version(149, 0, 7827, 201), "149.0.7827.201");
    assert_eq!(current_cef_version(0, 10, 4294967295), "0.10.4294967295");
}

#[test]
fn rebuilt_state_counts_items_and_dismissal_targets() {
    let m = good();
    let st = rebuild_state(&Some(m), Some(100), "0.1.0", "149.0.6", "0.44.0", &vec![]);
    assert!(st.have_feed);
    assert_eq!(update_count(&st), 3);
    assert_eq!(st.cyberdesk_latest.as_deref(), Some("0.9.0"));
    assert_eq!(st.cef_recommended.as_deref(), Some("150.0.1+chromium-150.0.7900.100"));
    assert_eq!(st.tor_recommended.as_deref(), Some("0.45.0"));
    assert_eq!(dismiss(&st, "tor-update").as_deref(), Some("0.45.0"));
    assert_eq!(dismiss(&st, "nothing-here"), None);
    let empty = rebuild_state(&None, None, "0.1.0", "149.0.6", "0.44.0", &vec![]);
    assert!(!empty.have_feed);
    assert_eq!(update_count(&empty), 0);
    assert_eq!(dismiss(&empty, "cyberdesk-update"), None);
}

#[test]
fn item_texts_and_severity_normalization() {
    let m = good();
    let items = build_items(&m, "0.1.0", "149.0.6", "0.44.0", &vec![]);
    assert_eq!(items[0].body, "You are running 0.1.0. Version 0.9.0 is available.");
    assert_eq!(items[0].title, "CyberDesk update available");
    assert_eq!(items[0].severity, "recommended");
    assert_eq!(items[0].action.as_ref().unwrap().label, "Release notes");
    assert_eq!(
        items[1].body,
        "The bundled CEF core is 149.0.6. 150.0.1+chromium-150.0.7900.100 is recommended (security)."
    );
    // " Info " is trimmed and case-folded for the severity, kept for the text.
    assert_eq!(items[2].severity, "info");
    assert_eq!(
        items[2].body,
        "The embedded Tor engine (arti) is 0.44.0. 0.45.0 is recommended ( Info )."
    );
}

#[test]
fn snapshot_reports_status_and_age() {
    let m = good();
    let st = rebuild_state(&Some(m), Some(1000), "0.9.0", "149.0.6", "0.45.0", &vec![]);
    let snap = info_snapshot(&st, "0.9.0", "149.0.6", "149.0.7827.201", "0.45.0", 1000 + 180);
    assert!(snap.have_feed);
    assert_eq!(snap.checked_ago.as_deref(), Some("3 minutes ago"));
    assert_eq!(snap.items.len(), 1);
    assert!(snap.cyberdesk.up_to_date);
    assert!(!snap.cef.up_to_date);
    assert!(snap.tor.up_to_date);
    assert_eq!(snap.chromium, "149.0.7827.201");
    assert_eq!(snap.cef.offered.as_deref(), Some("150.0.1+chromium-150.0.7900.100"));
    let none = rebuild_state(&None, None, "0.9.0", "149.0.6", "0.45.0", &vec![]);
    let snap = info_snapshot(&none, "0.9.0", "149.0.6", "x", "0.45.0", 0);
    assert_eq!(snap.checked_ago, None);
    assert!(snap.cyberdesk.up_to_date && snap.cef.up_to_date && snap.tor.up_to_date);
}

#[test]
fn fetch_targets_local_and_remote() {
    assert_eq!(fetch_target("file:///tmp/m.json"), FetchTarget::Local("/tmp/m.json".to_string()));
    assert_eq!(fetch_target("file:m.json"), FetchTarget::Local("m.json".to_string()));
    assert_eq!(fetch_target("C:\\feeds\\m.json"), FetchTarget::Local("C:\\feeds\\m.json".to_string()));
    assert_eq!(
        fetch_target("https://updates.example/feed.json"),
        FetchTarget::Remote("https://updates.example/feed.json".to_string())
    );
}

#[test]
fn feed_url_override_and_interval() {
    assert_eq!(feed_url(Some("file:x".to_string()), "https://a".to_string()), "file:x");
    assert_eq!(feed_url(Some("  \t".to_string()), "https://a".to_string()), "https://a");
    assert_eq!(feed_url(None, "https://a".to_string()), "https://a");
    assert_eq!(check_interval_secs(0), 3600);
    assert_eq!(check_interval_secs(6), 21600);
}

#[test]
fn check_caches_only_parseable_manifests() {
    let good_fetch = Fetched { body: GOOD.to_string(), manifest: Some(good()) };
    let kept = check_outcome(Ok(good_fetch), None);
    assert_eq!(kept.cache_json.as_deref(), Some(GOOD));
    assert_eq!(kept.manifest.unwrap().components.len(), 2);
    let mut cached = good();
    cached.cyberdesk.latest = "0.8.0".to_string();
    let junk = Fetched { body: "<html>404</html>".to_string(), manifest: None };
    let junk = check_outcome(Ok(junk), Some(cached));
    assert!(junk.cache_json.is_none());
    assert_eq!(junk.manifest.unwrap().cyberdesk.latest, "0.8.0");
    let offline = check_outcome(Err("unreachable".to_string()), None);
    assert!(offline.cache_json.is_none() && offline.manifest.is_none());
    let offline = check_outcome(Err("unreachable".to_string()), Some(good()));
    assert!(offline.cache_json.is_none());
    assert_eq!(offline.manifest.unwrap().cyberdesk.latest, "0.9.0");
}

#[test]
fn recording_a_dismissal_removes_exactly_that_item() {
    let before = rebuild_state(&Some(good()), Some(5), "0.1.0", "149.0.6", "0.44.0", &vec![]);
    assert_eq!(update_count(&before), 3);
    let target = dismiss(&before, "cef-update").expect("the cef item is present");
    assert_eq!(target, "150.0.1+chromium-150.0.7900.100");
    // The store records (id, target), replacing an older entry for the id.
    let recorded = vec![("cef-update".to_string(), target)];
    let after = rebuild_state(&Some(good()), Some(5), "0.1.0", "149.0.6", "0.44.0", &recorded);
    assert_eq!(update_count(&after), 2);
    assert_eq!(after.items[0], before.items[0]);
    assert_eq!(after.items[1], before.items[2]);
    assert_eq!(dismiss(&after, "cef-update"), None);
    // Dismissing an item that is not there changes nothing.
    assert_eq!(dismiss(&after, "no-such-item"), None);
}

fn status_map(version: &str, offered_key: &str, offered: Option<&str>, up_to_date: bool) -> serde_json::Map<String, serde_json::Value> {
    let mut m = serde_json::Map::new();
    m.insert("version".to_string(), version.into());
    m.insert(offered_key.to_string(), serde_json::Value::from(offered.map(|o| o.to_string())));
    m.insert("up_to_date".to_string(), up_to_date.into());
    m
}

#[test]
fn snapshot_text_is_the_compact_json_of_the_reply() {
    let mut m = good();
    m.cyberdesk.latest = "0.9.0 \"q\" \\ \n\t\u{1}\u{7f} é".to_string();
    let st = rebuild_state(&Some(m), Some(1000), "0.1.0", "149.0.6", "0.44.0", &vec![]);
    let snap = info_snapshot(&st, "0.1.0", "149.0.6", "149.0.7827.201", "0.44.0", 1000 + 60);
    let text = info_snapshot_json(&snap);

    // The same reply assembled as a serde_json value, member by member.
    let items: Vec<serde_json::Value> = snap
        .items
        .iter()
        .map(|i| {
            let mut o = serde_json::Map::new();
            o.insert("id".to_string(), i.id.clone().into());
            o.insert("severity".to_string(), i.severity.clone().into());
            o.insert("title".to_string(), i.title.clone().into());
            o.insert("body".to_string(), i.body.clone().into());
            let action = match &i.action {
                Some(a) => {
                    let mut am = serde_json::Map::new();
                    am.insert("label".to_string(), a.label.clone().into());
                    am.insert("url".to_string(), a.url.clone().into());
                    serde_json::Value::Object(am)
                }
                None => serde_json::Value::Null,
            };
            o.insert("action".to_string(), action);
            serde_json::Value::Object(o)
        })
        .collect();
    let mut cef = status_map("149.0.6", "recommended", Some("150.0.1+chromium-150.0.7900.100"), false);
    cef.insert("chromium".to_string(), "149.0.7827.201".into());
    let mut root = serde_json::Map::new();
    root.insert("have_feed".to_string(), true.into());
    root.insert("checked_ago".to_string(), "1 minute ago".into());
    root.insert("items".to_string(), serde_json::Value::Array(items));
    root.insert(
        "cyberdesk".to_string(),
        serde_json::Value::Object(status_map("0.1.0", "latest", Some(st.cyberdesk_latest.as_deref().unwrap()), false)),
    );
    root.insert("cef".to_string(), serde_json::Value::Object(cef));
    root.insert("tor".to_string(), serde_json::Value::Object(status_map("0.44.0", "recommended", Some("0.45.0"), false)));
    assert_eq!(text, serde_json::Value::Object(root).to_string());
    assert!(text.starts_with("{\"cef\":{\"chromium\":\"149.0.7827.201\""));
    assert!(text.contains("\\\"q\\\" \\\\ \\n\\t\\u0001\u{7f} é"));

    // No feed, never checked, nothing new.
    let none = rebuild_state(&None, None, "0.1.0", "149.0.6", "0.44.0", &vec![]);
    let snap = info_snapshot(&none, "0.1.0", "149.0.6", "x", "unknown", 0);
    assert_eq!(
        info_snapshot_json(&snap),
        "{\"cef\":{\"chromium\":\"x\",\"recommended\":null,\"up_to_date\":true,\"version\":\"149.0.6\"},\"checked_ago\":null,\"cyberdesk\":{\"latest\":null,\"up_to_date\":true,\"version\":\"0.1.0\"},\"have_feed\":false,\"items\":[],\"tor\":{\"recommended\":null,\"up_to_date\":true,\"version\":\"unknown\"}}"
    );
}
