use cyberdesk::updates::{build_items, dismissals_unique, Component, Manifest, Product, SCHEMA_SUPPORTED};
use cyberdesk::version::Version;

fn dismissed(pairs: &[(&str, &str)]) -> Vec<(String, String)> {
    pairs.iter().map(|(k, v)| (k.to_string(), v.to_string())).collect()
}

#[test]
fn version_parses_semver_and_cef_formats() {
    assert!(Version::parse("0.1.0").is_older_than(&Version::parse("0.9.0")));
    assert!(!Version::parse("0.9.0").is_older_than(&Version::parse("0.9.0")));
    assert!(!Version::parse("1.0.0").is_older_than(&Version::parse("0.9.9")));
    let cur = "149.0.6";
    let rec = "150.0.1+chromium-150.0.7900.100";
    assert!(Version::parse(cur).is_older_than(&Version::parse(rec)));
    assert!(!Version::parse("150.0.1").is_older_than(&Version::parse(rec)));
    assert!(Version::parse("150").is_older_than(&Version::parse("150.0.1")));
    assert!(!Version::parse("150.0.0").is_older_than(&Version::parse("150")));
    assert_eq!(Version::parse("v2.3.4-rc1"), Version::parse("2.3.4"));
}

fn product(latest: &str, notes_url: Option<&str>) -> Product {
    Product { latest: latest.to_string(), notes_url: notes_url.map(|u| u.to_string()) }
}

fn component(recommended: &str, reason: Option<&str>, notes_url: Option<&str>) -> Component {
    Component {
        recommended: recommended.to_string(),
        reason: reason.map(|r| r.to_string()),
        notes_url: notes_url.map(|u| u.to_string()),
    }
}

/// The manifest the feed's reader hands over for
/// `{"schema":1,"cyberdesk":{"latest":"0.9.0","notes_url":...},"components":{"cef":{...},"tor":{...}}}`.
fn good() -> Manifest {
    Manifest {
        schema: 1,
        cyberdesk: product("0.9.0", Some("https://carvilon.example/notes/0.9.0.html")),
        components: vec![
            (
                "cef".to_string(),
                component(
                    "150.0.1+chromium-150.0.7900.100",
                    Some("security"),
                    Some("https://carvilon.example/notes/cef-150.html"),
                ),
            ),
            (
                "tor".to_string(),
                component("0.45.0", Some("security"), Some("https://carvilon.example/notes/tor-0.45.html")),
            ),
        ],
    }
}

/// A higher-schema manifest as read best-effort: only the known fields, and
/// only a `cef` component.
fn future_schema() -> Manifest {
    Manifest {
        schema: 2,
        cyberdesk: product("0.9.0", Some("x")),
        components: vec![("cef".to_string(), component("150.0.1", Some("security"), None))],
    }
}

#[test]
fn good_manifest_parses_and_yields_all_items() {
    let m = good();
    assert_eq!(m.schema, 1);
    let items = build_items(&m, "0.1.0", "149.0.6", "0.44.0", &dismissed(&[]));
    assert_eq!(items.len(), 3);
    assert_eq!(items[0].id, "cyberdesk-update");
    assert_eq!(items[1].id, "cef-update");
    assert_eq!(items[1].severity, "security");
    assert!(items[1].action.is_some());
    assert_eq!(items[2].id, "tor-update");
    assert_eq!(items[2].severity, "security");
    assert!(items[2].action.is_some());
}

#[test]
fn future_schema_still_reads_known_fields() {
    let m = future_schema();
    assert!(m.schema > SCHEMA_SUPPORTED);
    let items = build_items(&m, "0.1.0", "149.0.6", "0.44.0", &dismissed(&[]));
    assert_eq!(items.len(), 2);
    assert!(items[1].action.is_none());
    assert!(!items.iter().any(|i| i.id == "tor-update"));
}

#[test]
fn up_to_date_yields_no_items() {
    let m = good();
    let items = build_items(&m, "0.9.0", "150.0.1", "0.45.0", &dismissed(&[]));
    assert!(items.is_empty());
}

#[test]
fn dismissal_hides_until_the_manifest_advances_past_it() {
    let m = good();
    let hidden = build_items(&m, "0.1.0", "149.0.6", "0.44.0", &dismissed(&[("cyberdesk-update", "0.9.0")]));
    assert!(!hidden.iter().any(|i| i.id == "cyberdesk-update"));
    let shown = build_items(&m, "0.1.0", "149.0.6", "0.44.0", &dismissed(&[("cyberdesk-update", "0.8.0")]));
    assert!(shown.iter().any(|i| i.id == "cyberdesk-update"));
}

#[test]
fn tor_component_tracked_like_cef() {
    let m = good();
    let items = build_items(&m, "0.9.0", "150.0.1", "0.44.0", &dismissed(&[]));
    let tor = items
        .iter()
        .find(|i| i.id == "tor-update")
        .expect("tor item present when arti is behind");
    assert_eq!(tor.severity, "security");
    assert_eq!(tor.target_version, "0.45.0");
    assert!(tor.action.is_some());
    let none = build_items(&m, "0.9.0", "150.0.1", "0.45.0", &dismissed(&[]));
    assert!(!none.iter().any(|i| i.id == "tor-update"));
    let hidden = build_items(&m, "0.9.0", "150.0.1", "0.44.0", &dismissed(&[("tor-update", "0.45.0")]));
    assert!(!hidden.iter().any(|i| i.id == "tor-update"));
}

#[test]
fn manifest_without_tor_component_yields_no_tor_item() {
    let m = future_schema();
    let items = build_items(&m, "0.1.0", "149.0.6", "0.44.0", &dismissed(&[]));
    assert!(!items.iter().any(|i| i.id == "tor-update"));
}

#[test]
fn each_name_once_is_checked() {
    assert!(good().has_unique_component_names());
    let mut twice = good();
    twice.components.push(("cef".to_string(), component("1.0.0", None, None)));
    assert!(!twice.has_unique_component_names());
    assert!(dismissals_unique(&dismissed(&[("cef-update", "1"), ("tor-update", "1")])));
    assert!(!dismissals_unique(&dismissed(&[("cef-update", "1"), ("x", "2"), ("cef-update", "3")])));
    assert!(dismissals_unique(&dismissed(&[])));
}
