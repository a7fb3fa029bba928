use cyberdesk::harden::{is_weakening, resolve, Config, ConfigFields, Level, STANDARD_JSON, VECTOR_KEYS};
use cyberdesk::json::JsonValue;

fn bools(members: &[(&str, bool)]) -> JsonValue {
    JsonValue::Object(
        members
            .iter()
            .map(|(k, b)| (k.to_string(), JsonValue::Bool(*b)))
            .collect(),
    )
}

/// The fields the typed reader hands over for a text naming every key with
/// the values of `c`.
fn written(c: Config) -> ConfigFields {
    ConfigFields {
        on: c.on,
        strict: c.strict,
        canvas: c.canvas,
        webgl: c.webgl,
        gpu: Some(c.gpu),
        audio: c.audio,
        metrics: c.metrics,
        nav: c.nav,
        fonts: c.fonts,
        timing: Some(c.timing),
        media: Some(c.media),
        math: Some(c.math),
    }
}

#[test]
fn standard_resolve_matches_failsafe_literal() {
    assert_eq!(Config::standard().to_json(), STANDARD_JSON);
    assert_eq!(resolve(Level::Standard, Config::off()).to_json(), STANDARD_JSON);
    assert!(resolve(Level::Standard, Config::off()).on);
    assert!(!resolve(Level::Standard, Config::off()).strict);
}

#[test]
fn off_resolves_to_no_injection() {
    assert!(!resolve(Level::Off, Config::standard()).on);
    assert!(!resolve(Level::Off, Config::standard()).any_vector());
}

#[test]
fn strict_tightens_buckets() {
    let s = resolve(Level::Strict, Config::off());
    assert!(s.on && s.strict && s.any_vector());
}

#[test]
fn custom_is_standard_strength_with_chosen_vectors() {
    let custom = Config { canvas: false, ..Config::standard() };
    let r = resolve(Level::Custom, custom);
    assert!(r.on);
    assert!(!r.strict);
    assert!(!r.canvas && r.webgl);
}

#[test]
fn custom_all_off_is_effectively_off() {
    let r = resolve(Level::Custom, Config::off());
    assert!(!r.on);
}

#[test]
fn weakening_classification_covers_every_vector() {
    assert!(is_weakening(&Config::standard(), &Config::off()));
    for key in VECTOR_KEYS {
        let mut dropped = Config::standard();
        assert!(dropped.set_vector(key, false), "unknown key {key}");
        assert!(is_weakening(&Config::standard(), &dropped), "{key} off must weaken");
        assert!(!is_weakening(&dropped, &Config::standard()), "{key} on must not weaken");
    }
    assert!(!is_weakening(&Config::standard(), &Config::strict()));
    assert!(!is_weakening(&Config::strict(), &Config::standard()));
    assert!(!is_weakening(&Config::off(), &Config::standard()));
}

#[test]
fn from_json_failsafe_is_standard() {
    // "garbage" is not a config: the reader hands over nothing.
    assert_eq!(Config::from_json(None), Config::standard());
    // STANDARD_JSON names every key.
    assert_eq!(Config::from_json(Some(written(Config::standard()))), Config::standard());
}

#[test]
fn cd25_era_json_upgrades_with_new_vectors_on() {
    // {"on":true,"strict":false,"canvas":false,"webgl":true,"audio":true,"metrics":true,"nav":true,"fonts":true}
    let old = ConfigFields {
        on: true,
        strict: false,
        canvas: false,
        webgl: true,
        gpu: None,
        audio: true,
        metrics: true,
        nav: true,
        fonts: true,
        timing: None,
        media: None,
        math: None,
    };
    let cfg = Config::from_json(Some(old));
    assert!(!cfg.canvas && cfg.webgl);
    assert!(cfg.gpu && cfg.timing && cfg.media && cfg.math, "new vectors default ON");
}

#[test]
fn vectors_value_parses_partial_objects_fail_protected() {
    let v = bools(&[("timing", false), ("gpu", false)]);
    let cfg = Config::from_vectors_value(&v);
    assert!(!cfg.timing && !cfg.gpu);
    assert!(cfg.canvas && cfg.media && cfg.math, "absent keys stay ON");
    assert!(cfg.on && !cfg.strict);
    let all_off = bools(&[
        ("canvas", false),
        ("webgl", false),
        ("gpu", false),
        ("audio", false),
        ("metrics", false),
        ("nav", false),
        ("fonts", false),
        ("timing", false),
        ("media", false),
        ("math", false),
    ]);
    assert!(!Config::from_vectors_value(&all_off).on);
}

#[test]
fn vector_keys_and_flags_stay_in_lockstep() {
    for (i, key) in VECTOR_KEYS.iter().enumerate() {
        let mut cfg = Config::standard();
        cfg.set_vector(key, false);
        let flags = cfg.vector_flags();
        assert!(!flags[i], "{key} must map to flag index {i}");
        assert_eq!(flags.iter().filter(|&&f| !f).count(), 1);
    }
    assert!(!Config::standard().clone().set_vector("bogus", false));
}

#[test]
fn level_names_round_trip() {
    for l in [Level::Off, Level::Standard, Level::Strict, Level::Custom] {
        assert_eq!(Level::parse(l.as_str()), Some(l));
    }
    assert_eq!(Level::parse("Strict"), None);
    assert_eq!(Level::parse(""), None);
    assert_eq!(Level::Standard.as_str(), "standard");
}

#[test]
fn off_config_serializes_every_flag_false() {
    assert_eq!(
        Config::off().to_json(),
        "{\"on\":false,\"strict\":false,\"canvas\":false,\"webgl\":false,\"gpu\":false,\"audio\":false,\"metrics\":false,\"nav\":false,\"fonts\":false,\"timing\":false,\"media\":false,\"math\":false}"
    );
}

#[test]
fn written_fields_read_back_as_written() {
    let mut c = Config::strict();
    c.set_vector("audio", false);
    c.set_vector("math", false);
    assert_eq!(Config::from_json(Some(written(c))), c);
    assert_eq!(Config::from_json(Some(written(Config::off()))), Config::off());
}

#[test]
fn later_vectors_named_off_stay_off() {
    let mut f = written(Config::standard());
    f.gpu = Some(false);
    f.timing = None;
    f.math = Some(false);
    let c = Config::from_json(Some(f));
    assert!(!c.gpu && c.timing && c.media && !c.math);
    assert!(c.on && !c.strict && c.canvas);
    assert!(is_weakening(&Config::standard(), &c));
}

#[test]
fn vectors_value_ignores_non_boolean_members_and_non_objects() {
    let v = JsonValue::Object(vec![
        ("canvas".to_string(), JsonValue::Null),
        ("webgl".to_string(), JsonValue::Bool(false)),
    ]);
    let cfg = Config::from_vectors_value(&v);
    assert!(cfg.canvas && !cfg.webgl && cfg.on);
    let cfg = Config::from_vectors_value(&JsonValue::Array(vec![JsonValue::Bool(false)]));
    assert_eq!(cfg, Config::standard());
}

#[test]
fn relaxing_strict_and_enabling_are_not_weakenings() {
    let mut c = Config::off();
    c.on = true;
    c.set_vector("fonts", true);
    assert!(!is_weakening(&c, &Config::standard()));
    assert!(is_weakening(&c, &Config::off()));
    assert!(!is_weakening(&c, &c));
}

#[test]
fn vectors_value_takes_the_last_of_a_repeated_member() {
    let v = JsonValue::Object(vec![
        ("gpu".to_string(), JsonValue::Bool(false)),
        ("gpu".to_string(), JsonValue::Bool(true)),
        ("audio".to_string(), JsonValue::Bool(true)),
        ("audio".to_string(), JsonValue::Bool(false)),
    ]);
    let cfg = Config::from_vectors_value(&v);
    assert!(cfg.gpu && !cfg.audio);
}
