//! Fingerprinting-hardening configuration model: the Off / Standard / Strict /
//! Custom preset levels, the per-vector flags, resolution of an effective
//! per-window config, the weaken/strengthen classification the safety gate
//! keys on, and the compact JSON the render process reads.
//!
//! Persisted configs that predate a vector read it as ON, and a config that
//! cannot be read at all resolves to Standard: protection is never silently
//! lowered.

use vstd::prelude::*;
use crate::json::{bool_text, push_bool, value_get, value_get_exec, JsonValue};
use crate::text::text_eq;
use crate::update_state::contains_text;

verus! {

/// A hardening preset level. `Custom` carries per-vector flags.
#[derive(Clone, Copy, PartialEq, Eq, Debug, Structural)]
pub enum Level {
    Off,
    Standard,
    Strict,
    Custom,
}

/// The text naming a level.
pub open spec fn level_text(l: Level) -> Seq<char> {
    match l {
        Level::Off => "off"@,
        Level::Standard => "standard"@,
        Level::Strict => "strict"@,
        Level::Custom => "custom"@,
    }
}

/// The level a text names, if any.
pub open spec fn level_from_text(s: Seq<char>) -> Option<Level> {
    if s == "off"@ {
        Some(Level::Off)
    } else if s == "standard"@ {
        Some(Level::Standard)
    } else if s == "strict"@ {
        Some(Level::Strict)
    } else if s == "custom"@ {
        Some(Level::Custom)
    } else {
        None
    }
}

impl Level {
    pub fn parse(s: &str) -> (r: Option<Level>)
        ensures
            r == level_from_text(s@),
    {
        if text_eq(s, "off") {
            Some(Level::Off)
        } else if text_eq(s, "standard") {
            Some(Level::Standard)
        } else if text_eq(s, "strict") {
            Some(Level::Strict)
        } else if text_eq(s, "custom") {
            Some(Level::Custom)
        } else {
            None
        }
    }

    pub fn as_str(self) -> (r: &'static str)
        ensures
            r@ == level_text(self),
    {
        match self {
            Level::Off => "off",
            Level::Standard => "standard",
            Level::Strict => "strict",
            Level::Custom => "custom",
        }
    }
}

/// Every level's text parses back to that level.
pub proof fn lemma_level_text_round_trip(l: Level)
    ensures
        level_from_text(level_text(l)) == Some(l),
{
    reveal_strlit("off");
    reveal_strlit("standard");
    reveal_strlit("strict");
    reveal_strlit("custom");
    assert("off"@.len() == 3 && "standard"@.len() == 8);
    assert("strict"@[0] == 's' && "custom"@[0] == 'c');
}

/// The resolved, per-window effective hardening config. `on` gates injection
/// entirely; the vector flags gate the matching hardening scripts; `strict`
/// tightens the entropy-reduction buckets. Field names match the JSON keys.
#[derive(Clone, Copy, PartialEq, Eq, Debug, Structural)]
pub struct Config {
    pub on: bool,
    pub strict: bool,
    /// Canvas 2D / offscreen readback farbling.
    pub canvas: bool,
    /// WebGL readback farbling.
    pub webgl: bool,
    /// GPU identity: vendor/renderer clamp, WebGPU adapter neutralized.
    pub gpu: bool,
    /// AudioContext readback farbling.
    pub audio: bool,
    /// Client rects + text-metrics farbling.
    pub metrics: bool,
    /// Device profile buckets.
    pub nav: bool,
    /// Standard font set.
    pub fonts: bool,
    /// Clock precision.
    pub timing: bool,
    /// Media profile.
    pub media: bool,
    /// Math normalization.
    pub math: bool,
}

/// The individually settable vector keys, in the canonical (serialization)
/// order.
pub const VECTOR_KEYS: [&'static str; 10] = [
    "canvas",
    "webgl",
    "gpu",
    "audio",
    "metrics",
    "nav",
    "fonts",
    "timing",
    "media",
    "math",
];

/// The vector flags in [`VECTOR_KEYS`] order.
pub open spec fn flags(c: Config) -> Seq<bool> {
    Seq::new(10, |j: int| flag_at(c, j))
}

/// The vector flag at position `j` of [`VECTOR_KEYS`].
pub open spec fn flag_at(c: Config, j: int) -> bool {
    if j == 0 {
        c.canvas
    } else if j == 1 {
        c.webgl
    } else if j == 2 {
        c.gpu
    } else if j == 3 {
        c.audio
    } else if j == 4 {
        c.metrics
    } else if j == 5 {
        c.nav
    } else if j == 6 {
        c.fonts
    } else if j == 7 {
        c.timing
    } else if j == 8 {
        c.media
    } else {
        c.math
    }
}

/// Some vector flag is set.
pub open spec fn any_flag(c: Config) -> bool {
    c.canvas || c.webgl || c.gpu || c.audio || c.metrics || c.nav || c.fonts || c.timing
        || c.media || c.math
}

/// The position of a vector key in [`VECTOR_KEYS`].
pub open spec fn key_index(s: Seq<char>) -> Option<int> {
    if s == "canvas"@ {
        Some(0)
    } else if s == "webgl"@ {
        Some(1)
    } else if s == "gpu"@ {
        Some(2)
    } else if s == "audio"@ {
        Some(3)
    } else if s == "metrics"@ {
        Some(4)
    } else if s == "nav"@ {
        Some(5)
    } else if s == "fonts"@ {
        Some(6)
    } else if s == "timing"@ {
        Some(7)
    } else if s == "media"@ {
        Some(8)
    } else if s == "math"@ {
        Some(9)
    } else {
        None
    }
}

/// All vectors, moderate buckets: the fail-safe default everywhere.
pub open spec fn standard_config() -> Config {
    Config {
        on: true,
        strict: false,
        canvas: true,
        webgl: true,
        gpu: true,
        audio: true,
        metrics: true,
        nav: true,
        fonts: true,
        timing: true,
        media: true,
        math: true,
    }
}

/// All vectors plus the tighter entropy buckets.
pub open spec fn strict_config() -> Config {
    Config { strict: true, ..standard_config() }
}

/// No injection at all.
pub open spec fn off_config() -> Config {
    Config {
        on: false,
        strict: false,
        canvas: false,
        webgl: false,
        gpu: false,
        audio: false,
        metrics: false,
        nav: false,
        fonts: false,
        timing: false,
        media: false,
        math: false,
    }
}

/// A custom config is Standard-strength (never strict) with the chosen
/// vectors; `on` follows whether any vector survives.
pub open spec fn as_custom(c: Config) -> Config {
    Config { on: any_flag(c), strict: false, ..c }
}

/// The effective config of a level.
pub open spec fn resolve_spec(level: Level, custom: Config) -> Config {
    match level {
        Level::Off => off_config(),
        Level::Standard => standard_config(),
        Level::Strict => strict_config(),
        Level::Custom => as_custom(custom),
    }
}

/// Moving from `c` to `t` removes protection: hardening turned off, or some
/// vector switched off.
pub open spec fn weakens(c: Config, t: Config) -> bool {
    ||| c.on && !t.on
    ||| exists|i: int| 0 <= i < 10 && #[trigger] flags(c)[i] && !flags(t)[i]
}

/// The JSON text of a boolean.
/// The compact JSON object of a config, fields in declaration order.
pub open spec fn config_json(c: Config) -> Seq<char> {
    "{\"on\":"@ + bool_text(c.on) + ",\"strict\":"@ + bool_text(c.strict) + ",\"canvas\":"@
        + bool_text(c.canvas) + ",\"webgl\":"@ + bool_text(c.webgl) + ",\"gpu\":"@ + bool_text(
        c.gpu,
    ) + ",\"audio\":"@ + bool_text(c.audio) + ",\"metrics\":"@ + bool_text(c.metrics)
        + ",\"nav\":"@ + bool_text(c.nav) + ",\"fonts\":"@ + bool_text(c.fonts) + ",\"timing\":"@
        + bool_text(c.timing) + ",\"media\":"@ + bool_text(c.media) + ",\"math\":"@ + bool_text(
        c.math,
    ) + "}"@
}

/// The fields of a persisted config as the typed JSON reader hands them
/// over. The vectors added after the first release (`gpu`, `timing`,
/// `media`, `math`) are `None` when the text does not name them; every other
/// field is required by the reader.
#[derive(Clone, Copy, Debug)]
pub struct ConfigFields {
    pub on: bool,
    pub strict: bool,
    pub canvas: bool,
    pub webgl: bool,
    pub gpu: Option<bool>,
    pub audio: bool,
    pub metrics: bool,
    pub nav: bool,
    pub fonts: bool,
    pub timing: Option<bool>,
    pub media: Option<bool>,
    pub math: Option<bool>,
}

/// A later vector: its value when named, ON when not.
pub open spec fn named_or_on(b: Option<bool>) -> bool {
    match b {
        Some(x) => x,
        None => true,
    }
}

/// The config a persisted JSON text yields, given what the typed reader made
/// of it (`None`: the text could not be read as a config): Standard when it
/// could not be read, else its fields with every unnamed later vector ON.
pub open spec fn config_from_fields(parsed: Option<ConfigFields>) -> Config {
    match parsed {
        None => standard_config(),
        Some(f) => Config {
            on: f.on,
            strict: f.strict,
            canvas: f.canvas,
            webgl: f.webgl,
            gpu: named_or_on(f.gpu),
            audio: f.audio,
            metrics: f.metrics,
            nav: f.nav,
            fonts: f.fonts,
            timing: named_or_on(f.timing),
            media: named_or_on(f.media),
            math: named_or_on(f.math),
        },
    }
}

/// The fields `to_json` writes for `c`: every key, the later vectors among
/// them.
pub open spec fn written_fields(c: Config) -> ConfigFields {
    ConfigFields {
        on: c.on,
        strict: c.strict,
        canvas: c.canvas,
        webgl: c.webgl,
        gpu: Some(c.gpu),
        audio: c.audio,
        metrics: c.metrics,
        nav: c.nav,
        fonts: c.fonts,
        timing: Some(c.timing),
        media: Some(c.media),
        math: Some(c.math),
    }
}

/// A vector flag from an IPC `vectors` object: the member's boolean, ON when
/// absent or not a boolean.
pub open spec fn vector_member(v: JsonValue, key: Seq<char>) -> bool {
    match value_get(v, key) {
        Some(JsonValue::Bool(b)) => b,
        _ => true,
    }
}

/// The custom config an IPC `vectors` object describes.
pub open spec fn config_from_vectors(v: JsonValue) -> Config {
    as_custom(
        Config {
            on: true,
            strict: false,
            canvas: vector_member(v, "canvas"@),
            webgl: vector_member(v, "webgl"@),
            gpu: vector_member(v, "gpu"@),
            audio: vector_member(v, "audio"@),
            metrics: vector_member(v, "metrics"@),
            nav: vector_member(v, "nav"@),
            fonts: vector_member(v, "fonts"@),
            timing: vector_member(v, "timing"@),
            media: vector_member(v, "media"@),
            math: vector_member(v, "math"@),
        },
    )
}

impl Config {
    /// Standard preset — all vectors, moderate buckets.
    pub fn standard() -> (r: Config)
        ensures
            r == standard_config(),
    {
        Config {
            on: true,
            strict: false,
            canvas: true,
            webgl: true,
            gpu: true,
            audio: true,
            metrics: true,
            nav: true,
            fonts: true,
            timing: true,
            media: true,
            math: true,
        }
    }

    /// Strict preset — all vectors plus the tighter entropy buckets.
    pub fn strict() -> (r: Config)
        ensures
            r == strict_config(),
    {
        Config {
            on: true,
            strict: true,
            canvas: true,
            webgl: true,
            gpu: true,
            audio: true,
            metrics: true,
            nav: true,
            fonts: true,
            timing: true,
            media: true,
            math: true,
        }
    }

    /// Off — no injection at all.
    pub fn off() -> (r: Config)
        ensures
            r == off_config(),
    {
        Config {
            on: false,
            strict: false,
            canvas: false,
            webgl: false,
            gpu: false,
            audio: false,
            metrics: false,
            nav: false,
            fonts: false,
            timing: false,
            media: false,
            math: false,
        }
    }

    /// The vector flags in [`VECTOR_KEYS`] order.
    pub fn vector_flags(&self) -> (r: [bool; 10])
        ensures
            r@ == flags(*self),
    {
        let r = [
            self.canvas,
            self.webgl,
            self.gpu,
            self.audio,
            self.metrics,
            self.nav,
            self.fonts,
            self.timing,
            self.media,
            self.math,
        ];
        assert(r@ =~= flags(*self));
        r
    }

    /// Set one vector flag by key. Returns false (and changes nothing) for an
    /// unknown key.
    pub fn set_vector(&mut self, key: &str, on: bool) -> (r: bool)
        ensures
            r == (key_index(key@) is Some),
            r ==> flags(*final(self)) == flags(*old(self)).update(key_index(key@)->0, on),
            final(self).on == old(self).on,
            final(self).strict == old(self).strict,
            !r ==> *final(self) == *old(self),
    {
        match key_position(key) {
            Some(i) => {
                self.set_flag(i, on);
                true
            },
            None => false,
        }
    }

    /// Set the vector flag at position `i` of [`VECTOR_KEYS`].
    #[verifier::rlimit(40)]
    fn set_flag(&mut self, i: usize, on: bool)
        requires
            i < 10,
        ensures
            flags(*final(self)) == flags(*old(self)).update(i as int, on),
            final(self).on == old(self).on,
            final(self).strict == old(self).strict,
    {
        let ghost before = *self;
        if i == 0 {
            self.canvas = on;
            assert(flags(*self) =~= flags(before).update(0, on));
        } else if i == 1 {
            self.webgl = on;
            assert(flags(*self) =~= flags(before).update(1, on));
        } else if i == 2 {
            self.gpu = on;
            assert(flags(*self) =~= flags(before).update(2, on));
        } else if i == 3 {
            self.audio = on;
            assert(flags(*self) =~= flags(before).update(3, on));
        } else if i == 4 {
            self.metrics = on;
            assert(flags(*self) =~= flags(before).update(4, on));
        } else if i == 5 {
            self.nav = on;
            assert(flags(*self) =~= flags(before).update(5, on));
        } else if i == 6 {
            self.fonts = on;
            assert(flags(*self) =~= flags(before).update(6, on));
        } else if i == 7 {
            self.timing = on;
            assert(flags(*self) =~= flags(before).update(7, on));
        } else if i == 8 {
            self.media = on;
            assert(flags(*self) =~= flags(before).update(8, on));
        } else {
            self.math = on;
            assert(flags(*self) =~= flags(before).update(9, on));
        }
    }

    /// Is any vector flag set?
    pub fn any_vector(&self) -> (r: bool)
        ensures
            r == any_flag(*self),
    {
        self.canvas || self.webgl || self.gpu || self.audio || self.metrics || self.nav
            || self.fonts || self.timing || self.media || self.math
    }

    /// Build a custom config from an IPC `vectors` JSON object: every key of
    /// [`VECTOR_KEYS`] present as a boolean is applied; absent keys stay ON.
    /// `on` follows whether any vector survives; custom is never `strict`.
    pub fn from_vectors_value(v: &JsonValue) -> (r: Config)
        ensures
            r == config_from_vectors(*v),
    {
        let mut cfg = Config::standard();
        let mut i: usize = 0;
        while i < 10
            invariant
                i <= 10,
                forall|j: int|
                    0 <= j < 10 ==> #[trigger] flags(cfg)[j] == if j < i {
                        vector_member(*v, VECTOR_KEYS@[j]@)
                    } else {
                        true
                    },
                cfg.on && !cfg.strict,
            decreases 10 - i,
        {
            let key = VECTOR_KEYS[i];
            proof {
                lemma_vector_keys_index(i as int);
            }
            let ghost before = cfg;
            match value_get_exec(v, key) {
                Some(JsonValue::Bool(b)) => {
                    let ok = cfg.set_vector(key, *b);
                    assert(ok);
                },
                _ => {},
            }
            assert(flags(cfg)[i as int] == vector_member(*v, VECTOR_KEYS@[i as int]@));
            i = i + 1;
        }
        proof {
            assert(flags(cfg) =~= flags(config_from_vectors(*v)));
            lemma_flags_determine(cfg, config_from_vectors(*v));
        }
        Config { on: cfg.any_vector(), strict: false, ..cfg }
    }

    /// The compact JSON the render process reads / `extra_info` carries.
    pub fn to_json(self) -> (r: String)
        ensures
            r@ == config_json(self),
    {
        let mut s = String::new();
        s.append("{\"on\":");
        push_bool(&mut s, self.on);
        s.append(",\"strict\":");
        push_bool(&mut s, self.strict);
        s.append(",\"canvas\":");
        push_bool(&mut s, self.canvas);
        s.append(",\"webgl\":");
        push_bool(&mut s, self.webgl);
        s.append(",\"gpu\":");
        push_bool(&mut s, self.gpu);
        s.append(",\"audio\":");
        push_bool(&mut s, self.audio);
        s.append(",\"metrics\":");
        push_bool(&mut s, self.metrics);
        s.append(",\"nav\":");
        push_bool(&mut s, self.nav);
        s.append(",\"fonts\":");
        push_bool(&mut s, self.fonts);
        s.append(",\"timing\":");
        push_bool(&mut s, self.timing);
        s.append(",\"media\":");
        push_bool(&mut s, self.media);
        s.append(",\"math\":");
        push_bool(&mut s, self.math);
        s.append("}");
        s
    }

    /// The config a persisted JSON text (from `extra_info` / the store)
    /// yields, given what the typed reader made of it. Fail-safe: a text that
    /// could not be read resolves to Standard, never Off; one that predates
    /// some vectors gets them ON.
    pub fn from_json(parsed: Option<ConfigFields>) -> (r: Config)
        ensures
            r == config_from_fields(parsed),
    {
        match parsed {
            None => Config::standard(),
            Some(f) => Config {
                on: f.on,
                strict: f.strict,
                canvas: f.canvas,
                webgl: f.webgl,
                gpu: on_unless_named(f.gpu),
                audio: f.audio,
                metrics: f.metrics,
                nav: f.nav,
                fonts: f.fonts,
                timing: on_unless_named(f.timing),
                media: on_unless_named(f.media),
                math: on_unless_named(f.math),
            },
        }
    }
}

fn on_unless_named(b: Option<bool>) -> (r: bool)
    ensures
        r == named_or_on(b),
{
    match b {
        Some(x) => x,
        None => true,
    }
}

/// The position of `key` in [`VECTOR_KEYS`].
fn key_position(key: &str) -> (r: Option<usize>)
    ensures
        match r {
            Some(i) => i < 10 && key_index(key@) == Some(i as int),
            None => key_index(key@) is None,
        },
{
    if text_eq(key, "canvas") {
        Some(0)
    } else if text_eq(key, "webgl") {
        Some(1)
    } else if text_eq(key, "gpu") {
        Some(2)
    } else if text_eq(key, "audio") {
        Some(3)
    } else if text_eq(key, "metrics") {
        Some(4)
    } else if text_eq(key, "nav") {
        Some(5)
    } else if text_eq(key, "fonts") {
        Some(6)
    } else if text_eq(key, "timing") {
        Some(7)
    } else if text_eq(key, "media") {
        Some(8)
    } else if text_eq(key, "math") {
        Some(9)
    } else {
        None
    }
}

/// The Standard config as a JSON literal (the fail-safe fallback / render
/// default); equal to the JSON of [`Config::standard()`].
pub const STANDARD_JSON: &'static str = "{\"on\":true,\"strict\":false,\"canvas\":true,\"webgl\":true,\"gpu\":true,\"audio\":true,\"metrics\":true,\"nav\":true,\"fonts\":true,\"timing\":true,\"media\":true,\"math\":true}";

/// Resolve a level (+ the custom flags, used only when `level == Custom`) into
/// an effective [`Config`].
pub fn resolve(level: Level, custom: Config) -> (r: Config)
    ensures
        r == resolve_spec(level, custom),
{
    match level {
        Level::Off => Config::off(),
        Level::Standard => Config::standard(),
        Level::Strict => Config::strict(),
        Level::Custom => Config { on: custom.any_vector(), strict: false, ..custom },
    }
}

/// Is moving from `current` to `target` a weakening (any vector protection
/// removed, or hardening turned off)? Loosening `strict` is not one.
pub fn is_weakening(current: &Config, target: &Config) -> (r: bool)
    ensures
        r == weakens(*current, *target),
{
    if current.on && !target.on {
        return true;
    }
    let cur = current.vector_flags();
    let tgt = target.vector_flags();
    let mut i: usize = 0;
    while i < 10
        invariant
            i <= 10,
            cur@ == flags(*current),
            tgt@ == flags(*target),
            forall|j: int| 0 <= j < i ==> !(cur@[j] && !tgt@[j]),
        decreases 10 - i,
    {
        if cur[i] && !tgt[i] {
            assert(flags(*current)[i as int] && !flags(*target)[i as int]);
            return true;
        }
        i = i + 1;
    }
    assert(forall|j: int| 0 <= j < 10 ==> !(#[trigger] flags(*current)[j] && !flags(*target)[j]));
    false
}

/// The key at position `i` of [`VECTOR_KEYS`] is the key of position `i`.
pub proof fn lemma_vector_keys_index(i: int)
    requires
        0 <= i < 10,
    ensures
        key_index(VECTOR_KEYS@[i]@) == Some(i),
{
    reveal_strlit("canvas");
    reveal_strlit("webgl");
    reveal_strlit("gpu");
    reveal_strlit("audio");
    reveal_strlit("metrics");
    reveal_strlit("nav");
    reveal_strlit("fonts");
    reveal_strlit("timing");
    reveal_strlit("media");
    reveal_strlit("math");
    assert(VECTOR_KEYS@[0]@ == "canvas"@);
    assert(VECTOR_KEYS@[1]@ == "webgl"@);
    assert(VECTOR_KEYS@[2]@ == "gpu"@);
    assert(VECTOR_KEYS@[3]@ == "audio"@);
    assert(VECTOR_KEYS@[4]@ == "metrics"@);
    assert(VECTOR_KEYS@[5]@ == "nav"@);
    assert(VECTOR_KEYS@[6]@ == "fonts"@);
    assert(VECTOR_KEYS@[7]@ == "timing"@);
    assert(VECTOR_KEYS@[8]@ == "media"@);
    assert(VECTOR_KEYS@[9]@ == "math"@);
    assert("canvas"@.len() == 6 && "canvas"@[0] == 'c');
    assert("webgl"@.len() == 5 && "webgl"@[0] == 'w');
    assert("gpu"@.len() == 3 && "gpu"@[0] == 'g');
    assert("audio"@.len() == 5 && "audio"@[0] == 'a');
    assert("metrics"@.len() == 7 && "metrics"@[0] == 'm');
    assert("nav"@.len() == 3 && "nav"@[0] == 'n');
    assert("fonts"@.len() == 5 && "fonts"@[0] == 'f');
    assert("timing"@.len() == 6 && "timing"@[0] == 't');
    assert("media"@.len() == 5 && "media"@[0] == 'm');
    assert("math"@.len() == 4 && "math"@[0] == 'm');
}

/// Two configs with the same vector flags agree on every vector field.
proof fn lemma_flags_determine(a: Config, b: Config)
    requires
        flags(a) == flags(b),
    ensures
        a.canvas == b.canvas,
        a.webgl == b.webgl,
        a.gpu == b.gpu,
        a.audio == b.audio,
        a.metrics == b.metrics,
        a.nav == b.nav,
        a.fonts == b.fonts,
        a.timing == b.timing,
        a.media == b.media,
        a.math == b.math,
{
    assert(flag_at(a, 0) == flags(a)[0]);
    assert(flag_at(a, 1) == flags(a)[1]);
    assert(flag_at(a, 2) == flags(a)[2]);
    assert(flag_at(a, 3) == flags(a)[3]);
    assert(flag_at(a, 4) == flags(a)[4]);
    assert(flag_at(a, 5) == flags(a)[5]);
    assert(flag_at(a, 6) == flags(a)[6]);
    assert(flag_at(a, 7) == flags(a)[7]);
    assert(flag_at(a, 8) == flags(a)[8]);
    assert(flag_at(a, 9) == flags(a)[9]);
    assert(flag_at(b, 0) == flags(b)[0]);
    assert(flag_at(b, 1) == flags(b)[1]);
    assert(flag_at(b, 2) == flags(b)[2]);
    assert(flag_at(b, 3) == flags(b)[3]);
    assert(flag_at(b, 4) == flags(b)[4]);
    assert(flag_at(b, 5) == flags(b)[5]);
    assert(flag_at(b, 6) == flags(b)[6]);
    assert(flag_at(b, 7) == flags(b)[7]);
    assert(flag_at(b, 8) == flags(b)[8]);
    assert(flag_at(b, 9) == flags(b)[9]);
}

/// Resolution of the preset levels: Off injects nothing, Standard is the
/// fail-safe preset whatever the custom flags, Strict keeps every vector and
/// tightens the buckets, and Custom is never strict, keeps the chosen vectors
/// and is on exactly when some vector survives.
pub proof fn law_resolve_levels(custom: Config)
    ensures
        !resolve_spec(Level::Off, custom).on,
        !any_flag(resolve_spec(Level::Off, custom)),
        resolve_spec(Level::Standard, custom) == standard_config(),
        resolve_spec(Level::Strict, custom).on && resolve_spec(Level::Strict, custom).strict,
        flags(resolve_spec(Level::Strict, custom)) == flags(standard_config()),
        !resolve_spec(Level::Custom, custom).strict,
        resolve_spec(Level::Custom, custom).on == any_flag(custom),
        flags(resolve_spec(Level::Custom, custom)) == flags(custom),
{
    assert(flags(resolve_spec(Level::Strict, custom)) =~= flags(standard_config()));
    assert(flags(resolve_spec(Level::Custom, custom)) =~= flags(custom));
}

/// "Not a weakening" is a preorder: staying put never weakens, and two steps
/// that do not weaken compose into one that does not.
pub proof fn law_weakening_preorder(a: Config, b: Config, c: Config)
    ensures
        !weakens(a, a),
        !weakens(a, b) && !weakens(b, c) ==> !weakens(a, c),
{
    if !weakens(a, b) && !weakens(b, c) {
        assert forall|i: int| 0 <= i < 10 && #[trigger] flags(a)[i] implies flags(c)[i] by {
            assert(!(flags(a)[i] && !flags(b)[i]));
            assert(!(flags(b)[i] && !flags(c)[i]));
        }
    }
}

/// Switching off any single vector that was on is a weakening; switching it
/// back on is not.
pub proof fn law_dropping_a_vector_weakens(c: Config, d: Config, i: int)
    requires
        0 <= i < 10,
        flags(c)[i],
        flags(d) == flags(c).update(i, false),
        d.on == c.on,
    ensures
        weakens(c, d),
        !weakens(d, c),
{
    assert(flags(c)[i] && !flags(d)[i]);
    assert forall|j: int| 0 <= j < 10 && #[trigger] flags(d)[j] implies flags(c)[j] by {
        if j != i {
            assert(flags(d)[j] == flags(c)[j]);
        }
    }
}

/// Between the presets: Standard and Strict never weaken each other, and
/// leaving Off never weakens.
pub proof fn law_preset_transitions(t: Config)
    ensures
        !weakens(standard_config(), strict_config()),
        !weakens(strict_config(), standard_config()),
        !weakens(off_config(), t),
        weakens(standard_config(), off_config()),
{
    assert(flags(strict_config()) =~= flags(standard_config()));
    assert(flag_at(standard_config(), 0) && !flag_at(off_config(), 0));
    assert(flags(standard_config())[0] && !flags(off_config())[0]);
}

/// The Standard preset serializes to the fail-safe literal.
pub proof fn law_standard_json_literal()
    ensures
        config_json(standard_config()) == STANDARD_JSON@,
{
    reveal_strlit("{\"on\":");
    reveal_strlit(",\"strict\":");
    reveal_strlit(",\"canvas\":");
    reveal_strlit(",\"webgl\":");
    reveal_strlit(",\"gpu\":");
    reveal_strlit(",\"audio\":");
    reveal_strlit(",\"metrics\":");
    reveal_strlit(",\"nav\":");
    reveal_strlit(",\"fonts\":");
    reveal_strlit(",\"timing\":");
    reveal_strlit(",\"media\":");
    reveal_strlit(",\"math\":");
    reveal_strlit("}");
    reveal_strlit("true");
    reveal_strlit("false");
    reveal_strlit("{\"on\":true,\"strict\":false,\"canvas\":true,\"webgl\":true,\"gpu\":true,\"audio\":true,\"metrics\":true,\"nav\":true,\"fonts\":true,\"timing\":true,\"media\":true,\"math\":true}");
    assert(config_json(standard_config()) =~= STANDARD_JSON@);
}

/// Fail-safe reading: a config text that could not be read resolves to
/// Standard, which is protected.
pub proof fn law_unreadable_config_is_standard()
    ensures
        config_from_fields(None) == standard_config(),
        config_from_fields(None).on,
        !weakens(standard_config(), config_from_fields(None)),
{
}

/// Upgrade never weakens: a persisted config that does not name `gpu`,
/// `timing`, `media` or `math` reads it as ON, and the fields it names are
/// read as written.
pub proof fn law_missing_vectors_read_on(f: ConfigFields)
    ensures
        f.gpu is None ==> config_from_fields(Some(f)).gpu,
        f.timing is None ==> config_from_fields(Some(f)).timing,
        f.media is None ==> config_from_fields(Some(f)).media,
        f.math is None ==> config_from_fields(Some(f)).math,
        config_from_fields(Some(f)).on == f.on,
        config_from_fields(Some(f)).strict == f.strict,
        config_from_fields(Some(f)).canvas == f.canvas,
        config_from_fields(Some(f)).webgl == f.webgl,
        config_from_fields(Some(f)).audio == f.audio,
        config_from_fields(Some(f)).metrics == f.metrics,
        config_from_fields(Some(f)).nav == f.nav,
        config_from_fields(Some(f)).fonts == f.fonts,
{
}

/// Reading back the fields that `to_json` writes for a config gives that
/// config: the defaults for unnamed vectors never override a written value.
pub proof fn law_written_fields_read_back(c: Config)
    ensures
        config_from_fields(Some(written_fields(c))) == c,
{
}

/// An IPC `vectors` object is fail-protected: an absent key stays ON, the
/// result is never strict, and it is on exactly when a vector survives.
pub proof fn law_vectors_fail_protected(v: JsonValue, i: int)
    requires
        0 <= i < 10,
        value_get(v, VECTOR_KEYS@[i]@) is None,
    ensures
        flags(config_from_vectors(v))[i],
        !config_from_vectors(v).strict,
        config_from_vectors(v).on == any_flag(config_from_vectors(v)),
{
    lemma_vector_keys_index(i);
    reveal_strlit("canvas");
    reveal_strlit("webgl");
    reveal_strlit("gpu");
    reveal_strlit("audio");
    reveal_strlit("metrics");
    reveal_strlit("nav");
    reveal_strlit("fonts");
    reveal_strlit("timing");
    reveal_strlit("media");
    reveal_strlit("math");
}

proof fn lemma_whole(m: Seq<char>)
    ensures
        contains_text(m, m),
{
    let i: int = 0;
    assert(m.subrange(i, i + m.len()) =~= m);
}

proof fn lemma_tail(x: Seq<char>, k: Seq<char>, v: Seq<char>)
    ensures
        contains_text(x + k + v, k + v),
{
    let i: int = x.len() as int;
    assert((x + k + v).subrange(i, i + (k + v).len()) =~= k + v);
}

proof fn lemma_extend(s: Seq<char>, m: Seq<char>, t: Seq<char>)
    requires
        contains_text(s, m),
    ensures
        contains_text(s + t, m),
{
    let i = choose|i: int| 0 <= i <= s.len() - m.len() && #[trigger] s.subrange(i, i + m.len()) == m;
    assert((s + t).subrange(i, i + m.len()) =~= s.subrange(i, i + m.len()));
}

/// Each key of the config JSON carries its own field: the text holds every
/// key followed by that field's value, whatever the config.
pub proof fn law_config_json_keys(c: Config)
    ensures
        contains_text(config_json(c), "{\"on\":"@ + bool_text(c.on)),
        contains_text(config_json(c), ",\"strict\":"@ + bool_text(c.strict)),
        contains_text(config_json(c), ",\"canvas\":"@ + bool_text(c.canvas)),
        contains_text(config_json(c), ",\"webgl\":"@ + bool_text(c.webgl)),
        contains_text(config_json(c), ",\"gpu\":"@ + bool_text(c.gpu)),
        contains_text(config_json(c), ",\"audio\":"@ + bool_text(c.audio)),
        contains_text(config_json(c), ",\"metrics\":"@ + bool_text(c.metrics)),
        contains_text(config_json(c), ",\"nav\":"@ + bool_text(c.nav)),
        contains_text(config_json(c), ",\"fonts\":"@ + bool_text(c.fonts)),
        contains_text(config_json(c), ",\"timing\":"@ + bool_text(c.timing)),
        contains_text(config_json(c), ",\"media\":"@ + bool_text(c.media)),
        contains_text(config_json(c), ",\"math\":"@ + bool_text(c.math)),
{
    let p0 = "{\"on\":"@;
    let p1 = bool_text(c.on);
    let p2 = ",\"strict\":"@;
    let p3 = bool_text(c.strict);
    let p4 = ",\"canvas\":"@;
    let p5 = bool_text(c.canvas);
    let p6 = ",\"webgl\":"@;
    let p7 = bool_text(c.webgl);
    let p8 = ",\"gpu\":"@;
    let p9 = bool_text(c.gpu);
    let p10 = ",\"audio\":"@;
    let p11 = bool_text(c.audio);
    let p12 = ",\"metrics\":"@;
    let p13 = bool_text(c.metrics);
    let p14 = ",\"nav\":"@;
    let p15 = bool_text(c.nav);
    let p16 = ",\"fonts\":"@;
    let p17 = bool_text(c.fonts);
    let p18 = ",\"timing\":"@;
    let p19 = bool_text(c.timing);
    let p20 = ",\"media\":"@;
    let p21 = bool_text(c.media);
    let p22 = ",\"math\":"@;
    let p23 = bool_text(c.math);
    let p24 = "}"@;
    let s0 = p0;
    let s1 = s0 + p1;
    let s2 = s1 + p2;
    let s3 = s2 + p3;
    let s4 = s3 + p4;
    let s5 = s4 + p5;
    let s6 = s5 + p6;
    let s7 = s6 + p7;
    let s8 = s7 + p8;
    let s9 = s8 + p9;
    let s10 = s9 + p10;
    let s11 = s10 + p11;
    let s12 = s11 + p12;
    let s13 = s12 + p13;
    let s14 = s13 + p14;
    let s15 = s14 + p15;
    let s16 = s15 + p16;
    let s17 = s16 + p17;
    let s18 = s17 + p18;
    let s19 = s18 + p19;
    let s20 = s19 + p20;
    let s21 = s20 + p21;
    let s22 = s21 + p22;
    let s23 = s22 + p23;
    let s24 = s23 + p24;
    assert(config_json(c) == s24);
    lemma_whole(p0 + p1);
    lemma_extend(s1, p0 + p1, p2);
    lemma_extend(s2, p0 + p1, p3);
    lemma_extend(s3, p0 + p1, p4);
    lemma_extend(s4, p0 + p1, p5);
    lemma_extend(s5, p0 + p1, p6);
    lemma_extend(s6, p0 + p1, p7);
    lemma_extend(s7, p0 + p1, p8);
    lemma_extend(s8, p0 + p1, p9);
    lemma_extend(s9, p0 + p1, p10);
    lemma_extend(s10, p0 + p1, p11);
    lemma_extend(s11, p0 + p1, p12);
    lemma_extend(s12, p0 + p1, p13);
    lemma_extend(s13, p0 + p1, p14);
    lemma_extend(s14, p0 + p1, p15);
    lemma_extend(s15, p0 + p1, p16);
    lemma_extend(s16, p0 + p1, p17);
    lemma_extend(s17, p0 + p1, p18);
    lemma_extend(s18, p0 + p1, p19);
    lemma_extend(s19, p0 + p1, p20);
    lemma_extend(s20, p0 + p1, p21);
    lemma_extend(s21, p0 + p1, p22);
    lemma_extend(s22, p0 + p1, p23);
    lemma_extend(s23, p0 + p1, p24);
    lemma_tail(s1, p2, p3);
    lemma_extend(s3, p2 + p3, p4);
    lemma_extend(s4, p2 + p3, p5);
    lemma_extend(s5, p2 + p3, p6);
    lemma_extend(s6, p2 + p3, p7);
    lemma_extend(s7, p2 + p3, p8);
    lemma_extend(s8, p2 + p3, p9);
    lemma_extend(s9, p2 + p3, p10);
    lemma_extend(s10, p2 + p3, p11);
    lemma_extend(s11, p2 + p3, p12);
    lemma_extend(s12, p2 + p3, p13);
    lemma_extend(s13, p2 + p3, p14);
    lemma_extend(s14, p2 + p3, p15);
    lemma_extend(s15, p2 + p3, p16);
    lemma_extend(s16, p2 + p3, p17);
    lemma_extend(s17, p2 + p3, p18);
    lemma_extend(s18, p2 + p3, p19);
    lemma_extend(s19, p2 + p3, p20);
    lemma_extend(s20, p2 + p3, p21);
    lemma_extend(s21, p2 + p3, p22);
    lemma_extend(s22, p2 + p3, p23);
    lemma_extend(s23, p2 + p3, p24);
    lemma_tail(s3, p4, p5);
    lemma_extend(s5, p4 + p5, p6);
    lemma_extend(s6, p4 + p5, p7);
    lemma_extend(s7, p4 + p5, p8);
    lemma_extend(s8, p4 + p5, p9);
    lemma_extend(s9, p4 + p5, p10);
    lemma_extend(s10, p4 + p5, p11);
    lemma_extend(s11, p4 + p5, p12);
    lemma_extend(s12, p4 + p5, p13);
    lemma_extend(s13, p4 + p5, p14);
    lemma_extend(s14, p4 + p5, p15);
    lemma_extend(s15, p4 + p5, p16);
    lemma_extend(s16, p4 + p5, p17);
    lemma_extend(s17, p4 + p5, p18);
    lemma_extend(s18, p4 + p5, p19);
    lemma_extend(s19, p4 + p5, p20);
    lemma_extend(s20, p4 + p5, p21);
    lemma_extend(s21, p4 + p5, p22);
    lemma_extend(s22, p4 + p5, p23);
    lemma_extend(s23, p4 + p5, p24);
    lemma_tail(s5, p6, p7);
    lemma_extend(s7, p6 + p7, p8);
    lemma_extend(s8, p6 + p7, p9);
    lemma_extend(s9, p6 + p7, p10);
    lemma_extend(s10, p6 + p7, p11);
    lemma_extend(s11, p6 + p7, p12);
    lemma_extend(s12, p6 + p7, p13);
    lemma_extend(s13, p6 + p7, p14);
    lemma_extend(s14, p6 + p7, p15);
    lemma_extend(s15, p6 + p7, p16);
    lemma_extend(s16, p6 + p7, p17);
    lemma_extend(s17, p6 + p7, p18);
    lemma_extend(s18, p6 + p7, p19);
    lemma_extend(s19, p6 + p7, p20);
    lemma_extend(s20, p6 + p7, p21);
    lemma_extend(s21, p6 + p7, p22);
    lemma_extend(s22, p6 + p7, p23);
    lemma_extend(s23, p6 + p7, p24);
    lemma_tail(s7, p8, p9);
    lemma_extend(s9, p8 + p9, p10);
    lemma_extend(s10, p8 + p9, p11);
    lemma_extend(s11, p8 + p9, p12);
    lemma_extend(s12, p8 + p9, p13);
    lemma_extend(s13, p8 + p9, p14);
    lemma_extend(s14, p8 + p9, p15);
    lemma_extend(s15, p8 + p9, p16);
    lemma_extend(s16, p8 + p9, p17);
    lemma_extend(s17, p8 + p9, p18);
    lemma_extend(s18, p8 + p9, p19);
    lemma_extend(s19, p8 + p9, p20);
    lemma_extend(s20, p8 + p9, p21);
    lemma_extend(s21, p8 + p9, p22);
    lemma_extend(s22, p8 + p9, p23);
    lemma_extend(s23, p8 + p9, p24);
    lemma_tail(s9, p10, p11);
    lemma_extend(s11, p10 + p11, p12);
    lemma_extend(s12, p10 + p11, p13);
    lemma_extend(s13, p10 + p11, p14);
    lemma_extend(s14, p10 + p11, p15);
    lemma_extend(s15, p10 + p11, p16);
    lemma_extend(s16, p10 + p11, p17);
    lemma_extend(s17, p10 + p11, p18);
    lemma_extend(s18, p10 + p11, p19);
    lemma_extend(s19, p10 + p11, p20);
    lemma_extend(s20, p10 + p11, p21);
    lemma_extend(s21, p10 + p11, p22);
    lemma_extend(s22, p10 + p11, p23);
    lemma_extend(s23, p10 + p11, p24);
    lemma_tail(s11, p12, p13);
    lemma_extend(s13, p12 + p13, p14);
    lemma_extend(s14, p12 + p13, p15);
    lemma_extend(s15, p12 + p13, p16);
    lemma_extend(s16, p12 + p13, p17);
    lemma_extend(s17, p12 + p13, p18);
    lemma_extend(s18, p12 + p13, p19);
    lemma_extend(s19, p12 + p13, p20);
    lemma_extend(s20, p12 + p13, p21);
    lemma_extend(s21, p12 + p13, p22);
    lemma_extend(s22, p12 + p13, p23);
    lemma_extend(s23, p12 + p13, p24);
    lemma_tail(s13, p14, p15);
    lemma_extend(s15, p14 + p15, p16);
    lemma_extend(s16, p14 + p15, p17);
    lemma_extend(s17, p14 + p15, p18);
    lemma_extend(s18, p14 + p15, p19);
    lemma_extend(s19, p14 + p15, p20);
    lemma_extend(s20, p14 + p15, p21);
    lemma_extend(s21, p14 + p15, p22);
    lemma_extend(s22, p14 + p15, p23);
    lemma_extend(s23, p14 + p15, p24);
    lemma_tail(s15, p16, p17);
    lemma_extend(s17, p16 + p17, p18);
    lemma_extend(s18, p16 + p17, p19);
    lemma_extend(s19, p16 + p17, p20);
    lemma_extend(s20, p16 + p17, p21);
    lemma_extend(s21, p16 + p17, p22);
    lemma_extend(s22, p16 + p17, p23);
    lemma_extend(s23, p16 + p17, p24);
    lemma_tail(s17, p18, p19);
    lemma_extend(s19, p18 + p19, p20);
    lemma_extend(s20, p18 + p19, p21);
    lemma_extend(s21, p18 + p19, p22);
    lemma_extend(s22, p18 + p19, p23);
    lemma_extend(s23, p18 + p19, p24);
    lemma_tail(s19, p20, p21);
    lemma_extend(s21, p20 + p21, p22);
    lemma_extend(s22, p20 + p21, p23);
    lemma_extend(s23, p20 + p21, p24);
    lemma_tail(s21, p22, p23);
    lemma_extend(s23, p22 + p23, p24);
}

} // verus!
