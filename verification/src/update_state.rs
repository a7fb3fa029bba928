//! The update state shared by the info glyph and the info panel, rebuilt
//! from a manifest (live or last-known) and the running versions; the
//! panel's snapshot; the running-version texts; the honest "checked X ago";
//! and the decisions around the one outbound fetch.

use vstd::prelude::*;
use crate::text::{chars_of, decimal, push_decimal, string_from_range, text_eq, trim, trim_bounds};
use crate::updates::{
    build_items, component_get, component_items, first_value, items_spec, items_view,
    names_unique, pairs_view, product_items, InfoItem, InfoItemView, Manifest, ManifestView,
    Action,
};
use crate::version::{law_version_order, older, version_components, Version};
use crate::json::{
    bool_text, json_opt_str, json_str, opt_string_view, push_bool, push_json_opt_str,
    push_json_str,
};

verus! {

/// This CyberDesk build's version (the package version).
pub fn current_cyberdesk_version() -> (r: &'static str)
    ensures
        r@ == "0.1.0"@,
{
    "0.1.0"
}

/// The embedded Tor engine (arti-client) version: the resolved crate
/// version the build injects (`ARTI_CLIENT_VERSION`, read from the lock
/// file), or `"unknown"` when the build could not provide it.
pub fn current_tor_version(injected: Option<&str>) -> (r: String)
    ensures
        r@ == match injected {
            Some(v) => v@,
            None => "unknown"@,
        },
{
    match injected {
        Some(v) => v.to_string(),
        None => "unknown".to_string(),
    }
}

/// `major.minor.patch` of the running CEF core, from the binding's
/// compile-time version constants.
pub fn current_cef_version(major: u32, minor: u32, patch: u32) -> (r: String)
    ensures
        r@ == decimal(major as nat) + "."@ + decimal(minor as nat) + "."@ + decimal(patch as nat),
{
    let mut s = String::new();
    push_decimal(&mut s, major as u64);
    s.append(".");
    push_decimal(&mut s, minor as u64);
    s.append(".");
    push_decimal(&mut s, patch as u64);
    s
}

/// `major.minor.build.patch` of the running Chromium.
pub fn current_chromium_version(major: u32, minor: u32, build: u32, patch: u32) -> (r: String)
    ensures
        r@ == decimal(major as nat) + "."@ + decimal(minor as nat) + "."@ + decimal(build as nat)
            + "."@ + decimal(patch as nat),
{
    let mut s = String::new();
    push_decimal(&mut s, major as u64);
    s.append(".");
    push_decimal(&mut s, minor as u64);
    s.append(".");
    push_decimal(&mut s, build as u64);
    s.append(".");
    push_decimal(&mut s, patch as u64);
    s
}

/// The state the glyph and panel read.
#[derive(Debug)]
pub struct UpdateState {
    pub items: Vec<InfoItem>,
    pub have_feed: bool,
    pub last_check: Option<i64>,
    pub cyberdesk_latest: Option<String>,
    pub cef_recommended: Option<String>,
    pub tor_recommended: Option<String>,
}

/// The state rebuilt from a manifest (none when there is no feed).
pub open spec fn rebuilt_state(
    m: Option<ManifestView>,
    last_check: Option<i64>,
    cur_cd: Seq<char>,
    cur_cef: Seq<char>,
    cur_tor: Seq<char>,
    d: Seq<(Seq<char>, Seq<char>)>,
    st: UpdateState,
) -> bool {
    &&& st.last_check == last_check
    &&& match m {
        Some(m) => {
            &&& items_view(st.items@) == items_spec(m, cur_cd, cur_cef, cur_tor, d)
            &&& st.have_feed
            &&& opt_string_view(st.cyberdesk_latest) == Some(m.cyberdesk.latest)
            &&& opt_string_view(st.cef_recommended) == match first_value(m.components, "cef"@) {
                Some(c) => Some(c.recommended),
                None => None,
            }
            &&& opt_string_view(st.tor_recommended) == match first_value(m.components, "tor"@) {
                Some(c) => Some(c.recommended),
                None => None,
            }
        },
        None => {
            &&& st.items@.len() == 0
            &&& !st.have_feed
            &&& st.cyberdesk_latest is None
            &&& st.cef_recommended is None
            &&& st.tor_recommended is None
        },
    }
}

fn recommended_of(m: &Manifest, key: &str) -> (r: Option<String>)
    ensures
        opt_string_view(r) == match first_value(m@.components, key@) {
            Some(c) => Some(c.recommended),
            None => None,
        },
{
    match component_get(&m.components, key) {
        Some(c) => Some(c.recommended.clone()),
        None => None,
    }
}

/// Rebuild the shared state from a manifest and the persisted last-check
/// time: the new items and the latest / recommended versions it names.
pub fn rebuild_state(
    manifest: &Option<Manifest>,
    last_check: Option<i64>,
    cur_cd: &str,
    cur_cef: &str,
    cur_tor: &str,
    dismissed: &Vec<(String, String)>,
) -> (r: UpdateState)
    requires
        manifest matches Some(m) ==> names_unique(m@.components),
        names_unique(pairs_view(dismissed@)),
    ensures
        rebuilt_state(
            match manifest {
                Some(m) => Some(m@),
                None => None,
            },
            last_check,
            cur_cd@,
            cur_cef@,
            cur_tor@,
            pairs_view(dismissed@),
            r,
        ),
{
    match manifest {
        Some(m) => UpdateState {
            items: build_items(m, cur_cd, cur_cef, cur_tor, dismissed),
            have_feed: true,
            last_check,
            cyberdesk_latest: Some(m.cyberdesk.latest.clone()),
            cef_recommended: recommended_of(m, "cef"),
            tor_recommended: recommended_of(m, "tor"),
        },
        None => UpdateState {
            items: Vec::new(),
            have_feed: false,
            last_check,
            cyberdesk_latest: None,
            cef_recommended: None,
            tor_recommended: None,
        },
    }
}

/// The number of pending update items — drives the info glyph.
pub fn update_count(state: &UpdateState) -> (r: usize)
    ensures
        r == state.items@.len(),
{
    state.items.len()
}

/// The count the glyph shows follows the last rebuild: the number of new
/// items the manifest yields, and none without a feed.
pub proof fn law_count_follows_rebuild(
    m: Option<ManifestView>,
    last_check: Option<i64>,
    cur_cd: Seq<char>,
    cur_cef: Seq<char>,
    cur_tor: Seq<char>,
    d: Seq<(Seq<char>, Seq<char>)>,
    st: UpdateState,
)
    requires
        rebuilt_state(m, last_check, cur_cd, cur_cef, cur_tor, d, st),
    ensures
        st.items@.len() == match m {
            Some(mv) => items_spec(mv, cur_cd, cur_cef, cur_tor, d).len(),
            None => 0,
        },
{
    match m {
        Some(mv) => {
            assert(items_view(st.items@).len() == st.items@.len());
        },
        None => {},
    }
}

/// The target version of the first current item with id `id`.
pub open spec fn dismiss_target(items: Seq<InfoItemView>, id: Seq<char>) -> Option<Seq<char>>
    decreases items.len(),
{
    if items.len() == 0 {
        None
    } else if items[0].id == id {
        Some(items[0].target_version)
    } else {
        dismiss_target(items.drop_first(), id)
    }
}

/// Dismiss info item `id`: the version it is dismissed at (to persist before
/// rebuilding), or nothing when the item is not currently present.
pub fn dismiss(state: &UpdateState, id: &str) -> (r: Option<String>)
    ensures
        opt_string_view(r) == dismiss_target(items_view(state.items@), id@),
{
    let n = state.items.len();
    let mut i: usize = 0;
    assert(items_view(state.items@).skip(0) =~= items_view(state.items@));
    while i < n
        invariant
            i <= n == state.items.len(),
            dismiss_target(items_view(state.items@), id@) == dismiss_target(
                items_view(state.items@).skip(i as int),
                id@,
            ),
        decreases n - i,
    {
        assert(items_view(state.items@).skip(i as int).drop_first() =~= items_view(
            state.items@,
        ).skip(i + 1));
        if text_eq(state.items[i].id.as_str(), id) {
            return Some(state.items[i].target_version.clone());
        }
        i = i + 1;
    }
    None
}

// --- Info panel snapshot -----------------------------------------------------

/// A running component beside the version the feed names for it.
#[derive(Debug)]
pub struct ComponentStatus {
    pub version: String,
    /// The latest (product) or recommended (engine) version of the feed.
    pub offered: Option<String>,
    pub up_to_date: bool,
}

/// The `get_info_items` reply: the new items, the calm component status and
/// an honest "checked X ago".
#[derive(Debug)]
pub struct InfoSnapshot {
    pub have_feed: bool,
    pub checked_ago: Option<String>,
    pub items: Vec<InfoItem>,
    pub cyberdesk: ComponentStatus,
    pub cef: ComponentStatus,
    pub chromium: String,
    pub tor: ComponentStatus,
}

/// Up to date unless the feed offers a newer version.
pub open spec fn up_to_date(cur: Seq<char>, offered: Option<Seq<char>>) -> bool {
    match offered {
        Some(o) => !older(version_components(cur), version_components(o)),
        None => true,
    }
}

pub open spec fn status_matches(s: ComponentStatus, cur: Seq<char>, offered: Option<String>) -> bool {
    &&& s.version@ == cur
    &&& opt_string_view(s.offered) == opt_string_view(offered)
    &&& s.up_to_date == up_to_date(cur, opt_string_view(offered))
}

fn clone_opt(o: &Option<String>) -> (r: Option<String>)
    ensures
        opt_string_view(r) == opt_string_view(*o),
{
    match o {
        Some(s) => Some(s.clone()),
        None => None,
    }
}

fn status_of(cur: &str, offered: &Option<String>) -> (r: ComponentStatus)
    ensures
        status_matches(r, cur@, *offered),
{
    let up = match offered {
        Some(o) => !Version::parse(cur).is_older_than(&Version::parse(o.as_str())),
        None => true,
    };
    let mut version = String::new();
    version.append(cur);
    ComponentStatus { version, offered: clone_opt(offered), up_to_date: up }
}

fn clone_item(i: &InfoItem) -> (r: InfoItem)
    ensures
        r@ == i@,
{
    InfoItem {
        id: i.id.clone(),
        severity: i.severity.clone(),
        title: i.title.clone(),
        body: i.body.clone(),
        target_version: i.target_version.clone(),
        action: match &i.action {
            Some(a) => Some(Action { label: a.label.clone(), url: a.url.clone() }),
            None => None,
        },
    }
}

fn clone_items(items: &Vec<InfoItem>) -> (r: Vec<InfoItem>)
    ensures
        items_view(r@) == items_view(items@),
{
    let mut out: Vec<InfoItem> = Vec::new();
    let mut i: usize = 0;
    while i < items.len()
        invariant
            i <= items.len(),
            items_view(out@) == items_view(items@.take(i as int)),
        decreases items.len() - i,
    {
        let ghost before = out@;
        let c = clone_item(&items[i]);
        out.push(c);
        assert(items@.take(i + 1) =~= items@.take(i as int).push(items@[i as int]));
        assert(items_view(items@.take(i + 1)) =~= items_view(items@.take(i as int)).push(
            items@[i as int]@,
        ));
        assert(items_view(out@) =~= items_view(before).push(c@));
        i = i + 1;
    }
    assert(items@.take(items.len() as int) =~= items@);
    out
}

/// The panel snapshot built from the state and the running versions at time
/// `now`.
pub fn info_snapshot(
    st: &UpdateState,
    cur_cd: &str,
    cur_cef: &str,
    cur_chromium: &str,
    cur_tor: &str,
    now: i64,
) -> (r: InfoSnapshot)
    requires
        st.last_check matches Some(t) ==> i64::MIN <= now - t <= i64::MAX,
    ensures
        r.have_feed == st.have_feed,
        match st.last_check {
            Some(t) => (r.checked_ago matches Some(s) && s@ == relative_ago_text(now - t)),
            None => r.checked_ago is None,
        },
        items_view(r.items@) == items_view(st.items@),
        status_matches(r.cyberdesk, cur_cd@, st.cyberdesk_latest),
        status_matches(r.cef, cur_cef@, st.cef_recommended),
        r.chromium@ == cur_chromium@,
        status_matches(r.tor, cur_tor@, st.tor_recommended),
{
    let checked_ago = match st.last_check {
        Some(t) => Some(relative_ago(now - t)),
        None => None,
    };
    let mut chromium = String::new();
    chromium.append(cur_chromium);
    InfoSnapshot {
        have_feed: st.have_feed,
        checked_ago,
        items: clone_items(&st.items),
        cyberdesk: status_of(cur_cd, &st.cyberdesk_latest),
        cef: status_of(cur_cef, &st.cef_recommended),
        chromium,
        tor: status_of(cur_tor, &st.tor_recommended),
    }
}

// --- The info panel's reply text ---------------------------------------------
//
// Compact JSON as `serde_json` writes a map: members in key order, strings
// escaped as in `escaped`.

pub open spec fn action_json(a: Option<(Seq<char>, Seq<char>)>) -> Seq<char> {
    match a {
        Some(p) => "{\"label\":"@ + json_str(p.0) + ",\"url\":"@ + json_str(p.1) + "}"@,
        None => "null"@,
    }
}

/// One item as the panel reads it (its target version is not sent).
pub open spec fn item_json(i: InfoItemView) -> Seq<char> {
    "{\"action\":"@ + action_json(i.action) + ",\"body\":"@ + json_str(i.body) + ",\"id\":"@
        + json_str(i.id) + ",\"severity\":"@ + json_str(i.severity) + ",\"title\":"@ + json_str(
        i.title,
    ) + "}"@
}

/// The items, comma-separated.
pub open spec fn items_json(items: Seq<InfoItemView>) -> Seq<char>
    decreases items.len(),
{
    if items.len() == 0 {
        Seq::empty()
    } else if items.len() == 1 {
        item_json(items[0])
    } else {
        items_json(items.drop_last()) + ","@ + item_json(items.last())
    }
}

pub open spec fn product_status_json(s: ComponentStatus) -> Seq<char> {
    "{\"latest\":"@ + json_opt_str(opt_string_view(s.offered)) + ",\"up_to_date\":"@ + bool_text(
        s.up_to_date,
    ) + ",\"version\":"@ + json_str(s.version@) + "}"@
}

pub open spec fn cef_status_json(s: ComponentStatus, chromium: Seq<char>) -> Seq<char> {
    "{\"chromium\":"@ + json_str(chromium) + ",\"recommended\":"@ + json_opt_str(
        opt_string_view(s.offered),
    ) + ",\"up_to_date\":"@ + bool_text(s.up_to_date) + ",\"version\":"@ + json_str(s.version@)
        + "}"@
}

pub open spec fn tor_status_json(s: ComponentStatus) -> Seq<char> {
    "{\"recommended\":"@ + json_opt_str(opt_string_view(s.offered)) + ",\"up_to_date\":"@
        + bool_text(s.up_to_date) + ",\"version\":"@ + json_str(s.version@) + "}"@
}

/// The `get_info_items` reply text.
pub open spec fn snapshot_json(s: InfoSnapshot) -> Seq<char> {
    "{\"cef\":"@ + cef_status_json(s.cef, s.chromium@) + ",\"checked_ago\":"@ + json_opt_str(
        opt_string_view(s.checked_ago),
    ) + ",\"cyberdesk\":"@ + product_status_json(s.cyberdesk) + ",\"have_feed\":"@ + bool_text(
        s.have_feed,
    ) + ",\"items\":["@ + items_json(items_view(s.items@)) + "],\"tor\":"@ + tor_status_json(
        s.tor,
    ) + "}"@
}

fn push_item_json(out: &mut String, i: &InfoItem)
    ensures
        final(out)@ == old(out)@ + item_json(i@),
{
    let ghost start = out@;
    out.append("{\"action\":");
    match &i.action {
        Some(a) => {
            out.append("{\"label\":");
            push_json_str(out, a.label.as_str());
            out.append(",\"url\":");
            push_json_str(out, a.url.as_str());
            out.append("}");
        },
        None => out.append("null"),
    }
    out.append(",\"body\":");
    push_json_str(out, i.body.as_str());
    out.append(",\"id\":");
    push_json_str(out, i.id.as_str());
    out.append(",\"severity\":");
    push_json_str(out, i.severity.as_str());
    out.append(",\"title\":");
    push_json_str(out, i.title.as_str());
    out.append("}");
    assert(out@ =~= start + item_json(i@));
}

fn push_items_json(out: &mut String, items: &Vec<InfoItem>)
    ensures
        final(out)@ == old(out)@ + items_json(items_view(items@)),
{
    let ghost start = out@;
    let mut i: usize = 0;
    assert(items_view(items@).take(0) =~= Seq::<InfoItemView>::empty());
    while i < items.len()
        invariant
            i <= items.len(),
            out@ == start + items_json(items_view(items@).take(i as int)),
        decreases items.len() - i,
    {
        let ghost before = out@;
        let ghost prefix = items_view(items@).take(i + 1);
        assert(prefix.drop_last() =~= items_view(items@).take(i as int));
        assert(prefix.last() == items@[i as int]@);
        if i > 0 {
            out.append(",");
        }
        push_item_json(out, &items[i]);
        if i == 0 {
            assert(prefix.len() == 1 && prefix[0] == items@[0]@);
            assert(out@ =~= start + items_json(prefix));
        } else {
            assert(out@ =~= before + ","@ + item_json(items@[i as int]@));
            assert(out@ =~= start + items_json(prefix));
        }
        i = i + 1;
    }
    assert(items_view(items@).take(items.len() as int) =~= items_view(items@));
}

fn push_status_tail(out: &mut String, s: &ComponentStatus)
    ensures
        final(out)@ == old(out)@ + ",\"up_to_date\":"@ + bool_text(s.up_to_date) + ",\"version\":"@
            + json_str(s.version@) + "}"@,
{
    out.append(",\"up_to_date\":");
    push_bool(out, s.up_to_date);
    out.append(",\"version\":");
    push_json_str(out, s.version.as_str());
    out.append("}");
}

fn push_cef_status(out: &mut String, s: &ComponentStatus, chromium: &String)
    ensures
        final(out)@ == old(out)@ + cef_status_json(*s, chromium@),
{
    let ghost start = out@;
    out.append("{\"chromium\":");
    push_json_str(out, chromium.as_str());
    out.append(",\"recommended\":");
    push_json_opt_str(out, &s.offered);
    push_status_tail(out, s);
    assert(out@ =~= start + cef_status_json(*s, chromium@));
}

fn push_product_status(out: &mut String, s: &ComponentStatus)
    ensures
        final(out)@ == old(out)@ + product_status_json(*s),
{
    let ghost start = out@;
    out.append("{\"latest\":");
    push_json_opt_str(out, &s.offered);
    push_status_tail(out, s);
    assert(out@ =~= start + product_status_json(*s));
}

fn push_tor_status(out: &mut String, s: &ComponentStatus)
    ensures
        final(out)@ == old(out)@ + tor_status_json(*s),
{
    let ghost start = out@;
    out.append("{\"recommended\":");
    push_json_opt_str(out, &s.offered);
    push_status_tail(out, s);
    assert(out@ =~= start + tor_status_json(*s));
}

/// The `get_info_items` reply as compact JSON text.
pub fn info_snapshot_json(snap: &InfoSnapshot) -> (r: String)
    ensures
        r@ == snapshot_json(*snap),
{
    let mut out = String::new();
    out.append("{\"cef\":");
    push_cef_status(&mut out, &snap.cef, &snap.chromium);
    out.append(",\"checked_ago\":");
    push_json_opt_str(&mut out, &snap.checked_ago);
    out.append(",\"cyberdesk\":");
    push_product_status(&mut out, &snap.cyberdesk);
    out.append(",\"have_feed\":");
    push_bool(&mut out, snap.have_feed);
    out.append(",\"items\":[");
    push_items_json(&mut out, &snap.items);
    out.append("],\"tor\":");
    push_tor_status(&mut out, &snap.tor);
    out.append("}");
    assert(out@ =~= snapshot_json(*snap));
    out
}

/// `""` for one, `"s"` otherwise.
pub open spec fn plural_text(n: int) -> Seq<char> {
    if n == 1 {
        Seq::empty()
    } else {
        "s"@
    }
}

/// A short honest "checked X ago" text: never negative (a negative age reads
/// "just now"), whole minutes, hours or days, pluralized.
pub open spec fn relative_ago_text(secs_ago: int) -> Seq<char> {
    let s = if secs_ago < 0 {
        0
    } else {
        secs_ago
    };
    if s < 60 {
        "just now"@
    } else if s < 3600 {
        decimal((s / 60) as nat) + " minute"@ + plural_text(s / 60) + " ago"@
    } else if s < 86400 {
        decimal((s / 3600) as nat) + " hour"@ + plural_text(s / 3600) + " ago"@
    } else {
        decimal((s / 86400) as nat) + " day"@ + plural_text(s / 86400) + " ago"@
    }
}

pub fn plural(n: i64) -> (r: &'static str)
    ensures
        r@ == plural_text(n as int),
{
    if n == 1 {
        proof {
            reveal_strlit("");
        }
        ""
    } else {
        "s"
    }
}

pub fn relative_ago(secs_ago: i64) -> (r: String)
    ensures
        r@ == relative_ago_text(secs_ago as int),
{
    let s: i64 = if secs_ago < 0 {
        0
    } else {
        secs_ago
    };
    if s < 60 {
        return "just now".to_string();
    }
    let (n, unit): (i64, &str) = if s < 3600 {
        (s / 60, " minute")
    } else if s < 86400 {
        (s / 3600, " hour")
    } else {
        (s / 86400, " day")
    };
    let mut out = String::new();
    push_decimal(&mut out, n as u64);
    out.append(unit);
    out.append(plural(n));
    out.append(" ago");
    out
}

// --- The one outbound fetch --------------------------------------------------

/// Where the manifest is read from.
#[derive(Debug, PartialEq, Eq)]
pub enum FetchTarget {
    /// A local path (the test override): read from disk.
    Local(String),
    /// The pinned HTTPS endpoint.
    Remote(String),
}

pub open spec fn starts_with(s: Seq<char>, p: Seq<char>) -> bool {
    p.len() <= s.len() && s.take(p.len() as int) == p
}

pub open spec fn contains_text(s: Seq<char>, p: Seq<char>) -> bool {
    exists|i: int| 0 <= i <= s.len() - p.len() && #[trigger] s.subrange(i, i + p.len()) == p
}

/// A `file:` URL or anything without a scheme separator is local.
pub open spec fn is_local_spec(url: Seq<char>) -> bool {
    starts_with(url, "file:"@) || !contains_text(url, "://"@)
}

/// The path of a local target: without `file://`, else without `file:`.
pub open spec fn local_path(url: Seq<char>) -> Seq<char> {
    if starts_with(url, "file://"@) {
        url.skip(7)
    } else if starts_with(url, "file:"@) {
        url.skip(5)
    } else {
        url
    }
}

fn starts_with_exec(cs: &Vec<char>, p: &str) -> (r: bool)
    ensures
        r == starts_with(cs@, p@),
{
    let pc = chars_of(p);
    if pc.len() > cs.len() {
        return false;
    }
    let mut i: usize = 0;
    while i < pc.len()
        invariant
            pc.len() <= cs.len(),
            pc@ == p@,
            i <= pc.len(),
            forall|j: int| 0 <= j < i ==> cs@[j] == pc@[j],
        decreases pc.len() - i,
    {
        if cs[i] != pc[i] {
            assert(cs@.take(pc.len() as int)[i as int] != p@[i as int]);
            return false;
        }
        i = i + 1;
    }
    assert(cs@.take(pc.len() as int) =~= p@);
    true
}

fn contains_exec(cs: &Vec<char>, p: &str) -> (r: bool)
    ensures
        r == contains_text(cs@, p@),
{
    let pc = chars_of(p);
    if pc.len() > cs.len() {
        return false;
    }
    let mut i: usize = 0;
    while i <= cs.len() - pc.len()
        invariant
            pc@ == p@,
            pc.len() <= cs.len(),
            i <= cs.len() - pc.len() + 1,
            forall|k: int| 0 <= k < i ==> #[trigger] cs@.subrange(k, k + pc.len()) != p@,
        decreases cs.len() + 1 - i,
    {
        let mut j: usize = 0;
        let mut same = true;
        while j < pc.len()
            invariant
                pc@ == p@,
                i + pc.len() <= cs.len(),
                j <= pc.len(),
                same == forall|m: int| 0 <= m < j ==> cs@[i + m] == pc@[m],
            decreases pc.len() - j,
        {
            if cs[i + j] != pc[j] {
                same = false;
            }
            j = j + 1;
        }
        if same {
            assert(cs@.subrange(i as int, i + pc.len()) =~= p@);
            return true;
        }
        assert(cs@.subrange(i as int, i + pc.len()) != p@) by {
            let m = choose|m: int| 0 <= m < pc.len() && cs@[i + m] != pc@[m];
            assert(cs@.subrange(i as int, i + pc.len())[m] != p@[m]);
        }
        i = i + 1;
    }
    false
}

/// Decide how a feed URL is fetched: a local path / `file:` URL is read
/// from disk, anything else from the network.
pub fn fetch_target(url: &str) -> (r: FetchTarget)
    ensures
        is_local_spec(url@) ==> (r matches FetchTarget::Local(p) && p@ == local_path(url@)),
        !is_local_spec(url@) ==> (r matches FetchTarget::Remote(u) && u@ == url@),
{
    let cs = chars_of(url);
    let local = starts_with_exec(&cs, "file:") || !contains_exec(&cs, "://");
    if local {
        proof {
            reveal_strlit("file://");
            reveal_strlit("file:");
        }
        let path = if starts_with_exec(&cs, "file://") {
            string_from_range(&cs, 7, cs.len())
        } else if starts_with_exec(&cs, "file:") {
            string_from_range(&cs, 5, cs.len())
        } else {
            string_from_range(&cs, 0, cs.len())
        };
        proof {
            assert(cs@.subrange(0, cs@.len() as int) =~= cs@);
            assert(cs@.subrange(7, cs@.len() as int) =~= cs@.skip(7));
            assert(cs@.subrange(5, cs@.len() as int) =~= cs@.skip(5));
        }
        FetchTarget::Local(path)
    } else {
        let mut u = String::new();
        u.append(url);
        FetchTarget::Remote(u)
    }
}

/// The feed URL: a non-blank override, else the configured one.
pub open spec fn feed_url_spec(over: Option<Seq<char>>, configured: Seq<char>) -> Seq<char> {
    match over {
        Some(o) => if trim(o).len() > 0 {
            o
        } else {
            configured
        },
        None => configured,
    }
}

pub fn feed_url(over: Option<String>, configured: String) -> (r: String)
    ensures
        r@ == feed_url_spec(opt_string_view(over), configured@),
{
    match over {
        Some(o) => {
            let cs = chars_of(o.as_str());
            let (lo, hi) = trim_bounds(&cs);
            if lo < hi {
                o
            } else {
                configured
            }
        },
        None => configured,
    }
}

/// The check interval in seconds: the configured hours, at least one.
pub fn check_interval_secs(hours: u32) -> (r: u64)
    ensures
        r == (if hours < 1 {
            1
        } else {
            hours
        }) * 3600,
{
    let h: u64 = if hours < 1 {
        1
    } else {
        hours as u64
    };
    h * 3600
}

/// What one fetch brought: the body, and the manifest the typed reader made
/// of it (`None` when the body is not a manifest).
#[derive(Debug)]
pub struct Fetched {
    pub body: String,
    pub manifest: Option<Manifest>,
}

/// What one check keeps: the fetched body is cached only when it reads as a
/// manifest; the state uses that manifest, else the last-known one.
#[derive(Debug)]
pub struct CheckOutcome {
    pub cache_json: Option<String>,
    pub manifest: Option<Manifest>,
}

/// One check's decision on a fetch (`Err`: unreachable, a 404, ...) and the
/// last-known cached manifest. Failures are never surfaced: the cache is
/// kept and so is the last-known manifest.
pub fn check_outcome(fetched: Result<Fetched, String>, cached: Option<Manifest>) -> (r: CheckOutcome)
    ensures
        match fetched {
            Ok(f) => match f.manifest {
                Some(m) => (r.cache_json matches Some(c) && c@ == f.body@) && r.manifest == Some(m),
                None => r.cache_json is None && r.manifest == cached,
            },
            Err(_) => r.cache_json is None && r.manifest == cached,
        },
{
    match fetched {
        Ok(f) => match f.manifest {
            Some(m) => CheckOutcome { cache_json: Some(f.body), manifest: Some(m) },
            None => CheckOutcome { cache_json: None, manifest: cached },
        },
        Err(_) => CheckOutcome { cache_json: None, manifest: cached },
    }
}

// --- Dismissal ---------------------------------------------------------------

/// The dismissals without any entry for `id`.
pub open spec fn without_key(d: Seq<(Seq<char>, Seq<char>)>, id: Seq<char>) -> Seq<
    (Seq<char>, Seq<char>),
>
    decreases d.len(),
{
    if d.len() == 0 {
        d
    } else if d[0].0 == id {
        without_key(d.drop_first(), id)
    } else {
        seq![d[0]] + without_key(d.drop_first(), id)
    }
}

/// The dismissals once `id` is recorded as dismissed at version `v`: its
/// entry replaced, or added.
pub open spec fn with_dismissal(d: Seq<(Seq<char>, Seq<char>)>, id: Seq<char>, v: Seq<char>) -> Seq<
    (Seq<char>, Seq<char>),
> {
    without_key(d, id).push((id, v))
}

/// The items other than those with id `id`, in order.
pub open spec fn items_without(items: Seq<InfoItemView>, id: Seq<char>) -> Seq<InfoItemView>
    decreases items.len(),
{
    if items.len() == 0 {
        items
    } else if items[0].id == id {
        items_without(items.drop_first(), id)
    } else {
        seq![items[0]] + items_without(items.drop_first(), id)
    }
}

proof fn lemma_without_key(d: Seq<(Seq<char>, Seq<char>)>, id: Seq<char>, k: Seq<char>)
    ensures
        first_value(without_key(d, id), k) == if k == id {
            None
        } else {
            first_value(d, k)
        },
        forall|x: (Seq<char>, Seq<char>)| #[trigger] without_key(d, id).contains(x) ==> d.contains(x) && x.0 != id,
    decreases d.len(),
{
    if d.len() > 0 {
        lemma_without_key(d.drop_first(), id, k);
        let w = without_key(d.drop_first(), id);
        if d[0].0 != id {
            assert((seq![d[0]] + w).drop_first() =~= w);
            assert forall|x: (Seq<char>, Seq<char>)| #[trigger] (seq![d[0]] + w).contains(x) implies d.contains(x) && x.0 != id by {
                let i = choose|i: int| 0 <= i < (seq![d[0]] + w).len() && (seq![d[0]] + w)[i] == x;
                if i > 0 {
                    assert(w.contains(x) && w[i - 1] == x);
                    assert(d.drop_first().contains(x));
                    let j = choose|j: int| 0 <= j < d.drop_first().len() && d.drop_first()[j] == x;
                    assert(d[j + 1] == x);
                } else {
                    assert(d[0] == x);
                }
            }
        } else {
            assert forall|x: (Seq<char>, Seq<char>)| #[trigger] w.contains(x) implies d.contains(x) && x.0 != id by {
                let j = choose|j: int| 0 <= j < d.drop_first().len() && d.drop_first()[j] == x;
                assert(d[j + 1] == x);
            }
        }
    }
}

proof fn lemma_lookup_after_push(
    s: Seq<(Seq<char>, Seq<char>)>,
    e: (Seq<char>, Seq<char>),
    k: Seq<char>,
)
    ensures
        first_value(s.push(e), k) == match first_value(s, k) {
            Some(v) => Some(v),
            None => if e.0 == k {
                Some(e.1)
            } else {
                None
            },
        },
    decreases s.len(),
{
    if s.len() > 0 {
        assert(s.push(e)[0] == s[0]);
        assert(s.push(e).drop_first() =~= s.drop_first().push(e));
        lemma_lookup_after_push(s.drop_first(), e, k);
    } else {
        assert(s.push(e)[0] == e);
        assert(s.push(e).drop_first() =~= s);
    }
}

proof fn lemma_with_dismissal_lookup(
    d: Seq<(Seq<char>, Seq<char>)>,
    id: Seq<char>,
    v: Seq<char>,
    k: Seq<char>,
)
    ensures
        first_value(with_dismissal(d, id, v), k) == if k == id {
            Some(v)
        } else {
            first_value(d, k)
        },
{
    lemma_without_key(d, id, k);
    lemma_lookup_after_push(without_key(d, id), (id, v), k);
}

proof fn lemma_without_key_unique(d: Seq<(Seq<char>, Seq<char>)>, id: Seq<char>)
    requires
        names_unique(d),
    ensures
        names_unique(without_key(d, id)),
    decreases d.len(),
{
    if d.len() > 0 {
        let t = d.drop_first();
        assert(names_unique(t)) by {
            assert forall|i: int, j: int| 0 <= i < j < t.len() implies #[trigger] t[i].0 != #[trigger] t[j].0 by {
                assert(d[i + 1].0 != d[j + 1].0);
            }
        }
        lemma_without_key_unique(t, id);
        lemma_without_key(t, id, id);
        let w = without_key(t, id);
        if d[0].0 != id {
            let r = seq![d[0]] + w;
            assert forall|i: int, j: int| 0 <= i < j < r.len() implies #[trigger] r[i].0 != #[trigger] r[j].0 by {
                if i == 0 {
                    assert(r[j] == w[j - 1]);
                    assert(w.contains(w[j - 1]));
                    assert(t.contains(w[j - 1]));
                    let m = choose|m: int| 0 <= m < t.len() && t[m] == w[j - 1];
                    assert(d[m + 1] == t[m]);
                    assert(d[0].0 != d[m + 1].0);
                } else {
                    assert(r[i] == w[i - 1] && r[j] == w[j - 1]);
                }
            }
        }
    }
}

/// Each dismissed id occurs once, before and after recording a dismissal.
proof fn lemma_with_dismissal_unique(d: Seq<(Seq<char>, Seq<char>)>, id: Seq<char>, v: Seq<char>)
    requires
        names_unique(d),
    ensures
        names_unique(with_dismissal(d, id, v)),
{
    lemma_without_key_unique(d, id);
    lemma_without_key(d, id, id);
    let w = without_key(d, id);
    let r = w.push((id, v));
    assert forall|i: int, j: int| 0 <= i < j < r.len() implies #[trigger] r[i].0 != #[trigger] r[j].0 by {
        if j == w.len() {
            assert(w.contains(w[i]));
        } else {
            assert(r[i] == w[i] && r[j] == w[j]);
        }
    }
}

proof fn lemma_items_without_concat(a: Seq<InfoItemView>, b: Seq<InfoItemView>, id: Seq<char>)
    ensures
        items_without(a + b, id) == items_without(a, id) + items_without(b, id),
    decreases a.len(),
{
    if a.len() == 0 {
        assert(a + b =~= b);
    } else {
        assert((a + b).drop_first() =~= a.drop_first() + b);
        lemma_items_without_concat(a.drop_first(), b, id);
        if a[0].id != id {
            assert(seq![a[0]] + (items_without(a.drop_first(), id) + items_without(b, id))
                =~= (seq![a[0]] + items_without(a.drop_first(), id)) + items_without(b, id));
        }
    }
}

proof fn lemma_dismiss_target_concat(a: Seq<InfoItemView>, b: Seq<InfoItemView>, id: Seq<char>)
    ensures
        dismiss_target(a + b, id) == match dismiss_target(a, id) {
            Some(t) => Some(t),
            None => dismiss_target(b, id),
        },
    decreases a.len(),
{
    if a.len() == 0 {
        assert(a + b =~= b);
    } else {
        assert((a + b).drop_first() =~= a.drop_first() + b);
        lemma_dismiss_target_concat(a.drop_first(), b, id);
    }
}

/// One part of the items (at most one item, with id `part_id`) after the
/// dismissal of `id` at `t`: gone when it is the dismissed one, else
/// unchanged.
proof fn lemma_part_after_dismissal(
    part: Seq<InfoItemView>,
    part2: Seq<InfoItemView>,
    part_id: Seq<char>,
    id: Seq<char>,
    t: Seq<char>,
)
    requires
        part.len() <= 1,
        part.len() == 1 ==> part[0].id == part_id,
        part_id != id ==> part2 == part,
        part_id == id ==> part2.len() == 0,
    ensures
        part2 == items_without(part, id),
{
    if part.len() == 0 {
        assert(part2 =~= part);
    } else {
        let rest = part.drop_first();
        assert(rest.len() == 0);
        assert(items_without(rest, id) == rest);
        if part_id != id {
            assert(seq![part[0]] + rest =~= part);
        } else {
            assert(part2 =~= rest);
        }
    }
}

/// Where the dismissal target of `id` lies in a part with one id.
proof fn lemma_part_target(part: Seq<InfoItemView>, part_id: Seq<char>, id: Seq<char>)
    requires
        part.len() <= 1,
        part.len() == 1 ==> part[0].id == part_id,
    ensures
        dismiss_target(part, id) == if part.len() == 1 && part_id == id {
            Some(part[0].target_version)
        } else {
            None::<Seq<char>>
        },
{
    if part.len() == 1 {
        assert(part.drop_first().len() == 0);
        assert(dismiss_target(part.drop_first(), id) is None);
    }
}

/// What recording a dismissal does: with the state rebuilt from a manifest
/// and the dismissals `d`, dismissing item `id` (whose target version is
/// `t`), recording `(id, t)` and rebuilding from the same manifest removes
/// exactly that item, keeps the others in order, lowers the count by one,
/// and keeps each dismissed id once.
pub proof fn law_dismissal_removes_that_item(
    m: ManifestView,
    last_check: Option<i64>,
    cur_cd: Seq<char>,
    cur_cef: Seq<char>,
    cur_tor: Seq<char>,
    d: Seq<(Seq<char>, Seq<char>)>,
    id: Seq<char>,
    t: Seq<char>,
    before: UpdateState,
    after: UpdateState,
)
    requires
        rebuilt_state(Some(m), last_check, cur_cd, cur_cef, cur_tor, d, before),
        dismiss_target(items_view(before.items@), id) == Some(t),
        rebuilt_state(Some(m), last_check, cur_cd, cur_cef, cur_tor, with_dismissal(d, id, t), after),
    ensures
        items_view(after.items@) == items_without(items_view(before.items@), id),
        after.items@.len() == before.items@.len() - 1,
        dismiss_target(items_view(after.items@), id) is None,
        names_unique(d) ==> names_unique(with_dismissal(d, id, t)),
{
    let d2 = with_dismissal(d, id, t);
    let p = product_items(m.cyberdesk, cur_cd, d);
    let c = component_items(m.components, "cef"@, "cef-update"@, "CEF core update recommended"@, "The bundled CEF core is "@, cur_cef, d);
    let o = component_items(m.components, "tor"@, "tor-update"@, "Tor engine update recommended"@, "The embedded Tor engine (arti) is "@, cur_tor, d);
    let p2 = product_items(m.cyberdesk, cur_cd, d2);
    let c2 = component_items(m.components, "cef"@, "cef-update"@, "CEF core update recommended"@, "The bundled CEF core is "@, cur_cef, d2);
    let o2 = component_items(m.components, "tor"@, "tor-update"@, "Tor engine update recommended"@, "The embedded Tor engine (arti) is "@, cur_tor, d2);
    assert(items_view(before.items@) == p + c + o);
    assert(items_view(after.items@) == p2 + c2 + o2);
    lemma_with_dismissal_lookup(d, id, t, "cyberdesk-update"@);
    lemma_with_dismissal_lookup(d, id, t, "cef-update"@);
    lemma_with_dismissal_lookup(d, id, t, "tor-update"@);
    reveal_strlit("cyberdesk-update");
    reveal_strlit("cef-update");
    reveal_strlit("tor-update");
    assert("cyberdesk-update"@ != "cef-update"@) by {
        assert("cyberdesk-update"@.len() != "cef-update"@.len());
    }
    assert("cyberdesk-update"@ != "tor-update"@) by {
        assert("cyberdesk-update"@.len() != "tor-update"@.len());
    }
    assert("cef-update"@ != "tor-update"@) by {
        assert("cef-update"@[0] != "tor-update"@[0]);
    }
    lemma_dismiss_target_concat(p + c, o, id);
    lemma_dismiss_target_concat(p, c, id);
    lemma_part_target(p, "cyberdesk-update"@, id);
    lemma_part_target(c, "cef-update"@, id);
    lemma_part_target(o, "tor-update"@, id);
    let latest = version_components(m.cyberdesk.latest);
    law_version_order(latest, latest, latest);
    match first_value(m.components, "cef"@) {
        Some(x) => {
            let r = version_components(x.recommended);
            law_version_order(r, r, r);
        },
        None => {},
    }
    match first_value(m.components, "tor"@) {
        Some(x) => {
            let r = version_components(x.recommended);
            law_version_order(r, r, r);
        },
        None => {},
    }
    lemma_part_after_dismissal(p, p2, "cyberdesk-update"@, id, t);
    lemma_part_after_dismissal(c, c2, "cef-update"@, id, t);
    lemma_part_after_dismissal(o, o2, "tor-update"@, id, t);
    lemma_items_without_concat(p + c, o, id);
    lemma_items_without_concat(p, c, id);
    lemma_dismiss_target_concat(p2 + c2, o2, id);
    lemma_dismiss_target_concat(p2, c2, id);
    lemma_part_target(p2, "cyberdesk-update"@, id);
    lemma_part_target(c2, "cef-update"@, id);
    lemma_part_target(o2, "tor-update"@, id);
    if names_unique(d) {
        lemma_with_dismissal_unique(d, id, t);
    }
}

} // verus!
