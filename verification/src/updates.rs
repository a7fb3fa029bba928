//! Update awareness: the pinned manifest's schema, the generic info items
//! built from it, dismissal, and the state the info glyph and panel read.
//!
//! V1 informs; it never downloads or installs. Fetching, persistence and the
//! background worker are the host's; this module decides what they produce
//! and show.

use vstd::prelude::*;
use crate::json::opt_string_view;
use crate::text::{
    chars_of, eq_ignore_case, eq_ignore_case_exec, text_eq, trim,
    trim_bounds,
};
use crate::version::{older, version_components, Version};

verus! {

/// The manifest schema this build understands. A higher `schema` is read
/// best-effort: unknown fields are ignored.
pub const SCHEMA_SUPPORTED: u32 = 1;

/// The pinned update manifest.
#[derive(Debug, Clone)]
pub struct Manifest {
    pub schema: u32,
    pub cyberdesk: Product,
    /// Tracked components by name (`cef`, `tor`, ...), each name once.
    pub components: Vec<(String, Component)>,
}

#[derive(Debug, Clone)]
pub struct Product {
    pub latest: String,
    pub notes_url: Option<String>,
}

#[derive(Debug, Clone)]
pub struct Component {
    pub recommended: String,
    pub reason: Option<String>,
    pub notes_url: Option<String>,
}

/// One info item — the seed of the notification rail: a stable id (the
/// dismissal key), a severity (`info` | `recommended` | `security`), title,
/// body, the target version it is about, and an optional action.
#[derive(Debug, Clone, PartialEq)]
pub struct InfoItem {
    pub id: String,
    pub severity: String,
    pub title: String,
    pub body: String,
    pub target_version: String,
    pub action: Option<Action>,
}

#[derive(Debug, Clone, PartialEq)]
pub struct Action {
    pub label: String,
    pub url: String,
}

pub struct ProductView {
    pub latest: Seq<char>,
    pub notes_url: Option<Seq<char>>,
}

pub struct ComponentView {
    pub recommended: Seq<char>,
    pub reason: Option<Seq<char>>,
    pub notes_url: Option<Seq<char>>,
}

pub struct ManifestView {
    pub schema: u32,
    pub cyberdesk: ProductView,
    pub components: Seq<(Seq<char>, ComponentView)>,
}

pub struct InfoItemView {
    pub id: Seq<char>,
    pub severity: Seq<char>,
    pub title: Seq<char>,
    pub body: Seq<char>,
    pub target_version: Seq<char>,
    /// The action's label and url.
    pub action: Option<(Seq<char>, Seq<char>)>,
}

impl View for Product {
    type V = ProductView;

    open spec fn view(&self) -> ProductView {
        ProductView { latest: self.latest@, notes_url: opt_string_view(self.notes_url) }
    }
}

impl View for Component {
    type V = ComponentView;

    open spec fn view(&self) -> ComponentView {
        ComponentView {
            recommended: self.recommended@,
            reason: opt_string_view(self.reason),
            notes_url: opt_string_view(self.notes_url),
        }
    }
}

pub open spec fn components_view(cs: Seq<(String, Component)>) -> Seq<(Seq<char>, ComponentView)> {
    cs.map_values(|e: (String, Component)| (e.0@, e.1@))
}

impl View for Manifest {
    type V = ManifestView;

    open spec fn view(&self) -> ManifestView {
        ManifestView {
            schema: self.schema,
            cyberdesk: self.cyberdesk@,
            components: components_view(self.components@),
        }
    }
}

impl View for InfoItem {
    type V = InfoItemView;

    open spec fn view(&self) -> InfoItemView {
        InfoItemView {
            id: self.id@,
            severity: self.severity@,
            title: self.title@,
            body: self.body@,
            target_version: self.target_version@,
            action: match self.action {
                Some(a) => Some((a.label@, a.url@)),
                None => None,
            },
        }
    }
}

pub open spec fn items_view(items: Seq<InfoItem>) -> Seq<InfoItemView> {
    items.map_values(|i: InfoItem| i@)
}

pub open spec fn pairs_view(ps: Seq<(String, String)>) -> Seq<(Seq<char>, Seq<char>)> {
    ps.map_values(|p: (String, String)| (p.0@, p.1@))
}

/// The value of the first entry named `key`.
pub open spec fn first_value<V>(entries: Seq<(Seq<char>, V)>, key: Seq<char>) -> Option<V>
    decreases entries.len(),
{
    if entries.len() == 0 {
        None
    } else if entries[0].0 == key {
        Some(entries[0].1)
    } else {
        first_value(entries.drop_first(), key)
    }
}

/// Each name occurs once, as in the maps the manifest and the store hold.
pub open spec fn names_unique<V>(entries: Seq<(Seq<char>, V)>) -> bool {
    forall|i: int, j: int| 0 <= i < j < entries.len() ==> #[trigger] entries[i].0 != #[trigger] entries[j].0
}

fn keys_unique<V>(entries: &Vec<(String, V)>) -> (r: bool)
    ensures
        r == (forall|i: int, j: int|
            0 <= i < j < entries@.len() ==> #[trigger] entries@[i].0@ != #[trigger] entries@[j].0@),
{
    let n = entries.len();
    let mut i: usize = 0;
    while i < n
        invariant
            i <= n == entries.len(),
            forall|a: int, b: int| 0 <= a < i && a < b < n ==> #[trigger] entries@[a].0@ != #[trigger] entries@[b].0@,
        decreases n - i,
    {
        let mut j: usize = i + 1;
        while j < n
            invariant
                i < n == entries.len(),
                i + 1 <= j <= n,
                forall|a: int, b: int| 0 <= a < i && a < b < n ==> #[trigger] entries@[a].0@ != #[trigger] entries@[b].0@,
                forall|b: int| i < b < j ==> entries@[i as int].0@ != #[trigger] entries@[b].0@,
            decreases n - j,
        {
            if text_eq(entries[i].0.as_str(), entries[j].0.as_str()) {
                return false;
            }
            j = j + 1;
        }
        i = i + 1;
    }
    true
}

impl Manifest {
    /// Does each component name occur once?
    pub fn has_unique_component_names(&self) -> (r: bool)
        ensures
            r == names_unique(self@.components),
    {
        let r = keys_unique(&self.components);
        proof {
            let cv = components_view(self.components@);
            assert(r == names_unique(cv)) by {
                if r {
                    assert forall|i: int, j: int| 0 <= i < j < cv.len() implies #[trigger] cv[i].0 != #[trigger] cv[j].0 by {
                        assert(self.components@[i].0@ != self.components@[j].0@);
                    }
                } else {
                    let (i, j) = choose|i: int, j: int|
                        0 <= i < j < self.components@.len() && #[trigger] self.components@[i].0@ == #[trigger] self.components@[j].0@;
                    assert(cv[i].0 == cv[j].0);
                }
            }
        }
        r
    }
}

/// Does each dismissed id occur once?
pub fn dismissals_unique(dismissed: &Vec<(String, String)>) -> (r: bool)
    ensures
        r == names_unique(pairs_view(dismissed@)),
{
    let r = keys_unique(dismissed);
    proof {
        let pv = pairs_view(dismissed@);
        assert(r == names_unique(pv)) by {
            if r {
                assert forall|i: int, j: int| 0 <= i < j < pv.len() implies #[trigger] pv[i].0 != #[trigger] pv[j].0 by {
                    assert(dismissed@[i].0@ != dismissed@[j].0@);
                }
            } else {
                let (i, j) = choose|i: int, j: int|
                    0 <= i < j < dismissed@.len() && #[trigger] dismissed@[i].0@ == #[trigger] dismissed@[j].0@;
                assert(pv[i].0 == pv[j].0);
            }
        }
    }
    r
}

/// The first component named `key`.
pub(crate) fn component_get<'a>(cs: &'a Vec<(String, Component)>, key: &str) -> (r: Option<&'a Component>)
    ensures
        match r {
            Some(c) => first_value(components_view(cs@), key@) == Some(c@),
            None => first_value(components_view(cs@), key@) is None,
        },
{
    let n = cs.len();
    let mut i: usize = 0;
    assert(components_view(cs@).skip(0) =~= components_view(cs@));
    while i < n
        invariant
            i <= n == cs.len(),
            first_value(components_view(cs@), key@) == first_value(
                components_view(cs@).skip(i as int),
                key@,
            ),
        decreases n - i,
    {
        assert(components_view(cs@).skip(i as int).drop_first() =~= components_view(cs@).skip(
            i + 1,
        ));
        if text_eq(cs[i].0.as_str(), key) {
            return Some(&cs[i].1);
        }
        i = i + 1;
    }
    None
}

// --- Info items --------------------------------------------------------------

/// The severity for a manifest `reason`: `security` or `info` when the
/// trimmed reason is that word in any case, else `recommended`.
pub open spec fn severity_of(reason: Option<Seq<char>>) -> Seq<char> {
    match reason {
        Some(r) => if eq_ignore_case(trim(r), "security"@) {
            "security"@
        } else if eq_ignore_case(trim(r), "info"@) {
            "info"@
        } else {
            "recommended"@
        },
        None => "recommended"@,
    }
}

fn normalize_severity(reason: Option<&str>) -> (r: String)
    ensures
        r@ == severity_of(
            match reason {
                Some(s) => Some(s@),
                None => None,
            },
        ),
{
    match reason {
        Some(s) => {
            let cs = chars_of(s);
            let (lo, hi) = trim_bounds(&cs);
            let security = chars_of("security");
            let info = chars_of("info");
            if eq_ignore_case_exec(&cs, lo, hi, &security) {
                "security".to_string()
            } else if eq_ignore_case_exec(&cs, lo, hi, &info) {
                "info".to_string()
            } else {
                "recommended".to_string()
            }
        },
        None => "recommended".to_string(),
    }
}

/// Hidden when the item was dismissed at a version the manifest has not
/// advanced past (dismissed version >= target).
pub open spec fn dismissed_spec(d: Seq<(Seq<char>, Seq<char>)>, id: Seq<char>, target: Seq<u64>) -> bool {
    match first_value(d, id) {
        Some(v) => !older(version_components(v), target),
        None => false,
    }
}

fn is_dismissed(dismissed: &Vec<(String, String)>, id: &str, target: &Version) -> (r: bool)
    ensures
        r == dismissed_spec(pairs_view(dismissed@), id@, target@),
{
    let n = dismissed.len();
    let mut i: usize = 0;
    assert(pairs_view(dismissed@).skip(0) =~= pairs_view(dismissed@));
    while i < n
        invariant
            i <= n == dismissed.len(),
            first_value(pairs_view(dismissed@), id@) == first_value(
                pairs_view(dismissed@).skip(i as int),
                id@,
            ),
        decreases n - i,
    {
        assert(pairs_view(dismissed@).skip(i as int).drop_first() =~= pairs_view(dismissed@).skip(
            i + 1,
        ));
        if text_eq(dismissed[i].0.as_str(), id) {
            let v = Version::parse(dismissed[i].1.as_str());
            return !v.is_older_than(target);
        }
        i = i + 1;
    }
    false
}

pub open spec fn notes_action(url: Option<Seq<char>>) -> Option<(Seq<char>, Seq<char>)> {
    match url {
        Some(u) => Some(("Release notes"@, u)),
        None => None,
    }
}

/// The product item: offered when the running version is older than the
/// latest and not dismissed at a version at least as new.
pub open spec fn product_items(
    p: ProductView,
    cur: Seq<char>,
    d: Seq<(Seq<char>, Seq<char>)>,
) -> Seq<InfoItemView> {
    let latest = version_components(p.latest);
    if older(version_components(cur), latest) && !dismissed_spec(d, "cyberdesk-update"@, latest) {
        seq![
            InfoItemView {
                id: "cyberdesk-update"@,
                severity: "recommended"@,
                title: "CyberDesk update available"@,
                body: "You are running "@ + cur + ". Version "@ + p.latest + " is available."@,
                target_version: p.latest,
                action: notes_action(p.notes_url),
            },
        ]
    } else {
        seq![]
    }
}

/// A tracked component's item, built like the product's from the
/// component's recommended version and reason.
pub open spec fn component_items(
    comps: Seq<(Seq<char>, ComponentView)>,
    key: Seq<char>,
    id: Seq<char>,
    title: Seq<char>,
    lead: Seq<char>,
    cur: Seq<char>,
    d: Seq<(Seq<char>, Seq<char>)>,
) -> Seq<InfoItemView> {
    match first_value(comps, key) {
        Some(c) => {
            let rec = version_components(c.recommended);
            if older(version_components(cur), rec) && !dismissed_spec(d, id, rec) {
                seq![
                    InfoItemView {
                        id: id,
                        severity: severity_of(c.reason),
                        title: title,
                        body: lead + cur + ". "@ + c.recommended + " is recommended ("@ + (
                        match c.reason {
                            Some(r) => r,
                            None => "recommended"@,
                        }) + ")."@,
                        target_version: c.recommended,
                        action: notes_action(c.notes_url),
                    },
                ]
            } else {
                seq![]
            }
        },
        None => seq![],
    }
}

/// The new (non-dismissed) items, in order: CyberDesk itself, the CEF core,
/// the Tor engine.
pub open spec fn items_spec(
    m: ManifestView,
    cur_cyberdesk: Seq<char>,
    cur_cef: Seq<char>,
    cur_tor: Seq<char>,
    d: Seq<(Seq<char>, Seq<char>)>,
) -> Seq<InfoItemView> {
    product_items(m.cyberdesk, cur_cyberdesk, d) + component_items(
        m.components,
        "cef"@,
        "cef-update"@,
        "CEF core update recommended"@,
        "The bundled CEF core is "@,
        cur_cef,
        d,
    ) + component_items(
        m.components,
        "tor"@,
        "tor-update"@,
        "Tor engine update recommended"@,
        "The embedded Tor engine (arti) is "@,
        cur_tor,
        d,
    )
}

fn notes_action_exec(url: &Option<String>) -> (r: Option<Action>)
    ensures
        match r {
            Some(a) => notes_action(opt_string_view(*url)) == Some((a.label@, a.url@)),
            None => notes_action(opt_string_view(*url)) is None,
        },
{
    match url {
        Some(u) => Some(Action { label: "Release notes".to_string(), url: u.clone() }),
        None => None,
    }
}

fn product_item(p: &Product, cur: &str, dismissed: &Vec<(String, String)>) -> (r: Option<InfoItem>)
    ensures
        match r {
            Some(i) => product_items(p@, cur@, pairs_view(dismissed@)) == seq![i@],
            None => product_items(p@, cur@, pairs_view(dismissed@)) == Seq::<InfoItemView>::empty(),
        },
{
    let latest = Version::parse(p.latest.as_str());
    if Version::parse(cur).is_older_than(&latest) && !is_dismissed(
        dismissed,
        "cyberdesk-update",
        &latest,
    ) {
        let mut body = String::new();
        body.append("You are running ");
        body.append(cur);
        body.append(". Version ");
        body.append(p.latest.as_str());
        body.append(" is available.");
        let item = InfoItem {
            id: "cyberdesk-update".to_string(),
            severity: "recommended".to_string(),
            title: "CyberDesk update available".to_string(),
            body,
            target_version: p.latest.clone(),
            action: notes_action_exec(&p.notes_url),
        };
        assert(product_items(p@, cur@, pairs_view(dismissed@)) =~= seq![item@]);
        Some(item)
    } else {
        None
    }
}

fn component_item(
    comps: &Vec<(String, Component)>,
    key: &str,
    id: &str,
    title: &str,
    lead: &str,
    cur: &str,
    dismissed: &Vec<(String, String)>,
) -> (r: Option<InfoItem>)
    ensures
        match r {
            Some(i) => component_items(
                components_view(comps@),
                key@,
                id@,
                title@,
                lead@,
                cur@,
                pairs_view(dismissed@),
            ) == seq![i@],
            None => component_items(
                components_view(comps@),
                key@,
                id@,
                title@,
                lead@,
                cur@,
                pairs_view(dismissed@),
            ) == Seq::<InfoItemView>::empty(),
        },
{
    match component_get(comps, key) {
        Some(c) => {
            let rec = Version::parse(c.recommended.as_str());
            if Version::parse(cur).is_older_than(&rec) && !is_dismissed(dismissed, id, &rec) {
                let severity = match &c.reason {
                    Some(r) => normalize_severity(Some(r.as_str())),
                    None => normalize_severity(None),
                };
                let mut body = String::new();
                body.append(lead);
                body.append(cur);
                body.append(". ");
                body.append(c.recommended.as_str());
                body.append(" is recommended (");
                match &c.reason {
                    Some(r) => body.append(r.as_str()),
                    None => body.append("recommended"),
                }
                body.append(").");
                let item = InfoItem {
                    id: id.to_string(),
                    severity,
                    title: title.to_string(),
                    body,
                    target_version: c.recommended.clone(),
                    action: notes_action_exec(&c.notes_url),
                };
                assert(component_items(
                    components_view(comps@),
                    key@,
                    id@,
                    title@,
                    lead@,
                    cur@,
                    pairs_view(dismissed@),
                ) =~= seq![item@]);
                Some(item)
            } else {
                None
            }
        },
        None => None,
    }
}

fn push_opt(out: &mut Vec<InfoItem>, item: Option<InfoItem>)
    ensures
        items_view(final(out)@) == items_view(old(out)@) + match item {
            Some(i) => seq![i@],
            None => Seq::<InfoItemView>::empty(),
        },
{
    match item {
        Some(i) => {
            let ghost before = out@;
            out.push(i);
            assert(items_view(out@) =~= items_view(before) + seq![i@]);
        },
        None => {
            assert(items_view(out@) + Seq::<InfoItemView>::empty() =~= items_view(out@));
        },
    }
}

/// Build the new (non-dismissed) info items from a manifest and the running
/// versions. An item is suppressed when it was dismissed at a version the
/// manifest has not advanced past.
pub fn build_items(
    m: &Manifest,
    cur_cyberdesk: &str,
    cur_cef: &str,
    cur_tor: &str,
    dismissed: &Vec<(String, String)>,
) -> (r: Vec<InfoItem>)
    requires
        names_unique(m@.components),
        names_unique(pairs_view(dismissed@)),
    ensures
        items_view(r@) == items_spec(m@, cur_cyberdesk@, cur_cef@, cur_tor@, pairs_view(dismissed@)),
{
    let mut out: Vec<InfoItem> = Vec::new();
    assert(items_view(out@) =~= Seq::<InfoItemView>::empty());
    let cd = product_item(&m.cyberdesk, cur_cyberdesk, dismissed);
    push_opt(&mut out, cd);
    let cef = component_item(
        &m.components,
        "cef",
        "cef-update",
        "CEF core update recommended",
        "The bundled CEF core is ",
        cur_cef,
        dismissed,
    );
    push_opt(&mut out, cef);
    let tor = component_item(
        &m.components,
        "tor",
        "tor-update",
        "Tor engine update recommended",
        "The embedded Tor engine (arti) is ",
        cur_tor,
        dismissed,
    );
    push_opt(&mut out, tor);
    proof {
        let d = pairs_view(dismissed@);
        assert(items_view(out@) =~= items_spec(m@, cur_cyberdesk@, cur_cef@, cur_tor@, d));
    }
    out
}

// --- Laws ---------------------------------------------------------------------

/// Running exactly the latest / recommended versions (or newer) yields no
/// items.
pub proof fn law_up_to_date_yields_no_items(
    m: ManifestView,
    cd: Seq<char>,
    cef: Seq<char>,
    tor: Seq<char>,
    d: Seq<(Seq<char>, Seq<char>)>,
)
    requires
        !older(version_components(cd), version_components(m.cyberdesk.latest)),
        first_value(m.components, "cef"@) matches Some(c) ==> !older(
            version_components(cef),
            version_components(c.recommended),
        ),
        first_value(m.components, "tor"@) matches Some(c) ==> !older(
            version_components(tor),
            version_components(c.recommended),
        ),
    ensures
        items_spec(m, cd, cef, tor, d).len() == 0,
{
}

/// Dismissal hides an item until the manifest advances past the version it
/// was dismissed at: with the product behind the latest and dismissed at
/// `dv`, its item is offered exactly when `dv` is older than the latest.
pub proof fn law_dismissal_hides_until_advanced(
    p: ProductView,
    cur: Seq<char>,
    d: Seq<(Seq<char>, Seq<char>)>,
    dv: Seq<char>,
)
    requires
        first_value(d, "cyberdesk-update"@) == Some(dv),
        older(version_components(cur), version_components(p.latest)),
    ensures
        product_items(p, cur, d).len() == 1 <==> older(
            version_components(dv),
            version_components(p.latest),
        ),
        product_items(p, cur, d).len() <= 1,
{
}

/// A tracked component is treated alike: behind its recommendation and
/// dismissed at `dv`, its item is offered exactly when `dv` is older than
/// the recommendation; a manifest without the component yields no item.
pub proof fn law_component_dismissal(
    comps: Seq<(Seq<char>, ComponentView)>,
    key: Seq<char>,
    id: Seq<char>,
    title: Seq<char>,
    lead: Seq<char>,
    cur: Seq<char>,
    d: Seq<(Seq<char>, Seq<char>)>,
    dv: Seq<char>,
)
    requires
        first_value(d, id) == Some(dv),
    ensures
        first_value(comps, key) is None ==> component_items(comps, key, id, title, lead, cur, d).len()
            == 0,
        match first_value(comps, key) {
            Some(c) => older(version_components(cur), version_components(c.recommended)) ==> (
            component_items(comps, key, id, title, lead, cur, d).len() == 1 <==> older(
                version_components(dv),
                version_components(c.recommended),
            )),
            None => true,
        },
{
}

/// The severity of a component's item comes from its `reason`: `security`
/// or `info` when the trimmed reason is that word in any case, and
/// `recommended` for any other reason or none. The product's own item is
/// always `recommended`.
pub proof fn law_item_severity(
    p: ProductView,
    comps: Seq<(Seq<char>, ComponentView)>,
    key: Seq<char>,
    id: Seq<char>,
    title: Seq<char>,
    lead: Seq<char>,
    cur: Seq<char>,
    d: Seq<(Seq<char>, Seq<char>)>,
)
    ensures
        product_items(p, cur, d).len() == 1 ==> product_items(p, cur, d)[0].severity
            == "recommended"@,
        component_items(comps, key, id, title, lead, cur, d).len() == 1 ==> ({
            let sev = component_items(comps, key, id, title, lead, cur, d)[0].severity;
            let reason = first_value(comps, key)->0.reason;
            match reason {
                None => sev == "recommended"@,
                Some(r) => if eq_ignore_case(trim(r), "security"@) {
                    sev == "security"@
                } else if eq_ignore_case(trim(r), "info"@) {
                    sev == "info"@
                } else {
                    sev == "recommended"@
                },
            }
        }),
{
}

} // verus!
