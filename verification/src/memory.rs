//! History + favorites gating over the local store. History records every
//! surf-view page visit; favorites are the user's star toggles. Internal
//! `cyberdesk://` pages and blank navigations never enter either table: each
//! operation here decides which store request, if any, the host performs.

use vstd::prelude::*;
use crate::text::{chars_of, text_eq};
use crate::update_state::starts_with;

verus! {

/// A request to the history / favorites store.
#[derive(Debug, PartialEq, Eq)]
pub enum HistoryCommand {
    /// Record a visit (bumping the visit count).
    RecordVisit { url: String, title: String },
    /// Refresh the stored title of the url's history row.
    UpdateTitle { url: String, title: String },
    /// Ask whether the url is a favorite.
    IsFavorite { url: String },
    /// Toggle the url's favorite state; the store answers the new state.
    ToggleFavorite { url: String, title: String },
    /// Command-palette suggestions for the input, capped at `limit`.
    QuerySuggestions { input: String, limit: usize },
}

/// Only real web pages enter history/favorites: not empty, not
/// `about:blank`, not the internal scheme.
pub open spec fn recordable(url: Seq<char>) -> bool {
    url.len() > 0 && url != "about:blank"@ && !starts_with(url, "cyberdesk://"@)
}

fn is_recordable(url: &str) -> (r: bool)
    ensures
        r == recordable(url@),
{
    let cs = chars_of(url);
    if cs.len() == 0 || text_eq(url, "about:blank") {
        return false;
    }
    let p = chars_of("cyberdesk://");
    if p.len() > cs.len() {
        return true;
    }
    let mut i: usize = 0;
    while i < p.len()
        invariant
            p@ == "cyberdesk://"@,
            p.len() <= cs.len(),
            cs@ == url@,
            url@.len() > 0,
            url@ != "about:blank"@,
            i <= p.len(),
            forall|j: int| 0 <= j < i ==> cs@[j] == p@[j],
        decreases p.len() - i,
    {
        if cs[i] != p[i] {
            assert(cs@.take(p.len() as int)[i as int] != p@[i as int]);
            assert(cs@.take(p.len() as int) != p@);
            assert(!starts_with(url@, "cyberdesk://"@));
            return true;
        }
        i = i + 1;
    }
    assert(cs@.take(p.len() as int) =~= p@);
    false
}

fn own(s: &str) -> (r: String)
    ensures
        r@ == s@,
{
    let mut r = String::new();
    r.append(s);
    r
}

/// Record a visit to `url`; nothing for internal/blank urls.
pub fn record_visit(url: &str, title: &str) -> (r: Option<HistoryCommand>)
    ensures
        recordable(url@) ==> (r matches Some(HistoryCommand::RecordVisit { url: u, title: t })
            && u@ == url@ && t@ == title@),
        !recordable(url@) ==> r is None,
{
    if is_recordable(url) {
        Some(HistoryCommand::RecordVisit { url: own(url), title: own(title) })
    } else {
        None
    }
}

/// Refresh the stored title of `url`'s history row; nothing for
/// internal/blank urls or an empty title.
pub fn update_title(url: &str, title: &str) -> (r: Option<HistoryCommand>)
    ensures
        recordable(url@) && title@.len() > 0 ==> (r matches Some(
            HistoryCommand::UpdateTitle { url: u, title: t },
        ) && u@ == url@ && t@ == title@),
        !(recordable(url@) && title@.len() > 0) ==> r is None,
{
    if is_recordable(url) && !title.is_empty() {
        Some(HistoryCommand::UpdateTitle { url: own(url), title: own(title) })
    } else {
        None
    }
}

/// Is `url` currently a favorite? The store is asked only for real pages;
/// an internal/blank url is never one (no request: the answer is false).
pub fn is_favorite(url: &str) -> (r: Option<HistoryCommand>)
    ensures
        recordable(url@) ==> (r matches Some(HistoryCommand::IsFavorite { url: u }) && u@
            == url@),
        !recordable(url@) ==> r is None,
{
    if is_recordable(url) {
        Some(HistoryCommand::IsFavorite { url: own(url) })
    } else {
        None
    }
}

/// Toggle `url`'s favorite state; internal/blank urls are never favorited
/// (no request: the new state is false).
pub fn toggle_favorite(url: &str, title: &str) -> (r: Option<HistoryCommand>)
    ensures
        recordable(url@) ==> (r matches Some(HistoryCommand::ToggleFavorite { url: u, title: t })
            && u@ == url@ && t@ == title@),
        !recordable(url@) ==> r is None,
{
    if is_recordable(url) {
        Some(HistoryCommand::ToggleFavorite { url: own(url), title: own(title) })
    } else {
        None
    }
}

/// Command-palette suggestions for `input` (favorites first, then history by
/// frecency), capped at `limit`: always a store request.
pub fn query_suggestions(input: &str, limit: usize) -> (r: HistoryCommand)
    ensures
        r matches HistoryCommand::QuerySuggestions { input: i, limit: l } && i@ == input@ && l
            == limit,
{
    HistoryCommand::QuerySuggestions { input: own(input), limit }
}

/// The internal scheme and blank navigations are never recorded, retitled,
/// favorited or reported as favorites.
pub proof fn law_internal_pages_never_recorded(rest: Seq<char>)
    ensures
        !recordable("cyberdesk://"@ + rest),
        !recordable("about:blank"@),
        !recordable(Seq::empty()),
{
    assert(("cyberdesk://"@ + rest).take("cyberdesk://"@.len() as int) =~= "cyberdesk://"@);
}

} // verus!
