//! Resolution against the multi-shape catalog family: a dedicated page
//! layout for the two flagship packages, and a search-then-version-page
//! flow, with identity memoization, for generic catalog entries.

use vstd::prelude::*;
use crate::types::{Addon, AddonLock, LockError};
use crate::strutil::{concat2, plus_joined, replace_spaces, str_eq, tail_after_last,
    tail_after_last_spec};
use crate::timeparse::{civil_to_timestamp, epoch_of_civil, parse_tuk_date, parse_tuk_time,
    parse_ymd, tuk_date_parts, tuk_time_parts, valid_civil, ymd_parts};
use crate::pages::{tuk_extras_texts, tuk_extras_texts_of, tuk_search_hrefs, tuk_search_hrefs_of,
    tuk_version_texts, tuk_version_texts_of};

verus! {

/// The two flagship packages with a dedicated page layout.
pub open spec fn is_flagship_spec(name: Seq<char>) -> bool {
    name == "elvui"@ || name == "tukui"@
}

/// Whether the add-on is one of the two flagship packages.
pub fn tuk_is_flagship(name: &str) -> (b: bool)
    ensures
        b == is_flagship_spec(name@),
{
    str_eq(name, "elvui") || str_eq(name, "tukui")
}

/// The version label placeholder for the branch whose page does not
/// expose a structured version field: a surfaced gap, never a guess.
pub open spec fn unresolved_version_spec() -> Seq<char> {
    "unresolved"@
}

/// The explicit marker used when a page exposes no structured version.
pub fn unresolved_version() -> (r: String)
    ensures
        r@ == unresolved_version_spec(),
{
    let r = String::new();
    let out = r.concat("unresolved");
    out
}

/// What Branch A (flagship layout) yields from the landing page's marked
/// texts: lock fields (name, resolved, version, timestamp). The first
/// text is the version, the second a `YYYY-MM-DD` date normalized to
/// midnight UTC.
pub open spec fn flagship_lock_spec(name: Seq<char>, texts: Seq<Seq<char>>) -> Result<
    (Seq<char>, Seq<char>, Seq<char>, u64),
    LockError,
> {
    if texts.len() < 2 {
        Err(LockError::LayoutError)
    } else {
        match ymd_parts(texts[1]) {
            None => Err(LockError::ParseError),
            Some(p) => if 1970 <= p.0 <= 9999 && valid_civil(p.0, p.1, p.2, 0, 0, 0)
                && epoch_of_civil(p.0, p.1, p.2, 0, 0, 0) >= 0 {
                Ok(
                    (
                        "tukui/"@ + name,
                        name,
                        texts[0],
                        epoch_of_civil(p.0, p.1, p.2, 0, 0, 0) as u64,
                    ),
                )
            } else {
                Err(LockError::ParseError)
            },
        }
    }
}

/// What Branch B (generic layout) yields from the version page's marked
/// texts, for a known internal id: the second text is a `Mon D, YYYY`
/// date and the third an `H:MM` time; the version is the explicit
/// unresolved marker.
pub open spec fn generic_lock_spec(name: Seq<char>, id: Seq<char>, texts: Seq<Seq<char>>) -> Result<
    (Seq<char>, Seq<char>, Seq<char>, u64),
    LockError,
> {
    if texts.len() < 3 {
        Err(LockError::LayoutError)
    } else {
        match tuk_date_parts(texts[1]) {
            None => Err(LockError::ParseError),
            Some(p) => match tuk_time_parts(texts[2]) {
                None => Err(LockError::ParseError),
                Some(t) => if 1970 <= p.0 <= 9999 && valid_civil(p.0, p.1, p.2, t.0, t.1, 0)
                    && epoch_of_civil(p.0, p.1, p.2, t.0, t.1, 0) >= 0 {
                    Ok(
                        (
                            "tukui/"@ + name,
                            id,
                            unresolved_version_spec(),
                            epoch_of_civil(p.0, p.1, p.2, t.0, t.1, 0) as u64,
                        ),
                    )
                } else {
                    Err(LockError::ParseError)
                },
            },
        }
    }
}

/// The internal id taken from a search result page: the trailing part of
/// the first anchor's link after its `?id=` parameter.
pub open spec fn search_id_spec(hrefs: Seq<Option<Seq<char>>>) -> Result<Seq<char>, LockError> {
    if hrefs.len() == 0 || hrefs[0] is None {
        Err(LockError::LayoutError)
    } else {
        Ok(tail_after_last_spec(hrefs[0]->0, "?id="@))
    }
}

/// Extracts the internal id from a search result page's first anchor.
pub fn tuk_resolved_from_search(search_page: &str) -> (r: Result<String, LockError>)
    ensures
        r is Ok <==> search_id_spec(tuk_search_hrefs_of(search_page@)) is Ok,
        r is Ok ==> r->Ok_0@ == search_id_spec(tuk_search_hrefs_of(search_page@))->Ok_0,
        r is Err ==> r->Err_0 == search_id_spec(tuk_search_hrefs_of(search_page@))->Err_0,
{
    let hrefs = tuk_search_hrefs(search_page);
    if hrefs.len() == 0 {
        return Err(LockError::LayoutError);
    }
    proof {
        assert(hrefs.deep_view()[0] == hrefs@[0].deep_view());
    }
    proof {
        reveal_strlit("?id=");
    }
    match &hrefs[0] {
        Some(h) => Ok(tail_after_last(h.as_str(), "?id=")),
        None => Err(LockError::LayoutError),
    }
}

/// What resolution yields for this provider family: Branch A for the two
/// flagship names, otherwise Branch B with the previous lock's id when
/// one is supplied (never searching again), or with the id of the first
/// search result. A missing search page when one is needed is a fetch
/// failure.
pub open spec fn tuk_lock_spec(
    name: Seq<char>,
    old_resolved: Option<Seq<char>>,
    search_hrefs: Option<Seq<Option<Seq<char>>>>,
    version_texts: Seq<Seq<char>>,
    extras_texts: Seq<Seq<char>>,
) -> Result<(Seq<char>, Seq<char>, Seq<char>, u64), LockError> {
    if is_flagship_spec(name) {
        flagship_lock_spec(name, version_texts)
    } else {
        match old_resolved {
            Some(id) => generic_lock_spec(name, id, extras_texts),
            None => match search_hrefs {
                None => Err(LockError::FetchError),
                Some(hs) => match search_id_spec(hs) {
                    Err(e) => Err(e),
                    Ok(id) => generic_lock_spec(name, id, extras_texts),
                },
            },
        }
    }
}

/// Whether resolving this add-on would have to search the catalog for an
/// internal id: only generic entries without a previous lock search.
pub fn tuk_needs_search(addon: &Addon, old_lock: Option<&AddonLock>) -> (b: bool)
    ensures
        b == (!is_flagship_spec(addon.name@) && old_lock is None),
{
    !tuk_is_flagship(addon.name.as_str()) && old_lock.is_none()
}

/// Resolves an add-on of this family. `page` is the flagship landing
/// page for the two flagship names, and the version page of the resolved
/// id otherwise; `search_page` is read only when no previous lock is
/// supplied for a generic entry.
pub fn get_tuk_lock(
    addon: &Addon,
    old_lock: Option<&AddonLock>,
    search_page: Option<&str>,
    page: &str,
) -> (r: Result<AddonLock, LockError>)
    ensures
        ({
            let m = tuk_lock_spec(
                addon.name@,
                match old_lock {
                    Some(l) => Some(l.resolved@),
                    None => None,
                },
                match search_page {
                    Some(sp) => Some(tuk_search_hrefs_of(sp@)),
                    None => None,
                },
                tuk_version_texts_of(page@),
                tuk_extras_texts_of(page@),
            );
            &&& r is Ok <==> m is Ok
            &&& r is Ok ==> r->Ok_0.name@ == m->Ok_0.0 && r->Ok_0.resolved@ == m->Ok_0.1
                && r->Ok_0.version@ == m->Ok_0.2 && r->Ok_0.timestamp == m->Ok_0.3
            &&& r is Err ==> r->Err_0 == m->Err_0
        }),
{
    if tuk_is_flagship(addon.name.as_str()) {
        let texts = tuk_version_texts(page);
        if texts.len() < 2 {
            return Err(LockError::LayoutError);
        }
        proof {
            assert(texts.deep_view()[0] == texts@[0]@);
            assert(texts.deep_view()[1] == texts@[1]@);
        }
        let version = texts[0].clone();
        match parse_ymd(texts[1].as_str()) {
            None => Err(LockError::ParseError),
            Some((y, mo, d)) => {
                match civil_to_timestamp(y, mo, d, 0, 0, 0) {
                    Ok(ts) => Ok(AddonLock {
                        name: concat2("tukui/", addon.name.as_str()),
                        resolved: addon.name.clone(),
                        version,
                        timestamp: ts,
                    }),
                    Err(e) => Err(e),
                }
            },
        }
    } else {
        let id: String = match old_lock {
            Some(l) => l.resolved.clone(),
            None => {
                match search_page {
                    None => {
                        return Err(LockError::FetchError);
                    },
                    Some(sp) => {
                        match tuk_resolved_from_search(sp) {
                            Ok(id) => id,
                            Err(e) => {
                                return Err(e);
                            },
                        }
                    },
                }
            },
        };
        let texts = tuk_extras_texts(page);
        if texts.len() < 3 {
            return Err(LockError::LayoutError);
        }
        proof {
            assert(texts.deep_view()[1] == texts@[1]@);
            assert(texts.deep_view()[2] == texts@[2]@);
        }
        match parse_tuk_date(texts[1].as_str()) {
            None => Err(LockError::ParseError),
            Some((y, mo, d)) => {
                match parse_tuk_time(texts[2].as_str()) {
                    None => Err(LockError::ParseError),
                    Some((hh, mi)) => {
                        match civil_to_timestamp(y, mo, d, hh, mi, 0) {
                            Ok(ts) => Ok(AddonLock {
                                name: concat2("tukui/", addon.name.as_str()),
                                resolved: id,
                                version: unresolved_version(),
                                timestamp: ts,
                            }),
                            Err(e) => Err(e),
                        }
                    },
                }
            },
        }
    }
}

/// The landing page address of a flagship package.
pub fn tuk_flagship_url(name: &str) -> (r: String)
    ensures
        r@ == "https://www.tukui.org/download.php?ui="@ + name@,
{
    concat2("https://www.tukui.org/download.php?ui=", name)
}

/// The catalog search address for a display name, spaces word-joined.
pub fn tuk_search_url(name: &str) -> (r: String)
    ensures
        r@ == "https://www.tukui.org/addons.php?search="@ + plus_joined(name@),
{
    let term = replace_spaces(name);
    concat2("https://www.tukui.org/addons.php?search=", term.as_str())
}

/// The version page address of an internal id.
pub fn tuk_version_url(id: &str) -> (r: String)
    ensures
        r@ == "https://www.tukui.org/addons.php?id="@ + id@,
{
    concat2("https://www.tukui.org/addons.php?id=", id)
}

/// Law: with a previous lock, a second resolution of a generic entry
/// reads no search page — any search result, or none at all, yields the
/// same outcome — and the id it resolves to is the previous lock's id,
/// verbatim.
pub proof fn lemma_previous_lock_reuses_id(
    name: Seq<char>,
    id: Seq<char>,
    s1: Option<Seq<Option<Seq<char>>>>,
    s2: Option<Seq<Option<Seq<char>>>>,
    version_texts: Seq<Seq<char>>,
    extras_texts: Seq<Seq<char>>,
)
    requires
        !is_flagship_spec(name),
    ensures
        tuk_lock_spec(name, Some(id), s1, version_texts, extras_texts) == tuk_lock_spec(
            name,
            Some(id),
            s2,
            version_texts,
            extras_texts,
        ),
        tuk_lock_spec(name, Some(id), s1, version_texts, extras_texts) is Ok ==> tuk_lock_spec(
            name,
            Some(id),
            s1,
            version_texts,
            extras_texts,
        )->Ok_0.1 == id,
{
}

} // verus!
