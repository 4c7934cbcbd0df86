//! The resolver dispatcher and the update checker: route a reference by
//! its provider tag, re-resolve, and compare the fresh lock's timestamp
//! against the recorded one.

use vstd::prelude::*;
use crate::types::{Addon, AddonLock, LockError, ProviderKind, provider_kind, provider_kind_spec};
use crate::curse::{curse_selection, get_curse_lock};
use crate::pages::{curse_entries_of, tuk_extras_texts_of, tuk_search_hrefs_of,
    tuk_version_texts_of};
use crate::tukui::{get_tuk_lock, tuk_lock_spec};

verus! {

/// An update exists exactly when the freshly resolved timestamp is
/// strictly greater than the recorded one.
pub open spec fn update_decision(current_ts: u64, fresh_ts: u64) -> bool {
    fresh_ts > current_ts
}

/// Compares a fresh lock against the recorded one: on a strictly greater
/// timestamp the fresh lock replaces the old wholesale; otherwise nothing
/// is returned and the recorded lock stands.
pub fn evaluate_update(current: &AddonLock, fresh: AddonLock) -> (r: (bool, Option<AddonLock>))
    ensures
        r.0 == update_decision(current.timestamp, fresh.timestamp),
        r.0 ==> r.1 is Some && r.1->0.name@ == fresh.name@ && r.1->0.resolved@ == fresh.resolved@
            && r.1->0.version@ == fresh.version@ && r.1->0.timestamp == fresh.timestamp,
        !r.0 ==> r.1 is None,
{
    if fresh.timestamp > current.timestamp {
        (true, Some(fresh))
    } else {
        (false, None)
    }
}

/// Law: the update decision depends on the recorded and fresh timestamps
/// alone, so checking twice without persisting the first result yields
/// the same outcome both times.
pub proof fn lemma_update_check_idempotent(
    current_ts: u64,
    fresh_ts: u64,
    first: bool,
    second: bool,
)
    requires
        first == update_decision(current_ts, fresh_ts),
        second == update_decision(current_ts, fresh_ts),
    ensures
        first == second,
{
}

/// Resolves a reference to a lock, routing by provider tag: the generic
/// catalog family reads `page` as its file listing; the multi-shape
/// family reads `page` as its landing or version page and `search_page`
/// when it must search; an unrecognized tag yields no lock, only the
/// diagnostic error.
pub fn get_lock(
    addon: &Addon,
    old_lock: Option<&AddonLock>,
    search_page: Option<&str>,
    page: &str,
) -> (r: Result<AddonLock, LockError>)
    ensures
        ({
            let k = provider_kind_spec(addon.provider@);
            &&& (k == ProviderKind::Curse || k == ProviderKind::Ace) ==> ({
                let sel = curse_selection(curse_entries_of(page@));
                &&& r is Ok <==> sel is Ok
                &&& r is Ok ==> r->Ok_0.name@ == addon.provider@ + "/"@ + addon.name@
                    && r->Ok_0.resolved@ == addon.name@ && r->Ok_0.version@ == sel->Ok_0.0
                    && r->Ok_0.timestamp == sel->Ok_0.1
                &&& r is Err ==> r->Err_0 == sel->Err_0
            })
            &&& k == ProviderKind::Tukui ==> ({
                let m = tuk_lock_spec(
                    addon.name@,
                    match old_lock {
                        Some(l) => Some(l.resolved@),
                        None => None,
                    },
                    match search_page {
                        Some(sp) => Some(tuk_search_hrefs_of(sp@)),
                        None => None,
                    },
                    tuk_version_texts_of(page@),
                    tuk_extras_texts_of(page@),
                );
                &&& r is Ok <==> m is Ok
                &&& r is Ok ==> r->Ok_0.name@ == m->Ok_0.0 && r->Ok_0.resolved@ == m->Ok_0.1
                    && r->Ok_0.version@ == m->Ok_0.2 && r->Ok_0.timestamp == m->Ok_0.3
                &&& r is Err ==> r->Err_0 == m->Err_0
            })
            &&& k == ProviderKind::Unknown ==> r == Result::<AddonLock, LockError>::Err(
                LockError::UnknownProvider,
            )
        }),
{
    match provider_kind(addon.provider.as_str()) {
        ProviderKind::Curse => get_curse_lock(addon, page),
        ProviderKind::Ace => get_curse_lock(addon, page),
        ProviderKind::Tukui => get_tuk_lock(addon, old_lock, search_page, page),
        ProviderKind::Unknown => Err(LockError::UnknownProvider),
    }
}

/// Re-resolves an add-on of the generic catalog family from its listing
/// page and compares against the recorded lock.
pub fn check_curse_update(addon: &Addon, lock: &AddonLock, files_page: &str) -> (r: Result<
    (bool, Option<AddonLock>),
    LockError,
>)
    ensures
        ({
            let sel = curse_selection(curse_entries_of(files_page@));
            &&& r is Ok <==> sel is Ok
            &&& r is Err ==> r->Err_0 == sel->Err_0
            &&& r is Ok ==> r->Ok_0.0 == update_decision(lock.timestamp, sel->Ok_0.1)
            &&& (r is Ok && r->Ok_0.0) ==> ({
                let l = r->Ok_0.1->0;
                &&& r->Ok_0.1 is Some
                &&& l.name@ == addon.provider@ + "/"@ + addon.name@
                &&& l.resolved@ == addon.name@
                &&& l.version@ == sel->Ok_0.0
                &&& l.timestamp == sel->Ok_0.1
            })
            &&& (r is Ok && !r->Ok_0.0) ==> r->Ok_0.1 is None
        }),
{
    match get_curse_lock(addon, files_page) {
        Ok(fresh) => Ok(evaluate_update(lock, fresh)),
        Err(e) => Err(e),
    }
}

/// Re-resolves an add-on of the multi-shape family — always reusing the
/// recorded lock's id, so no search page is ever needed — and compares
/// against the recorded lock.
pub fn check_tuk_update(addon: &Addon, lock: &AddonLock, page: &str) -> (r: Result<
    (bool, Option<AddonLock>),
    LockError,
>)
    ensures
        ({
            let m = tuk_lock_spec(
                addon.name@,
                Some(lock.resolved@),
                None,
                tuk_version_texts_of(page@),
                tuk_extras_texts_of(page@),
            );
            &&& r is Ok <==> m is Ok
            &&& r is Err ==> r->Err_0 == m->Err_0
            &&& r is Ok ==> r->Ok_0.0 == update_decision(lock.timestamp, m->Ok_0.3)
            &&& (r is Ok && r->Ok_0.0) ==> ({
                let l = r->Ok_0.1->0;
                &&& r->Ok_0.1 is Some
                &&& l.name@ == m->Ok_0.0
                &&& l.resolved@ == m->Ok_0.1
                &&& l.version@ == m->Ok_0.2
                &&& l.timestamp == m->Ok_0.3
            })
            &&& (r is Ok && !r->Ok_0.0) ==> r->Ok_0.1 is None
        }),
{
    match get_tuk_lock(addon, Some(lock), None, page) {
        Ok(fresh) => Ok(evaluate_update(lock, fresh)),
        Err(e) => Err(e),
    }
}

/// Checks one add-on for an upstream update, routing by provider tag.
/// An unrecognized tag is soft: no update and no lock, without an error.
pub fn has_update(addon: &Addon, lock: &AddonLock, page: &str) -> (r: Result<
    (bool, Option<AddonLock>),
    LockError,
>)
    ensures
        ({
            let k = provider_kind_spec(addon.provider@);
            &&& (k == ProviderKind::Curse || k == ProviderKind::Ace) ==> ({
                let sel = curse_selection(curse_entries_of(page@));
                &&& r is Ok <==> sel is Ok
                &&& r is Ok ==> r->Ok_0.0 == update_decision(lock.timestamp, sel->Ok_0.1)
                &&& (r is Ok && !r->Ok_0.0) ==> r->Ok_0.1 is None
                &&& (r is Ok && r->Ok_0.0) ==> r->Ok_0.1 is Some && r->Ok_0.1->0.timestamp
                    == sel->Ok_0.1
            })
            &&& k == ProviderKind::Tukui ==> ({
                let m = tuk_lock_spec(
                    addon.name@,
                    Some(lock.resolved@),
                    None,
                    tuk_version_texts_of(page@),
                    tuk_extras_texts_of(page@),
                );
                &&& r is Ok <==> m is Ok
                &&& r is Ok ==> r->Ok_0.0 == update_decision(lock.timestamp, m->Ok_0.3)
                &&& (r is Ok && !r->Ok_0.0) ==> r->Ok_0.1 is None
                &&& (r is Ok && r->Ok_0.0) ==> r->Ok_0.1 is Some && r->Ok_0.1->0.timestamp
                    == m->Ok_0.3
            })
            &&& k == ProviderKind::Unknown ==> r is Ok && r->Ok_0.0 == false && r->Ok_0.1 is None
        }),
{
    match provider_kind(addon.provider.as_str()) {
        ProviderKind::Curse => check_curse_update(addon, lock, page),
        ProviderKind::Ace => check_curse_update(addon, lock, page),
        ProviderKind::Tukui => check_tuk_update(addon, lock, page),
        ProviderKind::Unknown => Ok((false, None)),
    }
}

} // verus!
