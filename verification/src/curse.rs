//! Resolution against the generic catalog family: filter the file listing
//! to release-phase entries and pick the one with the greatest upload
//! timestamp.

use vstd::prelude::*;
use crate::types::{Addon, AddonLock, LockError};
use crate::strutil::{parse_u64_spec, parse_u64, concat3};
use crate::pages::{curse_entries_of, curse_file_entries};

verus! {

/// The (version text, timestamp) pairs of the release-phase entries of a
/// listing, in document order; or the error of the first entry whose
/// version or timestamp cannot be read.
pub open spec fn parsed_releases(
    es: Seq<(bool, Option<Seq<char>>, Option<Seq<char>>)>,
) -> Result<Seq<(Seq<char>, u64)>, LockError>
    decreases es.len(),
{
    if es.len() == 0 {
        Ok(Seq::empty())
    } else {
        match parsed_releases(es.drop_last()) {
            Err(e) => Err(e),
            Ok(pre) => {
                let e = es.last();
                if !e.0 {
                    Ok(pre)
                } else if !(e.1 is Some && e.2 is Some) {
                    Err(LockError::LayoutError)
                } else {
                    match parse_u64_spec(e.2->0) {
                        None => Err(LockError::ParseError),
                        Some(t) => Ok(pre.push((e.1->0, t))),
                    }
                }
            },
        }
    }
}

/// The index of the last entry holding the maximum timestamp.
pub open spec fn best_idx(ts: Seq<u64>) -> int
    decreases ts.len(),
{
    if ts.len() <= 1 {
        0
    } else {
        let b = best_idx(ts.drop_last());
        if ts.last() >= ts[b] {
            ts.len() - 1
        } else {
            b
        }
    }
}

pub proof fn lemma_best_idx_props(ts: Seq<u64>)
    requires
        ts.len() > 0,
    ensures
        0 <= best_idx(ts) < ts.len(),
        forall|j: int| 0 <= j < ts.len() ==> #[trigger] ts[j] <= ts[best_idx(ts)],
    decreases ts.len(),
{
    if ts.len() > 1 {
        lemma_best_idx_props(ts.drop_last());
        assert(forall|j: int| 0 <= j < ts.len() - 1 ==> ts.drop_last()[j] == ts[j]);
    }
}

/// What resolution yields from a listing page's entries: the version and
/// timestamp of the selected release entry, or the failure.
pub open spec fn curse_selection(
    es: Seq<(bool, Option<Seq<char>>, Option<Seq<char>>)>,
) -> Result<(Seq<char>, u64), LockError> {
    match parsed_releases(es) {
        Err(e) => Err(e),
        Ok(ps) => if ps.len() == 0 {
            Err(LockError::LayoutError)
        } else {
            Ok(ps[best_idx(ps.map_values(|p: (Seq<char>, u64)| p.1))])
        },
    }
}

proof fn lemma_parsed_releases_err_persists(
    es: Seq<(bool, Option<Seq<char>>, Option<Seq<char>>)>,
    i: int,
)
    requires
        0 <= i <= es.len(),
        parsed_releases(es.subrange(0, i)) is Err,
    ensures
        parsed_releases(es) == parsed_releases(es.subrange(0, i)),
    decreases es.len() - i,
{
    if i == es.len() {
        assert(es.subrange(0, i) =~= es);
    } else {
        assert(es.subrange(0, i + 1).drop_last() =~= es.subrange(0, i));
        assert(es.subrange(0, i + 1).last() == es[i]);
        lemma_parsed_releases_err_persists(es, i + 1);
    }
}

/// Selects from the listing entries the release entry with the greatest
/// upload timestamp; fails when a release entry is unreadable or when no
/// release entry exists.
pub fn select_curse_release(
    entries: &Vec<(bool, Option<String>, Option<String>)>,
) -> (r: Result<(String, u64), LockError>)
    ensures
        r is Ok <==> curse_selection(entries.deep_view()) is Ok,
        r is Ok ==> r->Ok_0.0@ == curse_selection(entries.deep_view())->Ok_0.0,
        r is Ok ==> r->Ok_0.1 == curse_selection(entries.deep_view())->Ok_0.1,
        r is Err ==> r->Err_0 == curse_selection(entries.deep_view())->Err_0,
{
    let ghost es = entries.deep_view();
    let mut vers: Vec<String> = Vec::new();
    let mut tss: Vec<u64> = Vec::new();
    let n = entries.len();
    let mut i: usize = 0;
    while i < n
        invariant
            i <= n,
            n == entries.len(),
            es == entries.deep_view(),
            es.len() == n,
            parsed_releases(es.subrange(0, i as int)) is Ok,
            vers.len() == parsed_releases(es.subrange(0, i as int))->Ok_0.len(),
            forall|x: int| 0 <= x < vers.len() ==> (#[trigger] vers@[x])@
                == parsed_releases(es.subrange(0, i as int))->Ok_0[x].0,
            tss@ == parsed_releases(es.subrange(0, i as int))->Ok_0.map_values(
                |p: (Seq<char>, u64)| p.1,
            ),
            vers.len() == tss.len(),
        decreases n - i,
    {
        proof {
            assert(es.subrange(0, i + 1).drop_last() =~= es.subrange(0, i as int));
            assert(es.subrange(0, i + 1).last() == es[i as int]);
            assert(es[i as int].0 == entries[i as int].0);
            assert(es[i as int].1 == entries[i as int].1.deep_view());
            assert(es[i as int].2 == entries[i as int].2.deep_view());
        }
        let e = &entries[i];
        if e.0 {
            match (&e.1, &e.2) {
                (Some(v), Some(t)) => {
                    match parse_u64(t.as_str()) {
                        Some(ts) => {
                            vers.push(v.clone());
                            tss.push(ts);
                            proof {
                                let pre = parsed_releases(es.subrange(0, i as int))->Ok_0;
                                let cur = parsed_releases(es.subrange(0, i + 1))->Ok_0;
                                assert(cur == pre.push((es[i as int].1->0, ts)));
                                assert(forall|x: int| 0 <= x < pre.len()
                                    ==> #[trigger] cur[x] == pre[x]);
                                assert((vers@[vers.len() - 1])@ == cur[vers.len() - 1].0);
                                assert(tss@ =~= cur.map_values(|p: (Seq<char>, u64)| p.1));
                            }
                        },
                        None => {
                            proof {
                                lemma_parsed_releases_err_persists(es, i + 1);
                            }
                            return Err(LockError::ParseError);
                        },
                    }
                },
                _ => {
                    proof {
                        lemma_parsed_releases_err_persists(es, i + 1);
                    }
                    return Err(LockError::LayoutError);
                },
            }
        } else {
            proof {
                assert(parsed_releases(es.subrange(0, i + 1))->Ok_0
                    == parsed_releases(es.subrange(0, i as int))->Ok_0);
            }
        }
        i += 1;
    }
    proof {
        assert(es.subrange(0, n as int) =~= es);
    }
    if tss.len() == 0 {
        return Err(LockError::LayoutError);
    }
    let ghost ps = parsed_releases(es)->Ok_0;
    proof {
        assert(tss@ == ps.map_values(|p: (Seq<char>, u64)| p.1));
        lemma_best_idx_props(tss@);
    }
    let mut b: usize = 0;
    let mut k: usize = 1;
    let m = tss.len();
    while k < m
        invariant
            m == tss.len(),
            tss.len() > 0,
            1 <= k <= m,
            b < k,
            b == best_idx(tss@.subrange(0, k as int)),
        decreases m - k,
    {
        proof {
            assert(tss@.subrange(0, k + 1).drop_last() =~= tss@.subrange(0, k as int));
            assert(tss@.subrange(0, k + 1).last() == tss@[k as int]);
            lemma_best_idx_props(tss@.subrange(0, k as int));
        }
        if tss[k] >= tss[b] {
            b = k;
        }
        k += 1;
    }
    proof {
        assert(tss@.subrange(0, m as int) =~= tss@);
        assert(ps.map_values(|p: (Seq<char>, u64)| p.0)[b as int] == ps[b as int].0);
        assert(ps.map_values(|p: (Seq<char>, u64)| p.1)[b as int] == ps[b as int].1);
    }
    Ok((vers[b].clone(), tss[b]))
}

/// Resolves an add-on of the generic catalog family from its file-listing
/// page. The lock's `name` is `<provider>/<addon-name>`, `resolved` is the
/// catalog name itself, and version and timestamp come from the selected
/// release entry.
pub fn get_curse_lock(addon: &Addon, files_page: &str) -> (r: Result<AddonLock, LockError>)
    ensures
        r is Ok <==> curse_selection(curse_entries_of(files_page@)) is Ok,
        r is Ok ==> ({
            let sel = curse_selection(curse_entries_of(files_page@))->Ok_0;
            &&& r->Ok_0.name@ == addon.provider@ + "/"@ + addon.name@
            &&& r->Ok_0.resolved@ == addon.name@
            &&& r->Ok_0.version@ == sel.0
            &&& r->Ok_0.timestamp == sel.1
        }),
        r is Err ==> r->Err_0 == curse_selection(curse_entries_of(files_page@))->Err_0,
{
    let entries = curse_file_entries(files_page);
    match select_curse_release(&entries) {
        Ok((version, timestamp)) => Ok(AddonLock {
            name: concat3(addon.provider.as_str(), "/", addon.name.as_str()),
            resolved: addon.name.clone(),
            version,
            timestamp,
        }),
        Err(e) => Err(e),
    }
}

/// Some listing entry is tagged as a release and carries exactly this
/// version text and (parsed) upload timestamp.
pub open spec fn release_entry_with(
    es: Seq<(bool, Option<Seq<char>>, Option<Seq<char>>)>,
    v: Seq<char>,
    t: u64,
) -> bool {
    exists|i: int| 0 <= i < es.len() && (#[trigger] es[i]).0 && es[i].1 == Some(v)
        && es[i].2 is Some && parse_u64_spec(es[i].2->0) == Some(t)
}

proof fn lemma_parsed_releases_entries(es: Seq<(bool, Option<Seq<char>>, Option<Seq<char>>)>)
    requires
        parsed_releases(es) is Ok,
    ensures
        forall|j: int| 0 <= j < parsed_releases(es)->Ok_0.len() ==> release_entry_with(
            es,
            (#[trigger] parsed_releases(es)->Ok_0[j]).0,
            parsed_releases(es)->Ok_0[j].1,
        ),
    decreases es.len(),
{
    if es.len() > 0 {
        assert(parsed_releases(es.drop_last()) is Ok);
        lemma_parsed_releases_entries(es.drop_last());
        let d = es.drop_last();
        let pre = parsed_releases(d)->Ok_0;
        let cur = parsed_releases(es)->Ok_0;
        assert(forall|i: int| 0 <= i < es.len() - 1 ==> #[trigger] d[i] == es[i]);
        assert(es[es.len() - 1] == es.last());
        assert forall|j: int| 0 <= j < cur.len() implies release_entry_with(
            es,
            (#[trigger] cur[j]).0,
            cur[j].1,
        ) by {
            if es.last().0 {
                assert(cur == pre.push((es.last().1->0, parse_u64_spec(es.last().2->0)->0)));
            } else {
                assert(cur == pre);
            }
            if j < pre.len() {
                assert(cur[j] == pre[j]);
                assert(release_entry_with(d, parsed_releases(d)->Ok_0[j].0,
                    parsed_releases(d)->Ok_0[j].1));
                let i0 = choose|i: int|
                    0 <= i < d.len() && (#[trigger] d[i]).0 && d[i].1 == Some(pre[j].0)
                        && d[i].2 is Some && parse_u64_spec(d[i].2->0) == Some(pre[j].1);
                assert(0 <= i0 < es.len() && es[i0].0 && es[i0].1 == Some(cur[j].0)
                    && es[i0].2 is Some && parse_u64_spec(es[i0].2->0) == Some(cur[j].1));
            } else {
                let i0 = es.len() - 1;
                assert(es.last().0);
                assert(cur[j] == (es.last().1->0, parse_u64_spec(es.last().2->0)->0));
                assert(es[i0].1 is Some);
                assert(0 <= i0 < es.len() && es[i0].0 && es[i0].1 == Some(cur[j].0)
                    && es[i0].2 is Some && parse_u64_spec(es[i0].2->0) == Some(cur[j].1));
            }
        }
        assert(cur == parsed_releases(es)->Ok_0);
    }
}

proof fn lemma_parsed_releases_covers(es: Seq<(bool, Option<Seq<char>>, Option<Seq<char>>)>)
    requires
        parsed_releases(es) is Ok,
    ensures
        forall|i: int| 0 <= i < es.len() && (#[trigger] es[i]).0 ==> exists|j: int|
            0 <= j < parsed_releases(es)->Ok_0.len()
                && parsed_releases(es)->Ok_0[j].1 == parse_u64_spec(es[i].2->0)->0,
    decreases es.len(),
{
    if es.len() > 0 {
        assert(parsed_releases(es.drop_last()) is Ok);
        lemma_parsed_releases_covers(es.drop_last());
        let d = es.drop_last();
        let pre = parsed_releases(d)->Ok_0;
        let cur = parsed_releases(es)->Ok_0;
        assert(forall|i: int| 0 <= i < es.len() - 1 ==> #[trigger] d[i] == es[i]);
        assert(es[es.len() - 1] == es.last());
        if es.last().0 {
            assert(cur == pre.push((es.last().1->0, parse_u64_spec(es.last().2->0)->0)));
            assert(forall|j: int| 0 <= j < pre.len() ==> #[trigger] cur[j] == pre[j]);
        } else {
            assert(cur == pre);
        }
        assert forall|i: int| 0 <= i < es.len() && (#[trigger] es[i]).0 implies exists|j: int|
            0 <= j < parsed_releases(es)->Ok_0.len()
                && parsed_releases(es)->Ok_0[j].1 == parse_u64_spec(es[i].2->0)->0 by {
            assert(parsed_releases(es)->Ok_0 == cur);
            if i < es.len() - 1 {
                assert((d[i]).0);
                let j0 = choose|j: int|
                    0 <= j < pre.len() && pre[j].1 == parse_u64_spec(d[i].2->0)->0;
                assert(0 <= j0 < cur.len() && cur[j0].1 == parse_u64_spec(es[i].2->0)->0);
            } else {
                assert(es[i] == es.last());
                assert(es.last().0);
                let j0 = cur.len() - 1;
                assert(0 <= j0 < cur.len() && cur[j0].1 == parse_u64_spec(es[i].2->0)->0);
            }
        }
    }
}

/// Law: whenever resolution from a listing succeeds, the chosen version
/// and timestamp belong to an entry tagged as a release, and no release
/// entry of the listing carries a greater timestamp — whatever the
/// document order of the entries.
pub proof fn lemma_curse_selects_max_release(
    es: Seq<(bool, Option<Seq<char>>, Option<Seq<char>>)>,
)
    requires
        curse_selection(es) is Ok,
    ensures
        release_entry_with(es, curse_selection(es)->Ok_0.0, curse_selection(es)->Ok_0.1),
        forall|i: int| 0 <= i < es.len() && (#[trigger] es[i]).0
            ==> parse_u64_spec(es[i].2->0)->0 <= curse_selection(es)->Ok_0.1,
{
    let ps = parsed_releases(es)->Ok_0;
    let ts = ps.map_values(|p: (Seq<char>, u64)| p.1);
    let b = best_idx(ts);
    lemma_best_idx_props(ts);
    lemma_parsed_releases_entries(es);
    lemma_parsed_releases_covers(es);
    assert(ts.len() == ps.len());
    assert(ps[b].1 == ts[b]);
    assert(curse_selection(es)->Ok_0 == ps[b]);
    assert(release_entry_with(es, (parsed_releases(es)->Ok_0[b]).0,
        parsed_releases(es)->Ok_0[b].1));
    assert forall|i: int| 0 <= i < es.len() && (#[trigger] es[i]).0
        implies parse_u64_spec(es[i].2->0)->0 <= curse_selection(es)->Ok_0.1 by {
        let j = choose|j: int| 0 <= j < ps.len() && ps[j].1 == parse_u64_spec(es[i].2->0)->0;
        assert(ts[j] == ps[j].1);
        assert(ts[j] <= ts[b]);
    }
}

} // verus!
