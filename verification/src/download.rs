//! Artifact selection: which endpoint serves an add-on's package, how the
//! filename is discovered, and the allow-list check on the packaging
//! extension.

use vstd::prelude::*;
use crate::types::{Addon, AddonLock, ProviderKind, provider_kind, provider_kind_spec};
use crate::strutil::{concat2, concat3, ends_with_spec, starts_with_spec, str_ends_with,
    str_starts_with, tail_after_last, tail_after_last_spec};
use crate::tukui::{is_flagship_spec, tuk_is_flagship};
use crate::pages::{page_anchor_hrefs, page_anchor_hrefs_of};

verus! {

/// The candidate filename carries the packaging extension. This is the
/// allow-list check every branch applies before accepting an artifact.
pub fn is_supported_artifact(filename: &str) -> (b: bool)
    ensures
        b == ends_with_spec(filename@, ".zip"@),
{
    str_ends_with(filename, ".zip")
}

/// The trailing path segment of a URL: everything after its last slash,
/// or the whole URL when it has none.
pub fn filename_from_url(url: &str) -> (r: String)
    ensures
        r@ == tail_after_last_spec(url@, "/"@),
{
    proof {
        reveal_strlit("/");
    }
    tail_after_last(url, "/")
}

/// The filename carried by a content-disposition header: everything
/// after its last `filename=` marker.
pub fn filename_from_disposition(header: &str) -> (r: String)
    ensures
        r@ == tail_after_last_spec(header@, "filename="@),
{
    proof {
        reveal_strlit("filename=");
    }
    tail_after_last(header, "filename=")
}

/// The latest-file redirect endpoint of the generic catalog family; the
/// two mirror sites share one pattern.
pub fn curse_download_url(addon: &Addon) -> (r: String)
    ensures
        provider_kind_spec(addon.provider@) == ProviderKind::Curse ==> r@
            == "https://wow.curseforge.com/projects/"@ + addon.name@ + "/files/latest"@,
        provider_kind_spec(addon.provider@) != ProviderKind::Curse ==> r@
            == "https://wowace.com/projects/"@ + addon.name@ + "/files/latest"@,
{
    if matches!(provider_kind(addon.provider.as_str()), ProviderKind::Curse) {
        concat3("https://wow.curseforge.com/projects/", addon.name.as_str(), "/files/latest")
    } else {
        concat3("https://wowace.com/projects/", addon.name.as_str(), "/files/latest")
    }
}

/// The file-listing endpoint of the generic catalog family, sorted by
/// release type so stable releases surface on the first page.
pub fn curse_files_url(addon: &Addon) -> (r: String)
    ensures
        provider_kind_spec(addon.provider@) == ProviderKind::Curse ==> r@
            == "https://wow.curseforge.com/projects/"@ + addon.name@ + "/files?sort=releasetype"@,
        provider_kind_spec(addon.provider@) != ProviderKind::Curse ==> r@
            == "https://wowace.com/projects/"@ + addon.name@ + "/files?sort=releasetype"@,
{
    if matches!(provider_kind(addon.provider.as_str()), ProviderKind::Curse) {
        concat3(
            "https://wow.curseforge.com/projects/",
            addon.name.as_str(),
            "/files?sort=releasetype",
        )
    } else {
        concat3("https://wowace.com/projects/", addon.name.as_str(), "/files?sort=releasetype")
    }
}

/// The download-by-id endpoint of the multi-shape family, keyed by the
/// lock's internal id.
pub fn tuk_download_url(resolved: &str) -> (r: String)
    ensures
        r@ == "https://www.tukui.org/addons.php?download="@ + resolved@,
{
    concat2("https://www.tukui.org/addons.php?download=", resolved)
}

/// The first homepage link that starts with the add-on's download prefix
/// and ends in the packaging extension, made absolute; empty when none
/// matches.
pub open spec fn quick_link_spec(hrefs: Seq<Option<Seq<char>>>, prefix: Seq<char>) -> Seq<char>
    decreases hrefs.len(),
{
    if hrefs.len() == 0 {
        Seq::empty()
    } else {
        match hrefs[0] {
            Some(h) => if starts_with_spec(h, prefix) && ends_with_spec(h, ".zip"@) {
                "https://www.tukui.org"@ + h
            } else {
                quick_link_spec(hrefs.drop_first(), prefix)
            },
            None => quick_link_spec(hrefs.drop_first(), prefix),
        }
    }
}

/// Scans the catalog homepage's anchors for the add-on's quick download
/// link: the first link under `/downloads/<addon>` that ends in the
/// packaging extension. An empty string means none was found.
pub fn get_tukui_quick_download_link(addon: &str, homepage: &str) -> (r: String)
    ensures
        r@ == quick_link_spec(page_anchor_hrefs_of(homepage@), "/downloads/"@ + addon@),
{
    let prefix = concat2("/downloads/", addon);
    let hrefs = page_anchor_hrefs(homepage);
    let ghost hs = page_anchor_hrefs_of(homepage@);
    let n = hrefs.len();
    proof {
        assert(hs.subrange(0, hs.len() as int) =~= hs);
    }
    let mut i: usize = 0;
    while i < n
        invariant
            i <= n,
            n == hrefs.len(),
            hs == page_anchor_hrefs_of(homepage@),
            hrefs.deep_view() == hs,
            hs.len() == n,
            prefix@ == "/downloads/"@ + addon@,
            quick_link_spec(hs, prefix@) == quick_link_spec(
                hs.subrange(i as int, hs.len() as int),
                prefix@,
            ),
        decreases n - i,
    {
        proof {
            assert(hrefs.deep_view()[i as int] == hrefs@[i as int].deep_view());
            assert(hs.subrange(i as int, hs.len() as int)[0] == hs[i as int]);
            assert(hs.subrange(i as int, hs.len() as int).drop_first() =~= hs.subrange(
                i + 1,
                hs.len() as int,
            ));
        }
        match &hrefs[i] {
            Some(h) => {
                if str_starts_with(h.as_str(), prefix.as_str()) && str_ends_with(
                    h.as_str(),
                    ".zip",
                ) {
                    return concat2("https://www.tukui.org", h.as_str());
                }
            },
            None => {},
        }
        i += 1;
    }
    proof {
        assert(hs.subrange(n as int, hs.len() as int) =~= Seq::<Option<Seq<char>>>::empty());
    }
    let r = String::new();
    proof {
        assert(r@ =~= quick_link_spec(hs, prefix@));
    }
    r
}

/// How one add-on's artifact is obtained: a latest-file redirect whose
/// final URL names the file, the homepage quick link for a flagship
/// package, a download-by-id endpoint whose disposition header names the
/// file, or nothing for an unrecognized tag.
pub enum DownloadPlan {
    LatestRedirect { url: String },
    QuickHomepage,
    ByIdDisposition { url: String },
    Unsupported,
}

/// Chooses the download branch for a reference and its lock.
pub fn download_plan(addon: &Addon, lock: &AddonLock) -> (p: DownloadPlan)
    ensures
        ({
            let k = provider_kind_spec(addon.provider@);
            &&& k == ProviderKind::Curse ==> (p matches DownloadPlan::LatestRedirect { url }
                && url@ == "https://wow.curseforge.com/projects/"@ + addon.name@
                + "/files/latest"@)
            &&& k == ProviderKind::Ace ==> (p matches DownloadPlan::LatestRedirect { url } && url@
                == "https://wowace.com/projects/"@ + addon.name@ + "/files/latest"@)
            &&& (k == ProviderKind::Tukui && is_flagship_spec(addon.name@)) ==> (p
                matches DownloadPlan::QuickHomepage)
            &&& (k == ProviderKind::Tukui && !is_flagship_spec(addon.name@)) ==> (p
                matches DownloadPlan::ByIdDisposition { url } && url@
                == "https://www.tukui.org/addons.php?download="@ + lock.resolved@)
            &&& k == ProviderKind::Unknown ==> (p matches DownloadPlan::Unsupported)
        }),
{
    match provider_kind(addon.provider.as_str()) {
        ProviderKind::Curse => DownloadPlan::LatestRedirect { url: curse_download_url(addon) },
        ProviderKind::Ace => DownloadPlan::LatestRedirect { url: curse_download_url(addon) },
        ProviderKind::Tukui => {
            if tuk_is_flagship(addon.name.as_str()) {
                DownloadPlan::QuickHomepage
            } else {
                DownloadPlan::ByIdDisposition { url: tuk_download_url(lock.resolved.as_str()) }
            }
        },
        ProviderKind::Unknown => DownloadPlan::Unsupported,
    }
}

/// Law: every accepted artifact filename ends in the packaging
/// extension, in every provider branch — acceptance is exactly the
/// allow-list check, never a weaker heuristic.
pub proof fn lemma_accepted_artifact_is_zip(filename: Seq<char>, accepted: bool)
    requires
        accepted == ends_with_spec(filename, ".zip"@),
        accepted,
    ensures
        filename.len() >= 4 && filename.subrange(filename.len() - 4, filename.len() as int)
            == ".zip"@,
{
    reveal_strlit(".zip");
}

} // verus!
