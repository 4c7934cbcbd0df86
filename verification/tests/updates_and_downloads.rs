use addon_resolver::types::{Addon, AddonLock, LockError};
use addon_resolver::update::{check_curse_update, check_tuk_update, evaluate_update, get_lock,
    has_update};
use addon_resolver::download::{curse_download_url, curse_files_url, download_plan,
    filename_from_disposition, filename_from_url, get_tukui_quick_download_link,
    is_supported_artifact, tuk_download_url, DownloadPlan};
use addon_resolver::codec::{decode_lock, encode_lock, u64_to_string};
use addon_resolver::strutil::parse_u64;
use addon_resolver::timeparse::civil_to_timestamp;

fn addon(provider: &str, name: &str) -> Addon {
    Addon { provider: String::from(provider), name: String::from(name) }
}

fn lock(name: &str, resolved: &str, version: &str, timestamp: u64) -> AddonLock {
    AddonLock {
        name: String::from(name),
        resolved: String::from(resolved),
        version: String::from(version),
        timestamp,
    }
}

fn curse_release_page(version: &str, epoch: &str) -> String {
    format!(
        "<html><body><ul><li class=\"project-file-list-item\"><div class=\"project-file-release-type\"><span class=\"release-phase\"></span></div><div class=\"project-file-name\"><a data-action=\"file-link\">{}</a></div><div class=\"project-file-date-uploaded\"><abbr data-epoch=\"{}\"></abbr></div></li></ul></body></html>",
        version, epoch
    )
}

#[test]
fn newer_timestamp_yields_update_with_new_lock() {
    let current = lock("curse/x", "x", "v1", 100);
    let a = addon("curse", "x");
    let page = curse_release_page("v2", "150");
    let (changed, new_lock) = check_curse_update(&a, &current, &page).unwrap();
    assert!(changed);
    let new_lock = new_lock.unwrap();
    assert_eq!(new_lock.timestamp, 150);
    assert_eq!(new_lock.version, "v2");
}

#[test]
fn equal_or_older_timestamp_yields_no_update() {
    let current = lock("curse/x", "x", "v1", 100);
    let a = addon("curse", "x");
    let same = curse_release_page("v1", "100");
    assert_eq!(check_curse_update(&a, &current, &same).unwrap(), (false, None));
    let older = curse_release_page("v0", "50");
    assert_eq!(check_curse_update(&a, &current, &older).unwrap(), (false, None));
}

#[test]
fn checking_twice_without_persisting_is_idempotent() {
    let current = lock("curse/x", "x", "v1", 100);
    let a = addon("curse", "x");
    let page = curse_release_page("v2", "150");
    let first = check_curse_update(&a, &current, &page).unwrap();
    let second = check_curse_update(&a, &current, &page).unwrap();
    assert_eq!(first.0, second.0);
    assert_eq!(first.1.as_ref().unwrap().timestamp, second.1.as_ref().unwrap().timestamp);
}

#[test]
fn tuk_update_reuses_recorded_id() {
    let current = lock("tukui/some addon", "123", "unresolved", 0);
    let a = addon("tukui", "some addon");
    let page = "<html><body><div id=\"extras\"><b class=\"VIP\">skip</b><b class=\"VIP\">Mar 1, 2024</b><b class=\"VIP\">13:45</b></div></body></html>";
    let (changed, new_lock) = check_tuk_update(&a, &current, page).unwrap();
    assert!(changed);
    assert_eq!(new_lock.unwrap().resolved, "123");
}

#[test]
fn evaluate_update_strictly_greater() {
    let current = lock("curse/x", "x", "v1", 100);
    assert_eq!(evaluate_update(&current, lock("curse/x", "x", "v2", 100)), (false, None));
    let (changed, l) = evaluate_update(&current, lock("curse/x", "x", "v2", 101));
    assert!(changed);
    assert_eq!(l.unwrap().timestamp, 101);
}

#[test]
fn unknown_provider_resolve_returns_no_lock() {
    for tag in ["github", "wowinterface", "", "Curse", "tukui2"] {
        let a = addon(tag, "x");
        let r = get_lock(&a, None, None, "<html></html>");
        assert_eq!(r.unwrap_err(), LockError::UnknownProvider);
    }
}

#[test]
fn unknown_provider_update_check_is_soft() {
    for tag in ["github", "wowinterface", ""] {
        let a = addon(tag, "x");
        let current = lock("y/x", "x", "v", 1);
        assert_eq!(has_update(&a, &current, "<html></html>").unwrap(), (false, None));
    }
}

#[test]
fn dispatcher_routes_curse_and_tukui() {
    let a = addon("curse", "x");
    let l = get_lock(&a, None, None, &curse_release_page("v9", "42")).unwrap();
    assert_eq!(l.timestamp, 42);
    let b = addon("tukui", "elvui");
    let page = "<html><body><div id=\"version\"><b class=\"Premium\">v13</b><b class=\"Premium\">2024-03-01</b></div></body></html>";
    let l2 = get_lock(&b, None, None, page).unwrap();
    assert_eq!(l2.timestamp, 1709251200);
}

#[test]
fn artifact_extension_allow_list() {
    assert!(is_supported_artifact("addon.zip"));
    assert!(!is_supported_artifact("addon.rar"));
    assert!(!is_supported_artifact("addon.zip.html"));
    assert!(!is_supported_artifact(""));
    assert!(!is_supported_artifact("zip"));
}

#[test]
fn filename_discovery() {
    assert_eq!(filename_from_url("https://host/a/b/addon-1.2.zip"), "addon-1.2.zip");
    assert_eq!(filename_from_url("no-slashes"), "no-slashes");
    assert_eq!(
        filename_from_disposition("attachment; filename=addon-1.2.zip"),
        "addon-1.2.zip"
    );
}

#[test]
fn download_urls_per_branch() {
    let c = addon("curse", "dbm");
    assert_eq!(curse_download_url(&c), "https://wow.curseforge.com/projects/dbm/files/latest");
    assert_eq!(
        curse_files_url(&c),
        "https://wow.curseforge.com/projects/dbm/files?sort=releasetype"
    );
    let w = addon("ace", "dbm");
    assert_eq!(curse_download_url(&w), "https://wowace.com/projects/dbm/files/latest");
    assert_eq!(tuk_download_url("123"), "https://www.tukui.org/addons.php?download=123");
}

#[test]
fn download_plan_branches() {
    let l = lock("tukui/x", "123", "unresolved", 0);
    assert!(matches!(
        download_plan(&addon("curse", "dbm"), &l),
        DownloadPlan::LatestRedirect { .. }
    ));
    assert!(matches!(
        download_plan(&addon("tukui", "elvui"), &l),
        DownloadPlan::QuickHomepage
    ));
    match download_plan(&addon("tukui", "x"), &l) {
        DownloadPlan::ByIdDisposition { url } => {
            assert_eq!(url, "https://www.tukui.org/addons.php?download=123");
        },
        _ => panic!("expected the download-by-id branch"),
    }
    assert!(matches!(download_plan(&addon("other", "x"), &l), DownloadPlan::Unsupported));
}

#[test]
fn quick_link_takes_first_matching_anchor() {
    let homepage = "<html><body><a>no link</a><a href=\"/downloads/elvui-13.37.rar\">rar</a><a href=\"/other/elvui.zip\">wrong path</a><a href=\"/downloads/elvui-13.37.zip\">yes</a><a href=\"/downloads/elvui-13.38.zip\">later</a></body></html>";
    assert_eq!(
        get_tukui_quick_download_link("elvui", homepage),
        "https://www.tukui.org/downloads/elvui-13.37.zip"
    );
    assert_eq!(get_tukui_quick_download_link("elvui", "<html></html>"), "");
}

#[test]
fn lock_round_trips_through_the_codec() {
    let l = lock("tukui/some addon", "123", "unresolved", 1709300700);
    let text = encode_lock(&l);
    let back = decode_lock(&text).unwrap();
    assert_eq!(back.name, l.name);
    assert_eq!(back.resolved, l.resolved);
    assert_eq!(back.version, l.version);
    assert_eq!(back.timestamp, l.timestamp);
}

#[test]
fn resolved_lock_round_trips() {
    let a = addon("curse", "some-addon");
    let l = addon_resolver::curse::get_curse_lock(&a, &curse_release_page("v1.2:x", "300"))
        .unwrap();
    let back = decode_lock(&encode_lock(&l)).unwrap();
    assert_eq!(back.name, "curse/some-addon");
    assert_eq!(back.resolved, "some-addon");
    assert_eq!(back.version, "v1.2:x");
    assert_eq!(back.timestamp, 300);
}

#[test]
fn codec_rejects_malformed_text() {
    assert!(decode_lock("").is_none());
    assert!(decode_lock("abc").is_none());
    assert!(decode_lock("5:1:1:1:ab").is_none());
    assert!(decode_lock("5:2:1:1:abcd").is_some());
}

#[test]
fn numbers_print_and_parse() {
    assert_eq!(u64_to_string(0), "0");
    assert_eq!(u64_to_string(1709251200), "1709251200");
    assert_eq!(u64_to_string(u64::MAX), "18446744073709551615");
    assert_eq!(parse_u64("0"), Some(0));
    assert_eq!(parse_u64("00123"), Some(123));
    assert_eq!(parse_u64(""), None);
    assert_eq!(parse_u64("12a"), None);
    assert_eq!(parse_u64("18446744073709551615"), Some(u64::MAX));
    assert_eq!(parse_u64("18446744073709551616"), None);
}

#[test]
fn civil_conversion_matches_known_epochs() {
    assert_eq!(civil_to_timestamp(1970, 1, 1, 0, 0, 0).unwrap(), 0);
    assert_eq!(civil_to_timestamp(2024, 3, 1, 0, 0, 0).unwrap(), 1709251200);
    assert_eq!(civil_to_timestamp(2024, 3, 1, 13, 45, 0).unwrap(), 1709300700);
    assert_eq!(
        civil_to_timestamp(2023, 2, 29, 0, 0, 0).unwrap_err(),
        LockError::ParseError
    );
    assert_eq!(
        civil_to_timestamp(1969, 12, 31, 0, 0, 0).unwrap_err(),
        LockError::ParseError
    );
}
