use addon_resolver::types::{Addon, AddonLock, LockError, ProviderKind};
use addon_resolver::curse::get_curse_lock;
use addon_resolver::tukui::{get_tuk_lock, tuk_is_flagship, tuk_needs_search,
    tuk_resolved_from_search, tuk_flagship_url, tuk_search_url, tuk_version_url};
use addon_resolver::types::provider_kind;

fn addon(provider: &str, name: &str) -> Addon {
    Addon { provider: String::from(provider), name: String::from(name) }
}

fn curse_item(release: bool, version: &str, epoch: &str) -> String {
    let phase = if release {
        "<div class=\"project-file-release-type\"><span class=\"release-phase\"></span></div>"
    } else {
        "<div class=\"project-file-release-type\"><span class=\"alpha-phase\"></span></div>"
    };
    format!(
        "<li class=\"project-file-list-item\">{}<div class=\"project-file-name\"><a data-action=\"file-link\">{}</a></div><div class=\"project-file-date-uploaded\"><abbr data-epoch=\"{}\"></abbr></div></li>",
        phase, version, epoch
    )
}

fn curse_page(items: &[String]) -> String {
    format!("<html><body><ul>{}</ul></body></html>", items.join(""))
}

#[test]
fn curse_picks_max_timestamp_release() {
    // a non-release entry carries the greatest timestamp on purpose
    let page = curse_page(&[
        curse_item(true, "v1.0", "100"),
        curse_item(false, "v2.0-alpha", "999"),
        curse_item(true, "v1.2", "300"),
        curse_item(true, "v1.1", "200"),
    ]);
    let a = addon("curse", "some-addon");
    let lock = get_curse_lock(&a, &page).unwrap();
    assert_eq!(lock.version, "v1.2");
    assert_eq!(lock.timestamp, 300);
    assert_eq!(lock.name, "curse/some-addon");
    assert_eq!(lock.resolved, "some-addon");
}

#[test]
fn curse_ignores_document_order() {
    let page = curse_page(&[
        curse_item(true, "newest", "500"),
        curse_item(true, "older", "400"),
    ]);
    let a = addon("curse", "x");
    let lock = get_curse_lock(&a, &page).unwrap();
    assert_eq!(lock.version, "newest");
    assert_eq!(lock.timestamp, 500);
}

#[test]
fn curse_no_release_entries_is_layout_error() {
    let page = curse_page(&[curse_item(false, "a", "1"), curse_item(false, "b", "2")]);
    let a = addon("curse", "x");
    assert_eq!(get_curse_lock(&a, &page).unwrap_err(), LockError::LayoutError);
}

#[test]
fn curse_bad_epoch_is_parse_error() {
    let page = curse_page(&[curse_item(true, "v", "not-a-number")]);
    let a = addon("curse", "x");
    assert_eq!(get_curse_lock(&a, &page).unwrap_err(), LockError::ParseError);
}

#[test]
fn curse_missing_fields_is_layout_error() {
    let page = curse_page(&[String::from(
        "<li class=\"project-file-list-item\"><div class=\"project-file-release-type\"><span class=\"release-phase\"></span></div></li>",
    )]);
    let a = addon("curse", "x");
    assert_eq!(get_curse_lock(&a, &page).unwrap_err(), LockError::LayoutError);
}

fn flagship_page(version: &str, date: &str) -> String {
    format!(
        "<html><body><div id=\"version\"><b class=\"Premium\">{}</b><b class=\"Premium\">{}</b></div></body></html>",
        version, date
    )
}

fn extras_page(version: &str, date: &str, time: &str) -> String {
    format!(
        "<html><body><div id=\"extras\"><b class=\"VIP\">{}</b><b class=\"VIP\">{}</b><b class=\"VIP\">{}</b></div></body></html>",
        version, date, time
    )
}

#[test]
fn flagship_date_normalizes_to_midnight_utc() {
    let page = flagship_page("v13.37", "2024-03-01");
    let a = addon("tukui", "elvui");
    let lock = get_tuk_lock(&a, None, None, &page).unwrap();
    // midnight UTC of 2024-03-01
    assert_eq!(lock.timestamp, 1709251200);
    assert_eq!(lock.version, "v13.37");
    assert_eq!(lock.name, "tukui/elvui");
    assert_eq!(lock.resolved, "elvui");
}

#[test]
fn flagship_detection() {
    assert!(tuk_is_flagship("elvui"));
    assert!(tuk_is_flagship("tukui"));
    assert!(!tuk_is_flagship("details"));
}

#[test]
fn generic_reuses_previous_id_and_never_searches() {
    let old = AddonLock {
        name: String::from("tukui/some addon"),
        resolved: String::from("123"),
        version: String::from("unresolved"),
        timestamp: 5,
    };
    let a = addon("tukui", "some addon");
    assert!(!tuk_needs_search(&a, Some(&old)));
    assert!(tuk_needs_search(&a, None));
    let page = extras_page("skip", "Mar 1, 2024", "13:45");
    // two different (even nonsensical) search pages: the outcome is the same
    let l1 = get_tuk_lock(&a, Some(&old), None, &page).unwrap();
    let l2 = get_tuk_lock(&a, Some(&old), Some("<html><body></body></html>"), &page).unwrap();
    assert_eq!(l1.resolved, "123");
    assert_eq!(l2.resolved, "123");
    assert_eq!(l1.name, l2.name);
    assert_eq!(l1.timestamp, l2.timestamp);
}

#[test]
fn generic_search_extracts_id_from_first_link() {
    let page = "<html><body><div class=\"addons addons-list\"><a href=\"addons.php?id=123\">first</a><a href=\"addons.php?id=456\">second</a></div></body></html>";
    assert_eq!(tuk_resolved_from_search(page).unwrap(), "123");
}

#[test]
fn generic_search_without_results_is_layout_error() {
    let page = "<html><body></body></html>";
    assert_eq!(tuk_resolved_from_search(page).unwrap_err(), LockError::LayoutError);
}

#[test]
fn generic_lock_combines_date_and_time() {
    let a = addon("tukui", "some addon");
    let search = "<html><body><div class=\"addons addons-list\"><a href=\"addons.php?id=42\">x</a></div></body></html>";
    let page = extras_page("skip", "Mar 1, 2024", "13:45");
    let lock = get_tuk_lock(&a, None, Some(search), &page).unwrap();
    assert_eq!(lock.resolved, "42");
    assert_eq!(lock.name, "tukui/some addon");
    // the version label is not obtainable from this page shape
    assert_eq!(lock.version, "unresolved");
    // 2024-03-01 13:45:00 UTC
    assert_eq!(lock.timestamp, 1709251200 + 13 * 3600 + 45 * 60);
}

#[test]
fn generic_lock_without_search_page_is_fetch_error() {
    let a = addon("tukui", "some addon");
    let page = extras_page("skip", "Mar 1, 2024", "13:45");
    assert_eq!(get_tuk_lock(&a, None, None, &page).unwrap_err(), LockError::FetchError);
}

#[test]
fn generic_bad_date_is_parse_error() {
    let a = addon("tukui", "x");
    let old = AddonLock {
        name: String::from("tukui/x"),
        resolved: String::from("9"),
        version: String::from("unresolved"),
        timestamp: 0,
    };
    let page = extras_page("skip", "garbage", "13:45");
    assert_eq!(get_tuk_lock(&a, Some(&old), None, &page).unwrap_err(), LockError::ParseError);
}

#[test]
fn provider_kinds() {
    assert_eq!(provider_kind("curse"), ProviderKind::Curse);
    assert_eq!(provider_kind("ace"), ProviderKind::Ace);
    assert_eq!(provider_kind("tukui"), ProviderKind::Tukui);
    assert_eq!(provider_kind("github"), ProviderKind::Unknown);
    assert_eq!(provider_kind(""), ProviderKind::Unknown);
}

#[test]
fn tukui_urls() {
    assert_eq!(tuk_flagship_url("elvui"), "https://www.tukui.org/download.php?ui=elvui");
    assert_eq!(
        tuk_search_url("big addon pack"),
        "https://www.tukui.org/addons.php?search=big+addon+pack"
    );
    assert_eq!(tuk_version_url("123"), "https://www.tukui.org/addons.php?id=123");
}

#[test]
fn generic_date_tolerates_padded_day() {
    let a = addon("tukui", "x");
    let old = AddonLock {
        name: String::from("tukui/x"),
        resolved: String::from("9"),
        version: String::from("unresolved"),
        timestamp: 0,
    };
    let page = extras_page("skip", "Mar  1, 2024", "13:45");
    let lock = get_tuk_lock(&a, Some(&old), None, &page).unwrap();
    assert_eq!(lock.timestamp, 1709251200 + 13 * 3600 + 45 * 60);
}

#[test]
fn flagship_bad_date_is_parse_error() {
    let a = addon("tukui", "elvui");
    let page = flagship_page("v13", "2024/03/01");
    assert_eq!(get_tuk_lock(&a, None, None, &page).unwrap_err(), LockError::ParseError);
    let short = "<html><body><div id=\"version\"><b class=\"Premium\">v13</b></div></body></html>";
    assert_eq!(get_tuk_lock(&a, None, None, short).unwrap_err(), LockError::LayoutError);
}
