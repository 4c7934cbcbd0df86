//! Trusted extraction of plain values from provider HTML pages.
//!
//! Each function here parses a page with the `select` crate and hands the
//! library the values its logic reads: flags, texts and attribute strings.
//! What a given page yields is a pure function of the page text, so each
//! result is given an uninterpreted name that the callers' contracts and
//! proofs speak of.

use vstd::prelude::*;
use select::document::Document;
use select::predicate::{Attr, Class, Name, Predicate};

verus! {

/// For each file-list item of a catalog listing page, in document order:
/// whether the item carries a release-phase marker, the text of its
/// file-link element, and its `data-epoch` attribute.
pub uninterp spec fn curse_entries_of(page: Seq<char>) -> Seq<
    (bool, Option<Seq<char>>, Option<Seq<char>>),
>;

/// Relies on select's `Document::from`, `find` with `Class`, `Attr` and
/// `Name` predicates, `Node::text` and `Node::attr`: one record per
/// `project-file-list-item` element, in document order.
#[verifier::external_body]
pub fn curse_file_entries(page: &str) -> (r: Vec<(bool, Option<String>, Option<String>)>)
    ensures
        r.deep_view() == curse_entries_of(page@),
{
    let doc = Document::from(page);
    doc.find(Class("project-file-list-item")).map(|item| {
        (
            item.find(Class("project-file-release-type").descendant(Class("release-phase")))
                .next().is_some(),
            item.find(Class("project-file-name").descendant(Attr("data-action", "file-link")))
                .next().map(|n| n.text()),
            item.find(Class("project-file-date-uploaded").descendant(Name("abbr")))
                .next().and_then(|n| n.attr("data-epoch")).map(String::from),
        )
    }).collect()
}

/// The texts of the `b.Premium` elements under the element with id
/// `version` on a flagship landing page, in document order.
pub uninterp spec fn tuk_version_texts_of(page: Seq<char>) -> Seq<Seq<char>>;

/// Relies on select's `Document::from`, `find` with `Attr`, `Name` and
/// `Class` predicates and `Node::text`: the texts of the matched
/// elements, in document order.
#[verifier::external_body]
pub fn tuk_version_texts(page: &str) -> (r: Vec<String>)
    ensures
        r.deep_view() == tuk_version_texts_of(page@),
{
    let doc = Document::from(page);
    doc.find(Attr("id", "version").descendant(Name("b").and(Class("Premium"))))
        .map(|n| n.text())
        .collect()
}

/// The texts of the `b.VIP` elements under the element with id `extras`
/// on a generic catalog entry page, in document order.
pub uninterp spec fn tuk_extras_texts_of(page: Seq<char>) -> Seq<Seq<char>>;

/// Relies on select's `Document::from`, `find` with `Attr`, `Name` and
/// `Class` predicates and `Node::text`: the texts of the matched
/// elements, in document order.
#[verifier::external_body]
pub fn tuk_extras_texts(page: &str) -> (r: Vec<String>)
    ensures
        r.deep_view() == tuk_extras_texts_of(page@),
{
    let doc = Document::from(page);
    doc.find(Attr("id", "extras").descendant(Name("b").and(Class("VIP"))))
        .map(|n| n.text())
        .collect()
}

/// The `href` attribute of each anchor under the `addons addons-list`
/// element of a search result page, in document order.
pub uninterp spec fn tuk_search_hrefs_of(page: Seq<char>) -> Seq<Option<Seq<char>>>;

/// Relies on select's `Document::from`, `find` with `Class` and `Name`
/// predicates and `Node::attr`: one entry per matched anchor, in
/// document order.
#[verifier::external_body]
pub fn tuk_search_hrefs(page: &str) -> (r: Vec<Option<String>>)
    ensures
        r.deep_view() == tuk_search_hrefs_of(page@),
{
    let doc = Document::from(page);
    doc.find(Class("addons").and(Class("addons-list")).descendant(Name("a")))
        .map(|n| n.attr("href").map(String::from))
        .collect()
}

/// The `href` attribute of every anchor element of a page, in document
/// order.
pub uninterp spec fn page_anchor_hrefs_of(page: Seq<char>) -> Seq<Option<Seq<char>>>;

/// Relies on select's `Document::from`, `find` with the `Name` predicate
/// and `Node::attr`: one entry per anchor element, in document order.
#[verifier::external_body]
pub fn page_anchor_hrefs(page: &str) -> (r: Vec<Option<String>>)
    ensures
        r.deep_view() == page_anchor_hrefs_of(page@),
{
    let doc = Document::from(page);
    doc.find(Name("a")).map(|n| n.attr("href").map(String::from)).collect()
}

} // verus!
