//! Trusted wrappers around the outside crates that the parsers lean on:
//! scraper (CSS selection over HTML), serde_json (the embedded gallery
//! blob), http (URL normalization) and rand (queue shuffling).
//!
//! Each wrapper names or states what the outside call returns; the verified
//! parsers build their contracts on those names.
use vstd::prelude::*;

use rand::seq::SliceRandom;

verus! {

/// Whether scraper's `Selector::parse` accepts `selector`.
pub uninterp spec fn selector_parses(selector: Seq<char>) -> bool;

/// The `attr` values of the elements matching `selector` in `html` parsed as
/// a full document, in document order.
pub uninterp spec fn doc_attr_seq(html: Seq<char>, selector: Seq<char>, attr: Seq<char>) -> Seq<
    Seq<char>,
>;

/// The `attr` values of the elements matching `selector` in `html` parsed as
/// a fragment, in document order.
pub uninterp spec fn frag_attr_seq(html: Seq<char>, selector: Seq<char>, attr: Seq<char>) -> Seq<
    Seq<char>,
>;

/// The string fields `html_key` and `kind_key` of each element of the array
/// under `items_key` of the JSON object `json`, in order; None when `json`
/// does not parse, or `items_key` is missing or does not hold an array.
pub uninterp spec fn gallery_items_of(
    json: Seq<char>,
    items_key: Seq<char>,
    html_key: Seq<char>,
    kind_key: Seq<char>,
) -> Option<Seq<(Option<Seq<char>>, Option<Seq<char>>)>>;

/// A URL reduced to scheme, host and path; None when it does not parse as a
/// URI or lacks a scheme or host.
pub uninterp spec fn normal_url(url: Seq<char>) -> Option<Seq<char>>;

/// One item of the embedded gallery blob: its HTML fragment and its type
/// tag, each absent when the blob does not carry that field as a string.
pub struct RawItem {
    pub html: Option<String>,
    pub kind: Option<String>,
}

impl View for RawItem {
    type V = (Option<Seq<char>>, Option<Seq<char>>);

    open spec fn view(&self) -> Self::V {
        (self.html.deep_view(), self.kind.deep_view())
    }
}

/// Relies on scraper's `Selector::parse`: tells whether the selector text is
/// accepted.
#[verifier::external_body]
pub(crate) fn check_selector(selector: &str) -> (b: bool)
    ensures
        b == selector_parses(selector@),
{
    scraper::Selector::parse(selector).is_ok()
}

/// Relies on scraper's `Html::parse_document`, `Selector::parse` and
/// `ElementRef::attr`: collects the `attr` values of the elements of `html`
/// matching `selector`, in document order.
#[verifier::external_body]
pub(crate) fn select_doc_attrs(html: &str, selector: &str, attr: &str) -> (r: Vec<String>)
    requires
        selector_parses(selector@),
    ensures
        r.deep_view() == doc_attr_seq(html@, selector@, attr@),
{
    let sel = scraper::Selector::parse(selector).expect("selector was checked");
    let doc = scraper::Html::parse_document(html);
    doc.select(&sel).filter_map(|el| el.attr(attr)).map(String::from).collect()
}

/// Relies on scraper's `Html::parse_fragment`, `Selector::parse` and
/// `ElementRef::attr`: collects the `attr` values of the elements of the
/// fragment `html` matching `selector`, in document order.
#[verifier::external_body]
pub(crate) fn select_frag_attrs(html: &str, selector: &str, attr: &str) -> (r: Vec<String>)
    requires
        selector_parses(selector@),
    ensures
        r.deep_view() == frag_attr_seq(html@, selector@, attr@),
{
    let sel = scraper::Selector::parse(selector).expect("selector was checked");
    let doc = scraper::Html::parse_fragment(html);
    doc.select(&sel).filter_map(|el| el.attr(attr)).map(String::from).collect()
}

/// Relies on serde_json's `from_str` and `Value::{get, as_array, as_str}`:
/// pulls the per-item string fields out of the array under `items_key`.
#[verifier::external_body]
pub(crate) fn gallery_items(json: &str, items_key: &str, html_key: &str, kind_key: &str) -> (r:
    Option<Vec<RawItem>>)
    ensures
        match r {
            Some(v) => gallery_items_of(json@, items_key@, html_key@, kind_key@) == Some(
                Seq::new(v@.len(), |i: int| v@[i]@),
            ),
            None => gallery_items_of(json@, items_key@, html_key@, kind_key@) is None,
        },
{
    let value: serde_json::Value = serde_json::from_str(json).ok()?;
    let items = value.get(items_key)?.as_array()?;
    let mut out = Vec::new();
    for item in items {
        out.push(
            RawItem {
                html: item.get(html_key).and_then(|f| f.as_str()).map(String::from),
                kind: item.get(kind_key).and_then(|f| f.as_str()).map(String::from),
            },
        );
    }
    Some(out)
}

/// Relies on http's `Uri` parser and its `scheme_str`, `host` and `path`
/// accessors: rebuilds the URL from scheme, host and path alone, dropping
/// query and fragment.
#[verifier::external_body]
pub(crate) fn normalize_url(url: &str) -> (r: Option<String>)
    ensures
        match r {
            Some(t) => normal_url(url@) == Some(t@),
            None => normal_url(url@) is None,
        },
{
    let uri: http::Uri = url.parse().ok()?;
    let scheme = uri.scheme_str()?;
    let host = uri.host()?;
    Some(format!("{}://{}{}", scheme, host, uri.path()))
}

/// Relies on rand's `SliceRandom::shuffle` (a Fisher-Yates permutation of
/// the slice in place) and `rand::rng`: the vector afterwards holds the same
/// strings, reordered.
#[verifier::external_body]
pub(crate) fn shuffle_strings(v: &mut Vec<String>)
    ensures
        final(v).deep_view().to_multiset() == old(v).deep_view().to_multiset(),
        final(v)@.len() == old(v)@.len(),
{
    v.as_mut_slice().shuffle(&mut rand::rng());
}

} // verus!
