//! Parsers for the listing site: page-list construction, listing-page and
//! sub-page extraction, and the brace-balanced search for the structured-data
//! blob embedded in a sub-page.
use vstd::prelude::*;

use crate::scrape::{
    check_selector, doc_attr_seq, frag_attr_seq, gallery_items, gallery_items_of, normal_url,
    normalize_url, select_frag_attrs, select_doc_attrs, selector_parses, shuffle_strings, RawItem,
};
use crate::text::{dec_digits, find_from, find_str, matches_at, u32_to_string};

verus! {

/// Number of listing pages the crawl may visit.
pub const TOTAL_PAGES: u32 = 282;

/// The listing's base URL.
pub const CHIVE_URL: &'static str = "https://thechive.com/category/sexy-girls";

/// The CSS selector for the card links of a listing page.
pub const CARD_SELECTOR: &'static str =
    "div.main-column div.cards-content div.slot.type-post article.post.card.type-post a.card-img-link[itemprop=image]";

/// The text marker that precedes the embedded gallery blob in a sub-page.
pub const GALLERY_MARKER: &'static str = "CHIVE_GALLERY_ITEMS";

/// Why a page could not be parsed.
#[derive(Debug, Clone, Copy, PartialEq, Eq, Structural)]
pub enum ParseError {
    /// No embedded gallery blob was found in the page.
    NoEmbeddedData,
    /// The blob is not JSON, or its item array is missing or not an array.
    MalformedData,
    /// A CSS selector was refused by the selector parser.
    BadSelector,
}

/// The message a [`ParseError`] carries to the caller.
pub open spec fn parse_error_message(e: ParseError) -> Seq<char> {
    match e {
        ParseError::NoEmbeddedData => "No JSON found in Page's content."@,
        ParseError::MalformedData => "Items is missing or not an array."@,
        ParseError::BadSelector => "Invalid CSS selector."@,
    }
}

impl ParseError {
    /// A human-readable description of the error.
    pub fn message(&self) -> (r: String)
        ensures
            r@ == parse_error_message(*self),
    {
        match self {
            ParseError::NoEmbeddedData => "No JSON found in Page's content.".to_owned(),
            ParseError::MalformedData => "Items is missing or not an array.".to_owned(),
            ParseError::BadSelector => "Invalid CSS selector.".to_owned(),
        }
    }
}

/// The listing URL of page `i`: the base URL for page 1, the base URL with a
/// page suffix otherwise.
pub open spec fn page_url_spec(i: nat) -> Seq<char> {
    if i == 1 {
        CHIVE_URL@ + "/"@
    } else {
        CHIVE_URL@ + "/page/"@ + dec_digits(i) + "/"@
    }
}

/// The full page list before shuffling: pages 1 through `TOTAL_PAGES`.
pub open spec fn page_urls_seq() -> Seq<Seq<char>> {
    Seq::new(TOTAL_PAGES as nat, |i: int| page_url_spec((i + 1) as nat))
}

/// Builds the listing URLs for pages 1 through `TOTAL_PAGES`, in randomized
/// order.
pub fn init_chive_pages() -> (r: Vec<String>)
    ensures
        r@.len() == TOTAL_PAGES,
        r.deep_view().to_multiset() == page_urls_seq().to_multiset(),
{
    let mut pages: Vec<String> = Vec::new();
    let mut i: u32 = 1;
    while i <= TOTAL_PAGES
        invariant
            1 <= i <= TOTAL_PAGES + 1,
            pages@.len() == i - 1,
            pages.deep_view() =~= page_urls_seq().take(i - 1),
        decreases TOTAL_PAGES + 1 - i,
    {
        let url = if i == 1 {
            let mut s = CHIVE_URL.to_owned();
            s.append("/");
            s
        } else {
            let mut s = CHIVE_URL.to_owned();
            s.append("/page/");
            let digits = u32_to_string(i);
            s.append(digits.as_str());
            s.append("/");
            s
        };
        pages.push(url);
        assert(pages.deep_view() =~= page_urls_seq().take(i as int));
        i += 1;
    }
    assert(pages.deep_view() =~= page_urls_seq());
    shuffle_strings(&mut pages);
    pages
}

/// Extracts the sub-page links of a listing page: the `href` values of the
/// card links, in randomized order.  `Err` exactly when the card selector is
/// refused by the selector parser.
pub fn parse_chive_page(html: &str) -> (r: Result<Vec<String>, ParseError>)
    ensures
        r is Ok <==> selector_parses(CARD_SELECTOR@),
        r matches Ok(v) ==> v.deep_view().to_multiset() == doc_attr_seq(
            html@,
            CARD_SELECTOR@,
            "href"@,
        ).to_multiset(),
        r matches Err(e) ==> e == ParseError::BadSelector,
{
    if !check_selector(CARD_SELECTOR) {
        return Err(ParseError::BadSelector);
    }
    let mut sub_pages = select_doc_attrs(html, CARD_SELECTOR, "href");
    shuffle_strings(&mut sub_pages);
    Ok(sub_pages)
}

/// How a brace character moves the nesting depth.
pub open spec fn brace_delta(c: char) -> int {
    if c == '{' {
        1
    } else if c == '}' {
        -1
    } else {
        0
    }
}

/// The brace-nesting depth of `text[from..to]`: opening braces minus closing
/// braces.
pub open spec fn brace_depth(text: Seq<char>, from: int, to: int) -> int
    decreases to - from,
{
    if to <= from {
        0
    } else {
        brace_depth(text, from, to - 1) + brace_delta(text[to - 1])
    }
}

/// The least index `j >= i` at which `c` occurs in `text`, if any.
pub open spec fn find_char_from(text: Seq<char>, c: char, i: int) -> Option<int>
    decreases text.len() - i,
{
    if i < 0 || i >= text.len() {
        None
    } else if text[i] == c {
        Some(i)
    } else {
        find_char_from(text, c, i + 1)
    }
}

/// The least index `e >= i` holding a closing brace that brings the depth
/// counted from `base` back to zero, if any.
pub open spec fn balance_end_from(text: Seq<char>, base: int, i: int) -> Option<int>
    decreases text.len() - i,
{
    if i < 0 || i >= text.len() {
        None
    } else if text[i] == '}' && brace_depth(text, base, i + 1) == 0 {
        Some(i)
    } else {
        balance_end_from(text, base, i + 1)
    }
}

/// What `find_json` returns: if `marker` occurs in `text`, and an opening
/// brace follows it, the substring from that brace to the closing brace that
/// balances the depth counted from the marker on — or to the opening brace
/// alone if the braces never balance.  None when the marker, or any brace
/// after it, is missing.
pub open spec fn find_json_spec(text: Seq<char>, marker: Seq<char>) -> Option<Seq<char>> {
    match find_from(text, marker, 0) {
        None => None,
        Some(idx) => match find_char_from(text, '{', idx) {
            None => None,
            Some(start) => {
                let end = match balance_end_from(text, idx, idx) {
                    Some(e) => e,
                    None => start,
                };
                Some(text.subrange(start, end + 1))
            },
        },
    }
}

/// If there is no opening brace in `text[from..to]`, the depth of that range
/// is at most zero.
proof fn lemma_depth_nonpos_without_open(text: Seq<char>, from: int, to: int)
    requires
        forall|j: int| from <= j < to ==> text[j] != '{',
    ensures
        brace_depth(text, from, to) <= 0,
    decreases to - from,
{
    if to > from {
        lemma_depth_nonpos_without_open(text, from, to - 1);
    }
}

/// The balance point cannot precede the first opening brace after `base`.
proof fn lemma_balance_end_ge_first_brace(text: Seq<char>, base: int, start: int, e: int)
    requires
        0 <= base <= start < text.len(),
        find_char_from(text, '{', base) == Some(start),
        balance_end_from(text, base, base) == Some(e),
    ensures
        start <= e < text.len(),
{
    lemma_find_char_from_first(text, '{', base, start);
    lemma_balance_end_some(text, base, base, e);
    if e < start {
        assert(forall|j: int| base <= j < e + 1 ==> text[j] != '{');
        lemma_depth_nonpos_without_open(text, base, e);
        assert(brace_depth(text, base, e + 1) == brace_depth(text, base, e) - 1);
    }
}

/// `find_char_from` returns the least matching index.
proof fn lemma_find_char_from_first(text: Seq<char>, c: char, i: int, r: int)
    requires
        find_char_from(text, c, i) == Some(r),
        0 <= i,
    ensures
        i <= r < text.len(),
        text[r] == c,
        forall|j: int| i <= j < r ==> text[j] != c,
    decreases text.len() - i,
{
    if i < text.len() && text[i] != c {
        lemma_find_char_from_first(text, c, i + 1, r);
    }
}

/// A successful `balance_end_from` points at a closing brace at which the
/// depth from `base` returns to zero, and no earlier index from `i` on does.
proof fn lemma_balance_end_some(text: Seq<char>, base: int, i: int, e: int)
    requires
        balance_end_from(text, base, i) == Some(e),
        0 <= i,
    ensures
        i <= e < text.len(),
        text[e] == '}',
        brace_depth(text, base, e + 1) == 0,
        forall|j: int| i <= j < e ==> !(text[j] == '}' && brace_depth(text, base, j + 1) == 0),
    decreases text.len() - i,
{
    if i < text.len() && !(text[i] == '}' && brace_depth(text, base, i + 1) == 0) {
        lemma_balance_end_some(text, base, i + 1, e);
    }
}

/// Locates the structured-data blob that follows `marker` in `text`: from the
/// first opening brace after the marker, the substring up to the closing
/// brace that balances the brace depth (counted from the marker on).
///
/// Mirrors the embedded-gallery extraction convention: if the braces never
/// balance, the single opening brace is returned; if the marker or any
/// opening brace after it is missing, None.
pub fn find_json(text: &str, marker: &str) -> (r: Option<String>)
    ensures
        match r {
            Some(s) => find_json_spec(text@, marker@) == Some(s@),
            None => find_json_spec(text@, marker@) is None,
        },
{
    let n = text.unicode_len();
    let idx = match find_str(text, marker) {
        None => {
            return None;
        },
        Some(i) => i,
    };
    // First opening brace at or after the marker.
    let mut i: usize = idx;
    let mut start_opt: Option<usize> = None;
    while i < n && start_opt.is_none()
        invariant
            n == text@.len(),
            idx <= i <= n,
            start_opt matches Some(s) ==> find_char_from(text@, '{', idx as int) == Some(s as int),
            start_opt is None ==> find_char_from(text@, '{', idx as int) == find_char_from(
                text@,
                '{',
                i as int,
            ),
        decreases n - i + (if start_opt is None { 1int } else { 0int }),
    {
        if text.get_char(i) == '{' {
            start_opt = Some(i);
        } else {
            i += 1;
        }
    }
    let start = match start_opt {
        None => {
            return None;
        },
        Some(s) => s,
    };
    proof {
        lemma_find_char_from_first(text@, '{', idx as int, start as int);
    }
    // Scan for the closing brace that balances the depth counted from the
    // marker on.
    let mut j: usize = idx;
    let mut opens: usize = 0;
    let mut closes: usize = 0;
    let mut end_opt: Option<usize> = None;
    while j < n && end_opt.is_none()
        invariant
            n == text@.len(),
            idx <= j <= n,
            opens <= j - idx,
            closes <= j - idx,
            end_opt matches Some(e) ==> balance_end_from(text@, idx as int, idx as int) == Some(
                e as int,
            ),
            end_opt is None ==> opens - closes == brace_depth(text@, idx as int, j as int),
            end_opt is None ==> balance_end_from(text@, idx as int, idx as int)
                == balance_end_from(text@, idx as int, j as int),
        decreases n - j + (if end_opt is None { 1int } else { 0int }),
    {
        let c = text.get_char(j);
        if c == '{' {
            opens += 1;
            j += 1;
        } else if c == '}' {
            closes += 1;
            if opens == closes {
                assert(brace_depth(text@, idx as int, j + 1) == 0);
                end_opt = Some(j);
            } else {
                j += 1;
            }
        } else {
            j += 1;
        }
    }
    let end = match end_opt {
        None => start,
        Some(e) => {
            proof {
                lemma_balance_end_ge_first_brace(text@, idx as int, start as int, e as int);
            }
            e
        },
    };
    let sub = text.substring_char(start, end + 1);
    Some(sub.to_owned())
}

/// `find_from` returns `r` when `pat` matches at `r` and nowhere earlier.
proof fn lemma_find_from_first_match(text: Seq<char>, pat: Seq<char>, i: nat, r: int)
    requires
        i <= r,
        matches_at(text, pat, r),
        forall|k: int| i <= k < r ==> !matches_at(text, pat, k),
    ensures
        find_from(text, pat, i) == Some(r),
    decreases r - i,
{
    if i + pat.len() > text.len() {
        assert(!matches_at(text, pat, r));
    } else if text.subrange(i as int, i + pat.len() as int) == pat {
        assert(matches_at(text, pat, i as int));
    } else {
        assert(i < r) by {
            if i == r {
                assert(text.subrange(i as int, i + pat.len() as int) == pat);
            }
        }
        lemma_find_from_first_match(text, pat, (i + 1) as nat, r);
    }
}

/// `find_char_from` returns `r` when `c` stands at `r` and nowhere earlier.
proof fn lemma_find_char_from_at(text: Seq<char>, c: char, i: int, r: int)
    requires
        0 <= i <= r < text.len(),
        text[r] == c,
        forall|k: int| i <= k < r ==> text[k] != c,
    ensures
        find_char_from(text, c, i) == Some(r),
    decreases r - i,
{
    if i < r {
        lemma_find_char_from_at(text, c, i + 1, r);
    }
}

/// The depth of a range without braces is zero.
proof fn lemma_depth_zero_without_braces(text: Seq<char>, from: int, to: int)
    requires
        forall|j: int| from <= j < to ==> text[j] != '{' && text[j] != '}',
    ensures
        brace_depth(text, from, to) == 0,
    decreases to - from,
{
    if to > from {
        lemma_depth_zero_without_braces(text, from, to - 1);
    }
}

/// Depth adds over adjacent ranges.
proof fn lemma_depth_split(text: Seq<char>, from: int, mid: int, to: int)
    requires
        from <= mid <= to,
    ensures
        brace_depth(text, from, to) == brace_depth(text, from, mid) + brace_depth(text, mid, to),
    decreases to - mid,
{
    if to > mid {
        lemma_depth_split(text, from, mid, to - 1);
    }
}

/// Depth only depends on the characters of the range: shifting into another
/// sequence that agrees on it keeps the depth.
proof fn lemma_depth_shift(text: Seq<char>, other: Seq<char>, from: int, to: int, off: int)
    requires
        forall|j: int| from <= j < to ==> text[j] == other[j - off],
    ensures
        brace_depth(text, from, to) == brace_depth(other, from - off, to - off),
    decreases to - from,
{
    if to > from {
        lemma_depth_shift(text, other, from, to - 1, off);
    }
}

/// `balance_end_from` returns `r` when the depth from `base` first returns
/// to zero on a closing brace at `r`.
proof fn lemma_balance_end_at(text: Seq<char>, base: int, i: int, r: int)
    requires
        0 <= i <= r < text.len(),
        text[r] == '}',
        brace_depth(text, base, r + 1) == 0,
        forall|k: int| i <= k < r ==> !(text[k] == '}' && brace_depth(text, base, k + 1) == 0),
    ensures
        balance_end_from(text, base, i) == Some(r),
    decreases r - i,
{
    if i < r {
        lemma_balance_end_at(text, base, i + 1, r);
    }
}

/// The round trip behind the blob search: wherever a braceless marker is
/// followed (after braceless filler) by a balanced brace block, `find_json`
/// returns exactly that block, whatever comes before the marker or after
/// the block.
///
/// `obj` is a balanced brace block: it opens with a brace, its depth stays
/// positive strictly inside, and returns to zero exactly at its end — the
/// shape of a serialized JSON object whose strings carry no stray braces.
pub proof fn lemma_find_json_round_trip(
    pre: Seq<char>,
    marker: Seq<char>,
    gap: Seq<char>,
    obj: Seq<char>,
    post: Seq<char>,
)
    requires
        marker.len() > 0,
        forall|i: int|
            0 <= i < pre.len() ==> !matches_at(pre + marker + gap + obj + post, marker, i),
        forall|i: int| 0 <= i < marker.len() ==> marker[i] != '{' && marker[i] != '}',
        forall|i: int| 0 <= i < gap.len() ==> gap[i] != '{' && gap[i] != '}',
        obj.len() >= 2,
        obj[0] == '{',
        brace_depth(obj, 0, obj.len() as int) == 0,
        forall|k: int| 0 < k < obj.len() ==> brace_depth(obj, 0, k) > 0,
    ensures
        find_json_spec(pre + marker + gap + obj + post, marker) == Some(obj),
{
    let text = pre + marker + gap + obj + post;
    let idx = pre.len() as int;
    let start = idx + marker.len() + gap.len();
    let end = start + obj.len() - 1;
    assert(forall|j: int| 0 <= j < marker.len() ==> text[idx + j] == marker[j]);
    assert(forall|j: int| 0 <= j < gap.len() ==> text[idx + marker.len() + j] == gap[j]);
    assert(forall|j: int| 0 <= j < obj.len() ==> text[start + j] == obj[j]);
    assert(forall|j: int| idx <= j < start ==> text[j] != '{' && text[j] != '}');
    // The marker is found at idx.
    assert(text.subrange(idx, idx + marker.len() as int) =~= marker);
    assert(matches_at(text, marker, idx));
    lemma_find_from_first_match(text, marker, 0, idx);
    // The first opening brace after the marker opens the block.
    assert(text[start] == obj[0]);
    lemma_find_char_from_at(text, '{', idx, start);
    // The depth from the marker on mirrors the depth inside the block.
    assert(forall|k: int| start <= k <= end + 1 ==> brace_depth(text, idx, k) == brace_depth(
        obj,
        0,
        k - start,
    )) by {
        assert forall|k: int| start <= k <= end + 1 implies brace_depth(text, idx, k)
            == brace_depth(obj, 0, k - start) by {
            lemma_depth_split(text, idx, start, k);
            lemma_depth_zero_without_braces(text, idx, start);
            lemma_depth_shift(text, obj, start, k, start);
        }
    }
    // The block's last character must be the closing brace of depth one.
    assert(brace_depth(obj, 0, obj.len() as int) == brace_depth(obj, 0, obj.len() - 1)
        + brace_delta(obj[obj.len() - 1]));
    assert(text[end] == obj[obj.len() - 1]);
    assert(text[end] == '}');
    assert(brace_depth(text, idx, end + 1) == 0);
    // No earlier index balances: before the block there is no closing brace,
    // inside it the depth stays positive.
    assert(forall|k: int|
        idx <= k < end ==> !(text[k] == '}' && brace_depth(text, idx, k + 1) == 0));
    lemma_balance_end_at(text, idx, idx, end);
    assert(text.subrange(start, end + 1) =~= obj);
}

/// The image attribute read from an item: the animated source for items
/// tagged as gifs, the plain source otherwise.
pub open spec fn item_attr_spec(kind: Option<Seq<char>>) -> Seq<char> {
    if kind == Some("gif"@) {
        "data-gifsrc"@
    } else {
        "src"@
    }
}

/// The normalized URLs of `raws`, in order, dropping those that do not
/// normalize.
pub open spec fn normalized_urls(raws: Seq<Seq<char>>) -> Seq<Seq<char>>
    decreases raws.len(),
{
    if raws.len() == 0 {
        Seq::empty()
    } else {
        normalized_urls(raws.drop_last()) + match normal_url(raws.last()) {
            Some(u) => seq![u],
            None => Seq::empty(),
        }
    }
}

/// The image URLs one gallery item contributes: the item's HTML fragment is
/// parsed, the image elements' source attributes are read (the animated
/// source for gif items), and each is normalized.  An item without an HTML
/// fragment contributes nothing.
pub open spec fn item_urls_spec(item: (Option<Seq<char>>, Option<Seq<char>>)) -> Seq<Seq<char>> {
    match item.0 {
        None => Seq::empty(),
        Some(frag) => normalized_urls(frag_attr_seq(frag, "img"@, item_attr_spec(item.1))),
    }
}

/// The image URLs of a whole item sequence, in order.
pub open spec fn items_urls(items: Seq<(Option<Seq<char>>, Option<Seq<char>>)>) -> Seq<Seq<char>>
    decreases items.len(),
{
    if items.len() == 0 {
        Seq::empty()
    } else {
        items_urls(items.drop_last()) + item_urls_spec(items.last())
    }
}

/// What `parse_chive_sub` extracts from a sub-page, before shuffling: the
/// blob after the gallery marker is located by brace balancing, its item
/// array is read, and each item's fragment yields its normalized image URLs.
pub open spec fn sub_images_spec(html: Seq<char>) -> Result<Seq<Seq<char>>, ParseError> {
    match find_json_spec(html, GALLERY_MARKER@) {
        None => Err(ParseError::NoEmbeddedData),
        Some(json) => match gallery_items_of(json, "items"@, "html"@, "type"@) {
            None => Err(ParseError::MalformedData),
            Some(items) => if selector_parses("img"@) {
                Ok(items_urls(items))
            } else {
                Err(ParseError::BadSelector)
            },
        },
    }
}

/// Extracts the image URLs of a sub-page, in randomized order: locates the
/// embedded gallery blob, reads its item array, and pulls the normalized
/// image URL out of each item's HTML fragment (the animated source for gif
/// items).  `Err` exactly as [`sub_images_spec`] says: no blob, a malformed
/// blob, or a refused selector.
pub fn parse_chive_sub(html: &str) -> (r: Result<Vec<String>, ParseError>)
    ensures
        r is Ok <==> sub_images_spec(html@) is Ok,
        r matches Ok(v) ==> v.deep_view().to_multiset() == sub_images_spec(
            html@,
        ).unwrap().to_multiset(),
        r matches Err(e) ==> sub_images_spec(html@) == Err::<Seq<Seq<char>>, ParseError>(e),
{
    let json = match find_json(html, GALLERY_MARKER) {
        None => {
            return Err(ParseError::NoEmbeddedData);
        },
        Some(j) => j,
    };
    let items = match gallery_items(json.as_str(), "items", "html", "type") {
        None => {
            return Err(ParseError::MalformedData);
        },
        Some(it) => it,
    };
    if !check_selector("img") {
        return Err(ParseError::BadSelector);
    }
    let ghost items_model: Seq<(Option<Seq<char>>, Option<Seq<char>>)> = Seq::new(
        items@.len(),
        |i: int| items@[i]@,
    );
    let mut images: Vec<String> = Vec::new();
    let mut idx: usize = 0;
    while idx < items.len()
        invariant
            idx <= items@.len(),
            items_model == Seq::new(items@.len(), |i: int| items@[i]@),
            selector_parses("img"@),
            images.deep_view() =~= items_urls(items_model.take(idx as int)),
        decreases items@.len() - idx,
    {
        let item = &items[idx];
        let ghost prev = images.deep_view();
        match &item.html {
            None => {},
            Some(frag) => {
                let gif_tag = "gif".to_owned();
                let is_gif = match &item.kind {
                    None => false,
                    Some(k) => *k == gif_tag,
                };
                let attr = if is_gif {
                    "data-gifsrc"
                } else {
                    "src"
                };
                assert(attr@ == item_attr_spec(items_model[idx as int].1));
                let raws = select_frag_attrs(frag.as_str(), "img", attr);
                let mut j: usize = 0;
                while j < raws.len()
                    invariant
                        j <= raws@.len(),
                        images.deep_view() =~= prev + normalized_urls(
                            raws.deep_view().take(j as int),
                        ),
                    decreases raws@.len() - j,
                {
                    proof {
                        assert(raws.deep_view().take(j + 1).drop_last() =~= raws.deep_view().take(
                            j as int,
                        ));
                        assert(raws.deep_view().take(j + 1).last() == raws.deep_view()[j as int]);
                        assert(raws.deep_view()[j as int] == raws@[j as int]@);
                    }
                    match normalize_url(raws[j].as_str()) {
                        None => {
                            assert(normalized_urls(raws.deep_view().take(j + 1)) =~= normalized_urls(
                                raws.deep_view().take(j as int),
                            ));
                        },
                        Some(u) => {
                            let ghost uv = u@;
                            let ghost before = images.deep_view();
                            images.push(u);
                            proof {
                                assert(images.deep_view() =~= before.push(uv));
                                assert(normalized_urls(raws.deep_view().take(j + 1))
                                    =~= normalized_urls(raws.deep_view().take(j as int)).push(uv));
                            }
                        },
                    }
                    j += 1;
                }
                assert(raws.deep_view().take(raws@.len() as int) =~= raws.deep_view());
            },
        }
        assert(images.deep_view() =~= prev + item_urls_spec(items_model[idx as int]));
        assert(items_model.take(idx + 1).drop_last() =~= items_model.take(idx as int));
        assert(items_model.take(idx + 1).last() == items_model[idx as int]);
        idx += 1;
    }
    assert(items_model.take(items@.len() as int) =~= items_model);
    shuffle_strings(&mut images);
    Ok(images)
}

} // verus!
