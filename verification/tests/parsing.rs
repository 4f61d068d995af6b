use chiver::parser::{
    find_json, init_chive_pages, parse_chive_page, parse_chive_sub, ParseError,
};

#[test]
fn find_json_round_trips_nested_object() {
    let object = "{\"items\": [{\"a\": {\"b\": [1, 2]}}], \"meta\": {\"c\": 3}}";
    let text = format!(
        "<script>var CHIVE_GALLERY_ITEMS = {};</script>",
        object
    );
    let found = find_json(&text, "CHIVE_GALLERY_ITEMS").expect("the blob must be found");
    assert_eq!(found, object);
    let value: serde_json::Value =
        serde_json::from_str(&found).expect("the blob must parse as JSON");
    let expected: serde_json::Value = serde_json::from_str(object).unwrap();
    assert_eq!(value, expected);
}

#[test]
fn find_json_without_marker_is_none() {
    assert!(find_json("<html>{\"items\": []}</html>", "CHIVE_GALLERY_ITEMS").is_none());
}

#[test]
fn find_json_without_brace_is_none() {
    assert!(find_json("text CHIVE_GALLERY_ITEMS and nothing else", "CHIVE_GALLERY_ITEMS").is_none());
}

#[test]
fn find_json_unbalanced_returns_single_brace() {
    let text = "MARK {\"open\": [1, 2";
    assert_eq!(find_json(text, "MARK").unwrap(), "{");
}

#[test]
fn find_json_stops_at_matching_brace() {
    let text = "MARK {\"a\": {\"b\": 1}} trailing {\"c\": 2}";
    assert_eq!(find_json(text, "MARK").unwrap(), "{\"a\": {\"b\": 1}}");
}

fn card(href: &str) -> String {
    format!(
        "<div class=\"slot type-post\"><article class=\"post card type-post\">\
         <a class=\"card-img-link\" itemprop=\"image\" href=\"{}\"></a></article></div>",
        href
    )
}

#[test]
fn listing_page_with_three_cards() {
    let html = format!(
        "<html><body><div class=\"main-column\"><div class=\"cards-content\">{}{}{}\
         </div></div></body></html>",
        card("https://x/sub1"),
        card("https://x/sub2"),
        card("https://x/sub3")
    );
    let mut got = parse_chive_page(&html).expect("the selector is valid");
    got.sort();
    assert_eq!(
        got,
        vec![
            String::from("https://x/sub1"),
            String::from("https://x/sub2"),
            String::from("https://x/sub3"),
        ]
    );
}

#[test]
fn listing_page_without_cards_is_empty() {
    let html = "<html><body><div class=\"main-column\"></div></body></html>";
    assert_eq!(parse_chive_page(html).unwrap(), Vec::<String>::new());
}

#[test]
fn sub_page_uses_gif_attribute_only_for_gifs() {
    let html = "<html><script>CHIVE_GALLERY_ITEMS = {\"items\": [\
        {\"html\": \"<img src=\\\"https://img.host/still.gif?v=2\\\" data-gifsrc=\\\"https://img.host/anim.gif#frag\\\" />\", \"type\": \"gif\"},\
        {\"html\": \"<img src=\\\"https://img.host/photo.jpg?q=80\\\" />\", \"type\": \"image\"}\
        ]};</script></html>";
    let mut got = parse_chive_sub(html).expect("the blob is well formed");
    got.sort();
    assert_eq!(
        got,
        vec![
            String::from("https://img.host/anim.gif"),
            String::from("https://img.host/photo.jpg"),
        ]
    );
}

#[test]
fn sub_page_without_blob_fails() {
    let html = "<html><body>nothing here</body></html>";
    assert_eq!(parse_chive_sub(html), Err(ParseError::NoEmbeddedData));
}

#[test]
fn sub_page_without_items_fails() {
    let html = "<html>CHIVE_GALLERY_ITEMS = {\"meta\": 1}</html>";
    assert_eq!(parse_chive_sub(html), Err(ParseError::MalformedData));
}

#[test]
fn sub_page_with_non_array_items_fails() {
    let html = "<html>CHIVE_GALLERY_ITEMS = {\"items\": 3}</html>";
    assert_eq!(parse_chive_sub(html), Err(ParseError::MalformedData));
}

#[test]
fn sub_page_with_item_without_html_is_skipped() {
    let html = "<html>CHIVE_GALLERY_ITEMS = {\"items\": [{\"type\": \"image\"}]}</html>";
    assert_eq!(parse_chive_sub(html).unwrap(), Vec::<String>::new());
}

#[test]
fn page_list_covers_every_listing_page() {
    let pages = init_chive_pages();
    assert_eq!(pages.len(), 282);
    let base = "https://thechive.com/category/sexy-girls";
    assert!(pages.contains(&format!("{}/", base)));
    assert!(pages.contains(&format!("{}/page/2/", base)));
    assert!(pages.contains(&format!("{}/page/282/", base)));
    assert!(!pages.contains(&format!("{}/page/283/", base)));
    let mut sorted = pages.clone();
    sorted.sort();
    sorted.dedup();
    assert_eq!(sorted.len(), 282);
}

#[test]
fn parse_error_messages_are_stable() {
    assert_eq!(
        ParseError::NoEmbeddedData.message(),
        "No JSON found in Page's content."
    );
    assert_eq!(
        ParseError::MalformedData.message(),
        "Items is missing or not an array."
    );
}
