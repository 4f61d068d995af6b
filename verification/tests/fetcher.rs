use chiver::chive::{Chiver, FetchEvent, FetchPlan, Stage};
use chiver::Download;

fn running_chiver(pages: Vec<&str>, sub_pages: Vec<&str>, images: Vec<&str>, stage: Stage) -> Chiver {
    Chiver {
        pages: pages.into_iter().map(String::from).collect(),
        sub_pages: sub_pages.into_iter().map(String::from).collect(),
        images: images.into_iter().map(String::from).collect(),
        stage,
        is_running: true,
        pending: 0,
    }
}

#[test]
fn resume_requires_two_tokens() {
    let mut c = Chiver::default();
    assert!(!c.is_running);
    c.on_token();
    assert!(!c.is_running);
    c.on_token();
    assert!(c.is_running);
    assert_eq!(c.stage, Stage::Idle);
    assert_eq!(c.pending, 0);
}

#[test]
fn single_token_does_not_resume() {
    let mut c = Chiver::default();
    c.on_token();
    assert!(!c.is_running);
    assert_eq!(c.pending, 1);
}

#[test]
fn idle_step_initializes_pages() {
    let mut c = Chiver::default();
    c.on_token();
    c.on_token();
    assert!(matches!(c.plan(), FetchPlan::NoFetch));
    let outcome = c.step(FetchEvent::NotNeeded);
    assert!(matches!(outcome, Download::Progress(1)));
    assert_eq!(c.stage, Stage::Page);
    assert_eq!(c.pages.len(), 282);
    assert!(c.is_running);
}

#[test]
fn idle_step_keeps_nonempty_pages() {
    let mut c = running_chiver(vec!["https://x/p1"], vec![], vec![], Stage::Idle);
    let outcome = c.step(FetchEvent::NotNeeded);
    assert!(matches!(outcome, Download::Progress(1)));
    assert_eq!(c.pages, vec![String::from("https://x/p1")]);
}

#[test]
fn image_step_drains_single_url() {
    let mut c = running_chiver(vec![], vec![], vec!["https://host/a.jpg"], Stage::Image);
    match c.plan() {
        FetchPlan::FetchBytes(url) => assert_eq!(url, "https://host/a.jpg"),
        _ => panic!("expected an image fetch"),
    }
    let outcome = c.step(FetchEvent::Image(200, vec![1, 2, 3]));
    match outcome {
        Download::Done(bytes, url) => {
            assert_eq!(bytes, vec![1, 2, 3]);
            assert_eq!(url, "https://host/a.jpg");
        }
        _ => panic!("expected a completed download"),
    }
    assert_eq!(c.stage, Stage::Idle);
    assert!(c.images.is_empty());
    assert!(!c.is_running);
}

#[test]
fn non_200_yields_failed_never_completed() {
    let mut c = running_chiver(vec![], vec![], vec!["https://host/a.jpg"], Stage::Image);
    let outcome = c.step(FetchEvent::Image(404, vec![9, 9]));
    match outcome {
        Download::Error(msg) => {
            assert_eq!(msg, "Http status: 404, https://host/a.jpg");
        }
        _ => panic!("a non-200 response must fail"),
    }
    assert_eq!(c.images.len(), 1);
    assert_eq!(c.stage, Stage::Image);
    assert!(!c.is_running);
}

#[test]
fn network_failure_preserves_queues() {
    let mut c = running_chiver(
        vec!["https://x/p1", "https://x/p2"],
        vec![],
        vec![],
        Stage::Page,
    );
    let pages_before = c.pages.clone();
    let outcome = c.step(FetchEvent::Failed(String::from("connection reset")));
    match outcome {
        Download::Error(msg) => assert_eq!(msg, "connection reset"),
        _ => panic!("a transport failure must fail the step"),
    }
    assert_eq!(c.pages, pages_before);
    assert!(c.sub_pages.is_empty());
    assert!(c.images.is_empty());
    assert_eq!(c.stage, Stage::Page);
    assert!(!c.is_running);
}

#[test]
fn network_failure_on_image_preserves_queues() {
    let mut c = running_chiver(
        vec!["https://x/p1"],
        vec!["https://x/s1"],
        vec!["https://x/a.jpg"],
        Stage::Image,
    );
    let outcome = c.step(FetchEvent::Failed(String::from("timeout")));
    assert!(matches!(outcome, Download::Error(_)));
    assert_eq!(c.pages.len(), 1);
    assert_eq!(c.sub_pages.len(), 1);
    assert_eq!(c.images.len(), 1);
}

#[test]
fn exhausted_page_queue_is_failure() {
    let mut c = running_chiver(vec![], vec![], vec![], Stage::Page);
    let outcome = c.step(FetchEvent::NotNeeded);
    match outcome {
        Download::Error(msg) => assert_eq!(msg, "Pages is empty!"),
        _ => panic!("popping an exhausted queue must fail"),
    }
    assert_eq!(c.stage, Stage::Page);
}

#[test]
fn exhausted_image_queue_is_failure() {
    let mut c = running_chiver(vec![], vec![], vec![], Stage::Image);
    let outcome = c.step(FetchEvent::NotNeeded);
    match outcome {
        Download::Error(msg) => assert_eq!(msg, "Images is empty!"),
        _ => panic!("popping an exhausted queue must fail"),
    }
}

#[test]
fn nonempty_queues_skip_fetches() {
    let mut c = running_chiver(
        vec!["https://x/p1"],
        vec!["https://x/s1"],
        vec![],
        Stage::Page,
    );
    assert!(matches!(c.plan(), FetchPlan::NoFetch));
    let outcome = c.step(FetchEvent::NotNeeded);
    assert!(matches!(outcome, Download::Progress(10)));
    assert_eq!(c.stage, Stage::SubPage);
    assert_eq!(c.pages.len(), 1);
    assert_eq!(c.sub_pages.len(), 1);
}

#[test]
fn full_cycle_visits_every_stage_in_order() {
    let listing = "<html><body><div class=\"main-column\"><div class=\"cards-content\">\
        <div class=\"slot type-post\"><article class=\"post card type-post\">\
        <a class=\"card-img-link\" itemprop=\"image\" href=\"https://x/sub1\"></a>\
        </article></div></div></div></body></html>";
    let sub_page = "<html><script>var CHIVE_GALLERY_ITEMS = {\"items\": [\
        {\"html\": \"<img src=\\\"https://img.host/one.jpg?w=1\\\" />\", \"type\": \"image\"}\
        ]};</script></html>";
    let mut c = Chiver::default();
    c.on_token();
    c.on_token();
    let mut stages = vec![c.stage];
    let o1 = c.step(FetchEvent::NotNeeded);
    assert!(matches!(o1, Download::Progress(1)));
    stages.push(c.stage);
    let o2 = c.step(FetchEvent::Text(String::from(listing)));
    assert!(matches!(o2, Download::Progress(10)));
    stages.push(c.stage);
    assert_eq!(c.sub_pages, vec![String::from("https://x/sub1")]);
    let o3 = c.step(FetchEvent::Text(String::from(sub_page)));
    assert!(matches!(o3, Download::Progress(20)));
    stages.push(c.stage);
    assert_eq!(c.images, vec![String::from("https://img.host/one.jpg")]);
    let o4 = c.step(FetchEvent::Image(200, vec![7]));
    assert!(matches!(o4, Download::Done(_, _)));
    stages.push(c.stage);
    assert_eq!(
        stages,
        vec![Stage::Idle, Stage::Page, Stage::SubPage, Stage::Image, Stage::Idle]
    );
    assert!(!c.is_running);
}
