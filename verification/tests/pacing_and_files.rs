use chiver::scheduler::{PacingSignal, PhotoScheduler};
use chiver::text::u32_to_string;
use chiver::utils::{file_name_of, has_supported_ext, load, match_ext};

#[test]
fn scheduler_emits_signals_in_pairs() {
    let s = PhotoScheduler::new(false, true, 1000);
    let mut signals: Vec<PacingSignal> = Vec::new();
    s.emit_advance(&mut signals);
    assert_eq!(signals.len(), 2);
    s.emit_advance(&mut signals);
    assert_eq!(signals.len(), 4);
}

#[test]
fn schedule_reflects_the_configuration() {
    let manual = PhotoScheduler::new(false, true, 1500);
    let plan = manual.schedule();
    assert!(plan.send_now);
    assert_eq!(plan.repeat_millis, None);

    let auto = PhotoScheduler::new(true, false, 2500);
    let plan = auto.schedule();
    assert!(!plan.send_now);
    assert_eq!(plan.repeat_millis, Some(2500));
}

#[test]
fn decimal_rendering_is_exact() {
    assert_eq!(u32_to_string(0), "0");
    assert_eq!(u32_to_string(7), "7");
    assert_eq!(u32_to_string(10), "10");
    assert_eq!(u32_to_string(282), "282");
    assert_eq!(u32_to_string(4294967295), "4294967295");
}

#[test]
fn extension_matching_folds_case() {
    assert!(match_ext("jpg"));
    assert!(match_ext("JPG"));
    assert!(match_ext("Jpeg"));
    assert!(match_ext("png"));
    assert!(match_ext("gif"));
    assert!(match_ext("bmp"));
    assert!(!match_ext("webp"));
    assert!(!match_ext(""));
}

#[test]
fn load_keeps_only_image_paths() {
    let paths: Vec<String> = vec![
        "gallery/a.jpg",
        "gallery/b.txt",
        "c.PNG",
        "noextension",
        ".gif",
        "nested/dir/d.gif",
        "archive.tar.gz",
    ]
    .into_iter()
    .map(String::from)
    .collect();
    let images = load(&paths);
    assert_eq!(
        images,
        vec![
            String::from("gallery/a.jpg"),
            String::from("c.PNG"),
            String::from("nested/dir/d.gif"),
        ]
    );
}

#[test]
fn file_names_come_from_the_last_slash() {
    assert_eq!(file_name_of("https://host/path/img.jpg"), "img.jpg");
    assert_eq!(file_name_of("plain"), "plain");
    assert_eq!(file_name_of("trailing/"), "");
}

#[test]
fn supported_extension_checks_whole_paths() {
    assert!(has_supported_ext("a/b/photo.JPG"));
    assert!(!has_supported_ext("a/b/.gif"));
    assert!(!has_supported_ext("a/b/archive"));
}
