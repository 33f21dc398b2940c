use pasithea::recognizer::{Phase, Reaction, Recognizer};
use pasithea::text::{chars_of, text_contains, text_equals};

#[test]
fn contains_finds_inner_text() {
    assert!(text_contains("oh hi there", "hi"));
    assert!(text_contains("hi", "hi"));
    assert!(!text_contains("hello", "hi"));
    assert!(!text_contains("h", "hi"));
    assert!(text_contains("anything", ""));
    assert!(text_contains("", ""));
    assert!(!text_contains("", "a"));
    assert!(text_contains("aaab", "aab"));
    assert!(text_contains("ünïcödé", "ïc"));
}

#[test]
fn equals_compares_every_character() {
    assert!(text_equals("abc", "abc"));
    assert!(!text_equals("abc", "abd"));
    assert!(!text_equals("abc", "ab"));
    assert!(text_equals("", ""));
}

#[test]
fn chars_of_keeps_order() {
    assert_eq!(chars_of("héllo"), vec!['h', 'é', 'l', 'l', 'o']);
    assert_eq!(chars_of(""), Vec::<char>::new());
}

#[test]
fn listening_shows_text_until_wake_word() {
    let mut r = Recognizer::new("hi".to_string());
    assert_eq!(r.phase(), Phase::Listening);
    assert_eq!(r.on_text("hello".to_string()), Reaction::Show);
    assert_eq!(r.phase(), Phase::Listening);
    assert!(!r.awaits_timer());
    assert_eq!(r.on_text("oh hi there".to_string()), Reaction::Show);
    assert_eq!(r.phase(), Phase::Ready);
    assert!(!r.timer_running());
}

#[test]
fn ready_restarts_timer_only_on_change() {
    let mut r = Recognizer::new("hi".to_string());
    r.on_text("hi".to_string());
    assert_eq!(r.on_text("hi".to_string()), Reaction::RestartTimer { stop_first: false });
    assert!(r.timer_running());
    assert!(r.awaits_timer());
    assert_eq!(r.on_text("hi".to_string()), Reaction::Quiet);
    assert_eq!(r.on_text("hi bob".to_string()), Reaction::RestartTimer { stop_first: true });
    assert_eq!(r.on_text("hi bob".to_string()), Reaction::Quiet);
    assert_eq!(r.phase(), Phase::Ready);
}

#[test]
fn empty_first_text_in_ready_is_quiet() {
    let mut r = Recognizer::new("".to_string());
    assert_eq!(r.on_text("".to_string()), Reaction::Show);
    assert_eq!(r.phase(), Phase::Ready);
    assert_eq!(r.on_text("".to_string()), Reaction::Quiet);
    assert!(!r.timer_running());
}

#[test]
fn completion_finishes_and_starts_over() {
    let mut r = Recognizer::new("hi".to_string());
    r.on_text("hi".to_string());
    r.on_text("hi there".to_string());
    assert!(!r.on_timer_signal(false));
    assert_eq!(r.phase(), Phase::Ready);
    assert!(r.on_timer_signal(true));
    assert_eq!(r.phase(), Phase::Complete);
    assert!(!r.timer_running());
    assert!(!r.on_timer_signal(true));
    assert_eq!(
        r.on_text("whatever".to_string()),
        Reaction::Finish { message: "text".to_string() }
    );
    assert_eq!(r.phase(), Phase::Listening);
    assert!(!r.awaits_timer());
    assert_eq!(r.on_text("bye".to_string()), Reaction::Show);
    assert_eq!(r.phase(), Phase::Listening);
    r.on_text("hi".to_string());
    assert_eq!(r.on_text("hi there".to_string()), Reaction::RestartTimer { stop_first: false });
}
