//! Dropped paths and single keys.

use fileshare::tui::input::{
    clean_dropped, deduplicate_path, looks_like_path, not_found_message, Key, PathBurst, Route,
    Typing,
};

const NOTHING: Typing = Typing::Nothing;
const MS: u64 = 1_000_000;

fn type_in(b: &mut PathBurst, text: &str, now: u64) {
    for c in text.chars() {
        assert!(matches!(b.press(Key::Char(c), false, NOTHING, now), Route::Ignore), "{}", c);
    }
}

fn shared(r: Route) -> String {
    match r {
        Route::Share(s) => s,
        other => panic!("{:?}", other),
    }
}

#[test]
fn doubled_paths() {
    assert_eq!(deduplicate_path("CC::\\\\UUsseerrss"), "C:\\Users");
    assert_eq!(deduplicate_path("/home"), "/home");
    assert_eq!(deduplicate_path("aa"), "aa");
    assert_eq!(deduplicate_path("aabc"), "aabc");
    assert_eq!(deduplicate_path("aaaa"), "aa");
}

#[test]
fn recognised_paths() {
    assert!(looks_like_path("/home/tim"));
    assert!(looks_like_path("  \"C:\\Users\\x\" "));
    assert!(looks_like_path("'\\\\server\\x'"));
    assert!(!looks_like_path("C:"));
    assert!(looks_like_path("é:"));
    assert!(!looks_like_path("hello"));
    assert!(!looks_like_path(""));
}

#[test]
fn cleaned_paths() {
    assert_eq!(clean_dropped(" \"/home/tim\" "), "/home/tim");
    assert_eq!(clean_dropped("//hhoommee"), "/home");
    assert_eq!(not_found_message("/x"), "Path not found: /x");
}

#[test]
fn dropped_path_is_shared_after_a_pause() {
    let mut b = PathBurst::new();
    type_in(&mut b, "/quick/file.txt", 100 * MS);
    assert!(matches!(b.flush(129 * MS), Route::Ignore));
    assert_eq!(shared(b.flush(130 * MS)), "/quick/file.txt");
    assert!(b.buf.is_empty());
    assert!(matches!(b.flush(500 * MS), Route::Ignore));
}

#[test]
fn enter_shares_and_esc_drops() {
    let mut b = PathBurst::new();
    type_in(&mut b, "/a/b", 0);
    assert_eq!(shared(b.press(Key::Enter, false, NOTHING, 1)), "/a/b");
    type_in(&mut b, "/a", 0);
    assert!(matches!(b.press(Key::Esc, false, NOTHING, 1), Route::Ignore));
    assert!(b.buf.is_empty());
    assert!(matches!(b.press(Key::Enter, false, NOTHING, 1), Route::Press(Key::Enter)));
    assert!(matches!(b.press(Key::Esc, false, NOTHING, 1), Route::Press(Key::Esc)));
}

#[test]
fn ordinary_keys_pass() {
    let mut b = PathBurst::new();
    assert!(matches!(b.press(Key::Char('j'), false, NOTHING, 0), Route::Press(Key::Char('j'))));
    assert!(matches!(b.press(Key::Tab, false, NOTHING, 0), Route::Press(Key::Tab)));
    assert!(matches!(b.press(Key::Char('q'), false, NOTHING, 0), Route::Quit));
    assert!(matches!(b.press(Key::Char('c'), true, NOTHING, 0), Route::Quit));
    type_in(&mut b, "/a", 0);
    assert!(matches!(b.press(Key::Char('c'), true, NOTHING, 0), Route::Quit));
    assert!(matches!(b.press(Key::Up, false, NOTHING, 0), Route::Ignore));
}

#[test]
fn typing_in_a_dialog() {
    let mut b = PathBurst::new();
    let path = Typing::Path;
    assert!(matches!(b.press(Key::Char('/'), false, path, 0), Route::Press(Key::Char('/'))));
    assert!(matches!(b.press(Key::Char('q'), false, path, 0), Route::Press(Key::Char('q'))));
    assert!(matches!(b.press(Key::Char('c'), true, path, 0), Route::Quit));
    let address = Typing::Address;
    assert!(matches!(b.press(Key::Char('/'), false, address, 0), Route::Press(Key::Char('/'))));
    assert!(matches!(b.press(Key::Char('1'), false, address, 0), Route::Press(Key::Char('1'))));
    assert!(matches!(b.press(Key::Char('q'), false, address, 0), Route::Quit));
    assert!(b.buf.is_empty());
}

#[test]
fn single_keys_are_given_back() {
    let mut b = PathBurst::new();
    b.buf = "x".to_string();
    b.last_key = Some(0);
    assert!(matches!(b.flush(30 * MS), Route::Press(Key::Char('x'))));
    b.buf = "xy".to_string();
    b.last_key = Some(0);
    assert!(matches!(b.flush(30 * MS), Route::Ignore));
    assert!(b.buf.is_empty());
}

#[test]
fn pasted_text_goes_first() {
    let mut b = PathBurst::new();
    type_in(&mut b, "/a", 0);
    assert_eq!(shared(b.paste("/pasted".to_string())), "/pasted");
    assert!(b.buf.is_empty());
    type_in(&mut b, "/", 0);
    b.settle(29 * MS);
    assert_eq!(b.buf, "/");
    b.settle(30 * MS);
    assert!(b.buf.is_empty());
    type_in(&mut b, "/ab", 0);
    b.settle(30 * MS);
    assert_eq!(b.buf, "/ab");
}
