//! Tests for image handling, the tool-server texts and geometry, and the
//! small text utilities.

use base64::Engine;

// A 1x1 PNG, base64-encoded.
const TINY_PNG_B64: &str =
    "iVBORw0KGgoAAAANSUhEUgAAAAEAAAABCAYAAAAfFcSJAAAADUlEQVR42mNkYPhfDwAChwGA60e6kgAAAABJRU5ErkJggg==";

#[test]
fn split_data_url_forms() {
    let (mt, data) = supiki::media::split_data_url("data:image/jpeg;base64,QUJD");
    assert_eq!(mt, "image/jpeg");
    assert_eq!(data, "QUJD");

    let (mt, data) = supiki::media::split_data_url("data:image/png,RAW");
    assert_eq!(mt, "image/png");
    assert_eq!(data, "RAW");

    let (mt, data) = supiki::media::split_data_url("QUJD");
    assert_eq!(mt, "image/png");
    assert_eq!(data, "QUJD");
}

#[test]
fn convert_to_webp_reencodes_png() {
    let (mt, data) = supiki::media::convert_to_webp(TINY_PNG_B64, "image/png");
    assert_eq!(mt, "image/webp");
    assert_ne!(data, TINY_PNG_B64);
    let bytes = base64::engine::general_purpose::STANDARD.decode(&data).unwrap();
    assert_eq!(&bytes[0..4], b"RIFF");
    assert_eq!(&bytes[8..12], b"WEBP");
}

#[test]
fn convert_to_webp_passes_through_on_failure() {
    // Valid base64 that is not an image: handed back unchanged.
    let (mt, data) = supiki::media::convert_to_webp("QUJD", "image/png");
    assert_eq!(mt, "image/png");
    assert_eq!(data, "QUJD");

    // Not base64 at all: handed back unchanged.
    let (mt, data) = supiki::media::convert_to_webp("!!!", "image/gif");
    assert_eq!(mt, "image/gif");
    assert_eq!(data, "!!!");

    // Already WebP: untouched.
    let (mt, data) = supiki::media::convert_to_webp("QUJD", "image/webp");
    assert_eq!(mt, "image/webp");
    assert_eq!(data, "QUJD");
}

#[test]
fn image_extensions() {
    assert_eq!(supiki::media::image_extension_of("data:image/jpeg;base64"), "jpg");
    assert_eq!(supiki::media::image_extension_of("data:image/webp;base64"), "webp");
    assert_eq!(supiki::media::image_extension_of("data:application/pdf"), "png");
    assert_eq!(supiki::media::viewer_extension_of("data:image/bmp;base64"), "bmp");
    assert_eq!(supiki::media::viewer_extension_of("data:image/gif;base64"), "gif");
}

#[test]
fn temp_image_paths() {
    assert_eq!(
        supiki::media::temp_image_path("/tmp", 42, 3, "png"),
        "/tmp/mascot-codex-image-42-3.png"
    );
    assert_eq!(
        supiki::media::viewer_image_path("/tmp", 7, "webp"),
        "/tmp/clawd-image-7.webp"
    );
}

#[test]
fn emotion_text_exact() {
    assert_eq!(
        supiki::mcp::set_emotion_text("happy", None),
        "Emotion set to 'happy' for 5000ms. The mascot is now expressing this emotion."
    );
    assert_eq!(
        supiki::mcp::set_emotion_text("sad", Some(1200)),
        "Emotion set to 'sad' for 1200ms. The mascot is now expressing this emotion."
    );
}

#[test]
fn move_to_text_exact() {
    assert_eq!(
        supiki::mcp::move_to_text("left"),
        "Moving mascot to: left. The mascot is now walking to this position."
    );
}

#[test]
fn screenshot_text_exact() {
    let desc = "the editor".to_string();
    assert_eq!(
        supiki::mcp::capture_screenshot_text(2, Some(&desc)),
        "Screenshot captured from 2 monitor(s) (looking for: the editor). Here is what I can see on your screen:"
    );
    assert_eq!(
        supiki::mcp::capture_screenshot_text(1, None),
        "Screenshot captured from 1 monitor(s) (looking for: general view). Here is what I can see on your screen:"
    );
}

#[test]
fn canvas_bounds_two_monitors() {
    let rects = vec![(0, 0, 1920, 1080), (1920, -120, 2560, 1440)];
    let (x, y, w, h) = supiki::mcp::canvas_bounds(&rects).unwrap();
    assert_eq!((x, y), (0, -120));
    assert_eq!((w, h), (4480, 1440));
    assert!(supiki::mcp::canvas_bounds(&Vec::new()).is_none());
}

#[test]
fn strip_extended_prefix_forms() {
    assert_eq!(
        supiki::text::strip_extended_prefix("\\\\?\\C:\\app\\mascot.exe"),
        "C:\\app\\mascot.exe"
    );
    assert_eq!(supiki::text::strip_extended_prefix("/usr/bin/mascot"), "/usr/bin/mascot");
}

#[test]
fn text_utilities() {
    assert!(supiki::text::str_contains("mcp__mascot__set_emotion", "set_emotion"));
    assert!(!supiki::text::str_contains("move_to", "set_emotion"));
    assert!(supiki::text::str_contains("anything", ""));
    assert!(supiki::text::str_starts_with("data:image/png", "data:"));
    assert!(!supiki::text::str_starts_with("da", "data:"));
    assert_eq!(supiki::text::find_char("a,b,c", ','), Some(1));
    assert_eq!(supiki::text::find_char("abc", ','), None);
    assert_eq!(supiki::text::replace_spaces("first job done"), "first_job_done");
    assert_eq!(supiki::text::u64_to_string(0), "0");
    assert_eq!(supiki::text::u64_to_string(90210), "90210");
}

#[test]
fn json_quote_escapes() {
    assert_eq!(supiki::json::json_quote("plain"), "\"plain\"");
    assert_eq!(supiki::json::json_quote("a\"b\\c\nd\t"), "\"a\\\"b\\\\c\\nd\\t\"");
    assert_eq!(supiki::json::json_quote("\u{1}"), "\"\\u0001\"");
}

#[test]
fn parse_json_and_lookups() {
    let j = supiki::json::parse_json(r#"{"a":"x","b":[1,true,null],"c":{"d":"y"}}"#).unwrap();
    let a = supiki::json::obj_get(&j, "a").unwrap();
    assert_eq!(supiki::json::as_str(a).unwrap(), "x");
    let b = supiki::json::obj_get(&j, "b").unwrap();
    let items = supiki::json::as_arr(b).unwrap();
    assert_eq!(items.len(), 3);
    assert_eq!(supiki::json::as_bool(&items[1]), Some(true));
    let c = supiki::json::obj_get(&j, "c").unwrap();
    assert!(supiki::json::is_obj(c));
    assert!(supiki::json::obj_get(&j, "missing").is_none());
    assert!(supiki::json::parse_json("{broken").is_none());

    let copy = c.clone_json();
    let d = supiki::json::obj_get(&copy, "d").unwrap();
    assert_eq!(supiki::json::as_str(d).unwrap(), "y");
}

#[test]
fn session_file_suffixes() {
    // Exercised further in the state tests; here only the parse boundary:
    // a blank line is not a document.
    assert!(supiki::json::parse_json("").is_none());
}
