//! The file dialog's decisions: accept strings, media types, suggested
//! names, joining.

use em_bindgen::utils::file_dialog::{decimal_string, group_by_mime, FileDialog};
use em_bindgen::utils::string_join;

#[test]
fn accept_string_joins_dotted_extensions() {
    let d = FileDialog::default()
        .add_filter(String::from("images"), &vec![String::from("png"), String::from("jpg")])
        .add_filter(String::from("text"), &vec![String::from("txt")]);
    assert_eq!(d.accept_string(), ".png,.jpg,.txt");
}

#[test]
fn accept_string_is_a_star_without_filters() {
    assert_eq!(FileDialog::default().accept_string(), "*");
    let named = FileDialog::default().set_file_name(String::from("out.bin"));
    assert_eq!(named.accept_string(), "*");
}

#[test]
fn save_mimes_resolve_known_extensions() {
    let d = FileDialog::default().add_filter(
        String::from("images"),
        &vec![String::from("png"), String::from("jpg")],
    );
    let (pairs, suggested) = d.save_file_mimes();
    assert_eq!(pairs.len(), 2);
    assert_eq!(pairs[0].0, ".png");
    assert_eq!(pairs[0].1, "image/png");
    assert_eq!(pairs[1].0, ".jpg");
    assert_eq!(pairs[1].1, "image/jpeg");
    // The first successful lookup becomes the suggestion.
    assert_eq!(suggested, "image/png");
}

#[test]
fn unknown_extension_falls_back_to_the_suggestion() {
    let d = FileDialog::default()
        .set_file_name(String::from("picture.png"))
        .add_filter(String::from("odd"), &vec![String::from("zz9qq")]);
    let (pairs, suggested) = d.save_file_mimes();
    // The unknown extension borrows the file name's media type.
    assert_eq!(pairs[0].1, "image/png");
    assert_eq!(suggested, "image/png");
}

#[test]
fn nothing_known_yields_the_octet_stream_fallback() {
    let d = FileDialog::default().add_filter(String::from("odd"), &vec![String::from("zz9qq")]);
    let (pairs, suggested) = d.save_file_mimes();
    assert_eq!(pairs[0].1, "application/octet-stream");
    assert_eq!(suggested, "application/octet-stream");
}

#[test]
fn suggested_name_prefers_the_configured_one() {
    let named = FileDialog::default().set_file_name(String::from("report.txt"));
    assert_eq!(named.suggested_file_name(1234), "report.txt");
    let unnamed = FileDialog::default();
    assert_eq!(unnamed.suggested_file_name(1711111111), "1711111111");
}

#[test]
fn grouping_collects_extensions_by_media_type() {
    let d = FileDialog::default().add_filter(
        String::from("images"),
        &vec![String::from("png"), String::from("jpeg"), String::from("jpg")],
    );
    let (pairs, _) = d.save_file_mimes();
    let groups = group_by_mime(&pairs);
    // jpeg and jpg share image/jpeg; png has its own group.
    assert_eq!(groups.len(), 2);
    assert_eq!(groups[0].0, "image/png");
    assert_eq!(groups[0].1, vec![String::from(".png")]);
    assert_eq!(groups[1].0, "image/jpeg");
    assert_eq!(groups[1].1, vec![String::from(".jpeg"), String::from(".jpg")]);
}

#[test]
fn decimal_rendering() {
    assert_eq!(decimal_string(0), "0");
    assert_eq!(decimal_string(7), "7");
    assert_eq!(decimal_string(10), "10");
    assert_eq!(decimal_string(1234567890), "1234567890");
    assert_eq!(decimal_string(u64::MAX), "18446744073709551615");
}

#[test]
fn string_join_skips_the_delimiter_while_empty() {
    let parts = vec![String::from("a"), String::from("b"), String::from("c")];
    assert_eq!(string_join(&parts, ", "), "a, b, c");
    let leading_empty = vec![String::new(), String::from("a")];
    // No delimiter is written while nothing has accumulated.
    assert_eq!(string_join(&leading_empty, ","), "a");
    assert_eq!(string_join(&Vec::new(), ","), "");
    let inner_empty = vec![String::from("a"), String::new(), String::from("b")];
    assert_eq!(string_join(&inner_empty, ","), "a,,b");
}
