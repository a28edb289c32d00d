use snip::naming::{
    path_from_parsed_uri, screenshot_filename, screenshot_filename_for, uri_to_path, EARLIEST_UNIX_SECS,
    LATEST_UNIX_SECS,
};

#[test]
fn test_screenshot_filename_format() {
    let now = chrono::Local::now();
    let name = screenshot_filename(now.timestamp(), now.offset().local_minus_utc()).unwrap();
    assert!(name.starts_with("snip-shot-"));
    assert!(name.ends_with(".png"));
    assert_eq!(name.len(), "snip-shot-2026-04-02_14-35-22.png".len());
}

#[test]
fn filename_for_known_moments() {
    assert_eq!(screenshot_filename(0, 0).unwrap(), "snip-shot-1970-01-01_00-00-00.png");
    // 2026-04-02 11:35:22 UTC seen three hours east of UTC.
    assert_eq!(
        screenshot_filename(1775129722, 3 * 3600).unwrap(),
        "snip-shot-2026-04-02_14-35-22.png"
    );
    // The epoch seen three hours west of UTC is still the previous day.
    assert_eq!(screenshot_filename(0, -3 * 3600).unwrap(), "snip-shot-1969-12-31_21-00-00.png");
}

#[test]
fn filename_follows_gregorian_calendar() {
    assert_eq!(screenshot_filename(1709208000, 0).unwrap(), "snip-shot-2024-02-29_12-00-00.png");
    assert_eq!(screenshot_filename(-2203891200 - 1, 0).unwrap(), "snip-shot-1900-02-28_23-59-59.png");
    assert_eq!(screenshot_filename(978307199, 0).unwrap(), "snip-shot-2000-12-31_23-59-59.png");
}

#[test]
fn filename_range_edges() {
    assert_eq!(
        screenshot_filename(253402214401, -3600).unwrap(),
        "snip-shot-9999-12-30_23-00-01.png"
    );
    assert_eq!(
        screenshot_filename(253402300799, 0).unwrap(),
        "snip-shot-9999-12-31_23-59-59.png"
    );
    assert_eq!(
        screenshot_filename(253402300800, 0).unwrap(),
        "snip-shot-+10000-01-01_00-00-00.png"
    );
    assert_eq!(
        screenshot_filename(-62167219200, 0).unwrap(),
        "snip-shot-0000-01-01_00-00-00.png"
    );
    assert!(screenshot_filename(LATEST_UNIX_SECS, 86399).is_some());
    assert!(screenshot_filename(EARLIEST_UNIX_SECS, -86399).is_some());
    assert!(screenshot_filename(LATEST_UNIX_SECS + 1, 0).is_none());
    assert!(screenshot_filename(EARLIEST_UNIX_SECS - 1, 0).is_none());
    assert!(screenshot_filename(0, 86400).is_none());
    assert!(screenshot_filename(0, -86400).is_none());
}

#[test]
fn filenames_sort_like_times() {
    let a = screenshot_filename(1775129722, 0).unwrap();
    let b = screenshot_filename(1775129723, 0).unwrap();
    let c = screenshot_filename(1775129722 + 86400 * 40, 0).unwrap();
    assert!(a < b);
    assert!(b < c);
}

#[test]
fn filename_for_stamp() {
    assert_eq!(
        screenshot_filename_for("2026-04-02_14-35-22"),
        "snip-shot-2026-04-02_14-35-22.png"
    );
    assert_eq!(screenshot_filename_for(""), "snip-shot-.png");
}

#[test]
fn uri_of_file_becomes_path() {
    assert_eq!(uri_to_path("file:///tmp/shot.png"), b"/tmp/shot.png".to_vec());
    assert_eq!(uri_to_path("file:///tmp/a%20b.png"), b"/tmp/a b.png".to_vec());
    assert_eq!(uri_to_path("file://localhost/home/u/x.png"), b"/home/u/x.png".to_vec());
    assert_eq!(uri_to_path("file:///tmp/%FF.png"), b"/tmp/\xFF.png".to_vec());
}

#[test]
fn non_file_uri_is_kept() {
    assert_eq!(uri_to_path("/already/a/path.png"), b"/already/a/path.png".to_vec());
    assert_eq!(uri_to_path("file://remote-host/x.png"), b"file://remote-host/x.png".to_vec());
    assert_eq!(uri_to_path("not a uri"), b"not a uri".to_vec());
}

#[test]
fn parsed_uri_choice() {
    assert_eq!(path_from_parsed_uri(Some(b"/p".to_vec()), "file:///p"), b"/p".to_vec());
    assert_eq!(path_from_parsed_uri(None, "weird"), b"weird".to_vec());
}
