use modpack_installer::downloader::{
    body_snippet, ensure_success, extract_file_name, file_name_from_header, DownloadProgress,
    DownloadTracker, FetchError, BODY_SNIPPET_LIMIT, DOWNLOAD_TIMEOUT_SECS,
};
use modpack_installer::event::Progress;

#[test]
fn requests_may_take_ten_seconds() {
    assert_eq!(DOWNLOAD_TIMEOUT_SECS, 10);
    assert_eq!(BODY_SNIPPET_LIMIT, 512);
}

#[test]
fn the_header_names_the_file() {
    assert_eq!(
        file_name_from_header("attachment; filename=\"example.jar\""),
        Some("example.jar".to_string())
    );
    assert_eq!(file_name_from_header("attachment; filename=plain.zip"), Some("plain.zip".to_string()));
    assert_eq!(file_name_from_header("filename=first.jar; filename=second.jar"), Some("first.jar".to_string()));
    assert_eq!(
        file_name_from_header("attachment;   filename=\"\" ; filename=\" spaced name.jar \"  "),
        Some("spaced name.jar".to_string())
    );
    assert_eq!(file_name_from_header("attachment; filename=\"\"\"q.jar\"\""), Some("q.jar".to_string()));
}

#[test]
fn a_header_without_a_name_names_nothing() {
    assert_eq!(file_name_from_header(""), None);
    assert_eq!(file_name_from_header("attachment"), None);
    assert_eq!(file_name_from_header("attachment; filename="), None);
    assert_eq!(file_name_from_header("attachment; filename=\"  \""), None);
    assert_eq!(file_name_from_header("attachment; Filename=a.jar"), None);
    assert_eq!(file_name_from_header("attachment; xfilename=a.jar"), None);
    assert_eq!(file_name_from_header("attachment; filename =a.jar"), None);
}

#[test]
fn the_header_comes_before_the_address() {
    assert_eq!(
        extract_file_name(
            Some("attachment; filename=\"from-header.jar\""),
            Some("from-url.jar"),
            "https://example.com/from-url.jar"
        ),
        Ok("from-header.jar".to_string())
    );
}

#[test]
fn the_address_names_the_file_when_the_header_does_not() {
    assert_eq!(
        extract_file_name(None, Some("mod-1.0.jar"), "https://example.com/files/mod-1.0.jar"),
        Ok("mod-1.0.jar".to_string())
    );
    assert_eq!(
        extract_file_name(Some("inline"), Some("mod-1.0.jar"), "https://example.com/files/mod-1.0.jar"),
        Ok("mod-1.0.jar".to_string())
    );
    assert_eq!(
        extract_file_name(None, Some("a.jar?token=1?x"), "https://example.com/a.jar"),
        Ok("a.jar".to_string())
    );
}

#[test]
fn escapes_in_the_address_are_resolved() {
    assert_eq!(
        extract_file_name(None, Some("My%20Mod%2B1.jar"), "https://example.com/My%20Mod%2B1.jar"),
        Ok("My Mod+1.jar".to_string())
    );
    assert_eq!(
        extract_file_name(None, Some("%E3%83%9E%E3%82%AD.jar"), "u"),
        Ok("\u{30DE}\u{30AD}.jar".to_string())
    );
    assert_eq!(extract_file_name(None, Some("100%.jar"), "u"), Ok("100%.jar".to_string()));
    assert_eq!(extract_file_name(None, Some("a+b.jar"), "u"), Ok("a+b.jar".to_string()));
}

#[test]
fn a_name_that_is_no_text_is_refused() {
    assert_eq!(extract_file_name(None, Some("%FF.jar"), "u"), Err(FetchError::UndecodableName));
}

#[test]
fn without_any_name_the_download_fails() {
    let url = "https://example.com/";
    assert_eq!(extract_file_name(None, None, url), Err(FetchError::NoFileName { url: url.to_string() }));
    assert_eq!(
        extract_file_name(None, Some(""), url),
        Err(FetchError::NoFileName { url: url.to_string() })
    );
    assert_eq!(
        extract_file_name(Some("attachment"), Some("?query"), url),
        Err(FetchError::NoFileName { url: url.to_string() })
    );
}

#[test]
fn a_short_body_is_quoted_whole() {
    assert_eq!(body_snippet("not found"), "not found");
    assert_eq!(body_snippet(""), "<empty body>");
    let exact = "x".repeat(512);
    assert_eq!(body_snippet(&exact), exact);
}

#[test]
fn a_long_body_is_cut() {
    let long = "y".repeat(513);
    assert_eq!(body_snippet(&long), format!("{}...", "y".repeat(512)));
    let very_long = "z".repeat(10_000);
    assert_eq!(body_snippet(&very_long).len(), 515);
}

#[test]
fn a_long_body_is_cut_between_characters() {
    // 511 bytes, then a character of three bytes that straddles the limit.
    let body = format!("{}\u{3042}{}", "a".repeat(511), "b".repeat(100));
    assert_eq!(body_snippet(&body), format!("{}...", "a".repeat(511)));
    let two = format!("{}\u{00E9}tail", "a".repeat(510));
    assert_eq!(body_snippet(&two), format!("{}\u{00E9}...", "a".repeat(510)));
}

#[test]
fn a_success_is_accepted() {
    assert_eq!(ensure_success(true, "https://example.com/a", "200 OK", None), Ok(()));
    assert_eq!(ensure_success(true, "https://example.com/a", "204 No Content", Some("")), Ok(()));
}

#[test]
fn a_failure_quotes_the_body() {
    let error = ensure_success(false, "https://example.com/a", "404 Not Found", Some("gone")).unwrap_err();
    assert_eq!(
        error,
        FetchError::BadStatus {
            url: "https://example.com/a".to_string(),
            status: "404 Not Found".to_string(),
            body_snippet: "gone".to_string(),
        }
    );
    assert_eq!(
        error.message(),
        "Request to https://example.com/a failed with status 404 Not Found. Body snippet: gone"
    );
    assert_eq!(
        ensure_success(false, "u", "500 Internal Server Error", Some("")).unwrap_err().message(),
        "Request to u failed with status 500 Internal Server Error. Body snippet: <empty body>"
    );
    assert_eq!(
        ensure_success(false, "u", "502 Bad Gateway", None).unwrap_err().message(),
        "Request to u failed with status 502 Bad Gateway. Body snippet: <failed to read body>"
    );
}

#[test]
fn fetch_errors_describe_themselves() {
    assert_eq!(
        FetchError::NoFileName { url: "https://example.com/".to_string() }.message(),
        "Could not determine file name from final URL 'https://example.com/' or response headers"
    );
    assert_eq!(FetchError::UndecodableName.message(), "The file name in the URL is not valid UTF-8");
}

#[test]
fn content_is_hashed_with_sha1_in_lower_case_hex() {
    let mut tracker = DownloadTracker::new(None);
    tracker.absorb(b"abc");
    let hash = tracker.finish();
    assert_eq!(hash, "a9993e364706816aba3e25717850c26c9cd0d89d");
    assert_eq!(hash.chars().count(), 40);
    let empty = DownloadTracker::new(Some(0));
    assert_eq!(empty.finish(), "da39a3ee5e6b4b0d3255bfef95601890afd80709");
}

#[test]
fn chunks_are_hashed_as_one_content() {
    let mut tracker = DownloadTracker::new(Some(11));
    assert_eq!(
        tracker.absorb(b"hello"),
        DownloadProgress { received_bytes: 5, total_bytes: Some(11) }
    );
    assert_eq!(tracker.absorb(b""), DownloadProgress { received_bytes: 5, total_bytes: Some(11) });
    assert_eq!(
        tracker.absorb(b" world"),
        DownloadProgress { received_bytes: 11, total_bytes: Some(11) }
    );
    assert!(tracker.can_absorb(usize::MAX / 2));
    assert_eq!(tracker.finish(), "2aae6c35c94fcfb415dbe95f408b9ce91ee846ed");
}

#[test]
fn progress_within_a_download_is_a_fraction_of_the_run() {
    let half = DownloadProgress { received_bytes: 50, total_bytes: Some(100) };
    assert_eq!(half.within(2, 5), Some(Progress { completed: 250, total: 500 }));
    let none = DownloadProgress { received_bytes: 0, total_bytes: Some(100) };
    assert_eq!(none.within(2, 5), Some(Progress { completed: 200, total: 500 }));
    let all = DownloadProgress { received_bytes: 100, total_bytes: Some(100) };
    assert_eq!(all.within(2, 5), Some(Progress { completed: 300, total: 500 }));
}

#[test]
fn a_download_of_unknown_size_reports_nothing_within() {
    let unknown = DownloadProgress { received_bytes: 50, total_bytes: None };
    assert_eq!(unknown.within(2, 5), None);
}

#[test]
fn an_empty_download_reports_the_step_boundary() {
    let empty = DownloadProgress { received_bytes: 0, total_bytes: Some(0) };
    assert_eq!(empty.within(2, 5), Some(Progress { completed: 2, total: 5 }));
}

#[test]
fn numbers_that_outgrow_the_machine_report_nothing() {
    let big = DownloadProgress { received_bytes: 1, total_bytes: Some(u64::MAX) };
    assert_eq!(big.within(u128::MAX / 2, u128::MAX), None);
    assert_eq!(big.within(1, u128::MAX), None);
}
