use watchparty::media::{
    delete_status, faststart_step, faststart_temp_name, media_file_name, readable_rows,
    removed_any, upload_name, FaststartStep, UploadError, UploadTally, MAX_UPLOAD,
};
use watchparty::protocol::Video;

#[test]
fn tally_accepts_up_to_the_cap() {
    let mut t = UploadTally::new();
    assert_eq!(t.add_chunk(1000), Ok(()));
    assert_eq!(t.add_chunk(24), Ok(()));
    assert_eq!(t.wrote(), 1024);
    assert_eq!(t.finish(), Ok(1024));
}

#[test]
fn tally_refuses_past_the_cap() {
    let mut t = UploadTally::new();
    assert_eq!(MAX_UPLOAD, 4 * 1024 * 1024 * 1024);
    assert_eq!(t.add_chunk((MAX_UPLOAD - 1) as usize), Ok(()));
    assert_eq!(t.add_chunk(1), Ok(()));
    assert_eq!(t.wrote(), MAX_UPLOAD);
    assert_eq!(t.add_chunk(1), Err(UploadError::TooLarge));
    assert_eq!(t.wrote(), MAX_UPLOAD);
    let mut u = UploadTally::new();
    assert_eq!(u.add_chunk(usize::MAX), Err(UploadError::TooLarge));
}

#[test]
fn empty_upload_is_refused() {
    let mut t = UploadTally::new();
    assert_eq!(t.finish(), Err(UploadError::Empty));
    assert_eq!(t.add_chunk(0), Ok(()));
    assert_eq!(t.finish(), Err(UploadError::Empty));
}

#[test]
fn upload_errors_answer_with_status_and_text() {
    let cases = [
        (UploadError::BadBody { detail: "broken".to_string() }, 400, "broken"),
        (UploadError::TooLarge, 413, "file too large"),
        (UploadError::Empty, 400, "empty upload"),
        (UploadError::Internal { detail: "disk full".to_string() }, 500, "disk full"),
    ];
    for (e, status, text) in cases {
        assert_eq!(e.status(), status);
        assert_eq!(e.message(), text);
    }
}

#[test]
fn names_of_files_and_uploads() {
    assert_eq!(media_file_name("abc"), "abc.mp4");
    assert_eq!(faststart_temp_name("abc"), "abc.fast.mp4");
    assert_eq!(upload_name(Some("Holiday.mp4".to_string()), "abc"), "Holiday.mp4");
    assert_eq!(upload_name(None, "abc"), "abc.mp4");
}

#[test]
fn faststart_and_delete_decisions() {
    assert_eq!(faststart_step(true), FaststartStep::ReplaceOriginal);
    assert_eq!(faststart_step(false), FaststartStep::DiscardRemux);
    assert_eq!(delete_status(true), 204);
    assert_eq!(delete_status(false), 404);
    assert!(removed_any(Some(1)));
    assert!(!removed_any(Some(0)));
    assert!(!removed_any(None));
}

#[test]
fn unreadable_rows_are_skipped_in_order() {
    let v = |id: &str, t: i64| Video { id: id.to_string(), name: format!("{id}.mp4"), uploaded_at: t };
    let rows = vec![Some(v("c", 3)), None, Some(v("b", 2)), None, Some(v("a", 1))];
    assert_eq!(readable_rows(rows), vec![v("c", 3), v("b", 2), v("a", 1)]);
    assert!(readable_rows(vec![None, None]).is_empty());
}
