use concord::media::{
    media_player_spawn_error,
    download_final_report, download_progress_after_chunk, DownloadProgress,
    media_player_window_outcome, MediaPlayerWindowEvent, MediaPlayerWindowOutcome,
    check_download_size, mpv_window_id_request, current_open_url_command_spec, download_candidate_name, download_candidate_name_from_parts,
    media_playback_label, media_player_command_spec_for_url,
    media_player_command_spec_for_url_with_ipc, mpv_window_id_readiness,
    mpv_window_id_response_readiness, normalize_openable_url,
    open_url, sanitize_filename, windows_open_url_command_spec, MpvWindowIdData, OpenerPlatform,
};

#[test]
fn sanitize_filename_replaces_path_separators() {
    assert_eq!(sanitize_filename("../cat\\dog.png"), "_cat_dog.png");
}

#[test]
fn open_url_rejects_non_web_schemes_before_spawning_opener() {
    let error = open_url("file:///etc/passwd").expect_err("file URLs should be rejected");

    assert_eq!(error.kind(), std::io::ErrorKind::InvalidInput);
}

#[test]
fn media_player_rejects_non_web_schemes_before_spawning_player() {
    let error = media_player_command_spec_for_url("file:///etc/passwd")
        .expect_err("file URLs should be rejected");

    assert_eq!(error.kind(), std::io::ErrorKind::InvalidInput);
}

#[test]
fn media_player_uses_mpv_without_shell_parsing() {
    let spec = media_player_command_spec_for_url("https://example.com/video.mp4?x=1&y=2")
        .expect("https media URLs should be accepted");

    assert_eq!(spec.program, "mpv");
    assert_eq!(
        spec.args,
        vec![
            "--no-terminal".to_owned(),
            "--".to_owned(),
            "https://example.com/video.mp4?x=1&y=2".to_owned(),
        ]
    );
}

#[test]
fn media_player_command_can_enable_json_ipc() {
    let spec = media_player_command_spec_for_url_with_ipc(
        "https://example.com/video.mp4",
        Some("/tmp/concord-mpv.sock"),
    )
    .expect("https media URLs should be accepted");

    assert_eq!(spec.program, "mpv");
    assert_eq!(
        spec.args,
        vec![
            "--no-terminal".to_owned(),
            "--input-ipc-server=/tmp/concord-mpv.sock".to_owned(),
            "--".to_owned(),
            "https://example.com/video.mp4".to_owned(),
        ]
    );
}

#[test]
fn windows_url_opener_avoids_cmd_shell_parsing() {
    let spec = windows_open_url_command_spec("https://example.com/?a=1&b=2");

    assert_eq!(spec.program, "rundll32");
    assert_eq!(
        spec.args,
        vec![
            "url.dll,FileProtocolHandler".to_owned(),
            "https://example.com/?a=1&b=2".to_owned(),
        ]
    );
}

fn readiness_of_line(line: &str, request_id: u64) -> Option<bool> {
    mpv_window_id_response_readiness(line.as_bytes(), request_id)
}

#[test]
fn mpv_window_id_response_reports_window_readiness() {
    assert_eq!(
        readiness_of_line(r#"{"data":945,"error":"success","request_id":7}"#, 7),
        Some(true)
    );
    assert_eq!(
        readiness_of_line(r#"{"data":null,"error":"success","request_id":7}"#, 7),
        Some(false)
    );
    assert_eq!(
        readiness_of_line(r#"{"data":945,"error":"success","request_id":6}"#, 7),
        None
    );
}

#[test]
fn mpv_window_id_response_reads_strings_negatives_and_floats() {
    assert_eq!(
        readiness_of_line(r#"{"data":"0x2a","error":"success","request_id":1}"#, 1),
        Some(true)
    );
    assert_eq!(
        readiness_of_line(r#"{"data":"0","error":"success","request_id":1}"#, 1),
        Some(false)
    );
    assert_eq!(
        readiness_of_line(r#"{"data":-5,"error":"success","request_id":1}"#, 1),
        Some(true)
    );
    assert_eq!(
        readiness_of_line(r#"{"data":1.5,"error":"success","request_id":1}"#, 1),
        Some(false)
    );
    assert_eq!(
        readiness_of_line(r#"{"data":945,"error":"property unavailable","request_id":1}"#, 1),
        Some(false)
    );
    assert_eq!(readiness_of_line(r#"{"data":945,"error":"success"}"#, 1), None);
}

#[test]
fn mpv_window_readiness_reads_text_ids_and_errors() {
    let text = MpvWindowIdData::Text("0x1a".to_owned());
    assert_eq!(mpv_window_id_readiness(Some(3), Some("success"), &text, 3), Some(true));
    let zero = MpvWindowIdData::Text("0".to_owned());
    assert_eq!(mpv_window_id_readiness(Some(3), Some("success"), &zero, 3), Some(false));
    let number = MpvWindowIdData::Number { nonzero: true };
    assert_eq!(
        mpv_window_id_readiness(Some(3), Some("property unavailable"), &number, 3),
        Some(false)
    );
    assert_eq!(mpv_window_id_readiness(None, Some("success"), &number, 3), None);
}

#[test]
fn openable_urls_are_trimmed_web_links() {
    assert_eq!(
        normalize_openable_url("  https://example.com/a  "),
        Some("https://example.com/a".to_owned())
    );
    assert_eq!(
        normalize_openable_url("HTTP://example.com"),
        Some("HTTP://example.com".to_owned())
    );
    assert_eq!(normalize_openable_url("https://"), None);
    assert_eq!(normalize_openable_url("javascript:alert(1)"), None);
    assert_eq!(normalize_openable_url("mailto:someone@example.com"), None);
    assert_eq!(open_url(" http://example.com ").expect("web links open"), "http://example.com");
}

#[test]
fn opener_follows_platform() {
    let mac = current_open_url_command_spec(OpenerPlatform::MacOs, "https://a.b/");
    assert_eq!(mac.program, "open");
    assert_eq!(mac.args, vec!["https://a.b/".to_owned()]);
    let linux = current_open_url_command_spec(OpenerPlatform::OtherUnix, "https://a.b/");
    assert_eq!(linux.program, "xdg-open");
    assert_eq!(linux.args, vec!["https://a.b/".to_owned()]);
    let windows = current_open_url_command_spec(OpenerPlatform::Windows, "https://a.b/");
    assert_eq!(windows, windows_open_url_command_spec("https://a.b/"));
}

#[test]
fn playback_label_defaults_to_media() {
    assert_eq!(media_playback_label(""), "media");
    assert_eq!(media_playback_label("cat.mp4"), "cat.mp4");
}

#[test]
fn sanitize_filename_trims_and_falls_back() {
    assert_eq!(sanitize_filename(" .hidden. "), "hidden");
    assert_eq!(sanitize_filename("..."), "attachment");
    assert_eq!(sanitize_filename(""), "attachment");
    assert_eq!(sanitize_filename("a\u{7}b\nc.txt"), "a_b_c.txt");
    assert_eq!(sanitize_filename("report.pdf"), "report.pdf");
    let once = sanitize_filename("./..\\x/ .");
    assert_eq!(sanitize_filename(&once), once);
}

#[test]
fn download_candidates_number_the_stem() {
    assert_eq!(download_candidate_name("cat.png", 0), "cat.png");
    assert_eq!(download_candidate_name("cat.png", 1), "cat (1).png");
    assert_eq!(download_candidate_name("archive.tar.gz", 2), "archive.tar (2).gz");
    assert_eq!(download_candidate_name("README", 3), "README (3)");
    assert_eq!(
        download_candidate_name_from_parts("x", None, Some("bin"), 12),
        "attachment (12).bin"
    );
}

#[test]
fn mpv_window_requests_carry_their_id() {
    assert_eq!(
        mpv_window_id_request(7),
        r#"{"command":["get_property","window-id"],"request_id":7}"#
    );
}

#[test]
fn downloads_stop_at_their_limit() {
    assert_eq!(check_download_size("image preview", 0, 10, 10), Ok(()));
    assert_eq!(
        check_download_size("image preview", 8, 3, 10),
        Err("image preview is too large: 11 bytes (max 10)".to_owned())
    );
    assert_eq!(check_download_size("file", u64::MAX, 1, u64::MAX), Ok(()));
    assert_eq!(
        check_download_size("file", u64::MAX, 1, 5),
        Err(format!("file is too large: {} bytes (max 5)", u64::MAX))
    );
}

#[test]
fn window_wait_outcomes_explain_failures() {
    assert_eq!(
        media_player_window_outcome(&MediaPlayerWindowEvent::Ready, "cat.mp4"),
        MediaPlayerWindowOutcome::Ready
    );
    assert_eq!(
        media_player_window_outcome(
            &MediaPlayerWindowEvent::ChildExited { success: true, status: "exit status: 0".to_owned() },
            "cat.mp4"
        ),
        MediaPlayerWindowOutcome::ChildExited(
            "play cat.mp4 failed: media player exited before opening a window".to_owned()
        )
    );
    assert_eq!(
        media_player_window_outcome(
            &MediaPlayerWindowEvent::ChildExited { success: false, status: "exit status: 2".to_owned() },
            "media"
        ),
        MediaPlayerWindowOutcome::ChildExited("play media failed: media player exited with status exit status: 2".to_owned())
    );
    assert_eq!(
        media_player_window_outcome(&MediaPlayerWindowEvent::TimedOut, "media"),
        MediaPlayerWindowOutcome::ReadinessFailed(
            "play media failed: media player did not report a window within 300 seconds".to_owned()
        )
    );
    assert_eq!(
        media_player_window_outcome(&MediaPlayerWindowEvent::ReadinessFailed { error: "broken pipe".to_owned() }, "x"),
        MediaPlayerWindowOutcome::ReadinessFailed("play x failed: media player readiness check failed: broken pipe".to_owned())
    );
    assert_eq!(
        media_player_window_outcome(&MediaPlayerWindowEvent::ChildWaitFailed { error: "gone".to_owned() }, "x"),
        MediaPlayerWindowOutcome::ChildExited("play x failed: media player wait failed: gone".to_owned())
    );
}

#[test]
fn mpv_window_id_response_ignores_lines_that_are_not_json() {
    assert_eq!(readiness_of_line("not json", 1), None);
    assert_eq!(readiness_of_line("", 1), None);
    assert_eq!(readiness_of_line(r#"{"data":"7","error":"success","request_id":18446744073709551615}"#, u64::MAX), Some(true));
}

#[test]
fn download_progress_is_reported_when_due_and_at_the_end() {
    let start = DownloadProgress { downloaded_bytes: 0, last_reported_bytes: 0 };
    let (after_first, report) = download_progress_after_chunk(start, 100, false);
    assert_eq!(report, None);
    assert_eq!(after_first, DownloadProgress { downloaded_bytes: 100, last_reported_bytes: 0 });
    let (after_second, report) = download_progress_after_chunk(after_first, 50, true);
    assert_eq!(report, Some(150));
    assert_eq!(after_second.last_reported_bytes, 150);
    assert_eq!(download_final_report(after_second), None);
    let (after_third, _) = download_progress_after_chunk(after_second, 10, false);
    assert_eq!(download_final_report(after_third), Some(160));
    let (saturated, _) = download_progress_after_chunk(
        DownloadProgress { downloaded_bytes: u64::MAX - 1, last_reported_bytes: 0 },
        5,
        false,
    );
    assert_eq!(saturated.downloaded_bytes, u64::MAX);
}

#[test]
fn media_player_missing_binary_error_mentions_mpv_requirement() {
    let error = media_player_spawn_error(std::io::Error::new(
        std::io::ErrorKind::NotFound,
        "No such file or directory",
    ));

    assert_eq!(error.kind(), std::io::ErrorKind::NotFound);
    assert_eq!(
        error.to_string(),
        "mpv is required for media playback; install mpv and make sure it is on PATH"
    );
}

#[test]
fn media_player_spawn_errors_of_other_kinds_pass_through() {
    let error = media_player_spawn_error(std::io::Error::new(
        std::io::ErrorKind::PermissionDenied,
        "denied",
    ));
    assert_eq!(error.kind(), std::io::ErrorKind::PermissionDenied);
    assert_eq!(error.to_string(), "denied");
}
