use tubex::args::{
    build_download_args, build_info_fetch_args, build_format_refresh_args, build_update_args,
    expand_vars, ffmpeg_location, parse_flag_string, tool_candidates,
};
use tubex::events::AppEvent;
use tubex::options::{DownloadMode, DownloadOptions};
use tubex::supervise::{
    classify_info_line, download_events_for_outcome, download_poll_outcome,
    info_events_for_outcome, info_poll_outcome, replace_first_video, DownloadOutcome,
    InfoOutcome, LineAction, PollStatus,
};
use tubex::video::VideoInfo;

fn video(formats_empty: bool) -> VideoInfo {
    VideoInfo {
        id: "v".to_string(),
        title: "t".to_string(),
        uploader: None,
        channel_url: None,
        duration: None,
        webpage_url: None,
        url: None,
        view_count: None,
        playlist_count: None,
        result_type: None,
        formats: if formats_empty {
            vec![]
        } else {
            vec![tubex::video::Format {
                format_id: "137".to_string(),
                format_note: None,
                ext: None,
                vcodec: Some("vp9".to_string()),
                acodec: None,
                language: None,
                width: None,
                height: None,
                filesize: None,
            }]
        },
    }
}

#[test]
fn shell_style_flag_parsing() {
    // quoted words survive as one argument: the raw text handed back
    // unchanged would fail this
    let flags = parse_flag_string("--user-agent \"Some Agent\" -4");
    assert_eq!(
        flags,
        vec!["--user-agent".to_string(), "Some Agent".to_string(), "-4".to_string()]
    );
}

#[test]
fn flag_parsing_falls_back_on_unmatched_quote() {
    let flags = parse_flag_string("\"abc def");
    assert_eq!(flags, vec!["\"abc".to_string(), "def".to_string()]);
}

#[test]
fn env_references_expand() {
    let env = vec![("HOME".to_string(), "/home/u".to_string())];
    assert_eq!(expand_vars("--out=%HOME%/dl", &env), "--out=/home/u/dl");
    assert_eq!(expand_vars("%MISSING%/x", &env), "%MISSING%/x");
    assert_eq!(expand_vars("50%", &env), "50%");
    assert_eq!(expand_vars("%HOME%%HOME%", &env), "/home/u/home/u");
}

#[test]
fn info_fetch_invocation_shape() {
    let env: Vec<(String, String)> = vec![];
    let args = build_info_fetch_args("-4", &env, "https://example.test/v");
    assert_eq!(
        args,
        vec![
            "--encoding".to_string(),
            "utf-8".to_string(),
            "-4".to_string(),
            "--dump-json".to_string(),
            "--flat-playlist".to_string(),
            "https://example.test/v".to_string(),
        ]
    );
}

#[test]
fn format_refresh_invocation_shape() {
    let env: Vec<(String, String)> = vec![];
    let args = build_format_refresh_args("", &env, "u");
    assert_eq!(
        args,
        vec![
            "--dump-json".to_string(),
            "--playlist-items".to_string(),
            "1".to_string(),
            "u".to_string(),
        ]
    );
}

#[test]
fn playlist_restriction_lists_exact_indices() {
    let env: Vec<(String, String)> = vec![];
    let opts = DownloadOptions {
        mode: DownloadMode::Playlist {
            indices: vec![1, 3, 5],
            video_format: None,
            audio_formats: vec![],
        },
        add_chapters: false,
        multi_audio: false,
        preferred_languages: vec![],
    };
    let args = build_download_args(
        "",
        &env,
        &None,
        &Some(opts),
        &None,
        &vec!["u1".to_string()],
    );
    let pos = args
        .iter()
        .position(|a| a == "--playlist-items")
        .expect("the restriction argument must be present");
    assert_eq!(args[pos + 1], "1,3,5");
}

#[test]
fn download_invocation_shape() {
    let env = vec![("V".to_string(), "x".to_string())];
    let opts = DownloadOptions {
        mode: DownloadMode::Single {
            video_format: Some("137".to_string()),
            audio_formats: vec!["251".to_string(), "140".to_string()],
        },
        add_chapters: true,
        multi_audio: false,
        preferred_languages: vec![],
    };
    let args = build_download_args(
        "-4",
        &env,
        &Some("/opt/ffmpeg/bin".to_string()),
        &Some(opts),
        &Some("--limit-rate %V%M".to_string()),
        &vec!["u1".to_string(), "u2".to_string()],
    );
    assert_eq!(
        args,
        vec![
            "--encoding".to_string(),
            "utf-8".to_string(),
            "-4".to_string(),
            "--ffmpeg-location".to_string(),
            "/opt/ffmpeg/bin".to_string(),
            "-f".to_string(),
            "137+251+140/bv[format_id^='137']+ba[format_id^='251']+ba[format_id^='140']"
                .to_string(),
            "--embed-chapters".to_string(),
            // two audio streams were chosen, so multiple streams are allowed
            "--audio-multistreams".to_string(),
            "--limit-rate".to_string(),
            "xM".to_string(),
            "u1".to_string(),
            "u2".to_string(),
        ]
    );
}

#[test]
fn merger_location_only_for_real_paths() {
    assert_eq!(ffmpeg_location(&"".to_string(), true), None);
    assert_eq!(ffmpeg_location(&"ffmpeg".to_string(), true), None);
    assert_eq!(ffmpeg_location(&"tool".to_string(), false), None);
    assert_eq!(
        ffmpeg_location(&"/opt/ff".to_string(), true),
        Some("/opt/ff".to_string())
    );
}

#[test]
fn update_invocation_shape() {
    assert_eq!(build_update_args(&"".to_string()), vec!["-U".to_string()]);
    assert_eq!(build_update_args(&"stable".to_string()), vec!["-U".to_string()]);
    assert_eq!(
        build_update_args(&"nightly".to_string()),
        vec!["-U".to_string(), "--update-to".to_string(), "nightly".to_string()]
    );
}

#[test]
fn tool_probe_candidates() {
    assert_eq!(
        tool_candidates(&"  ".to_string(), &"yt-dlp".to_string(), false),
        vec!["yt-dlp".to_string()]
    );
    assert_eq!(
        tool_candidates(&"mytool".to_string(), &"yt-dlp".to_string(), true),
        vec![
            "mytool".to_string(),
            "mytool.exe".to_string(),
            "yt-dlp".to_string(),
            "yt-dlp.exe".to_string(),
        ]
    );
    assert_eq!(
        tool_candidates(&"C:\\tool.EXE".to_string(), &"yt-dlp".to_string(), true),
        vec![
            "C:\\tool.EXE".to_string(),
            "yt-dlp".to_string(),
            "yt-dlp.exe".to_string(),
        ]
    );
}

#[test]
fn flag_parsing_edges() {
    assert_eq!(parse_flag_string(""), Vec::<String>::new());
    assert_eq!(parse_flag_string("   "), Vec::<String>::new());
    // a comment is shell syntax too
    assert_eq!(parse_flag_string("-4 # rest"), vec!["-4".to_string()]);
}

#[test]
fn env_expansion_edges() {
    let env: Vec<(String, String)> = vec![("A".to_string(), "1".to_string())];
    assert_eq!(expand_vars("", &env), "");
    assert_eq!(expand_vars("%A%", &env), "1");
    assert_eq!(expand_vars("%%", &env), "%%");
    // the replacement text is not rescanned
    let tricky = vec![("X".to_string(), "%X%".to_string())];
    assert_eq!(expand_vars("%X%", &tricky), "%X%");
}

#[test]
fn line_classification() {
    assert_eq!(classify_info_line(""), LineAction::Skip);
    assert_eq!(classify_info_line("   \t"), LineAction::Skip);
    assert_eq!(classify_info_line("{\"id\":\"x\"}"), LineAction::Parse);
    assert_eq!(classify_info_line("[download] 3%"), LineAction::Emit);
}

#[test]
fn info_poll_decisions() {
    let none: Vec<VideoInfo> = vec![];
    let some = vec![video(false)];
    let flat = vec![video(true)];
    assert_eq!(
        info_poll_outcome(PollStatus::Running, true, &none),
        InfoOutcome::Continue
    );
    assert_eq!(
        info_poll_outcome(PollStatus::Running, false, &none),
        InfoOutcome::Detach
    );
    assert_eq!(
        info_poll_outcome(PollStatus::Failed, true, &some),
        InfoOutcome::Cancelled
    );
    assert_eq!(
        info_poll_outcome(PollStatus::Exited { success: true, code: Some(0) }, true, &none),
        InfoOutcome::CompleteEmpty
    );
    assert_eq!(
        info_poll_outcome(PollStatus::Exited { success: true, code: Some(0) }, true, &some),
        InfoOutcome::CompleteSuccess { refresh_first: false }
    );
    assert_eq!(
        info_poll_outcome(PollStatus::Exited { success: true, code: Some(0) }, true, &flat),
        InfoOutcome::CompleteSuccess { refresh_first: true }
    );
    assert_eq!(
        info_poll_outcome(PollStatus::Exited { success: false, code: Some(1) }, true, &some),
        InfoOutcome::ExitFailure { code: Some(1) }
    );
}

#[test]
fn empty_fetch_ends_in_error_never_finished() {
    // exit status zero, but not one JSON line was parsed
    let o = info_poll_outcome(
        PollStatus::Exited { success: true, code: Some(0) },
        true,
        &vec![],
    );
    let events = info_events_for_outcome(&"u".to_string(), &o, vec![]);
    assert_eq!(events.len(), 1);
    assert!(matches!(
        &events[0],
        AppEvent::Error(tag, msg) if tag == "u" && msg == "No valid video information found."
    ));
    assert!(!events.iter().any(|e| matches!(e, AppEvent::Finished(_))));
}

#[test]
fn cancelled_fetch_emits_one_error() {
    let o = info_poll_outcome(PollStatus::Failed, true, &vec![video(false)]);
    let events = info_events_for_outcome(&"u".to_string(), &o, vec![video(false)]);
    assert_eq!(events.len(), 1);
    assert!(matches!(
        &events[0],
        AppEvent::Error(tag, msg) if tag == "u" && msg == "Cancelled"
    ));
}

#[test]
fn successful_fetch_offers_options_then_finishes() {
    let o = InfoOutcome::CompleteSuccess { refresh_first: false };
    let events = info_events_for_outcome(&"u".to_string(), &o, vec![video(false)]);
    assert_eq!(events.len(), 2);
    assert!(matches!(&events[0], AppEvent::ShowOptions(tag, vs) if tag == "u" && vs.len() == 1));
    assert!(matches!(&events[1], AppEvent::Finished(tag) if tag == "u"));
}

#[test]
fn failed_fetch_reports_exit_code() {
    let o = InfoOutcome::ExitFailure { code: Some(2) };
    let events = info_events_for_outcome(&"u".to_string(), &o, vec![]);
    assert!(matches!(
        &events[0],
        AppEvent::Error(_, msg) if msg == "Process exited with code Some(2)"
    ));
    let o2 = InfoOutcome::ExitFailure { code: None };
    let events2 = info_events_for_outcome(&"u".to_string(), &o2, vec![]);
    assert!(matches!(
        &events2[0],
        AppEvent::Error(_, msg) if msg == "Process exited with code None"
    ));
}

#[test]
fn refresh_replaces_only_the_first_item() {
    let mut videos = vec![video(true), video(true)];
    replace_first_video(&mut videos, Some(video(false)));
    assert_eq!(videos[0].formats.len(), 1);
    assert_eq!(videos[1].formats.len(), 0);
    replace_first_video(&mut videos, None);
    assert_eq!(videos[0].formats.len(), 1);
}

#[test]
fn download_poll_decisions() {
    assert_eq!(
        download_poll_outcome(PollStatus::Running, true),
        DownloadOutcome::Continue
    );
    assert_eq!(
        download_poll_outcome(PollStatus::Running, false),
        DownloadOutcome::Detach
    );
    assert_eq!(
        download_poll_outcome(PollStatus::Failed, true),
        DownloadOutcome::Killed
    );
    assert_eq!(
        download_poll_outcome(PollStatus::Exited { success: true, code: Some(0) }, true),
        DownloadOutcome::Completed
    );
    assert_eq!(
        download_poll_outcome(PollStatus::Exited { success: false, code: None }, true),
        DownloadOutcome::ExitFailure { code: None }
    );
}

#[test]
fn download_outcome_events() {
    let tag = "u".to_string();
    let killed = download_events_for_outcome(&tag, &DownloadOutcome::Killed);
    assert!(matches!(&killed[0], AppEvent::Error(_, m) if m == "Process killed"));
    let done = download_events_for_outcome(&tag, &DownloadOutcome::Completed);
    assert!(matches!(&done[0], AppEvent::Finished(t) if t == "u"));
    let failed =
        download_events_for_outcome(&tag, &DownloadOutcome::ExitFailure { code: Some(-9) });
    assert!(matches!(&failed[0], AppEvent::Error(_, m) if m == "Exit: Some(-9)"));
    assert!(download_events_for_outcome(&tag, &DownloadOutcome::Continue).is_empty());
    assert!(download_events_for_outcome(&tag, &DownloadOutcome::Detach).is_empty());
}
