use tubex::commands::{command_choice_labels, selected_command, CustomCommand};
use tubex::dispatch::{
    build_batch_probe_args, conclude_batch_probe, parse_url_lines, plan_download_action,
    DownloadAction,
};
use tubex::events::AppEvent;
use tubex::messages::{
    error_label, finished_label, info_stderr_event, parse_warning_event, started_status_event,
};
use tubex::search::{
    build_fetch_list_args, build_search_args, channel_action_url, channel_tab_url,
    format_duration, parse_title_url_line, result_label, result_label_prefix, search_target,
    ChannelTab, SearchMode, SearchPager,
};
use tubex::options::one_based_indices;
use tubex::video::{video_url, VideoInfo};

fn bare_video() -> VideoInfo {
    VideoInfo {
        id: "abc".to_string(),
        title: "t".to_string(),
        uploader: None,
        channel_url: None,
        duration: None,
        webpage_url: None,
        url: None,
        view_count: None,
        playlist_count: None,
        result_type: None,
        formats: vec![],
    }
}

#[test]
fn url_lines_are_trimmed_and_filtered() {
    let urls = parse_url_lines("https://a\n  \n  https://b  \r\nhttps://c");
    assert_eq!(
        urls,
        vec![
            "https://a".to_string(),
            "https://b".to_string(),
            "https://c".to_string(),
        ]
    );
    assert!(parse_url_lines("").is_empty());
    assert!(parse_url_lines(" \n \n").is_empty());
}

#[test]
fn batch_of_three_probes_first_url_only() {
    // three URLs under automatic selection: one probe for the first URL,
    // whose success carries all three back
    let urls = vec!["u1".to_string(), "u2".to_string(), "u3".to_string()];
    let action = plan_download_action(0, urls.clone(), String::new());
    let probed = match action {
        DownloadAction::ProbeFirstForAll { urls: u } => u,
        other => panic!("expected the batch probe, got {:?}", other),
    };
    assert_eq!(probed, urls);
    let args = build_batch_probe_args("", &probed);
    assert_eq!(args, vec!["--dump-json".to_string(), "u1".to_string()]);
    let event = conclude_batch_probe(probed, vec![bare_video()]);
    match event {
        AppEvent::ShowOptionsForMultipleUrls(us, first) => {
            assert_eq!(us, urls);
            assert_eq!(first.id, "abc");
        }
        other => panic!("expected the batch offer, got {:?}", other),
    }
}

#[test]
fn failed_probe_names_the_first_url() {
    let urls = vec!["u1".to_string(), "u2".to_string()];
    let event = conclude_batch_probe(urls, vec![]);
    assert!(matches!(
        event,
        AppEvent::Error(tag, msg)
            if tag == "u1" && msg == "No video info found for first URL."
    ));
}

#[test]
fn single_url_is_fetched_directly() {
    let action = plan_download_action(0, vec!["u".to_string()], String::new());
    assert!(matches!(action, DownloadAction::FetchEach { urls } if urls == vec!["u".to_string()]));
}

#[test]
fn custom_command_runs_per_url() {
    let action =
        plan_download_action(2, vec!["u".to_string()], "--extract-audio".to_string());
    assert!(matches!(
        action,
        DownloadAction::CustomEach { urls, command }
            if urls == vec!["u".to_string()] && command == "--extract-audio"
    ));
    assert!(matches!(
        plan_download_action(2, vec!["u".to_string()], String::new()),
        DownloadAction::Idle
    ));
    assert!(matches!(
        plan_download_action(0, vec![], String::new()),
        DownloadAction::Idle
    ));
}

#[test]
fn video_search_target_counts_results() {
    let t = search_target(SearchMode::Video, &"cats".to_string(), 20);
    assert_eq!(t, "ytsearch20:cats");
}

#[test]
fn channel_search_target_is_percent_encoded() {
    // the query's space must come out percent-encoded: the raw query
    // handed back unchanged would fail this
    let t = search_target(SearchMode::Channel, &"two words".to_string(), 20);
    assert_eq!(
        t,
        "https://www.youtube.com/results?search_query=two%20words&sp=EgIQAg%3D%3D"
    );
    let p = search_target(SearchMode::Playlist, &"a/b".to_string(), 20);
    assert_eq!(
        p,
        "https://www.youtube.com/results?search_query=a%2Fb&sp=EgIQAw%3D%3D"
    );
}

#[test]
fn channel_tab_urls() {
    assert_eq!(
        channel_tab_url(&"https://y/c/x/".to_string(), ChannelTab::Videos),
        "https://y/c/x/videos"
    );
    assert_eq!(
        channel_tab_url(&"https://y/c/x".to_string(), ChannelTab::Playlists),
        "https://y/c/x/playlists"
    );
    assert_eq!(
        channel_tab_url(&"https://y/c/x".to_string(), ChannelTab::Releases),
        "https://y/c/x/releases"
    );
}

#[test]
fn search_invocation_windows_results() {
    let args = build_search_args("target".to_string(), 1);
    assert_eq!(
        args,
        vec![
            "--dump-json".to_string(),
            "--flat-playlist".to_string(),
            "--skip-download".to_string(),
            "--playlist-end".to_string(),
            "20".to_string(),
            "target".to_string(),
        ]
    );
    let more = build_search_args("target".to_string(), 21);
    assert_eq!(
        more,
        vec![
            "--dump-json".to_string(),
            "--flat-playlist".to_string(),
            "--skip-download".to_string(),
            "--playlist-start".to_string(),
            "21".to_string(),
            "--playlist-end".to_string(),
            "40".to_string(),
            "target".to_string(),
        ]
    );
}

#[test]
fn fetch_list_invocation_prints_pairs() {
    let args = build_fetch_list_args(&"https://y/c/x/".to_string(), true);
    assert_eq!(
        args,
        vec![
            "--flat-playlist".to_string(),
            "--print".to_string(),
            "%(title)s:::%(url)s".to_string(),
            "https://y/c/x/releases".to_string(),
        ]
    );
}

#[test]
fn title_url_pairs_split_at_first_marker() {
    assert_eq!(
        parse_title_url_line("My List:::https://u"),
        Some(("My List".to_string(), "https://u".to_string()))
    );
    assert_eq!(
        parse_title_url_line("a:::b:::c"),
        Some(("a".to_string(), "b:::c".to_string()))
    );
    assert_eq!(parse_title_url_line("no marker"), None);
    assert_eq!(parse_title_url_line(""), None);
    assert_eq!(parse_title_url_line(":::x"), Some(("".to_string(), "x".to_string())));
}

#[test]
fn result_prefixes() {
    let mut v = bare_video();
    v.result_type = Some("url".to_string());
    v.url = Some("https://www.youtube.com/channel/UC123".to_string());
    assert_eq!(result_label_prefix(&v), "[Channel] ");
    v.url = Some("https://www.youtube.com/@handle".to_string());
    assert_eq!(result_label_prefix(&v), "[Channel] ");
    v.url = Some("https://www.youtube.com/playlist?list=PL1".to_string());
    assert_eq!(result_label_prefix(&v), "[Playlist] ");
    v.url = Some("https://www.youtube.com/watch?v=1".to_string());
    assert_eq!(result_label_prefix(&v), "");
    v.result_type = None;
    assert_eq!(result_label_prefix(&v), "");
}

#[test]
fn result_rows_combine_the_pieces() {
    let mut v = bare_video();
    v.title = "A Video".to_string();
    v.duration = Some(61);
    v.uploader = Some("Someone".to_string());
    let row = result_label(&v, &Some("1.2M views".to_string()));
    assert_eq!(row, "A Video [1:01] - Someone - 1.2M views");

    let mut p = bare_video();
    p.title = "A List".to_string();
    p.playlist_count = Some(12);
    p.result_type = Some("url".to_string());
    p.url = Some("https://y/playlist?list=1".to_string());
    let row2 = result_label(&p, &None);
    assert_eq!(row2, "[Playlist] A List (12 items)");
}

#[test]
fn durations_render_with_padded_parts() {
    assert_eq!(format_duration(59), "0:59");
    assert_eq!(format_duration(600), "10:00");
    assert_eq!(format_duration(3661), "1:01:01");
    assert_eq!(format_duration(0), "0:00");
}

#[test]
fn command_labels_start_with_no_command() {
    assert_eq!(command_choice_labels(&vec![]), vec!["No Command".to_string()]);
    let cmds = vec![
        CustomCommand { name: "audio".to_string(), value: "-x".to_string() },
        CustomCommand { name: "fast".to_string(), value: "-N 8".to_string() },
    ];
    assert_eq!(
        command_choice_labels(&cmds),
        vec!["No Command".to_string(), "audio".to_string(), "fast".to_string()]
    );
    assert_eq!(selected_command(&cmds, 0), "");
    assert_eq!(selected_command(&cmds, 1), "-x");
    assert_eq!(selected_command(&cmds, 2), "-N 8");
    assert_eq!(selected_command(&cmds, 3), "");
}

#[test]
fn channel_actions_lead_to_listings() {
    let url = "https://y/c/x/".to_string();
    assert_eq!(channel_action_url(&url, "Videos"), Some("https://y/c/x/videos".to_string()));
    assert_eq!(channel_action_url(&url, "Shorts"), Some("https://y/c/x/shorts".to_string()));
    assert_eq!(channel_action_url(&url, "Live"), Some("https://y/c/x/streams".to_string()));
    assert_eq!(channel_action_url(&url, "Playlists"), None);
    assert_eq!(channel_action_url(&url, "Releases"), None);
}

#[test]
fn pager_windows_advance_and_stop() {
    let mut p = SearchPager::new();
    assert_eq!(p.offset, 1);
    p.load_more();
    assert_eq!(p.offset, 21);
    assert!(!p.auto_load);
    assert!(!p.on_results(true));
    p.load_all();
    assert_eq!(p.offset, 41);
    assert!(p.on_results(true));
    assert_eq!(p.offset, 61);
    assert!(!p.on_results(false));
    assert!(!p.auto_load);
    p.start_search();
    assert_eq!(p.offset, 1);
}

#[test]
fn playlist_rows_count_from_one() {
    assert_eq!(one_based_indices(&vec![0, 2, 4]), vec![1, 3, 5]);
    assert_eq!(one_based_indices(&vec![]), Vec::<usize>::new());
}

#[test]
fn result_addresses_fall_back() {
    let mut v = bare_video();
    assert_eq!(video_url(&v), "https://www.youtube.com/watch?v=abc");
    v.url = Some("https://raw".to_string());
    assert_eq!(video_url(&v), "https://raw");
    v.webpage_url = Some("https://page".to_string());
    assert_eq!(video_url(&v), "https://page");
}

#[test]
fn event_texts() {
    let started = started_status_event(&"u".to_string(), 1);
    assert!(matches!(&started, AppEvent::Status(t, m) if t == "u" && m == "Started: u"));
    let batch = started_status_event(&"u".to_string(), 3);
    assert!(matches!(&batch, AppEvent::Status(t, m) if t == "u" && m == "Started batch of 3: u"));
    let warn = parse_warning_event(&"u".to_string(), "bad token");
    assert!(matches!(&warn, AppEvent::Output(_, m) if m == "JSON Parse Warning: bad token"));
    let errline = info_stderr_event(&"u".to_string(), "detail");
    assert!(matches!(&errline, AppEvent::Output(_, m) if m == "[Info] detail"));
    assert_eq!(finished_label(&"u".to_string()), "Finished: u");
    assert_eq!(error_label(&"u".to_string()), "Error: u");
}
