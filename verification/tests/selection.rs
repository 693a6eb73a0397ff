use tubex::options::{
    base_id_of, build_format_selector, join_indices, options_from_selection, DownloadMode,
    DownloadOptions,
};
use tubex::video::{
    format_label, sort_formats_by_filesize, sort_formats_by_height, Format, VideoInfo,
};

fn fmt(id: &str, vcodec: Option<&str>, acodec: Option<&str>) -> Format {
    Format {
        format_id: id.to_string(),
        format_note: None,
        ext: None,
        vcodec: vcodec.map(|s| s.to_string()),
        acodec: acodec.map(|s| s.to_string()),
        language: None,
        width: None,
        height: None,
        filesize: None,
    }
}

fn info_with(formats: Vec<Format>) -> VideoInfo {
    VideoInfo {
        id: "id".to_string(),
        title: "title".to_string(),
        uploader: None,
        channel_url: None,
        duration: None,
        webpage_url: None,
        url: None,
        view_count: None,
        playlist_count: None,
        result_type: None,
        formats,
    }
}

#[test]
fn classification_video_only() {
    let v = info_with(vec![fmt("137", Some("vp9"), Some("none"))]);
    assert_eq!(v.get_video_formats().len(), 1);
    assert_eq!(v.get_audio_formats().len(), 0);
}

#[test]
fn classification_audio_only() {
    let v = info_with(vec![fmt("251", Some("none"), Some("opus"))]);
    assert_eq!(v.get_video_formats().len(), 0);
    assert_eq!(v.get_audio_formats().len(), 1);
}

#[test]
fn classification_neither() {
    let v = info_with(vec![fmt("0", Some("none"), Some("none"))]);
    assert_eq!(v.get_video_formats().len(), 0);
    assert_eq!(v.get_audio_formats().len(), 0);
}

#[test]
fn classification_absent_codecs() {
    // no video codec at all: not video; audio present without video: audio
    let v = info_with(vec![fmt("140", None, Some("mp4a"))]);
    assert_eq!(v.get_video_formats().len(), 0);
    assert_eq!(v.get_audio_formats().len(), 1);
    // both absent: neither
    let w = info_with(vec![fmt("x", None, None)]);
    assert_eq!(w.get_video_formats().len(), 0);
    assert_eq!(w.get_audio_formats().len(), 0);
}

#[test]
fn base_id_stops_at_first_dash() {
    assert_eq!(base_id_of("137-drc"), "137");
    assert_eq!(base_id_of("251"), "251");
    assert_eq!(base_id_of("-x"), "");
}

#[test]
fn fuzzy_chain_prefix_matches_both_base_ids() {
    // video "137-drc" with audio "251" and no preferred languages:
    // the language chain is left out and the fuzzy chain matches on the
    // base identifiers 137 and 251
    let sel = build_format_selector(
        &Some("137-drc".to_string()),
        &vec!["251".to_string()],
        &vec![],
    )
    .unwrap();
    assert_eq!(
        sel,
        "137-drc+251/bv[format_id^='137']+ba[format_id^='251']"
    );
}

#[test]
fn selector_with_matching_languages() {
    let sel = build_format_selector(
        &Some("137".to_string()),
        &vec!["251-1".to_string()],
        &vec!["en".to_string()],
    )
    .unwrap();
    assert_eq!(
        sel,
        "bv[format_id^='137']+ba[language='en'][format_id^='251']/137+251-1/bv[format_id^='137']+ba[format_id^='251']"
    );
}

#[test]
fn selector_video_only() {
    let sel = build_format_selector(&Some("22".to_string()), &vec![], &vec![]).unwrap();
    assert_eq!(sel, "22/b[format_id^='22']");
}

#[test]
fn selector_audio_only() {
    let sel = build_format_selector(&None, &vec!["140".to_string()], &vec![]).unwrap();
    assert_eq!(sel, "140/ba[format_id^='140']");
}

#[test]
fn selector_absent_when_nothing_chosen() {
    assert!(build_format_selector(&None, &vec![], &vec![]).is_none());
}

#[test]
fn selector_language_count_mismatch_drops_language_chain() {
    let sel = build_format_selector(
        &None,
        &vec!["1".to_string(), "2".to_string()],
        &vec!["en".to_string()],
    )
    .unwrap();
    assert_eq!(sel, "1+2/ba[format_id^='1']+ba[format_id^='2']");
}

#[test]
fn playlist_indices_join_with_commas() {
    assert_eq!(join_indices(&vec![1, 3, 5]), "1,3,5");
    assert_eq!(join_indices(&vec![12]), "12");
    assert_eq!(join_indices(&vec![]), "");
}

#[test]
fn format_label_with_resolution() {
    let f = Format {
        format_id: "137".to_string(),
        format_note: Some("1080p".to_string()),
        ext: Some("mp4".to_string()),
        vcodec: Some("avc1".to_string()),
        acodec: Some("none".to_string()),
        language: Some("en".to_string()),
        width: Some(1920),
        height: Some(1080),
        filesize: None,
    };
    assert_eq!(format_label(&f), "[137] mp4 1920x1080 [en] - 1080p");
}

#[test]
fn format_label_without_resolution() {
    let f = fmt("251", Some("none"), Some("opus"));
    assert_eq!(format_label(&f), "[251] ? audio [?] - ");
}

#[test]
fn sort_by_height_descends() {
    let mut a = fmt("a", Some("vp9"), None);
    a.height = Some(720);
    let b = fmt("b", Some("vp9"), None);
    let mut c = fmt("c", Some("vp9"), None);
    c.height = Some(1080);
    let sorted = sort_formats_by_height(vec![a, b, c]);
    let ids: Vec<&str> = sorted.iter().map(|f| f.format_id.as_str()).collect();
    assert_eq!(ids, vec!["c", "a", "b"]);
}

#[test]
fn sort_keeps_order_of_equal_heights() {
    let mut a = fmt("a", Some("vp9"), None);
    a.height = Some(720);
    let mut b = fmt("b", Some("vp9"), None);
    b.height = Some(720);
    let mut c = fmt("c", Some("vp9"), None);
    c.height = Some(1080);
    let sorted = sort_formats_by_height(vec![a, b, c]);
    let ids: Vec<&str> = sorted.iter().map(|f| f.format_id.as_str()).collect();
    assert_eq!(ids, vec!["c", "a", "b"]);
}

#[test]
fn sort_by_filesize_descends() {
    let mut a = fmt("a", None, Some("opus"));
    a.filesize = Some(10);
    let mut b = fmt("b", None, Some("opus"));
    b.filesize = Some(999);
    let c = fmt("c", None, Some("opus"));
    let sorted = sort_formats_by_filesize(vec![a, b, c]);
    let ids: Vec<&str> = sorted.iter().map(|f| f.format_id.as_str()).collect();
    assert_eq!(ids, vec!["b", "a", "c"]);
}

#[test]
fn options_from_selection_collects_languages() {
    let mut first = fmt("251", Some("none"), Some("opus"));
    first.language = Some("en".to_string());
    let second = fmt("140", Some("none"), Some("mp4a"));
    let mut third = fmt("139", Some("none"), Some("mp4a"));
    third.language = Some("fr".to_string());
    let audio = vec![first, second, third];
    let video = vec![fmt("137", Some("vp9"), Some("none"))];
    let opts: DownloadOptions =
        options_from_selection(&video, Some(0), &audio, &vec![0, 1, 2], None, true, false);
    match &opts.mode {
        DownloadMode::Single {
            video_format,
            audio_formats,
        } => {
            assert_eq!(video_format.as_deref(), Some("137"));
            assert_eq!(audio_formats, &vec!["251".to_string(), "140".to_string(), "139".to_string()]);
        }
        _ => panic!("expected a single-item mode"),
    }
    assert_eq!(
        opts.preferred_languages,
        vec!["en".to_string(), "fr".to_string()]
    );
    assert!(opts.add_chapters);
    assert!(!opts.multi_audio);
}

#[test]
fn options_from_selection_playlist_keeps_indices() {
    let audio = vec![fmt("140", Some("none"), Some("mp4a"))];
    let opts = options_from_selection(
        &vec![],
        None,
        &audio,
        &vec![0],
        Some(vec![1, 3, 5]),
        false,
        true,
    );
    match &opts.mode {
        DownloadMode::Playlist { indices, .. } => assert_eq!(indices, &vec![1, 3, 5]),
        _ => panic!("expected a playlist mode"),
    }
}
