//! The ordered event stream between the supervising loops and the single
//! consumer that updates presentation state.

use vstd::prelude::*;

use crate::video::VideoInfo;
use crate::video::VideoInfoView;
use crate::video::formats_view;

verus! {

/// Mathematical image of an `AppEvent`.
pub enum AppEventView {
    Status(Seq<char>, Seq<char>),
    Output(Seq<char>, Seq<char>),
    Finished(Seq<char>),
    Error(Seq<char>, Seq<char>),
    ShowOptions(Seq<char>, Seq<VideoInfoView>),
    ShowOptionsForMultipleUrls(Seq<Seq<char>>, VideoInfoView),
    StartupCheck,
    StartupResult(bool, bool),
    DownloadComplete(Result<(), Seq<char>>),
    DownloadProgress(Seq<char>, i32),
    RequestFetch(Seq<char>),
}

/// One message to the dispatch loop: task feedback, a request, or
/// startup and provisioning notices.
#[derive(Debug)]
pub enum AppEvent {
    Status(String, String),
    Output(String, String),
    Finished(String),
    Error(String, String),
    ShowOptions(String, Vec<VideoInfo>),
    ShowOptionsForMultipleUrls(Vec<String>, Box<VideoInfo>),
    StartupCheck,
    StartupResult(bool, bool),
    DownloadComplete(Result<(), String>),
    DownloadProgress(String, i32),
    RequestFetch(String),
}

/// The views of a sequence of parsed items.
pub open spec fn videos_view(s: Seq<VideoInfo>) -> Seq<VideoInfoView> {
    s.map_values(|v: VideoInfo| v@)
}

impl View for AppEvent {
    type V = AppEventView;

    open spec fn view(&self) -> AppEventView {
        match self {
            AppEvent::Status(tag, msg) => AppEventView::Status(tag@, msg@),
            AppEvent::Output(tag, msg) => AppEventView::Output(tag@, msg@),
            AppEvent::Finished(tag) => AppEventView::Finished(tag@),
            AppEvent::Error(tag, msg) => AppEventView::Error(tag@, msg@),
            AppEvent::ShowOptions(tag, videos) => AppEventView::ShowOptions(
                tag@,
                videos_view(videos@),
            ),
            AppEvent::ShowOptionsForMultipleUrls(urls, first) => {
                AppEventView::ShowOptionsForMultipleUrls(urls.deep_view(), (**first)@)
            },
            AppEvent::StartupCheck => AppEventView::StartupCheck,
            AppEvent::StartupResult(yt, ff) => AppEventView::StartupResult(*yt, *ff),
            AppEvent::DownloadComplete(r) => AppEventView::DownloadComplete(
                match r {
                    Ok(u) => Ok(*u),
                    Err(e) => Err(e@),
                },
            ),
            AppEvent::DownloadProgress(msg, pct) => AppEventView::DownloadProgress(msg@, *pct),
            AppEvent::RequestFetch(url) => AppEventView::RequestFetch(url@),
        }
    }
}

/// The views of a queue of events.
pub open spec fn events_view(s: Seq<AppEvent>) -> Seq<AppEventView> {
    s.map_values(|e: AppEvent| e@)
}

} // verus!
