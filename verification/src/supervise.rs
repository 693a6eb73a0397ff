//! Supervision of a spawned subprocess: classifying its output lines,
//! deciding after each status poll whether to keep waiting or how to
//! finish, and translating every outcome into events.
//!
//! The loops that sleep, read pipes and poll live outside; they feed each
//! observation to these functions and perform what the outcome says.

use vstd::prelude::*;

use crate::events::AppEvent;
use crate::events::AppEventView;
use crate::events::events_view;
use crate::events::videos_view;
use crate::text::decimal_of;
use crate::text::trim_spec;
use crate::text::trim;
use crate::text::u64_to_string;
use crate::video::VideoInfo;
use crate::video::VideoInfoView;

verus! {

/// What one status poll of the subprocess saw.
#[derive(Debug, PartialEq, Eq)]
pub enum PollStatus {
    /// Still running.
    Running,
    /// Exited, successfully or not, with the exit code where the host
    /// reports one.
    Exited { success: bool, code: Option<i32> },
    /// The poll itself failed: the process is gone or was killed.
    Failed,
}

/// What to do with one line of the metadata fetch's standard output.
#[derive(Debug, PartialEq, Eq)]
pub enum LineAction {
    /// Blank: skip it.
    Skip,
    /// Opens a JSON object: parse it as one item of metadata.
    Parse,
    /// Anything else: pass it on verbatim.
    Emit,
}

/// Blank lines are skipped, lines opening a JSON object are parsed, the
/// rest is passed on.
pub open spec fn classify_line_spec(l: Seq<char>) -> LineAction {
    if trim_spec(l).len() == 0 {
        LineAction::Skip
    } else if l[0] == '{' {
        LineAction::Parse
    } else {
        LineAction::Emit
    }
}

/// Classifies one line of the metadata fetch's standard output.
pub fn classify_info_line(l: &str) -> (r: LineAction)
    ensures
        r == classify_line_spec(l@),
{
    let t = trim(l);
    if t.unicode_len() == 0 {
        LineAction::Skip
    } else {
        proof {
            assert(l@.len() > 0);
        }
        if l.get_char(0) == '{' {
            LineAction::Parse
        } else {
            LineAction::Emit
        }
    }
}

/// The decimal text of a possibly negative code.
pub open spec fn int_text(n: int) -> Seq<char> {
    if n >= 0 {
        decimal_of(n as nat)
    } else {
        "-"@ + decimal_of((-n) as nat)
    }
}

fn i64_to_string(n: i64) -> (r: String)
    ensures
        r@ == int_text(n as int),
{
    if n >= 0 {
        u64_to_string(n as u64)
    } else {
        let mut s = String::from_str("-");
        let mag = u64_to_string((-(n as i128)) as u64);
        s.append(mag.as_str());
        s
    }
}

/// An exit code as the host reported it, or its absence.
pub open spec fn opt_code_text(code: Option<i32>) -> Seq<char> {
    match code {
        Some(c) => "Some("@ + int_text(c as int) + ")"@,
        None => "None"@,
    }
}

fn opt_code_string(code: Option<i32>) -> (r: String)
    ensures
        r@ == opt_code_text(code),
{
    match code {
        Some(c) => {
            let mut s = String::from_str("Some(");
            let num = i64_to_string(c as i64);
            s.append(num.as_str());
            s.append(")");
            proof {
                assert(s@ =~= opt_code_text(Some(c)));
            }
            s
        },
        None => String::from_str("None"),
    }
}

/// How a metadata-fetch supervising loop goes on after one poll.
#[derive(Debug, PartialEq, Eq)]
pub enum InfoOutcome {
    /// Still running and still wanted: poll again.
    Continue,
    /// The task was unregistered from outside: stop without an event.
    Detach,
    /// The poll failed, the process was torn away: report the
    /// cancellation.
    Cancelled,
    /// Clean exit but nothing usable was parsed.
    CompleteEmpty,
    /// Clean exit with parsed items; the first item's format list may
    /// first need one refresh invocation.
    CompleteSuccess { refresh_first: bool },
    /// The process exited reporting failure.
    ExitFailure { code: Option<i32> },
}

/// The decision after one poll of a metadata fetch, given how many items
/// were parsed and whether the first parsed item lacks format data.
pub open spec fn info_poll_spec(
    status: PollStatus,
    registered: bool,
    n_videos: nat,
    first_lacks_formats: bool,
) -> InfoOutcome {
    match status {
        PollStatus::Failed => InfoOutcome::Cancelled,
        PollStatus::Exited { success, code } => if success {
            if n_videos == 0 {
                InfoOutcome::CompleteEmpty
            } else {
                InfoOutcome::CompleteSuccess { refresh_first: first_lacks_formats }
            }
        } else {
            InfoOutcome::ExitFailure { code }
        },
        PollStatus::Running => if registered {
            InfoOutcome::Continue
        } else {
            InfoOutcome::Detach
        },
    }
}

/// Decides how the metadata-fetch loop goes on after one poll.
pub fn info_poll_outcome(status: PollStatus, registered: bool, videos: &Vec<VideoInfo>) -> (r:
    InfoOutcome)
    ensures
        r == info_poll_spec(
            status,
            registered,
            videos@.len() as nat,
            videos@.len() > 0 && videos@[0]@.formats.len() == 0,
        ),
{
    match status {
        PollStatus::Failed => InfoOutcome::Cancelled,
        PollStatus::Exited { success, code } => {
            if success {
                if videos.len() == 0 {
                    InfoOutcome::CompleteEmpty
                } else {
                    let first = &videos[0];
                    InfoOutcome::CompleteSuccess { refresh_first: first.formats.len() == 0 }
                }
            } else {
                InfoOutcome::ExitFailure { code }
            }
        },
        PollStatus::Running => {
            if registered {
                InfoOutcome::Continue
            } else {
                InfoOutcome::Detach
            }
        },
    }
}

/// The terminal events owed to a metadata-fetch outcome: nothing while
/// the loop goes on, the offer of options and completion on success, and
/// exactly one error for an empty, failed or cancelled fetch.
pub open spec fn info_outcome_events(
    tag: Seq<char>,
    o: InfoOutcome,
    videos: Seq<VideoInfoView>,
) -> Seq<AppEventView> {
    match o {
        InfoOutcome::Continue => Seq::empty(),
        InfoOutcome::Detach => Seq::empty(),
        InfoOutcome::Cancelled => seq![AppEventView::Error(tag, "Cancelled"@)],
        InfoOutcome::CompleteEmpty => seq![
            AppEventView::Error(tag, "No valid video information found."@),
        ],
        InfoOutcome::CompleteSuccess { .. } => seq![
            AppEventView::ShowOptions(tag, videos),
            AppEventView::Finished(tag),
        ],
        InfoOutcome::ExitFailure { code } => seq![
            AppEventView::Error(tag, "Process exited with code "@ + opt_code_text(code)),
        ],
    }
}

/// Builds the terminal events of a metadata fetch, handing the parsed
/// items over on success.
pub fn info_events_for_outcome(tag: &String, o: &InfoOutcome, videos: Vec<VideoInfo>) -> (r: Vec<
    AppEvent,
>)
    ensures
        events_view(r@) == info_outcome_events(tag@, *o, videos_view(videos@)),
{
    let mut r: Vec<AppEvent> = Vec::new();
    match o {
        InfoOutcome::Continue => {},
        InfoOutcome::Detach => {},
        InfoOutcome::Cancelled => {
            r.push(AppEvent::Error(tag.clone(), String::from_str("Cancelled")));
        },
        InfoOutcome::CompleteEmpty => {
            r.push(
                AppEvent::Error(tag.clone(), String::from_str("No valid video information found.")),
            );
        },
        InfoOutcome::CompleteSuccess { .. } => {
            r.push(AppEvent::ShowOptions(tag.clone(), videos));
            r.push(AppEvent::Finished(tag.clone()));
        },
        InfoOutcome::ExitFailure { code } => {
            let mut msg = String::from_str("Process exited with code ");
            let c = opt_code_string(*code);
            msg.append(c.as_str());
            r.push(AppEvent::Error(tag.clone(), msg));
        },
    }
    proof {
        assert(events_view(r@) =~~= info_outcome_events(tag@, *o, videos_view(videos@)));
    }
    r
}

/// Replaces the first parsed item with the refreshed one, if the refresh
/// yielded anything; a failed refresh changes nothing.
pub fn replace_first_video(videos: &mut Vec<VideoInfo>, refreshed: Option<VideoInfo>)
    ensures
        match refreshed {
            Some(v) => if old(videos)@.len() > 0 {
                final(videos)@ == old(videos)@.update(0, v)
            } else {
                final(videos)@ == old(videos)@
            },
            None => final(videos)@ == old(videos)@,
        },
{
    match refreshed {
        Some(v) => {
            if videos.len() > 0 {
                let slot = &mut videos[0];
                *slot = v;
            }
        },
        None => {},
    }
}

/// How a download supervising loop goes on after one poll.
#[derive(Debug, PartialEq, Eq)]
pub enum DownloadOutcome {
    /// Still running and still wanted: poll again.
    Continue,
    /// The task was unregistered from outside: stop without an event.
    Detach,
    /// The poll failed: the process was killed.
    Killed,
    /// Clean exit.
    Completed,
    /// The process exited reporting failure.
    ExitFailure { code: Option<i32> },
}

/// The decision after one poll of a download.
pub open spec fn download_poll_spec(status: PollStatus, registered: bool) -> DownloadOutcome {
    match status {
        PollStatus::Failed => DownloadOutcome::Killed,
        PollStatus::Exited { success, code } => if success {
            DownloadOutcome::Completed
        } else {
            DownloadOutcome::ExitFailure { code }
        },
        PollStatus::Running => if registered {
            DownloadOutcome::Continue
        } else {
            DownloadOutcome::Detach
        },
    }
}

/// Decides how the download loop goes on after one poll.
pub fn download_poll_outcome(status: PollStatus, registered: bool) -> (r: DownloadOutcome)
    ensures
        r == download_poll_spec(status, registered),
{
    match status {
        PollStatus::Failed => DownloadOutcome::Killed,
        PollStatus::Exited { success, code } => {
            if success {
                DownloadOutcome::Completed
            } else {
                DownloadOutcome::ExitFailure { code }
            }
        },
        PollStatus::Running => {
            if registered {
                DownloadOutcome::Continue
            } else {
                DownloadOutcome::Detach
            }
        },
    }
}

/// The terminal events owed to a download outcome.
pub open spec fn download_outcome_events(tag: Seq<char>, o: DownloadOutcome) -> Seq<AppEventView> {
    match o {
        DownloadOutcome::Continue => Seq::empty(),
        DownloadOutcome::Detach => Seq::empty(),
        DownloadOutcome::Killed => seq![AppEventView::Error(tag, "Process killed"@)],
        DownloadOutcome::Completed => seq![AppEventView::Finished(tag)],
        DownloadOutcome::ExitFailure { code } => seq![
            AppEventView::Error(tag, "Exit: "@ + opt_code_text(code)),
        ],
    }
}

/// Builds the terminal events of a download.
pub fn download_events_for_outcome(tag: &String, o: &DownloadOutcome) -> (r: Vec<AppEvent>)
    ensures
        events_view(r@) == download_outcome_events(tag@, *o),
{
    let mut r: Vec<AppEvent> = Vec::new();
    match o {
        DownloadOutcome::Continue => {},
        DownloadOutcome::Detach => {},
        DownloadOutcome::Killed => {
            r.push(AppEvent::Error(tag.clone(), String::from_str("Process killed")));
        },
        DownloadOutcome::Completed => {
            r.push(AppEvent::Finished(tag.clone()));
        },
        DownloadOutcome::ExitFailure { code } => {
            let mut msg = String::from_str("Exit: ");
            let c = opt_code_string(*code);
            msg.append(c.as_str());
            r.push(AppEvent::Error(tag.clone(), msg));
        },
    }
    proof {
        assert(events_view(r@) =~~= download_outcome_events(tag@, *o));
    }
    r
}

/// One poll observation: the process status and whether the registry
/// still carries the task.
pub struct PollObs {
    pub status: PollStatus,
    pub registered: bool,
}

/// Everything a metadata-fetch loop emits, driven by a sequence of poll
/// observations: nothing until the first decisive poll, then that poll's
/// terminal events, and nothing after — the loop has stopped.
pub open spec fn info_loop_emissions(
    tag: Seq<char>,
    obs: Seq<PollObs>,
    n_videos: nat,
    first_lacks_formats: bool,
    videos: Seq<VideoInfoView>,
) -> Seq<AppEventView>
    decreases obs.len(),
{
    if obs.len() == 0 {
        Seq::empty()
    } else {
        let o = info_poll_spec(obs[0].status, obs[0].registered, n_videos, first_lacks_formats);
        if o is Continue {
            info_loop_emissions(tag, obs.drop_first(), n_videos, first_lacks_formats, videos)
        } else {
            info_outcome_events(tag, o, videos)
        }
    }
}

/// Law: the supervising loop answers the first decisive poll alone.
/// Whatever observations follow — further polls after a kill, repeated
/// cancellations — its emissions are exactly the terminal events of that
/// first decisive outcome.
pub proof fn lemma_loop_stops_at_first_decisive(
    tag: Seq<char>,
    obs: Seq<PollObs>,
    k: int,
    n_videos: nat,
    first_lacks_formats: bool,
    videos: Seq<VideoInfoView>,
)
    requires
        0 <= k < obs.len(),
        forall|j: int| 0 <= j < k ==> info_poll_spec(
            obs[j].status,
            obs[j].registered,
            n_videos,
            first_lacks_formats,
        ) is Continue,
        !(info_poll_spec(obs[k].status, obs[k].registered, n_videos, first_lacks_formats)
            is Continue),
    ensures
        info_loop_emissions(tag, obs, n_videos, first_lacks_formats, videos)
            == info_outcome_events(
            tag,
            info_poll_spec(obs[k].status, obs[k].registered, n_videos, first_lacks_formats),
            videos,
        ),
    decreases k,
{
    if k > 0 {
        lemma_loop_stops_at_first_decisive(
            tag,
            obs.drop_first(),
            k - 1,
            n_videos,
            first_lacks_formats,
            videos,
        );
    }
}

/// Law: a cancelled fetch makes its loop emit exactly one terminal
/// event, an Error, however many times cancellation was signalled and
/// whatever the polls after the decisive one saw.
pub proof fn lemma_cancel_emits_one_error(
    tag: Seq<char>,
    obs: Seq<PollObs>,
    k: int,
    n_videos: nat,
    first_lacks_formats: bool,
    videos: Seq<VideoInfoView>,
)
    requires
        0 <= k < obs.len(),
        forall|j: int| 0 <= j < k ==> info_poll_spec(
            obs[j].status,
            obs[j].registered,
            n_videos,
            first_lacks_formats,
        ) is Continue,
        obs[k].status is Failed,
    ensures
        info_loop_emissions(tag, obs, n_videos, first_lacks_formats, videos) == seq![
            AppEventView::Error(tag, "Cancelled"@),
        ],
{
    lemma_loop_stops_at_first_decisive(tag, obs, k, n_videos, first_lacks_formats, videos);
}

/// Law: a fetch that exits cleanly without one parsed item ends in an
/// Error, never in Finished.
pub proof fn lemma_empty_fetch_never_finishes(
    tag: Seq<char>,
    obs: Seq<PollObs>,
    k: int,
    first_lacks_formats: bool,
    videos: Seq<VideoInfoView>,
)
    requires
        0 <= k < obs.len(),
        forall|j: int| 0 <= j < k ==> info_poll_spec(
            obs[j].status,
            obs[j].registered,
            0,
            first_lacks_formats,
        ) is Continue,
        obs[k].status matches PollStatus::Exited { success: true, .. },
    ensures
        info_loop_emissions(tag, obs, 0, first_lacks_formats, videos) == seq![
            AppEventView::Error(tag, "No valid video information found."@),
        ],
        forall|i: int| 0 <= i < info_loop_emissions(
            tag,
            obs,
            0,
            first_lacks_formats,
            videos,
        ).len() ==> !(#[trigger] info_loop_emissions(tag, obs, 0, first_lacks_formats, videos)[i]
            is Finished),
{
    lemma_loop_stops_at_first_decisive(tag, obs, k, 0, first_lacks_formats, videos);
}

} // verus!
