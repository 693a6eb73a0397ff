//! The dispatch side: turning a submission into work, applying events to
//! the task state, and bounding what one tick repaints.

use vstd::prelude::*;

use crate::args::find_char_from;
use crate::args::find_first;
use crate::args::lemma_find_first_at;
use crate::args::flags_of;
use crate::args::parse_flag_string;
use crate::events::AppEvent;
use crate::events::AppEventView;
use crate::manager::DownloadManager;
use crate::manager::history_appended;
use crate::text::contains_seq;
use crate::text::contains_substring;
use crate::text::trim_spec;
use crate::text::trim;
use crate::video::VideoInfo;
use crate::video::VideoInfoView;
use crate::events::videos_view;

verus! {

/// The pieces of a text between line breaks, in order.
pub open spec fn split_lines_spec(s: Seq<char>) -> Seq<Seq<char>>
    decreases s.len(),
{
    match find_first(s, '\n') {
        None => seq![s],
        Some(p) => if 0 <= p && p < s.len() {
            seq![s.subrange(0, p)] + split_lines_spec(s.subrange(p + 1, s.len() as int))
        } else {
            seq![s]
        },
    }
}

/// The URLs of a submission: its lines, trimmed, blank ones dropped.
pub open spec fn url_list_spec(s: Seq<char>) -> Seq<Seq<char>> {
    split_lines_spec(s).map_values(|l: Seq<char>| trim_spec(l)).filter(
        |l: Seq<char>| l.len() > 0,
    )
}

proof fn lemma_split_lines_step(s: Seq<char>, i: int, p: int)
    requires
        0 <= i <= p <= s.len(),
        forall|j: int| i <= j < p ==> s[j] != '\n',
        p < s.len() ==> s[p] == '\n',
    ensures
        split_lines_spec(s.subrange(i, s.len() as int)) == if p < s.len() {
            seq![s.subrange(i, p)] + split_lines_spec(s.subrange(p + 1, s.len() as int))
        } else {
            seq![s.subrange(i, p)]
        },
{
    let t = s.subrange(i, s.len() as int);
    assert(forall|j: int| 0 <= j < t.len() ==> t[j] == s[i + j]);
    lemma_find_first_at(t, '\n', p - i);
    if p < s.len() {
        assert(t.subrange(0, p - i) =~= s.subrange(i, p));
        assert(t.subrange(p - i + 1, t.len() as int) =~= s.subrange(p + 1, s.len() as int));
    } else {
        assert(t =~= s.subrange(i, p));
    }
}

/// Splits a submission into its URLs: one per line, surrounding
/// whitespace removed, blank lines ignored.
pub fn parse_url_lines(raw: &str) -> (r: Vec<String>)
    ensures
        r.deep_view() == url_list_spec(raw@),
{
    let n = raw.unicode_len();
    let mut r: Vec<String> = Vec::new();
    let mut i: usize = 0;
    let ghost mut done: Seq<Seq<char>> = Seq::empty();
    proof {
        reveal(Seq::filter);
        assert(raw@.subrange(0, n as int) =~= raw@);
        assert(split_lines_spec(raw@) =~= done + split_lines_spec(
            raw@.subrange(0, n as int),
        ));
        assert(done.map_values(|l: Seq<char>| trim_spec(l)) =~= Seq::<Seq<char>>::empty());
        assert(r.deep_view() =~~= done.map_values(|l: Seq<char>| trim_spec(l)).filter(
            |l: Seq<char>| l.len() > 0,
        ));
    }
    loop
        invariant_except_break
            split_lines_spec(raw@) == done + split_lines_spec(
                raw@.subrange(i as int, n as int),
            ),
        invariant
            0 <= i <= n == raw@.len(),
            r.deep_view() == done.map_values(|l: Seq<char>| trim_spec(l)).filter(
                |l: Seq<char>| l.len() > 0,
            ),
        ensures
            r.deep_view() == url_list_spec(raw@),
        decreases n - i,
    {
        let p_opt = find_char_from(raw, '\n', i);
        let end = match p_opt {
            Some(p) => p,
            None => n,
        };
        let line = raw.substring_char(i, end);
        let t = trim(line);
        let ghost line_v = raw@.subrange(i as int, end as int);
        proof {
            reveal(Seq::filter);
            lemma_split_lines_step(raw@, i as int, end as int);
        }
        let ghost prev_r = r.deep_view();
        if t.unicode_len() > 0 {
            r.push(String::from_str(t));
            proof {
                assert(r.deep_view() =~~= prev_r.push(trim_spec(line_v)));
            }
        }
        proof {
            reveal(Seq::filter);
            let old_done = done;
            done = old_done.push(line_v);
            let mapped = done.map_values(|l: Seq<char>| trim_spec(l));
            assert(mapped.drop_last() =~= old_done.map_values(|l: Seq<char>| trim_spec(l)));
            assert(mapped.last() == trim_spec(line_v));
            assert(r.deep_view() =~~= mapped.filter(|l: Seq<char>| l.len() > 0));
        }
        match p_opt {
            Some(p) => {
                i = p + 1;
                proof {
                    assert(split_lines_spec(raw@) =~= done + split_lines_spec(
                        raw@.subrange(i as int, n as int),
                    ));
                }
            },
            None => {
                proof {
                    assert(split_lines_spec(raw@) =~= done);
                    assert(r.deep_view() =~~= url_list_spec(raw@));
                }
                break;
            },
        }
    }
    r
}

/// What one submission turns into.
#[derive(Debug)]
pub enum DownloadAction {
    /// Nothing to do: no URLs, or a custom command slot with no command.
    Idle,
    /// More than one URL under automatic selection: fetch metadata for
    /// the first URL only, then offer one choice for the whole batch.
    ProbeFirstForAll { urls: Vec<String> },
    /// Automatic selection: fetch metadata for every URL, one task each.
    FetchEach { urls: Vec<String> },
    /// A custom command: run it for every URL, one download task each.
    CustomEach { urls: Vec<String>, command: String },
}

/// Turns a submission into the work it asks for: `selection` is the
/// custom-command slot, 0 meaning automatic selection, and `command` the
/// slot's resolved command text.
pub fn plan_download_action(selection: i32, urls: Vec<String>, command: String) -> (r:
    DownloadAction)
    ensures
        urls@.len() == 0 ==> r is Idle,
        urls@.len() > 1 && selection == 0 ==> (r matches DownloadAction::ProbeFirstForAll {
            urls: u,
        } && u.deep_view() == urls.deep_view()),
        urls@.len() == 1 && selection == 0 ==> (r matches DownloadAction::FetchEach { urls: u }
            && u.deep_view() == urls.deep_view()),
        urls@.len() > 0 && selection != 0 && command@.len() > 0 ==> (r
            matches DownloadAction::CustomEach { urls: u, command: c } && u.deep_view()
            == urls.deep_view() && c@ == command@),
        urls@.len() > 0 && selection != 0 && command@.len() == 0 ==> r is Idle,
{
    if urls.len() == 0 {
        return DownloadAction::Idle;
    }
    if selection == 0 {
        if urls.len() > 1 {
            DownloadAction::ProbeFirstForAll { urls }
        } else {
            DownloadAction::FetchEach { urls }
        }
    } else {
        if command.unicode_len() > 0 {
            DownloadAction::CustomEach { urls, command }
        } else {
            DownloadAction::Idle
        }
    }
}

/// The invocation of the batch probe: the user's flags, then a plain
/// JSON dump of the batch's first URL and nothing else.
pub open spec fn probe_args_spec(flags: Seq<char>, first_url: Seq<char>) -> Seq<Seq<char>> {
    flags_of(flags) + seq!["--dump-json"@, first_url]
}

/// Builds the probe invocation for a batch: only the first URL is asked
/// about.
pub fn build_batch_probe_args(global_flags: &str, urls: &Vec<String>) -> (r: Vec<String>)
    requires
        urls@.len() > 0,
    ensures
        r.deep_view() == probe_args_spec(global_flags@, urls.deep_view()[0]),
{
    let mut r = parse_flag_string(global_flags);
    let ghost flags = r.deep_view();
    r.push(String::from_str("--dump-json"));
    r.push(urls[0].clone());
    proof {
        assert(r.deep_view() =~~= flags + seq!["--dump-json"@, urls.deep_view()[0]]);
    }
    r
}

/// What the probe of a batch reports: one choice offered for every URL
/// of the batch on success, one error naming the first URL otherwise.
pub open spec fn probe_event_spec(
    urls: Seq<Seq<char>>,
    videos: Seq<VideoInfoView>,
) -> AppEventView {
    if videos.len() > 0 {
        AppEventView::ShowOptionsForMultipleUrls(urls, videos[0])
    } else {
        AppEventView::Error(urls[0], "No video info found for first URL."@)
    }
}

/// Concludes the probe of a batch from what it parsed.
pub fn conclude_batch_probe(urls: Vec<String>, mut videos: Vec<VideoInfo>) -> (r: AppEvent)
    requires
        urls@.len() > 0,
    ensures
        r@ == probe_event_spec(urls.deep_view(), videos_view(videos@)),
{
    if videos.len() > 0 {
        let ghost vv = videos_view(videos@);
        let first = videos.remove(0);
        proof {
            assert(first@ == vv[0]);
        }
        AppEvent::ShowOptionsForMultipleUrls(urls, Box::new(first))
    } else {
        let tag = urls[0].clone();
        AppEvent::Error(tag, String::from_str("No video info found for first URL."))
    }
}

/// Law: a batch of several URLs under automatic selection is probed
/// through its first URL alone, and the successful probe's single event
/// carries every URL of the batch together with the first parsed item.
pub proof fn lemma_batch_probe_covers_all(
    flags: Seq<char>,
    urls: Seq<Seq<char>>,
    videos: Seq<VideoInfoView>,
)
    requires
        urls.len() > 1,
        videos.len() > 0,
    ensures
        probe_args_spec(flags, urls[0]) == flags_of(flags) + seq!["--dump-json"@, urls[0]],
        probe_event_spec(urls, videos) == AppEventView::ShowOptionsForMultipleUrls(
            urls,
            videos[0],
        ),
{
}

/// What one event does to the task state: output accumulates under its
/// tag, a terminal event unregisters its task, and an error's text joins
/// the tag's history; everything else leaves the state alone.
pub fn apply_event<H>(dm: &mut DownloadManager<H>, ev: &AppEvent)
    requires
        old(dm).wf(),
    ensures
        final(dm).wf(),
        match ev@ {
            AppEventView::Output(tag, msg) => final(dm).history_map() == history_appended(
                old(dm).history_map(),
                tag,
                msg,
            ) && final(dm).task_map() == old(dm).task_map(),
            AppEventView::Finished(tag) => final(dm).task_map() == old(dm).task_map().remove(tag)
                && final(dm).history_map() == old(dm).history_map(),
            AppEventView::Error(tag, msg) => final(dm).history_map() == history_appended(
                old(dm).history_map(),
                tag,
                "Error: "@ + msg,
            ) && final(dm).task_map() == old(dm).task_map().remove(tag),
            _ => final(dm).history_map() == old(dm).history_map() && final(dm).task_map() == old(
                dm,
            ).task_map(),
        },
{
    match ev {
        AppEvent::Output(tag, msg) => {
            dm.append_output(tag.as_str(), msg.as_str());
        },
        AppEvent::Finished(tag) => {
            dm.unregister_task(tag.as_str());
        },
        AppEvent::Error(tag, msg) => {
            let mut text = String::from_str("Error: ");
            text.append(msg.as_str());
            dm.append_output(tag.as_str(), text.as_str());
            dm.unregister_task(tag.as_str());
        },
        _ => {},
    }
}

/// The first row showing `tag`, if any.
pub open spec fn first_row_index(ids: Seq<Seq<char>>, tag: Seq<char>) -> Option<int>
    decreases ids.len(),
{
    if ids.len() == 0 {
        None
    } else if ids[0] == tag {
        Some(0)
    } else {
        match first_row_index(ids.drop_first(), tag) {
            Some(i) => Some(i + 1),
            None => None,
        }
    }
}

/// The task rows after one status update: the tag's old row, if any, is
/// gone, and the tag now holds the last row.
pub open spec fn refreshed_rows(ids: Seq<Seq<char>>, tag: Seq<char>) -> Seq<Seq<char>> {
    match first_row_index(ids, tag) {
        Some(i) => ids.remove(i).push(tag),
        None => ids.push(tag),
    }
}

proof fn lemma_first_row_index_at(ids: Seq<Seq<char>>, tag: Seq<char>, k: int)
    requires
        0 <= k <= ids.len(),
        forall|j: int| 0 <= j < k ==> ids[j] != tag,
        k < ids.len() ==> ids[k] == tag,
    ensures
        first_row_index(ids, tag) == if k < ids.len() {
            Some(k)
        } else {
            None::<int>
        },
    decreases k,
{
    if k > 0 {
        lemma_first_row_index_at(ids.drop_first(), tag, k - 1);
    }
}

/// Moves the tag's row to the end of the task list, keeping every other
/// row in order; the returned index is the row that left, for the
/// display to delete.
pub fn refresh_row(ids: &mut Vec<String>, tag: &str) -> (removed: Option<usize>)
    ensures
        final(ids).deep_view() == refreshed_rows(old(ids).deep_view(), tag@),
        match removed {
            Some(i) => first_row_index(old(ids).deep_view(), tag@) == Some(i as int),
            None => first_row_index(old(ids).deep_view(), tag@) is None,
        },
{
    let key = String::from_str(tag);
    let found = find_row(ids, &key);
    proof {
        match found {
            Some(f) => {
                lemma_first_row_index_at(ids.deep_view(), tag@, f as int);
            },
            None => {
                lemma_first_row_index_at(ids.deep_view(), tag@, ids.deep_view().len() as int);
            },
        }
    }
    match found {
        Some(f) => {
            let ghost before = ids.deep_view();
            let _ = ids.remove(f);
            proof {
                assert(ids.deep_view() =~~= before.remove(f as int));
            }
        },
        None => {},
    }
    let ghost mid = ids.deep_view();
    ids.push(key);
    proof {
        assert(ids.deep_view() =~~= mid.push(tag@));
    }
    found
}

/// The first row holding `key`, if any.
fn find_row(ids: &Vec<String>, key: &String) -> (r: Option<usize>)
    ensures
        match r {
            Some(i) => i < ids.deep_view().len() && ids.deep_view()[i as int] == key@
                && forall|j: int| 0 <= j < i ==> ids.deep_view()[j] != key@,
            None => forall|j: int| 0 <= j < ids.deep_view().len() ==> ids.deep_view()[j] != key@,
        },
{
    let mut i: usize = 0;
    while i < ids.len()
        invariant
            0 <= i <= ids@.len(),
            forall|j: int| 0 <= j < i ==> ids.deep_view()[j] != key@,
        decreases ids@.len() - i,
    {
        let e = &ids[i];
        if *e == *key {
            proof {
                assert(ids.deep_view()[i as int] == ids@[i as int]@);
            }
            return Some(i);
        }
        proof {
            assert(ids.deep_view()[i as int] == ids@[i as int]@);
        }
        i = i + 1;
    }
    None
}

/// What a watched clipboard text adds to the submission box: the trimmed
/// text, led by a line break where the box does not end in one, offered
/// only for recognised video addresses that the box lacks.
pub open spec fn clipboard_addition_spec(current: Seq<char>, candidate: Seq<char>) -> Option<
    Seq<char>,
> {
    let trimmed = trim_spec(candidate);
    if (contains_seq(trimmed, "youtube.com"@) || contains_seq(trimmed, "youtu.be"@))
        && !contains_seq(current, trimmed) {
        Some(
            (if current.len() > 0 && current.last() != '\n' {
                "\n"@
            } else {
                ""@
            }) + trimmed,
        )
    } else {
        None
    }
}

/// Decides what a clipboard text adds to the submission box.
pub fn clipboard_addition(current: &str, candidate: &str) -> (r: Option<String>)
    ensures
        match r {
            Some(s) => clipboard_addition_spec(current@, candidate@) == Some(s@),
            None => clipboard_addition_spec(current@, candidate@) is None,
        },
{
    let trimmed = trim(candidate);
    let wanted = contains_substring(trimmed, "youtube.com") || contains_substring(
        trimmed,
        "youtu.be",
    );
    if wanted && !contains_substring(current, trimmed) {
        let n = current.unicode_len();
        let mut s: String;
        if n > 0 && current.get_char(n - 1) != '\n' {
            s = String::from_str("\n");
        } else {
            s = String::new();
            proof {
                reveal_strlit("");
                assert(s@ =~= ""@);
            }
        }
        s.append(trimmed);
        proof {
            assert(Some(s@) =~~= clipboard_addition_spec(current@, candidate@));
        }
        Some(s)
    } else {
        None
    }
}

/// How many events one tick of the dispatch loop consumes at most,
/// bounding the work done between repaints.
pub const DRAIN_CAP: usize = 2000;

/// Above this many characters in the visible log, a tick re-renders the
/// whole buffer instead of appending, bounding redraw cost.
pub const LOG_APPEND_LIMIT: usize = 60000;

/// How a tick flushes the viewed task's pending log text.
#[derive(Debug, PartialEq, Eq, Structural)]
pub enum FlushAction {
    /// Nothing pending.
    Keep,
    /// Append the pending text to the visible log.
    Append,
    /// Re-render the whole buffer from the output history.
    Rerender,
}

/// Decides how a tick flushes pending log text: nothing when none is
/// pending, a full re-render once the visible log has grown past the
/// append limit, a plain append otherwise.
pub fn flush_decision(pending_len: usize, visible_len: usize) -> (r: FlushAction)
    ensures
        pending_len == 0 ==> r == FlushAction::Keep,
        pending_len > 0 && visible_len > LOG_APPEND_LIMIT ==> r == FlushAction::Rerender,
        pending_len > 0 && visible_len <= LOG_APPEND_LIMIT ==> r == FlushAction::Append,
{
    if pending_len == 0 {
        FlushAction::Keep
    } else if visible_len > LOG_APPEND_LIMIT {
        FlushAction::Rerender
    } else {
        FlushAction::Append
    }
}

} // verus!
