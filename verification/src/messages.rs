//! The texts and events that the supervising loops and the dispatch loop
//! put in front of the user.

use vstd::prelude::*;

use crate::events::AppEvent;
use crate::events::AppEventView;
use crate::text::decimal_of;
use crate::text::join_texts;
use crate::text::join_with;
use crate::text::u64_to_string;

verus! {

/// The status line of a fetch in progress; the URL is its own tag.
pub fn fetching_status_event(url: &String) -> (r: AppEvent)
    ensures
        r@ == AppEventView::Status(url@, "Fetching info: "@ + url@),
{
    let mut msg = String::from_str("Fetching info: ");
    msg.append(url.as_str());
    AppEvent::Status(url.clone(), msg)
}

/// The log line naming the fetch invocation about to run.
pub fn running_output_event(tag: &String, tool: &String, flags: &String, url: &String) -> (r:
    AppEvent)
    ensures
        r@ == AppEventView::Output(
            tag@,
            "Running: "@ + tool@ + " "@ + flags@ + " --dump-json --flat-playlist \""@ + url@
                + "\""@,
        ),
{
    let mut msg = String::from_str("Running: ");
    msg.append(tool.as_str());
    msg.append(" ");
    msg.append(flags.as_str());
    msg.append(" --dump-json --flat-playlist \"");
    msg.append(url.as_str());
    msg.append("\"");
    proof {
        assert(msg@ =~= "Running: "@ + tool@ + " "@ + flags@
            + " --dump-json --flat-playlist \""@ + url@ + "\""@);
    }
    AppEvent::Output(tag.clone(), msg)
}

/// The status line while the first item's formats are refreshed.
pub fn refresh_status_event(tag: &String) -> (r: AppEvent)
    ensures
        r@ == AppEventView::Status(tag@, "Fetching detailed formats..."@),
{
    AppEvent::Status(tag.clone(), String::from_str("Fetching detailed formats..."))
}

/// A line of the fetch's diagnostic stream, marked as such.
pub fn info_stderr_event(tag: &String, line: &str) -> (r: AppEvent)
    ensures
        r@ == AppEventView::Output(tag@, "[Info] "@ + line@),
{
    let mut msg = String::from_str("[Info] ");
    msg.append(line);
    AppEvent::Output(tag.clone(), msg)
}

/// A line of the download's diagnostic stream, marked as such.
pub fn download_stderr_event(tag: &String, line: &str) -> (r: AppEvent)
    ensures
        r@ == AppEventView::Output(tag@, "[Err] "@ + line@),
{
    let mut msg = String::from_str("[Err] ");
    msg.append(line);
    AppEvent::Output(tag.clone(), msg)
}

/// A line of output passed on verbatim.
pub fn output_line_event(tag: &String, line: &str) -> (r: AppEvent)
    ensures
        r@ == AppEventView::Output(tag@, line@),
{
    AppEvent::Output(tag.clone(), String::from_str(line))
}

/// The non-fatal notice for one malformed metadata line.
pub fn parse_warning_event(tag: &String, error_text: &str) -> (r: AppEvent)
    ensures
        r@ == AppEventView::Output(tag@, "JSON Parse Warning: "@ + error_text@),
{
    let mut msg = String::from_str("JSON Parse Warning: ");
    msg.append(error_text);
    AppEvent::Output(tag.clone(), msg)
}

/// The terminal error of an invocation that could not be started at all.
pub fn spawn_failed_event(tag: &String, error_text: &str) -> (r: AppEvent)
    ensures
        r@ == AppEventView::Error(tag@, "Spawn failed: "@ + error_text@),
{
    let mut msg = String::from_str("Spawn failed: ");
    msg.append(error_text);
    AppEvent::Error(tag.clone(), msg)
}

/// The status line of a download that was just started: it counts the
/// batch where there is more than one URL.
pub open spec fn started_status_text(tag: Seq<char>, count: nat) -> Seq<char> {
    if count > 1 {
        "Started batch of "@ + decimal_of(count) + ": "@ + tag
    } else {
        "Started: "@ + tag
    }
}

/// The status event of a download that was just started.
pub fn started_status_event(tag: &String, count: usize) -> (r: AppEvent)
    ensures
        r@ == AppEventView::Status(tag@, started_status_text(tag@, count as nat)),
{
    if count > 1 {
        let mut msg = String::from_str("Started batch of ");
        let num = u64_to_string(count as u64);
        msg.append(num.as_str());
        msg.append(": ");
        msg.append(tag.as_str());
        proof {
            assert(msg@ =~= started_status_text(tag@, count as nat));
        }
        AppEvent::Status(tag.clone(), msg)
    } else {
        let mut msg = String::from_str("Started: ");
        msg.append(tag.as_str());
        AppEvent::Status(tag.clone(), msg)
    }
}

/// The log line naming the selector expression in use.
pub fn selector_output_event(tag: &String, selector: &String) -> (r: AppEvent)
    ensures
        r@ == AppEventView::Output(tag@, "Format Selector: "@ + selector@),
{
    let mut msg = String::from_str("Format Selector: ");
    msg.append(selector.as_str());
    AppEvent::Output(tag.clone(), msg)
}

/// The log line naming the download invocation about to run.
pub fn executing_output_event(tag: &String, tool: &String, args: &Vec<String>) -> (r: AppEvent)
    ensures
        r@ == AppEventView::Output(
            tag@,
            "Executing: "@ + tool@ + " "@ + join_texts(args.deep_view(), " "@),
        ),
{
    let mut msg = String::from_str("Executing: ");
    msg.append(tool.as_str());
    msg.append(" ");
    let joined = join_with(args, " ");
    msg.append(joined.as_str());
    proof {
        assert(msg@ =~= "Executing: "@ + tool@ + " "@ + join_texts(args.deep_view(), " "@));
    }
    AppEvent::Output(tag.clone(), msg)
}

/// The list row of a finished task.
pub fn finished_label(url: &String) -> (r: String)
    ensures
        r@ == "Finished: "@ + url@,
{
    let mut msg = String::from_str("Finished: ");
    msg.append(url.as_str());
    msg
}

/// The list row of a failed task.
pub fn error_label(tag: &String) -> (r: String)
    ensures
        r@ == "Error: "@ + tag@,
{
    let mut msg = String::from_str("Error: ");
    msg.append(tag.as_str());
    msg
}

} // verus!
