use tubex::dispatch::{
    apply_event, clipboard_addition, flush_decision, refresh_row, FlushAction, DRAIN_CAP,
    LOG_APPEND_LIMIT,
};
use tubex::events::AppEvent;
use tubex::manager::DownloadManager;

#[test]
fn history_accumulates_in_call_order() {
    let mut dm: DownloadManager<u64> = DownloadManager::new();
    dm.append_output("tag", "one ");
    dm.append_output("tag", "two ");
    dm.append_output("tag", "three");
    assert_eq!(dm.get_output("tag"), "one two three");
}

#[test]
fn history_keeps_tags_apart() {
    let mut dm: DownloadManager<u64> = DownloadManager::new();
    dm.append_output("a", "left");
    dm.append_output("b", "right");
    dm.append_output("a", "-more");
    assert_eq!(dm.get_output("a"), "left-more");
    assert_eq!(dm.get_output("b"), "right");
}

#[test]
fn history_of_unknown_tag_is_empty() {
    let dm: DownloadManager<u64> = DownloadManager::new();
    assert_eq!(dm.get_output("never"), "");
}

#[test]
fn has_task_after_register_and_unregister() {
    let mut dm: DownloadManager<u64> = DownloadManager::new();
    assert!(!dm.has_task("u"));
    dm.register_task("u", 7);
    assert!(dm.has_task("u"));
    dm.unregister_task("u");
    assert!(!dm.has_task("u"));
}

#[test]
fn unregister_is_idempotent() {
    let mut dm: DownloadManager<u64> = DownloadManager::new();
    dm.register_task("u", 7);
    dm.unregister_task("u");
    dm.unregister_task("u");
    assert!(!dm.has_task("u"));
}

#[test]
fn register_replaces_prior_entry() {
    let mut dm: DownloadManager<u64> = DownloadManager::new();
    dm.register_task("u", 7);
    dm.register_task("u", 9);
    assert_eq!(dm.cancel_task("u"), Some(&9));
}

#[test]
fn cancel_does_not_unregister() {
    let mut dm: DownloadManager<u64> = DownloadManager::new();
    dm.register_task("u", 7);
    assert_eq!(dm.cancel_task("u"), Some(&7));
    assert!(dm.has_task("u"));
    assert_eq!(dm.cancel_task("absent"), None);
}

#[test]
fn output_event_appends_to_history() {
    let mut dm: DownloadManager<u64> = DownloadManager::new();
    let ev = AppEvent::Output("t".to_string(), "line".to_string());
    apply_event(&mut dm, &ev);
    assert_eq!(dm.get_output("t"), "line");
}

#[test]
fn finished_event_unregisters() {
    let mut dm: DownloadManager<u64> = DownloadManager::new();
    dm.register_task("t", 1);
    let ev = AppEvent::Finished("t".to_string());
    apply_event(&mut dm, &ev);
    assert!(!dm.has_task("t"));
}

#[test]
fn error_event_logs_and_unregisters() {
    let mut dm: DownloadManager<u64> = DownloadManager::new();
    dm.register_task("t", 1);
    dm.append_output("t", "so far\n");
    let ev = AppEvent::Error("t".to_string(), "boom".to_string());
    apply_event(&mut dm, &ev);
    assert!(!dm.has_task("t"));
    assert_eq!(dm.get_output("t"), "so far\nError: boom");
}

#[test]
fn status_event_changes_nothing() {
    let mut dm: DownloadManager<u64> = DownloadManager::new();
    dm.register_task("t", 1);
    let ev = AppEvent::Status("t".to_string(), "busy".to_string());
    apply_event(&mut dm, &ev);
    assert!(dm.has_task("t"));
    assert_eq!(dm.get_output("t"), "");
}

#[test]
fn row_refresh_moves_tag_to_the_end() {
    let mut ids = vec!["a".to_string(), "b".to_string(), "c".to_string()];
    let removed = refresh_row(&mut ids, "b");
    assert_eq!(removed, Some(1));
    assert_eq!(ids, vec!["a".to_string(), "c".to_string(), "b".to_string()]);
    let added = refresh_row(&mut ids, "new");
    assert_eq!(added, None);
    assert_eq!(
        ids,
        vec!["a".to_string(), "c".to_string(), "b".to_string(), "new".to_string()]
    );
}

#[test]
fn clipboard_watch_offers_recognised_addresses_once() {
    assert_eq!(
        clipboard_addition("", " https://youtu.be/x "),
        Some("https://youtu.be/x".to_string())
    );
    assert_eq!(
        clipboard_addition("https://a", "https://www.youtube.com/watch?v=1"),
        Some("\nhttps://www.youtube.com/watch?v=1".to_string())
    );
    assert_eq!(
        clipboard_addition("https://a\n", "https://youtu.be/x"),
        Some("https://youtu.be/x".to_string())
    );
    // already present, or not a recognised address: nothing to add
    assert_eq!(clipboard_addition("https://youtu.be/x", "https://youtu.be/x"), None);
    assert_eq!(clipboard_addition("", "some plain text"), None);
}

#[test]
fn flush_decision_cases() {
    assert_eq!(flush_decision(0, 0), FlushAction::Keep);
    assert_eq!(flush_decision(0, LOG_APPEND_LIMIT + 1), FlushAction::Keep);
    assert_eq!(flush_decision(5, LOG_APPEND_LIMIT), FlushAction::Append);
    assert_eq!(flush_decision(5, LOG_APPEND_LIMIT + 1), FlushAction::Rerender);
    assert!(DRAIN_CAP == 2000);
}
