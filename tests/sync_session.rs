use qmodmanager::manifest::{is_pack_absent, is_safe_manifest_entry, parse_manifest};
use qmodmanager::pack::{download_modpack, finish_download};
use qmodmanager::launch::LaunchSettings;
use qmodmanager::modpack::Modpack;
use qmodmanager::sync::{ProgressEvent, SyncAction, SyncFailure, SyncSession};
use std::collections::BTreeSet;

const BASE: &str = "http://host:1/Base";
const DIR: &str = "/game/mods";

/// Plays the caller of a session against an in-memory mod folder: every
/// action succeeds except the store of `fail_store_at` (counted from 0), if
/// any. Returns every event and the folder's files at the end.
fn drive(body: &str, disk: &mut BTreeSet<String>, fail_store_at: Option<usize>) -> Vec<ProgressEvent> {
    let (mut session, mut action) = SyncSession::start(BASE.to_string(), DIR.to_string());
    let mut events = Vec::new();
    let mut stores = 0;
    for _ in 0..1000 {
        let outcome = match &action {
            SyncAction::ClearFolder(d) => {
                assert_eq!(d, DIR);
                disk.clear();
                Ok(String::new())
            }
            SyncAction::Fetch(url) => {
                if url == &format!("{BASE}/metadata") {
                    Ok(body.to_string())
                } else {
                    Ok(String::new())
                }
            }
            SyncAction::Store(path) => {
                if Some(stores) == fail_store_at {
                    Err("disk full".to_string())
                } else {
                    stores += 1;
                    let name = path.strip_prefix(&format!("{DIR}/")).expect("inside the mod folder");
                    disk.insert(name.to_string());
                    Ok(String::new())
                }
            }
            SyncAction::Stop => break,
        };
        let step = session.advance(outcome, false);
        events.extend(step.events);
        action = step.action;
    }
    assert!(session.is_done());
    events
}

fn log(file: &str, id: usize) -> ProgressEvent {
    ProgressEvent::LogLine { text: format!("downloaded file: {file}"), id }
}

#[test]
fn two_file_manifest_gives_files_and_events_in_order() {
    let mut disk = BTreeSet::new();
    disk.insert("old.jar".to_string());
    let events = drive("a.jar\nb.jar", &mut disk, None);
    assert_eq!(
        events,
        vec![
            log("a.jar", 0),
            ProgressEvent::Progress { done: 1, total: 2 },
            log("b.jar", 1),
            ProgressEvent::Progress { done: 2, total: 2 },
            ProgressEvent::Finished,
        ]
    );
    let expected: BTreeSet<String> = ["a.jar", "b.jar"].iter().map(|s| s.to_string()).collect();
    assert_eq!(disk, expected);
}

#[test]
fn session_actions_follow_the_protocol() {
    let (mut s, a) = SyncSession::start(BASE.to_string(), DIR.to_string());
    assert_eq!(a, SyncAction::ClearFolder(DIR.to_string()));
    let st = s.advance(Ok(String::new()), false);
    assert_eq!(st.action, SyncAction::Fetch("http://host:1/Base/metadata".to_string()));
    assert!(st.events.is_empty());
    let st = s.advance(Ok("x.jar\n".to_string()), false);
    assert_eq!(st.action, SyncAction::Fetch("http://host:1/Base/x.jar".to_string()));
    let st = s.advance(Ok(String::new()), false);
    assert_eq!(st.action, SyncAction::Store("/game/mods/x.jar".to_string()));
    let st = s.advance(Ok(String::new()), false);
    assert_eq!(st.action, SyncAction::Stop);
    assert_eq!(st.events.last(), Some(&ProgressEvent::Finished));
    assert!(s.is_done());
    let st = s.advance(Ok(String::new()), false);
    assert_eq!(st.action, SyncAction::Stop);
    assert!(st.events.is_empty());
}

#[test]
fn unsafe_entry_aborts_before_any_write() {
    let mut disk = BTreeSet::new();
    let events = drive("a.jar\n../../evil\nb.jar", &mut disk, None);
    assert_eq!(
        events,
        vec![ProgressEvent::Failed(SyncFailure::UnsafeManifestEntry("../../evil".to_string()))]
    );
    assert!(disk.is_empty());
}

#[test]
fn empty_manifest_finishes_with_nothing_downloaded() {
    let mut disk = BTreeSet::new();
    disk.insert("stale.jar".to_string());
    let events = drive("", &mut disk, None);
    assert_eq!(events, vec![ProgressEvent::Finished]);
    assert!(disk.is_empty());
    let mut disk2 = BTreeSet::new();
    assert_eq!(drive("\n\n", &mut disk2, None), vec![ProgressEvent::Finished]);
}

#[test]
fn sentinel_body_means_pack_absent() {
    let mut disk = BTreeSet::new();
    let events = drive("PACK NOT FOUND", &mut disk, None);
    assert_eq!(events, vec![ProgressEvent::Failed(SyncFailure::RemotePackAbsent)]);
    assert!(is_pack_absent("PACK NOT FOUND"));
    assert!(!is_pack_absent("PACK NOT FOUND\n"));
    assert!(!is_pack_absent("pack not found"));
}

#[test]
fn progress_never_goes_back_and_ends_full() {
    let mut disk = BTreeSet::new();
    let events = drive("1.jar\n2.jar\n3.jar\n4.jar", &mut disk, None);
    let progress: Vec<(usize, usize)> = events
        .iter()
        .filter_map(|e| match e {
            ProgressEvent::Progress { done, total } => Some((*done, *total)),
            _ => None,
        })
        .collect();
    assert_eq!(progress, vec![(1, 4), (2, 4), (3, 4), (4, 4)]);
    let fractions: Vec<f64> = progress.iter().map(|(d, t)| *d as f64 / *t as f64).collect();
    assert!(fractions.windows(2).all(|w| w[0] <= w[1]));
    assert_eq!(fractions.last(), Some(&1.0));
    assert_eq!(events[events.len() - 2], ProgressEvent::Progress { done: 4, total: 4 });
    assert_eq!(events.last(), Some(&ProgressEvent::Finished));
}

#[test]
fn retry_after_failure_ends_with_exactly_the_manifest() {
    let body: String = (0..10).map(|i| format!("mod{i}.jar\n")).collect();
    let mut disk = BTreeSet::new();
    disk.insert("extra.jar".to_string());
    let events = drive(&body, &mut disk, Some(3));
    assert_eq!(
        events.last(),
        Some(&ProgressEvent::Failed(SyncFailure::FilesystemError("disk full".to_string())))
    );
    assert_eq!(disk.len(), 3);
    let events = drive(&body, &mut disk, None);
    assert_eq!(events.last(), Some(&ProgressEvent::Finished));
    let expected: BTreeSet<String> = (0..10).map(|i| format!("mod{i}.jar")).collect();
    assert_eq!(disk, expected);
}

#[test]
fn failures_carry_the_original_error_text() {
    let (mut s, _) = SyncSession::start(BASE.to_string(), DIR.to_string());
    let st = s.advance(Err("permission denied".to_string()), false);
    assert_eq!(st.events, vec![ProgressEvent::Failed(SyncFailure::FilesystemError("permission denied".to_string()))]);
    assert_eq!(st.action, SyncAction::Stop);

    let (mut s, _) = SyncSession::start(BASE.to_string(), DIR.to_string());
    s.advance(Ok(String::new()), false);
    let st = s.advance(Err("connection refused".to_string()), false);
    assert_eq!(st.events, vec![ProgressEvent::Failed(SyncFailure::NetworkError("connection refused".to_string()))]);

    let (mut s, _) = SyncSession::start(BASE.to_string(), DIR.to_string());
    s.advance(Ok(String::new()), false);
    s.advance(Ok("a.jar".to_string()), false);
    let st = s.advance(Err("404".to_string()), false);
    assert_eq!(st.events, vec![ProgressEvent::Failed(SyncFailure::NetworkError("404".to_string()))]);
}

#[test]
fn cancel_is_heeded_between_entries() {
    let (mut s, _) = SyncSession::start(BASE.to_string(), DIR.to_string());
    s.advance(Ok(String::new()), true);
    s.advance(Ok("a.jar\nb.jar".to_string()), true);
    s.advance(Ok(String::new()), true);
    let st = s.advance(Ok(String::new()), true);
    assert_eq!(
        st.events,
        vec![
            log("a.jar", 0),
            ProgressEvent::Progress { done: 1, total: 2 },
            ProgressEvent::Failed(SyncFailure::Cancelled),
        ]
    );
    assert_eq!(st.action, SyncAction::Stop);
}

#[test]
fn manifest_lines_and_entry_safety() {
    assert_eq!(parse_manifest("a.jar\n\nb.jar\n"), vec!["a.jar".to_string(), "b.jar".to_string()]);
    assert!(parse_manifest("").is_empty());
    assert_eq!(parse_manifest("only"), vec!["only".to_string()]);
    assert!(is_safe_manifest_entry("a.jar"));
    assert!(is_safe_manifest_entry("..a.jar"));
    assert!(!is_safe_manifest_entry("../../evil"));
    assert!(!is_safe_manifest_entry(".."));
    assert!(!is_safe_manifest_entry("."));
    assert!(!is_safe_manifest_entry(""));
    assert!(!is_safe_manifest_entry("/etc/passwd"));
    assert!(!is_safe_manifest_entry("sub\\x.jar"));
    assert!(!is_safe_manifest_entry("C:x.jar"));
}

#[test]
fn download_modpack_logs_and_starts_clearing_the_mods_folder() {
    let settings = LaunchSettings::new(
        "1.20.1".to_string(),
        "47.3.10".to_string(),
        Modpack::ModTeam,
        "24.4.89.35".to_string(),
        7878,
    );
    let mut console = String::new();
    let (mut session, action) = download_modpack(&mut console, Modpack::Base, "/mc".to_string(), &settings);
    assert_eq!(action, SyncAction::ClearFolder("/mc/mods".to_string()));
    let lines: Vec<&str> = console.lines().collect();
    assert_eq!(lines.len(), 2);
    assert!(lines[0].ends_with(" : [Info] - begin request for Base Pack"));
    assert!(lines[1].ends_with(" : [Info] - url: http://24.4.89.35:7878/Base"));
    let st = session.advance(Ok(String::new()), false);
    assert_eq!(st.action, SyncAction::Fetch("http://24.4.89.35:7878/Base/metadata".to_string()));
}

#[test]
fn failures_have_texts_and_end_the_download() {
    assert_eq!(SyncFailure::NetworkError("timeout".to_string()).message(), "network error: timeout");
    assert_eq!(SyncFailure::RemotePackAbsent.message(), "the server has no such pack");
    assert_eq!(SyncFailure::FilesystemError("full".to_string()).message(), "file system error: full");
    assert_eq!(SyncFailure::UnsafeManifestEntry("../x".to_string()).message(), "refused manifest entry: ../x");
    assert_eq!(SyncFailure::Cancelled.message(), "cancelled");

    let mut console = String::new();
    assert!(finish_download(None, &mut console));
    assert!(console.ends_with(" : [Info] - Pack collected successfully\n"));

    let mut console = String::new();
    assert!(!finish_download(Some(SyncFailure::RemotePackAbsent), &mut console));
    let lines: Vec<&str> = console.lines().collect();
    assert_eq!(lines.len(), 2);
    assert!(lines[0].ends_with(" : [Error] - Pack did not download correctly -> the server has no such pack"));
    assert!(lines[1].ends_with(" : [Warn] - Launch aborted - NetworkError"));
}
