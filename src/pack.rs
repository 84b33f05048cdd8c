//! Starting the download of a modpack into the game's mod folder.
use vstd::prelude::*;
use crate::launch::LaunchSettings;
use crate::launch::{abort_reason_text, LaunchAbortReason};
use crate::log::{abort_launch, error, info, lemma_one_line, lemma_two_lines, log_line, log_lines, LogLevel};
use crate::modpack::{display_name, pack_url, Modpack};
use crate::sync::{failure_text, start_model, ActionModel, SyncAction, SyncFailure, SyncSession};
use crate::text::{join, joined, push_str};

verus! {

/// Starts syncing `modpack` from the server of `launch_settings` into the
/// `mods` folder of the game folder `minecraft_path`, logging the pack's
/// name and address to `console`. Returns the session and its first action.
pub fn download_modpack(
    console: &mut String,
    modpack: Modpack,
    minecraft_path: String,
    launch_settings: &LaunchSettings,
) -> (r: (SyncSession, SyncAction))
    ensures
        r.0.wf(),
        r.0@ == start_model(
            pack_url(launch_settings.host_ip@, launch_settings.host_port as int, modpack),
            joined(minecraft_path@, "mods"@),
        ),
        r.1@ == ActionModel::ClearFolder(joined(minecraft_path@, "mods"@)),
        exists|t1: Seq<char>, t2: Seq<char>| final(console)@ == old(console)@
            + log_line(t1, LogLevel::Info, "begin request for "@ + display_name(modpack))
            + log_line(t2, LogLevel::Info, "url: "@
                + pack_url(launch_settings.host_ip@, launch_settings.host_port as int, modpack)),
{
    let mut line = String::new();
    push_str(&mut line, "begin request for ");
    push_str(&mut line, modpack.get_name());
    info(line.as_str(), console);
    let url = modpack.base_url(launch_settings.host_ip.as_str(), launch_settings.host_port);
    let mut line2 = String::new();
    push_str(&mut line2, "url: ");
    push_str(&mut line2, url.as_str());
    info(line2.as_str(), console);
    let mods = join(minecraft_path.as_str(), "mods");
    SyncSession::start(url, mods)
}

/// What is logged when a download ends: success, or the failure's text as
/// an error and the abort for a network error as a warning.
pub open spec fn download_end_log(failure: Option<SyncFailure>) -> Seq<(LogLevel, Seq<char>)> {
    match failure {
        None => seq![(LogLevel::Info, "Pack collected successfully"@)],
        Some(f) => seq![
            (LogLevel::Error, "Pack did not download correctly -> "@ + failure_text(f@)),
            (LogLevel::Warn, "Launch aborted - "@ + abort_reason_text(LaunchAbortReason::NetworkError)),
        ],
    }
}

/// Logs how a download ended (`failure` is `None` once it finished), and
/// says whether the game's launcher is to be started: only after success.
pub fn finish_download(failure: Option<SyncFailure>, console: &mut String) -> (r: bool)
    ensures
        r == (failure is None),
        exists|ts: Seq<Seq<char>>| ts.len() == download_end_log(failure).len()
            && final(console)@ == old(console)@ + log_lines(ts, download_end_log(failure)),
{
    let ghost start = console@;
    let ghost m = download_end_log(failure);
    match failure {
        None => {
            info("Pack collected successfully", console);
            proof {
                let t = choose|t: Seq<char>| console@ == start + log_line(t, LogLevel::Info, "Pack collected successfully"@);
                assert(m =~= seq![m[0]]);
                lemma_one_line(t, m[0]);
                assert(console@ =~= start + log_lines(seq![t], m));
                assert(seq![t].len() == m.len());
            }
            true
        },
        Some(f) => {
            let mut line = String::new();
            push_str(&mut line, "Pack did not download correctly -> ");
            push_str(&mut line, f.message().as_str());
            error(line.as_str(), console);
            let ghost t1 = choose|t: Seq<char>| console@ == start + log_line(t, LogLevel::Error, line@);
            let ghost mid = console@;
            abort_launch(console, LaunchAbortReason::NetworkError);
            proof {
                let t2 = choose|t: Seq<char>| console@ == mid + log_line(t, LogLevel::Warn,
                    "Launch aborted - "@ + abort_reason_text(LaunchAbortReason::NetworkError));
                assert(m =~= seq![m[0], m[1]]);
                assert(line@ =~= m[0].1);
                lemma_two_lines(t1, t2, m[0], m[1]);
                assert(console@ =~= start + log_lines(seq![t1, t2], m));
                assert(seq![t1, t2].len() == m.len());
            }
            false
        },
    }
}

} // verus!
