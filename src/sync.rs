//! The modpack synchronisation session, as a state machine.
//!
//! A session clears the local mod folder, fetches the manifest, then fetches
//! and stores each listed file in order. The caller performs each requested
//! action (clearing, fetching, storing) and hands its outcome back; the
//! session answers with the next action and the progress events to publish.
use vstd::prelude::*;
use crate::manifest::{
    first_unsafe, find_unsafe_entry, is_pack_absent, manifest_entries, pack_absent_sentinel,
    parse_manifest,
};
use crate::text::{join, joined, push_str};

verus! {

/// Why a session ended without finishing.
#[derive(Debug, Clone, PartialEq, Eq)]
pub enum SyncFailure {
    /// The manifest or a file could not be fetched; the transport's words.
    NetworkError(String),
    /// The server has no such pack.
    RemotePackAbsent,
    /// The mod folder could not be cleared or a file could not be stored.
    FilesystemError(String),
    /// A manifest entry that could leave the mod folder.
    UnsafeManifestEntry(String),
    /// The caller asked the session to stop.
    Cancelled,
}

/// `SyncFailure` with its texts as character sequences.
pub enum FailureModel {
    NetworkError(Seq<char>),
    RemotePackAbsent,
    FilesystemError(Seq<char>),
    UnsafeManifestEntry(Seq<char>),
    Cancelled,
}

impl View for SyncFailure {
    type V = FailureModel;

    open spec fn view(&self) -> FailureModel {
        match self {
            SyncFailure::NetworkError(m) => FailureModel::NetworkError(m@),
            SyncFailure::RemotePackAbsent => FailureModel::RemotePackAbsent,
            SyncFailure::FilesystemError(m) => FailureModel::FilesystemError(m@),
            SyncFailure::UnsafeManifestEntry(e) => FailureModel::UnsafeManifestEntry(e@),
            SyncFailure::Cancelled => FailureModel::Cancelled,
        }
    }
}

/// The text shown to the user for a failure.
pub open spec fn failure_text(f: FailureModel) -> Seq<char> {
    match f {
        FailureModel::NetworkError(m) => "network error: "@ + m,
        FailureModel::RemotePackAbsent => "the server has no such pack"@,
        FailureModel::FilesystemError(m) => "file system error: "@ + m,
        FailureModel::UnsafeManifestEntry(e) => "refused manifest entry: "@ + e,
        FailureModel::Cancelled => "cancelled"@,
    }
}

impl SyncFailure {
    /// The text shown to the user for this failure.
    pub fn message(&self) -> (r: String)
        ensures
            r@ == failure_text(self@),
    {
        let mut r = String::new();
        match self {
            SyncFailure::NetworkError(m) => {
                push_str(&mut r, "network error: ");
                push_str(&mut r, m.as_str());
            },
            SyncFailure::RemotePackAbsent => push_str(&mut r, "the server has no such pack"),
            SyncFailure::FilesystemError(m) => {
                push_str(&mut r, "file system error: ");
                push_str(&mut r, m.as_str());
            },
            SyncFailure::UnsafeManifestEntry(e) => {
                push_str(&mut r, "refused manifest entry: ");
                push_str(&mut r, e.as_str());
            },
            SyncFailure::Cancelled => push_str(&mut r, "cancelled"),
        }
        r
    }
}

/// What a session tells its caller, in order.
#[derive(Debug, Clone, PartialEq, Eq)]
pub enum ProgressEvent {
    /// A line for the log; `id` grows by one with each line of a session.
    LogLine { text: String, id: usize },
    /// `done` of `total` files are in place.
    Progress { done: usize, total: usize },
    /// Every file of the manifest is in place.
    Finished,
    /// The session stopped early.
    Failed(SyncFailure),
}

/// `ProgressEvent` with its texts as character sequences.
pub enum EventModel {
    LogLine(Seq<char>, nat),
    Progress(nat, nat),
    Finished,
    Failed(FailureModel),
}

impl View for ProgressEvent {
    type V = EventModel;

    open spec fn view(&self) -> EventModel {
        match self {
            ProgressEvent::LogLine { text, id } => EventModel::LogLine(text@, *id as nat),
            ProgressEvent::Progress { done, total } => EventModel::Progress(*done as nat, *total as nat),
            ProgressEvent::Finished => EventModel::Finished,
            ProgressEvent::Failed(f) => EventModel::Failed(f@),
        }
    }
}

/// The work a session asks of its caller.
#[derive(Debug, Clone, PartialEq, Eq)]
pub enum SyncAction {
    /// Remove every regular file of this folder, leaving subfolders alone.
    ClearFolder(String),
    /// Fetch this address; for the manifest, hand back the body.
    Fetch(String),
    /// Write the bytes just fetched to this file.
    Store(String),
    /// Nothing more: the session is over.
    Stop,
}

/// `SyncAction` with its texts as character sequences.
pub enum ActionModel {
    ClearFolder(Seq<char>),
    Fetch(Seq<char>),
    Store(Seq<char>),
    Stop,
}

impl View for SyncAction {
    type V = ActionModel;

    open spec fn view(&self) -> ActionModel {
        match self {
            SyncAction::ClearFolder(p) => ActionModel::ClearFolder(p@),
            SyncAction::Fetch(u) => ActionModel::Fetch(u@),
            SyncAction::Store(p) => ActionModel::Store(p@),
            SyncAction::Stop => ActionModel::Stop,
        }
    }
}

/// Where a session stands: what it last asked of its caller.
#[derive(Debug, Clone, Copy, PartialEq, Eq, Structural)]
pub enum SyncPhase {
    Clearing,
    FetchingMetadata,
    /// Fetching the manifest entry with this index.
    Fetching(usize),
    /// Storing the manifest entry with this index.
    Storing(usize),
    Done,
}

/// One answer of a session: the next action, and the events to publish.
#[derive(Debug)]
pub struct SyncStep {
    pub action: SyncAction,
    pub events: Vec<ProgressEvent>,
}

/// A sync session of one modpack into one mod folder.
#[derive(Debug)]
pub struct SyncSession {
    base_url: String,
    mod_dir: String,
    phase: SyncPhase,
    files: Vec<String>,
}

/// The state of a session.
pub struct SessionModel {
    pub base: Seq<char>,
    pub dir: Seq<char>,
    pub phase: SyncPhase,
    pub files: Seq<Seq<char>>,
}

impl View for SyncSession {
    type V = SessionModel;

    closed spec fn view(&self) -> SessionModel {
        SessionModel {
            base: self.base_url@,
            dir: self.mod_dir@,
            phase: self.phase,
            files: self.files.deep_view(),
        }
    }
}

/// The events of a step, as models.
pub open spec fn events_model(es: Seq<ProgressEvent>) -> Seq<EventModel> {
    es.map_values(|e: ProgressEvent| e@)
}

/// A step of the session model: the new state, the action, the events.
pub struct StepModel {
    pub session: SessionModel,
    pub action: ActionModel,
    pub events: Seq<EventModel>,
}

/// The address of the manifest of the pack at `base`.
pub open spec fn metadata_url(base: Seq<char>) -> Seq<char> {
    joined(base, "metadata"@)
}

/// The log line that reports a stored file.
pub open spec fn downloaded_text(name: Seq<char>) -> Seq<char> {
    "downloaded file: "@ + name
}

/// `s` in phase `p`.
pub open spec fn with_phase(s: SessionModel, p: SyncPhase) -> SessionModel {
    SessionModel { phase: p, ..s }
}

/// The session stops with failure `f`.
pub open spec fn fail_step(s: SessionModel, f: FailureModel) -> StepModel {
    StepModel {
        session: with_phase(s, SyncPhase::Done),
        action: ActionModel::Stop,
        events: seq![EventModel::Failed(f)],
    }
}

/// The events that report entry `i` of `files` stored.
pub open spec fn stored_events(files: Seq<Seq<char>>, i: nat) -> Seq<EventModel> {
    seq![
        EventModel::LogLine(downloaded_text(files[i as int]), i),
        EventModel::Progress(i + 1, files.len()),
    ]
}

/// What a session does when the manifest `body` arrives.
pub open spec fn on_metadata(s: SessionModel, body: Seq<char>) -> StepModel {
    let es = manifest_entries(body);
    if body == pack_absent_sentinel() {
        fail_step(s, FailureModel::RemotePackAbsent)
    } else if first_unsafe(es) is Some {
        fail_step(s, FailureModel::UnsafeManifestEntry(es[first_unsafe(es)->0]))
    } else if es.len() == 0 {
        StepModel {
            session: SessionModel { phase: SyncPhase::Done, files: es, ..s },
            action: ActionModel::Stop,
            events: seq![EventModel::Finished],
        }
    } else {
        StepModel {
            session: SessionModel { phase: SyncPhase::Fetching(0), files: es, ..s },
            action: ActionModel::Fetch(joined(s.base, es[0])),
            events: seq![],
        }
    }
}

/// What a session does when entry `i` has been stored; `cancel` is whether
/// the caller asked it to stop.
pub open spec fn on_stored(s: SessionModel, i: nat, cancel: bool) -> StepModel {
    let ev = stored_events(s.files, i);
    if i + 1 == s.files.len() {
        StepModel {
            session: with_phase(s, SyncPhase::Done),
            action: ActionModel::Stop,
            events: ev.push(EventModel::Finished),
        }
    } else if cancel {
        StepModel {
            session: with_phase(s, SyncPhase::Done),
            action: ActionModel::Stop,
            events: ev.push(EventModel::Failed(FailureModel::Cancelled)),
        }
    } else {
        StepModel {
            session: with_phase(s, SyncPhase::Fetching((i + 1) as usize)),
            action: ActionModel::Fetch(joined(s.base, s.files[i + 1 as int])),
            events: ev,
        }
    }
}

/// The session's answer to the outcome of the action it asked for last.
pub open spec fn next(s: SessionModel, outcome: Result<Seq<char>, Seq<char>>, cancel: bool) -> StepModel {
    match s.phase {
        SyncPhase::Clearing => match outcome {
            Err(m) => fail_step(s, FailureModel::FilesystemError(m)),
            Ok(_) => StepModel {
                session: with_phase(s, SyncPhase::FetchingMetadata),
                action: ActionModel::Fetch(metadata_url(s.base)),
                events: seq![],
            },
        },
        SyncPhase::FetchingMetadata => match outcome {
            Err(m) => fail_step(s, FailureModel::NetworkError(m)),
            Ok(body) => on_metadata(s, body),
        },
        SyncPhase::Fetching(i) => match outcome {
            Err(m) => fail_step(s, FailureModel::NetworkError(m)),
            Ok(_) => StepModel {
                session: with_phase(s, SyncPhase::Storing(i)),
                action: ActionModel::Store(joined(s.dir, s.files[i as int])),
                events: seq![],
            },
        },
        SyncPhase::Storing(i) => match outcome {
            Err(m) => fail_step(s, FailureModel::FilesystemError(m)),
            Ok(_) => on_stored(s, i as nat, cancel),
        },
        SyncPhase::Done => StepModel { session: s, action: ActionModel::Stop, events: seq![] },
    }
}

/// A session as it begins: about to clear `dir`.
pub open spec fn start_model(base: Seq<char>, dir: Seq<char>) -> SessionModel {
    SessionModel { base, dir, phase: SyncPhase::Clearing, files: seq![] }
}

impl SyncSession {
    /// The index in phase `Fetching` or `Storing` names an entry.
    pub open spec fn wf(&self) -> bool {
        match self@.phase {
            SyncPhase::Fetching(i) => i < self@.files.len(),
            SyncPhase::Storing(i) => i < self@.files.len(),
            _ => true,
        }
    }

    /// Whether the session is over.
    pub fn is_done(&self) -> (r: bool)
        ensures
            r == (self@.phase is Done),
    {
        match self.phase {
            SyncPhase::Done => true,
            _ => false,
        }
    }

    /// Whether the session waits for the manifest: the outcome it expects
    /// next carries the manifest's body.
    pub fn awaits_manifest(&self) -> (r: bool)
        ensures
            r == (self@.phase is FetchingMetadata),
    {
        match self.phase {
            SyncPhase::FetchingMetadata => true,
            _ => false,
        }
    }

    /// A session that syncs the pack at `base_url` into `mod_dir`, and its
    /// first action: clearing the folder.
    pub fn start(base_url: String, mod_dir: String) -> (r: (SyncSession, SyncAction))
        ensures
            r.0.wf(),
            r.0@ == start_model(base_url@, mod_dir@),
            r.1@ == ActionModel::ClearFolder(mod_dir@),
    {
        let action = SyncAction::ClearFolder(mod_dir.clone());
        let s = SyncSession { base_url, mod_dir, phase: SyncPhase::Clearing, files: Vec::new() };
        assert(s.files.deep_view() =~= seq![]);
        (s, action)
    }

    fn fail(&mut self, f: SyncFailure) -> (r: SyncStep)
        ensures
            final(self)@ == with_phase(old(self)@, SyncPhase::Done),
            r.action@ == ActionModel::Stop,
            events_model(r.events@) == seq![EventModel::Failed(f@)],
    {
        self.phase = SyncPhase::Done;
        let events = vec![ProgressEvent::Failed(f)];
        assert(events_model(events@) =~= seq![EventModel::Failed(f@)]);
        SyncStep { action: SyncAction::Stop, events }
    }

    fn receive_metadata(&mut self, body: String) -> (r: SyncStep)
        requires
            old(self)@.phase is FetchingMetadata,
        ensures
            final(self).wf(),
            final(self)@ == on_metadata(old(self)@, body@).session,
            r.action@ == on_metadata(old(self)@, body@).action,
            events_model(r.events@) == on_metadata(old(self)@, body@).events,
    {
        if is_pack_absent(body.as_str()) {
            return self.fail(SyncFailure::RemotePackAbsent);
        }
        let files = parse_manifest(body.as_str());
        match find_unsafe_entry(&files) {
            Some(k) => {
                let e = files[k].clone();
                assert(files[k as int]@ == files.deep_view()[k as int]);
                return self.fail(SyncFailure::UnsafeManifestEntry(e));
            },
            None => {},
        }
        if files.len() == 0 {
            self.phase = SyncPhase::Done;
            self.files = files;
            let events = vec![ProgressEvent::Finished];
            assert(events_model(events@) =~= seq![EventModel::Finished]);
            return SyncStep { action: SyncAction::Stop, events };
        }
        let url = join(self.base_url.as_str(), files[0].as_str());
        self.phase = SyncPhase::Fetching(0);
        self.files = files;
        let events = Vec::new();
        assert(events_model(events@) =~= seq![]);
        SyncStep { action: SyncAction::Fetch(url), events }
    }

    fn receive_stored(&mut self, i: usize, cancel: bool) -> (r: SyncStep)
        requires
            old(self).wf(),
            old(self)@.phase == SyncPhase::Storing(i),
        ensures
            final(self).wf(),
            final(self)@ == on_stored(old(self)@, i as nat, cancel).session,
            r.action@ == on_stored(old(self)@, i as nat, cancel).action,
            events_model(r.events@) == on_stored(old(self)@, i as nat, cancel).events,
    {
        let n = self.files.len();
        let mut text = String::new();
        push_str(&mut text, "downloaded file: ");
        push_str(&mut text, self.files[i].as_str());
        assert(self.files[i as int]@ == self@.files[i as int]);
        let mut events = vec![
            ProgressEvent::LogLine { text, id: i },
            ProgressEvent::Progress { done: i + 1, total: n },
        ];
        assert(events_model(events@) =~= stored_events(self@.files, i as nat));
        let ghost ev = events_model(events@);
        if i + 1 == n {
            self.phase = SyncPhase::Done;
            events.push(ProgressEvent::Finished);
            assert(events_model(events@) =~= ev.push(EventModel::Finished));
            SyncStep { action: SyncAction::Stop, events }
        } else if cancel {
            self.phase = SyncPhase::Done;
            events.push(ProgressEvent::Failed(SyncFailure::Cancelled));
            assert(events_model(events@) =~= ev.push(EventModel::Failed(FailureModel::Cancelled)));
            SyncStep { action: SyncAction::Stop, events }
        } else {
            let url = join(self.base_url.as_str(), self.files[i + 1].as_str());
            assert(self.files[i + 1]@ == self@.files[i + 1]);
            self.phase = SyncPhase::Fetching(i + 1);
            SyncStep { action: SyncAction::Fetch(url), events }
        }
    }

    /// Hands the session the outcome of the action it asked for last: for
    /// the manifest, `Ok` holds the body; otherwise `Ok`'s text is ignored,
    /// and `Err` holds the error's words. `cancel` asks the session to stop;
    /// it is heeded between manifest entries.
    pub fn advance(&mut self, outcome: Result<String, String>, cancel: bool) -> (r: SyncStep)
        requires
            old(self).wf(),
        ensures
            final(self).wf(),
            final(self)@ == next(old(self)@, outcome_model(outcome), cancel).session,
            r.action@ == next(old(self)@, outcome_model(outcome), cancel).action,
            events_model(r.events@) == next(old(self)@, outcome_model(outcome), cancel).events,
    {
        match self.phase {
            SyncPhase::Clearing => match outcome {
                Err(m) => self.fail(SyncFailure::FilesystemError(m)),
                Ok(_) => {
                    self.phase = SyncPhase::FetchingMetadata;
                    let url = join(self.base_url.as_str(), "metadata");
                    let events = Vec::new();
                    assert(events_model(events@) =~= seq![]);
                    SyncStep { action: SyncAction::Fetch(url), events }
                },
            },
            SyncPhase::FetchingMetadata => match outcome {
                Err(m) => self.fail(SyncFailure::NetworkError(m)),
                Ok(body) => self.receive_metadata(body),
            },
            SyncPhase::Fetching(i) => match outcome {
                Err(m) => self.fail(SyncFailure::NetworkError(m)),
                Ok(_) => {
                    let path = join(self.mod_dir.as_str(), self.files[i].as_str());
                    assert(self.files[i as int]@ == self@.files[i as int]);
                    self.phase = SyncPhase::Storing(i);
                    let events = Vec::new();
                    assert(events_model(events@) =~= seq![]);
                    SyncStep { action: SyncAction::Store(path), events }
                },
            },
            SyncPhase::Storing(i) => match outcome {
                Err(m) => self.fail(SyncFailure::FilesystemError(m)),
                Ok(_) => self.receive_stored(i, cancel),
            },
            SyncPhase::Done => {
                let events = Vec::new();
                assert(events_model(events@) =~= seq![]);
                SyncStep { action: SyncAction::Stop, events }
            },
        }
    }
}

/// An outcome with its texts as character sequences.
pub open spec fn outcome_model(o: Result<String, String>) -> Result<Seq<char>, Seq<char>> {
    match o {
        Ok(t) => Ok(t@),
        Err(m) => Err(m@),
    }
}

/// A stretch of a session: where it ends, the files in the mod folder, the
/// events published and the actions asked for.
pub struct RunModel {
    pub session: SessionModel,
    pub disk: Set<Seq<char>>,
    pub events: Seq<EventModel>,
    pub actions: Seq<ActionModel>,
}

/// The session `s` driven by a caller whose every action succeeds, for at
/// most `fuel` steps: clearing leaves no file in the folder, fetching the
/// manifest yields `body`, fetching a file succeeds, and storing an entry
/// puts that file in the folder. `disk` is the folder's files before.
pub open spec fn served(s: SessionModel, body: Seq<char>, disk: Set<Seq<char>>, fuel: nat) -> RunModel
    decreases fuel,
{
    if fuel == 0 || s.phase is Done {
        RunModel { session: s, disk, events: seq![], actions: seq![] }
    } else {
        let outcome: Result<Seq<char>, Seq<char>> = match s.phase {
            SyncPhase::FetchingMetadata => Ok(body),
            _ => Ok(seq![]),
        };
        let disk2 = match s.phase {
            SyncPhase::Clearing => Set::empty(),
            SyncPhase::Storing(i) => disk.insert(s.files[i as int]),
            _ => disk,
        };
        let st = next(s, outcome, false);
        let rest = served(st.session, body, disk2, (fuel - 1) as nat);
        RunModel {
            session: rest.session,
            disk: rest.disk,
            events: st.events + rest.events,
            actions: seq![st.action] + rest.actions,
        }
    }
}

/// The events of a successful session from entry `i` of `files` on.
pub open spec fn events_from(files: Seq<Seq<char>>, i: nat) -> Seq<EventModel>
    decreases files.len() - i,
{
    if i >= files.len() {
        seq![EventModel::Finished]
    } else {
        stored_events(files, i) + events_from(files, i + 1)
    }
}

/// The steps a successful session over `n` entries takes in all.
pub open spec fn session_length(n: nat) -> nat {
    2 * n + 2
}

proof fn lemma_serve_entries(s: SessionModel, body: Seq<char>, disk: Set<Seq<char>>, i: usize)
    requires
        s.phase == SyncPhase::Fetching(i),
        i < s.files.len() <= usize::MAX,
    ensures
        ({
            let r = served(s, body, disk, (2 * (s.files.len() - i)) as nat);
            &&& r.session == with_phase(s, SyncPhase::Done)
            &&& r.disk == disk + s.files.subrange(i as int, s.files.len() as int).to_set()
            &&& r.events == events_from(s.files, i as nat)
        }),
    decreases s.files.len() - i,
{
    let n = s.files.len();
    let fuel = (2 * (n - i)) as nat;
    let st1 = next(s, Ok(seq![]), false);
    let s1 = st1.session;
    assert(s1 == with_phase(s, SyncPhase::Storing(i)));
    let disk2 = disk.insert(s.files[i as int]);
    let st2 = next(s1, Ok(seq![]), false);
    assert(st2 == on_stored(s1, i as nat, false));
    let r2 = served(st2.session, body, disk2, (fuel - 2) as nat);
    assert(served(s1, body, disk, (fuel - 1) as nat).events == st2.events + r2.events);
    assert(served(s, body, disk, fuel).events == st1.events + (st2.events + r2.events));
    assert(st1.events =~= seq![]);
    if i + 1 == n {
        assert(r2.session == st2.session);
        assert(s.files.subrange(i as int, n as int) =~= seq![s.files[i as int]]);
        assert(disk2 =~= disk + s.files.subrange(i as int, n as int).to_set()) by {
            assert forall|x| s.files.subrange(i as int, n as int).to_set().contains(x)
                <==> x == s.files[i as int] by {
                if x == s.files[i as int] {
                    assert(s.files.subrange(i as int, n as int)[0] == x);
                }
            }
        }
        assert(events_from(s.files, (i + 1) as nat) == seq![EventModel::Finished]);
        assert(st2.events =~= stored_events(s.files, i as nat) + events_from(s.files, (i + 1) as nat));
        assert(served(s, body, disk, fuel).events =~= events_from(s.files, i as nat));
    } else {
        let s3 = st2.session;
        assert(s3 == with_phase(s, SyncPhase::Fetching((i + 1) as usize)));
        assert(events_from(s.files, i as nat) == stored_events(s.files, i as nat) + events_from(s.files, (i + 1) as nat));
        lemma_serve_entries(s3, body, disk2, (i + 1) as usize);
        assert((fuel - 2) as nat == (2 * (s3.files.len() - (i + 1))) as nat);
        let rest = s.files.subrange(i + 1 as int, n as int);
        let all = s.files.subrange(i as int, n as int);
        assert(all =~= seq![s.files[i as int]] + rest);
        assert(r2.disk =~= disk + all.to_set()) by {
            assert forall|x| all.to_set().contains(x)
                <==> (x == s.files[i as int] || rest.to_set().contains(x)) by {
                if all.contains(x) {
                    let k = choose|k: int| 0 <= k < all.len() && all[k] == x;
                    if k > 0 {
                        assert(rest[k - 1] == x);
                    }
                }
                if x == s.files[i as int] {
                    assert(all[0] == x);
                }
                if rest.contains(x) {
                    let k = choose|k: int| 0 <= k < rest.len() && rest[k] == x;
                    assert(all[k + 1] == x);
                }
            }
        }
        assert(served(s, body, disk, fuel).events =~= events_from(s.files, i as nat));
    }
}

/// A session whose every action succeeds, on a manifest that is not the
/// "no such pack" answer and holds only safe entries, ends after
/// `2n + 2` steps having finished: the mod folder then holds exactly the
/// manifest's files, whatever it held before (a retry after a failed session
/// starts over from a cleared folder), and the events are, for each entry in
/// order, its log line and its progress, then `Finished`.
pub proof fn lemma_successful_session(base: Seq<char>, dir: Seq<char>, body: Seq<char>, disk: Set<Seq<char>>)
    requires
        body != pack_absent_sentinel(),
        first_unsafe(manifest_entries(body)) is None,
        manifest_entries(body).len() <= usize::MAX,
    ensures
        ({
            let es = manifest_entries(body);
            let r = served(start_model(base, dir), body, disk, session_length(es.len()));
            &&& r.session.phase is Done
            &&& r.disk == es.to_set()
            &&& r.events == events_from(es, 0)
        }),
{
    let es = manifest_entries(body);
    let n = es.len();
    let s0 = start_model(base, dir);
    let fuel = session_length(n);
    let st1 = next(s0, Ok(seq![]), false);
    let s1 = st1.session;
    let st2 = next(s1, Ok(body), false);
    assert(st2 == on_metadata(s1, body));
    let r2 = served(st2.session, body, Set::empty(), (fuel - 2) as nat);
    assert(served(s1, body, Set::empty(), (fuel - 1) as nat).events == st2.events + r2.events);
    assert(served(s0, body, disk, fuel).events == st1.events + (st2.events + r2.events));
    assert(st1.events =~= seq![]);
    if n == 0 {
        assert(es.to_set() =~= Set::empty());
        assert(served(s0, body, disk, fuel).events =~= events_from(es, 0));
    } else {
        lemma_serve_entries(st2.session, body, Set::empty(), 0);
        assert(es.subrange(0, n as int) =~= es);
        assert(Set::<Seq<char>>::empty() + es.to_set() =~= es.to_set());
        assert(served(s0, body, disk, fuel).events =~= events_from(es, 0));
    }
}

/// The shape of the events of a successful session: for each entry `k`, a
/// log line with id `k` naming it and a progress of `k + 1` out of the
/// number of entries, then `Finished`.
pub proof fn lemma_events_shape(files: Seq<Seq<char>>, i: nat)
    requires
        i <= files.len(),
    ensures
        events_from(files, i).len() == 2 * (files.len() - i) + 1,
        events_from(files, i).last() == EventModel::Finished,
        forall|k: int| 0 <= k < files.len() - i ==> {
            &&& #[trigger] events_from(files, i)[2 * k] == EventModel::LogLine(
                downloaded_text(files[i + k]), (i + k) as nat)
            &&& events_from(files, i)[2 * k + 1] == EventModel::Progress((i + k + 1) as nat, files.len())
        },
    decreases files.len() - i,
{
    if i < files.len() {
        lemma_events_shape(files, i + 1);
        let e = events_from(files, i);
        let t = events_from(files, i + 1);
        assert(e == stored_events(files, i) + t);
        assert forall|k: int| 0 <= k < files.len() - i implies {
            &&& #[trigger] e[2 * k] == EventModel::LogLine(downloaded_text(files[i + k]), (i + k) as nat)
            &&& e[2 * k + 1] == EventModel::Progress((i + k + 1) as nat, files.len())
        } by {
            if k > 0 {
                assert(e[2 * k] == t[2 * (k - 1)]);
                assert(e[2 * k + 1] == t[2 * (k - 1) + 1]);
            }
        }
    }
}

/// A stretch of a session driven by given outcomes: where it ends, the
/// events published and the actions asked for.
pub struct TraceModel {
    pub session: SessionModel,
    pub events: Seq<EventModel>,
    pub actions: Seq<ActionModel>,
}

/// The session `s` given the outcomes `inputs` in turn, each with whether
/// the caller asked it to stop.
pub open spec fn run(s: SessionModel, inputs: Seq<(Result<Seq<char>, Seq<char>>, bool)>) -> TraceModel
    decreases inputs.len(),
{
    if inputs.len() == 0 {
        TraceModel { session: s, events: seq![], actions: seq![] }
    } else {
        let st = next(s, inputs[0].0, inputs[0].1);
        let rest = run(st.session, inputs.drop_first());
        TraceModel {
            session: rest.session,
            events: st.events + rest.events,
            actions: seq![st.action] + rest.actions,
        }
    }
}

proof fn lemma_done_stays(s: SessionModel, inputs: Seq<(Result<Seq<char>, Seq<char>>, bool)>)
    requires
        s.phase is Done,
    ensures
        run(s, inputs).session == s,
        run(s, inputs).events == Seq::<EventModel>::empty(),
        forall|k: int| 0 <= k < run(s, inputs).actions.len() ==> #[trigger] run(s, inputs).actions[k] == ActionModel::Stop,
    decreases inputs.len(),
{
    if inputs.len() > 0 {
        lemma_done_stays(s, inputs.drop_first());
        let r = run(s, inputs);
        let t = run(s, inputs.drop_first());
        assert(r.events =~= t.events);
        assert forall|k: int| 0 <= k < r.actions.len() implies #[trigger] r.actions[k] == ActionModel::Stop by {
            if k > 0 {
                assert(r.actions[k] == t.actions[k - 1]);
            }
        }
    }
}

/// Once the folder is cleared, a manifest with an entry that could leave the
/// mod folder (such as `../../evil`) ends the session with
/// `UnsafeManifestEntry` as its only event, whatever the caller hands on
/// afterwards, and no file is ever stored.
#[verifier::spinoff_prover]
pub proof fn lemma_unsafe_manifest(
    base: Seq<char>,
    dir: Seq<char>,
    body: Seq<char>,
    inputs: Seq<(Result<Seq<char>, Seq<char>>, bool)>,
)
    requires
        inputs.len() >= 2,
        inputs[0].0 is Ok,
        inputs[1].0 == Ok::<Seq<char>, Seq<char>>(body),
        body != pack_absent_sentinel(),
        exists|i: int| 0 <= i < manifest_entries(body).len()
            && !crate::manifest::is_safe_entry(#[trigger] manifest_entries(body)[i]),
    ensures
        ({
            let r = run(start_model(base, dir), inputs);
            let es = manifest_entries(body);
            &&& r.session.phase is Done
            &&& r.events == seq![EventModel::Failed(FailureModel::UnsafeManifestEntry(es[first_unsafe(es)->0]))]
            &&& forall|k: int| 0 <= k < r.actions.len() ==> !(#[trigger] r.actions[k] is Store)
        }),
{
    let s0 = start_model(base, dir);
    let es = manifest_entries(body);
    let st1 = next(s0, inputs[0].0, inputs[0].1);
    assert(st1.session == with_phase(s0, SyncPhase::FetchingMetadata));
    assert(st1.events == Seq::<EventModel>::empty());
    let in1 = inputs.drop_first();
    assert(in1[0] == inputs[1]);
    let st2 = next(st1.session, in1[0].0, in1[0].1);
    assert(first_unsafe(es) is Some);
    let f = FailureModel::UnsafeManifestEntry(es[first_unsafe(es)->0]);
    assert(st2 == fail_step(st1.session, f));
    let in2 = in1.drop_first();
    lemma_done_stays(st2.session, in2);
    let r = run(s0, inputs);
    let r1 = run(st1.session, in1);
    let r2 = run(st2.session, in2);
    assert(r1.events == st2.events + r2.events);
    assert(r1.actions == seq![st2.action] + r2.actions);
    assert(r.events == st1.events + r1.events);
    assert(r.actions == seq![st1.action] + r1.actions);
    assert(r.events =~= seq![EventModel::Failed(f)]);
    assert forall|k: int| 0 <= k < r.actions.len() implies !(#[trigger] r.actions[k] is Store) by {
        if k >= 2 {
            assert(r.actions[k] == r2.actions[k - 2]);
        } else if k == 1 {
            assert(r.actions[k] == st2.action);
        } else {
            assert(r.actions[k] == st1.action);
        }
    }
}

/// A manifest with no entries (an empty body, or blank lines only) ends a
/// successful session with `Finished` as its only event and the cleared mod
/// folder empty.
pub proof fn lemma_empty_manifest(base: Seq<char>, dir: Seq<char>, body: Seq<char>, disk: Set<Seq<char>>)
    requires
        body != pack_absent_sentinel(),
        manifest_entries(body).len() == 0,
    ensures
        ({
            let r = served(start_model(base, dir), body, disk, session_length(0));
            &&& r.session.phase is Done
            &&& r.events == seq![EventModel::Finished]
            &&& r.disk == Set::<Seq<char>>::empty()
        }),
{
    let es = manifest_entries(body);
    assert(!(exists|i: int| 0 <= i < es.len() && !crate::manifest::is_safe_entry(#[trigger] es[i])));
    lemma_successful_session(base, dir, body, disk);
    assert(es.to_set() =~= Set::<Seq<char>>::empty());
}

/// A manifest body that is exactly `PACK NOT FOUND` ends the session with
/// `RemotePackAbsent`, and with no other event.
pub proof fn lemma_pack_absent(s: SessionModel, cancel: bool)
    requires
        s.phase is FetchingMetadata,
    ensures
        next(s, Ok(pack_absent_sentinel()), cancel).events
            == seq![EventModel::Failed(FailureModel::RemotePackAbsent)],
        next(s, Ok(pack_absent_sentinel()), cancel).action == ActionModel::Stop,
{
}

/// The progress events of `ev` all count more than `floor` files done, out
/// of `n`, each more than the one before; every `Finished` directly follows
/// the progress of all `n` files; and the log lines' ids lie from `floor` up
/// to below `n`, each above the one before.
#[verifier::opaque]
pub open spec fn progress_after(ev: Seq<EventModel>, floor: nat, n: nat) -> bool {
    &&& forall|k: int| 0 <= k < ev.len() && #[trigger] ev[k] is Progress ==>
        floor < ev[k]->Progress_0 <= n && ev[k]->Progress_1 == n
    &&& forall|j: int, k: int| 0 <= j < k < ev.len() && #[trigger] ev[j] is Progress
        && #[trigger] ev[k] is Progress ==> ev[j]->Progress_0 < ev[k]->Progress_0
    &&& forall|k: int| 0 <= k < ev.len() && #[trigger] ev[k] is Finished ==>
        0 < k && ev[k - 1] == EventModel::Progress(n, n)
    &&& forall|k: int| 0 <= k < ev.len() && #[trigger] ev[k] is LogLine ==>
        floor <= ev[k]->LogLine_1 < n
    &&& forall|j: int, k: int| 0 <= j < k < ev.len() && #[trigger] ev[j] is LogLine
        && #[trigger] ev[k] is LogLine ==> ev[j]->LogLine_1 < ev[k]->LogLine_1
}

proof fn lemma_progress_single(e: EventModel, floor: nat, n: nat)
    requires
        e is Failed,
    ensures
        progress_after(seq![e], floor, n),
{
    reveal(progress_after);
}

proof fn lemma_progress_end(head: Seq<EventModel>, last: EventModel, i: nat, n: nat)
    requires
        i < n,
        head.len() == 2,
        head[0] is LogLine && head[0]->LogLine_1 == i,
        head[1] == EventModel::Progress(i + 1, n),
        last is Finished ==> i + 1 == n,
        last is Finished || last is Failed,
    ensures
        progress_after(head.push(last), i, n),
{
    reveal(progress_after);
    let ev = head.push(last);
    assert(ev[0] == head[0]);
    assert(ev[1] == head[1]);
    assert(ev[2] == last);
}

proof fn lemma_progress_prepend(head: Seq<EventModel>, r: Seq<EventModel>, i: nat, n: nat)
    requires
        i < n,
        head.len() == 2,
        head[0] is LogLine && head[0]->LogLine_1 == i,
        head[1] == EventModel::Progress(i + 1, n),
        progress_after(r, i + 1, n),
    ensures
        progress_after(head + r, i, n),
{
    reveal(progress_after);
    let ev = head + r;
    assert forall|k: int| 0 <= k < ev.len() && #[trigger] ev[k] is Progress implies
        i < ev[k]->Progress_0 <= n && ev[k]->Progress_1 == n by {
        if k >= 2 {
            assert(ev[k] == r[k - 2]);
        }
    }
    assert forall|j: int, k: int| 0 <= j < k < ev.len() && #[trigger] ev[j] is Progress
        && #[trigger] ev[k] is Progress implies ev[j]->Progress_0 < ev[k]->Progress_0 by {
        assert(ev[k] == r[k - 2]);
        if j >= 2 {
            assert(ev[j] == r[j - 2]);
        }
    }
    assert forall|k: int| 0 <= k < ev.len() && #[trigger] ev[k] is LogLine implies
        i <= ev[k]->LogLine_1 < n by {
        if k >= 2 {
            assert(ev[k] == r[k - 2]);
        }
    }
    assert forall|j: int, k: int| 0 <= j < k < ev.len() && #[trigger] ev[j] is LogLine
        && #[trigger] ev[k] is LogLine implies ev[j]->LogLine_1 < ev[k]->LogLine_1 by {
        assert(ev[k] == r[k - 2]);
        if j >= 2 {
            assert(ev[j] == r[j - 2]);
        }
    }
    assert forall|k: int| 0 <= k < ev.len() && #[trigger] ev[k] is Finished implies
        0 < k && ev[k - 1] == EventModel::Progress(n, n) by {
        assert(ev[k] == r[k - 2]);
        assert(ev[k - 1] == r[k - 3]);
    }
}

#[verifier::spinoff_prover]
proof fn lemma_progress_from_entry(s: SessionModel, inputs: Seq<(Result<Seq<char>, Seq<char>>, bool)>)
    requires
        s.files.len() <= usize::MAX,
        s.phase is Fetching || s.phase is Storing,
        s.phase is Fetching ==> s.phase->Fetching_0 < s.files.len(),
        s.phase is Storing ==> s.phase->Storing_0 < s.files.len(),
    ensures
        progress_after(run(s, inputs).events,
            (if s.phase is Fetching { s.phase->Fetching_0 } else { s.phase->Storing_0 }) as nat,
            s.files.len()),
    decreases inputs.len(),
{
    let n = s.files.len();
    if inputs.len() == 0 {
        reveal(progress_after);
        return;
    }
    let st = next(s, inputs[0].0, inputs[0].1);
    let rest_in = inputs.drop_first();
    let rest = run(st.session, rest_in);
    let ev = run(s, inputs).events;
    assert(ev == st.events + rest.events);
    match s.phase {
        SyncPhase::Fetching(i) => {
            match inputs[0].0 {
                Err(m) => {
                    assert(st == fail_step(s, FailureModel::NetworkError(m)));
                    lemma_done_stays(st.session, rest_in);
                    assert(ev =~= seq![EventModel::Failed(FailureModel::NetworkError(m))]);
                    lemma_progress_single(EventModel::Failed(FailureModel::NetworkError(m)), i as nat, n);
                },
                Ok(_) => {
                    assert(st.session == with_phase(s, SyncPhase::Storing(i)));
                    assert(st.events =~= seq![]);
                    lemma_progress_from_entry(st.session, rest_in);
                    assert(ev =~= rest.events);
                },
            }
        },
        SyncPhase::Storing(i) => {
            match inputs[0].0 {
                Err(m) => {
                    assert(st == fail_step(s, FailureModel::FilesystemError(m)));
                    lemma_done_stays(st.session, rest_in);
                    assert(ev =~= seq![EventModel::Failed(FailureModel::FilesystemError(m))]);
                    lemma_progress_single(EventModel::Failed(FailureModel::FilesystemError(m)), i as nat, n);
                },
                Ok(_) => {
                    assert(st == on_stored(s, i as nat, inputs[0].1));
                    let head = stored_events(s.files, i as nat);
                    if i + 1 == n {
                        lemma_done_stays(st.session, rest_in);
                        assert(ev =~= head.push(EventModel::Finished));
                        lemma_progress_end(head, EventModel::Finished, i as nat, n);
                    } else if inputs[0].1 {
                        lemma_done_stays(st.session, rest_in);
                        assert(ev =~= head.push(EventModel::Failed(FailureModel::Cancelled)));
                        lemma_progress_end(head, EventModel::Failed(FailureModel::Cancelled), i as nat, n);
                    } else {
                        assert(st.session == with_phase(s, SyncPhase::Fetching((i + 1) as usize)));
                        lemma_progress_from_entry(st.session, rest_in);
                        assert(ev =~= head + rest.events);
                        lemma_progress_prepend(head, rest.events, i as nat, n);
                    }
                },
            }
        },
        _ => {},
    }
}

/// Whatever the caller hands a session, its progress never goes back: all
/// its progress events are out of the same number of files, each counts
/// more files done than the one before, and `Finished` comes either first
/// (for a manifest with no entries) or right after the progress of all the
/// files out of all, that is at a fraction of one. Its log lines' ids rise
/// strictly, so a consumer can tell a gap or a repeat.
pub proof fn lemma_progress_monotone(base: Seq<char>, dir: Seq<char>, inputs: Seq<(Result<Seq<char>, Seq<char>>, bool)>)
    requires
        inputs.len() >= 2 && inputs[1].0 is Ok ==> manifest_entries(inputs[1].0->Ok_0).len() <= usize::MAX,
    ensures
        ({
            let ev = run(start_model(base, dir), inputs).events;
            &&& forall|j: int, k: int| 0 <= j < k < ev.len()
                && #[trigger] ev[j] is Progress && #[trigger] ev[k] is Progress ==> {
                &&& ev[j]->Progress_0 < ev[k]->Progress_0
                &&& ev[j]->Progress_1 == ev[k]->Progress_1
            }
            &&& forall|k: int| 0 <= k < ev.len() && #[trigger] ev[k] is Finished ==> k == 0 || {
                &&& ev[k - 1] is Progress
                &&& 0 < ev[k - 1]->Progress_0 == ev[k - 1]->Progress_1
            }
            &&& forall|j: int, k: int| 0 <= j < k < ev.len()
                && #[trigger] ev[j] is LogLine && #[trigger] ev[k] is LogLine ==>
                ev[j]->LogLine_1 < ev[k]->LogLine_1
        }),
{
    let s0 = start_model(base, dir);
    let ev = run(s0, inputs).events;
    if inputs.len() == 0 {
        return;
    }
    let st1 = next(s0, inputs[0].0, inputs[0].1);
    let in1 = inputs.drop_first();
    let r1 = run(st1.session, in1);
    assert(ev == st1.events + r1.events);
    if inputs[0].0 is Err {
        lemma_done_stays(st1.session, in1);
        assert(ev =~= st1.events);
        return;
    }
    assert(st1.events =~= seq![]);
    assert(ev =~= r1.events);
    if in1.len() == 0 {
        return;
    }
    let s1 = st1.session;
    let st2 = next(s1, in1[0].0, in1[0].1);
    let in2 = in1.drop_first();
    let r2 = run(st2.session, in2);
    assert(r1.events == st2.events + r2.events);
    assert(in1[0] == inputs[1]);
    if st2.session.phase is Done {
        lemma_done_stays(st2.session, in2);
        assert(ev =~= st2.events);
    } else {
        assert(st2.session.phase == SyncPhase::Fetching(0));
        assert(st2.events =~= seq![]);
        lemma_progress_from_entry(st2.session, in2);
        reveal(progress_after);
        assert(ev =~= r2.events);
        let n = st2.session.files.len();
        assert forall|k: int| 0 <= k < ev.len() && #[trigger] ev[k] is Finished implies k == 0 || {
            &&& ev[k - 1] is Progress
            &&& 0 < ev[k - 1]->Progress_0 == ev[k - 1]->Progress_1
        } by {
            assert(ev[k - 1] == EventModel::Progress(n, n));
            assert(ev[k - 1] is Progress);
        }
    }
}

} // verus!
