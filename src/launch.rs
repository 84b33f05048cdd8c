//! What a launch attempt needs: its settings, and the staged checks that the
//! game, the loader folder and the loader's jar are installed.
use vstd::prelude::*;
use crate::modpack::Modpack;
use crate::log::{error, info, lemma_one_line, lemma_two_lines, log_line, log_lines, warn, LogLevel};
use crate::text::{join, joined, push_str};

verus! {

/// What the user asked for when starting a launch attempt. It is made once
/// per attempt and not changed afterwards.
#[derive(Debug, Clone)]
pub struct LaunchSettings {
    pub forge_version: String,
    pub minecraft_version: String,
    pub modpack: Modpack,
    pub is_cracked: bool,
    pub auth_username: String,
    pub auth_password: String,
    pub host_ip: String,
    pub host_port: i32,
}

impl LaunchSettings {
    pub fn new(
        minecraft_version: String,
        forge_version: String,
        modpack: Modpack,
        host_ip: String,
        host_port: i32,
    ) -> (r: LaunchSettings)
        ensures
            r.minecraft_version@ == minecraft_version@,
            r.forge_version@ == forge_version@,
            r.modpack == modpack,
            r.host_ip@ == host_ip@,
            r.host_port == host_port,
            !r.is_cracked,
            r.auth_username@.len() == 0,
            r.auth_password@.len() == 0,
    {
        LaunchSettings {
            forge_version,
            minecraft_version,
            modpack,
            is_cracked: false,
            auth_username: String::new(),
            auth_password: String::new(),
            host_ip,
            host_port,
        }
    }
}

/// Why a launch attempt was given up.
#[derive(Debug, Clone, Copy, PartialEq, Eq, Structural)]
pub enum LaunchAbortReason {
    MinecraftMissing,
    FMLMissing,
    FMLMalformed,
    NoArgumentsFound,
    NetworkError,
    RuntimeException,
}

/// The name of an abort reason.
pub open spec fn abort_reason_text(r: LaunchAbortReason) -> Seq<char> {
    match r {
        LaunchAbortReason::MinecraftMissing => "MinecraftMissing"@,
        LaunchAbortReason::FMLMissing => "FMLMissing"@,
        LaunchAbortReason::FMLMalformed => "FMLMalformed"@,
        LaunchAbortReason::NoArgumentsFound => "NoArgumentsFound"@,
        LaunchAbortReason::NetworkError => "NetworkError"@,
        LaunchAbortReason::RuntimeException => "RuntimeException"@,
    }
}

impl LaunchAbortReason {
    pub fn as_str(&self) -> (r: &'static str)
        ensures
            r@ == abort_reason_text(*self),
    {
        match self {
            LaunchAbortReason::MinecraftMissing => "MinecraftMissing",
            LaunchAbortReason::FMLMissing => "FMLMissing",
            LaunchAbortReason::FMLMalformed => "FMLMalformed",
            LaunchAbortReason::NoArgumentsFound => "NoArgumentsFound",
            LaunchAbortReason::NetworkError => "NetworkError",
            LaunchAbortReason::RuntimeException => "RuntimeException",
        }
    }
}

/// Which stage of the installation checks failed.
#[derive(Debug, Clone, Copy, PartialEq, Eq, Structural)]
pub enum VerificationFailure {
    /// The game's data folder is not there.
    BaseGameMissing,
    /// The loader's version folder is not there.
    LoaderMissing,
    /// The loader's jar is not in its folder.
    LoaderArtifactMissing,
}

/// The abort reason a failed check is reported under.
pub open spec fn failure_reason(f: VerificationFailure) -> LaunchAbortReason {
    match f {
        VerificationFailure::BaseGameMissing => LaunchAbortReason::MinecraftMissing,
        VerificationFailure::LoaderMissing => LaunchAbortReason::FMLMissing,
        VerificationFailure::LoaderArtifactMissing => LaunchAbortReason::FMLMalformed,
    }
}

/// The message shown to the user for a failed check.
pub open spec fn failure_message(f: VerificationFailure) -> Seq<char> {
    match f {
        VerificationFailure::BaseGameMissing => "Minecraft is not installed!"@,
        VerificationFailure::LoaderMissing => "FML is not installed!"@,
        VerificationFailure::LoaderArtifactMissing => "You need to launch minecraft to install forge"@,
    }
}

impl VerificationFailure {
    pub fn abort_reason(&self) -> (r: LaunchAbortReason)
        ensures
            r == failure_reason(*self),
    {
        match self {
            VerificationFailure::BaseGameMissing => LaunchAbortReason::MinecraftMissing,
            VerificationFailure::LoaderMissing => LaunchAbortReason::FMLMissing,
            VerificationFailure::LoaderArtifactMissing => LaunchAbortReason::FMLMalformed,
        }
    }

    pub fn message(&self) -> (r: &'static str)
        ensures
            r@ == failure_message(*self),
    {
        match self {
            VerificationFailure::BaseGameMissing => "Minecraft is not installed!",
            VerificationFailure::LoaderMissing => "FML is not installed!",
            VerificationFailure::LoaderArtifactMissing => "You need to launch minecraft to install forge",
        }
    }
}

/// `{minecraft_version}-forge-{forge_version}`: the loader's version name.
pub open spec fn loader_handle_of(mc: Seq<char>, forge: Seq<char>) -> Seq<char> {
    mc + "-forge-"@ + forge
}

/// The game's data folder inside the user's configuration folder.
pub open spec fn minecraft_dir_in(config: Seq<char>) -> Seq<char> {
    joined(config, ".minecraft"@)
}

/// The loader's version folder inside the game's data folder.
pub open spec fn fml_dir_in(minecraft: Seq<char>, handle: Seq<char>) -> Seq<char> {
    joined(joined(minecraft, "versions"@), handle)
}

/// The file name of the loader's jar.
pub open spec fn fml_jar_of(handle: Seq<char>) -> Seq<char> {
    handle + ".jar"@
}

/// The loader's version name for these settings.
pub fn loader_handle(settings: &LaunchSettings) -> (r: String)
    ensures
        r@ == loader_handle_of(settings.minecraft_version@, settings.forge_version@),
{
    let mut r = String::new();
    push_str(&mut r, settings.minecraft_version.as_str());
    push_str(&mut r, "-forge-");
    push_str(&mut r, settings.forge_version.as_str());
    assert(r@ =~= loader_handle_of(settings.minecraft_version@, settings.forge_version@));
    r
}

/// The game's data folder inside the configuration folder `config_dir`.
pub fn minecraft_path_in(config_dir: &str) -> (r: String)
    ensures
        r@ == minecraft_dir_in(config_dir@),
{
    join(config_dir, ".minecraft")
}

/// The loader's version folder, inside the game's data folder.
pub fn fml_folder_path(minecraft_path: &str, settings: &LaunchSettings) -> (r: String)
    ensures
        r@ == fml_dir_in(minecraft_path@, loader_handle_of(settings.minecraft_version@, settings.forge_version@)),
{
    let versions = join(minecraft_path, "versions");
    let handle = loader_handle(settings);
    join(versions.as_str(), handle.as_str())
}

/// The file name of the loader's jar for these settings.
pub fn fml_jar_name(settings: &LaunchSettings) -> (r: String)
    ensures
        r@ == fml_jar_of(loader_handle_of(settings.minecraft_version@, settings.forge_version@)),
{
    let mut r = loader_handle(settings);
    push_str(&mut r, ".jar");
    r
}

/// The first check: the game's data folder inside the user's configuration
/// folder `config_dir` (`None` where none is known), found or not (whether
/// it exists on disk is `folder_exists`). On success, the folder's path.
pub fn verify_minecraft_install(config_dir: Option<&str>, folder_exists: bool) -> (r: Result<String, ()>)
    ensures
        config_dir is Some && folder_exists ==> (r matches Ok(p) && p@ == minecraft_dir_in(config_dir->0@)),
        config_dir is None || !folder_exists ==> r is Err,
{
    match config_dir {
        Some(c) => if folder_exists {
            Ok(minecraft_path_in(c))
        } else {
            Err(())
        },
        None => Err(()),
    }
}

/// The second check: the loader's version folder, found or not (whether it
/// exists on disk is `folder_exists`). On success, the folder's path.
pub fn verify_fml_folder(minecraft_path: &str, launch_settings: &LaunchSettings, folder_exists: bool) -> (r: Result<String, ()>)
    ensures
        folder_exists ==> (r matches Ok(p) && p@ == fml_dir_in(minecraft_path@,
            loader_handle_of(launch_settings.minecraft_version@, launch_settings.forge_version@))),
        !folder_exists ==> r is Err,
{
    if folder_exists {
        Ok(fml_folder_path(minecraft_path, launch_settings))
    } else {
        Err(())
    }
}

/// The third check: the loader's jar inside its folder, found or not
/// (whether `{fml_path}/{jar}` exists is `jar_exists`). On success, the
/// jar's file name.
pub fn verify_fml_installed_correctly(fml_path: &str, launch_settings: &LaunchSettings, jar_exists: bool) -> (r: Result<String, ()>)
    ensures
        jar_exists ==> (r matches Ok(j) && j@ == fml_jar_of(
            loader_handle_of(launch_settings.minecraft_version@, launch_settings.forge_version@))),
        !jar_exists ==> r is Err,
{
    if jar_exists {
        Ok(fml_jar_name(launch_settings))
    } else {
        Err(())
    }
}

/// Where the game, its loader and the loader's jar were found. Made only
/// once every check has passed.
#[derive(Debug, Clone)]
pub struct InstallationPaths {
    pub minecraft_path: String,
    pub fml_path: String,
    pub fml_jar: String,
}

/// `InstallationPaths` as character sequences.
pub struct PathsModel {
    pub minecraft_path: Seq<char>,
    pub fml_path: Seq<char>,
    pub fml_jar: Seq<char>,
}

impl View for InstallationPaths {
    type V = PathsModel;

    open spec fn view(&self) -> PathsModel {
        PathsModel { minecraft_path: self.minecraft_path@, fml_path: self.fml_path@, fml_jar: self.fml_jar@ }
    }
}

/// The outcome of the three checks against the set `fs` of paths that
/// exist, with the paths probed, in order. Each check runs only when the one
/// before it passed; none writes anything.
pub open spec fn verification_outcome(config: Option<Seq<char>>, handle: Seq<char>, fs: Set<Seq<char>>)
    -> (Result<PathsModel, VerificationFailure>, Seq<Seq<char>>)
{
    match config {
        None => (Err(VerificationFailure::BaseGameMissing), seq![]),
        Some(c) => {
            let mc = minecraft_dir_in(c);
            let fml = fml_dir_in(mc, handle);
            let jar = fml_jar_of(handle);
            let jar_path = joined(fml, jar);
            if !fs.contains(mc) {
                (Err(VerificationFailure::BaseGameMissing), seq![mc])
            } else if !fs.contains(fml) {
                (Err(VerificationFailure::LoaderMissing), seq![mc, fml])
            } else if !fs.contains(jar_path) {
                (Err(VerificationFailure::LoaderArtifactMissing), seq![mc, fml, jar_path])
            } else {
                (Ok(PathsModel { minecraft_path: mc, fml_path: fml, fml_jar: jar }), seq![mc, fml, jar_path])
            }
        },
    }
}

/// Where the staged checks stand: which check's probe they wait on.
#[derive(Debug, Clone, Copy, PartialEq, Eq, Structural)]
pub enum CheckStage {
    BaseGame,
    LoaderFolder,
    LoaderArtifact,
    Done,
}

/// What the checks ask of their caller next, or how they ended.
#[derive(Debug, Clone)]
pub enum CheckStep {
    /// Report whether this path exists.
    Probe(String),
    /// Every check passed.
    Passed(InstallationPaths),
    /// A check failed; no later check was made.
    Failed(VerificationFailure),
}

/// `CheckStep` as character sequences.
pub enum CheckStepModel {
    Probe(Seq<char>),
    Passed(PathsModel),
    Failed(VerificationFailure),
}

impl View for CheckStep {
    type V = CheckStepModel;

    open spec fn view(&self) -> CheckStepModel {
        match self {
            CheckStep::Probe(p) => CheckStepModel::Probe(p@),
            CheckStep::Passed(p) => CheckStepModel::Passed(p@),
            CheckStep::Failed(f) => CheckStepModel::Failed(*f),
        }
    }
}

/// The three installation checks of one launch attempt: the game's data
/// folder, then the loader's version folder, then the loader's jar. The
/// caller answers each probe with whether the path exists.
#[derive(Debug)]
pub struct LaunchChecks {
    handle: String,
    stage: CheckStage,
    minecraft_path: String,
    fml_path: String,
}

/// The state of the checks.
pub struct ChecksModel {
    pub handle: Seq<char>,
    pub stage: CheckStage,
    pub minecraft_path: Seq<char>,
    pub fml_path: Seq<char>,
}

impl View for LaunchChecks {
    type V = ChecksModel;

    closed spec fn view(&self) -> ChecksModel {
        ChecksModel {
            handle: self.handle@,
            stage: self.stage,
            minecraft_path: self.minecraft_path@,
            fml_path: self.fml_path@,
        }
    }
}

/// The checks as they begin, given the user's configuration folder if one
/// is known, and their first step.
pub open spec fn begin_model(config: Option<Seq<char>>, handle: Seq<char>) -> (ChecksModel, CheckStepModel) {
    match config {
        None => (
            ChecksModel { handle, stage: CheckStage::Done, minecraft_path: seq![], fml_path: seq![] },
            CheckStepModel::Failed(VerificationFailure::BaseGameMissing),
        ),
        Some(c) => (
            ChecksModel { handle, stage: CheckStage::BaseGame, minecraft_path: minecraft_dir_in(c), fml_path: seq![] },
            CheckStepModel::Probe(minecraft_dir_in(c)),
        ),
    }
}

/// The checks' answer to whether the path they probed exists.
pub open spec fn check_next(c: ChecksModel, exists: bool) -> (ChecksModel, CheckStepModel) {
    let done = ChecksModel { stage: CheckStage::Done, ..c };
    match c.stage {
        CheckStage::BaseGame => if exists {
            let fml = fml_dir_in(c.minecraft_path, c.handle);
            (ChecksModel { stage: CheckStage::LoaderFolder, fml_path: fml, ..c }, CheckStepModel::Probe(fml))
        } else {
            (done, CheckStepModel::Failed(VerificationFailure::BaseGameMissing))
        },
        CheckStage::LoaderFolder => if exists {
            (ChecksModel { stage: CheckStage::LoaderArtifact, ..c },
             CheckStepModel::Probe(joined(c.fml_path, fml_jar_of(c.handle))))
        } else {
            (done, CheckStepModel::Failed(VerificationFailure::LoaderMissing))
        },
        CheckStage::LoaderArtifact => if exists {
            (done, CheckStepModel::Passed(PathsModel {
                minecraft_path: c.minecraft_path,
                fml_path: c.fml_path,
                fml_jar: fml_jar_of(c.handle),
            }))
        } else {
            (done, CheckStepModel::Failed(VerificationFailure::LoaderArtifactMissing))
        },
        // Not reached: the checks take no answer once they are over.
        CheckStage::Done => (c, CheckStepModel::Failed(VerificationFailure::BaseGameMissing)),
    }
}

/// What is logged when a check fails: its message as an error, then the
/// abort as a warning.
pub open spec fn failure_log(f: VerificationFailure) -> Seq<(LogLevel, Seq<char>)> {
    seq![
        (LogLevel::Error, failure_message(f)),
        (LogLevel::Warn, "Launch aborted - "@ + abort_reason_text(failure_reason(f))),
    ]
}

/// What is logged when the checks in state `c` learn whether their probe
/// exists: the path found, or the failure.
pub open spec fn check_log(c: ChecksModel, exists: bool) -> Seq<(LogLevel, Seq<char>)> {
    match c.stage {
        CheckStage::BaseGame => if exists {
            seq![(LogLevel::Info, "Detected Minecraft @ "@ + c.minecraft_path)]
        } else {
            failure_log(VerificationFailure::BaseGameMissing)
        },
        CheckStage::LoaderFolder => if exists {
            seq![(LogLevel::Info, "Detected FML @ "@ + c.fml_path)]
        } else {
            failure_log(VerificationFailure::LoaderMissing)
        },
        CheckStage::LoaderArtifact => if exists {
            seq![
                (LogLevel::Info, "Forge is installed correctly ("@ + fml_jar_of(c.handle) + ")"@),
                (LogLevel::Info, "Launch checks passed successfully"@),
            ]
        } else {
            failure_log(VerificationFailure::LoaderArtifactMissing)
        },
        CheckStage::Done => seq![],
    }
}

/// Logs a failed check to `console`: its message as an error, then the
/// abort as a warning.
pub fn report_failure(f: VerificationFailure, console: &mut String)
    ensures
        exists|ts: Seq<Seq<char>>| ts.len() == 2
            && final(console)@ == old(console)@ + log_lines(ts, failure_log(f)),
{
    let ghost start = console@;
    error(f.message(), console);
    let ghost t1 = choose|t: Seq<char>| console@ == start + log_line(t, LogLevel::Error, failure_message(f));
    let ghost mid = console@;
    let mut line = String::new();
    push_str(&mut line, "Launch aborted - ");
    push_str(&mut line, f.abort_reason().as_str());
    warn(line.as_str(), console);
    let ghost t2 = choose|t: Seq<char>| console@ == mid + log_line(t, LogLevel::Warn, line@);
    proof {
        let m = failure_log(f);
        assert(m =~= seq![m[0], m[1]]);
        lemma_two_lines(t1, t2, m[0], m[1]);
        assert(console@ =~= start + log_lines(seq![t1, t2], m));
        assert(seq![t1, t2].len() == 2);
    }
}

/// Relies on `directories::BaseDirs`: the user's configuration folder by the
/// platform's conventions, when the user's home folder can be found. What it
/// is depends on the machine and the user, so nothing is promised of it.
#[verifier::external_body]
fn config_dir() -> (r: Option<String>)
{
    match directories::BaseDirs::new() {
        Some(dirs) => Some(dirs.config_dir().to_string_lossy().into_owned()),
        None => None,
    }
}

impl LaunchChecks {
    /// Whether the checks are over.
    pub fn is_done(&self) -> (r: bool)
        ensures
            r == (self@.stage is Done),
    {
        match self.stage {
            CheckStage::Done => true,
            _ => false,
        }
    }

    /// The checks for `settings`, given the user's configuration folder if
    /// one is known, and their first step: without a configuration folder
    /// the game counts as missing.
    pub fn begin_at(settings: &LaunchSettings, config_dir: Option<String>) -> (r: (LaunchChecks, CheckStep))
        ensures
            (r.0@, r.1@) == begin_model(
                match config_dir { Some(c) => Some(c@), None => None },
                loader_handle_of(settings.minecraft_version@, settings.forge_version@),
            ),
    {
        let handle = loader_handle(settings);
        match config_dir {
            None => {
                let checks = LaunchChecks {
                    handle,
                    stage: CheckStage::Done,
                    minecraft_path: String::new(),
                    fml_path: String::new(),
                };
                (checks, CheckStep::Failed(VerificationFailure::BaseGameMissing))
            },
            Some(c) => {
                let mc = minecraft_path_in(c.as_str());
                let probe = mc.clone();
                let checks = LaunchChecks {
                    handle,
                    stage: CheckStage::BaseGame,
                    minecraft_path: mc,
                    fml_path: String::new(),
                };
                (checks, CheckStep::Probe(probe))
            },
        }
    }

    /// The checks for `settings` in the current user's configuration folder,
    /// and their first step.
    pub fn start(settings: &LaunchSettings) -> (r: (LaunchChecks, CheckStep))
        ensures
            exists|config: Option<Seq<char>>| (r.0@, r.1@) == begin_model(
                config,
                loader_handle_of(settings.minecraft_version@, settings.forge_version@),
            ),
    {
        let dir = config_dir();
        LaunchChecks::begin_at(settings, dir)
    }

    /// Hands the checks whether the path they probed exists, and logs to
    /// `console` what was found or which check failed.
    pub fn advance_logged(&mut self, exists: bool, console: &mut String) -> (r: CheckStep)
        requires
            !(old(self)@.stage is Done),
        ensures
            (final(self)@, r@) == check_next(old(self)@, exists),
            exists|ts: Seq<Seq<char>>| ts.len() == check_log(old(self)@, exists).len()
                && final(console)@ == old(console)@ + log_lines(ts, check_log(old(self)@, exists)),
    {
        let ghost start = console@;
        let ghost c = self@;
        let mut line = String::new();
        match self.stage {
            CheckStage::BaseGame => {
                push_str(&mut line, "Detected Minecraft @ ");
                push_str(&mut line, self.minecraft_path.as_str());
            },
            CheckStage::LoaderFolder => {
                push_str(&mut line, "Detected FML @ ");
                push_str(&mut line, self.fml_path.as_str());
            },
            _ => {
                push_str(&mut line, "Forge is installed correctly (");
                push_str(&mut line, self.handle.as_str());
                push_str(&mut line, ".jar");
                push_str(&mut line, ")");
            },
        }
        let step = self.advance(exists);
        match &step {
            CheckStep::Failed(f) => {
                report_failure(*f, console);
                assert(check_log(c, exists) == failure_log(*f));
            },
            CheckStep::Probe(_) => {
                info(line.as_str(), console);
                proof {
                    let t = choose|t: Seq<char>| console@ == start + log_line(t, LogLevel::Info, line@);
                    let m = check_log(c, exists);
                    assert(line@ =~= m[0].1);
                    assert(m =~= seq![m[0]]);
                    lemma_one_line(t, m[0]);
                    assert(console@ =~= start + log_lines(seq![t], m));
                    assert(seq![t].len() == m.len());
                }
            },
            CheckStep::Passed(_) => {
                info(line.as_str(), console);
                let ghost t1 = choose|t: Seq<char>| console@ == start + log_line(t, LogLevel::Info, line@);
                let ghost mid = console@;
                info("Launch checks passed successfully", console);
                proof {
                    let t2 = choose|t: Seq<char>| console@ == mid + log_line(t, LogLevel::Info, "Launch checks passed successfully"@);
                    let m = check_log(c, exists);
                    assert(line@ =~= m[0].1);
                    assert(m =~= seq![m[0], m[1]]);
                    lemma_two_lines(t1, t2, m[0], m[1]);
                    assert(console@ =~= start + log_lines(seq![t1, t2], m));
                    assert(seq![t1, t2].len() == m.len());
                }
            },
        }
        step
    }

    /// Hands the checks whether the path they probed exists.
    pub fn advance(&mut self, exists: bool) -> (r: CheckStep)
        requires
            !(old(self)@.stage is Done),
        ensures
            (final(self)@, r@) == check_next(old(self)@, exists),
    {
        match self.stage {
            CheckStage::BaseGame => {
                if exists {
                    let fml = join(join(self.minecraft_path.as_str(), "versions").as_str(), self.handle.as_str());
                    let probe = fml.clone();
                    self.fml_path = fml;
                    self.stage = CheckStage::LoaderFolder;
                    CheckStep::Probe(probe)
                } else {
                    self.stage = CheckStage::Done;
                    CheckStep::Failed(VerificationFailure::BaseGameMissing)
                }
            },
            CheckStage::LoaderFolder => {
                if exists {
                    let mut jar = self.handle.clone();
                    push_str(&mut jar, ".jar");
                    self.stage = CheckStage::LoaderArtifact;
                    CheckStep::Probe(join(self.fml_path.as_str(), jar.as_str()))
                } else {
                    self.stage = CheckStage::Done;
                    CheckStep::Failed(VerificationFailure::LoaderMissing)
                }
            },
            _ => {
                self.stage = CheckStage::Done;
                if exists {
                    let mut jar = self.handle.clone();
                    push_str(&mut jar, ".jar");
                    CheckStep::Passed(InstallationPaths {
                        minecraft_path: self.minecraft_path.clone(),
                        fml_path: self.fml_path.clone(),
                        fml_jar: jar,
                    })
                } else {
                    CheckStep::Failed(VerificationFailure::LoaderArtifactMissing)
                }
            },
        }
    }
}

/// The checks from state `c` and step `step` on, each probe answered from
/// the set `fs` of paths that exist, for at most `fuel` probes: how they end
/// (`None` if they have not) and the paths probed, in order.
pub open spec fn drive(c: ChecksModel, step: CheckStepModel, fs: Set<Seq<char>>, fuel: nat)
    -> (Option<Result<PathsModel, VerificationFailure>>, Seq<Seq<char>>)
    decreases fuel,
{
    match step {
        CheckStepModel::Passed(p) => (Some(Ok(p)), seq![]),
        CheckStepModel::Failed(f) => (Some(Err(f)), seq![]),
        CheckStepModel::Probe(path) => if fuel == 0 {
            (None, seq![])
        } else {
            let (c2, s2) = check_next(c, fs.contains(path));
            let r = drive(c2, s2, fs, (fuel - 1) as nat);
            (r.0, seq![path] + r.1)
        },
    }
}

/// Run against a file system `fs`, the checks end within three probes, with
/// the outcome and the probes of `verification_outcome`: the game's folder
/// is probed first, the loader's folder only if the game's was found, and
/// the loader's jar only if both were.
pub proof fn lemma_checks_outcome(config: Option<Seq<char>>, handle: Seq<char>, fs: Set<Seq<char>>)
    ensures
        ({
            let b = begin_model(config, handle);
            let d = drive(b.0, b.1, fs, 3);
            let v = verification_outcome(config, handle, fs);
            &&& d.0 == Some(v.0)
            &&& d.1 == v.1
        }),
{
    let b = begin_model(config, handle);
    let v = verification_outcome(config, handle, fs);
    let d3 = drive(b.0, b.1, fs, 3);
    match config {
        None => {
            assert(d3.1 =~= v.1);
        },
        Some(c) => {
            let mc = minecraft_dir_in(c);
            let n1 = check_next(b.0, fs.contains(mc));
            let d2 = drive(n1.0, n1.1, fs, 2);
            assert(d3.0 == d2.0 && d3.1 == seq![mc] + d2.1);
            if fs.contains(mc) {
                let fml = fml_dir_in(mc, handle);
                let n2 = check_next(n1.0, fs.contains(fml));
                let d1 = drive(n2.0, n2.1, fs, 1);
                assert(d2.0 == d1.0 && d2.1 == seq![fml] + d1.1);
                if fs.contains(fml) {
                    let jp = joined(fml, fml_jar_of(handle));
                    let n3 = check_next(n2.0, fs.contains(jp));
                    let d0 = drive(n3.0, n3.1, fs, 0);
                    assert(d1.0 == d0.0 && d1.1 == seq![jp] + d0.1);
                    assert(d0.1 =~= seq![]);
                    assert(d3.1 =~= seq![mc, fml, jp]);
                } else {
                    assert(d1.1 =~= seq![]);
                    assert(d3.1 =~= seq![mc, fml]);
                }
            } else {
                assert(d2.1 =~= seq![]);
                assert(d3.1 =~= seq![mc]);
            }
        },
    }
}

/// Repeating the checks on an unchanged file system gives the same outcome:
/// two file systems that agree on which of the probed paths exist give the
/// same outcome and the same probes.
pub proof fn lemma_checks_repeatable(
    config: Option<Seq<char>>,
    handle: Seq<char>,
    fs1: Set<Seq<char>>,
    fs2: Set<Seq<char>>,
)
    requires
        forall|p: Seq<char>| verification_outcome(config, handle, fs1).1.contains(p)
            ==> (fs1.contains(p) <==> fs2.contains(p)),
    ensures
        verification_outcome(config, handle, fs1) == verification_outcome(config, handle, fs2),
{
    match config {
        None => {},
        Some(c) => {
            let mc = minecraft_dir_in(c);
            let fml = fml_dir_in(mc, handle);
            let jp = joined(fml, fml_jar_of(handle));
            let probes = verification_outcome(config, handle, fs1).1;
            assert(probes[0] == mc);
            if fs1.contains(mc) {
                assert(probes[1] == fml);
                if fs1.contains(fml) {
                    assert(probes[2] == jp);
                }
            }
        },
    }
}

/// When the game's folder is missing the checks stop there: the loader's
/// folder and jar are never probed, and the outcome is `BaseGameMissing`.
pub proof fn lemma_checks_short_circuit(c: Seq<char>, handle: Seq<char>, fs: Set<Seq<char>>)
    requires
        !fs.contains(minecraft_dir_in(c)),
    ensures
        ({
            let b = begin_model(Some(c), handle);
            let d = drive(b.0, b.1, fs, 3);
            &&& d.0 == Some(Err::<PathsModel, VerificationFailure>(VerificationFailure::BaseGameMissing))
            &&& d.1 == seq![minecraft_dir_in(c)]
        }),
{
    lemma_checks_outcome(Some(c), handle, fs);
}

} // verus!
