use qmodmanager::classpath::{merge, resolve_library, split_name};
use qmodmanager::command::{build, join_with, replace_all, LaunchDirs};
use qmodmanager::descriptor::{ParseFailure, VersionDescriptor};
use qmodmanager::instance::{Instance, InstanceManager};
use qmodmanager::launch::{
    fml_folder_path, fml_jar_name, loader_handle, minecraft_path_in, verify_fml_folder,
    report_failure, verify_fml_installed_correctly, verify_minecraft_install, CheckStep, LaunchAbortReason, LaunchChecks, LaunchSettings,
    VerificationFailure,
};
use qmodmanager::log::{abort_launch, debug, error, format_line, format_message, info, warn, CallbackLog, LogLevel};
use qmodmanager::modpack::Modpack;

fn settings() -> LaunchSettings {
    LaunchSettings::new("1.20.1".to_string(), "47.3.10".to_string(), Modpack::ModTeam, "24.4.89.35".to_string(), 7878)
}

/// Runs the checks against a set of existing paths; returns the outcome and
/// the paths probed.
fn run_checks(config: Option<&str>, existing: &[&str]) -> (CheckStep, Vec<String>) {
    let (mut checks, mut step) = LaunchChecks::begin_at(&settings(), config.map(|c| c.to_string()));
    let mut probes = Vec::new();
    while let CheckStep::Probe(p) = &step {
        probes.push(p.clone());
        let exists = existing.contains(&p.as_str());
        step = checks.advance(exists);
    }
    assert!(checks.is_done());
    (step, probes)
}

const MC: &str = "/cfg/.minecraft";
const FML: &str = "/cfg/.minecraft/versions/1.20.1-forge-47.3.10";
const JAR: &str = "/cfg/.minecraft/versions/1.20.1-forge-47.3.10/1.20.1-forge-47.3.10.jar";

#[test]
fn loader_artifact_missing_is_reported_after_three_probes() {
    let (step, probes) = run_checks(Some("/cfg"), &[MC, FML]);
    assert!(matches!(step, CheckStep::Failed(VerificationFailure::LoaderArtifactMissing)));
    assert_eq!(probes, vec![MC.to_string(), FML.to_string(), JAR.to_string()]);
}

#[test]
fn missing_game_stops_after_the_first_probe() {
    let (step, probes) = run_checks(Some("/cfg"), &[FML, JAR]);
    assert!(matches!(step, CheckStep::Failed(VerificationFailure::BaseGameMissing)));
    assert_eq!(probes, vec![MC.to_string()]);
    let (step, probes) = run_checks(None, &[MC, FML, JAR]);
    assert!(matches!(step, CheckStep::Failed(VerificationFailure::BaseGameMissing)));
    assert!(probes.is_empty());
}

#[test]
fn missing_loader_folder_skips_the_jar() {
    let (step, probes) = run_checks(Some("/cfg"), &[MC, JAR]);
    assert!(matches!(step, CheckStep::Failed(VerificationFailure::LoaderMissing)));
    assert_eq!(probes, vec![MC.to_string(), FML.to_string()]);
}

#[test]
fn all_checks_pass_and_repeat_identically() {
    let first = run_checks(Some("/cfg"), &[MC, FML, JAR]);
    let second = run_checks(Some("/cfg"), &[MC, FML, JAR]);
    assert_eq!(first.1, second.1);
    for (step, _) in [first, second] {
        match step {
            CheckStep::Passed(p) => {
                assert_eq!(p.minecraft_path, MC);
                assert_eq!(p.fml_path, FML);
                assert_eq!(p.fml_jar, "1.20.1-forge-47.3.10.jar");
            }
            other => panic!("unexpected {other:?}"),
        }
    }
}

#[test]
fn checks_log_each_stage() {
    let (mut checks, _) = LaunchChecks::begin_at(&settings(), Some("/cfg".to_string()));
    let mut console = String::new();
    checks.advance_logged(true, &mut console);
    checks.advance_logged(true, &mut console);
    let step = checks.advance_logged(true, &mut console);
    assert!(matches!(step, CheckStep::Passed(_)));
    let lines: Vec<&str> = console.lines().collect();
    assert_eq!(lines.len(), 4);
    assert!(lines[0].ends_with(&format!(" : [Info] - Detected Minecraft @ {MC}")));
    assert!(lines[1].ends_with(&format!(" : [Info] - Detected FML @ {FML}")));
    assert!(lines[2].ends_with(" : [Info] - Forge is installed correctly (1.20.1-forge-47.3.10.jar)"));
    assert!(lines[3].ends_with(" : [Info] - Launch checks passed successfully"));

    let (mut checks, _) = LaunchChecks::begin_at(&settings(), Some("/cfg".to_string()));
    let mut console = String::new();
    checks.advance_logged(true, &mut console);
    let step = checks.advance_logged(false, &mut console);
    assert!(matches!(step, CheckStep::Failed(VerificationFailure::LoaderMissing)));
    let lines: Vec<&str> = console.lines().collect();
    assert_eq!(lines.len(), 3);
    assert!(lines[1].ends_with(" : [Error] - FML is not installed!"));
    assert!(lines[2].ends_with(" : [Warn] - Launch aborted - FMLMissing"));

    let mut console = String::new();
    report_failure(VerificationFailure::BaseGameMissing, &mut console);
    let lines: Vec<&str> = console.lines().collect();
    assert!(lines[0].ends_with(" : [Error] - Minecraft is not installed!"));
    assert!(lines[1].ends_with(" : [Warn] - Launch aborted - MinecraftMissing"));
}

#[test]
fn stage_helpers_build_the_expected_paths() {
    let s = settings();
    assert_eq!(loader_handle(&s), "1.20.1-forge-47.3.10");
    assert_eq!(minecraft_path_in("/cfg"), MC);
    assert_eq!(fml_folder_path(MC, &s), FML);
    assert_eq!(fml_jar_name(&s), "1.20.1-forge-47.3.10.jar");
    assert_eq!(verify_minecraft_install(Some("/cfg"), true), Ok(MC.to_string()));
    assert_eq!(verify_minecraft_install(Some("/cfg"), false), Err(()));
    assert_eq!(verify_minecraft_install(None, true), Err(()));
    assert_eq!(verify_fml_folder(MC, &s, true), Ok(FML.to_string()));
    assert_eq!(verify_fml_folder(MC, &s, false), Err(()));
    assert_eq!(verify_fml_installed_correctly(FML, &s, true), Ok("1.20.1-forge-47.3.10.jar".to_string()));
    assert_eq!(verify_fml_installed_correctly(FML, &s, false), Err(()));
}

#[test]
fn failures_map_to_reasons_and_messages() {
    assert_eq!(VerificationFailure::BaseGameMissing.abort_reason(), LaunchAbortReason::MinecraftMissing);
    assert_eq!(VerificationFailure::LoaderMissing.abort_reason(), LaunchAbortReason::FMLMissing);
    assert_eq!(VerificationFailure::LoaderArtifactMissing.abort_reason(), LaunchAbortReason::FMLMalformed);
    assert_eq!(VerificationFailure::BaseGameMissing.message(), "Minecraft is not installed!");
    assert_eq!(VerificationFailure::LoaderMissing.message(), "FML is not installed!");
    assert_eq!(VerificationFailure::LoaderArtifactMissing.message(), "You need to launch minecraft to install forge");
    assert_eq!(LaunchAbortReason::MinecraftMissing.as_str(), "MinecraftMissing");
    assert_eq!(LaunchAbortReason::FMLMissing.as_str(), "FMLMissing");
    assert_eq!(LaunchAbortReason::FMLMalformed.as_str(), "FMLMalformed");
    assert_eq!(LaunchAbortReason::NoArgumentsFound.as_str(), "NoArgumentsFound");
    assert_eq!(LaunchAbortReason::NetworkError.as_str(), "NetworkError");
    assert_eq!(LaunchAbortReason::RuntimeException.as_str(), "RuntimeException");
}

const VANILLA: &str = r#"{
  "arguments": {
    "game": ["--username", "${auth_player_name}", {"rules": [], "value": "--demo"}],
    "jvm": ["-Djava.library.path=${natives_directory}", "-cp", "${classpath}"]
  },
  "assetIndex": {"id": "5", "url": "x"},
  "mainClass": "net.minecraft.client.main.Main",
  "libraries": [
    {"name": "com.example:foo:1.0"},
    {"name": "org.lwjgl:lwjgl:3.3.1"},
    {"downloads": {}}
  ]
}"#;

const LOADER: &str = r#"{
  "arguments": {"game": ["--launchTarget", "forgeclient"], "jvm": ["-DlibraryDirectory=${library_directory}"]},
  "assetIndex": {"id": "5"},
  "mainClass": "cpw.mods.bootstraplauncher.BootstrapLauncher",
  "libraries": [{"name": "com.example:foo:1.0"}, {"name": "broken"}, {"name": "net.minecraftforge:forge:47.3.10"}]
}"#;

#[test]
fn descriptor_fields_are_read() {
    let d = VersionDescriptor::parse(VANILLA).expect("valid descriptor");
    assert_eq!(d.jvm_args, vec!["-Djava.library.path=${natives_directory}", "-cp", "${classpath}"]);
    assert_eq!(d.game_args, vec!["--username", "${auth_player_name}"]);
    assert_eq!(d.main_class, "net.minecraft.client.main.Main");
    assert_eq!(d.asset_index, "5");
    assert_eq!(d.libraries, vec!["com.example:foo:1.0", "org.lwjgl:lwjgl:3.3.1"]);
}

#[test]
fn descriptor_failures_name_their_kind() {
    assert_eq!(VersionDescriptor::read(None).unwrap_err(), ParseFailure::NotFound);
    assert_eq!(VersionDescriptor::parse("not json").unwrap_err(), ParseFailure::MalformedJson);
    assert_eq!(VersionDescriptor::parse("[1, 2]").unwrap_err(), ParseFailure::MalformedJson);
    assert_eq!(
        VersionDescriptor::parse(r#"{"mainClass": "M", "assetIndex": {"id": "1"}}"#).unwrap_err(),
        ParseFailure::MissingRequiredField("arguments.jvm".to_string())
    );
    assert_eq!(
        VersionDescriptor::parse(r#"{"arguments": {"jvm": []}, "mainClass": "M"}"#).unwrap_err(),
        ParseFailure::MissingRequiredField("arguments.game".to_string())
    );
    assert_eq!(
        VersionDescriptor::parse(r#"{"arguments": {"jvm": [], "game": []}, "assetIndex": {"id": "1"}}"#).unwrap_err(),
        ParseFailure::MissingRequiredField("mainClass".to_string())
    );
    assert_eq!(
        VersionDescriptor::parse(r#"{"arguments": {"jvm": [], "game": []}, "mainClass": "M", "assetIndex": {}}"#).unwrap_err(),
        ParseFailure::MissingRequiredField("assetIndex.id".to_string())
    );
    let d = VersionDescriptor::read(Some(r#"{"arguments": {"jvm": [], "game": []}, "mainClass": "M", "assetIndex": {"id": "1"}}"#.to_string())).unwrap();
    assert!(d.libraries.is_empty());
}

#[test]
fn loader_descriptor_is_layered_over_the_base_game() {
    let vanilla = VersionDescriptor::parse(VANILLA).unwrap();
    let loader = VersionDescriptor::parse(LOADER).unwrap();
    let d = VersionDescriptor::layered(&vanilla, &loader);
    assert_eq!(
        d.jvm_args,
        vec!["-Djava.library.path=${natives_directory}", "-cp", "${classpath}", "-DlibraryDirectory=${library_directory}"]
    );
    assert_eq!(d.game_args, vec!["--username", "${auth_player_name}", "--launchTarget", "forgeclient"]);
    assert_eq!(d.main_class, "cpw.mods.bootstraplauncher.BootstrapLauncher");
    assert_eq!(d.asset_index, "5");
    assert_eq!(d.libraries.len(), 5);
    assert_eq!(d.libraries[2], "com.example:foo:1.0");
}

#[test]
fn read_failures_map_to_abort_reasons() {
    assert_eq!(ParseFailure::NotFound.abort_reason(), LaunchAbortReason::FMLMissing);
    assert_eq!(ParseFailure::MalformedJson.abort_reason(), LaunchAbortReason::FMLMalformed);
    assert_eq!(
        ParseFailure::MissingRequiredField("arguments.jvm".to_string()).abort_reason(),
        LaunchAbortReason::NoArgumentsFound
    );
    assert_eq!(
        ParseFailure::MissingRequiredField("arguments.game".to_string()).abort_reason(),
        LaunchAbortReason::NoArgumentsFound
    );
    assert_eq!(
        ParseFailure::MissingRequiredField("mainClass".to_string()).abort_reason(),
        LaunchAbortReason::FMLMalformed
    );
}

#[test]
fn library_names_resolve_to_maven_paths() {
    assert_eq!(
        resolve_library("/libs", "com.example:foo:1.0"),
        Some("/libs/com/example/foo/1.0/foo-1.0.jar".to_string())
    );
    assert_eq!(resolve_library("/libs", "broken"), None);
    assert_eq!(resolve_library("/libs", "a::1"), None);
    assert_eq!(resolve_library("/libs", "a:b:c:d"), None);
    assert_eq!(split_name("a:b::c"), vec!["a", "b", "", "c"]);
}

#[test]
fn merged_classpath_holds_each_jar_once_in_first_seen_order() {
    let vanilla = VersionDescriptor::parse(VANILLA).unwrap();
    let loader = VersionDescriptor::parse(LOADER).unwrap();
    let cp = merge("/libs", &vec![vanilla, loader]);
    assert_eq!(
        cp.entries,
        vec![
            "/libs/com/example/foo/1.0/foo-1.0.jar",
            "/libs/org/lwjgl/lwjgl/3.3.1/lwjgl-3.3.1.jar",
            "/libs/net/minecraftforge/forge/47.3.10/forge-47.3.10.jar",
        ]
    );
    assert_eq!(cp.unresolved, vec!["broken"]);
}

#[test]
fn placeholders_and_joins() {
    assert_eq!(replace_all("-cp ${classpath} ${classpath}", "${classpath}", "a.jar"), "-cp a.jar a.jar");
    assert_eq!(replace_all("abc", "", "x"), "abc");
    assert_eq!(replace_all("aaa", "aa", "b"), "ba");
    assert_eq!(join_with(&vec!["a".to_string(), "b".to_string(), "c".to_string()], ";"), "a;b;c");
    assert_eq!(join_with(&vec![], ";"), "");
}

#[test]
fn launch_command_is_assembled() {
    let vanilla = VersionDescriptor::parse(VANILLA).unwrap();
    let dirs = LaunchDirs {
        game_dir: "/mc".to_string(),
        natives_dir: "/mc/natives".to_string(),
        libraries_dir: "/mc/libraries".to_string(),
        separator: ":".to_string(),
    };
    let cp = vec!["x.jar".to_string(), "y.jar".to_string()];
    let cmd = build(&vanilla, &cp, &settings(), &dirs);
    assert_eq!(cmd.classpath, "x.jar:y.jar");
    assert_eq!(cmd.jvm_args, vec!["-Djava.library.path=/mc/natives", "-cp", "x.jar:y.jar"]);
    assert_eq!(cmd.main_class, "net.minecraft.client.main.Main");
    assert_eq!(
        cmd.game_args,
        vec![
            "--username", "${auth_player_name}", "--assetsDir", "/mc/assets", "--assetIndex", "5",
            "--gameDir", "/mc", "--versionType", "release", "--userType", "msa",
        ]
    );
    let args = cmd.arguments();
    assert_eq!(args.len(), 3 + 1 + 12);
    assert_eq!(args[3], "net.minecraft.client.main.Main");
}

#[test]
fn log_lines_have_their_format() {
    assert_eq!(format_line("2024-01-02 03:04:05", LogLevel::Warn, "hi"), "2024-01-02 03:04:05 : [Warn] - hi\n");
    assert_eq!(LogLevel::Info.as_str(), "Info");
    assert_eq!(LogLevel::Warn.as_str(), "Warn");
    assert_eq!(LogLevel::Error.as_str(), "Error");
    assert_eq!(LogLevel::Debug.as_str(), "Debug");
    let line = format_message("hello".to_string(), LogLevel::Error);
    assert!(line.ends_with(" : [Error] - hello\n"));
    assert_eq!(line.len(), "2024-01-02 03:04:05".len() + " : [Error] - hello\n".len());
    let mut console = String::new();
    info("a", &mut console);
    warn("b", &mut console);
    error("c", &mut console);
    debug("d", &mut console);
    abort_launch(&mut console, LaunchAbortReason::FMLMissing);
    let lines: Vec<&str> = console.lines().collect();
    assert!(lines[0].ends_with("[Info] - a"));
    assert!(lines[1].ends_with("[Warn] - b"));
    assert!(lines[2].ends_with("[Error] - c"));
    assert!(lines[3].ends_with("[Debug] - d"));
    assert!(lines[4].ends_with("[Warn] - Launch aborted - FMLMissing"));
    let cb = CallbackLog { data: "x".to_string(), id: 3 };
    assert_eq!(cb.id, 3);
}

#[test]
fn instances_live_in_named_folders() {
    let mut m = InstanceManager::new("/inst".to_string());
    assert_eq!(m.get_path(), "/inst");
    let i = m.create_instance("alpha".to_string()).expect("plain name");
    assert_eq!(i.name, "alpha");
    assert_eq!(i.path, "/inst/alpha");
    assert_eq!(i.invoker_path(), "/inst/alpha/sml_invoker.json");
    assert_eq!(
        i.subdirectories(),
        vec!["/inst/alpha/mods", "/inst/alpha/libraries", "/inst/alpha/bin", "/inst/alpha/assets", "/inst/alpha/versions"]
    );
    assert!(m.create_instance("../escape".to_string()).is_none());
    assert!(m.create_instance(String::new()).is_none());
    let entries = vec![("/inst/a".to_string(), true), ("/inst/b".to_string(), false), ("/inst/c".to_string(), true)];
    assert_eq!(m.get_list(&entries), vec!["/inst/a/sml_invoker.json", "/inst/c/sml_invoker.json"]);
    let j = Instance::new("n".to_string(), "/p".to_string());
    assert_eq!(j.path, "/p");
}

#[test]
fn modpacks_have_identifiers_names_and_addresses() {
    let all = Modpack::vec_all();
    assert_eq!(all, vec![Modpack::ModTeam, Modpack::Base, Modpack::Other1, Modpack::Other2, Modpack::Other3]);
    let ids: Vec<&str> = all.iter().map(|m| m.get_server_identifier()).collect();
    assert_eq!(ids, vec!["ModTeam", "Base", "Other1", "Other2", "Other3"]);
    let names: Vec<&str> = all.iter().map(|m| m.get_name()).collect();
    assert_eq!(names, vec!["Modded Team Pack", "Base Pack", "Other 1", "Other 2", "Other 3"]);
    assert_eq!(Modpack::ModTeam.base_url("24.4.89.35", 7878), "http://24.4.89.35:7878/ModTeam");
    assert_eq!(Modpack::Other2.base_url("h", 0), "http://h:0/Other2");
    assert_eq!(Modpack::Base.base_url("h", -12), "http://h:-12/Base");
    assert_eq!(Modpack::Base.base_url("h", i32::MIN), "http://h:-2147483648/Base");
}
