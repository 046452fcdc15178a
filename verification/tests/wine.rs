use maxima::github::{DownloadError, GithubAsset, GithubRelease};
use maxima::wine::command::{
    is_slow_helper, run_wine_command, wine_command_result, wineserver_running, CommandType,
    OutputMode, WineRequest, WineSettings,
};
use maxima::wine::deck::{
    find_steam_sniper_runtime, is_steam_deck, is_valid_sniper_runtime,
    prestage_steam_runtime_on_deck, sniper_candidates, wants_prestage, DirEntry, PrestageAction,
    PrestageStage,
};
use maxima::wine::dirs;
use maxima::wine::error::WineError;
use maxima::wine::proton::{
    auto_detect_system_proton, compute_auto_detect_system_proton, expand_tilde,
    ge_proton_10_minor, is_executable_file, is_valid_proton_layout, log_proton_choice, proton_dir,
    proton_search_roots, resolve_custom_proton_path, resolve_effective_proton_path,
    wine_binary_paths, AutoProtonMemo, FileProbe, ProtonEntry,
};
use maxima::wine::reg_files::{
    reg_file_section_has_value, verify_locale_files_for_bf2, verify_registry_files_for_bf2,
};
use maxima::wine::reg_setup::{
    is_critical_name, locale_entry_list, lock_locale_just_in_time, output_reports_value,
    reg_add_request, reg_query_request, setup_entry_list, setup_wine_registry,
    verify_locale_is_english, LockAction, RegistrySetup, SetupAction, SetupEvent,
};
use maxima::wine::registry_map::{
    get_mx_wine_registry_value, normalize_key, parse_mx_wine_registry, registry_value,
    WineRegistry,
};
use maxima::wine::routing::{ensure_proton_routing, MountPoint, RoutingAction, RoutingError};
use maxima::wine::runtime::{
    check_runtime_validity, check_wine_validity, check_wine_version, extract_archive,
    first_marked, first_run_request, get_lutris_runtimes, get_wine_release, install_runtime, install_wine,
    record_proton, record_runtime, runtime_dir, runtime_reply, wine_asset, wine_releases_request,
    InstallPlan, LutrisRuntime, Versions,
};

#[test]
fn directories_lie_below_the_data_directory() {
    let d = "/data/maxima";
    assert_eq!(dirs::default_wine_prefix_dir(d), "/data/maxima/wine/prefix");
    assert_eq!(dirs::wine_prefix_dir(d), "/data/maxima/wine/prefix");
    assert_eq!(dirs::default_proton_dir(d), "/data/maxima/wine/proton");
    assert_eq!(dirs::proton_backup_dir(d), "/data/maxima/wine/proton.maxima-backup");
    assert_eq!(dirs::wine_dir(d), "/data/maxima/wine");
    assert_eq!(dirs::eac_dir(d), "/data/maxima/wine/eac_runtime");
    assert_eq!(dirs::umu_bin(d), "/data/maxima/wine/umu/umu-run");
    assert_eq!(dirs::game_launch_log_path(d), "/data/maxima/wine/last-game-launch.log");
    assert_eq!(dirs::version_file(d), "/data/maxima/dependency-versions.toml");
    assert_eq!(dirs::custom_proton_file(d), "/data/maxima/custom_proton_path");
    assert_eq!(dirs::download_path(d, "a.tar.gz"), "/data/maxima/downloads/a.tar.gz");
    assert_eq!(runtime_dir(d, "umu"), "/data/maxima/wine/umu");
}

#[test]
fn umu_keeps_its_runtime_in_the_user_data() {
    assert_eq!(
        dirs::umu_steamrt3_dir(Some("/xdg"), Some("/home/u")).unwrap(),
        "/xdg/umu/steamrt3"
    );
    assert_eq!(
        dirs::umu_steamrt3_dir(None, Some("/home/u")).unwrap(),
        "/home/u/.local/share/umu/steamrt3"
    );
    assert!(dirs::umu_steamrt3_dir(None, None).is_none());
    assert_eq!(
        dirs::gamemoderun_candidates("/usr/bin:/bin"),
        vec!["/usr/bin/gamemoderun", "/bin/gamemoderun"]
    );
}

fn request(command_type: CommandType, want_output: bool) -> WineRequest {
    WineRequest {
        arg: "game.exe".to_string(),
        args: vec!["-x".to_string()],
        cwd: Some("/games".to_string()),
        want_output,
        command_type,
    }
}

fn settings() -> WineSettings {
    WineSettings {
        wine_command: None,
        disable_gamemode: None,
        gamemoderun_found: true,
        disable_winegstreamer: None,
        runtime_update_set: false,
        game_log: None,
    }
}

fn has(env: &[(String, String)], name: &str) -> Option<String> {
    env.iter().find(|v| v.0 == name).map(|v| v.1.clone())
}

#[test]
fn a_helper_runs_plain() {
    let r = run_wine_command("/m", request(CommandType::Run, true), &settings());
    assert_eq!(r.program, "/m/wine/umu/umu-run");
    assert_eq!(r.args, vec!["game.exe", "-x"]);
    assert_eq!(r.cwd.unwrap(), "/games");
    assert!(r.stdin_closed);
    assert!(matches!(r.output, OutputMode::Stdout));
    assert_eq!(
        r.env,
        [
            ("WINEPREFIX", "/m/wine/prefix"),
            ("GAMEID", "umu-0"),
            ("PROTON_VERB", "run"),
            ("PROTONPATH", "/m/wine/proton"),
            ("STORE", "ea"),
            ("PROTON_EAC_RUNTIME", "/m/wine/eac_runtime"),
            ("WINEDEBUG", "fixme-all"),
            ("LD_PRELOAD", ""),
            ("LANG", "en_US.UTF-8"),
            ("LC_ALL", "en_US.UTF-8"),
            ("UMU_RUNTIME_UPDATE", "0"),
        ]
        .iter()
        .map(|v| (v.0.to_string(), v.1.to_string()))
        .collect::<Vec<(String, String)>>()
    );
}

#[test]
fn the_game_runs_in_game_mode() {
    let mut s = settings();
    s.game_log = Some("1".to_string());
    s.runtime_update_set = true;
    let r = run_wine_command("/m", request(CommandType::WaitForExitAndRun, true), &s);
    assert_eq!(r.program, "gamemoderun");
    assert!(r.stdin_closed);
    assert_eq!(r.args, vec!["/m/wine/umu/umu-run", "game.exe", "-x"]);
    assert_eq!(has(&r.env, "PROTON_VERB").unwrap(), "waitforexitandrun");
    assert_eq!(has(&r.env, "UMU_ZENITY").unwrap(), "1");
    assert!(has(&r.env, "UMU_RUNTIME_UPDATE").is_none());
    assert!(matches!(r.output, OutputMode::LogFile(p) if p == "/m/wine/last-game-launch.log"));

    s.disable_gamemode = Some("1".to_string());
    s.game_log = Some("0".to_string());
    let r = run_wine_command("/m", request(CommandType::WaitForExitAndRun, false), &s);
    assert_eq!(r.program, "/m/wine/umu/umu-run");
    assert!(matches!(r.output, OutputMode::Stderr));
}

#[test]
fn another_wine_gets_the_overrides() {
    let mut s = settings();
    s.wine_command = Some("/usr/bin/wine".to_string());
    s.disable_winegstreamer = Some("1".to_string());
    let r = run_wine_command("/m", request(CommandType::RunInPrefix, false), &s);
    assert_eq!(r.program, "/usr/bin/wine");
    assert_eq!(
        has(&r.env, "WINEDLLOVERRIDES").unwrap(),
        "CryptBase,wsock32,bcrypt,dxgi,d3d11,d3d12,d3d12core=n,b;winemenubuilder.exe=d"
    );
    assert_eq!(has(&r.env, "PROTON_DLL_OVERRIDES").unwrap(), "winegstreamer=d");
    assert_eq!(has(&r.env, "PROTON_VERB").unwrap(), "runinprefix");
    assert_eq!(CommandType::Run.display(), "run");
}

#[test]
fn the_output_of_a_command_is_kept() {
    let ok = wine_command_result(&OutputMode::Stdout, Some(0), b"out\xff", b"err");
    assert_eq!(ok.ok().unwrap(), "out\u{fffd}");
    let quiet = wine_command_result(&OutputMode::Stderr, Some(0), b"out", b"err");
    assert_eq!(quiet.ok().unwrap(), "");
    match wine_command_result(&OutputMode::Stderr, Some(101), b"out", b"err") {
        Err(WineError::Command { output, exit }) => {
            assert_eq!(output, "err");
            assert_eq!(exit, Some(101));
        }
        _ => panic!("expected an error"),
    }
    assert!(matches!(
        wine_command_result(&OutputMode::Stdout, None, b"out", b"err"),
        Err(WineError::Command { output, exit: None }) if output == "out"
    ));
    assert!(matches!(
        wine_command_result(&OutputMode::LogFile("l".to_string()), Some(1), b"out", b"err"),
        Err(WineError::Command { output, .. }) if output.is_empty()
    ));
    assert!(is_slow_helper(CommandType::Run, 61));
    assert!(!is_slow_helper(CommandType::Run, 60));
    assert!(!is_slow_helper(CommandType::WaitForExitAndRun, 600));
    assert!(wineserver_running(Some((true, &b"12\n".to_vec()))));
    assert!(!wineserver_running(Some((true, &Vec::new()))));
    assert!(!wineserver_running(Some((false, &b"12\n".to_vec()))));
    assert!(!wineserver_running(None));
}

fn executable() -> Option<FileProbe> {
    Some(FileProbe { is_file: true, mode: 0o100755 })
}

#[test]
fn proton_is_known_by_its_layout() {
    assert!(is_executable_file(&executable()));
    assert!(!is_executable_file(&Some(FileProbe { is_file: true, mode: 0o100644 })));
    assert!(!is_executable_file(&Some(FileProbe { is_file: false, mode: 0o040755 })));
    assert!(!is_executable_file(&None));
    assert_eq!(
        wine_binary_paths("/p"),
        vec![
            "/p/files/bin/wine64",
            "/p/dist/bin/wine64",
            "/p/bin/wine64",
            "/p/files/bin/wine",
            "/p/dist/bin/wine",
            "/p/bin/wine",
        ]
    );
    assert!(is_valid_proton_layout(true, true, &vec![]));
    assert!(is_valid_proton_layout(true, false, &vec![None, executable()]));
    assert!(!is_valid_proton_layout(true, false, &vec![None, None]));
    assert!(!is_valid_proton_layout(false, true, &vec![executable()]));
}

#[test]
fn the_user_chooses_a_proton() {
    let home = Some("/home/u");
    assert_eq!(expand_tilde("~/p", home), "/home/u/p");
    assert_eq!(expand_tilde("~", home), "/home/u");
    assert_eq!(expand_tilde("~other", home), "~other");
    assert_eq!(expand_tilde("~/p", None), "~/p");
    assert_eq!(
        resolve_custom_proton_path(Some(" ~/a \n"), Some("/b"), home).unwrap(),
        "/home/u/a"
    );
    assert_eq!(resolve_custom_proton_path(Some("  "), Some(" /b\n"), home).unwrap(), "/b");
    assert!(resolve_custom_proton_path(None, Some(" \n"), home).is_none());
    assert_eq!(
        resolve_effective_proton_path(Some("c".to_string()), Some("a".to_string())).unwrap(),
        "c"
    );
    assert_eq!(resolve_effective_proton_path(None, Some("a".to_string())).unwrap(), "a");
}

fn entry(name: &str, is_dir: bool, valid_layout: bool) -> ProtonEntry {
    ProtonEntry {
        path: format!("/tools/{}", name),
        name: Some(name.to_string()),
        is_dir,
        valid_layout,
    }
}

#[test]
fn the_newest_system_proton_is_taken() {
    assert_eq!(ge_proton_10_minor("GE-Proton10-34"), Some(34));
    assert_eq!(ge_proton_10_minor("GE-Proton11-1"), None);
    assert_eq!(ge_proton_10_minor("GE-Proton10-34-beta"), None);
    assert_eq!(ge_proton_10_minor("GE-Proton10-"), None);
    assert_eq!(ge_proton_10_minor("GE-Proton10-+3"), None);
    assert_eq!(ge_proton_10_minor("GE-Proton10-99999999999"), None);
    assert_eq!(ge_proton_10_minor("GE-Proton10-\u{0663}"), None);
    let entries = vec![
        entry("GE-Proton10-9", true, true),
        entry("GE-Proton10-25", true, true),
        entry("GE-Proton10-34", true, false),
        entry("GE-Proton10-99", false, true),
        entry("proton-cachyos-11", true, true),
    ];
    let found = compute_auto_detect_system_proton(&MountPoint::Absent, &entries);
    assert_eq!(found.unwrap(), "/tools/GE-Proton10-25");
    assert!(compute_auto_detect_system_proton(&MountPoint::Directory, &entries).is_none());
    let link = MountPoint::Link(Some("/x".to_string()));
    assert!(compute_auto_detect_system_proton(&link, &entries).is_some());
    assert!(compute_auto_detect_system_proton(&link, &vec![]).is_none());
    let mut twins = vec![entry("GE-Proton10-7", true, true), entry("GE-Proton10-7", true, true)];
    twins[1].path = "/second".to_string();
    assert_eq!(
        compute_auto_detect_system_proton(&link, &twins).unwrap(),
        "/tools/GE-Proton10-7"
    );
    assert_eq!(proton_search_roots(Some("/home/u")).len(), 7);
    assert_eq!(
        proton_search_roots(Some("/home/u"))[1],
        "/home/u/.steam/steam/compatibilitytools.d"
    );
    assert!(proton_search_roots(None).is_empty());
}

#[test]
fn the_search_for_proton_is_made_once() {
    let mut memo = AutoProtonMemo::new();
    assert!(auto_detect_system_proton(&memo).is_none());
    memo.record(None);
    assert_eq!(auto_detect_system_proton(&memo), Some(None));
    memo.record(Some("/p".to_string()));
    assert_eq!(auto_detect_system_proton(&memo), Some(Some("/p".to_string())));
}

#[test]
fn a_choice_is_logged_once() {
    assert_eq!(proton_dir("/m", true, true).1, "custom-symlink");
    assert_eq!(proton_dir("/m", false, true).1, "auto-symlink");
    let (path, label) = proton_dir("/m", false, false);
    assert_eq!(path, "/m/wine/proton");
    assert_eq!(label, "default");
    let mut last = None;
    assert!(log_proton_choice(&mut last, &label, &path));
    assert_eq!(last.as_deref(), Some("default|/m/wine/proton"));
    assert!(!log_proton_choice(&mut last, &label, &path));
    assert!(log_proton_choice(&mut last, "custom-symlink", &path));
}

fn plan(custom: Option<&str>, valid: bool, proton: MountPoint, backup: bool) -> Vec<String> {
    match ensure_proton_routing(custom, valid, &proton, backup) {
        Ok(actions) => actions
            .iter()
            .map(|a| match a {
                RoutingAction::MoveAside => "move".to_string(),
                RoutingAction::RemoveLink => "unlink".to_string(),
                RoutingAction::LinkTo(t) => format!("link {}", t),
                RoutingAction::Restore => "restore".to_string(),
            })
            .collect(),
        Err(RoutingError::CustomProtonInvalid(p)) => vec![format!("invalid {}", p)],
        Err(RoutingError::BackupInTheWay) => vec!["blocked".to_string()],
    }
}

#[test]
fn the_mount_point_is_routed() {
    let link = |t: &str| MountPoint::Link(Some(t.to_string()));
    let c = Some("/c");
    assert_eq!(plan(c, true, MountPoint::Directory, false), vec!["move", "link /c"]);
    assert_eq!(plan(c, true, MountPoint::Directory, true), vec!["blocked"]);
    assert_eq!(plan(c, false, MountPoint::Directory, false), vec!["invalid /c"]);
    assert!(plan(c, true, link("/c/"), true).is_empty());
    assert_eq!(plan(c, true, link("/d"), true), vec!["unlink", "link /c"]);
    assert_eq!(plan(c, true, MountPoint::Link(None), true), vec!["unlink", "link /c"]);
    assert_eq!(plan(c, true, MountPoint::Absent, true), vec!["link /c"]);
    assert_eq!(plan(c, true, MountPoint::Other, false), vec!["link /c"]);
    assert_eq!(plan(None, false, link("/c"), true), vec!["unlink", "restore"]);
    assert_eq!(plan(None, false, link("/c"), false), vec!["unlink"]);
    assert_eq!(plan(None, false, MountPoint::Absent, true), vec!["restore"]);
    assert!(plan(None, false, MountPoint::Absent, false).is_empty());
    assert!(plan(None, false, MountPoint::Directory, true).is_empty());
}

#[test]
fn a_steam_deck_says_so() {
    assert!(is_steam_deck(Some("1"), false, None));
    assert!(is_steam_deck(Some("0"), true, None));
    assert!(is_steam_deck(None, false, Some("NAME=x\nID=steamos\n")));
    assert!(is_steam_deck(None, false, Some("ID=\"steamos\"\r\n")));
    assert!(!is_steam_deck(None, false, Some("ID=arch\nID_LIKE=steamos")));
    assert!(!is_steam_deck(None, false, None));
}

#[test]
fn a_sniper_runtime_is_complete() {
    let item = |name: &str, is_dir: bool| DirEntry { name: name.to_string(), is_dir };
    let good = vec![item("sniper_platform_3.0", true)];
    assert!(is_valid_sniper_runtime(true, true, Some(&good)));
    assert!(!is_valid_sniper_runtime(false, true, Some(&good)));
    assert!(!is_valid_sniper_runtime(true, false, Some(&good)));
    assert!(!is_valid_sniper_runtime(true, true, Some(&vec![item("sniper_platform_3.0", false)])));
    assert!(!is_valid_sniper_runtime(true, true, None));
}

#[test]
fn runtimes_are_searched_in_all_libraries() {
    let roots = vec![
        ("/s".to_string(), Some("\"path\" \"/sd\" \"path\" \"/s/\"".to_string())),
        ("/t".to_string(), None),
    ];
    let found = sniper_candidates(&roots);
    assert_eq!(
        found,
        vec![
            "/sd/steamapps/common/SteamLinuxRuntime_sniper",
            "/s/steamapps/common/SteamLinuxRuntime_sniper",
            "/t/steamapps/common/SteamLinuxRuntime_sniper",
        ]
    );
    let probed: Vec<(String, bool)> = found.into_iter().map(|p| (p.clone(), p != "/sd")).collect();
    assert!(find_steam_sniper_runtime(&probed).unwrap().starts_with("/sd/"));
    assert!(find_steam_sniper_runtime(&vec![("/x".to_string(), false)]).is_none());
}

#[test]
fn a_runtime_is_put_in_place() {
    assert!(wants_prestage(true, Some("/u/steamrt3"), false));
    assert!(!wants_prestage(true, Some("/u/steamrt3"), true));
    assert!(!wants_prestage(false, Some("/u/steamrt3"), false));
    assert!(!wants_prestage(true, None, false));
    assert!(prestage_steam_runtime_on_deck("/u/steamrt3", None).is_none());
    let mut p = prestage_steam_runtime_on_deck("/u/steamrt3", Some("/s")).unwrap();
    assert!(matches!(p.action(), PrestageAction::CreateDir(d) if d == "/u"));
    p.advance(true);
    assert!(matches!(p.action(), PrestageAction::Remove(d) if d == "/u/.steamrt3.kyber-stage"));
    p.advance(false);
    assert!(matches!(
        p.action(),
        PrestageAction::Copy { from, to } if from == "/s" && to == "/u/.steamrt3.kyber-stage"
    ));
    p.advance(true);
    assert!(matches!(p.action(), PrestageAction::Look(d) if d == "/u/.steamrt3.kyber-stage/umu"));
    p.advance(false);
    assert!(matches!(
        p.action(),
        PrestageAction::Link { target, .. } if target == "_v2-entry-point"
    ));
    p.advance(false);
    assert!(matches!(p.action(), PrestageAction::Rename { to, .. } if to == "/u/steamrt3"));
    p.advance(true);
    assert!(matches!(p.action(), PrestageAction::Finish));
    assert_eq!(p.stage, PrestageStage::Finished);
}

#[test]
fn a_failed_copy_is_removed() {
    let mut p = prestage_steam_runtime_on_deck("/u/steamrt3", Some("/s")).unwrap();
    p.advance(true);
    p.advance(true);
    p.advance(false);
    assert_eq!(p.stage, PrestageStage::Discarding);
    assert!(matches!(p.action(), PrestageAction::Remove(d) if d == "/u/.steamrt3.kyber-stage"));
    p.advance(true);
    assert!(matches!(p.action(), PrestageAction::Stop));
}

const USER_REG: &str = "WINE REGISTRY Version 2\n\
[Control Panel\\\\International] 1700000000\n\
\"Locale\"=\"00000409\"\n\
\"LocaleName\"=\"en-US\"\r\n\
  \"sLanguage\"=\"ENU\"\n\
[software\\\\valve\\\\steam]\n\
\"Language\"=\"english\"\n\
[Environment]\n\
\"LANG\"=\"en_US.UTF-8\"\n\
\"LC_ALL\"=\"en_US.UTF-8\"\n";

const SYSTEM_REG: &str = "[Software\\\\Electronic Arts\\\\EA Desktop]\n\
\"InstallSuccessful\"=\"true\"\n\
[Software\\\\WoW6432Node\\\\Origin]\n\
\"ClientPath\"=\"C:/Windows/System32/conhost.exe\"\n\
[Software\\\\Origin]\n\
\"InstallSuccessful\"=\"true\"\n\
[Software\\\\Origin Games\\\\1035052]\n\
\"locale\"=\"en_US\"\n\
\"displayname\"=\"STAR WARS Battlefront II\"\n";

#[test]
fn registry_files_are_read_by_section() {
    assert!(reg_file_section_has_value(USER_REG, "environment", "lang", "EN_us.utf-8"));
    assert!(!reg_file_section_has_value(USER_REG, "Environment", "Locale", "00000409"));
    assert!(!reg_file_section_has_value("\"a\"=\"b\"", "s", "a", "b"));
    assert!(!reg_file_section_has_value("[s\n\"a\"=\"b\"", "s", "a", "b"));
    // The header is compared as a whole.
    assert!(!reg_file_section_has_value(
        "[Software\\\\Origin Games]\n\"a\"=\"b\"",
        "Software\\\\Origin",
        "a",
        "b"
    ));
}

#[test]
fn registry_files_are_verified() {
    assert!(verify_registry_files_for_bf2(Some(USER_REG), Some(SYSTEM_REG)));
    assert!(verify_locale_files_for_bf2(Some(USER_REG)));
    assert!(!verify_registry_files_for_bf2(None, Some(SYSTEM_REG)));
    assert!(!verify_registry_files_for_bf2(Some(USER_REG), None));
    assert!(!verify_locale_files_for_bf2(None));
    for (line, changed) in [("00000409", "00000407"), ("english", "german")] {
        let german = USER_REG.replace(line, changed);
        assert!(!verify_registry_files_for_bf2(Some(&german), Some(SYSTEM_REG)));
        assert!(!verify_locale_files_for_bf2(Some(&german)));
    }
    let no_env = USER_REG.replace("LC_ALL", "LC");
    assert!(!verify_registry_files_for_bf2(Some(&no_env), Some(SYSTEM_REG)));
    assert!(verify_locale_files_for_bf2(Some(&no_env)));
    let other = SYSTEM_REG.replace("displayname", "name");
    assert!(!verify_registry_files_for_bf2(Some(USER_REG), Some(&other)));
}

#[test]
fn entries_are_written_with_reg() {
    let entries = setup_entry_list();
    assert_eq!(entries.len(), 15);
    let catalog: Vec<(&str, &str)> = entries
        .iter()
        .filter(|e| e.key == "HKLM\\Software\\Origin Games\\1035052")
        .map(|e| (e.name.as_str(), e.view.as_str()))
        .collect();
    assert_eq!(
        catalog,
        vec![
            ("locale", "/reg:32"),
            ("displayname", "/reg:32"),
            ("locale", "/reg:64"),
            ("displayname", "/reg:64"),
        ]
    );
    assert_eq!(locale_entry_list().len(), 4);
    let r = reg_add_request(&entries[1]);
    assert_eq!(r.arg, "reg");
    assert_eq!(
        r.args,
        vec![
            "add",
            "HKLM\\Software\\Origin",
            "/v",
            "ClientPath",
            "/reg:32",
            "/d",
            "C:/Windows/System32/conhost.exe",
            "/f",
        ]
    );
    assert!(!r.want_output && r.cwd.is_none() && r.command_type == CommandType::Run);
    let q = reg_query_request(&locale_entry_list()[0]);
    assert_eq!(q.args, vec!["query", "HKCU\\Control Panel\\International", "/v", "Locale"]);
    assert!(q.want_output);
    assert!(is_critical_name("Locale") && is_critical_name("locale"));
    assert!(!is_critical_name("LANG"));
}

fn add(action: SetupAction) -> String {
    match action {
        SetupAction::Add(e) => e.name,
        _ => panic!("expected an entry"),
    }
}

#[test]
fn nothing_is_written_where_the_files_are_right() {
    let mut s = RegistrySetup::new();
    let looked = SetupEvent::Looked { wineserver: false, files_ok: true };
    assert!(matches!(setup_wine_registry(&mut s, looked), SetupAction::Finish));
    let mut s = RegistrySetup::new();
    let looked = SetupEvent::Looked { wineserver: true, files_ok: true };
    assert!(matches!(setup_wine_registry(&mut s, looked), SetupAction::Probe));
    assert!(matches!(setup_wine_registry(&mut s, SetupEvent::Probed(true)), SetupAction::Finish));
}

fn write_all(failing: &[usize]) -> SetupAction {
    let mut s = RegistrySetup::new();
    let looked = SetupEvent::Looked { wineserver: false, files_ok: false };
    setup_wine_registry(&mut s, looked);
    let mut action = setup_wine_registry(&mut s, SetupEvent::Probed(false));
    for (i, entry) in setup_entry_list().iter().enumerate() {
        assert_eq!(add(action), entry.name);
        action = setup_wine_registry(&mut s, SetupEvent::Written(!failing.contains(&i)));
    }
    action
}

#[test]
fn a_critical_failure_aborts() {
    assert!(matches!(write_all(&[]), SetupAction::Finish));
    assert!(matches!(write_all(&[0, 1, 2, 13, 14]), SetupAction::Finish));
    match write_all(&[0, 5, 12]) {
        SetupAction::Abort(reason) => assert_eq!(
            reason,
            "setup_wine_registry: 2 critical entries failed: [\"locale\", \"language\"]"
        ),
        _ => panic!("expected an abort"),
    }
}

#[test]
fn the_locale_is_locked() {
    assert!(matches!(lock_locale_just_in_time(true, &vec![]), LockAction::Finish(0)));
    assert!(matches!(
        lock_locale_just_in_time(false, &vec![true, false]),
        LockAction::Add(e) if e.name == "sLanguage"
    ));
    assert!(matches!(
        lock_locale_just_in_time(false, &vec![true, false, true, false]),
        LockAction::Finish(2)
    ));
}

#[test]
fn wine_reports_the_locale() {
    let out = |name: &str, value: &str| Some(format!("\r\nHKCU\r\n    {}    REG_SZ    {}\r\n", name, value));
    let mut all = vec![
        out("Locale", "00000409"),
        out("LocaleName", "en-US"),
        out("sLanguage", "ENU"),
        out("language", "english"),
    ];
    assert!(verify_locale_is_english(&all));
    all[3] = out("language", "german");
    assert!(!verify_locale_is_english(&all));
    all[3] = None;
    assert!(!verify_locale_is_english(&all));
    assert!(!output_reports_value("  \n", "Locale", "00000409"));
    assert!(!output_reports_value("other 00000409", "Locale", "00000409"));
    assert!(!output_reports_value("Locale 7\nLocale 9", "Locale", "9"));
}

const MAP: &str = "WINE REGISTRY Version 2\n\n\
[Software\\\\Wow6432Node\\\\EA Games\\\\BF2] 17\n\
\"Install Dir\"=\"Z:\\\\home\\\\u\\\\BF2\\\\\"\n\
\"Locale\"=\"de\"\n\
[SOFTWARE\\\\Origin]\n\
  \"ClientPath\"=\"C:/a=b\"\n\
\"ClientPath\"=\"C:/c=d\"\n\
@=\"ignored\"\n";

#[test]
fn the_registry_is_looked_up() {
    let mut r = WineRegistry::new();
    assert!(r.is_empty());
    r.parse_wine_registry(MAP);
    let get = |r: &WineRegistry, key: &str| get_mx_wine_registry_value(r, true, key);
    assert_eq!(
        get(&r, "HKEY_LOCAL_MACHINE\\SOFTWARE\\EA Games\\BF2\\Install Dir").unwrap(),
        "//home//u//BF2//"
    );
    assert_eq!(get(&r, "Software\\Wow6432Node\\EA Games\\BF2\\locale").unwrap(), "de");
    // The later of two values stands, and only the first `=` parts.
    assert_eq!(get(&r, "software\\origin\\clientpath").unwrap(), "C:/c=d");
    assert!(get(&r, "software\\origin\\@").is_none());
    assert!(get(&r, "software\\nothing\\x").is_none());
    assert!(get_mx_wine_registry_value(&r, false, "software\\origin\\clientpath").is_none());
    assert_eq!(registry_value(&r, "software\\ea games\\bf2\\locale").unwrap(), "de");
    assert_eq!(r.get("software\\origin\\clientpath").unwrap(), "C:/c=d");
}

#[test]
fn the_registry_is_read_once() {
    let mut r = WineRegistry::new();
    r.parse_wine_registry("[a]\n\"b\"=\"1\"");
    r.parse_wine_registry("[a]\n\"b\"=\"2\"");
    assert_eq!(registry_value(&r, "a\\b").unwrap(), "1");
    r.invalidate_mx_wine_registry();
    assert!(r.is_empty());
    r.parse_wine_registry("[a]\n\"b\"=\"2\"");
    assert_eq!(registry_value(&r, "a\\b").unwrap(), "2");
    r.set("c".to_string(), "3".to_string());
    assert_eq!(r.get("c").unwrap(), "3");
}

#[test]
fn keys_are_normalized() {
    assert_eq!(normalize_key("HKEY_LOCAL_MACHINE\\Software\\É"), "software\\é");
    assert_eq!(
        normalize_key("hkey_local_machine\\HKEY_LOCAL_MACHINE\\a"),
        "a"
    );
    assert_eq!(normalize_key("HKEY_CURRENT_USER\\a"), "hkey_current_user\\a");
    for key in ["HKEY_LOCAL_MACHINE\\Hkey_Local_Machine\\SOFTWARE\\X", "x", "", "hkey_local_machine\\Ä\\İΣ"] {
        let once = normalize_key(key);
        assert_eq!(normalize_key(&once), once);
        assert_eq!(normalize_key(&key.to_uppercase()), once);
    }
    assert_eq!(
        parse_mx_wine_registry("/m", true, false).unwrap(),
        "/m/wine/prefix/system.reg"
    );
    assert_eq!(
        parse_mx_wine_registry("/m", false, true).unwrap(),
        "/m/wine/prefix/system.reg"
    );
    assert!(parse_mx_wine_registry("/m", false, false).is_none());
}

fn release(tag: &str, assets: &[&str]) -> GithubRelease {
    GithubRelease {
        tag_name: tag.to_string(),
        assets: assets
            .iter()
            .map(|name| GithubAsset {
                name: name.to_string(),
                size: 1,
                browser_download_url: String::new(),
            })
            .collect(),
    }
}

#[test]
fn proton_is_checked_against_the_release() {
    assert_eq!(check_wine_validity(Some(true), false), Some(true));
    assert_eq!(check_wine_validity(Some(false), true), Some(false));
    assert_eq!(check_wine_validity(None, false), Some(false));
    assert_eq!(check_wine_validity(None, true), None);
    let latest = || Ok::<GithubRelease, u8>(release("GE-Proton10-34", &[]));
    assert_eq!(check_wine_version("GE-Proton10-34", latest()), Ok(true));
    assert_eq!(check_wine_version("GE-Proton10-33", latest()), Ok(false));
    assert_eq!(check_wine_version("old", Err(7)), Ok(true));
    assert_eq!(check_wine_version("", Err(7)), Err(7));
}

#[test]
fn releases_for_one_game_are_skipped() {
    let releases = vec![release("GE-LoL", &[]), release("B", &[]), release("C", &[])];
    assert_eq!(get_wine_release(releases).ok().unwrap().tag_name, "B");
    assert!(matches!(
        get_wine_release(vec![release("x-LoL", &[])]),
        Err(WineError::Fetch)
    ));
    assert!(matches!(get_wine_release(vec![]), Err(WineError::Fetch)));
    assert_eq!(
        wine_releases_request().url,
        "https://api.github.com/repos/GloriousEggroll/proton-ge-custom/releases"
    );
}

#[test]
fn the_archive_of_a_release_is_found() {
    let r = release(
        "t",
        &["GE-Proton10-34.sha512sum", "GE-Proton10-34.tar.gz", "GE-Proton9-1.tar.gz"],
    );
    assert_eq!(wine_asset(&r).ok().unwrap(), 1);
    let arm = release("t", &["GE-Proton-arm.tar.gz", "GE-Proton1-.tar.gz"]);
    assert!(matches!(wine_asset(&arm), Err(WineError::Fetch)));
    assert_eq!(first_marked(&vec![false, true, true]).ok().unwrap(), 1);
    assert!(matches!(first_marked(&vec![false]), Err(WineError::Fetch)));
}

#[test]
fn a_valid_proton_is_not_downloaded() {
    let p = |valid: bool| Some(("/p".to_string(), valid));
    assert_eq!(install_wine(p(true), None).ok().unwrap(), InstallPlan::UseCustom);
    assert!(matches!(
        install_wine(p(false), p(true)),
        Err(WineError::CustomProtonInvalid(path)) if path == "/p"
    ));
    assert_eq!(install_wine(None, p(true)).ok().unwrap(), InstallPlan::UseSystem);
    assert_eq!(install_wine(None, p(false)).ok().unwrap(), InstallPlan::Download);
    assert_eq!(install_wine(None, None).ok().unwrap(), InstallPlan::Download);
    let first = first_run_request();
    assert!(first.arg.is_empty() && first.args.is_empty() && !first.want_output);
}

#[test]
fn archives_lose_their_own_directory() {
    let to = |entry: &str| extract_archive("/d", entry);
    assert_eq!(to("GE-Proton10-34/files/bin/wine").unwrap(), "/d/files/bin/wine");
    assert_eq!(to("./umu/umu-run").unwrap(), "/d/umu/umu-run");
    assert_eq!(to("/abs/file").unwrap(), "/d/abs/file");
    assert_eq!(to("top").unwrap(), "/d/");
    assert_eq!(to("a//b/./c/").unwrap(), "/d/b/c");
    assert!(to("").is_none());
}

fn runtimes() -> Vec<LutrisRuntime> {
    ["other", "umu", "eac_runtime", "umu"]
        .iter()
        .enumerate()
        .map(|(i, name)| LutrisRuntime {
            name: name.to_string(),
            created_at: format!("2026-0{}", i),
            url: format!("https://lutris.net/{}.tar{}", name, if i == 1 { ".xz" } else { "" }),
        })
        .collect()
}

#[test]
fn runtimes_are_installed_and_checked() {
    let list = runtimes();
    let mut versions = Versions::default();
    assert!(!check_runtime_validity("umu", &versions, true, &list).ok().unwrap());
    let plan = install_runtime("umu", &list).ok().unwrap();
    assert_eq!(plan.url, "https://lutris.net/umu.tar.xz");
    assert_eq!(plan.created_at, "2026-01");
    assert!(plan.xz);
    record_runtime(&mut versions, "umu", plan.created_at);
    assert!(check_runtime_validity("umu", &versions, true, &list).ok().unwrap());
    assert!(!check_runtime_validity("umu", &versions, false, &list).ok().unwrap());
    assert!(!check_runtime_validity("eac_runtime", &versions, true, &list).ok().unwrap());
    assert!(!check_runtime_validity("umu", &versions, true, &vec![]).ok().unwrap());
    assert!(!install_runtime("eac_runtime", &list).ok().unwrap().xz);
    for unknown in [
        install_runtime("other", &list).err(),
        check_runtime_validity("other", &versions, true, &list).err(),
    ] {
        assert!(matches!(
            unknown,
            Some(WineError::UnimplementedRuntime(key)) if key == "other"
        ));
    }
    assert!(matches!(
        install_runtime("umu", &vec![LutrisRuntime::default()]),
        Err(WineError::UnimplementedRuntime(_))
    ));
    record_proton(&mut versions, "GE".to_string());
    record_runtime(&mut versions, "eac_runtime", "e".to_string());
    record_runtime(&mut versions, "other", "o".to_string());
    assert_eq!(versions.proton, "GE");
    assert_eq!(versions.umu, "2026-01");
    assert_eq!(versions.eac_runtime, "e");
}

#[test]
fn runtimes_are_requested() {
    assert_eq!(get_lutris_runtimes().url, "https://lutris.net/api/runtimes");
    assert!(runtime_reply("umu", 200).is_ok());
    assert!(matches!(
        runtime_reply("umu", 404),
        Err(DownloadError::Http(key)) if key == "umu"
    ));
}
