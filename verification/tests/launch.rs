use maxima::launch::arguments::parse_arguments;
use maxima::launch::environment::{request_opaque_ooa_token, session_variables, SessionInfo};
use maxima::launch::linux_setup::{mx_linux_setup, Runtime, SetupOutcome, SetupStep};
use maxima::launch::start::{
    bootstrap_arguments, start_game, GameLaunch, LaunchAction, LaunchEvent, LaunchStage, LicenseAuth, OfferInfo, Refusal,
};
use maxima::launch::types::{
    ActiveGameContext, BootstrapLaunchArgs, LaunchError, LaunchMode, LaunchOptions,
    LibraryInjection, StartupStage,
};

#[test]
fn arguments_are_split_at_spaces() {
    assert_eq!(parse_arguments("-a  -b c"), vec!["-a", "-b", "c"]);
    assert_eq!(parse_arguments("  lead trail  "), vec!["lead", "trail"]);
    assert!(parse_arguments("").is_empty());
    assert!(parse_arguments("   ").is_empty());
}

#[test]
fn quotes_keep_spaces() {
    assert_eq!(
        parse_arguments("-name \"Star Wars\" x\"y z\"w"),
        vec!["-name", "Star Wars", "xy zw"]
    );
    // A quote that stays open holds the rest together; an empty argument is dropped.
    assert_eq!(parse_arguments("a \"b c"), vec!["a", "b c"]);
    assert_eq!(parse_arguments("a \"\" b"), vec!["a", "b"]);
    // Only spaces part arguments.
    assert_eq!(parse_arguments("a\tb"), vec!["a\tb"]);
}

#[test]
fn quoted_arguments_are_read_back() {
    let args = vec!["one two", "three", " é "];
    let line: Vec<String> = args.iter().map(|a| format!("\"{}\"", a)).collect();
    assert_eq!(parse_arguments(&line.join(" ")), args);
}

#[test]
fn arguments_of_two_texts_follow_each_other() {
    let (a, b) = ("-x \"1 2\"", "-y 3");
    let mut both = parse_arguments(a);
    both.append(&mut parse_arguments(b));
    assert_eq!(parse_arguments(&format!("{} {}", a, b)), both);
}

#[test]
fn launch_errors_are_worded() {
    let id = || "Origin.OFR.50".to_string();
    assert_eq!(
        LaunchError::NoOfferFound(id()).message(),
        "no offer was found for id `Origin.OFR.50`"
    );
    assert_eq!(LaunchError::Offline.message(), "offline mode is not yet supported");
    assert_eq!(
        LaunchError::GamePathOffline.message(),
        "game path must be specified when launching in OnlineOffline mode"
    );
    assert_eq!(LaunchError::GamePath.message(), "game path not found");
    assert_eq!(
        LaunchError::NotInstalled(id()).message(),
        "`Origin.OFR.50` is not installed"
    );
    assert_eq!(
        LaunchError::BootstrapMissing.message(),
        "bootstrap was not found! Please re-install maxima"
    );
    assert_eq!(
        LaunchError::ContentIdAsOfferId(id()).message(),
        "content ID (`Origin.OFR.50`) was specified as an offer ID when launching in OnlineOffline mode"
    );
}

#[test]
fn modes_show_their_id() {
    let offline = LaunchMode::Offline("a".to_string());
    let online = LaunchMode::Online("b".to_string());
    let direct = LaunchMode::OnlineOffline("c".to_string(), "p".to_string(), "w".to_string());
    assert_eq!(offline.display(), "a");
    assert_eq!(online.display(), "b");
    assert_eq!(direct.display(), "c");
    assert!(!offline.is_online_offline());
    assert!(!online.is_online_offline());
    assert!(direct.is_online_offline());
}

#[test]
fn a_context_holds_what_it_was_made_of() {
    let mut context: ActiveGameContext<u8, u32> = ActiveGameContext::new(
        "id",
        "/games/x",
        "x.exe",
        true,
        "content",
        Some(7),
        LaunchMode::Online("o".to_string()),
        42,
    );
    assert_eq!(context.launch_id(), "id");
    assert_eq!(context.game_path(), "/games/x");
    assert_eq!(context.game_exe_filename(), "x.exe");
    assert_eq!(context.content_id(), "content");
    assert_eq!(context.offer(), &Some(7));
    assert_eq!(context.mode().display(), "o");
    assert!(context.injections().is_empty());
    assert!(*context.cloud_saves());
    assert!(!*context.started());
    *context.process_mut() += 1;
    context.set_started();
    assert_eq!(*context.process(), 43);
    assert!(*context.started());
}

#[test]
fn defaults_are_empty() {
    let args = BootstrapLaunchArgs::default();
    assert!(args.path.is_empty() && args.args.is_empty());
    let injection = LibraryInjection { path: "a.dll".to_string(), stage: StartupStage::Launch };
    assert_eq!(injection.stage, StartupStage::Launch);
}

fn session() -> SessionInfo {
    SessionInfo {
        launch_id: "launch".to_string(),
        entitlement_source: Some("STEAM".to_string()),
        external_source: None,
        game_locale: None,
        launch_owner: None,
        locale: "de_DE".to_string(),
        player_name: Some("Player".to_string()),
        user_id: "1000".to_string(),
        lsx_port: 3216,
        rtp_code: "99".to_string(),
    }
}

fn value<'a>(env: &'a [(String, String)], name: &str) -> Vec<&'a str> {
    env.iter().filter(|v| v.0 == name).map(|v| v.1.as_str()).collect()
}

#[test]
fn the_session_is_in_the_environment() {
    let env = session_variables(&session(), "Player", "token", "content");
    assert_eq!(env.len(), 22);
    assert_eq!(env[0], ("LANG".to_string(), "en_US.UTF-8".to_string()));
    assert_eq!(env[1], ("LC_ALL".to_string(), "en_US.UTF-8".to_string()));
    for (name, expected) in [
        ("MXLaunchId", "launch"),
        ("EAAuthCode", "unavailable"),
        ("EAEgsProxyIpcPort", "0"),
        ("EAEntitlementSource", "STEAM"),
        ("EAExternalSource", "EA"),
        ("EAFreeTrialGame", "false"),
        ("EAGameLocale", "de_DE"),
        ("EAGenericAuthToken", "token"),
        ("EALaunchCode", "unavailable"),
        ("EALaunchOwner", "EA"),
        ("EALaunchEAID", "Player"),
        ("EALaunchEnv", "production"),
        ("EALaunchOfflineMode", "false"),
        ("EALsxPort", "3216"),
        ("EARtPLaunchCode", "99"),
        ("EASecureLaunchTokenTemp", "1000"),
        ("EASteamProxyIpcPort", "0"),
        ("OriginSessionKey", "launch"),
        ("ContentId", "content"),
        ("EAOnErrorExitRetCode", "1"),
    ] {
        assert_eq!(value(&env, name), vec![expected], "{}", name);
    }
}

#[test]
fn each_launch_has_an_id_of_its_own() {
    let one = session().with_new_launch_id();
    let two = session().with_new_launch_id();
    assert_ne!(one.launch_id, two.launch_id);
    assert_eq!(one.launch_id.len(), 36);
    assert_eq!(one.launch_id.chars().filter(|c| *c == '-').count(), 4);
    assert_eq!(one.launch_id.chars().nth(14), Some('4'));
    assert_eq!(one.user_id, "1000");
    assert_eq!(one.lsx_port, 3216);
}

#[test]
fn the_short_token_has_its_scopes() {
    let request = request_opaque_ooa_token("token");
    assert_eq!(request.access_token, "token");
    assert_eq!(request.token_format, "OPAQUE");
    assert_eq!(request.expires_in, 550);
    assert_eq!(request.scopes.len(), 9);
    assert_eq!(request.scopes[0], "basic.commerce.cartv2");
    assert_eq!(request.scopes[8], "external.social_information_ups_admin");
}

fn launch(mode: LaunchMode, path: Option<&str>, cloud_saves: bool, unix: bool) -> GameLaunch {
    let options = LaunchOptions {
        path_override: path.map(|p| p.to_string()),
        arguments: vec!["-given".to_string()],
        cloud_saves,
    };
    GameLaunch::new(mode, options, unix)
}

fn go(launch: GameLaunch, event: LaunchEvent) -> (GameLaunch, LaunchAction) {
    match start_game(launch, event) {
        Ok(next) => next,
        Err(_) => panic!("the launch was refused"),
    }
}

fn refuse(launch: GameLaunch, event: LaunchEvent) -> Refusal {
    match start_game(launch, event) {
        Ok(_) => panic!("the launch went on"),
        Err(refusal) => refusal,
    }
}

fn offer(has_cloud_save: bool) -> Option<OfferInfo> {
    Some(OfferInfo {
        offer_id: "OFB-EAST:1".to_string(),
        content_id: "1035052".to_string(),
        has_cloud_save,
    })
}

fn online(path: Option<&str>, cloud_saves: bool) -> GameLaunch {
    launch(LaunchMode::Online("Origin.OFR.1".to_string()), path, cloud_saves, true)
}

fn with_offer(path: Option<&str>, cloud_saves: bool) -> (GameLaunch, LaunchAction) {
    let (l, a) = go(online(path, cloud_saves), LaunchEvent::Start);
    assert!(matches!(a, LaunchAction::FindOffer(id) if id == "Origin.OFR.1"));
    go(l, LaunchEvent::Offer { access_token: "token".to_string(), offer: offer(true) })
}

#[test]
fn an_online_game_is_launched() {
    let (l, a) = with_offer(None, true);
    assert!(matches!(a, LaunchAction::CheckInstalled));
    let (l, a) = go(l, LaunchEvent::Installed(true));
    assert!(matches!(a, LaunchAction::GetExecutePath));
    let (l, a) = go(l, LaunchEvent::ExecutePath("/games/BF2/BF2.exe".to_string()));
    assert!(matches!(a, LaunchAction::ResolvePath(p) if p == "/games/BF2/BF2.exe"));
    let (l, a) = go(l, LaunchEvent::ResolvedPath("/games/bf2/bf2.exe".to_string()));
    assert!(matches!(a, LaunchAction::SetUp));
    let (l, a) = go(l, LaunchEvent::SetUp);
    assert!(matches!(
        a,
        LaunchAction::CheckLicense { auth: LicenseAuth::AccessToken, content_id }
            if content_id == "1035052"
    ));
    let (l, a) = go(l, LaunchEvent::LicenseNeeded(true));
    assert!(matches!(
        a,
        LaunchAction::RequestLicense { content_id, path }
            if content_id == "1035052" && path == "/games/bf2/bf2.exe"
    ));
    let (l, a) = go(l, LaunchEvent::LicenseSaved);
    assert!(matches!(a, LaunchAction::ObtainCloudLock));
    let (l, a) = go(l, LaunchEvent::CloudLock(true));
    assert!(matches!(a, LaunchAction::SyncCloudSaves));
    let (l, a) = go(l, LaunchEvent::CloudSynced(false));
    assert!(matches!(a, LaunchAction::ReleaseCloudLock));
    let (l, a) = go(l, LaunchEvent::CloudReleased);
    assert!(matches!(a, LaunchAction::FindBootstrap));
    let launch_args = Some("-env \"a b\"".to_string());
    let (l, a) = go(l, LaunchEvent::Bootstrap { exists: true, launch_args });
    assert!(matches!(a, LaunchAction::GetUser));
    let (l, a) = go(l, LaunchEvent::User(session()));
    assert!(matches!(a, LaunchAction::RequestShortToken(t) if t == "token"));
    let (l, a) = go(l, LaunchEvent::ShortToken("short".to_string()));
    assert!(matches!(a, LaunchAction::Spawn));
    assert_eq!(l.stage(), LaunchStage::Spawned);

    let plan = l.plan();
    assert_eq!(plan.bootstrap.path, "/games/bf2/bf2.exe");
    assert_eq!(plan.bootstrap.args, vec!["-given", "-env", "a b"]);
    assert_eq!(plan.current_dir, "/games/bf2");
    assert_eq!(plan.launch_id, "launch");
    assert_eq!(plan.env.len(), 26);
    assert_eq!(value(&plan.env, "EAConnectionId"), vec!["Origin.OFR.1"]);
    assert_eq!(value(&plan.env, "EALicenseToken"), vec!["Origin.OFR.1"]);
    assert_eq!(value(&plan.env, "EALaunchUserAuthToken"), vec!["short"]);
    assert_eq!(value(&plan.env, "EAAccessTokenJWS"), vec!["token"]);
    assert_eq!(value(&plan.env, "EAGenericAuthToken"), vec!["token"]);
    assert_eq!(value(&plan.env, "ContentId"), vec!["1035052"]);

    assert_eq!(bootstrap_arguments("{\"a\":1}"), vec!["launch", "eyJhIjoxfQ=="]);

    let context: ActiveGameContext<u8, u8> = l.into_context(Some(1), 2);
    assert_eq!(context.launch_id(), "launch");
    assert_eq!(context.game_path(), "/games/BF2");
    assert_eq!(context.game_exe_filename(), "BF2.exe");
    assert_eq!(context.content_id(), "1035052");
    assert!(*context.cloud_saves());
}

#[test]
fn a_game_is_launched_without_an_account() {
    let mode = LaunchMode::OnlineOffline(
        "1035052".to_string(),
        "persona".to_string(),
        "secret".to_string(),
    );
    let (l, a) = go(launch(mode, Some("/games/bf2.exe"), true, true), LaunchEvent::Start);
    assert!(matches!(a, LaunchAction::ResolvePath(p) if p == "/games/bf2.exe"));
    let (l, _) = go(l, LaunchEvent::ResolvedPath("/games/bf2.exe".to_string()));
    let (l, a) = go(l, LaunchEvent::SetUp);
    assert!(matches!(
        a,
        LaunchAction::CheckLicense { auth: LicenseAuth::Direct(persona, password), .. }
            if persona == "persona" && password == "secret"
    ));
    // There are no cloud saves without an account.
    let (l, a) = go(l, LaunchEvent::LicenseNeeded(false));
    assert!(matches!(a, LaunchAction::FindBootstrap));
    let (l, _) = go(l, LaunchEvent::Bootstrap { exists: true, launch_args: None });
    let (l, a) = go(l, LaunchEvent::User(session()));
    assert!(matches!(a, LaunchAction::Spawn));
    let plan = l.plan();
    assert_eq!(plan.bootstrap.args, vec!["-given"]);
    assert_eq!(value(&plan.env, "EAGenericAuthToken"), vec![""]);
    assert_eq!(value(&plan.env, "EALaunchOOAUserEmail"), vec!["persona"]);
    assert_eq!(value(&plan.env, "EALaunchOOAUserPass"), vec!["secret"]);
    assert_eq!(value(&plan.env, "EAOnErrorExitRetCode"), vec!["1", "1"]);
}

#[test]
fn a_named_path_needs_no_installation() {
    let (l, a) = with_offer(Some("/other/game.exe"), false);
    assert!(matches!(a, LaunchAction::ResolvePath(p) if p == "/other/game.exe"));
    let (l, _) = go(l, LaunchEvent::ResolvedPath("/other/game.exe".to_string()));
    let (l, _) = go(l, LaunchEvent::SetUp);
    let (_, a) = go(l, LaunchEvent::LicenseNeeded(false));
    assert!(matches!(a, LaunchAction::FindBootstrap));
}

#[test]
fn a_refused_cloud_lock_does_not_stop_the_launch() {
    let (l, _) = with_offer(Some("/g/x.exe"), true);
    let (l, _) = go(l, LaunchEvent::ResolvedPath("/g/x.exe".to_string()));
    let (l, _) = go(l, LaunchEvent::SetUp);
    let (l, a) = go(l, LaunchEvent::LicenseNeeded(false));
    assert!(matches!(a, LaunchAction::ObtainCloudLock));
    let (_, a) = go(l, LaunchEvent::CloudLock(false));
    assert!(matches!(a, LaunchAction::FindBootstrap));
}

#[test]
fn wine_is_set_up_under_unix_alone() {
    let mode = LaunchMode::Online("o".to_string());
    let (l, _) = go(launch(mode, Some("/g/x.exe"), false, false), LaunchEvent::Start);
    let (l, _) = go(
        l,
        LaunchEvent::Offer { access_token: "t".to_string(), offer: offer(false) },
    );
    let (_, a) = go(l, LaunchEvent::ResolvedPath("/g/x.exe".to_string()));
    assert!(matches!(a, LaunchAction::CheckLicense { .. }));
}

#[test]
fn a_game_is_launched_on_windows() {
    let mode = LaunchMode::Online("o".to_string());
    let program = "C:\\Games\\bf2.exe";
    let (l, _) = go(launch(mode, Some(program), false, false), LaunchEvent::Start);
    let (l, a) = go(
        l,
        LaunchEvent::Offer { access_token: "t".to_string(), offer: offer(false) },
    );
    assert!(matches!(a, LaunchAction::ResolvePath(p) if p == program));
    let (l, _) = go(l, LaunchEvent::ResolvedPath(program.to_string()));
    let (l, _) = go(l, LaunchEvent::LicenseNeeded(false));
    let (l, _) = go(l, LaunchEvent::Bootstrap { exists: true, launch_args: None });
    let (l, _) = go(l, LaunchEvent::User(session()));
    let (l, a) = go(l, LaunchEvent::ShortToken("short".to_string()));
    assert!(matches!(a, LaunchAction::Spawn));
    assert_eq!(l.plan().current_dir, "C:\\Games");
    assert_eq!(l.plan().bootstrap.path, program);
    let context = l.into_context(None::<u8>, 1u32);
    assert_eq!(context.game_path(), "C:\\Games");
    assert_eq!(context.game_exe_filename(), "bf2.exe");
}

#[test]
fn a_game_on_a_drive_keeps_the_root() {
    let at = |program: &str| {
        let mode = LaunchMode::Online("o".to_string());
        let (l, _) = go(launch(mode, Some(program), false, false), LaunchEvent::Start);
        start_game(l, LaunchEvent::Offer { access_token: "t".to_string(), offer: offer(false) })
    };
    for (program, dir) in [("C:/bf2.exe", "C:/"), ("C:\\bf2.exe", "C:\\"), ("g/bf2.exe", "g")] {
        let (l, _) = match at(program) {
            Ok(next) => next,
            Err(_) => panic!("the launch was refused"),
        };
        assert_eq!(l.into_context(None::<u8>, 1u32).game_path(), dir);
    }
    assert!(matches!(at("C:\\"), Err(Refusal::NoParent(p)) if p == "C:\\"));
}

#[test]
fn launches_are_refused() {
    let offline = launch(LaunchMode::Offline("o".to_string()), None, false, true);
    assert!(matches!(
        refuse(offline, LaunchEvent::Start),
        Refusal::Launch(LaunchError::Offline)
    ));

    let direct = |content: &str, path: Option<&str>| {
        let mode = LaunchMode::OnlineOffline(content.to_string(), String::new(), String::new());
        launch(mode, path, false, true)
    };
    assert!(matches!(
        refuse(direct("1035052", None), LaunchEvent::Start),
        Refusal::Launch(LaunchError::GamePathOffline)
    ));
    assert!(matches!(
        refuse(direct("Origin.OFR.50.1", Some("/g/x.exe")), LaunchEvent::Start),
        Refusal::Launch(LaunchError::ContentIdAsOfferId(id)) if id == "Origin.OFR.50.1"
    ));
    assert!(matches!(
        refuse(direct("1035052", Some("/")), LaunchEvent::Start),
        Refusal::NoParent(p) if p == "/"
    ));

    let (l, _) = go(online(None, false), LaunchEvent::Start);
    let none = LaunchEvent::Offer { access_token: "t".to_string(), offer: None };
    assert!(matches!(
        refuse(l, none),
        Refusal::Launch(LaunchError::NoOfferFound(id)) if id == "Origin.OFR.1"
    ));

    let (l, _) = with_offer(None, false);
    assert!(matches!(
        refuse(l, LaunchEvent::Installed(false)),
        Refusal::Launch(LaunchError::NotInstalled(id)) if id == "OFB-EAST:1"
    ));
}

fn at_bootstrap() -> GameLaunch {
    let (l, _) = with_offer(Some("/g/x.exe"), false);
    let (l, _) = go(l, LaunchEvent::ResolvedPath("/g/x.exe".to_string()));
    let (l, _) = go(l, LaunchEvent::SetUp);
    go(l, LaunchEvent::LicenseNeeded(false)).0
}

#[test]
fn late_refusals_stop_the_launch() {
    assert!(matches!(
        refuse(at_bootstrap(), LaunchEvent::Bootstrap { exists: false, launch_args: None }),
        Refusal::Launch(LaunchError::BootstrapMissing)
    ));
    let (l, _) = go(at_bootstrap(), LaunchEvent::Bootstrap { exists: true, launch_args: None });
    let mut nobody = session();
    nobody.player_name = None;
    assert!(matches!(refuse(l, LaunchEvent::User(nobody)), Refusal::NoPlayer));
}

fn setup(skip: bool, wine: bool, eac: bool, umu: bool) -> Vec<SetupStep> {
    let mut steps = Vec::new();
    let mut step = mx_linux_setup(SetupStep::Begin, SetupOutcome::Begin { skip });
    while step != SetupStep::Finished {
        steps.push(step);
        let outcome = match step {
            SetupStep::CheckWine => SetupOutcome::Checked(wine),
            SetupStep::CheckRuntime(Runtime::Eac) => SetupOutcome::Checked(eac),
            SetupStep::CheckRuntime(Runtime::Umu) => SetupOutcome::Checked(umu),
            _ => SetupOutcome::Done,
        };
        step = mx_linux_setup(step, outcome);
    }
    steps
}

#[test]
fn wine_is_set_up_in_order() {
    assert_eq!(setup(true, false, false, false), vec![SetupStep::SetUpRegistry]);
    assert_eq!(
        setup(false, true, true, true),
        vec![
            SetupStep::CheckWine,
            SetupStep::GetRuntimes,
            SetupStep::CheckRuntime(Runtime::Eac),
            SetupStep::CheckRuntime(Runtime::Umu),
            SetupStep::SetUpRegistry,
        ]
    );
    assert_eq!(
        setup(false, false, false, false),
        vec![
            SetupStep::CheckWine,
            SetupStep::InstallWine,
            SetupStep::GetRuntimes,
            SetupStep::CheckRuntime(Runtime::Eac),
            SetupStep::InstallRuntime(Runtime::Eac),
            SetupStep::CheckRuntime(Runtime::Umu),
            SetupStep::InstallRuntime(Runtime::Umu),
            SetupStep::SetUpRegistry,
        ]
    );
    assert_eq!(Runtime::Eac.key(), "eac_runtime");
    assert_eq!(Runtime::Umu.key(), "umu");
}
