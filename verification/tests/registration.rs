use maxima::registry::error::RegistryError;
use maxima::path::PathStyle;
use maxima::registry::resolve::{parse_partial_registry_path, parse_registry_path, registry_key};
use maxima::registry::{linux, macos, windows};

#[test]
fn error_messages_are_worded() {
    let message = |e: RegistryError| e.message().unwrap();
    assert_eq!(message(RegistryError::Key("K".to_string())), "registry key `K` not found");
    assert_eq!(
        message(RegistryError::Value { value: "v".to_string(), key: "k".to_string() }),
        "failed to get `v` of registry key `k`"
    );
    assert_eq!(message(RegistryError::InvalidInstallKey), "install key is invalid");
    assert_eq!(message(RegistryError::InvalidStoredClientPath), "invalid stored client path");
    assert_eq!(message(RegistryError::InvalidQrcProtocol), "invalid qrc protocol");
    assert_eq!(
        message(RegistryError::XdgMime),
        "xdg-mime command is not available. Please install xdg-utils"
    );
    assert_eq!(
        message(RegistryError::MimeSet { mime_type: "t".to_string(), error: "e".to_string() }),
        "Failed to set MIME type association for t: e"
    );
    assert_eq!(message(RegistryError::XdgQueryFailed), "failed to query mime status");
    assert_eq!(message(RegistryError::QrcUnregistered), "QRC protocol is not registered");
    assert!(RegistryError::ContainsNul(3).message().is_none());
    assert!(RegistryError::Elevation("p".to_string()).message().is_none());
}

#[test]
fn a_key_in_brackets_is_read() {
    let key = "[HKEY_LOCAL_MACHINE\\SOFTWARE\\EA Games\\Game\\Install Dir]\\bin\\game.exe";
    assert_eq!(
        registry_key(key).unwrap(),
        "HKEY_LOCAL_MACHINE\\SOFTWARE\\EA Games\\Game\\Install Dir"
    );
    let full = parse_registry_path(PathStyle::Unix, key, Some("C:\\\\Games\\Game\\"));
    assert_eq!(full.path, "C:/Games/Game/bin/game.exe");
    assert!(!full.any_case);
    let partial = parse_partial_registry_path(key, Some("C:\\\\Games\\Game\\"));
    assert_eq!(partial.path, "C://Games/Game/");
    assert!(!partial.any_case);
}

#[test]
fn a_key_is_read_on_windows() {
    let at = |key: &str, value: &str| parse_registry_path(PathStyle::Windows, key, Some(value)).path;
    assert_eq!(at("[K\\D]\\bin\\game.exe", "C:\\Games\\"), "C:/Games/bin/game.exe");
    assert_eq!(at("[K\\D]\\bin\\game.exe", "C:\\Games"), "C:/Games\\bin/game.exe");
    // A rest with a drive of its own replaces the value.
    assert_eq!(at("[K\\D]\\D:\\game.exe", "C:\\Games"), "D:/game.exe");
    assert_eq!(at("[K\\D]D:game.exe", "C:\\Games"), "D:game.exe");
    // A rest with a root keeps the drive of the value.
    assert_eq!(at("[K\\D]\\\\game.exe", "C:\\Games"), "C:/game.exe");
    assert_eq!(at("[K\\D]\\game.exe", "C:"), "C:game.exe");
    // Two separators before a server and a share make a path of their own.
    assert_eq!(at("[K\\D]\\\\\\srv\\sh\\g.exe", "C:\\Games"), "//srv/sh/g.exe");
    let rooted = parse_registry_path(PathStyle::Unix, "[K]\\\\game.exe", Some("C:\\Games"));
    assert_eq!(rooted.path, "/game.exe");
    let drive = parse_registry_path(PathStyle::Unix, "[K]\\D:\\game.exe", Some("C:\\Games"));
    assert_eq!(drive.path, "C:/Games/D:/game.exe");
}

#[test]
fn a_key_without_a_value_stays() {
    let key = "[KEY]\\game.exe";
    let full = parse_registry_path(PathStyle::Unix, key, None);
    assert_eq!(full.path, key);
    assert!(!full.any_case);
    assert_eq!(parse_partial_registry_path(key, None).path, key);
}

#[test]
fn a_plain_path_is_looked_up_in_any_case() {
    assert!(registry_key("/games/game.exe").is_none());
    assert!(registry_key("[KEY]").is_none());
    assert!(registry_key("").is_none());
    let full = parse_registry_path(PathStyle::Unix, "/games/Game.exe", None);
    assert_eq!(full.path, "/games/Game.exe");
    assert!(full.any_case);
    assert!(parse_partial_registry_path("[KEY]", Some("x")).any_case);
}

#[test]
fn bootstrap_lies_beside_the_program() {
    assert_eq!(
        linux::bootstrap_path("/opt/bundle/launcher", true).unwrap(),
        "/opt/bundle/cli/maxima-bootstrap"
    );
    assert_eq!(
        linux::bootstrap_path("/opt/bundle/launcher", false).unwrap(),
        "/opt/bundle/maxima-bootstrap"
    );
    assert!(linux::bootstrap_path("/", false).is_none());
    assert_eq!(
        macos::bootstrap_path("/Applications/maxima").unwrap(),
        "/Applications/bundle/osx/MaximaBootstrap.app/Contents/MacOS/maxima-bootstrap"
    );
    assert!(macos::bootstrap_path("").is_none());
    assert_eq!(
        windows::bootstrap_path("C:\\x\\maxima.exe").unwrap(),
        "C:\\x\\maxima-bootstrap.exe"
    );
    assert_eq!(
        windows::bootstrap_path("C:/Maxima/maxima.exe").unwrap(),
        "C:/Maxima\\maxima-bootstrap.exe"
    );
    assert_eq!(windows::bootstrap_path("C:\\maxima.exe").unwrap(), "C:\\maxima-bootstrap.exe");
    assert_eq!(windows::bootstrap_path("C:maxima.exe").unwrap(), "C:maxima-bootstrap.exe");
    assert_eq!(windows::bootstrap_path("maxima.exe").unwrap(), "maxima-bootstrap.exe");
    assert!(windows::bootstrap_path("C:\\").is_none());
    assert!(windows::bootstrap_path("C:").is_none());
    assert_eq!(
        windows::bootstrap_path("\\\\srv\\sh\\maxima.exe").unwrap(),
        "\\\\srv\\sh\\maxima-bootstrap.exe"
    );
    assert_eq!(
        windows::bootstrap_path("\\\\?\\C:\\x\\maxima.exe").unwrap(),
        "\\\\?\\C:\\x\\maxima-bootstrap.exe"
    );
    assert!(windows::bootstrap_path("\\\\srv\\sh").is_none());
    assert!(windows::bootstrap_path("/").is_none());
}

#[test]
fn the_desktop_file_names_the_program() {
    match linux::set_up_registry("/opt/maxima-bootstrap", "/home/u/.local/share/maxima", None) {
        linux::Registration::Write(entry) => {
            assert_eq!(
                entry.path,
                "/home/u/.local/share/applications/maxima-qrc.desktop"
            );
            assert_eq!(
                entry.contents,
                "[Desktop Entry]\nType=Application\nName=Maxima Launcher\n\
                 MimeType=x-scheme-handler/qrc\nExec=/opt/maxima-bootstrap %u\n\
                 NoDisplay=true\nStartupNotify=true\n"
            );
            assert_eq!(entry.file_name, "maxima-qrc.desktop");
            assert_eq!(entry.mime_type, "x-scheme-handler/qrc");
        }
        _ => panic!("expected a file"),
    }
}

#[test]
fn a_package_is_not_registered_again() {
    assert!(matches!(
        linux::set_up_registry("/b", "/home/u/maxima", Some("1")),
        linux::Registration::Packaged
    ));
    assert!(matches!(
        linux::register_custom_protocol("p", "n", "e", "/home/u/maxima", Some("0")),
        linux::Registration::Write(_)
    ));
    assert!(matches!(
        linux::register_custom_protocol("p", "n", "e", "/", None),
        linux::Registration::NoParent
    ));
}

#[test]
fn mime_types_are_set_with_xdg_mime() {
    assert_eq!(
        linux::set_mime_type(true, "x-scheme-handler/qrc", "maxima-qrc.desktop").ok().unwrap(),
        vec!["default", "maxima-qrc.desktop", "x-scheme-handler/qrc"]
    );
    assert!(matches!(
        linux::set_mime_type(false, "t", "f"),
        Err(RegistryError::XdgMime)
    ));
    assert!(linux::mime_type_set("t", true, b"ignored").is_ok());
    match linux::mime_type_set("t", false, b"no \xff file") {
        Err(RegistryError::MimeSet { mime_type, error }) => {
            assert_eq!(mime_type, "t");
            assert_eq!(error, "no \u{fffd} file");
        }
        _ => panic!("expected an error"),
    }
}

#[test]
fn the_handler_is_recognised_by_its_file() {
    assert_eq!(
        linux::handler_query("qrc"),
        vec!["query", "default", "x-scheme-handler/qrc"]
    );
    assert!(linux::verify_protocol_handler("qrc", true, b"maxima-qrc.desktop\n").ok().unwrap());
    assert!(!linux::verify_protocol_handler("qrc", true, b"maxima-qrc.desktop").ok().unwrap());
    assert!(!linux::verify_protocol_handler("qrc", true, b"").ok().unwrap());
    assert!(!linux::verify_protocol_handler("qrc", true, b"firefox.desktop\n").ok().unwrap());
    assert!(matches!(
        linux::verify_protocol_handler("qrc", false, b"maxima-qrc.desktop\n"),
        Err(RegistryError::XdgQueryFailed)
    ));
    assert!(linux::is_launcher_answer("maxima-origin2.desktop\n", "origin2"));
    assert!(!linux::is_launcher_answer("maxima-origin2.desktop\n", "qrc"));
}

#[test]
fn registration_is_checked_on_linux() {
    let check = linux::check_registry_validity;
    assert_eq!(check(true, None, None).ok().unwrap(), linux::ValidityStep::Valid);
    assert_eq!(check(false, Some("1"), None).ok().unwrap(), linux::ValidityStep::Valid);
    assert_eq!(check(false, Some("0"), None).ok().unwrap(), linux::ValidityStep::AskHandler);
    assert_eq!(check(false, None, Some(true)).ok().unwrap(), linux::ValidityStep::Valid);
    assert!(matches!(
        check(false, None, Some(false)),
        Err(RegistryError::QrcUnregistered)
    ));
}

#[test]
fn macos_runs_the_bundle() {
    assert_eq!(macos::set_up_registry(), vec!["--noop"]);
    assert_eq!(
        macos::verify_protocol_handler("qrc"),
        vec!["qrc://", "--args", "--noop"]
    );
}

#[test]
fn windows_values_are_written_in_order() {
    let writes = windows::set_up_registry(windows::REG_ARCH_PATH, "C:/b.exe");
    let texts: Vec<(windows::RegRoot, &str, &str, &str)> = writes
        .iter()
        .map(|w| (w.root, w.key.as_str(), w.name.as_str(), w.data.as_str()))
        .collect();
    assert_eq!(
        texts,
        vec![
            (
                windows::RegRoot::LocalMachine,
                "SOFTWARE\\WOW6432Node\\Origin",
                "ClientPath",
                "C:/b.exe"
            ),
            (
                windows::RegRoot::LocalMachine,
                "SOFTWARE\\Electronic Arts\\EA Desktop",
                "InstallSuccessful",
                "true"
            ),
            (windows::RegRoot::ClassesRoot, "qrc", "", "URL:Maxima Protocol"),
            (windows::RegRoot::ClassesRoot, "qrc", "URL Protocol", ""),
            (
                windows::RegRoot::ClassesRoot,
                "qrc\\shell\\open\\command",
                "",
                "\"C:/b.exe\" \"%1\""
            ),
        ]
    );
    assert_eq!(
        windows::set_up_registry(windows::REG_ARCH_PATH_32, "b")[0].key,
        "SOFTWARE\\Origin"
    );
}

#[test]
fn windows_setup_passes_the_check() {
    let writes = windows::set_up_registry(windows::REG_ARCH_PATH, "C:/b.exe");
    let stored = writes.iter().find(|w| w.name == "ClientPath").unwrap();
    let install = writes.iter().find(|w| w.name == "InstallSuccessful").unwrap();
    let has_protocol = writes.iter().any(|w| w.key == "qrc");
    assert_eq!(
        windows::check_registry_validity(
            "C:/b.exe",
            &stored.data,
            Some(&install.data),
            Some(has_protocol)
        )
        .ok()
        .unwrap(),
        windows::ValidityStep::Valid
    );
}

#[test]
fn registration_is_checked_on_windows() {
    let check = windows::check_registry_validity;
    assert!(matches!(
        check("a", "b", None, None),
        Err(RegistryError::InvalidStoredClientPath)
    ));
    assert_eq!(
        check("a", "a", None, None).ok().unwrap(),
        windows::ValidityStep::ReadInstallSuccessful
    );
    assert!(matches!(
        check("a", "a", Some("yes"), None),
        Err(RegistryError::InvalidInstallKey)
    ));
    assert_eq!(
        check("a", "a", Some("true"), None).ok().unwrap(),
        windows::ValidityStep::FindProtocol
    );
    assert!(matches!(
        check("a", "a", Some("true"), Some(false)),
        Err(RegistryError::InvalidQrcProtocol)
    ));
}

#[test]
fn windows_games_have_two_keys() {
    assert_eq!(
        windows::read_game_path("G", true, true).ok().unwrap(),
        "SOFTWARE\\EA Games\\G"
    );
    assert_eq!(
        windows::read_game_path("G", false, true).ok().unwrap(),
        "SOFTWARE\\WOW6432Node\\EA Games\\G"
    );
    assert!(matches!(
        windows::read_game_path("G", false, false),
        Err(RegistryError::Key(k)) if k == "SOFTWARE\\EA Games\\G"
    ));
}

#[test]
fn elevation_is_asked_for_in_utf16() {
    let plan = windows::launch_bootstrap("C:/é😀.exe");
    let wide = |s: &str| s.encode_utf16().chain(Some(0)).collect::<Vec<u16>>();
    assert_eq!(plan.verb, wide("runas"));
    assert_eq!(plan.file, wide("C:/é😀.exe"));
    assert_eq!(plan.parameters, vec![0]);
    assert!(windows::bootstrap_launched("p", 0).is_ok());
    assert!(matches!(
        windows::bootstrap_launched("p", windows::ERROR_CANCELLED),
        Err(RegistryError::Elevation(f)) if f == "p"
    ));
}

#[test]
fn a_windows_value_is_read() {
    let (read, key) = windows::read_reg_key("HKLM\\SOFTWARE\\Game\\Install Dir")
        .ok()
        .unwrap()
        .unwrap();
    let wide = |s: &str| s.encode_utf16().chain(Some(0)).collect::<Vec<u16>>();
    assert_eq!(key, wide("SOFTWARE\\Game"));
    assert_eq!(read.opened(0).ok().unwrap(), wide("Install Dir"));
    assert_eq!(read.sized(0, 12).ok().unwrap(), 6);
    assert_eq!(read.finished(0, &wide("C:\\é")).ok().unwrap(), "C:\\é");
    // A surrogate without its other half is replaced.
    assert_eq!(read.finished(0, &vec![0xd800, 0x41, 0]).ok().unwrap(), "\u{fffd}A");
    assert!(matches!(
        read.opened(2),
        Err(RegistryError::Key(k)) if k == "SOFTWARE\\Game"
    ));
    for failed in [
        read.sized(2, 12).err(),
        read.sized(0, 0).err(),
        read.sized(2, 1).err(),
        read.finished(2, &vec![0]).err(),
    ] {
        assert!(matches!(
            failed,
            Some(RegistryError::Value { value, key })
                if value == "Install Dir" && key == "SOFTWARE\\Game"
        ));
    }
}

#[test]
fn a_path_without_backslashes_names_no_value() {
    assert!(windows::read_reg_key("nothing").ok().unwrap().is_none());
}

#[test]
fn a_zero_inside_a_name_is_refused() {
    assert!(matches!(
        windows::read_reg_key("HKLM\\So\0ft\\name"),
        Err(RegistryError::ContainsNul(2))
    ));
    let (read, _) = windows::read_reg_key("HKLM\\Soft\\n\0ame").ok().unwrap().unwrap();
    assert!(matches!(read.opened(0), Err(RegistryError::ContainsNul(1))));
    // A zero at the end is the one that has to stand there.
    let (read, key) = windows::read_reg_key("HKLM\\Soft\0\\name\0").ok().unwrap().unwrap();
    assert_eq!(key, "Soft\0".encode_utf16().collect::<Vec<u16>>());
    assert_eq!(read.opened(0).ok().unwrap(), "name\0".encode_utf16().collect::<Vec<u16>>());
}
