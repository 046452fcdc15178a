use maxima::achievements::handle_query_achievements_request;
use maxima::background_service::{
    pid_reply, request_library_injection, wine_get_pid, wine_helper, PidError, WineGetPidArgs,
    WineInjectArgs,
};
use maxima::github::{
    clear_download_progress, download_finished, download_inner, download_progress,
    download_with_resume, fetch_github_release, fetch_github_releases, github_download_asset,
    github_reply, set_download_progress, stream_to_writer, transfer_start, DownloadEnd,
    DownloadError, DownloadProgress, GithubAsset, Reply, Resume, Transfer,
};
use maxima::host_namespace::{
    hostname_is_mismatched_loopback, hostname_to_look_up, Address, NamespacePlan, CLONE_NEWUSER,
    CLONE_NEWUTS,
};
use maxima::login::{
    begin_oauth_login_flow, browser_command, login_target, needs_fallback, open_login_url,
    LoginReply, LOGIN_CALLBACK_TIMEOUT,
};
use maxima::path::{
    join_path, parent_of, paths_equal, styled_file_name, styled_join, styled_parent, PathStyle,
};
use maxima::wine::command::CommandType;

#[test]
fn detection_does_not_panic() {
    let _ = hostname_is_mismatched_loopback(None, None);
    let _ = hostname_is_mismatched_loopback(Some("host\n"), Some(&vec![]));
}

#[test]
fn a_mismatched_hostname_is_seen() {
    let debian = vec![Address::V6, Address::V4(127, 0, 1, 1)];
    let usual = vec![Address::V4(127, 0, 0, 1), Address::V4(192, 168, 0, 2)];
    assert!(hostname_is_mismatched_loopback(Some("host\n"), Some(&debian)));
    assert!(!hostname_is_mismatched_loopback(Some("host\n"), Some(&usual)));
    assert!(!hostname_is_mismatched_loopback(Some("localhost\n"), Some(&debian)));
    assert!(!hostname_is_mismatched_loopback(Some("host\n"), None));
    assert!(!hostname_is_mismatched_loopback(None, Some(&debian)));
    assert_eq!(hostname_to_look_up(Some(" deck \n")).unwrap(), "deck");
    assert!(hostname_to_look_up(Some("\n")).is_none());
}

#[test]
fn the_namespace_keeps_the_user() {
    let writes = NamespacePlan::new(1000, 100).writes();
    let texts: Vec<(&str, &[u8])> =
        writes.iter().map(|w| (w.path.as_str(), w.contents.as_slice())).collect();
    assert_eq!(
        texts,
        vec![
            ("/proc/self/setgroups", b"deny".as_slice()),
            ("/proc/self/uid_map", b"1000 1000 1".as_slice()),
            ("/proc/self/gid_map", b"100 100 1".as_slice()),
        ]
    );
    assert_eq!(CLONE_NEWUSER | CLONE_NEWUTS, 0x1400_0000);
}

#[test]
fn there_are_no_achievements() {
    let answer = handle_query_achievements_request::<u8>("user", "offer");
    assert!(answer.achievement.is_empty());
}

#[test]
fn releases_are_requested() {
    let r = fetch_github_releases("a", "b");
    assert_eq!(r.url, "https://api.github.com/repos/a/b/releases");
    assert_eq!(
        r.headers,
        vec![("User-Agent".to_string(), "ArmchairDevelopers/Maxima".to_string())]
    );
    assert_eq!(
        fetch_github_release("a", "b", "latest").url,
        "https://api.github.com/repos/a/b/releases/latest"
    );
    assert_eq!(github_reply(200, "[]".to_string()).ok().unwrap(), "[]");
    assert!(matches!(
        github_reply(403, "limit".to_string()),
        Err(DownloadError::Http(body)) if body == "limit"
    ));
}

#[test]
fn progress_is_published() {
    let mut p = DownloadProgress { current: None };
    assert!(download_progress(&p).is_none());
    set_download_progress(&mut p, "a", 1, 9);
    assert_eq!(download_progress(&p), Some(("a".to_string(), 1, 9)));
    assert_eq!(stream_to_writer(&mut p, "a", 1, 4, 9), 5);
    assert_eq!(download_progress(&p), Some(("a".to_string(), 5, 9)));
    clear_download_progress(&mut p);
    assert!(download_progress(&p).is_none());
}

#[test]
fn downloads_are_resumed() {
    let mut p = DownloadProgress { current: None };
    assert_eq!(download_with_resume(&mut p, "a", 10, Some(10)), Resume::Complete);
    assert!(download_progress(&p).is_none());
    assert_eq!(download_with_resume(&mut p, "a", 10, Some(4)), Resume::From(4));
    assert_eq!(download_progress(&p), Some(("a".to_string(), 4, 10)));
    assert_eq!(download_with_resume(&mut p, "a", 10, Some(11)), Resume::From(0));
    assert_eq!(download_with_resume(&mut p, "a", 10, None), Resume::From(0));
    assert_eq!(download_with_resume(&mut p, "a", 0, Some(7)), Resume::From(7));
}

#[test]
fn ranges_are_requested() {
    let asset = GithubAsset {
        name: "a".to_string(),
        size: 10,
        browser_download_url: "https://x/a".to_string(),
    };
    let r = github_download_asset(&asset, 4);
    assert_eq!(r.url, "https://x/a");
    assert_eq!(r.headers[1], ("Range".to_string(), "bytes=4-".to_string()));
    assert_eq!(github_download_asset(&asset, 0).headers.len(), 1);
}

#[test]
fn answers_decide_what_is_written() {
    assert!(matches!(
        download_inner(4, Reply::Response(206), "a"),
        Ok(Transfer::Append(4))
    ));
    assert!(matches!(
        download_inner(4, Reply::Response(200), "a"),
        Ok(Transfer::Overwrite)
    ));
    assert!(matches!(
        download_inner(4, Reply::Refused(416), "a"),
        Ok(Transfer::Complete)
    ));
    assert!(matches!(
        download_inner(0, Reply::Refused(416), "a"),
        Err(DownloadError::Request)
    ));
    assert!(matches!(
        download_inner(4, Reply::Refused(404), "a"),
        Err(DownloadError::Request)
    ));
    assert!(matches!(
        download_inner(4, Reply::Unreachable, "a"),
        Err(DownloadError::Request)
    ));
    assert!(matches!(
        download_inner(0, Reply::Response(204), "a"),
        Err(DownloadError::Http(m)) if m == "204 a"
    ));
    assert_eq!(transfer_start(&Transfer::Append(4)), 4);
    assert_eq!(transfer_start(&Transfer::Overwrite), 0);
}

#[test]
fn an_interrupted_download_ends_complete() {
    let remote: Vec<u8> = (0..10).collect();
    let mut file: Vec<u8> = Vec::new();
    let mut p = DownloadProgress { current: None };
    loop {
        let start = match download_with_resume(&mut p, "a", 10, Some(file.len() as u64)) {
            Resume::Complete => break,
            Resume::From(start) => start,
        };
        if let Ok(Transfer::Append(n)) = download_inner(start, Reply::Response(206), "a") {
            file.truncate(n as usize);
            let end = (n as usize + 3).min(remote.len());
            file.extend_from_slice(&remote[n as usize..end]);
        }
    }
    assert_eq!(file, remote);
}

#[test]
fn a_short_file_is_reported() {
    let end = |expected: u64, end: DownloadEnd| {
        let mut p = DownloadProgress { current: None };
        set_download_progress(&mut p, "GE.tar.gz", 1, expected);
        let result = download_finished(&mut p, "GE.tar.gz", expected, end);
        assert!(download_progress(&p).is_none());
        result
    };
    assert!(end(10, DownloadEnd::Written(10)).is_ok());
    assert!(end(0, DownloadEnd::Written(3)).is_ok());
    assert!(end(10, DownloadEnd::NothingLeft).is_ok());
    assert!(matches!(
        end(516, DownloadEnd::Written(12)),
        Err(DownloadError::Http(m))
            if m == "GE.tar.gz: incomplete download (12 of 516 bytes), will resume on retry"
    ));
    assert!(matches!(
        end(10, DownloadEnd::Failed(DownloadError::Request)),
        Err(DownloadError::Request)
    ));
}

#[test]
fn the_browser_sees_the_host() {
    let env = open_login_url(
        "/tmp/.mount",
        Some(""),
        Some("/tmp/.mount/usr/share:/usr/share::/opt/share:/opt/share"),
        Some("/home/u"),
    );
    assert_eq!(
        env.xdg_data_dirs,
        "/usr/share:/opt/share:/home/u/.local/share/flatpak/exports/share:\
         /var/lib/flatpak/exports/share:/usr/local/share"
    );
    assert_eq!(env.remove.len(), 10);
    assert_eq!(env.remove[0], "GTK_PATH");
    assert_eq!(env.remove[9], "LD_LIBRARY_PATH");
    let saved = open_login_url("", Some("/saved"), Some("/current"), None);
    assert_eq!(
        saved.xdg_data_dirs,
        "/saved:/var/lib/flatpak/exports/share:/usr/local/share:/usr/share"
    );
    assert_eq!(
        open_login_url("", None, None, None).xdg_data_dirs,
        "/var/lib/flatpak/exports/share:/usr/local/share:/usr/share"
    );
    let (program, args) = browser_command("https://accounts.ea.com/?a=b c");
    assert_eq!(program, "xdg-open");
    assert_eq!(args, vec!["https://accounts.ea.com/?a=b c"]);
    assert!(!needs_fallback(Some(true)));
    assert!(needs_fallback(Some(false)));
    assert!(needs_fallback(None));
    assert_eq!(LOGIN_CALLBACK_TIMEOUT, 300);
}

#[test]
fn the_code_is_taken_from_the_request() {
    let code = |line: &str| match begin_oauth_login_flow(line) {
        LoginReply::Code(c) => c,
        _ => panic!("expected a code"),
    };
    assert_eq!(code("GET /auth?code=QUOxAC HTTP/1.1\r\n"), "QUOxAC");
    assert_eq!(code("GET  /auth/x?state=1&code=a&code=b  HTTP/1.0"), "a");
    assert_eq!(code("get /auth?code=a=b HTTP/1.1"), "a");
    assert!(matches!(begin_oauth_login_flow("GET / HTTP/1.1"), LoginReply::Ignore));
    assert!(matches!(begin_oauth_login_flow("nonsense"), LoginReply::Ignore));
    assert!(matches!(begin_oauth_login_flow("GET /auth HTTP/1.1"), LoginReply::NoQuery));
    assert!(matches!(
        begin_oauth_login_flow("GET /auth?error=1&codex HTTP/1.1"),
        LoginReply::NoAuthCode
    ));
}

#[test]
fn targets_lead_to_codes() {
    assert!(matches!(login_target("/auth?code=abc"), LoginReply::Code(c) if c == "abc"));
    assert!(matches!(login_target("/auth?code="), LoginReply::Code(c) if c.is_empty()));
    assert!(matches!(login_target("/auth?a=1?code=2"), LoginReply::NoAuthCode));
    assert!(matches!(login_target("/favicon.ico"), LoginReply::Ignore));
}

#[test]
fn the_helper_lies_beside_the_program() {
    assert_eq!(
        wine_helper("/opt/bundle/launcher", true).unwrap(),
        "/opt/bundle/cli/wine-helper.exe"
    );
    assert_eq!(
        wine_helper("/opt/bundle/launcher", false).unwrap(),
        "/opt/bundle/wine-helper.exe"
    );
    assert!(wine_helper("", true).is_none());
}

#[test]
fn the_helper_is_told_in_base64() {
    let r = wine_get_pid("/h.exe".to_string(), "{\"launch_id\":\"1\",\"name\":\"é\"}");
    assert_eq!(r.arg, "/h.exe");
    assert_eq!(r.args, vec!["get_pid", "eyJsYXVuY2hfaWQiOiIxIiwibmFtZSI6IsOpIn0="]);
    assert!(r.want_output && r.cwd.is_none() && r.command_type == CommandType::RunInPrefix);
    let r = request_library_injection("/h.exe".to_string(), "{}");
    assert_eq!(r.args, vec!["inject", "e30="]);
    assert!(!r.want_output && r.command_type == CommandType::RunInPrefix);
    let r = request_library_injection(String::new(), "");
    assert_eq!(r.args[1], "");
    assert!(WineGetPidArgs::default().name.is_empty());
    assert_eq!(WineInjectArgs::default().pid, 0);
}

#[test]
fn the_process_is_read_from_the_output() {
    let pid = |output: &str| pid_reply(output, "b64");
    assert_eq!(pid("fixme\nwine-helper: PID 312\nwine-helper: PID 9\n").ok().unwrap(), 312);
    assert_eq!(pid("wine-helper: PID +7").ok().unwrap(), 7);
    assert!(matches!(
        pid("wine-helper: PID 1\nFailed to find PID"),
        Err(PidError::NotFound(b)) if b == "b64"
    ));
    assert!(matches!(pid("wine-helper: nothing"), Err(PidError::Pattern)));
    assert!(matches!(pid("wine-helper: PID twelve"), Err(PidError::Number)));
    assert!(matches!(pid("wine-helper: PID 4294967296"), Err(PidError::Number)));
    assert!(matches!(pid("wine-helper: PID "), Err(PidError::Number)));
}

#[test]
fn paths_are_taken_apart() {
    assert_eq!(join_path("/a", "b"), "/a/b");
    assert_eq!(join_path("/a/", "b"), "/a/b");
    assert_eq!(join_path("/a", "/b"), "/b");
    assert_eq!(join_path("", "b"), "b");
    for p in ["/a/b", "/a/b/", "/a//b", "a/b/.", "/a/..", "..", ".", "/", "", "a", "./a", "/a", "//a"] {
        let std_path = std::path::Path::new(p);
        assert_eq!(
            parent_of(p).as_deref(),
            std_path.parent().map(|x| x.to_str().unwrap()),
            "{}",
            p
        );
        assert_eq!(
            styled_file_name(PathStyle::Unix, p).as_deref(),
            std_path.file_name().map(|x| x.to_str().unwrap()),
            "{}",
            p
        );
        for q in ["/a/b", "a/b", "./a", "a", "/", ""] {
            assert_eq!(paths_equal(p, q), std_path == std::path::Path::new(q), "{} {}", p, q);
            assert_eq!(join_path(p, q), std_path.join(q).to_str().unwrap(), "{} {}", p, q);
        }
    }
}

#[test]
fn windows_paths_have_drives_and_two_separators() {
    let cases: [(&str, Option<&str>, Option<&str>); 17] = [
        ("C:\\Games\\bf2.exe", Some("C:\\Games"), Some("bf2.exe")),
        ("C:/Games\\bf2.exe", Some("C:/Games"), Some("bf2.exe")),
        ("C:\\Games\\\\bf2.exe\\", Some("C:\\Games"), Some("bf2.exe")),
        ("c:/bf2.exe", Some("c:/"), Some("bf2.exe")),
        ("C:bf2.exe", Some("C:"), Some("bf2.exe")),
        ("C:.\\bf2.exe", Some("C:."), Some("bf2.exe")),
        ("C:\\a\\.\\b", Some("C:\\a"), Some("b")),
        ("C:\\a\\..", Some("C:\\a"), None),
        ("\\bf2.exe", Some("\\"), Some("bf2.exe")),
        ("a\\b", Some("a"), Some("b")),
        ("a", Some(""), Some("a")),
        ("1:\\a", Some("1:"), Some("a")),
        ("C:\\", None, None),
        ("C:", None, None),
        ("C:.", None, None),
        ("/", None, None),
        ("", None, None),
    ];
    for (path, parent, name) in cases {
        assert_eq!(styled_parent(PathStyle::Windows, path).as_deref(), parent, "{}", path);
        assert_eq!(styled_file_name(PathStyle::Windows, path).as_deref(), name, "{}", path);
    }
    assert_eq!(styled_parent(PathStyle::Unix, "C:\\a\\b").as_deref(), Some(""));
}

#[test]
fn windows_paths_have_prefixes() {
    let cases: [(&str, Option<&str>, Option<&str>); 27] = [
        // Shares and servers.
        ("\\\\srv\\sh\\g\\bf2.exe", Some("\\\\srv\\sh\\g"), Some("bf2.exe")),
        ("\\\\srv\\sh\\bf2.exe", Some("\\\\srv\\sh\\"), Some("bf2.exe")),
        ("//srv/sh/bf2.exe", Some("//srv/sh/"), Some("bf2.exe")),
        ("\\\\srv\\sh\\", None, None),
        ("\\\\srv\\sh", None, None),
        ("\\\\srv", Some("\\"), Some("srv")),
        ("\\\\srv\\\\bf2.exe", Some("\\\\srv"), Some("bf2.exe")),
        ("\\\\sh", Some("\\"), Some("sh")),
        ("\\\\?", Some("\\"), Some("?")),
        // Devices.
        ("\\\\.\\COM1\\a", Some("\\\\.\\COM1\\"), Some("a")),
        ("\\\\.\\COM1/a", Some("\\\\.\\COM1/"), Some("a")),
        ("\\\\.\\COM1\\a/b", Some("\\\\.\\COM1\\a"), Some("b")),
        ("\\\\.\\COM1", None, None),
        ("\\\\.\\", None, None),
        // Verbatim prefixes, below which only `\` parts components.
        ("\\\\?\\C:\\bf2.exe", Some("\\\\?\\C:\\"), Some("bf2.exe")),
        ("\\\\?\\C:\\g\\bf2.exe", Some("\\\\?\\C:\\g"), Some("bf2.exe")),
        ("\\\\?\\C:/a/b", Some("\\\\?\\C:/"), Some("a/b")),
        ("\\\\?\\C:\\a\\.", Some("\\\\?\\C:\\a"), None),
        ("\\\\?\\C:\\", None, None),
        ("\\\\?\\C:", None, None),
        ("\\\\?\\a\\b\\", Some("\\\\?\\a\\"), Some("b")),
        ("\\\\?\\a/b", None, None),
        ("\\\\?\\", None, None),
        ("\\\\?\\UNC\\srv\\sh\\b", Some("\\\\?\\UNC\\srv\\sh\\"), Some("b")),
        ("\\\\?\\UNC\\srv\\sh", None, None),
        ("\\\\?\\UNC\\srv", None, None),
        // With `/` among the first characters, nothing is verbatim.
        ("//?/C:/a", Some("//?/C:/"), Some("a")),
    ];
    for (path, parent, name) in cases {
        assert_eq!(styled_parent(PathStyle::Windows, path).as_deref(), parent, "{}", path);
        assert_eq!(styled_file_name(PathStyle::Windows, path).as_deref(), name, "{}", path);
    }
}

#[test]
fn windows_paths_are_joined() {
    let cases: [(&str, &str, &str); 20] = [
        ("C:\\a", "b", "C:\\a\\b"),
        ("C:\\a/", "b", "C:\\a/b"),
        ("C:\\", "b", "C:\\b"),
        ("C:", "b", "C:b"),
        ("", "b", "b"),
        ("C:\\a", "D:b", "D:b"),
        ("C:\\a", "\\\\srv\\sh", "\\\\srv\\sh"),
        ("C:\\a", "\\b", "C:\\b"),
        ("\\\\srv\\sh\\a", "/b", "\\\\srv\\sh/b"),
        ("\\\\srv\\sh", "b", "\\\\srv\\sh\\b"),
        ("a", "\\b", "\\b"),
        ("C:\\a", "..\\b", "C:\\a\\..\\b"),
        // Below a verbatim prefix, `.` and `..` are followed.
        ("\\\\?\\C:\\a", "b/c", "\\\\?\\C:\\a\\b\\c"),
        ("\\\\?\\C:\\a", "..\\.\\b", "\\\\?\\C:\\b"),
        ("\\\\?\\C:\\a", "../../../b", "\\\\?\\C:\\b"),
        ("\\\\?\\C:\\a", "/b", "\\\\?\\C:\\b"),
        ("\\\\?\\C:/a\\.", "..", "\\\\?\\C:\\a\\."),
        ("\\\\?\\C:", "b", "\\\\?\\C:\\b"),
        ("\\\\?\\C:", ".", "\\\\?\\C:"),
        ("\\\\?\\C:\\a", "", "\\\\?\\C:\\a\\"),
    ];
    for (base, rel, joined) in cases {
        assert_eq!(styled_join(PathStyle::Windows, base, rel), joined, "{} {}", base, rel);
    }
    assert_eq!(styled_join(PathStyle::Unix, "C:\\a", "D:b"), "C:\\a/D:b");
}
