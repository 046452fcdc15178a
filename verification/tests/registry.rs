use maxima::registry::error::RegistryError;
use maxima::registry::steam::{
    game_dir_candidates, libraryfolders_path, manifest_path, parse_appmanifest_acf,
    parse_libraryfolders_vdf, read_game_path, slug_to_steam_appid, steam_appid_of_form,
    steam_root_candidates,
};

#[test]
fn slug_maps_battlefront_variants_to_appid() {
    assert_eq!(slug_to_steam_appid("bf2"), Some(1237950));
    assert_eq!(slug_to_steam_appid("BF2"), Some(1237950));
    assert_eq!(slug_to_steam_appid("swbf2"), Some(1237950));
    assert_eq!(
        slug_to_steam_appid("STAR WARS Battlefront II"),
        Some(1237950)
    );
    assert_eq!(
        slug_to_steam_appid("starwarsbattlefront2"),
        Some(1237950)
    );
}

#[test]
fn slug_rejects_unknown_games() {
    assert_eq!(slug_to_steam_appid(""), None);
    assert_eq!(slug_to_steam_appid("apex"), None);
    assert_eq!(slug_to_steam_appid("battlefield-1"), None);
}

#[test]
fn parses_libraryfolders_vdf_with_multiple_entries() {
    let vdf = r#"
"libraryfolders"
{
    "0"
    {
        "path"      "/home/user/.local/share/Steam"
        "label"     ""
        "totalsize"     "0"
    }
    "1"
    {
        "path"      "/mnt/Games/SteamLibrary"
        "label"     ""
        "totalsize"     "1000000"
    }
}
"#;
    let libs = parse_libraryfolders_vdf(vdf);
    assert_eq!(
        libs,
        vec![
            "/home/user/.local/share/Steam".to_string(),
            "/mnt/Games/SteamLibrary".to_string(),
        ]
    );
}

#[test]
fn parses_libraryfolders_vdf_returns_empty_for_garbage() {
    let libs = parse_libraryfolders_vdf("not a vdf at all");
    assert!(libs.is_empty());
}

#[test]
fn parses_appmanifest_acf_extracts_installdir() {
    let acf = r#"
"AppState"
{
    "appid"             "1237950"
    "name"              "STAR WARS Battlefront II"
    "installdir"        "STAR WARS Battlefront II"
    "LastUpdated"       "1700000000"
}
"#;
    assert_eq!(
        parse_appmanifest_acf(acf),
        Some("STAR WARS Battlefront II".to_string())
    );
}

#[test]
fn parses_appmanifest_acf_returns_none_when_missing() {
    let acf = r#"
"AppState"
{
    "appid"     "1237950"
    "name"      "STAR WARS Battlefront II"
}
"#;
    assert_eq!(parse_appmanifest_acf(acf), None);
}

#[test]
fn slug_ignores_white_space_and_year() {
    assert_eq!(
        slug_to_steam_appid("\tStar Wars Battlefront II (2017)\u{a0}"),
        Some(1237950)
    );
    assert_eq!(steam_appid_of_form("starwarsbattlefrontii(2017)"), Some(1237950));
    assert_eq!(steam_appid_of_form("SWBF2"), None);
}

#[test]
fn library_paths_are_unescaped() {
    assert_eq!(
        parse_libraryfolders_vdf("\"path\"\t\"D:\\\\Games\\\\Steam\" \"path\" \"/b\""),
        vec!["D:\\Games\\Steam".to_string(), "/b".to_string()]
    );
    // An escaped quote belongs to the value, and a key without white space after it is none.
    assert_eq!(
        parse_libraryfolders_vdf("\"path\" \"a\\\"b\" \"path\"\"c\""),
        vec!["a\\\"b".to_string()]
    );
    // A value that is not closed is none.
    assert!(parse_libraryfolders_vdf("\"path\" \"open").is_empty());
}

#[test]
fn steam_roots_are_in_order() {
    assert_eq!(
        steam_root_candidates(Some("/custom"), Some("/home/u")),
        vec![
            "/custom",
            "/home/u/.var/app/com.valvesoftware.Steam/.steam/steam",
            "/home/u/.steam/steam",
            "/home/u/.local/share/Steam",
            "/mnt/Games/SteamLibrary",
        ]
    );
    assert_eq!(steam_root_candidates(None, None), vec!["/mnt/Games/SteamLibrary"]);
}

#[test]
fn steam_files_lie_below_the_library() {
    assert_eq!(
        libraryfolders_path("/steam"),
        "/steam/steamapps/libraryfolders.vdf"
    );
    assert_eq!(
        manifest_path("/steam/", 1237950),
        "/steam/steamapps/appmanifest_1237950.acf"
    );
}

#[test]
fn game_directories_come_from_manifests() {
    let libraries = vec![
        ("/a".to_string(), None),
        ("/b".to_string(), Some("\"installdir\" \"SWBF2\"".to_string())),
        ("/c".to_string(), Some("nothing".to_string())),
        ("/d".to_string(), Some("\"installdir\" \"Other\"".to_string())),
    ];
    assert_eq!(
        game_dir_candidates(&libraries),
        vec!["/b/steamapps/common/SWBF2", "/d/steamapps/common/Other"]
    );
}

#[test]
fn the_first_directory_that_exists_is_the_game() {
    let candidates = vec![
        ("/b".to_string(), false),
        ("/c".to_string(), true),
        ("/d".to_string(), true),
    ];
    assert_eq!(read_game_path("bf2", &candidates).ok().unwrap(), "/c");
    match read_game_path("bf2", &vec![("/b".to_string(), false)]) {
        Err(RegistryError::Key(k)) => assert_eq!(
            k,
            "No Steam installation found for app id 1237950 (slug `bf2`)"
        ),
        _ => panic!("expected an error"),
    }
    match read_game_path("apex", &candidates) {
        Err(RegistryError::Key(k)) => assert_eq!(
            k,
            "Unsupported game slug for Linux Steam detection: `apex`"
        ),
        _ => panic!("expected an error"),
    }
}
