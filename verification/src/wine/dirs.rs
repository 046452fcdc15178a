//! Where the prefix, Proton and the runtimes lie, below the launcher's data directory.

use vstd::prelude::*;
use crate::path;
use crate::path::join_path;
use crate::text;
use crate::text::{cat, split_text};

verus! {

/// The file that records the versions of what was installed.
pub const VERSION_FILE: &'static str = "dependency-versions.toml";

/// The prefix that the launcher manages.
pub fn default_wine_prefix_dir(maxima_dir: &str) -> (r: String)
    ensures
        r@ == path::path_join(maxima_dir@, "wine/prefix"@),
{
    join_path(maxima_dir, "wine/prefix")
}

/// The prefix that is used. It is always the managed one, also with a Proton that the user
/// chose, so that the state of the game's client is shared.
pub fn wine_prefix_dir(maxima_dir: &str) -> (r: String)
    ensures
        r@ == path::path_join(maxima_dir@, "wine/prefix"@),
{
    default_wine_prefix_dir(maxima_dir)
}

/// The mount point of Proton.
pub fn default_proton_dir(maxima_dir: &str) -> (r: String)
    ensures
        r@ == path::path_join(maxima_dir@, "wine/proton"@),
{
    join_path(maxima_dir, "wine/proton")
}

/// Where the managed Proton is kept while a link stands at the mount point.
pub fn proton_backup_dir(maxima_dir: &str) -> (r: String)
    ensures
        r@ == path::path_join(maxima_dir@, "wine/proton"@) + ".maxima-backup"@,
{
    let proton = default_proton_dir(maxima_dir);
    cat(proton.as_str(), ".maxima-backup")
}

/// The directory of everything around Wine.
pub fn wine_dir(maxima_dir: &str) -> (r: String)
    ensures
        r@ == path::path_join(maxima_dir@, "wine"@),
{
    join_path(maxima_dir, "wine")
}

/// The directory of the anti-cheat runtime.
pub fn eac_dir(maxima_dir: &str) -> (r: String)
    ensures
        r@ == path::path_join(maxima_dir@, "wine/eac_runtime"@),
{
    join_path(maxima_dir, "wine/eac_runtime")
}

/// The program that runs Proton.
pub fn umu_bin(maxima_dir: &str) -> (r: String)
    ensures
        r@ == path::path_join(maxima_dir@, "wine/umu/umu-run"@),
{
    join_path(maxima_dir, "wine/umu/umu-run")
}

/// The file that a game launch writes its output to when that is asked for.
pub fn game_launch_log_path(maxima_dir: &str) -> (r: String)
    ensures
        r@ == path::path_join(maxima_dir@, "wine/last-game-launch.log"@),
{
    join_path(maxima_dir, "wine/last-game-launch.log")
}

/// The file that records the versions of what was installed.
pub fn version_file(maxima_dir: &str) -> (r: String)
    ensures
        r@ == path::path_join(maxima_dir@, VERSION_FILE@),
{
    join_path(maxima_dir, VERSION_FILE)
}

/// The file that holds the path of the Proton that the user chose.
pub fn custom_proton_file(maxima_dir: &str) -> (r: String)
    ensures
        r@ == path::path_join(maxima_dir@, "custom_proton_path"@),
{
    join_path(maxima_dir, "custom_proton_path")
}

/// Where an archive of a release is downloaded to.
pub fn download_path(maxima_dir: &str, asset_name: &str) -> (r: String)
    ensures
        r@ == path::path_join(path::path_join(maxima_dir@, "downloads"@), asset_name@),
{
    let dir = join_path(maxima_dir, "downloads");
    join_path(dir.as_str(), asset_name)
}

/// Where `umu-run` keeps its Steam runtime, given `XDG_DATA_HOME` and `HOME`.
pub open spec fn steamrt3_dir(
    xdg_data_home: Option<Seq<char>>,
    home: Option<Seq<char>>,
) -> Option<Seq<char>> {
    let base = match (xdg_data_home, home) {
        (Some(xdg), _) => Some(xdg),
        (None, Some(h)) => Some(path::path_join(h, ".local/share"@)),
        (None, None) => None,
    };
    match base {
        Some(b) => Some(path::path_join(path::path_join(b, "umu"@), "steamrt3"@)),
        None => None,
    }
}

/// Where `umu-run` keeps its Steam runtime. It inherits both variables from the launcher,
/// so this is the directory that it reads.
pub fn umu_steamrt3_dir(xdg_data_home: Option<&str>, home: Option<&str>) -> (r: Option<String>)
    ensures
        text::opt_string(r) == steamrt3_dir(text::opt_str(xdg_data_home), text::opt_str(home)),
{
    let base = match xdg_data_home {
        Some(xdg) => xdg.to_owned(),
        None => match home {
            Some(h) => join_path(h, ".local/share"),
            None => return None,
        },
    };
    let umu = join_path(base.as_str(), "umu");
    Some(join_path(umu.as_str(), "steamrt3"))
}

/// Where `gamemoderun` could lie: in each directory of `PATH`, in order.
pub open spec fn gamemode_paths(path_var: Seq<char>) -> Seq<Seq<char>> {
    text::split(path_var, ':').map_values(|d: Seq<char>| path::path_join(d, "gamemoderun"@))
}

/// Where `gamemoderun` could lie: in each directory of `PATH`, in order.
pub fn gamemoderun_candidates(path_var: &str) -> (r: Vec<String>)
    ensures
        text::views(r@) == gamemode_paths(path_var@),
{
    let dirs = split_text(path_var, ':');
    let ghost all = gamemode_paths(path_var@);
    let mut out: Vec<String> = Vec::new();
    let mut i: usize = 0;
    while i < dirs.len()
        invariant
            i <= dirs@.len(),
            text::views(dirs@) == text::split(path_var@, ':'),
            all == gamemode_paths(path_var@),
            text::views(out@) == all.take(i as int),
        decreases dirs@.len() - i,
    {
        let ghost before = text::views(out@);
        assert(text::views(dirs@)[i as int] == dirs@[i as int]@);
        let p = join_path(dirs[i].as_str(), "gamemoderun");
        assert(p@ == all[i as int]);
        out.push(p);
        assert(text::views(out@) =~= before.push(all[i as int]));
        assert(all.take(i + 1) =~= before.push(all[i as int]));
        i += 1;
    }
    assert(all.len() == text::views(dirs@).len());
    assert(all.take(all.len() as int) =~= all);
    out
}

/// The runtime of `umu-run` lies below `XDG_DATA_HOME`, whatever the home directory is; below
/// the home directory's data where that is not set; and nowhere where neither is.
pub proof fn data_home_comes_before_home(xdg: Seq<char>, home: Seq<char>)
    ensures
        steamrt3_dir(Some(xdg), Some(home)) == steamrt3_dir(Some(xdg), None),
        steamrt3_dir(Some(xdg), None) == Some(
            path::path_join(path::path_join(xdg, "umu"@), "steamrt3"@),
        ),
        steamrt3_dir(None, Some(home)) == steamrt3_dir(
            Some(path::path_join(home, ".local/share"@)),
            None,
        ),
        steamrt3_dir(None, None) is None,
{
}

/// Each directory of `PATH` is looked at, in order.
pub proof fn every_directory_is_looked_at(a: Seq<char>, dir: Seq<char>)
    requires
        !dir.contains(':'),
    ensures
        gamemode_paths(dir) == seq![path::path_join(dir, "gamemoderun"@)],
        gamemode_paths(a + seq![':'] + dir) == gamemode_paths(a).push(
            path::path_join(dir, "gamemoderun"@),
        ),
{
    text::text_without_separators_is_one_piece(dir, ':', ':');
    text::separator_parts_pieces(a, ':', dir, ':', ':');
    assert(gamemode_paths(dir) =~= seq![path::path_join(dir, "gamemoderun"@)]);
    assert(gamemode_paths(a + seq![':'] + dir) =~= gamemode_paths(a).push(
        path::path_join(dir, "gamemoderun"@),
    ));
}

} // verus!
