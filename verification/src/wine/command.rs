//! Commands that run under Wine.

use vstd::prelude::*;
use crate::launch::environment;
use crate::path;
use crate::text;
use crate::text::{ends_with, push_pair, same};
use crate::unicode;
use crate::unicode::text_of_utf8;
use crate::wine::error::WineError;
use crate::wine::dirs::{eac_dir, game_launch_log_path, default_proton_dir, umu_bin, wine_prefix_dir};

verus! {

/// The verb that Proton is run with.
#[derive(Clone, Copy, PartialEq, Eq, Structural, Debug)]
pub enum CommandType {
    /// Set the prefix up and run the command.
    Run,
    /// Wait for wineserver instances that hang and run the command. The game itself is
    /// started this way, and nothing else.
    WaitForExitAndRun,
    /// Run the command without setting the prefix up.
    RunInPrefix,
}

/// The text of a verb.
pub open spec fn verb(t: CommandType) -> Seq<char> {
    match t {
        CommandType::RunInPrefix => "runinprefix"@,
        CommandType::Run => "run"@,
        CommandType::WaitForExitAndRun => "waitforexitandrun"@,
    }
}

impl CommandType {
    /// The text of the verb.
    pub fn display(&self) -> (r: String)
        ensures
            r@ == verb(*self),
    {
        match self {
            CommandType::RunInPrefix => "runinprefix".to_owned(),
            CommandType::Run => "run".to_owned(),
            CommandType::WaitForExitAndRun => "waitforexitandrun".to_owned(),
        }
    }
}

/// A command to run under Wine.
pub struct WineRequest {
    pub arg: String,
    pub args: Vec<String>,
    pub cwd: Option<String>,
    pub want_output: bool,
    pub command_type: CommandType,
}

/// What the launcher's own environment says about Wine commands. A variable that is not
/// set is `None`.
pub struct WineSettings {
    /// `MAXIMA_WINE_COMMAND`: the program to use in place of `umu-run`.
    pub wine_command: Option<String>,
    /// `KYBER_DISABLE_GAMEMODE`.
    pub disable_gamemode: Option<String>,
    /// Whether `gamemoderun` lies in a directory of `PATH`.
    pub gamemoderun_found: bool,
    /// `KYBER_DISABLE_WINEGSTREAMER`.
    pub disable_winegstreamer: Option<String>,
    /// Whether `UMU_RUNTIME_UPDATE` is set.
    pub runtime_update_set: bool,
    /// `KYBER_GAME_LOG`.
    pub game_log: Option<String>,
}

/// What becomes of the output of a command.
pub enum OutputMode {
    /// Both streams go to this file.
    LogFile(String),
    /// Standard output is kept, standard error is dropped.
    Stdout,
    /// Standard output is dropped, standard error is kept for the case of failure.
    Stderr,
}

/// A command as it is handed to the operating system.
pub struct WineInvocation {
    pub program: String,
    pub args: Vec<String>,
    pub env: Vec<(String, String)>,
    pub cwd: Option<String>,
    /// Whether the command reads nothing. Wine takes a terminal on standard input for a user
    /// and opens a console window.
    pub stdin_closed: bool,
    pub output: OutputMode,
}

/// Whether a variable is set to `1`.
pub open spec fn is_one(v: Option<String>) -> bool {
    v is Some && v->0@ == "1"@
}

fn set_to_one(v: &Option<String>) -> (r: bool)
    ensures
        r == is_one(*v),
{
    match v {
        Some(s) => same(s.as_str(), "1"),
        None => false,
    }
}

/// The program that runs Proton.
pub open spec fn wine_program(maxima_dir: Seq<char>, s: WineSettings) -> Seq<char> {
    match s.wine_command {
        Some(c) => c@,
        None => path::path_join(maxima_dir, "wine/umu/umu-run"@),
    }
}

/// Whether the command is wrapped in `gamemoderun`.
pub open spec fn uses_gamemode(t: CommandType, s: WineSettings) -> bool {
    t == CommandType::WaitForExitAndRun && !is_one(s.disable_gamemode) && s.gamemoderun_found
}

/// Whether the output of the command goes to the log file.
pub open spec fn logs_to_file(t: CommandType, s: WineSettings) -> bool {
    t == CommandType::WaitForExitAndRun && s.game_log is Some && s.game_log->0@.len() > 0
        && s.game_log->0@ != "0"@
}

/// The variables that every command gets. The locale is fixed to American English, so
/// that Wine does not take the host's when it sets up the prefix.
pub open spec fn common_env(maxima_dir: Seq<char>, t: CommandType) -> Seq<(Seq<char>, Seq<char>)> {
    seq![
        ("WINEPREFIX"@, path::path_join(maxima_dir, "wine/prefix"@)),
        ("GAMEID"@, "umu-0"@),
        ("PROTON_VERB"@, verb(t)),
        ("PROTONPATH"@, path::path_join(maxima_dir, "wine/proton"@)),
        ("STORE"@, "ea"@),
        ("PROTON_EAC_RUNTIME"@, path::path_join(maxima_dir, "wine/eac_runtime"@)),
        ("WINEDEBUG"@, "fixme-all"@),
        ("LD_PRELOAD"@, ""@),
        ("LANG"@, "en_US.UTF-8"@),
        ("LC_ALL"@, "en_US.UTF-8"@),
    ]
}

/// One variable, where the condition holds.
pub open spec fn env_if(
    condition: bool,
    name: Seq<char>,
    value: Seq<char>,
) -> Seq<(Seq<char>, Seq<char>)> {
    if condition {
        seq![(name, value)]
    } else {
        seq![]
    }
}

/// The libraries that are taken from the game's directory where `umu-run`, which has its
/// own rules, is not used.
pub open spec fn dll_overrides() -> Seq<char> {
    "CryptBase,wsock32,bcrypt,dxgi,d3d11,d3d12,d3d12core=n,b;winemenubuilder.exe=d"@
}

/// The variables of a command.
pub open spec fn wine_env(
    maxima_dir: Seq<char>,
    t: CommandType,
    s: WineSettings,
) -> Seq<(Seq<char>, Seq<char>)> {
    common_env(maxima_dir, t) + env_if(
        !"umu-run"@.is_suffix_of(wine_program(maxima_dir, s)),
        "WINEDLLOVERRIDES"@,
        dll_overrides(),
    ) + env_if(is_one(s.disable_winegstreamer), "PROTON_DLL_OVERRIDES"@, "winegstreamer=d"@)
        + env_if(t == CommandType::WaitForExitAndRun, "UMU_ZENITY"@, "1"@) + env_if(
        !s.runtime_update_set,
        "UMU_RUNTIME_UPDATE"@,
        "0"@,
    )
}

/// The arguments of a command: with `gamemoderun` in front, the program is the first one.
pub open spec fn wine_args(maxima_dir: Seq<char>, q: WineRequest, s: WineSettings) -> Seq<
    Seq<char>,
> {
    (if uses_gamemode(q.command_type, s) {
        seq![wine_program(maxima_dir, s)]
    } else {
        seq![]
    }) + seq![q.arg@] + text::views(q.args@)
}

/// The invocation of a command under Wine.
pub fn run_wine_command(maxima_dir: &str, request: WineRequest, settings: &WineSettings) -> (r:
    WineInvocation)
    ensures
        r.program@ == (if uses_gamemode(request.command_type, *settings) {
            "gamemoderun"@
        } else {
            wine_program(maxima_dir@, *settings)
        }),
        text::views(r.args@) == wine_args(maxima_dir@, request, *settings),
        text::pair_views(r.env@) == wine_env(maxima_dir@, request.command_type, *settings),
        r.cwd == request.cwd,
        r.stdin_closed,
        if logs_to_file(request.command_type, *settings) {
            r.output matches OutputMode::LogFile(p) && p@ == path::path_join(
                maxima_dir@,
                "wine/last-game-launch.log"@,
            )
        } else if request.want_output {
            r.output is Stdout
        } else {
            r.output is Stderr
        },
{
    let game = request.command_type == CommandType::WaitForExitAndRun;
    let wine_path = match &settings.wine_command {
        Some(c) => c.clone(),
        None => umu_bin(maxima_dir),
    };
    let mut args: Vec<String> = Vec::new();
    let program = if game && !set_to_one(&settings.disable_gamemode) && settings.gamemoderun_found {
        args.push(wine_path.clone());
        "gamemoderun".to_owned()
    } else {
        wine_path.clone()
    };
    args.push(request.arg.clone());
    let ghost head = text::views(args@);
    let mut rest = request.args;
    args.append(&mut rest);
    assert(text::views(args@) =~= wine_args(maxima_dir@, request, *settings));

    let mut env: Vec<(String, String)> = Vec::new();
    push_pair(&mut env, "WINEPREFIX", wine_prefix_dir(maxima_dir).as_str());
    push_pair(&mut env, "GAMEID", "umu-0");
    push_pair(&mut env, "PROTON_VERB", request.command_type.display().as_str());
    push_pair(&mut env, "PROTONPATH", default_proton_dir(maxima_dir).as_str());
    push_pair(&mut env, "STORE", "ea");
    push_pair(&mut env, "PROTON_EAC_RUNTIME", eac_dir(maxima_dir).as_str());
    push_pair(&mut env, "WINEDEBUG", "fixme-all");
    push_pair(&mut env, "LD_PRELOAD", "");
    push_pair(&mut env, "LANG", "en_US.UTF-8");
    push_pair(&mut env, "LC_ALL", "en_US.UTF-8");
    assert(text::pair_views(env@) =~= common_env(maxima_dir@, request.command_type));
    if !ends_with(wine_path.as_str(), "umu-run") {
        push_pair(
            &mut env,
            "WINEDLLOVERRIDES",
            "CryptBase,wsock32,bcrypt,dxgi,d3d11,d3d12,d3d12core=n,b;winemenubuilder.exe=d",
        );
    }
    if set_to_one(&settings.disable_winegstreamer) {
        push_pair(&mut env, "PROTON_DLL_OVERRIDES", "winegstreamer=d");
    }
    if game {
        push_pair(&mut env, "UMU_ZENITY", "1");
    }
    if !settings.runtime_update_set {
        push_pair(&mut env, "UMU_RUNTIME_UPDATE", "0");
    }
    assert(text::pair_views(env@) =~= wine_env(maxima_dir@, request.command_type, *settings));

    let log = game && match &settings.game_log {
        Some(v) => !v.as_str().is_empty() && !same(v.as_str(), "0"),
        None => false,
    };
    let output = if log {
        OutputMode::LogFile(game_launch_log_path(maxima_dir))
    } else if request.want_output {
        OutputMode::Stdout
    } else {
        OutputMode::Stderr
    };
    WineInvocation { program, args, env, cwd: request.cwd, stdin_closed: true, output }
}

/// The result of a command, from what became of its output, its exit code (`None` where a
/// signal ended it) and what was kept of its two streams.
pub fn wine_command_result(
    output: &OutputMode,
    exit: Option<i32>,
    stdout: &[u8],
    stderr: &[u8],
) -> (r: Result<String, WineError>)
    ensures
        match r {
            Ok(text) => exit == Some(0i32) && text@ == (if output is Stdout {
                unicode::byte_text(stdout@)
            } else {
                Seq::empty()
            }),
            Err(WineError::Command { output: text, exit: e }) => exit != Some(0i32) && e
                == exit && text@ == (match output {
                OutputMode::LogFile(_) => Seq::empty(),
                OutputMode::Stdout => unicode::byte_text(stdout@),
                OutputMode::Stderr => unicode::byte_text(stderr@),
            }),
            Err(_) => false,
        },
{
    let success = match exit {
        Some(code) => code == 0,
        None => false,
    };
    let text = match output {
        OutputMode::LogFile(_) => String::new(),
        OutputMode::Stdout => text_of_utf8(stdout),
        OutputMode::Stderr => if success {
            String::new()
        } else {
            text_of_utf8(stderr)
        },
    };
    if success {
        Ok(text)
    } else {
        Err(WineError::Command { output: text, exit })
    }
}

/// Whether a command took so long that something blocks the launch. Helpers are done in
/// seconds; only the game runs long.
pub fn is_slow_helper(command_type: CommandType, seconds: u64) -> (r: bool)
    ensures
        r == (command_type != CommandType::WaitForExitAndRun && seconds > 60),
{
    command_type != CommandType::WaitForExitAndRun && seconds > 60
}

/// Whether a wineserver runs, from the exit and the output of the process search (`None`
/// where that could not run).
pub fn wineserver_running(search: Option<(bool, &Vec<u8>)>) -> (r: bool)
    ensures
        r == (search is Some && (search->0).0 && (search->0).1@.len() > 0),
{
    match search {
        Some((success, stdout)) => success && stdout.len() > 0,
        None => false,
    }
}

/// Every command runs with the American English locale.
pub proof fn wine_env_fixes_locale(maxima_dir: Seq<char>, t: CommandType, s: WineSettings)
    ensures
        wine_env(maxima_dir, t, s).contains(("LANG"@, "en_US.UTF-8"@)),
        wine_env(maxima_dir, t, s).contains(("LC_ALL"@, "en_US.UTF-8"@)),
{
    let env = wine_env(maxima_dir, t, s);
    assert(env[8] == ("LANG"@, "en_US.UTF-8"@));
    assert(env[9] == ("LC_ALL"@, "en_US.UTF-8"@));
}

/// Game mode, the progress dialog and the log file are for the game alone: a helper
/// command does not get them, whatever the settings are.
pub proof fn helpers_run_plain(maxima_dir: Seq<char>, q: WineRequest, s: WineSettings)
    requires
        q.command_type != CommandType::WaitForExitAndRun,
    ensures
        !uses_gamemode(q.command_type, s),
        !logs_to_file(q.command_type, s),
        wine_args(maxima_dir, q, s) == seq![q.arg@] + text::views(q.args@),
        forall|i: int|
            0 <= i < wine_env(maxima_dir, q.command_type, s).len() ==> (#[trigger] wine_env(
                maxima_dir,
                q.command_type,
                s,
            )[i]).0 != "UMU_ZENITY"@,
{
    assert(wine_args(maxima_dir, q, s) =~= seq![q.arg@] + text::views(q.args@));
    reveal_strlit("UMU_ZENITY");
    reveal_strlit("WINEPREFIX");
    reveal_strlit("GAMEID");
    reveal_strlit("PROTON_VERB");
    reveal_strlit("PROTONPATH");
    reveal_strlit("STORE");
    reveal_strlit("PROTON_EAC_RUNTIME");
    reveal_strlit("WINEDEBUG");
    reveal_strlit("LD_PRELOAD");
    reveal_strlit("LANG");
    reveal_strlit("LC_ALL");
    reveal_strlit("WINEDLLOVERRIDES");
    reveal_strlit("PROTON_DLL_OVERRIDES");
    reveal_strlit("UMU_RUNTIME_UPDATE");
    let env = wine_env(maxima_dir, q.command_type, s);
    assert forall|i: int| 0 <= i < env.len() implies (#[trigger] env[i]).0 != "UMU_ZENITY"@ by {
        assert(env[i].0.len() != 10 || env[i].0[0] != 'U');
    }
}

/// The program of a command is the one that the user set, or else `umu-run`. The command and
/// its arguments come last and in order; before them stands the program, where the command is
/// wrapped in game mode, and nothing otherwise.
pub proof fn command_is_run_as_asked(maxima_dir: Seq<char>, q: WineRequest, s: WineSettings)
    ensures
        ({
            let args = wine_args(maxima_dir, q, s);
            let n = q.args@.len() as int;
            let k = args.len() - 1 - n;
            &&& k == (if uses_gamemode(q.command_type, s) {
                1int
            } else {
                0
            })
            &&& k == 1 ==> args[0] == wine_program(maxima_dir, s)
            &&& args[k] == q.arg@
            &&& forall|i: int| 0 <= i < n ==> #[trigger] args[k + 1 + i] == q.args@[i]@
            &&& s.wine_command is Some ==> wine_program(maxima_dir, s) == s.wine_command.unwrap()@
            &&& s.wine_command is None ==> wine_program(maxima_dir, s) == path::path_join(
                maxima_dir,
                "wine/umu/umu-run"@,
            )
        }),
{
    let args = wine_args(maxima_dir, q, s);
    let n = q.args@.len() as int;
    let k = args.len() - 1 - n;
    assert forall|i: int| 0 <= i < n implies #[trigger] args[k + 1 + i] == q.args@[i]@ by {
        assert(args[k + 1 + i] == text::views(q.args@)[i]);
    }
}

/// Game mode is used exactly for the game, where it is found and not switched off; and the
/// output goes to the log file exactly for the game, where that is asked for with anything but
/// nothing and `0`.
pub proof fn game_mode_and_log_are_for_the_game(t: CommandType, s: WineSettings)
    ensures
        uses_gamemode(t, s) <==> t == CommandType::WaitForExitAndRun && s.gamemoderun_found && !(
        s.disable_gamemode is Some && s.disable_gamemode.unwrap()@ == "1"@),
        logs_to_file(t, s) <==> t == CommandType::WaitForExitAndRun && s.game_log is Some
            && s.game_log.unwrap()@.len() > 0 && s.game_log.unwrap()@ != "0"@,
{
}

/// A number that tells the names of the variables apart.
spec fn name_code(name: Seq<char>) -> int {
    name.len() * 0x100 + name[0] as int
}

/// The place of a variable in the order in which the variables are set.
spec fn name_order(name: Seq<char>) -> int {
    let code = name_code(name);
    if code == 2647 {
        0
    } else if code == 1607 {
        1
    } else if code == 2896 {
        2
    } else if code == 2640 {
        3
    } else if code == 1363 {
        4
    } else if code == 4688 {
        5
    } else if code == 2391 {
        6
    } else if code == 2636 {
        7
    } else if code == 1100 {
        8
    } else if code == 1612 {
        9
    } else if code == 4183 {
        10
    } else if code == 5200 {
        11
    } else if code == 2645 {
        12
    } else if code == 4693 {
        13
    } else {
        14
    }
}

proof fn lemma_orders()
    ensures
        name_order("WINEPREFIX"@) == 0,
        name_order("GAMEID"@) == 1,
        name_order("PROTON_VERB"@) == 2,
        name_order("PROTONPATH"@) == 3,
        name_order("STORE"@) == 4,
        name_order("PROTON_EAC_RUNTIME"@) == 5,
        name_order("WINEDEBUG"@) == 6,
        name_order("LD_PRELOAD"@) == 7,
        name_order("LANG"@) == 8,
        name_order("LC_ALL"@) == 9,
        name_order("WINEDLLOVERRIDES"@) == 10,
        name_order("PROTON_DLL_OVERRIDES"@) == 11,
        name_order("UMU_ZENITY"@) == 12,
        name_order("UMU_RUNTIME_UPDATE"@) == 13,
{
    reveal_strlit("WINEPREFIX");
    reveal_strlit("GAMEID");
    reveal_strlit("PROTON_VERB");
    reveal_strlit("PROTONPATH");
    reveal_strlit("STORE");
    reveal_strlit("PROTON_EAC_RUNTIME");
    reveal_strlit("WINEDEBUG");
    reveal_strlit("LD_PRELOAD");
    reveal_strlit("LANG");
    reveal_strlit("LC_ALL");
    reveal_strlit("WINEDLLOVERRIDES");
    reveal_strlit("PROTON_DLL_OVERRIDES");
    reveal_strlit("UMU_ZENITY");
    reveal_strlit("UMU_RUNTIME_UPDATE");
}

/// Whether the names of the variables are in order and all before a place.
spec fn in_order(env: Seq<(Seq<char>, Seq<char>)>, end: int) -> bool {
    &&& forall|i: int, j: int|
        0 <= i < j < env.len() ==> name_order((#[trigger] env[i]).0) < name_order(
            (#[trigger] env[j]).0,
        )
    &&& forall|i: int| 0 <= i < env.len() ==> name_order((#[trigger] env[i]).0) < end
}

proof fn lemma_in_order(
    env: Seq<(Seq<char>, Seq<char>)>,
    condition: bool,
    name: Seq<char>,
    value: Seq<char>,
    at: int,
)
    requires
        in_order(env, at),
        name_order(name) == at,
    ensures
        in_order(env + env_if(condition, name, value), at + 1),
        condition ==> (env + env_if(condition, name, value)).contains((name, value)),
        forall|x: (Seq<char>, Seq<char>)| #[trigger]
            env.contains(x) ==> (env + env_if(condition, name, value)).contains(x),
        !condition ==> env + env_if(condition, name, value) == env,
{
    let all = env + env_if(condition, name, value);
    if condition {
        assert(all[env.len() as int] == (name, value));
        assert forall|x: (Seq<char>, Seq<char>)| #[trigger] env.contains(x) implies all.contains(
            x,
        ) by {
            let k = choose|k: int| 0 <= k < env.len() && env[k] == x;
            assert(all[k] == x);
        }
        assert forall|i: int, j: int| 0 <= i < j < all.len() implies name_order((#[trigger] all[i]).0)
            < name_order((#[trigger] all[j]).0) by {
            assert(all[i] == env[i]);
            if j < env.len() {
                assert(all[j] == env[j]);
            }
        }
        assert forall|i: int| 0 <= i < all.len() implies name_order((#[trigger] all[i]).0) < at
            + 1 by {
            if i < env.len() {
                assert(all[i] == env[i]);
            }
        }
    } else {
        assert(all =~= env);
    }
}

proof fn lemma_in_order_sets(
    env: Seq<(Seq<char>, Seq<char>)>,
    end: int,
    name: Seq<char>,
    value: Seq<char>,
)
    requires
        in_order(env, end),
        env.contains((name, value)),
    ensures
        environment::sets(env, name, value),
{
    let i = choose|i: int| 0 <= i < env.len() && env[i] == (name, value);
    assert(env[i] == (name, value));
}

/// Whether no variable of this name is set.
pub open spec fn leaves(env: Seq<(Seq<char>, Seq<char>)>, name: Seq<char>) -> bool {
    forall|i: int| 0 <= i < env.len() ==> (#[trigger] env[i]).0 != name
}

/// What a command is told: the prefix, Proton and the runtime below the launcher's directory,
/// the verb, and the rest of what Proton needs. The libraries of the game are put before Wine's
/// exactly where `umu-run` does not run; GStreamer is switched off exactly where the user says
/// so; the progress dialog is for the game alone; and the runtime is not updated, unless the
/// user has set that.
pub proof fn command_is_told(maxima_dir: Seq<char>, t: CommandType, s: WineSettings)
    ensures
        ({
            let env = wine_env(maxima_dir, t, s);
            let umu = "umu-run"@.is_suffix_of(wine_program(maxima_dir, s));
            let no_gst = s.disable_winegstreamer is Some && s.disable_winegstreamer.unwrap()@ == "1"@;
            &&& environment::sets(env, "WINEPREFIX"@, path::path_join(maxima_dir, "wine/prefix"@))
            &&& environment::sets(env, "GAMEID"@, "umu-0"@)
            &&& environment::sets(
                env,
                "PROTON_VERB"@,
                match t {
                    CommandType::Run => "run"@,
                    CommandType::WaitForExitAndRun => "waitforexitandrun"@,
                    CommandType::RunInPrefix => "runinprefix"@,
                },
            )
            &&& environment::sets(env, "PROTONPATH"@, path::path_join(maxima_dir, "wine/proton"@))
            &&& environment::sets(env, "STORE"@, "ea"@)
            &&& environment::sets(env, "PROTON_EAC_RUNTIME"@, path::path_join(maxima_dir, "wine/eac_runtime"@))
            &&& environment::sets(env, "WINEDEBUG"@, "fixme-all"@)
            &&& environment::sets(env, "LD_PRELOAD"@, ""@)
            &&& environment::sets(env, "LANG"@, "en_US.UTF-8"@)
            &&& environment::sets(env, "LC_ALL"@, "en_US.UTF-8"@)
            &&& umu ==> leaves(env, "WINEDLLOVERRIDES"@)
            &&& !umu ==> environment::sets(
                env,
                "WINEDLLOVERRIDES"@,
                "CryptBase,wsock32,bcrypt,dxgi,d3d11,d3d12,d3d12core=n,b;winemenubuilder.exe=d"@,
            )
            &&& no_gst ==> environment::sets(env, "PROTON_DLL_OVERRIDES"@, "winegstreamer=d"@)
            &&& !no_gst ==> leaves(env, "PROTON_DLL_OVERRIDES"@)
            &&& t == CommandType::WaitForExitAndRun ==> environment::sets(env, "UMU_ZENITY"@, "1"@)
            &&& t != CommandType::WaitForExitAndRun ==> leaves(env, "UMU_ZENITY"@)
            &&& s.runtime_update_set ==> leaves(env, "UMU_RUNTIME_UPDATE"@)
            &&& !s.runtime_update_set ==> environment::sets(env, "UMU_RUNTIME_UPDATE"@, "0"@)
        }),
{
    let umu = "umu-run"@.is_suffix_of(wine_program(maxima_dir, s));
    let no_gst = is_one(s.disable_winegstreamer);
    let game = t == CommandType::WaitForExitAndRun;
    let e0 = common_env(maxima_dir, t);
    let e1 = e0 + env_if(!umu, "WINEDLLOVERRIDES"@, dll_overrides());
    let e2 = e1 + env_if(no_gst, "PROTON_DLL_OVERRIDES"@, "winegstreamer=d"@);
    let e3 = e2 + env_if(game, "UMU_ZENITY"@, "1"@);
    let e4 = e3 + env_if(!s.runtime_update_set, "UMU_RUNTIME_UPDATE"@, "0"@);
    let env = wine_env(maxima_dir, t, s);
    assert(env =~= e4);
    lemma_orders();
    assert forall|i: int| 0 <= i < 10 implies name_order((#[trigger] e0[i]).0) == i by {}
    assert(in_order(e0, 10));
    lemma_in_order(e0, !umu, "WINEDLLOVERRIDES"@, dll_overrides(), 10);
    lemma_in_order(e1, no_gst, "PROTON_DLL_OVERRIDES"@, "winegstreamer=d"@, 11);
    lemma_in_order(e2, game, "UMU_ZENITY"@, "1"@, 12);
    lemma_in_order(e3, !s.runtime_update_set, "UMU_RUNTIME_UPDATE"@, "0"@, 13);
    assert forall|i: int| 0 <= i < 10 implies environment::sets(env, (#[trigger] e0[i]).0, e0[i].1) by {
        let x = e0[i];
        assert(e0.contains(x));
        assert(e1.contains(x));
        assert(e2.contains(x));
        assert(e3.contains(x));
        assert(e4.contains(x));
        lemma_in_order_sets(env, 14, x.0, x.1);
    }
    assert(e0[0].0 == "WINEPREFIX"@);
    assert(e0[1].0 == "GAMEID"@);
    assert(e0[2].0 == "PROTON_VERB"@);
    assert(e0[3].0 == "PROTONPATH"@);
    assert(e0[4].0 == "STORE"@);
    assert(e0[5].0 == "PROTON_EAC_RUNTIME"@);
    assert(e0[6].0 == "WINEDEBUG"@);
    assert(e0[7].0 == "LD_PRELOAD"@);
    assert(e0[8].0 == "LANG"@);
    assert(e0[9].0 == "LC_ALL"@);
    if !umu {
        assert(e2.contains(("WINEDLLOVERRIDES"@, dll_overrides())));
        assert(e3.contains(("WINEDLLOVERRIDES"@, dll_overrides())));
        lemma_in_order_sets(env, 14, "WINEDLLOVERRIDES"@, dll_overrides());
    } else {
        lemma_left_out(e1, no_gst, "PROTON_DLL_OVERRIDES"@, "winegstreamer=d"@, 10);
        lemma_left_out(e2, game, "UMU_ZENITY"@, "1"@, 10);
        lemma_left_out(e3, !s.runtime_update_set, "UMU_RUNTIME_UPDATE"@, "0"@, 10);
    }
    if no_gst {
        assert(e3.contains(("PROTON_DLL_OVERRIDES"@, "winegstreamer=d"@)));
        lemma_in_order_sets(env, 14, "PROTON_DLL_OVERRIDES"@, "winegstreamer=d"@);
    } else {
        lemma_left_out(e2, game, "UMU_ZENITY"@, "1"@, 11);
        lemma_left_out(e3, !s.runtime_update_set, "UMU_RUNTIME_UPDATE"@, "0"@, 11);
    }
    if game {
        lemma_in_order_sets(env, 14, "UMU_ZENITY"@, "1"@);
    } else {
        lemma_left_out(e3, !s.runtime_update_set, "UMU_RUNTIME_UPDATE"@, "0"@, 12);
    }
    if !s.runtime_update_set {
        lemma_in_order_sets(env, 14, "UMU_RUNTIME_UPDATE"@, "0"@);
    }
}

proof fn lemma_left_out(
    env: Seq<(Seq<char>, Seq<char>)>,
    condition: bool,
    name: Seq<char>,
    value: Seq<char>,
    at: int,
)
    requires
        forall|i: int| 0 <= i < env.len() ==> name_order((#[trigger] env[i]).0) != at,
        name_order(name) != at,
    ensures
        ({
            let all = env + env_if(condition, name, value);
            forall|i: int| 0 <= i < all.len() ==> name_order((#[trigger] all[i]).0) != at
        }),
{
    let all = env + env_if(condition, name, value);
    assert forall|i: int| 0 <= i < all.len() implies name_order((#[trigger] all[i]).0) != at by {
        if i < env.len() {
            assert(all[i] == env[i]);
        }
    }
}

} // verus!
