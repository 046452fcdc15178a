//! The helper that runs beside the game under Wine. It finds the game's process and injects
//! libraries into it.

use vstd::prelude::*;
use vstd::utf8::*;
use crate::encoding;
use crate::encoding::encode_base64;
use crate::number;
use crate::number::parse_u32;
use crate::path;
use crate::path::{join_path, parent_of};
use crate::pattern;
use crate::pattern::{capture, PID_PATTERN};
use crate::text;
use crate::text::contains;
use crate::wine::command::{CommandType, WineRequest};

verus! {

/// What the helper is told to find a process.
pub struct WineGetPidArgs {
    pub launch_id: String,
    pub name: String,
}

/// What the helper is told to inject a library.
pub struct WineInjectArgs {
    pub pid: u32,
    pub path: String,
}

impl Default for WineGetPidArgs {
    fn default() -> (r: Self)
        ensures
            r.launch_id@.len() == 0,
            r.name@.len() == 0,
    {
        proof {
            reveal_strlit("");
        }
        WineGetPidArgs { launch_id: "".to_owned(), name: "".to_owned() }
    }
}

impl Default for WineInjectArgs {
    fn default() -> (r: Self)
        ensures
            r.pid == 0,
            r.path@.len() == 0,
    {
        proof {
            reveal_strlit("");
        }
        WineInjectArgs { pid: 0, path: "".to_owned() }
    }
}

/// Why the process of the game is not known.
pub enum PidError {
    /// The helper did not find it, given these arguments.
    NotFound(String),
    /// The helper's output tells nothing of it.
    Pattern,
    /// What the helper gave is no number.
    Number,
}

/// Where the helper lies: beside the program, or in the directory `cli` there, which comes
/// first. The path of a program without a parent gives nothing.
pub open spec fn helper_path(program: Seq<char>, in_cli: bool) -> Option<Seq<char>> {
    match path::parent(program) {
        Some(dir) => Some(
            if in_cli {
                path::path_join(path::path_join(dir, "cli"@), "wine-helper.exe"@)
            } else {
                path::path_join(dir, "wine-helper.exe"@)
            },
        ),
        None => None,
    }
}

/// The path of the helper, in the directory `cli` or beside the program.
pub fn wine_helper(program: &str, in_cli: bool) -> (r: Option<String>)
    ensures
        text::opt_string(r) == helper_path(program@, in_cli),
{
    match parent_of(program) {
        Some(dir) => if in_cli {
            let cli = join_path(dir.as_str(), "cli");
            Some(join_path(cli.as_str(), "wine-helper.exe"))
        } else {
            Some(join_path(dir.as_str(), "wine-helper.exe"))
        },
        None => None,
    }
}

/// The arguments of the helper: a verb, and a text in Base64.
pub open spec fn helper_args(verb: Seq<char>, json: Seq<char>) -> Seq<Seq<char>> {
    seq![verb, encoding::base64(encode_utf8(json))]
}

fn helper_request(helper: String, verb: &str, json: &str, want_output: bool) -> (r: WineRequest)
    requires
        encoding::base64_fits(encode_utf8(json@).len()),
    ensures
        r.arg == helper,
        text::views(r.args@) == helper_args(verb@, json@),
        r.cwd is None,
        r.want_output == want_output,
        r.command_type == CommandType::RunInPrefix,
{
    let b64 = encode_base64(json.as_bytes());
    let args = vec![verb.to_owned(), b64];
    assert(text::views(args@) =~= helper_args(verb@, json@));
    WineRequest { arg: helper, args, cwd: None, want_output, command_type: CommandType::RunInPrefix }
}

/// The command that asks the helper for the process of the game; `json` is the JSON of a
/// `WineGetPidArgs`.
pub fn wine_get_pid(helper: String, json: &str) -> (r: WineRequest)
    requires
        encoding::base64_fits(encode_utf8(json@).len()),
    ensures
        r.arg == helper,
        text::views(r.args@) == helper_args("get_pid"@, json@),
        r.cwd is None,
        r.want_output,
        r.command_type == CommandType::RunInPrefix,
{
    helper_request(helper, "get_pid", json, true)
}

/// The command that makes the helper inject a library; `json` is the JSON of a
/// `WineInjectArgs`.
pub fn request_library_injection(helper: String, json: &str) -> (r: WineRequest)
    requires
        encoding::base64_fits(encode_utf8(json@).len()),
    ensures
        r.arg == helper,
        text::views(r.args@) == helper_args("inject"@, json@),
        r.cwd is None,
        !r.want_output,
        r.command_type == CommandType::RunInPrefix,
{
    helper_request(helper, "inject", json, false)
}

/// The process of the game, from the helper's output; `b64` is what the helper was given.
pub fn pid_reply(output: &str, b64: &str) -> (r: Result<u32, PidError>)
    ensures
        match r {
            Err(PidError::NotFound(args)) => text::occurs(output@, "Failed to find PID"@) && args@
                == b64@,
            Err(PidError::Pattern) => !text::occurs(output@, "Failed to find PID"@)
                && pattern::pid_field(output@) is None,
            Err(PidError::Number) => !text::occurs(output@, "Failed to find PID"@)
                && pattern::pid_field(output@) is Some && number::u32_text(
                pattern::pid_field(output@).unwrap(),
            ) is None,
            Ok(pid) => !text::occurs(output@, "Failed to find PID"@) && pattern::pid_field(
                output@,
            ) is Some && number::u32_text(pattern::pid_field(output@).unwrap()) == Some(pid),
        },
{
    if contains(output, "Failed to find PID") {
        return Err(PidError::NotFound(b64.to_owned()));
    }
    match capture(PID_PATTERN, output, 1) {
        Some(field) => match parse_u32(field.as_str()) {
            Some(pid) => Ok(pid),
            None => Err(PidError::Number),
        },
        None => Err(PidError::Pattern),
    }
}

/// The process that the helper reports on a line of its own is the one that is read.
pub proof fn reported_pid_is_read(before: Seq<char>, pid: u32, after: Seq<char>)
    requires
        text::occurs_first(
            before + "wine-helper: PID "@ + number::decimal(pid as nat) + seq!['\n'] + after,
            "wine-helper: PID "@,
            before.len() as int,
        ),
    ensures
        pattern::pid_field(
            before + "wine-helper: PID "@ + number::decimal(pid as nat) + seq!['\n'] + after,
        ) == Some(number::decimal(pid as nat)),
        number::u32_text(number::decimal(pid as nat)) == Some(pid),
{
    let mark = "wine-helper: PID "@;
    let digits = number::decimal(pid as nat);
    let s = before + mark + digits + seq!['\n'] + after;
    let at = before.len() as int;
    number::decimal_reads_back(pid as nat);
    assert(number::is_digit(digits[0]));
    let i = choose|i: int| text::occurs_first(s, mark, i);
    assert(text::occurs_first(s, mark, i));
    assert(i == at) by {
        if i < at {
            assert(text::occurs_at(s, mark, i));
        } else if at < i {
            assert(text::occurs_at(s, mark, at));
        }
    }
    let rest = s.skip(at + mark.len());
    assert(rest =~= digits + seq!['\n'] + after);
    let n = digits.len() as int;
    assert(text::char_first(rest, '\n', n)) by {
        assert forall|j: int| 0 <= j < n implies #[trigger] rest[j] != '\n' by {
            assert(number::is_digit(digits[j]));
        }
    }
    text::lemma_find_char(rest, '\n', n);
    assert(rest.take(n) =~= digits);
}

/// The helper lies in the directory of the program, or in the directory `cli` there.
pub proof fn helper_lies_beside_the_program(dir: Seq<char>, name: Seq<char>)
    requires
        path::is_plain_name(path::PathStyle::Unix, name),
        !path::ends_loosely(path::PathStyle::Unix, dir),
    ensures
        helper_path(dir + seq!['/'] + name, false) == Some(dir + seq!['/'] + "wine-helper.exe"@),
        helper_path(dir + seq!['/'] + name, true) == Some(
            dir + seq!['/'] + "cli"@ + seq!['/'] + "wine-helper.exe"@,
        ),
{
    reveal_strlit("wine-helper.exe");
    reveal_strlit("cli");
    path::parent_of_a_child_is_the_directory(dir, name);
    let cli = dir + seq!['/'] + "cli"@;
    assert(dir.push('/') + "cli"@ =~= cli);
    assert(cli.last() == 'i');
    assert(cli.push('/') + "wine-helper.exe"@ =~= cli + seq!['/'] + "wine-helper.exe"@);
    assert(dir.push('/') + "wine-helper.exe"@ =~= dir + seq!['/'] + "wine-helper.exe"@);
}

} // verus!
