//! Which Proton and which runtimes are installed, and what to install.

use vstd::prelude::*;
use vstd::utf8::*;
use crate::github;
use crate::github::{fetch_github_releases, plain_request, DownloadError, GithubRelease, HttpRequest};
use crate::number;
use crate::path;
use crate::path::{join_path, names_of};
use crate::pattern;
use crate::pattern::{capture, PROTON_PATTERN};
use crate::text;
use crate::text::{chars_of, ends_with, join_texts, same};
use crate::wine::command::{CommandType, WineRequest};
use crate::wine::dirs::wine_dir;
use crate::wine::error::WineError;

verus! {

/// The versions of what is installed; empty where nothing is.
pub struct Versions {
    pub proton: String,
    pub eac_runtime: String,
    pub umu: String,
}

/// The versions as texts.
pub ghost struct Recorded {
    pub proton: Seq<char>,
    pub eac_runtime: Seq<char>,
    pub umu: Seq<char>,
}

impl View for Versions {
    type V = Recorded;

    open spec fn view(&self) -> Recorded {
        Recorded { proton: self.proton@, eac_runtime: self.eac_runtime@, umu: self.umu@ }
    }
}

impl Default for Versions {
    fn default() -> (r: Self)
        ensures
            r@.proton.len() == 0,
            r@.eac_runtime.len() == 0,
            r@.umu.len() == 0,
    {
        proof {
            reveal_strlit("");
        }
        Versions { proton: "".to_owned(), eac_runtime: "".to_owned(), umu: "".to_owned() }
    }
}

/// A runtime that Lutris offers.
pub struct LutrisRuntime {
    pub name: String,
    pub created_at: String,
    pub url: String,
}

impl Default for LutrisRuntime {
    fn default() -> (r: Self)
        ensures
            r.name@.len() == 0,
            r.created_at@.len() == 0,
            r.url@.len() == 0,
    {
        proof {
            reveal_strlit("");
        }
        LutrisRuntime { name: "".to_owned(), created_at: "".to_owned(), url: "".to_owned() }
    }
}

/// Whether Proton is valid, where that is known without asking for the latest release. A
/// Proton that the launcher does not manage, with whether it looks like a Proton install, is
/// valid if it does; a managed one that is missing is not. Where it is not known, the recorded
/// version decides.
pub fn check_wine_validity(effective: Option<bool>, proton_exists: bool) -> (r: Option<bool>)
    ensures
        r == (match effective {
            Some(layout_valid) => Some(layout_valid),
            None => if !proton_exists {
                Some(false)
            } else {
                None
            },
        }),
{
    match effective {
        Some(layout_valid) => Some(layout_valid),
        None => if !proton_exists {
            Some(false)
        } else {
            None
        },
    }
}

/// Whether the recorded version is the one of the release. Where the release cannot be had,
/// any version will do.
pub fn check_wine_version<E>(version: &str, release: Result<GithubRelease, E>) -> (r: Result<bool, E>)
    ensures
        match release {
            Ok(latest) => r == Ok::<bool, E>(version@ == latest.tag_name@),
            Err(e) => r == (if version@.len() > 0 {
                Ok(true)
            } else {
                Err(e)
            }),
        },
{
    match release {
        Ok(latest) => Ok(same(version, latest.tag_name.as_str())),
        Err(e) => if !version.is_empty() {
            Ok(true)
        } else {
            Err(e)
        },
    }
}

/// The request for the releases of Proton.
pub fn wine_releases_request() -> (r: HttpRequest)
    ensures
        r.url@ == github::releases_url("GloriousEggroll"@, "proton-ge-custom"@),
        text::pair_views(r.headers@) == seq![github::user_agent()],
{
    fetch_github_releases("GloriousEggroll", "proton-ge-custom")
}

/// The request for the runtimes that Lutris offers.
pub fn get_lutris_runtimes() -> (r: HttpRequest)
    ensures
        r.url@ == "https://lutris.net/api/runtimes"@,
        text::pair_views(r.headers@) == seq![github::user_agent()],
{
    plain_request("https://lutris.net/api/runtimes".to_owned())
}

/// Whether the release is one for a single game.
pub open spec fn is_special(release: GithubRelease) -> bool {
    "LoL"@.is_suffix_of(release.tag_name@)
}

/// Whether the release at `i` is the first one for every game.
pub open spec fn is_wine_release(releases: Seq<GithubRelease>, i: int) -> bool {
    &&& 0 <= i < releases.len()
    &&& !is_special(releases[i])
    &&& forall|j: int| 0 <= j < i ==> is_special(#[trigger] releases[j])
}

/// The release to install, of all releases with the latest one first.
pub fn get_wine_release(releases: Vec<GithubRelease>) -> (r: Result<GithubRelease, WineError>)
    ensures
        match r {
            Ok(release) => exists|i: int| #[trigger]
                is_wine_release(releases@, i) && release == releases@[i],
            Err(e) => e is Fetch && forall|i: int|
                0 <= i < releases@.len() ==> is_special(#[trigger] releases@[i]),
        },
{
    let mut rest = releases;
    let n: usize = rest.len();
    let mut i: usize = 0;
    while i < n
        invariant
            i <= n,
            n == releases@.len(),
            rest@ == releases@,
            forall|j: int| 0 <= j < i ==> is_special(#[trigger] releases@[j]),
        decreases n - i,
    {
        if !ends_with(rest[i].tag_name.as_str(), "LoL") {
            assert(is_wine_release(releases@, i as int));
            return Ok(rest.remove(i));
        }
        i += 1;
    }
    Err(WineError::Fetch)
}

/// Where Proton comes from.
#[derive(Clone, Copy, PartialEq, Eq, Structural, Debug)]
pub enum InstallPlan {
    UseCustom,
    UseSystem,
    Download,
}

/// Where Proton comes from, given the paths of the Proton that the user chose and of the
/// system's, each with whether it looks like a Proton install. A choice of the user that
/// does not is an error: nothing is downloaded in its place.
pub fn install_wine(custom: Option<(String, bool)>, auto: Option<(String, bool)>) -> (r: Result<
    InstallPlan,
    WineError,
>)
    ensures
        match custom {
            Some((_, true)) => r == Ok::<InstallPlan, WineError>(InstallPlan::UseCustom),
            Some((p, false)) => r == Err::<InstallPlan, WineError>(WineError::CustomProtonInvalid(p)),
            None => r == Ok::<InstallPlan, WineError>(
                match auto {
                    Some((_, true)) => InstallPlan::UseSystem,
                    _ => InstallPlan::Download,
                },
            ),
        },
{
    match custom {
        Some((p, valid)) => if valid {
            Ok(InstallPlan::UseCustom)
        } else {
            Err(WineError::CustomProtonInvalid(p))
        },
        None => match auto {
            Some((_, valid)) => if valid {
                Ok(InstallPlan::UseSystem)
            } else {
                Ok(InstallPlan::Download)
            },
            None => Ok(InstallPlan::Download),
        },
    }
}

/// Whether the first mark stands at `i`.
pub open spec fn is_first_mark(marks: Seq<bool>, i: int) -> bool {
    0 <= i < marks.len() && marks[i] && forall|j: int| 0 <= j < i ==> !#[trigger] marks[j]
}

/// The first asset that is marked as a Proton archive.
pub fn first_marked(marks: &Vec<bool>) -> (r: Result<usize, WineError>)
    ensures
        match r {
            Ok(i) => is_first_mark(marks@, i as int),
            Err(e) => e is Fetch && forall|i: int| 0 <= i < marks@.len() ==> !#[trigger] marks@[i],
        },
{
    let mut i: usize = 0;
    while i < marks.len()
        invariant
            i <= marks@.len(),
            forall|j: int| 0 <= j < i ==> !#[trigger] marks@[j],
        decreases marks@.len() - i,
    {
        if marks[i] {
            return Ok(i);
        }
        i += 1;
    }
    Err(WineError::Fetch)
}

/// For each asset of a release, whether it is a Proton archive.
pub open spec fn archive_marks(release: GithubRelease) -> Seq<bool> {
    Seq::new(
        release.assets@.len(),
        |i: int| pattern::is_archive_name(release.assets@[i].name@),
    )
}

/// The first asset of a release that is a Proton archive.
pub fn wine_asset(release: &GithubRelease) -> (r: Result<usize, WineError>)
    ensures
        match r {
            Ok(i) => is_first_mark(archive_marks(*release), i as int),
            Err(e) => e is Fetch && forall|i: int|
                0 <= i < release.assets@.len() ==> !#[trigger] archive_marks(*release)[i],
        },
{
    let mut marks: Vec<bool> = Vec::new();
    let mut i: usize = 0;
    while i < release.assets.len()
        invariant
            i <= release.assets@.len(),
            marks@ == archive_marks(*release).take(i as int),
        decreases release.assets@.len() - i,
    {
        let found = capture(PROTON_PATTERN, release.assets[i].name.as_str(), 0);
        marks.push(found.is_some());
        assert(marks@ =~= archive_marks(*release).take(i + 1));
        i += 1;
    }
    assert(marks@ =~= archive_marks(*release));
    first_marked(&marks)
}

/// Records the version of Proton.
pub fn record_proton(versions: &mut Versions, tag_name: String)
    ensures
        final(versions)@ == (Recorded { proton: tag_name@, ..old(versions)@ }),
{
    versions.proton = tag_name;
}

/// The command that sets the prefix up after Proton was installed: it runs nothing.
pub fn first_run_request() -> (r: WineRequest)
    ensures
        r.arg@ == ""@,
        r.args@.len() == 0,
        r.cwd is None,
        !r.want_output,
        r.command_type == CommandType::Run,
{
    WineRequest {
        arg: "".to_owned(),
        args: Vec::new(),
        cwd: None,
        want_output: false,
        command_type: CommandType::Run,
    }
}

/// Where a file of an archive goes: below the directory, without the first component of
/// its path, which is the archive's own directory. A path without a component goes nowhere.
pub open spec fn archive_destination(dir: Seq<char>, entry: Seq<char>) -> Option<Seq<char>> {
    let names = path::names(entry);
    if path::is_absolute(entry) {
        Some(path::path_join(dir, text::join(names, "/"@)))
    } else if names.len() > 0 {
        Some(path::path_join(dir, text::join(names.skip(1), "/"@)))
    } else {
        None
    }
}

/// Where a file of an archive goes; `None` where its path has no component.
pub fn extract_archive(dir: &str, entry: &str) -> (r: Option<String>)
    ensures
        text::opt_string(r) == archive_destination(dir@, entry@),
{
    let mut names = names_of(entry);
    let ghost all = text::views(names@);
    let c = chars_of(entry);
    if !(c.len() > 0 && c[0] == '/') {
        assert(all.len() == names@.len());
        if names.len() == 0 {
            return None;
        }
        names.remove(0);
        assert(text::views(names@) =~= all.skip(1));
    }
    let rest = join_texts(&names, "/");
    Some(join_path(dir, rest.as_str()))
}

/// The recorded version of a runtime, where it is one that the launcher installs.
pub open spec fn runtime_version(versions: Recorded, key: Seq<char>) -> Option<Seq<char>> {
    if key == "umu"@ {
        Some(versions.umu)
    } else if key == "eac_runtime"@ {
        Some(versions.eac_runtime)
    } else {
        None
    }
}

/// The directory of a runtime.
pub fn runtime_dir(maxima_dir: &str, key: &str) -> (r: String)
    ensures
        r@ == path::path_join(path::path_join(maxima_dir@, "wine"@), key@),
{
    let dir = wine_dir(maxima_dir);
    join_path(dir.as_str(), key)
}

/// Whether the runtime at `i` is the first of its name.
pub open spec fn is_runtime(runtimes: Seq<LutrisRuntime>, key: Seq<char>, i: int) -> bool {
    &&& 0 <= i < runtimes.len()
    &&& runtimes[i].name@ == key
    &&& forall|j: int| 0 <= j < i ==> (#[trigger] runtimes[j]).name@ != key
}

/// Whether there is a runtime of this name.
pub open spec fn is_offered(runtimes: Seq<LutrisRuntime>, key: Seq<char>) -> bool {
    exists|i: int| is_runtime(runtimes, key, i)
}

fn find_runtime(runtimes: &Vec<LutrisRuntime>, key: &str) -> (r: Option<usize>)
    ensures
        match r {
            Some(i) => is_runtime(runtimes@, key@, i as int),
            None => !is_offered(runtimes@, key@),
        },
{
    let mut i: usize = 0;
    while i < runtimes.len()
        invariant
            i <= runtimes@.len(),
            forall|j: int| 0 <= j < i ==> (#[trigger] runtimes@[j]).name@ != key@,
        decreases runtimes@.len() - i,
    {
        if same(runtimes[i].name.as_str(), key) {
            return Some(i);
        }
        i += 1;
    }
    None
}

/// Whether a runtime is installed in the version that is offered.
pub open spec fn runtime_current(
    versions: Recorded,
    key: Seq<char>,
    dir_exists: bool,
    runtimes: Seq<LutrisRuntime>,
) -> bool {
    dir_exists && exists|i: int| #[trigger]
        is_runtime(runtimes, key, i) && Some(runtimes[i].created_at@) == runtime_version(
            versions,
            key,
        )
}

/// Whether a runtime is installed in the version that is offered.
pub fn check_runtime_validity(
    key: &str,
    versions: &Versions,
    dir_exists: bool,
    runtimes: &Vec<LutrisRuntime>,
) -> (r: Result<bool, WineError>)
    ensures
        match r {
            Ok(current) => runtime_version(versions@, key@) is Some && current == runtime_current(
                versions@,
                key@,
                dir_exists,
                runtimes@,
            ),
            Err(WineError::UnimplementedRuntime(k)) => runtime_version(versions@, key@) is None && k@
                == key@,
            Err(_) => false,
        },
{
    let version = if same(key, "umu") {
        versions.umu.as_str()
    } else if same(key, "eac_runtime") {
        versions.eac_runtime.as_str()
    } else {
        return Err(WineError::UnimplementedRuntime(key.to_owned()));
    };
    if !dir_exists {
        return Ok(false);
    }
    match find_runtime(runtimes, key) {
        Some(i) => Ok(same(runtimes[i].created_at.as_str(), version)),
        None => {
            assert forall|i: int| !is_runtime(runtimes@, key@, i) by {
                if is_runtime(runtimes@, key@, i) {
                    assert(is_offered(runtimes@, key@));
                }
            }
            Ok(false)
        },
    }
}

/// What to download for a runtime.
pub struct RuntimePlan {
    pub url: String,
    /// Whether the archive is compressed.
    pub xz: bool,
    pub created_at: String,
}

/// What to download for a runtime.
pub fn install_runtime(key: &str, runtimes: &Vec<LutrisRuntime>) -> (r: Result<RuntimePlan, WineError>)
    ensures
        match r {
            Ok(plan) => {
                &&& key@ == "umu"@ || key@ == "eac_runtime"@
                &&& exists|i: int| #[trigger]
                    is_runtime(runtimes@, key@, i) && plan.url@ == runtimes@[i].url@
                        && plan.created_at@ == runtimes@[i].created_at@
                &&& plan.xz == ".xz"@.is_suffix_of(plan.url@)
            },
            Err(WineError::UnimplementedRuntime(k)) => k@ == key@ && !(is_offered(runtimes@, key@) && (
            key@ == "umu"@ || key@ == "eac_runtime"@)),
            Err(_) => false,
        },
{
    match find_runtime(runtimes, key) {
        Some(i) => {
            if !same(key, "umu") && !same(key, "eac_runtime") {
                return Err(WineError::UnimplementedRuntime(key.to_owned()));
            }
            let url = runtimes[i].url.clone();
            let xz = ends_with(url.as_str(), ".xz");
            Ok(RuntimePlan { url, xz, created_at: runtimes[i].created_at.clone() })
        },
        None => Err(WineError::UnimplementedRuntime(key.to_owned())),
    }
}

/// Whether the answer to the request for a runtime holds it.
pub fn runtime_reply(key: &str, status: u16) -> (r: Result<(), DownloadError>)
    ensures
        match r {
            Ok(_) => status == 200,
            Err(DownloadError::Http(k)) => status != 200 && k@ == key@,
            Err(_) => false,
        },
{
    if status != 200 {
        Err(DownloadError::Http(key.to_owned()))
    } else {
        Ok(())
    }
}

/// The versions after a runtime was installed.
pub open spec fn with_runtime(versions: Recorded, key: Seq<char>, created_at: Seq<char>) -> Recorded {
    if key == "umu"@ {
        Recorded { umu: created_at, ..versions }
    } else if key == "eac_runtime"@ {
        Recorded { eac_runtime: created_at, ..versions }
    } else {
        versions
    }
}

/// Records the version of a runtime.
pub fn record_runtime(versions: &mut Versions, key: &str, created_at: String)
    ensures
        final(versions)@ == with_runtime(old(versions)@, key@, created_at@),
{
    if same(key, "umu") {
        versions.umu = created_at;
    } else if same(key, "eac_runtime") {
        versions.eac_runtime = created_at;
    }
}

/// A runtime that was installed is current, until another one is offered under its name.
pub proof fn installed_runtime_is_current(
    versions: Recorded,
    key: Seq<char>,
    runtimes: Seq<LutrisRuntime>,
    i: int,
)
    requires
        is_runtime(runtimes, key, i),
        runtime_version(versions, key) is Some,
    ensures
        runtime_current(
            with_runtime(versions, key, runtimes[i].created_at@),
            key,
            true,
            runtimes,
        ),
{
    reveal_strlit("umu");
    reveal_strlit("eac_runtime");
}

/// To install one runtime changes neither the other one's version nor Proton's.
pub proof fn runtimes_are_independent(
    versions: Recorded,
    key: Seq<char>,
    other: Seq<char>,
    created_at: Seq<char>,
)
    requires
        key != other,
    ensures
        runtime_version(with_runtime(versions, key, created_at), other) == runtime_version(
            versions,
            other,
        ),
        with_runtime(versions, key, created_at).proton == versions.proton,
{
}

/// A file of an archive keeps its path but for the archive's own directory, which is replaced
/// by the directory that it is unpacked to. A path from the root keeps all of its names.
pub proof fn archive_is_unpacked_without_its_directory(
    dir: Seq<char>,
    top: Seq<char>,
    names: Seq<Seq<char>>,
)
    requires
        path::is_component(top),
        names.len() > 0,
        forall|i: int| 0 <= i < names.len() ==> path::is_component(#[trigger] names[i]),
    ensures
        archive_destination(dir, top + seq!['/'] + text::join(names, seq!['/'])) == Some(
            path::path_join(dir, text::join(names, seq!['/'])),
        ),
        archive_destination(dir, seq!['/'] + text::join(names, seq!['/'])) == Some(
            path::path_join(dir, text::join(names, seq!['/'])),
        ),
        archive_destination(dir, Seq::empty()) is None,
{
    reveal_strlit("/");
    assert("/"@ =~= seq!['/']);
    let all = seq![top] + names;
    assert forall|i: int| 0 <= i < all.len() implies path::is_component(
        #[trigger] all[i],
    ) by {
        if i > 0 {
            assert(all[i] == names[i - 1]);
        }
    }
    path::names_are_read_back(all);
    path::names_are_read_back(names);
    text::joined_lists_are_joined(seq![top], names, seq!['/']);
    assert(text::join(all, seq!['/']) =~= top + seq!['/'] + text::join(names, seq!['/']));
    assert(all.skip(1) =~= names);
    assert((seq!['/'] + text::join(names, seq!['/']))[0] == '/');
    let none = Seq::<char>::empty();
    text::text_without_separators_is_one_piece(none, '/', '/');
    assert(path::names(none).len() == 0) by {
        assert(seq![none].skip(1) =~= Seq::empty());
        reveal(Seq::filter);
    }
}

/// A runtime is current exactly where it is there and the first one of its name that is offered
/// was made when the record says; a runtime that is not offered is not current.
pub proof fn runtime_is_current_where_the_record_agrees(
    versions: Recorded,
    dir_exists: bool,
    runtimes: Seq<LutrisRuntime>,
    i: int,
)
    ensures
        is_runtime(runtimes, "umu"@, i) ==> runtime_current(versions, "umu"@, dir_exists, runtimes)
            == (dir_exists && runtimes[i].created_at@ == versions.umu),
        is_runtime(runtimes, "eac_runtime"@, i) ==> runtime_current(
            versions,
            "eac_runtime"@,
            dir_exists,
            runtimes,
        ) == (dir_exists && runtimes[i].created_at@ == versions.eac_runtime),
        (forall|k: int| 0 <= k < runtimes.len() ==> (#[trigger] runtimes[k]).name@ != "umu"@)
            ==> !runtime_current(versions, "umu"@, dir_exists, runtimes),
{
    reveal_strlit("umu");
    reveal_strlit("eac_runtime");
    assert("umu"@.len() != "eac_runtime"@.len());
    assert forall|k: int| is_runtime(runtimes, "umu"@, i) && is_runtime(runtimes, "umu"@, k) implies k
        == i by {}
    assert forall|k: int|
        is_runtime(runtimes, "eac_runtime"@, i) && is_runtime(runtimes, "eac_runtime"@, k) implies k
        == i by {}
}

/// Each runtime is recorded in its own place, and a key that is none of them changes nothing.
pub proof fn runtimes_are_recorded_apart(versions: Recorded, key: Seq<char>, created_at: Seq<char>)
    ensures
        with_runtime(versions, "umu"@, created_at) == (Recorded { umu: created_at, ..versions }),
        with_runtime(versions, "eac_runtime"@, created_at) == (Recorded {
            eac_runtime: created_at,
            ..versions
        }),
        key != "umu"@ && key != "eac_runtime"@ ==> with_runtime(versions, key, created_at)
            == versions && runtime_version(versions, key) is None,
        runtime_version(versions, "umu"@) == Some(versions.umu),
        runtime_version(versions, "eac_runtime"@) == Some(versions.eac_runtime),
{
    reveal_strlit("umu");
    reveal_strlit("eac_runtime");
    assert("umu"@.len() != "eac_runtime"@.len());
}

/// A release is for a single game exactly where its tag ends with `LoL`, and the one that is
/// installed is the first other one.
pub proof fn first_release_for_every_game(releases: Seq<GithubRelease>, i: int)
    requires
        0 <= i < releases.len(),
    ensures
        is_special(releases[i]) <==> ({
            let tag = releases[i].tag_name@;
            let n = tag.len() as int;
            n >= 3 && tag[n - 3] == 'L' && tag[n - 2] == 'o' && tag[n - 1] == 'L'
        }),
        is_wine_release(releases, i) <==> !is_special(releases[i]) && forall|j: int|
            0 <= j < i ==> is_special(#[trigger] releases[j]),
{
    reveal_strlit("LoL");
    let tag = releases[i].tag_name@;
    let n = tag.len() as int;
    let end = "LoL"@;
    if n >= 3 {
        let cut = tag.subrange(n - 3, n);
        if tag[n - 3] == 'L' && tag[n - 2] == 'o' && tag[n - 1] == 'L' {
            assert(cut =~= end);
        } else if end.is_suffix_of(tag) {
            assert(cut[0] == tag[n - 3] && cut[1] == tag[n - 2] && cut[2] == tag[n - 1]);
        }
    }
}

/// An asset whose name holds the name of a GE-Proton archive, anywhere, is one; an ASCII name
/// without its beginning or its end is not.
pub proof fn archive_is_told_by_its_name(
    before: Seq<char>,
    major: Seq<char>,
    minor: Seq<char>,
    after: Seq<char>,
    other: Seq<char>,
)
    requires
        major.len() > 0 && number::all_digits(major),
        minor.len() > 0 && number::all_digits(minor),
    ensures
        pattern::is_archive_name(
            before + "GE-Proton"@ + major + seq!['-'] + minor + ".tar.gz"@ + after,
        ),
        is_ascii_chars(other) && !text::occurs(other, "GE-Proton"@) ==> !pattern::is_archive_name(
            other,
        ),
        is_ascii_chars(other) && !text::occurs(other, ".tar.gz"@) ==> !pattern::is_archive_name(
            other,
        ),
{
    reveal_strlit("GE-Proton");
    reveal_strlit(".tar.gz");
    let s = before + "GE-Proton"@ + major + seq!['-'] + minor + ".tar.gz"@ + after;
    let i = before.len() as int;
    let j = i + 9 + major.len();
    let k = j + 1 + minor.len();
    assert(s.subrange(i, i + 9) =~= "GE-Proton"@);
    assert(s.subrange(i + 9, j) =~= major);
    assert(s.subrange(j + 1, k) =~= minor);
    assert(s.subrange(k, k + 7) =~= ".tar.gz"@);
    assert(s[j] == '-');
    assert(pattern::archive_name_at(s, i, j, k));
    if is_ascii_chars(other) && pattern::has_archive_name(other) {
        let (i, j, k) = choose|i: int, j: int, k: int| pattern::archive_name_at(other, i, j, k);
        assert(text::occurs_at(other, "GE-Proton"@, i));
        assert(text::occurs_at(other, ".tar.gz"@, k));
    }
}

/// Each asset is judged by its own name.
pub proof fn each_asset_is_judged_by_its_name(release: GithubRelease, i: int)
    requires
        0 <= i < release.assets@.len(),
    ensures
        archive_marks(release).len() == release.assets@.len(),
        archive_marks(release)[i] == pattern::is_archive_name(release.assets@[i].name@),
{
}

/// The first marked asset is taken: those before it are not marked, and those behind it do not
/// matter.
pub proof fn first_marked_asset_is_taken(before: Seq<bool>, after: Seq<bool>, i: int)
    requires
        forall|k: int| 0 <= k < before.len() ==> !#[trigger] before[k],
    ensures
        is_first_mark(before.push(true) + after, i) <==> i == before.len(),
        !is_first_mark(before, i),
{
    let marks = before.push(true) + after;
    let n = before.len() as int;
    assert(marks[n]);
    assert forall|k: int| 0 <= k < n implies !#[trigger] marks[k] by {
        assert(marks[k] == before[k]);
    }
}

/// The first runtime of a name is the one that is offered under it, whatever follows.
pub proof fn first_runtime_of_a_name_is_offered(
    before: Seq<LutrisRuntime>,
    runtime: LutrisRuntime,
    after: Seq<LutrisRuntime>,
    i: int,
)
    requires
        forall|k: int|
            0 <= k < before.len() ==> (#[trigger] before[k]).name@ != runtime.name@,
    ensures
        is_runtime(before.push(runtime) + after, runtime.name@, i) <==> i == before.len(),
        is_offered(before.push(runtime) + after, runtime.name@),
        !is_offered(before, runtime.name@),
{
    let all = before.push(runtime) + after;
    let n = before.len() as int;
    assert(all[n] == runtime);
    assert forall|k: int| 0 <= k < n implies (#[trigger] all[k]).name@ != runtime.name@ by {
        assert(all[k] == before[k]);
    }
    assert(is_runtime(all, runtime.name@, n));
}

} // verus!
