//! Which Proton is used.

use vstd::prelude::*;
use crate::number;
use crate::number::parse_u32;
use crate::path;
use crate::path::join_path;
use crate::pattern::{capture, GE_PROTON_10_PATTERN};
use crate::text;
use crate::text::{cat, cat3, same, trim, without_prefix};
use crate::wine::dirs::default_proton_dir;
use crate::wine::routing::MountPoint;

verus! {

/// What is known of a file: whether it is a regular file, and its permission bits.
pub struct FileProbe {
    pub is_file: bool,
    pub mode: u32,
}

/// Whether a file (`None` where there is none) is a regular file that someone may execute.
pub open spec fn executable(p: Option<FileProbe>) -> bool {
    p is Some && p->0.is_file && p->0.mode & 0o111 != 0
}

/// Whether a file (`None` where there is none) is a regular file that someone may execute.
pub fn is_executable_file(p: &Option<FileProbe>) -> (r: bool)
    ensures
        r == executable(*p),
{
    match p {
        Some(f) => f.is_file && f.mode & 0o111 != 0,
        None => false,
    }
}

/// Where the Wine binary of a Proton install can lie. The layouts differ in the directory,
/// and newer builds have one binary for 32 and 64 bits, without a `wine64`.
pub open spec fn wine_binaries(dir: Seq<char>) -> Seq<Seq<char>> {
    seq![
        path::path_join(dir, "files/bin/wine64"@),
        path::path_join(dir, "dist/bin/wine64"@),
        path::path_join(dir, "bin/wine64"@),
        path::path_join(dir, "files/bin/wine"@),
        path::path_join(dir, "dist/bin/wine"@),
        path::path_join(dir, "bin/wine"@),
    ]
}

/// Where the Wine binary of a Proton install can lie.
pub fn wine_binary_paths(dir: &str) -> (r: Vec<String>)
    ensures
        text::views(r@) == wine_binaries(dir@),
{
    let r = vec![
        join_path(dir, "files/bin/wine64"),
        join_path(dir, "dist/bin/wine64"),
        join_path(dir, "bin/wine64"),
        join_path(dir, "files/bin/wine"),
        join_path(dir, "dist/bin/wine"),
        join_path(dir, "bin/wine"),
    ];
    assert(text::views(r@) =~= wine_binaries(dir@));
    r
}

/// Whether a path looks like a Proton install, from whether it is a directory, whether it
/// holds the `proton` script, and what is known of each place where the Wine binary can lie.
pub fn is_valid_proton_layout(
    is_dir: bool,
    has_proton_script: bool,
    binaries: &Vec<Option<FileProbe>>,
) -> (r: bool)
    ensures
        r == (is_dir && (has_proton_script || exists|i: int|
            0 <= i < binaries@.len() && executable(#[trigger] binaries@[i]))),
{
    if !is_dir {
        return false;
    }
    if has_proton_script {
        return true;
    }
    let mut i: usize = 0;
    while i < binaries.len()
        invariant
            i <= binaries@.len(),
            is_dir,
            forall|j: int| 0 <= j < i ==> !executable(#[trigger] binaries@[j]),
        decreases binaries@.len() - i,
    {
        if is_executable_file(&binaries[i]) {
            return true;
        }
        i += 1;
    }
    false
}

/// A path with `~` at its beginning replaced by the home directory, where that is known.
pub open spec fn tilde_expanded(s: Seq<char>, home: Option<Seq<char>>) -> Seq<char> {
    match (text::strip_prefix(s, "~/"@), home) {
        (Some(rest), Some(h)) => path::path_join(h, rest),
        (None, Some(h)) => if s == "~"@ {
            h
        } else {
            s
        },
        _ => s,
    }
}

/// A path with `~` at its beginning replaced by the home directory, where that is known.
pub fn expand_tilde(s: &str, home: Option<&str>) -> (r: String)
    ensures
        r@ == tilde_expanded(s@, text::opt_str(home)),
{
    match home {
        Some(h) => {
            match without_prefix(s, "~/") {
                Some(rest) => join_path(h, rest.as_str()),
                None => if same(s, "~") {
                    h.to_owned()
                } else {
                    s.to_owned()
                },
            }
        },
        None => s.to_owned(),
    }
}

/// The first of the two settings that is not blank, with the white space around it removed.
pub open spec fn chosen_setting(
    variable: Option<Seq<char>>,
    sidecar: Option<Seq<char>>,
) -> Option<Seq<char>> {
    if variable is Some && text::trimmed(variable->0).len() > 0 {
        Some(text::trimmed(variable->0))
    } else if sidecar is Some && text::trimmed(sidecar->0).len() > 0 {
        Some(text::trimmed(sidecar->0))
    } else {
        None
    }
}

/// The Proton that the user chose: with the variable `KYBER_PROTON_PATH`, or else in the
/// launcher, which keeps the choice in a file.
pub fn resolve_custom_proton_path(
    variable: Option<&str>,
    sidecar: Option<&str>,
    home: Option<&str>,
) -> (r: Option<String>)
    ensures
        text::opt_string(r) == match chosen_setting(text::opt_str(variable), text::opt_str(sidecar)) {
            Some(s) => Some(tilde_expanded(s, text::opt_str(home))),
            None => None,
        },
{
    match variable {
        Some(v) => {
            let t = trim(v);
            if !t.as_str().is_empty() {
                return Some(expand_tilde(t.as_str(), home));
            }
        },
        None => {},
    }
    match sidecar {
        Some(v) => {
            let t = trim(v);
            if !t.as_str().is_empty() {
                return Some(expand_tilde(t.as_str(), home));
            }
        },
        None => {},
    }
    None
}

/// The directories that hold the system's Proton installs, given `HOME`. Without it none is
/// searched.
pub open spec fn proton_roots(home: Option<Seq<char>>) -> Seq<Seq<char>> {
    match home {
        Some(h) => seq![
            h + "/.local/share/Steam/compatibilitytools.d"@,
            h + "/.steam/steam/compatibilitytools.d"@,
            h + "/.steam/root/compatibilitytools.d"@,
            h + "/.steam/debian-installation/compatibilitytools.d"@,
            h + "/.var/app/com.valvesoftware.Steam/data/Steam/compatibilitytools.d"@,
            "/usr/share/steam/compatibilitytools.d"@,
            "/usr/local/share/steam/compatibilitytools.d"@,
        ],
        None => seq![],
    }
}

/// The directories that hold the system's Proton installs.
pub fn proton_search_roots(home: Option<&str>) -> (r: Vec<String>)
    ensures
        text::views(r@) == proton_roots(text::opt_str(home)),
{
    let r = match home {
        Some(h) => vec![
            cat(h, "/.local/share/Steam/compatibilitytools.d"),
            cat(h, "/.steam/steam/compatibilitytools.d"),
            cat(h, "/.steam/root/compatibilitytools.d"),
            cat(h, "/.steam/debian-installation/compatibilitytools.d"),
            cat(h, "/.var/app/com.valvesoftware.Steam/data/Steam/compatibilitytools.d"),
            "/usr/share/steam/compatibilitytools.d".to_owned(),
            "/usr/local/share/steam/compatibilitytools.d".to_owned(),
        ],
        None => Vec::new(),
    };
    assert(text::views(r@) =~= proton_roots(text::opt_str(home)));
    r
}

/// The minor version of a GE-Proton 10.x install, from the name of its directory.
pub open spec fn ge_proton_minor(name: Seq<char>) -> Option<u32> {
    match text::strip_prefix(name, "GE-Proton10-"@) {
        Some(d) => if d.len() > 0 && number::all_digits(d) && number::number_of(d) <= u32::MAX {
            Some(number::number_of(d) as u32)
        } else {
            None
        },
        None => None,
    }
}

/// The minor version of a GE-Proton 10.x install, from the name of its directory.
pub fn ge_proton_10_minor(name: &str) -> (r: Option<u32>)
    ensures
        r == ge_proton_minor(name@),
{
    let found = capture(GE_PROTON_10_PATTERN, name, 1);
    match found {
        Some(d) => {
            let r = parse_u32(d.as_str());
            proof {
                let head = "GE-Proton10-"@;
                assert(head.is_prefix_of(name@)) by {
                    assert(name@.subrange(0, head.len() as int) =~= head);
                }
                assert(name@.skip(head.len() as int) =~= d@);
                assert(d@[0] != '+') by {
                    if d@[0] == '+' {
                        assert(('+' as u32) < 0x80);
                        assert(number::is_digit(d@[0]));
                    }
                }
            }
            r
        },
        None => {
            proof {
                let head = "GE-Proton10-"@;
                if head.is_prefix_of(name@) {
                    let d = name@.skip(head.len() as int);
                    assert(name@ =~= head + d);
                    assert(!(d.len() > 0 && number::all_digits(d)));
                }
            }
            None
        },
    }
}

/// An entry of a directory of Proton installs. A name that is not text is `None`.
pub struct ProtonEntry {
    pub path: String,
    pub name: Option<String>,
    pub is_dir: bool,
    pub valid_layout: bool,
}

/// The minor version of an entry that can be used.
pub open spec fn usable_minor(e: ProtonEntry) -> Option<u32> {
    if e.is_dir && e.name is Some && e.valid_layout {
        ge_proton_minor(e.name->0@)
    } else {
        None
    }
}

/// Whether entry `i` is the best one: the first of those with the highest minor version.
pub open spec fn is_best(entries: Seq<ProtonEntry>, i: int) -> bool {
    &&& 0 <= i < entries.len()
    &&& usable_minor(entries[i]) is Some
    &&& forall|j: int|
        0 <= j < entries.len() && usable_minor(#[trigger] entries[j]) is Some ==> usable_minor(
            entries[j],
        )->0 < usable_minor(entries[i])->0 || (usable_minor(entries[j])->0 == usable_minor(
            entries[i],
        )->0 && i <= j)
}

/// The system's Proton, from what stands at the mount point and the entries of the
/// directories of Proton installs, in order: the newest GE-Proton 10.x. A managed Proton
/// that was already downloaded is never displaced; a link at the mount point is none.
pub fn compute_auto_detect_system_proton(mount: &MountPoint, entries: &Vec<ProtonEntry>) -> (r:
    Option<String>)
    ensures
        match r {
            Some(p) => !(mount is Directory) && exists|i: int|
                #[trigger] is_best(entries@, i) && p@ == entries@[i].path@,
            None => mount is Directory || forall|i: int|
                0 <= i < entries@.len() ==> usable_minor(#[trigger] entries@[i]) is None,
        },
{
    match mount {
        MountPoint::Directory => {
            return None;
        },
        _ => {},
    }
    let mut best: Option<(u32, usize)> = None;
    let mut i: usize = 0;
    while i < entries.len()
        invariant
            i <= entries@.len(),
            match best {
                Some((m, k)) => k < i && usable_minor(entries@[k as int]) == Some(m) && forall|j: int|
                    0 <= j < i && usable_minor(#[trigger] entries@[j]) is Some ==> usable_minor(
                        entries@[j],
                    )->0 < m || (usable_minor(entries@[j])->0 == m && k <= j),
                None => forall|j: int|
                    0 <= j < i ==> usable_minor(#[trigger] entries@[j]) is None,
            },
        decreases entries@.len() - i,
    {
        let e = &entries[i];
        if e.is_dir && e.valid_layout {
            match &e.name {
                Some(name) => match ge_proton_10_minor(name.as_str()) {
                    Some(minor) => {
                        let better = match best {
                            Some((m, _)) => minor > m,
                            None => true,
                        };
                        if better {
                            best = Some((minor, i));
                        }
                    },
                    None => {},
                },
                None => {},
            }
        }
        i += 1;
    }
    match best {
        Some((_, k)) => {
            assert(is_best(entries@, k as int));
            Some(entries[k].path.clone())
        },
        None => None,
    }
}

/// The result of the search for the system's Proton, kept so that it is made once.
pub struct AutoProtonMemo {
    pub found: Option<Option<String>>,
}

impl AutoProtonMemo {
    /// Nothing has been searched.
    pub fn new() -> (r: Self)
        ensures
            r.found is None,
    {
        AutoProtonMemo { found: None }
    }

    /// Keeps the result of a search.
    pub fn record(&mut self, result: Option<String>)
        ensures
            final(self).found == Some(result),
    {
        self.found = Some(result);
    }
}

/// The result of the search for the system's Proton, where it was made; otherwise it has
/// to be made and recorded.
pub fn auto_detect_system_proton(memo: &AutoProtonMemo) -> (r: Option<Option<String>>)
    ensures
        match (r, memo.found) {
            (Some(a), Some(b)) => text::opt_string(a) == text::opt_string(b),
            (None, None) => true,
            _ => false,
        },
{
    match &memo.found {
        Some(Some(p)) => Some(Some(p.clone())),
        Some(None) => Some(None),
        None => None,
    }
}

/// The Proton that routing goes by: the one that the user chose, or else the system's.
pub fn resolve_effective_proton_path(custom: Option<String>, auto: Option<String>) -> (r: Option<
    String,
>)
    ensures
        r == (if custom is Some {
            custom
        } else {
            auto
        }),
{
    match custom {
        Some(c) => Some(c),
        None => auto,
    }
}

/// The label of the Proton in use, for the log.
pub open spec fn proton_label(custom_set: bool, auto_found: bool) -> Seq<char> {
    if custom_set {
        "custom-symlink"@
    } else if auto_found {
        "auto-symlink"@
    } else {
        "default"@
    }
}

/// The path that Proton is run from, with the label that is logged for it. The path is the
/// mount point whichever Proton is used: a path that changes would make Proton set up the
/// prefix anew.
pub fn proton_dir(maxima_dir: &str, custom_set: bool, auto_found: bool) -> (r: (String, String))
    ensures
        r.0@ == path::path_join(maxima_dir@, "wine/proton"@),
        r.1@ == proton_label(custom_set, auto_found),
{
    let label = if custom_set {
        "custom-symlink"
    } else if auto_found {
        "auto-symlink"
    } else {
        "default"
    };
    (default_proton_dir(maxima_dir), label.to_owned())
}

/// The text that tells whether a choice was logged already.
pub open spec fn choice_key(label: Seq<char>, path: Seq<char>) -> Seq<char> {
    label + "|"@ + path
}

/// Whether the choice of Proton has to be logged: where it is not the one that was logged
/// last, which `last` keeps.
pub fn log_proton_choice(last: &mut Option<String>, label: &str, path: &str) -> (r: bool)
    ensures
        r == (text::opt_string(*old(last)) != Some(choice_key(label@, path@))),
        text::opt_string(*final(last)) == Some(choice_key(label@, path@)),
{
    let key = cat3(label, "|", path);
    let known = match &*last {
        Some(l) => same(l.as_str(), key.as_str()),
        None => false,
    };
    if known {
        return false;
    }
    *last = Some(key);
    true
}

/// A path that does not begin with `~` means the same with any home directory.
pub proof fn plain_path_is_not_expanded(s: Seq<char>, home: Option<Seq<char>>)
    requires
        s.len() == 0 || s[0] != '~',
    ensures
        tilde_expanded(s, home) == s,
{
    reveal_strlit("~/");
    reveal_strlit("~");
    if "~/"@.is_prefix_of(s) {
        assert(s.subrange(0, 2)[0] == '~');
    }
}

/// `~` alone is the home directory, and `~/` before a path puts that path below it. A `~` before
/// anything else is part of a name, and without a home directory nothing is expanded.
pub proof fn tilde_stands_for_home(home: Seq<char>, rest: Seq<char>, s: Seq<char>)
    ensures
        tilde_expanded(seq!['~', '/'] + rest, Some(home)) == path::path_join(home, rest),
        tilde_expanded(seq!['~'], Some(home)) == home,
        tilde_expanded(s, None) == s,
        s.len() > 1 && s[1] != '/' ==> tilde_expanded(s, Some(home)) == s,
{
    reveal_strlit("~/");
    reveal_strlit("~");
    assert("~/"@ =~= seq!['~', '/']);
    assert("~"@ =~= seq!['~']);
    text::text_stands_where_it_was_put(Seq::empty(), "~/"@, rest);
    if s.len() > 1 && s[1] != '/' && "~/"@.is_prefix_of(s) {
        assert(s.subrange(0, 2)[1] == '/');
    }
    if "~/"@.is_prefix_of(seq!['~']) {
        assert(seq!['~'].len() >= 2);
    }
}

/// A setting counts where it is more than white space, the variable before the file. What is
/// chosen has no white space around it and is all of the setting otherwise.
pub proof fn variable_comes_before_the_file(
    before: Seq<char>,
    choice: Seq<char>,
    after: Seq<char>,
    blank: Option<Seq<char>>,
    sidecar: Option<Seq<char>>,
)
    requires
        choice.len() > 0,
        !text::is_white_space(choice[0]),
        !text::is_white_space(choice.last()),
        forall|i: int| 0 <= i < before.len() ==> text::is_white_space(#[trigger] before[i]),
        forall|i: int| 0 <= i < after.len() ==> text::is_white_space(#[trigger] after[i]),
        blank is Some ==> forall|i: int|
            0 <= i < blank.unwrap().len() ==> text::is_white_space(#[trigger] blank.unwrap()[i]),
    ensures
        chosen_setting(Some(before + choice + after), sidecar) == Some(choice),
        chosen_setting(blank, Some(before + choice + after)) == Some(choice),
        chosen_setting(blank, None) is None,
        chosen_setting(blank, blank) is None,
{
    let s = before + choice + after;
    text::trimming_takes_the_white_space_around(s);
    let (i, j) = choose|i: int, j: int| #[trigger] text::trimmed_between(s, i, j);
    let n = before.len() as int;
    let m = n + choice.len();
    assert(s[n] == choice[0]);
    assert(s[m - 1] == choice.last());
    assert(i <= n && j >= m);
    if i < n {
        assert(s[i] == before[i]);
    }
    if j > m {
        assert(s[j - 1] == after[j - 1 - m]);
    }
    assert(s.subrange(n, m) =~= choice);
    if blank is Some {
        let b = blank.unwrap();
        text::trimming_takes_the_white_space_around(b);
        let (i, j) = choose|i: int, j: int| #[trigger] text::trimmed_between(b, i, j);
        assert(text::is_white_space(b[i]) || i == j);
    }
}

/// The minor version is the number behind `GE-Proton10-`, and a directory of another name has
/// none.
pub proof fn minor_version_is_the_number(n: u32, name: Seq<char>)
    ensures
        ge_proton_minor("GE-Proton10-"@ + number::decimal(n as nat)) == Some(n),
        !"GE-Proton10-"@.is_prefix_of(name) ==> ge_proton_minor(name) is None,
        ge_proton_minor(name) is Some ==> name.len() > 12 && number::number_of(name.skip(12))
            == ge_proton_minor(name).unwrap() && number::all_digits(name.skip(12)),
{
    reveal_strlit("GE-Proton10-");
    number::decimal_reads_back(n as nat);
    text::text_stands_where_it_was_put(
        Seq::empty(),
        "GE-Proton10-"@,
        number::decimal(n as nat),
    );
}

/// The system's Proton installs are looked for below the home directory first, and then in the
/// directories of the system, each in a directory for such tools; without a home directory they
/// are not looked for at all.
pub proof fn proton_is_looked_for_below_home_first(home: Seq<char>)
    ensures
        proton_roots(None).len() == 0,
        proton_roots(Some(home)).len() == 7,
        forall|i: int|
            0 <= i < 5 ==> home.is_prefix_of(#[trigger] proton_roots(Some(home))[i])
                && proton_roots(Some(home))[i].len() > home.len()
                && proton_roots(Some(home))[i][home.len() as int] == '/',
        forall|i: int|
            0 <= i < 7 ==> "/compatibilitytools.d"@.is_suffix_of(
                #[trigger] proton_roots(Some(home))[i],
            ),
        forall|i: int, j: int|
            0 <= i < j < 5 ==> proton_roots(Some(home))[i] != proton_roots(Some(home))[j],
{
    let r = proton_roots(Some(home));
    let n = home.len() as int;
    let end = "/compatibilitytools.d"@;
    reveal_strlit("/compatibilitytools.d");
    reveal_strlit("/.local/share/Steam/compatibilitytools.d");
    reveal_strlit("/.steam/steam/compatibilitytools.d");
    reveal_strlit("/.steam/root/compatibilitytools.d");
    reveal_strlit("/.steam/debian-installation/compatibilitytools.d");
    reveal_strlit("/.var/app/com.valvesoftware.Steam/data/Steam/compatibilitytools.d");
    reveal_strlit("/usr/share/steam/compatibilitytools.d");
    reveal_strlit("/usr/local/share/steam/compatibilitytools.d");
    assert forall|i: int| 0 <= i < 5 implies home.is_prefix_of(#[trigger] r[i]) && r[i].len()
        > home.len() && r[i][n] == '/' by {
        assert(r[i].subrange(0, n) =~= home);
    }
    assert forall|i: int| 0 <= i < 7 implies end.is_suffix_of(#[trigger] r[i]) by {
        let k = r[i].len() - end.len();
        assert(r[i].subrange(k, r[i].len() as int) =~= end);
    }
    assert(r[1][n + 8] != r[2][n + 8]);
}

/// The newest install wins whatever its place, and of two of one version the first.
pub proof fn best_install_is_unique(entries: Seq<ProtonEntry>, i: int, j: int)
    requires
        is_best(entries, i),
        is_best(entries, j),
    ensures
        i == j,
        forall|k: int|
            0 <= k < entries.len() && usable_minor(#[trigger] entries[k]) is Some ==> usable_minor(
                entries[k],
            )->0 <= usable_minor(entries[i])->0,
{
    assert(usable_minor(entries[i]) is Some && usable_minor(entries[j]) is Some);
}

/// An install counts exactly where it is a directory, its name is known and tells a version,
/// and it looks like a Proton install.
pub proof fn install_counts_where_it_is_whole(e: ProtonEntry)
    ensures
        usable_minor(e) is Some <==> e.is_dir && e.valid_layout && e.name is Some
            && ge_proton_minor(e.name.unwrap()@) is Some,
        usable_minor(e) is Some ==> usable_minor(e) == ge_proton_minor(e.name.unwrap()@),
{
}

/// A file can be executed where any of the three permission bits for that is set and it is a
/// regular file.
pub proof fn any_permission_to_execute_will_do(p: FileProbe)
    ensures
        executable(Some(p)) <==> p.is_file && (p.mode & 0o100 != 0 || p.mode & 0o010 != 0 || p.mode
            & 0o001 != 0),
        !executable(None),
{
    let m = p.mode;
    assert(m & 0o111 != 0 <==> (m & 0o100 != 0 || m & 0o010 != 0 || m & 0o001 != 0)) by (bit_vector);
}

/// Every place where tools for Steam are kept is looked at, those of the user first.
pub proof fn every_place_for_proton_is_looked_at(home: Seq<char>)
    ensures
        ({
            let r = proton_roots(Some(home));
            &&& r[0] == home + "/.local/share/Steam/compatibilitytools.d"@
            &&& r[1] == home + "/.steam/steam/compatibilitytools.d"@
            &&& r[2] == home + "/.steam/root/compatibilitytools.d"@
            &&& r[3] == home + "/.steam/debian-installation/compatibilitytools.d"@
            &&& r[4] == home
                + "/.var/app/com.valvesoftware.Steam/data/Steam/compatibilitytools.d"@
            &&& r[5] == "/usr/share/steam/compatibilitytools.d"@
            &&& r[6] == "/usr/local/share/steam/compatibilitytools.d"@
        }),
{
}

/// The Wine binary is looked for in each layout, under both of its names.
pub proof fn binary_is_looked_for_in_each_layout(dir: Seq<char>)
    ensures
        ({
            let r = wine_binaries(dir);
            &&& r.len() == 6
            &&& r.contains(path::path_join(dir, "files/bin/wine64"@))
            &&& r.contains(path::path_join(dir, "dist/bin/wine64"@))
            &&& r.contains(path::path_join(dir, "bin/wine64"@))
            &&& r.contains(path::path_join(dir, "files/bin/wine"@))
            &&& r.contains(path::path_join(dir, "dist/bin/wine"@))
            &&& r.contains(path::path_join(dir, "bin/wine"@))
        }),
{
    let r = wine_binaries(dir);
    assert forall|i: int| 0 <= i < r.len() implies r.contains(#[trigger] r[i]) by {}
    assert(r[0] == path::path_join(dir, "files/bin/wine64"@));
    assert(r[1] == path::path_join(dir, "dist/bin/wine64"@));
    assert(r[2] == path::path_join(dir, "bin/wine64"@));
    assert(r[3] == path::path_join(dir, "files/bin/wine"@));
    assert(r[4] == path::path_join(dir, "dist/bin/wine"@));
    assert(r[5] == path::path_join(dir, "bin/wine"@));
}

/// Of several installs of the newest version the first is the best.
pub proof fn first_of_the_newest_is_the_best(entries: Seq<ProtonEntry>, i: int, k: int)
    requires
        is_best(entries, i),
        0 <= k < i,
        usable_minor(entries[k]) is Some,
    ensures
        usable_minor(entries[k])->0 < usable_minor(entries[i])->0,
{
}

/// A choice is known again exactly where its label and its path are the same, for labels
/// without the mark between them.
pub proof fn choices_are_told_apart(a: Seq<char>, b: Seq<char>, p: Seq<char>, q: Seq<char>)
    requires
        !a.contains('|'),
        !b.contains('|'),
    ensures
        choice_key(a, p) == choice_key(b, q) <==> a == b && p == q,
{
    reveal_strlit("|");
    let x = choice_key(a, p);
    let y = choice_key(b, q);
    if x == y {
        let n = a.len() as int;
        let m = b.len() as int;
        assert(x[n] == '|');
        assert(y[m] == '|');
        if n < m {
            assert(b[n] == '|');
        } else if m < n {
            assert(a[m] == '|');
        }
        assert(x.take(n) =~= a && y.take(n) =~= b);
        assert(x.skip(n + 1) =~= p && y.skip(n + 1) =~= q);
    }
}

/// The label tells which Proton is used: one that the user chose comes before one that was
/// found, and that before the managed one.
pub proof fn label_tells_the_proton(auto_found: bool)
    ensures
        proton_label(true, auto_found) == "custom-symlink"@,
        proton_label(false, true) == "auto-symlink"@,
        proton_label(false, false) == "default"@,
{
}

/// Any number behind the name is the minor version, also one with zeros in front; where it is
/// no number, or too large, there is none.
pub proof fn any_digits_are_a_minor_version(digits: Seq<char>)
    ensures
        ge_proton_minor("GE-Proton10-"@ + digits) is Some <==> digits.len() > 0
            && number::all_digits(digits) && number::number_of(digits) <= u32::MAX,
        ge_proton_minor("GE-Proton10-"@ + digits) matches Some(n) ==> n == number::number_of(digits),
{
    let head = "GE-Proton10-"@;
    let s = head + digits;
    assert(s.subrange(0, head.len() as int) =~= head);
    assert(s.skip(head.len() as int) =~= digits);
    assert(text::strip_prefix(s, head) == Some(digits));
}

} // verus!
