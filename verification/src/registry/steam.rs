//! Games that Steam has installed.

use vstd::prelude::*;
use vstd::utf8::*;
use crate::number;
use crate::number::decimal_text;
use crate::path;
use crate::path::join_path;
use crate::pattern;
use crate::pattern::{capture, capture_all, INSTALLDIR_PATTERN, PATH_PATTERN};
use crate::registry::error::RegistryError;
use crate::text;
use crate::text::{cat, cat3, chars_of, holds, replaced, white_space};
use crate::unicode;
use crate::unicode::to_lowercase_char;

verus! {

/// The Steam app id of STAR WARS Battlefront II.
pub const BATTLEFRONT_APPID: u32 = 1237950;

/// A game slug without white space and in lower case.
pub open spec fn slug_form(s: Seq<char>) -> Seq<char>
    decreases s.len(),
{
    if s.len() == 0 {
        Seq::empty()
    } else if text::is_white_space(s.last()) {
        slug_form(s.drop_last())
    } else {
        slug_form(s.drop_last()) + unicode::char_lower_case(s.last())
    }
}

/// The slugs of the game, without white space and in lower case.
pub open spec fn battlefront_slugs() -> Seq<Seq<char>> {
    seq![
        "bf2"@,
        "swbf2"@,
        "starwarsbattlefrontii"@,
        "starwarsbattlefront2"@,
        "starwarsbattlefrontii(2017)"@,
    ]
}

/// The app id of a slug without white space and in lower case.
pub open spec fn appid_of_form(form: Seq<char>) -> Option<u32> {
    if battlefront_slugs().contains(form) {
        Some(BATTLEFRONT_APPID)
    } else {
        None
    }
}

/// The app id of a slug without white space and in lower case.
pub fn steam_appid_of_form(form: &str) -> (r: Option<u32>)
    ensures
        r == appid_of_form(form@),
{
    let slugs = vec![
        "bf2".to_owned(),
        "swbf2".to_owned(),
        "starwarsbattlefrontii".to_owned(),
        "starwarsbattlefront2".to_owned(),
        "starwarsbattlefrontii(2017)".to_owned(),
    ];
    assert(text::views(slugs@) =~= battlefront_slugs());
    if holds(&slugs, form) {
        Some(BATTLEFRONT_APPID)
    } else {
        None
    }
}

/// The app id of a slug, whatever its case and white space.
pub fn slug_to_steam_appid(slug: &str) -> (r: Option<u32>)
    ensures
        r == appid_of_form(slug_form(slug@)),
{
    let v = chars_of(slug);
    let mut form = String::new();
    let mut i: usize = 0;
    assert(v@.take(0) =~= Seq::empty());
    while i < v.len()
        invariant
            i <= v@.len(),
            v@ == slug@,
            form@ == slug_form(v@.take(i as int)),
        decreases v@.len() - i,
    {
        assert(v@.take(i + 1).drop_last() =~= v@.take(i as int));
        if !white_space(v[i]) {
            let lower = to_lowercase_char(v[i]);
            form.append(lower.as_str());
        }
        i += 1;
    }
    assert(v@.take(v@.len() as int) =~= v@);
    steam_appid_of_form(form.as_str())
}

/// The directories that Steam may be installed in, in order of preference.
pub open spec fn steam_roots(custom: Option<Seq<char>>, home: Option<Seq<char>>) -> Seq<Seq<char>> {
    (match custom {
        Some(c) => seq![c],
        None => seq![],
    }) + (match home {
        Some(h) => seq![
            path::path_join(h, ".var/app/com.valvesoftware.Steam/.steam/steam"@),
            path::path_join(h, ".steam/steam"@),
            path::path_join(h, ".local/share/Steam"@),
        ],
        None => seq![],
    }) + seq!["/mnt/Games/SteamLibrary"@]
}

/// The directories that Steam may be installed in, given `STEAM_LIBRARY_ROOT` and `HOME`:
/// the one that the user names, Flatpak's, the usual one, an alternative, and a library on
/// another disk.
pub fn steam_root_candidates(custom: Option<&str>, home: Option<&str>) -> (r: Vec<String>)
    ensures
        text::views(r@) == steam_roots(text::opt_str(custom), text::opt_str(home)),
{
    let mut roots: Vec<String> = Vec::new();
    match custom {
        Some(c) => roots.push(c.to_owned()),
        None => {},
    }
    match home {
        Some(h) => {
            roots.push(join_path(h, ".var/app/com.valvesoftware.Steam/.steam/steam"));
            roots.push(join_path(h, ".steam/steam"));
            roots.push(join_path(h, ".local/share/Steam"));
        },
        None => {},
    }
    roots.push("/mnt/Games/SteamLibrary".to_owned());
    assert(text::views(roots@) =~= steam_roots(text::opt_str(custom), text::opt_str(home)));
    roots
}

/// A quoted value with each pair of backslashes made one.
pub open spec fn unescaped(raw: Seq<char>) -> Seq<char> {
    text::replace(raw, "\\\\"@, "\\"@)
}

fn unescape(raw: &str) -> (r: String)
    ensures
        r@ == unescaped(raw@),
{
    proof {
        reveal_strlit("\\\\");
    }
    replaced(raw, "\\\\", "\\")
}

/// The library directories that a `libraryfolders.vdf` lists.
pub open spec fn library_paths(vdf: Seq<char>) -> Seq<Seq<char>> {
    pattern::quoted_values(vdf, "\"path\""@).map_values(|raw: Seq<char>| unescaped(raw))
}

/// The library directories that a Steam `libraryfolders.vdf` lists: the value of every
/// `"path"`, in order.
pub fn parse_libraryfolders_vdf(vdf: &str) -> (r: Vec<String>)
    ensures
        text::views(r@) == library_paths(vdf@),
{
    let raw = capture_all(PATH_PATTERN, vdf, 1);
    let ghost all = library_paths(vdf@);
    let mut out: Vec<String> = Vec::new();
    let mut i: usize = 0;
    while i < raw.len()
        invariant
            i <= raw@.len(),
            text::views(raw@) == pattern::quoted_values(vdf@, "\"path\""@),
            all == library_paths(vdf@),
            text::views(out@) == all.take(i as int),
        decreases raw@.len() - i,
    {
        let ghost before = text::views(out@);
        assert(text::views(raw@)[i as int] == raw@[i as int]@);
        let dir = unescape(raw[i].as_str());
        assert(dir@ == all[i as int]);
        out.push(dir);
        assert(text::views(out@) =~= before.push(all[i as int]));
        assert(all.take(i + 1) =~= before.push(all[i as int]));
        i += 1;
    }
    assert(all.len() == text::views(raw@).len());
    assert(all.take(all.len() as int) =~= all);
    out
}

/// The install directory that an app manifest names.
pub open spec fn install_dir(acf: Seq<char>) -> Option<Seq<char>> {
    match pattern::first_of(pattern::quoted_values(acf, "\"installdir\""@)) {
        Some(raw) => Some(unescaped(raw)),
        None => None,
    }
}

/// The install directory that a Steam app manifest names: the value of its first
/// `"installdir"`.
pub fn parse_appmanifest_acf(acf: &str) -> (r: Option<String>)
    ensures
        text::opt_string(r) == install_dir(acf@),
{
    match capture(INSTALLDIR_PATTERN, acf, 1) {
        Some(raw) => Some(unescape(raw.as_str())),
        None => None,
    }
}

/// The list of libraries of a Steam installation.
pub fn libraryfolders_path(root: &str) -> (r: String)
    ensures
        r@ == path::path_join(path::path_join(root@, "steamapps"@), "libraryfolders.vdf"@),
{
    let dir = join_path(root, "steamapps");
    join_path(dir.as_str(), "libraryfolders.vdf")
}

/// The manifest of an app in a library.
pub fn manifest_path(library: &str, appid: u32) -> (r: String)
    ensures
        r@ == path::path_join(
            path::path_join(library@, "steamapps"@),
            "appmanifest_"@ + number::decimal(appid as nat) + ".acf"@,
        ),
{
    let dir = join_path(library, "steamapps");
    let id = decimal_text(appid as u64);
    let file = cat3("appmanifest_", id.as_str(), ".acf");
    join_path(dir.as_str(), file.as_str())
}

/// Where a library has a game, from the text of the game's manifest there (`None` where
/// there is none).
pub open spec fn library_game_dir(library: Seq<char>, acf: Option<Seq<char>>) -> Option<Seq<char>> {
    match acf {
        Some(text) => match install_dir(text) {
            Some(dir) => Some(
                path::path_join(
                    path::path_join(path::path_join(library, "steamapps"@), "common"@),
                    dir,
                ),
            ),
            None => None,
        },
        None => None,
    }
}

/// The libraries and manifests of a search, as texts.
pub open spec fn search_views(v: Seq<(String, Option<String>)>) -> Seq<(Seq<char>, Option<Seq<char>>)> {
    v.map_values(|l: (String, Option<String>)| (l.0@, text::opt_string(l.1)))
}

/// Where the libraries have the game, in order.
pub open spec fn game_dirs(libraries: Seq<(Seq<char>, Option<Seq<char>>)>) -> Seq<Seq<char>> {
    libraries.filter_map(|l: (Seq<char>, Option<Seq<char>>)| library_game_dir(l.0, l.1))
}

/// Where the libraries have a game, in order, from each library and the text of the game's
/// manifest there (`None` where there is none).
pub fn game_dir_candidates(libraries: &Vec<(String, Option<String>)>) -> (r: Vec<String>)
    ensures
        text::views(r@) == game_dirs(search_views(libraries@)),
{
    let ghost all = search_views(libraries@);
    let mut out: Vec<String> = Vec::new();
    let mut i: usize = 0;
    assert(text::views(out@) =~= game_dirs(all.take(0)));
    while i < libraries.len()
        invariant
            i <= libraries@.len(),
            all == search_views(libraries@),
            text::views(out@) == game_dirs(all.take(i as int)),
        decreases libraries@.len() - i,
    {
        let ghost before = text::views(out@);
        let ghost f = |l: (Seq<char>, Option<Seq<char>>)| library_game_dir(l.0, l.1);
        let library = libraries[i].0.as_str();
        assert(all[i as int] == (libraries@[i as int].0@, text::opt_string(libraries@[i as int].1)));
        assert(all.take(i + 1).drop_last() =~= all.take(i as int));
        assert(all.take(i + 1).last() == all[i as int]);
        match &libraries[i].1 {
            Some(acf) => match parse_appmanifest_acf(acf.as_str()) {
                Some(dir) => {
                    let apps = join_path(library, "steamapps");
                    let common = join_path(apps.as_str(), "common");
                    let p = join_path(common.as_str(), dir.as_str());
                    assert(f(all[i as int]) == Some(p@));
                    out.push(p);
                    assert(text::views(out@) =~= before + seq![p@]);
                },
                None => {
                    assert(f(all[i as int]) is None);
                },
            },
            None => {
                assert(f(all[i as int]) is None);
            },
        }
        i += 1;
    }
    assert(all.take(all.len() as int) =~= all);
    out
}

/// The reason for which a slug cannot be looked up.
pub open spec fn unsupported_slug(name: Seq<char>) -> Seq<char> {
    "Unsupported game slug for Linux Steam detection: `"@ + name + "`"@
}

/// The reason for which a game was not found.
pub open spec fn not_installed(name: Seq<char>, appid: u32) -> Seq<char> {
    "No Steam installation found for app id "@ + number::decimal(appid as nat) + " (slug `"@ + (name
        + "`)"@)
}

/// Whether `i` is the first directory that exists.
pub open spec fn exists_first(candidates: Seq<(String, bool)>, i: int) -> bool {
    &&& 0 <= i < candidates.len()
    &&& candidates[i].1
    &&& forall|j: int| 0 <= j < i ==> !(#[trigger] candidates[j]).1
}

/// Where a game is installed, from the directories that the libraries name for it, in
/// order, and whether each exists: the first that does.
pub fn read_game_path(name: &str, candidates: &Vec<(String, bool)>) -> (r: Result<
    String,
    RegistryError,
>)
    ensures
        match appid_of_form(slug_form(name@)) {
            None => r matches Err(RegistryError::Key(k)) && k@ == unsupported_slug(name@),
            Some(appid) => match r {
                Ok(p) => exists|i: int|
                    #[trigger] exists_first(candidates@, i) && p@ == candidates@[i].0@,
                Err(RegistryError::Key(k)) => {
                    &&& k@ == not_installed(name@, appid)
                    &&& forall|i: int| 0 <= i < candidates@.len() ==> !(#[trigger] candidates@[i]).1
                },
                Err(_) => false,
            },
        },
{
    let appid = match slug_to_steam_appid(name) {
        Some(appid) => appid,
        None => {
            return Err(
                RegistryError::Key(
                    cat3("Unsupported game slug for Linux Steam detection: `", name, "`"),
                ),
            );
        },
    };
    let mut i: usize = 0;
    while i < candidates.len()
        invariant
            i <= candidates@.len(),
            forall|j: int| 0 <= j < i ==> !(#[trigger] candidates@[j]).1,
            appid_of_form(slug_form(name@)) == Some(appid),
        decreases candidates@.len() - i,
    {
        if candidates[i].1 {
            assert(exists_first(candidates@, i as int));
            return Ok(candidates[i].0.clone());
        }
        i += 1;
    }
    let id = decimal_text(appid as u64);
    let head = cat3("No Steam installation found for app id ", id.as_str(), " (slug `");
    let tail = cat(name, "`)");
    Err(RegistryError::Key(cat(head.as_str(), tail.as_str())))
}

/// White space in a slug does not matter, wherever it stands.
pub proof fn slug_space_does_not_matter(before: Seq<char>, space: char, after: Seq<char>)
    requires
        text::is_white_space(space),
    ensures
        slug_form(before + seq![space] + after) == slug_form(before + after),
    decreases after.len(),
{
    let long = before + seq![space] + after;
    let short = before + after;
    if after.len() == 0 {
        assert(long.drop_last() =~= before);
        assert(long.last() == space);
        assert(short =~= before);
    } else {
        let rest = after.drop_last();
        slug_space_does_not_matter(before, space, rest);
        assert(long.drop_last() =~= before + seq![space] + rest);
        assert(short.drop_last() =~= before + rest);
        assert(long.last() == short.last());
    }
}

/// The case of an ASCII slug does not matter.
pub proof fn slug_case_does_not_matter(slug: Seq<char>)
    requires
        is_ascii_chars(slug),
    ensures
        slug_form(unicode::lower_case(slug)) == slug_form(slug),
    decreases slug.len(),
{
    let lower = unicode::lower_case(slug);
    if slug.len() > 0 {
        let rest = slug.drop_last();
        assert(slug[slug.len() - 1] == slug.last());
        assert forall|i: int| 0 <= i < rest.len() implies '\0' <= #[trigger] rest[i] <= '\u{7f}' by {
            assert(rest[i] == slug[i]);
        }
        slug_case_does_not_matter(rest);
        assert(lower.drop_last() =~= unicode::lower_case(rest));
        assert(lower.last() == unicode::ascii_lower(slug.last()));
    } else {
        assert(lower =~= slug);
    }
}

/// A directory as it is written in a quoted value: with two backslashes for one.
pub open spec fn escaped(dir: Seq<char>) -> Seq<char>
    decreases dir.len(),
{
    if dir.len() == 0 {
        dir
    } else if dir[0] == '\\' {
        seq!['\\', '\\'] + escaped(dir.skip(1))
    } else {
        seq![dir[0]] + escaped(dir.skip(1))
    }
}

proof fn lemma_unescaped(dir: Seq<char>)
    ensures
        unescaped(escaped(dir)) == dir,
    decreases dir.len(),
{
    reveal_strlit("\\\\");
    reveal_strlit("\\");
    let two = "\\\\"@;
    assert(two =~= seq!['\\', '\\']);
    assert("\\"@ =~= seq!['\\']);
    if dir.len() > 0 {
        let s = escaped(dir);
        let rest = escaped(dir.skip(1));
        lemma_unescaped(dir.skip(1));
        if dir[0] == '\\' {
            assert(s.subrange(0, 2) =~= two);
            assert(s.skip(2) =~= rest);
        } else {
            assert(s[0] == dir[0]);
            if two.is_prefix_of(s) {
                assert(s.subrange(0, 2)[0] == '\\');
            }
            assert(s.skip(1) =~= rest);
        }
        assert(unescaped(s) =~= dir);
    }
}

proof fn lemma_closing_quote(before: Seq<char>, dir: Seq<char>, after: Seq<char>)
    requires
        !dir.contains('"'),
    ensures
        pattern::closing_quote(
            before + escaped(dir) + seq!['"'] + after,
            before.len() as int,
        ) == Some((before.len() + escaped(dir).len()) as int),
    decreases dir.len(),
{
    let s = before + escaped(dir) + seq!['"'] + after;
    let i = before.len() as int;
    if dir.len() == 0 {
        assert(s[i] == '"');
    } else {
        let rest = dir.skip(1);
        assert(dir.contains(dir[0]));
        assert forall|c: char| rest.contains(c) implies dir.contains(c) by {
            let k = choose|k: int| 0 <= k < rest.len() && rest[k] == c;
            assert(dir[k + 1] == c);
        }
        if dir[0] == '\\' {
            let head = before + seq!['\\', '\\'];
            lemma_closing_quote(head, rest, after);
            assert(head + escaped(rest) + seq!['"'] + after =~= s);
            assert(s[i] == '\\' && s[i + 1] == '\\');
        } else {
            let head = before + seq![dir[0]];
            lemma_closing_quote(head, rest, after);
            assert(head + escaped(rest) + seq!['"'] + after =~= s);
            assert(s[i] == dir[0]);
        }
    }
}

proof fn lemma_skip_shift(a: Seq<char>, b: Seq<char>, i: int)
    requires
        0 <= i,
    ensures
        pattern::skip_white_space(a + b, a.len() + i) == a.len() + pattern::skip_white_space(b, i),
    decreases b.len() - i,
{
    if i < b.len() {
        assert((a + b)[a.len() + i] == b[i]);
        if text::is_white_space(b[i]) {
            lemma_skip_shift(a, b, i + 1);
        }
    }
}

proof fn lemma_quote_shift(a: Seq<char>, b: Seq<char>, i: int)
    requires
        0 <= i,
    ensures
        pattern::closing_quote(a + b, a.len() + i) == (match pattern::closing_quote(b, i) {
            Some(e) => Some(a.len() + e),
            None => None,
        }),
    decreases b.len() - i,
{
    if i < b.len() {
        assert((a + b)[a.len() + i] == b[i]);
        if b[i] == '\\' {
            if i + 1 < b.len() {
                assert((a + b)[a.len() + i + 1] == b[i + 1]);
                lemma_quote_shift(a, b, i + 2);
            }
        } else if b[i] != '"' {
            lemma_quote_shift(a, b, i + 1);
        }
    }
}

proof fn lemma_quote_bound(s: Seq<char>, i: int)
    ensures
        pattern::closing_quote(s, i) matches Some(e) ==> i <= e < s.len(),
    decreases s.len() - i,
{
    if 0 <= i < s.len() && s[i] != '"' {
        if s[i] == '\\' {
            if i + 1 < s.len() {
                lemma_quote_bound(s, i + 2);
            }
        } else {
            lemma_quote_bound(s, i + 1);
        }
    }
}

proof fn lemma_values_shift(a: Seq<char>, b: Seq<char>, key: Seq<char>, i: int)
    requires
        0 <= i,
    ensures
        pattern::values_from(a + b, key, a.len() + i) == pattern::values_from(b, key, i),
    decreases b.len() - i,
{
    let s = a + b;
    let n = a.len() as int;
    if i < b.len() {
        let after = i + key.len();
        lemma_skip_shift(a, b, after);
        let open = pattern::skip_white_space(b, after);
        assert(text::occurs_at(s, key, n + i) == text::occurs_at(b, key, i)) by {
            if i + key.len() <= b.len() {
                assert(s.subrange(n + i, n + i + key.len()) =~= b.subrange(i, i + key.len()));
            }
        }
        lemma_skip_bound(b, after);
        if open < b.len() {
            assert(s[n + open] == b[open]);
        }
        lemma_quote_shift(a, b, open + 1);
        lemma_quote_bound(b, open + 1);
        match pattern::value_at(b, key, i) {
            Some((x, e)) => {
                assert(pattern::value_at(s, key, n + i) == Some((n + x, n + e)));
                assert(s.subrange(n + x, n + e) =~= b.subrange(x, e));
                lemma_values_shift(a, b, key, e + 1);
            },
            None => {
                assert(pattern::value_at(s, key, n + i) is None);
                lemma_values_shift(a, b, key, i + 1);
            },
        }
    }
}

proof fn lemma_skip_bound(s: Seq<char>, i: int)
    ensures
        pattern::skip_white_space(s, i) >= i,
    decreases s.len() - i,
{
    if 0 <= i < s.len() && text::is_white_space(s[i]) {
        lemma_skip_bound(s, i + 1);
    }
}

/// The entry of a library in a `libraryfolders.vdf`, with white space between the key and
/// the value.
pub open spec fn library_entry(space: Seq<char>, dir: Seq<char>) -> Seq<char> {
    "\"path\""@ + space + seq!['"'] + escaped(dir) + seq!['"']
}

proof fn lemma_skip_space(before: Seq<char>, space: Seq<char>, after: Seq<char>)
    requires
        forall|i: int| 0 <= i < space.len() ==> text::is_white_space(#[trigger] space[i]),
        after.len() > 0,
        !text::is_white_space(after[0]),
    ensures
        pattern::skip_white_space(before + space + after, before.len() as int) == before.len()
            + space.len(),
    decreases space.len(),
{
    let s = before + space + after;
    if space.len() > 0 {
        let head = before + seq![space[0]];
        let rest = space.skip(1);
        assert forall|i: int| 0 <= i < rest.len() implies text::is_white_space(#[trigger] rest[i]) by {
            assert(rest[i] == space[i + 1]);
        }
        lemma_skip_space(head, rest, after);
        assert(head + rest + after =~= s);
        assert(s[before.len() as int] == space[0]);
    } else {
        assert(s[before.len() as int] == after[0]);
    }
}

/// A library that is listed is found, with its directory as it was before it was written,
/// and then those that are listed after it. A directory holds no quotes.
pub proof fn listed_library_is_found(space: Seq<char>, dir: Seq<char>, rest: Seq<char>)
    requires
        space.len() > 0,
        forall|i: int| 0 <= i < space.len() ==> text::is_white_space(#[trigger] space[i]),
        !dir.contains('"'),
    ensures
        library_paths(library_entry(space, dir) + rest) == seq![dir] + library_paths(rest),
{
    let key = "\"path\""@;
    reveal_strlit("\"path\"");
    let entry = library_entry(space, dir);
    let s = entry + rest;
    let value = escaped(dir);
    let quote = seq!['"'];
    let open = (key.len() + space.len()) as int;
    let end = open + 1 + value.len();
    assert(s.subrange(0, key.len() as int) =~= key);
    assert(text::occurs_at(s, key, 0));
    let tail = quote + value + quote + rest;
    assert(key + space + tail =~= s);
    assert(tail[0] == '"');
    lemma_skip_space(key, space, tail);
    assert(s[open] == '"');
    let head = key + space + quote;
    assert(head + value + quote + rest =~= s);
    lemma_closing_quote(head, dir, rest);
    assert(pattern::value_at(s, key, 0) == Some((open + 1, end)));
    assert(s.subrange(open + 1, end) =~= value);
    assert(end + 1 == entry.len());
    lemma_values_shift(entry, rest, key, 0);
    let f = |raw: Seq<char>| unescaped(raw);
    assert(pattern::quoted_values(s, key) == seq![value] + pattern::quoted_values(rest, key));
    lemma_unescaped(dir);
    assert(library_paths(s) =~= seq![dir] + library_paths(rest));
}

/// Whenever the home directory is known, the three places below it are searched, in this
/// order and before the library on another disk, whether or not the user names a directory.
pub proof fn home_is_always_searched(custom: Option<Seq<char>>, home: Seq<char>)
    ensures
        exists|k: int|
            0 <= k && k + 3 < steam_roots(custom, Some(home)).len() && #[trigger] steam_roots(
                custom,
                Some(home),
            )[k] == path::path_join(home, ".var/app/com.valvesoftware.Steam/.steam/steam"@)
                && steam_roots(custom, Some(home))[k + 1] == path::path_join(home, ".steam/steam"@)
                && steam_roots(custom, Some(home))[k + 2] == path::path_join(
                home,
                ".local/share/Steam"@,
            ) && steam_roots(custom, Some(home))[k + 3] == "/mnt/Games/SteamLibrary"@,
{
    let roots = steam_roots(custom, Some(home));
    let k: int = if custom is Some {
        1
    } else {
        0
    };
    assert(roots[k] == path::path_join(home, ".var/app/com.valvesoftware.Steam/.steam/steam"@));
    assert(roots[k + 3] == "/mnt/Games/SteamLibrary"@);
}

/// A directory that the user names is searched first, and changes nothing else of the search.
pub proof fn custom_root_is_added_in_front(custom: Seq<char>, home: Option<Seq<char>>)
    ensures
        steam_roots(Some(custom), home) == seq![custom] + steam_roots(None, home),
        steam_roots(None, None) == seq!["/mnt/Games/SteamLibrary"@],
{
    assert(steam_roots(Some(custom), home) =~= seq![custom] + steam_roots(None, home));
    assert(steam_roots(None, None) =~= seq!["/mnt/Games/SteamLibrary"@]);
}

/// A slug in small ASCII letters, digits and signs, without white space, is its own form.
pub proof fn plain_slug_is_its_own_form(slug: Seq<char>)
    requires
        forall|i: int|
            0 <= i < slug.len() ==> 0x21 <= (#[trigger] slug[i]) as u32 && (slug[i] as u32) < 0x80
                && !(0x41 <= slug[i] as u32 <= 0x5a),
    ensures
        slug_form(slug) == slug,
    decreases slug.len(),
{
    if slug.len() > 0 {
        let rest = slug.drop_last();
        assert(slug[slug.len() - 1] == slug.last());
        assert forall|i: int| 0 <= i < rest.len() implies 0x21 <= (#[trigger] rest[i]) as u32 && (
        rest[i] as u32) < 0x80 && !(0x41 <= rest[i] as u32 <= 0x5a) by {
            assert(rest[i] == slug[i]);
        }
        plain_slug_is_its_own_form(rest);
        assert(unicode::char_lower_case(slug.last()) =~= seq![slug.last()]);
        assert(slug_form(slug) =~= slug);
    }
}

/// The form of a slug is made part by part.
pub proof fn slug_parts_are_independent(a: Seq<char>, b: Seq<char>)
    ensures
        slug_form(a + b) == slug_form(a) + slug_form(b),
    decreases b.len(),
{
    if b.len() == 0 {
        assert(a + b =~= a);
        assert(slug_form(a) + slug_form(b) =~= slug_form(a));
    } else {
        slug_parts_are_independent(a, b.drop_last());
        assert((a + b).drop_last() =~= a + b.drop_last());
        assert(slug_form(a + b) =~= slug_form(a) + slug_form(b));
    }
}

/// A manifest names the directory that was written into it, with its backslashes and spaces,
/// whatever stands before the first `"installdir"` and after the value.
pub proof fn install_dir_is_read_back(
    before: Seq<char>,
    space: Seq<char>,
    dir: Seq<char>,
    rest: Seq<char>,
)
    requires
        space.len() > 0,
        forall|i: int| 0 <= i < space.len() ==> text::is_white_space(#[trigger] space[i]),
        !dir.contains('"'),
        text::occurs_first(
            before + "\"installdir\""@ + space + seq!['"'] + escaped(dir) + seq!['"'] + rest,
            "\"installdir\""@,
            before.len() as int,
        ),
    ensures
        install_dir(
            before + "\"installdir\""@ + space + seq!['"'] + escaped(dir) + seq!['"'] + rest,
        ) == Some(dir),
{
    let key = "\"installdir\""@;
    reveal_strlit("\"installdir\"");
    let s = before + key + space + seq!['"'] + escaped(dir) + seq!['"'] + rest;
    lemma_first_value(before, key, space, dir, rest);
    lemma_unescaped(dir);
}

proof fn lemma_first_value(
    before: Seq<char>,
    key: Seq<char>,
    space: Seq<char>,
    dir: Seq<char>,
    rest: Seq<char>,
)
    requires
        key.len() > 0,
        space.len() > 0,
        forall|i: int| 0 <= i < space.len() ==> text::is_white_space(#[trigger] space[i]),
        !dir.contains('"'),
        text::occurs_first(
            before + key + space + seq!['"'] + escaped(dir) + seq!['"'] + rest,
            key,
            before.len() as int,
        ),
    ensures
        pattern::quoted_values(
            before + key + space + seq!['"'] + escaped(dir) + seq!['"'] + rest,
            key,
        ) == seq![escaped(dir)] + pattern::quoted_values(rest, key),
{
    let value = escaped(dir);
    let quote = seq!['"'];
    let s = before + key + space + quote + value + quote + rest;
    let at = before.len() as int;
    let open = at + key.len() + space.len();
    let end = open + 1 + value.len();
    let tail = quote + value + quote + rest;
    assert(before + key + space + tail =~= s);
    assert(tail[0] == '"');
    lemma_skip_space(before + key, space, tail);
    assert(s[open] == '"');
    let head = before + key + space + quote;
    assert(head + value + quote + rest =~= s);
    lemma_closing_quote(head, dir, rest);
    assert(pattern::value_at(s, key, at) == Some((open + 1, end)));
    assert(s.subrange(open + 1, end) =~= value);
    lemma_no_values_before(s, key, 0, at);
    let entry = before + key + space + quote + value + quote;
    assert(entry + rest =~= s);
    lemma_values_shift(entry, rest, key, 0);
    assert(end + 1 == entry.len());
}

proof fn lemma_no_values_before(s: Seq<char>, key: Seq<char>, i: int, at: int)
    requires
        0 <= i <= at < s.len(),
        forall|j: int| 0 <= j < at ==> !#[trigger] text::occurs_at(s, key, j),
    ensures
        pattern::values_from(s, key, i) == pattern::values_from(s, key, at),
    decreases at - i,
{
    if i < at {
        assert(!text::occurs_at(s, key, i));
        assert(pattern::value_at(s, key, i) is None);
        lemma_no_values_before(s, key, i + 1, at);
    }
}

/// A text that names no directory lists no library and has no install directory.
pub proof fn nothing_is_read_without_the_key(s: Seq<char>)
    ensures
        !text::occurs(s, "\"path\""@) ==> library_paths(s) == Seq::<Seq<char>>::empty(),
        !text::occurs(s, "\"installdir\""@) ==> install_dir(s) is None,
{
    if !text::occurs(s, "\"path\""@) {
        lemma_no_values(s, "\"path\""@, 0);
        assert(library_paths(s) =~= Seq::empty());
    }
    if !text::occurs(s, "\"installdir\""@) {
        lemma_no_values(s, "\"installdir\""@, 0);
    }
}

proof fn lemma_no_values(s: Seq<char>, key: Seq<char>, i: int)
    requires
        0 <= i,
        !text::occurs(s, key),
    ensures
        pattern::values_from(s, key, i) == Seq::<Seq<char>>::empty(),
    decreases s.len() - i,
{
    if i < s.len() {
        assert(!text::occurs_at(s, key, i));
        lemma_no_values(s, key, i + 1);
    }
}

/// Libraries are searched one after the other: each that has the game adds the directory that
/// its manifest names below `steamapps/common`, and one without it adds nothing.
pub proof fn libraries_are_searched_in_order(
    before: Seq<(Seq<char>, Option<Seq<char>>)>,
    library: Seq<char>,
    acf: Option<Seq<char>>,
)
    ensures
        game_dirs(before.push((library, acf))) == game_dirs(before) + (match acf {
            Some(t) => match install_dir(t) {
                Some(dir) => seq![
                    path::path_join(
                        path::path_join(path::path_join(library, "steamapps"@), "common"@),
                        dir,
                    ),
                ],
                None => Seq::empty(),
            },
            None => Seq::empty(),
        }),
{
    let f = |l: (Seq<char>, Option<Seq<char>>)| library_game_dir(l.0, l.1);
    let all = before.push((library, acf));
    assert(all.drop_last() =~= before);
    assert(all.last() == (library, acf));
    assert(game_dirs(all) =~= game_dirs(before) + (match library_game_dir(library, acf) {
        Some(d) => seq![d],
        None => Seq::empty(),
    }));
}

/// Every spelling of the game leads to its app, and no other slug leads to any.
pub proof fn only_the_game_has_an_app(form: Seq<char>)
    ensures
        appid_of_form(form) == Some(1237950u32) <==> form == "bf2"@ || form == "swbf2"@ || form
            == "starwarsbattlefrontii"@ || form == "starwarsbattlefront2"@ || form
            == "starwarsbattlefrontii(2017)"@,
        appid_of_form(form) is None || appid_of_form(form) == Some(1237950u32),
{
    let all = battlefront_slugs();
    assert forall|i: int| 0 <= i < all.len() implies all.contains(#[trigger] all[i]) by {}
    assert(all[0] == "bf2"@ && all[1] == "swbf2"@ && all[2] == "starwarsbattlefrontii"@ && all[3]
        == "starwarsbattlefront2"@ && all[4] == "starwarsbattlefrontii(2017)"@);
}

/// A library is found wherever it is listed, whatever stands before the first one and after it.
pub proof fn library_is_found_wherever_it_is_listed(
    before: Seq<char>,
    space: Seq<char>,
    dir: Seq<char>,
    rest: Seq<char>,
)
    requires
        space.len() > 0,
        forall|i: int| 0 <= i < space.len() ==> text::is_white_space(#[trigger] space[i]),
        !dir.contains('"'),
        text::occurs_first(
            before + "\"path\""@ + space + seq!['"'] + escaped(dir) + seq!['"'] + rest,
            "\"path\""@,
            before.len() as int,
        ),
    ensures
        library_paths(before + "\"path\""@ + space + seq!['"'] + escaped(dir) + seq!['"'] + rest)
            == seq![dir] + library_paths(rest),
{
    reveal_strlit("\"path\"");
    lemma_first_value(before, "\"path\""@, space, dir, rest);
    lemma_unescaped(dir);
    assert(library_paths(
        before + "\"path\""@ + space + seq!['"'] + escaped(dir) + seq!['"'] + rest,
    ) =~= seq![dir] + library_paths(rest));
}

/// The reasons tell the slug and, where it is known, the app.
pub proof fn reasons_tell_the_slug(name: Seq<char>, appid: u32)
    ensures
        text::occurs(unsupported_slug(name), seq!['`'] + name + seq!['`']),
        text::occurs(not_installed(name, appid), seq!['`'] + name + seq!['`']),
        text::occurs(not_installed(name, appid), number::decimal(appid as nat)),
{
    reveal_strlit("Unsupported game slug for Linux Steam detection: `");
    reveal_strlit("`");
    reveal_strlit("`)");
    reveal_strlit(" (slug `");
    let mark = seq!['`'] + name + seq!['`'];
    let lead = "Unsupported game slug for Linux Steam detection: `"@;
    let none = Seq::<char>::empty();
    assert(unsupported_slug(name) =~= lead.drop_last() + mark + none);
    text::text_stands_where_it_was_put(lead.drop_last(), mark, none);
    let head = "No Steam installation found for app id "@;
    let digits = number::decimal(appid as nat);
    let gap = " (slug `"@;
    assert(not_installed(name, appid) =~= (head + digits + gap.drop_last()) + mark + seq![')']);
    text::text_stands_where_it_was_put(head + digits + gap.drop_last(), mark, seq![')']);
    assert(not_installed(name, appid) =~= head + digits + (gap + (name + "`)"@)));
    text::text_stands_where_it_was_put(head, digits, gap + (name + "`)"@));
}

/// With a home directory three roots below it are searched and one beside it, and nothing else.
pub proof fn roots_of_a_home(home: Seq<char>, custom: Seq<char>)
    ensures
        steam_roots(None, Some(home)).len() == 4,
        steam_roots(Some(custom), Some(home)).len() == 5,
        steam_roots(Some(custom), None).len() == 2,
        steam_roots(Some(custom), None)[0] == custom,
        steam_roots(None, Some(home)).last() == "/mnt/Games/SteamLibrary"@,
{
}

/// A value without doubled backslashes is read as it is, and a doubled one is read as one.
pub proof fn only_doubled_backslashes_change(before: Seq<char>, after: Seq<char>)
    requires
        !text::occurs(before, seq!['\\', '\\']),
        text::occurs_first(
            before + seq!['\\', '\\'] + after,
            seq!['\\', '\\'],
            before.len() as int,
        ),
    ensures
        unescaped(before) == before,
        unescaped(before + seq!['\\', '\\'] + after) == before + seq!['\\'] + unescaped(after),
{
    reveal_strlit("\\\\");
    reveal_strlit("\\");
    assert("\\\\"@ =~= seq!['\\', '\\']);
    assert("\\"@ =~= seq!['\\']);
    text::nothing_is_replaced(before, "\\\\"@, "\\"@);
    text::first_occurrence_is_replaced(before, "\\\\"@, after, "\\"@);
}

/// The first directory that exists is taken, whatever follows it.
pub proof fn first_existing_directory_is_taken(
    before: Seq<(String, bool)>,
    dir: String,
    after: Seq<(String, bool)>,
    i: int,
)
    requires
        forall|k: int| 0 <= k < before.len() ==> !(#[trigger] before[k]).1,
    ensures
        exists_first(before.push((dir, true)) + after, i) <==> i == before.len(),
        !exists_first(before, i),
{
    let all = before.push((dir, true)) + after;
    let n = before.len() as int;
    assert(all[n] == (dir, true));
    assert forall|k: int| 0 <= k < n implies !(#[trigger] all[k]).1 by {
        assert(all[k] == before[k]);
    }
}

} // verus!
