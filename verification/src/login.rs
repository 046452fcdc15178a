//! The sign-in through the user's browser.
//!
//! The browser is sent to the sign-in page and comes back to a local port with a request
//! line that holds the code.

use vstd::prelude::*;
use crate::pattern;
use crate::pattern::{capture, HTTP_PATTERN};
use crate::text;
use crate::text::{cat, chars_of, find_in, holds, join_texts, same, split_text, starts_with, string_range, trim};

verus! {

/// The seconds to wait for the browser. A browser in a sandbox can lose the way back.
pub const LOGIN_CALLBACK_TIMEOUT: u64 = 300;

/// Whether a directory stays in the search path: the ones of the application's own image do
/// not.
pub open spec fn stays(dir: Seq<char>, appdir: Seq<char>) -> bool {
    dir.len() > 0 && !(appdir.len() > 0 && appdir.is_prefix_of(dir))
}

/// The directories of the host: of the path that was saved at the start, or else of the
/// current one.
pub open spec fn host_dirs(
    appdir: Seq<char>,
    saved: Option<Seq<char>>,
    current: Option<Seq<char>>,
) -> Seq<Seq<char>> {
    let base = if saved is Some && saved.unwrap().len() > 0 {
        saved
    } else {
        current
    };
    match base {
        Some(b) => text::split(b, ':').filter(|d: Seq<char>| stays(d, appdir)),
        None => Seq::empty(),
    }
}

/// The directories that applications of the host are found in.
pub open spec fn export_dirs(home: Option<Seq<char>>) -> Seq<Seq<char>> {
    (match home {
        Some(h) => seq![h + "/.local/share/flatpak/exports/share"@],
        None => Seq::empty(),
    }) + seq!["/var/lib/flatpak/exports/share"@, "/usr/local/share"@, "/usr/share"@]
}

/// The texts of a list, each where it first stands.
pub open spec fn first_ones(list: Seq<Seq<char>>) -> Seq<Seq<char>>
    decreases list.len(),
{
    if list.len() == 0 {
        list
    } else {
        let before = first_ones(list.drop_last());
        if before.contains(list.last()) {
            before
        } else {
            before.push(list.last())
        }
    }
}

/// The search path that the browser is opened with.
pub open spec fn data_dirs(
    appdir: Seq<char>,
    saved: Option<Seq<char>>,
    current: Option<Seq<char>>,
    home: Option<Seq<char>>,
) -> Seq<char> {
    text::join(first_ones(host_dirs(appdir, saved, current) + export_dirs(home)), ":"@)
}

/// The variables of the application's own image, which the browser must not see.
pub open spec fn image_variables() -> Seq<Seq<char>> {
    seq![
        "GTK_PATH"@,
        "GDK_PIXBUF_MODULE_FILE"@,
        "GTK_IM_MODULE_FILE"@,
        "GI_TYPELIB_PATH"@,
        "GSETTINGS_SCHEMA_DIR"@,
        "GTK_EXE_PREFIX"@,
        "GTK_DATA_PREFIX"@,
        "GTK_THEME"@,
        "GDK_BACKEND"@,
        "LD_LIBRARY_PATH"@,
    ]
}

fn add_host_dirs(base: &str, appdir: &str) -> (r: Vec<String>)
    ensures
        text::views(r@) == text::split(base@, ':').filter(|d: Seq<char>| stays(d, appdir@)),
{
    let pieces = split_text(base, ':');
    let ghost all = text::views(pieces@);
    let ghost keep = |d: Seq<char>| stays(d, appdir@);
    let mut out: Vec<String> = Vec::new();
    let mut i: usize = 0;
    assert(all.take(0) =~= Seq::empty());
    assert(text::views(out@) =~= Seq::<Seq<char>>::empty().filter(keep)) by {
        reveal(Seq::filter);
    }
    while i < pieces.len()
        invariant
            i <= pieces@.len(),
            all == text::views(pieces@),
            keep == (|d: Seq<char>| stays(d, appdir@)),
            text::views(out@) == all.take(i as int).filter(keep),
        decreases pieces@.len() - i,
    {
        let ghost before = text::views(out@);
        let d = pieces[i].as_str();
        assert(d@ == all[i as int]);
        assert(all.take(i + 1).drop_last() =~= all.take(i as int));
        reveal(Seq::filter);
        if !d.is_empty() && !(!appdir.is_empty() && starts_with(d, appdir)) {
            out.push(pieces[i].clone());
            assert(text::views(out@) =~= before.push(all[i as int]));
        }
        i += 1;
    }
    assert(all.take(all.len() as int) =~= all);
    out
}

fn without_repeats(list: &Vec<String>) -> (r: Vec<String>)
    ensures
        text::views(r@) == first_ones(text::views(list@)),
{
    let ghost all = text::views(list@);
    let mut out: Vec<String> = Vec::new();
    let mut i: usize = 0;
    assert(text::views(out@) =~= first_ones(all.take(0)));
    while i < list.len()
        invariant
            i <= list@.len(),
            all == text::views(list@),
            text::views(out@) == first_ones(all.take(i as int)),
        decreases list@.len() - i,
    {
        let ghost before = text::views(out@);
        let d = list[i].as_str();
        assert(d@ == all[i as int]);
        assert(all.take(i + 1).drop_last() =~= all.take(i as int));
        if !holds(&out, d) {
            out.push(list[i].clone());
            assert(text::views(out@) =~= before.push(all[i as int]));
        }
        i += 1;
    }
    assert(all.take(all.len() as int) =~= all);
    out
}

/// How the browser is opened: the value of `XDG_DATA_DIRS`, and the variables to remove.
pub struct BrowserEnvironment {
    pub xdg_data_dirs: String,
    pub remove: Vec<String>,
}

/// How the browser is opened, given `APPDIR` (empty where it is not set),
/// `KYBER_ORIG_XDG_DATA_DIRS`, `XDG_DATA_DIRS` and `HOME`. The image of the application puts
/// its own directories in front of the search path; with these, the system would not find
/// the user's browser.
pub fn open_login_url(
    appdir: &str,
    saved: Option<&str>,
    current: Option<&str>,
    home: Option<&str>,
) -> (r: BrowserEnvironment)
    ensures
        r.xdg_data_dirs@ == data_dirs(
            appdir@,
            text::opt_str(saved),
            text::opt_str(current),
            text::opt_str(home),
        ),
        text::views(r.remove@) == image_variables(),
{
    let base = match saved {
        Some(s) if !s.is_empty() => saved,
        _ => current,
    };
    let mut dirs = match base {
        Some(b) => add_host_dirs(b, appdir),
        None => Vec::new(),
    };
    let ghost host = text::views(dirs@);
    assert(host =~= host_dirs(appdir@, text::opt_str(saved), text::opt_str(current)));
    match home {
        Some(h) => {
            dirs.push(cat(h, "/.local/share/flatpak/exports/share"));
        },
        None => {},
    }
    dirs.push("/var/lib/flatpak/exports/share".to_owned());
    dirs.push("/usr/local/share".to_owned());
    dirs.push("/usr/share".to_owned());
    assert(text::views(dirs@) =~= host + export_dirs(text::opt_str(home)));
    let dirs = without_repeats(&dirs);
    let remove = vec![
        "GTK_PATH".to_owned(),
        "GDK_PIXBUF_MODULE_FILE".to_owned(),
        "GTK_IM_MODULE_FILE".to_owned(),
        "GI_TYPELIB_PATH".to_owned(),
        "GSETTINGS_SCHEMA_DIR".to_owned(),
        "GTK_EXE_PREFIX".to_owned(),
        "GTK_DATA_PREFIX".to_owned(),
        "GTK_THEME".to_owned(),
        "GDK_BACKEND".to_owned(),
        "LD_LIBRARY_PATH".to_owned(),
    ];
    assert(text::views(remove@) =~= image_variables());
    BrowserEnvironment { xdg_data_dirs: join_texts(&dirs, ":"), remove }
}

/// The program that opens a page in the user's browser, and its arguments.
pub fn browser_command(url: &str) -> (r: (String, Vec<String>))
    ensures
        r.0@ == "xdg-open"@,
        text::views(r.1@) == seq![url@],
{
    let args = vec![url.to_owned()];
    assert(text::views(args@) =~= seq![url@]);
    ("xdg-open".to_owned(), args)
}

/// Whether another opener has to be tried, given whether the program ended well (`None` where
/// it could not be started).
pub fn needs_fallback(exit_ok: Option<bool>) -> (r: bool)
    ensures
        r == (exit_ok != Some(true)),
{
    match exit_ok {
        Some(ok) => !ok,
        None => true,
    }
}

/// The pairs of a query string: of each piece between `&`, what stands before the first `=`
/// and between it and the next one. A piece without `=` is ignored.
pub open spec fn query_pairs(query: Seq<char>) -> Seq<(Seq<char>, Seq<char>)> {
    text::split(query, '&').map_values(|p: Seq<char>| text::split(p, '=')).filter(
        |kv: Seq<Seq<char>>| kv.len() >= 2,
    ).map_values(|kv: Seq<Seq<char>>| (kv[0], kv[1]))
}

/// Calls `querystring::querify`, which splits a query string into its pairs.
#[verifier::external_body]
fn querify(query: &str) -> (r: Vec<(String, String)>)
    ensures
        text::pair_views(r@) == query_pairs(query@),
{
    querystring::querify(query).into_iter().map(|(k, v)| (k.to_string(), v.to_string())).collect()
}

/// What a request to the local port leads to.
pub enum LoginReply {
    /// Wait for another request.
    Ignore,
    /// The sign-in is done, with this code.
    Code(String),
    /// The sign-in fails: the request has no query.
    NoQuery,
    /// The sign-in fails: the query holds no code.
    NoAuthCode,
}

/// What a request leads to, with a text.
pub ghost enum Login {
    Ignore,
    Code(Seq<char>),
    NoQuery,
    NoAuthCode,
}

impl View for LoginReply {
    type V = Login;

    open spec fn view(&self) -> Login {
        match self {
            LoginReply::Ignore => Login::Ignore,
            LoginReply::Code(c) => Login::Code(c@),
            LoginReply::NoQuery => Login::NoQuery,
            LoginReply::NoAuthCode => Login::NoAuthCode,
        }
    }
}

/// Whether the first pair with the name `code` stands at `i`.
pub open spec fn is_code(pairs: Seq<(Seq<char>, Seq<char>)>, i: int) -> bool {
    &&& 0 <= i < pairs.len()
    &&& pairs[i].0 == "code"@
    &&& forall|j: int| 0 <= j < i ==> (#[trigger] pairs[j]).0 != "code"@
}

/// What a query leads to: the first code counts.
pub open spec fn query_login(pairs: Seq<(Seq<char>, Seq<char>)>) -> Login {
    if exists|i: int| is_code(pairs, i) {
        Login::Code(pairs[choose|i: int| is_code(pairs, i)].1)
    } else {
        Login::NoAuthCode
    }
}

/// What a request for a target leads to. Only targets that begin with `/auth` count; the
/// query is what stands after the first `?`.
pub open spec fn target_login(target: Seq<char>) -> Login {
    if !"/auth"@.is_prefix_of(target) {
        Login::Ignore
    } else {
        match text::find_char(target, '?') {
            Some(i) => query_login(query_pairs(text::trimmed(target.skip(i + 1)))),
            None => Login::NoQuery,
        }
    }
}

proof fn lemma_code(pairs: Seq<(Seq<char>, Seq<char>)>, i: int)
    requires
        is_code(pairs, i),
    ensures
        query_login(pairs) == Login::Code(pairs[i].1),
{
    let k = choose|k: int| is_code(pairs, k);
    assert(is_code(pairs, k));
    if k < i {
        assert(pairs[k].0 != "code"@);
    } else if i < k {
        assert(pairs[i].0 != "code"@);
    }
}

/// What a request for a target leads to.
pub fn login_target(target: &str) -> (r: LoginReply)
    ensures
        r@ == target_login(target@),
{
    if !starts_with(target, "/auth") {
        return LoginReply::Ignore;
    }
    let v = chars_of(target);
    let n: usize = v.len();
    match find_in(v.as_slice(), '?') {
        Some(i) => {
            let query = string_range(v.as_slice(), i + 1, n);
            assert(query@ =~= target@.skip(i + 1));
            let query = trim(query.as_str());
            let pairs = querify(query.as_str());
            let ghost all = text::pair_views(pairs@);
            let mut k: usize = 0;
            while k < pairs.len()
                invariant
                    k <= pairs@.len(),
                    all == text::pair_views(pairs@),
                    target_login(target@) == query_login(all),
                    forall|j: int| 0 <= j < k ==> (#[trigger] all[j]).0 != "code"@,
                decreases pairs@.len() - k,
            {
                assert(all[k as int] == (pairs@[k as int].0@, pairs@[k as int].1@));
                if same(pairs[k].0.as_str(), "code") {
                    proof {
                        lemma_code(all, k as int);
                    }
                    return LoginReply::Code(pairs[k].1.clone());
                }
                k += 1;
            }
            LoginReply::NoAuthCode
        },
        None => LoginReply::NoQuery,
    }
}

/// What a request line leads to: a line that is none is ignored.
pub fn begin_oauth_login_flow(line: &str) -> (r: LoginReply)
    ensures
        r@ == (match pattern::regex_captures(HTTP_PATTERN@, line@, 2) {
            Some(target) => target_login(target),
            None => Login::Ignore,
        }),
        (forall|m: int, a: int, b: int, c: int| !#[trigger]
            pattern::request_parts(line@, m, a, b, c)) ==> r@ == Login::Ignore,
        forall|a: int, b: int| #[trigger]
            pattern::target_at(line@, a, b) ==> r@ == target_login(line@.subrange(a, b)),
{
    match capture(HTTP_PATTERN, line, 2) {
        Some(target) => {
            proof {
                let (a, b) = choose|a: int, b: int|
                    #[trigger] pattern::target_at(line@, a, b) && target@ == line@.subrange(a, b);
                let (m, c) = choose|m: int, c: int| #[trigger]
                    pattern::request_parts(line@, m, a, b, c);
                assert forall|a2: int, b2: int| #[trigger]
                    pattern::target_at(line@, a2, b2) implies a2 == a && b2 == b by {
                    let (m2, c2) = choose|m2: int, c2: int| #[trigger]
                        pattern::request_parts(line@, m2, a2, b2, c2);
                    assert(pattern::request_parts(line@, m2, a2, b2, c2));
                    assert(pattern::request_parts(line@, m, a, b, c));
                }
            }
            login_target(target.as_str())
        },
        None => {
            proof {
                assert forall|a: int, b: int| !#[trigger] pattern::target_at(line@, a, b) by {
                    if pattern::target_at(line@, a, b) {
                        let (m, c) = choose|m: int, c: int| #[trigger]
                            pattern::request_parts(line@, m, a, b, c);
                        assert(pattern::request_parts(line@, m, a, b, c));
                    }
                }
            }
            LoginReply::Ignore
        },
    }
}

/// The search path names no directory twice.
pub proof fn search_path_has_no_repeats(list: Seq<Seq<char>>)
    ensures
        first_ones(list).no_duplicates(),
        forall|d: Seq<char>| #[trigger] first_ones(list).contains(d) <==> list.contains(d),
    decreases list.len(),
{
    if list.len() > 0 {
        let rest = list.drop_last();
        let before = first_ones(rest);
        search_path_has_no_repeats(rest);
        assert forall|d: Seq<char>| #[trigger] first_ones(list).contains(d) <==> list.contains(d) by {
            if list.contains(d) {
                let k = choose|k: int| 0 <= k < list.len() && list[k] == d;
                if k < list.len() - 1 {
                    assert(rest[k] == d);
                    assert(rest.contains(d));
                    assert(before.contains(d));
                    let j = choose|j: int| 0 <= j < before.len() && before[j] == d;
                    assert(first_ones(list)[j] == d);
                } else if !before.contains(d) {
                    assert(first_ones(list)[before.len() as int] == d);
                }
            }
            if first_ones(list).contains(d) {
                let j = choose|j: int| 0 <= j < first_ones(list).len() && first_ones(list)[j] == d;
                if j < before.len() {
                    assert(before.contains(d));
                    assert(rest.contains(d));
                    let k = choose|k: int| 0 <= k < rest.len() && rest[k] == d;
                    assert(list[k] == d);
                } else {
                    assert(list[list.len() - 1] == d);
                }
            }
        }
    }
}

/// The code that the browser comes back with is the one that is read. It holds none of the
/// characters that queries are made of.
pub proof fn code_is_read(code: Seq<char>)
    requires
        !code.contains('&'),
        !code.contains('='),
        code.len() > 0 ==> !text::is_white_space(code.last()),
    ensures
        target_login("/auth?code="@ + code) == Login::Code(code),
{
    reveal_strlit("/auth?code=");
    reveal_strlit("/auth");
    reveal_strlit("code");
    let target = "/auth?code="@ + code;
    assert(target.subrange(0, 5) =~= "/auth"@);
    assert(text::char_first(target, '?', 5));
    text::lemma_find_char(target, '?', 5);
    let query = target.skip(6);
    let name = "code"@;
    assert(query =~= name + seq!['='] + code);
    assert(text::trimmed(query) == query);
    assert(!query.contains('&')) by {
        if query.contains('&') {
            let k = choose|k: int| 0 <= k < query.len() && query[k] == '&';
            assert(k >= 5);
            assert(code[k - 5] == '&');
        }
    }
    text::lemma_split_none(query, '&');
    text::lemma_split_at(name, code, '=');
    text::lemma_split_none(name, '=');
    text::lemma_split_none(code, '=');
    let parts = text::split(query, '&').map_values(|p: Seq<char>| text::split(p, '='));
    assert(parts =~= seq![seq![name, code]]) by {
        assert(seq![name] + seq![code] =~= seq![name, code]);
    }
    let keep = |kv: Seq<Seq<char>>| kv.len() >= 2;
    assert(parts.filter(keep) =~= parts) by {
        reveal_with_fuel(Seq::filter, 2);
        assert(parts.drop_last() =~= Seq::empty());
    }
    assert(query_pairs(query) =~= seq![(name, code)]);
    lemma_code(query_pairs(query), 0);
}

/// Whether a directory belongs into the search path: one of the base path that is not empty and
/// not of the application's own image, or one that applications of the host are found in.
pub open spec fn belongs(
    appdir: Seq<char>,
    base: Option<Seq<char>>,
    home: Option<Seq<char>>,
    d: Seq<char>,
) -> bool {
    ||| base is Some && text::split(base.unwrap(), ':').contains(d) && d.len() > 0 && !(appdir.len()
        > 0 && appdir.is_prefix_of(d))
    ||| home is Some && d == home.unwrap() + "/.local/share/flatpak/exports/share"@
    ||| d == "/var/lib/flatpak/exports/share"@
    ||| d == "/usr/local/share"@
    ||| d == "/usr/share"@
}

/// The search path is a list, with colons between, of exactly the directories that belong into
/// it, each once. The base is the path that was saved, unless that is empty, and else the
/// current one.
pub proof fn search_path_holds_what_belongs(
    appdir: Seq<char>,
    saved: Option<Seq<char>>,
    current: Option<Seq<char>>,
    home: Option<Seq<char>>,
)
    ensures
        ({
            let base = if saved is Some && saved.unwrap().len() > 0 {
                saved
            } else {
                current
            };
            exists|list: Seq<Seq<char>>|
                {
                    &&& data_dirs(appdir, saved, current, home) == #[trigger] text::join(list, ":"@)
                    &&& list.no_duplicates()
                    &&& forall|d: Seq<char>| #[trigger]
                        list.contains(d) <==> belongs(appdir, base, home, d)
                    &&& list.last() == "/usr/share"@ || belongs_to_base(appdir, base, "/usr/share"@)
                }
        }),
{
    let base = if saved is Some && saved.unwrap().len() > 0 {
        saved
    } else {
        current
    };
    let host = host_dirs(appdir, saved, current);
    let exports = export_dirs(home);
    let all = host + exports;
    let list = first_ones(all);
    search_path_has_no_repeats(all);
    let keep = |d: Seq<char>| stays(d, appdir);
    assert forall|d: Seq<char>| #[trigger] list.contains(d) <==> belongs(appdir, base, home, d) by {
        assert(list.contains(d) <==> all.contains(d));
        lemma_in_host(appdir, base, host, d);
        lemma_in_exports(home, d);
        if all.contains(d) {
            let k = choose|k: int| 0 <= k < all.len() && all[k] == d;
            if k < host.len() {
                assert(host[k] == d);
            } else {
                assert(exports[k - host.len()] == d);
            }
        }
        if host.contains(d) {
            let k = choose|k: int| 0 <= k < host.len() && host[k] == d;
            assert(all[k] == d);
        }
        if exports.contains(d) {
            let k = choose|k: int| 0 <= k < exports.len() && exports[k] == d;
            assert(all[k + host.len()] == d);
        }
    }
    let last = "/usr/share"@;
    assert(all.last() == last);
    if !belongs_to_base(appdir, base, last) {
        lemma_in_host(appdir, base, host, last);
        lemma_last_stays(home, host);
    }
    assert(data_dirs(appdir, saved, current, home) == text::join(list, ":"@));
}

/// Whether a directory comes from the base path.
pub open spec fn belongs_to_base(appdir: Seq<char>, base: Option<Seq<char>>, d: Seq<char>) -> bool {
    base is Some && text::split(base.unwrap(), ':').contains(d) && d.len() > 0 && !(appdir.len() > 0
        && appdir.is_prefix_of(d))
}

proof fn lemma_in_host(
    appdir: Seq<char>,
    base: Option<Seq<char>>,
    host: Seq<Seq<char>>,
    d: Seq<char>,
)
    requires
        host == (match base {
            Some(b) => text::split(b, ':').filter(|d: Seq<char>| stays(d, appdir)),
            None => Seq::empty(),
        }),
    ensures
        host.contains(d) <==> belongs_to_base(appdir, base, d),
{
    if base is Some {
        let all = text::split(base.unwrap(), ':');
        let keep = |d: Seq<char>| stays(d, appdir);
        if all.contains(d) && keep(d) {
            let i = choose|i: int| 0 <= i < all.len() && all[i] == d;
            all.lemma_filter_contains(keep, i);
        }
        if host.contains(d) {
            all.lemma_filter_contains_rev(keep, d);
            let k = choose|k: int| 0 <= k < host.len() && host[k] == d;
            all.lemma_filter_pred(keep, k);
        }
    }
}

proof fn lemma_in_exports(home: Option<Seq<char>>, d: Seq<char>)
    ensures
        export_dirs(home).contains(d) <==> (home is Some && d == home.unwrap()
            + "/.local/share/flatpak/exports/share"@) || d == "/var/lib/flatpak/exports/share"@ || d
            == "/usr/local/share"@ || d == "/usr/share"@,
{
    let e = export_dirs(home);
    let n = e.len() as int;
    assert(e[n - 3] == "/var/lib/flatpak/exports/share"@);
    assert(e[n - 2] == "/usr/local/share"@);
    assert(e[n - 1] == "/usr/share"@);
    if home is Some {
        assert(e[0] == home.unwrap() + "/.local/share/flatpak/exports/share"@);
    }
}

proof fn lemma_last_stays(home: Option<Seq<char>>, host: Seq<Seq<char>>)
    requires
        !host.contains("/usr/share"@),
    ensures
        first_ones(host + export_dirs(home)).last() == "/usr/share"@,
{
    let exports = export_dirs(home);
    let all = host + exports;
    let last = "/usr/share"@;
    let rest = all.drop_last();
    search_path_has_no_repeats(rest);
    reveal_strlit("/usr/share");
    reveal_strlit("/usr/local/share");
    reveal_strlit("/var/lib/flatpak/exports/share");
    reveal_strlit("/.local/share/flatpak/exports/share");
    if rest.contains(last) {
        let k = choose|k: int| 0 <= k < rest.len() && rest[k] == last;
        if k < host.len() {
            assert(host[k] == last);
        } else {
            assert(rest[k] == exports[k - host.len()]);
            assert(exports[k - host.len()].len() > last.len());
        }
    }
}

/// Directories keep their order: what stood first stays first, and what follows later is put
/// behind it.
pub proof fn search_path_keeps_its_order(a: Seq<Seq<char>>, b: Seq<Seq<char>>)
    ensures
        first_ones(a).len() <= first_ones(a + b).len(),
        first_ones(a + b).take(first_ones(a).len() as int) == first_ones(a),
        a.len() > 0 ==> first_ones(a).len() > 0 && first_ones(a)[0] == a[0],
    decreases a.len() + b.len(),
{
    if b.len() > 0 {
        search_path_keeps_its_order(a, b.drop_last());
        assert((a + b).drop_last() =~= a + b.drop_last());
        let n = first_ones(a).len() as int;
        assert(first_ones(a + b).take(n) =~= first_ones(a + b.drop_last()).take(n));
    } else {
        assert(a + b =~= a);
        assert(first_ones(a).take(first_ones(a).len() as int) =~= first_ones(a));
        if a.len() > 1 {
            search_path_keeps_its_order(a.drop_last(), b);
        } else if a.len() == 1 {
            assert(a.drop_last() =~= Seq::empty());
            assert(first_ones(a.drop_last()) =~= Seq::empty());
        }
    }
}

/// Of several codes the first counts, whatever stands before and after it; a query without one
/// fails.
pub proof fn first_code_counts(
    before: Seq<(Seq<char>, Seq<char>)>,
    code: Seq<char>,
    after: Seq<(Seq<char>, Seq<char>)>,
)
    requires
        forall|i: int| 0 <= i < before.len() ==> (#[trigger] before[i]).0 != "code"@,
    ensures
        query_login(before.push(("code"@, code)) + after) == Login::Code(code),
        query_login(before) == Login::NoAuthCode,
{
    let all = before.push(("code"@, code)) + after;
    let n = before.len() as int;
    assert(all[n] == ("code"@, code));
    assert forall|j: int| 0 <= j < n implies (#[trigger] all[j]).0 != "code"@ by {
        assert(all[j] == before[j]);
    }
    assert(is_code(all, n));
    lemma_code(all, n);
    assert forall|i: int| !is_code(before, i) by {
        if is_code(before, i) {
            assert(before[i].0 != "code"@);
        }
    }
}

/// Only a request for `/auth` counts. What stands behind its first question mark, without the
/// white space around it, is the query; without a question mark the sign-in fails.
pub proof fn only_auth_requests_count(target: Seq<char>, rest: Seq<char>, query: Seq<char>)
    requires
        !rest.contains('?'),
    ensures
        !"/auth"@.is_prefix_of(target) ==> target_login(target) == Login::Ignore,
        target_login("/auth"@ + rest) == Login::NoQuery,
        target_login("/auth"@ + rest + seq!['?'] + query) == query_login(
            query_pairs(text::trimmed(query)),
        ),
{
    reveal_strlit("/auth");
    let head = "/auth"@ + rest;
    assert(!head.contains('?')) by {
        if head.contains('?') {
            let k = choose|k: int| 0 <= k < head.len() && head[k] == '?';
            if k >= 5 {
                assert(rest[k - 5] == '?');
            }
        }
    }
    assert(head.subrange(0, 5) =~= "/auth"@);
    let full = head + seq!['?'] + query;
    assert(full.subrange(0, 5) =~= "/auth"@);
    text::first_place_is_found(head, '?', query);
    assert(full.skip(head.len() as int + 1) =~= query);
}

/// The variables through which the application's image replaces the libraries, modules and
/// themes of the host are all among those that the browser must not see.
pub proof fn browser_sees_no_image_variable()
    ensures
        image_variables().len() == 10,
        image_variables().contains("GTK_PATH"@),
        image_variables().contains("GDK_PIXBUF_MODULE_FILE"@),
        image_variables().contains("GTK_IM_MODULE_FILE"@),
        image_variables().contains("GI_TYPELIB_PATH"@),
        image_variables().contains("GSETTINGS_SCHEMA_DIR"@),
        image_variables().contains("GTK_EXE_PREFIX"@),
        image_variables().contains("GTK_DATA_PREFIX"@),
        image_variables().contains("GTK_THEME"@),
        image_variables().contains("GDK_BACKEND"@),
        image_variables().contains("LD_LIBRARY_PATH"@),
{
    let all = image_variables();
    assert forall|i: int| 0 <= i < all.len() implies all.contains(#[trigger] all[i]) by {}
    assert(all[0] == "GTK_PATH"@ && all[1] == "GDK_PIXBUF_MODULE_FILE"@ && all[2]
        == "GTK_IM_MODULE_FILE"@);
    assert(all[3] == "GI_TYPELIB_PATH"@ && all[4] == "GSETTINGS_SCHEMA_DIR"@ && all[5]
        == "GTK_EXE_PREFIX"@);
    assert(all[6] == "GTK_DATA_PREFIX"@ && all[7] == "GTK_THEME"@ && all[8] == "GDK_BACKEND"@
        && all[9] == "LD_LIBRARY_PATH"@);
}

/// The directories of the host come first, in the order in which its search path lists them;
/// an empty one and one of the application's image are left out. The directories for the
/// applications of the host follow, the one of the user before those of the system.
pub proof fn host_directories_come_first(
    appdir: Seq<char>,
    a: Seq<char>,
    b: Seq<char>,
    dir: Seq<char>,
    home: Seq<char>,
)
    requires
        !dir.contains(':'),
    ensures
        host_dirs(appdir, None, Some(a + seq![':'] + b)) == host_dirs(appdir, None, Some(a))
            + host_dirs(appdir, None, Some(b)),
        host_dirs(appdir, None, Some(dir)) == (if dir.len() == 0 || (appdir.len() > 0
            && appdir.is_prefix_of(dir)) {
            Seq::empty()
        } else {
            seq![dir]
        }),
        text::join(first_ones(host_dirs(appdir, None, Some(a))), ":"@).is_prefix_of(
            data_dirs(appdir, None, Some(a), Some(home)),
        ),
        data_dirs(appdir, None, None, Some(home)) == home
            + "/.local/share/flatpak/exports/share"@ + ":"@ + "/var/lib/flatpak/exports/share"@
            + ":"@ + "/usr/local/share"@ + ":"@ + "/usr/share"@,
        data_dirs(appdir, None, None, None) == "/var/lib/flatpak/exports/share"@ + ":"@
            + "/usr/local/share"@ + ":"@ + "/usr/share"@,
{
    let keep = |d: Seq<char>| stays(d, appdir);
    text::separator_parts_pieces(a, ':', b, ':', ':');
    Seq::filter_distributes_over_add(text::split(a, ':'), text::split(b, ':'), keep);
    text::text_without_separators_is_one_piece(dir, ':', ':');
    assert(host_dirs(appdir, None, Some(dir)) =~= (if stays(dir, appdir) {
        seq![dir]
    } else {
        Seq::empty()
    })) by {
        reveal(Seq::filter);
        let one = seq![dir];
        assert(one.drop_last() =~= Seq::empty());
        assert(one.drop_last().filter(keep) =~= Seq::empty());
        assert(one.last() == dir);
        assert(one.filter(keep) =~= (if keep(dir) {
            Seq::empty().push(dir)
        } else {
            Seq::empty()
        }));
    }
    let host = host_dirs(appdir, None, Some(a));
    let all = host + export_dirs(Some(home));
    search_path_keeps_its_order(host, export_dirs(Some(home)));
    lemma_join_begins_with(first_ones(all), first_ones(host).len() as int);
    reveal_strlit("/.local/share/flatpak/exports/share");
    reveal_strlit("/var/lib/flatpak/exports/share");
    reveal_strlit("/usr/local/share");
    reveal_strlit("/usr/share");
    let own = home + "/.local/share/flatpak/exports/share"@;
    let x = "/var/lib/flatpak/exports/share"@;
    let y = "/usr/local/share"@;
    let z = "/usr/share"@;
    assert(own.len() > x.len() > y.len() > z.len());
    lemma_four(own, x, y, z);
    lemma_three(x, y, z);
    assert(host_dirs(appdir, None, None) + export_dirs(Some(home)) =~= seq![own, x, y, z]);
    assert(host_dirs(appdir, None, None) + export_dirs(None) =~= seq![x, y, z]);
}

proof fn lemma_three(x: Seq<char>, y: Seq<char>, z: Seq<char>)
    requires
        x.len() > y.len() > z.len(),
    ensures
        first_ones(seq![x, y, z]) == seq![x, y, z],
        text::join(seq![x, y, z], ":"@) == x + ":"@ + y + ":"@ + z,
{
    let three = seq![x, y, z];
    assert(three.drop_last() =~= seq![x, y]);
    assert(seq![x, y].drop_last() =~= seq![x]);
    assert(seq![x].drop_last() =~= Seq::empty());
    reveal_with_fuel(first_ones, 4);
    reveal_with_fuel(text::join, 4);
    assert(Seq::<Seq<char>>::empty().push(x) =~= seq![x]);
    assert(seq![x].push(y) =~= seq![x, y]);
    assert(seq![x, y].push(z) =~= three);
}

proof fn lemma_four(w: Seq<char>, x: Seq<char>, y: Seq<char>, z: Seq<char>)
    requires
        w.len() > x.len() > y.len() > z.len(),
    ensures
        first_ones(seq![w, x, y, z]) == seq![w, x, y, z],
        text::join(seq![w, x, y, z], ":"@) == w + ":"@ + x + ":"@ + y + ":"@ + z,
{
    let four = seq![w, x, y, z];
    lemma_three(w, x, y);
    assert(four.drop_last() =~= seq![w, x, y]);
    assert(seq![w, x, y].push(z) =~= four);
}

proof fn lemma_join_begins_with(list: Seq<Seq<char>>, n: int)
    requires
        0 <= n <= list.len(),
    ensures
        text::join(list.take(n), ":"@).is_prefix_of(text::join(list, ":"@)),
    decreases list.len(),
{
    let whole = text::join(list, ":"@);
    if n == list.len() {
        assert(list.take(n) =~= list);
        assert(whole.subrange(0, whole.len() as int) =~= whole);
    } else if n == 0 {
        assert(list.take(0) =~= Seq::empty());
        let none = text::join(list.take(0), ":"@);
        assert(none.len() == 0);
        assert(whole.subrange(0, 0) =~= none);
    } else {
        let rest = list.drop_last();
        lemma_join_begins_with(rest, n);
        assert(rest.take(n) =~= list.take(n));
        let part = text::join(list.take(n), ":"@);
        assert(whole =~= text::join(rest, ":"@) + ":"@ + list.last());
        assert(whole.subrange(0, part.len() as int) =~= part);
    }
}

} // verus!
