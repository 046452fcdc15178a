//! File system paths as text. Unless a function takes a style, `/` stands between the
//! components.

use vstd::prelude::*;
use crate::text::{
    self, cat, cat3, chars_of, join_texts, same, split_text, split_text_either, string_range,
};

verus! {

/// Whether a path starts at the root.
pub open spec fn is_absolute(p: Seq<char>) -> bool {
    p.len() > 0 && p[0] == '/'
}

/// The path `rel` as seen from the directory `base`: an absolute `rel` stands for itself.
pub open spec fn path_join(base: Seq<char>, rel: Seq<char>) -> Seq<char> {
    if is_absolute(rel) {
        rel
    } else if base.len() == 0 || base.last() == '/' {
        base + rel
    } else {
        base.push('/') + rel
    }
}

/// The path `rel` as seen from the directory `base`.
pub fn join_path(base: &str, rel: &str) -> (r: String)
    ensures
        r@ == path_join(base@, rel@),
{
    let b = chars_of(base);
    let c = chars_of(rel);
    if c.len() > 0 && c[0] == '/' {
        rel.to_owned()
    } else if b.len() == 0 || b[b.len() - 1] == '/' {
        cat(base, rel)
    } else {
        let mut out = base.to_owned();
        out.push('/');
        out.append(rel);
        out
    }
}

/// How a system writes its paths.
#[derive(Clone, Copy, PartialEq, Eq, Structural, Debug)]
pub enum PathStyle {
    /// With `/` between the components.
    Unix,
    /// With `/` or `\` between the components, possibly below a prefix: a drive such as
    /// `C:`, a share such as `\\server\share`, a device such as `\\.\COM1`, or a verbatim
    /// prefix such as `\\?\C:`, below which only `\` parts components.
    Windows,
}

/// What a path begins with before its root.
#[derive(Clone, Copy, PartialEq, Eq, Structural, Debug)]
pub enum PrefixKind {
    Absent,
    /// A letter and a colon.
    Drive,
    /// A share of a server, or a device.
    Named,
    /// Anything after `\\?\`.
    Verbatim,
}

/// Whether a character parts components.
pub open spec fn is_separator(style: PathStyle, c: char) -> bool {
    c == '/' || (style == PathStyle::Windows && c == '\\')
}

/// Whether a character parts the components of a path whose prefix is verbatim, or is not.
pub open spec fn splits(style: PathStyle, verbatim: bool, c: char) -> bool {
    if verbatim {
        c == '\\'
    } else {
        is_separator(style, c)
    }
}

/// Where the piece that begins at `from` ends: at the next separator or with the path.
pub open spec fn piece_end(p: Seq<char>, from: int, verbatim: bool) -> int
    decreases p.len() - from,
{
    if from >= p.len() {
        p.len() as int
    } else if splits(PathStyle::Windows, verbatim, p[from]) {
        from
    } else {
        piece_end(p, from + 1, verbatim)
    }
}

/// Where a server and its share end, of which the server begins at `from`. A share without
/// a name does not count.
pub open spec fn share_end(p: Seq<char>, from: int, verbatim: bool) -> int {
    let server = piece_end(p, from, verbatim);
    if server < p.len() && piece_end(p, server + 1, verbatim) > server + 1 {
        piece_end(p, server + 1, verbatim)
    } else {
        server
    }
}

/// Whether a drive stands at a place.
pub open spec fn drive_at(p: Seq<char>, at: int) -> bool {
    at + 2 <= p.len() && p[at + 1] == ':' && (0x41 <= p[at] as u32 <= 0x5a || 0x61 <= p[at] as u32
        <= 0x7a)
}

/// Whether a path begins with two separators, a mark and a third separator.
pub open spec fn marked(p: Seq<char>, mark: char) -> bool {
    p.len() >= 4 && is_separator(PathStyle::Windows, p[0]) && is_separator(PathStyle::Windows, p[1])
        && p[2] == mark && is_separator(PathStyle::Windows, p[3])
}

/// Whether a path begins with `\\?\`, written with `\` alone.
pub open spec fn begins_verbatim(p: Seq<char>) -> bool {
    marked(p, '?') && p[0] == '\\' && p[1] == '\\' && p[3] == '\\'
}

/// Whether the word `UNC` and a separator stand behind `\\?\`, before a server.
pub open spec fn names_server(p: Seq<char>) -> bool {
    p.len() >= 8 && p[4] == 'U' && p[5] == 'N' && p[6] == 'C' && is_separator(
        PathStyle::Windows,
        p[7],
    )
}

/// What a path begins with, and the length of that.
pub open spec fn prefix(style: PathStyle, p: Seq<char>) -> (PrefixKind, int) {
    if style == PathStyle::Unix {
        (PrefixKind::Absent, 0)
    } else if begins_verbatim(p) {
        if names_server(p) {
            (PrefixKind::Verbatim, share_end(p, 8, true))
        } else if drive_at(p, 4) && (p.len() == 6 || is_separator(style, p[6])) {
            (PrefixKind::Verbatim, 6)
        } else {
            (PrefixKind::Verbatim, piece_end(p, 4, true))
        }
    } else if marked(p, '.') {
        (PrefixKind::Named, piece_end(p, 4, false))
    } else if p.len() >= 2 && is_separator(style, p[0]) && is_separator(style, p[1]) {
        if piece_end(p, 2, false) > 2 && share_end(p, 2, false) > piece_end(p, 2, false) {
            (PrefixKind::Named, share_end(p, 2, false))
        } else {
            (PrefixKind::Absent, 0)
        }
    } else if drive_at(p, 0) {
        (PrefixKind::Drive, 2)
    } else {
        (PrefixKind::Absent, 0)
    }
}

/// Whether a path has a verbatim prefix.
pub open spec fn is_verbatim(style: PathStyle, p: Seq<char>) -> bool {
    prefix(style, p).0 == PrefixKind::Verbatim
}

/// Whether a separator follows the prefix of a path.
pub open spec fn is_rooted(style: PathStyle, p: Seq<char>) -> bool {
    prefix(style, p).1 < p.len() && is_separator(style, p[prefix(style, p).1])
}

/// Whether `.` follows a drive, as in `C:.\game.exe`: it belongs to the drive then.
pub open spec fn has_drive_dot(style: PathStyle, p: Seq<char>) -> bool {
    prefix(style, p).0 == PrefixKind::Drive && p.len() > 2 && p[2] == '.' && (p.len() == 3
        || is_separator(style, p[3]))
}

/// Where the components of a path begin: after the prefix and the root.
pub open spec fn body_start(style: PathStyle, p: Seq<char>) -> int {
    if is_rooted(style, p) || has_drive_dot(style, p) {
        prefix(style, p).1 + 1
    } else {
        prefix(style, p).1
    }
}

/// Whether the characters from `b` up to `e` are a component of the path: a run between
/// separators, where `.` counts only at the very beginning and below a verbatim prefix.
pub open spec fn is_part(style: PathStyle, p: Seq<char>, b: int, e: int) -> bool {
    let verbatim = is_verbatim(style, p);
    &&& body_start(style, p) <= b < e <= p.len()
    &&& forall|k: int| b <= k < e ==> !splits(style, verbatim, #[trigger] p[k])
    &&& b == body_start(style, p) || splits(style, verbatim, p[b - 1])
    &&& e == p.len() || splits(style, verbatim, p[e])
    &&& !(b > 0 && !verbatim && e == b + 1 && p[b] == '.')
}

/// Whether the component from `b` up to `e` is the last one of those that end at `limit` or
/// before.
pub open spec fn is_last_part(style: PathStyle, p: Seq<char>, limit: int, b: int, e: int) -> bool {
    &&& is_part(style, p, b, e)
    &&& e <= limit
    &&& forall|b2: int, e2: int| #[trigger] is_part(style, p, b2, e2) && e2 <= limit ==> b2 <= b
}

/// Where the last component that ends at `limit` or before begins and ends.
pub open spec fn last_part(style: PathStyle, p: Seq<char>, limit: int) -> Option<(int, int)> {
    if exists|b: int, e: int| is_last_part(style, p, limit, b, e) {
        Some(choose|b: int, e: int| is_last_part(style, p, limit, b, e))
    } else {
        None
    }
}

/// The name that a path ends with, unless that is `.` or `..`, a root or a prefix.
pub open spec fn file_name_in(style: PathStyle, p: Seq<char>) -> Option<Seq<char>> {
    match last_part(style, p, p.len() as int) {
        Some((b, e)) => {
            let name = p.subrange(b, e);
            if name == seq!['.'] || name == seq!['.', '.'] {
                None
            } else {
                Some(name)
            }
        },
        None => None,
    }
}

/// The path without its last component. A root, a prefix and the empty path have none.
pub open spec fn parent_in(style: PathStyle, p: Seq<char>) -> Option<Seq<char>> {
    match last_part(style, p, p.len() as int) {
        Some((b, e)) => Some(
            match last_part(style, p, b) {
                Some((b2, e2)) => p.take(e2),
                None => p.take(body_start(style, p)),
            },
        ),
        None => None,
    }
}

/// The path with `/` without its last component.
pub open spec fn parent(p: Seq<char>) -> Option<Seq<char>> {
    parent_in(PathStyle::Unix, p)
}

proof fn lemma_last_part(style: PathStyle, p: Seq<char>, limit: int, b: int, e: int)
    requires
        is_last_part(style, p, limit, b, e),
    ensures
        last_part(style, p, limit) == Some((b, e)),
{
    let verbatim = is_verbatim(style, p);
    let (b2, e2) = choose|b2: int, e2: int| is_last_part(style, p, limit, b2, e2);
    assert(is_last_part(style, p, limit, b2, e2));
    assert(is_part(style, p, b2, e2) && is_part(style, p, b, e));
    assert(b == b2);
    if e < e2 {
        assert(splits(style, verbatim, p[e]));
    } else if e2 < e {
        assert(splits(style, verbatim, p[e2]));
    }
}

fn separates(style: PathStyle, c: char) -> (r: bool)
    ensures
        r == is_separator(style, c),
{
    c == '/' || (style == PathStyle::Windows && c == '\\')
}

fn splits_at(style: PathStyle, verbatim: bool, c: char) -> (r: bool)
    ensures
        r == splits(style, verbatim, c),
{
    if verbatim {
        c == '\\'
    } else {
        separates(style, c)
    }
}

fn find_piece_end(v: &[char], from: usize, verbatim: bool) -> (r: usize)
    requires
        from <= v@.len(),
    ensures
        r == piece_end(v@, from as int, verbatim),
        from <= r <= v@.len(),
{
    let mut i: usize = from;
    while i < v.len() && !splits_at(PathStyle::Windows, verbatim, v[i])
        invariant
            from <= i <= v@.len(),
            piece_end(v@, from as int, verbatim) == piece_end(v@, i as int, verbatim),
        decreases v@.len() - i,
    {
        i += 1;
    }
    i
}

fn find_share_end(v: &[char], from: usize, verbatim: bool) -> (r: usize)
    requires
        from <= v@.len(),
    ensures
        r == share_end(v@, from as int, verbatim),
        piece_end(v@, from as int, verbatim) <= r <= v@.len(),
{
    let server = find_piece_end(v, from, verbatim);
    if server < v.len() {
        let share = find_piece_end(v, server + 1, verbatim);
        if share > server + 1 {
            return share;
        }
    }
    server
}

fn has_drive_at(v: &[char], at: usize) -> (r: bool)
    requires
        at <= v@.len(),
    ensures
        r == drive_at(v@, at as int),
{
    if v.len() - at >= 2 && v[at + 1] == ':' {
        let u: u32 = v[at] as u32;
        (0x41 <= u && u <= 0x5a) || (0x61 <= u && u <= 0x7a)
    } else {
        false
    }
}

fn is_marked(v: &[char], mark: char) -> (r: bool)
    ensures
        r == marked(v@, mark),
{
    v.len() >= 4 && separates(PathStyle::Windows, v[0]) && separates(PathStyle::Windows, v[1])
        && v[2] == mark && separates(PathStyle::Windows, v[3])
}

/// What a path begins with, and the length of that.
fn find_prefix(style: PathStyle, v: &[char]) -> (r: (PrefixKind, usize))
    ensures
        r.0 == prefix(style, v@).0,
        r.1 == prefix(style, v@).1,
        r.1 <= v@.len(),
        r.0 == PrefixKind::Drive ==> r.1 == 2,
        r.0 == PrefixKind::Absent ==> r.1 == 0,
{
    if style == PathStyle::Unix {
        return (PrefixKind::Absent, 0);
    }
    if is_marked(v, '?') && v[0] == '\\' && v[1] == '\\' && v[3] == '\\' {
        if v.len() >= 8 && v[4] == 'U' && v[5] == 'N' && v[6] == 'C' && separates(style, v[7]) {
            (PrefixKind::Verbatim, find_share_end(v, 8, true))
        } else if has_drive_at(v, 4) && (v.len() == 6 || separates(style, v[6])) {
            (PrefixKind::Verbatim, 6)
        } else {
            (PrefixKind::Verbatim, find_piece_end(v, 4, true))
        }
    } else if is_marked(v, '.') {
        (PrefixKind::Named, find_piece_end(v, 4, false))
    } else if v.len() >= 2 && separates(style, v[0]) && separates(style, v[1]) {
        let server = find_piece_end(v, 2, false);
        let share = find_share_end(v, 2, false);
        if server > 2 && share > server {
            (PrefixKind::Named, share)
        } else {
            (PrefixKind::Absent, 0)
        }
    } else if has_drive_at(v, 0) {
        (PrefixKind::Drive, 2)
    } else {
        (PrefixKind::Absent, 0)
    }
}

/// Where the components of a path begin, and whether its prefix is verbatim.
fn find_body(style: PathStyle, v: &[char]) -> (r: (usize, bool))
    ensures
        r.0 == body_start(style, v@),
        r.1 == is_verbatim(style, v@),
        r.0 <= v@.len(),
{
    let (kind, n) = find_prefix(style, v);
    let rooted = n < v.len() && separates(style, v[n]);
    let dot = kind == PrefixKind::Drive && v.len() > 2 && v[2] == '.' && (v.len() == 3
        || separates(style, v[3]));
    let start: usize = if rooted || dot {
        n + 1
    } else {
        n
    };
    (start, kind == PrefixKind::Verbatim)
}

/// Where the last component that ends at `limit` or before begins and ends. The limit is the
/// end of the path or the beginning of a component.
fn find_last_part(style: PathStyle, v: &[char], limit: usize) -> (r: Option<(usize, usize)>)
    requires
        limit <= v@.len(),
        limit == v@.len() || limit == body_start(style, v@) || splits(
            style,
            is_verbatim(style, v@),
            v@[limit - 1],
        ),
    ensures
        match r {
            Some((b, e)) => b < e <= limit && is_part(style, v@, b as int, e as int) && last_part(
                style,
                v@,
                limit as int,
            ) == Some((b as int, e as int)),
            None => last_part(style, v@, limit as int) is None,
        },
{
    let ghost p = v@;
    let (start, verbatim) = find_body(style, v);
    let mut e: usize = limit;
    while e > start
        invariant
            e <= limit <= v@.len(),
            p == v@,
            start == body_start(style, p),
            verbatim == is_verbatim(style, p),
            e == v@.len() || splits(style, verbatim, p[e as int]) || e <= start || splits(
                style,
                verbatim,
                p[e - 1],
            ),
            forall|b2: int, e2: int| #[trigger]
                is_part(style, p, b2, e2) && e2 <= limit ==> e2 <= e,
        decreases e,
    {
        if splits_at(style, verbatim, v[e - 1]) {
            assert forall|b2: int, e2: int| #[trigger]
                is_part(style, p, b2, e2) && e2 <= limit implies e2 <= e - 1 by {
                if e2 == e {
                    assert(splits(style, verbatim, p[e - 1]));
                }
            }
            e -= 1;
        } else {
            let mut b: usize = e - 1;
            while b > start && !splits_at(style, verbatim, v[b - 1])
                invariant
                    start <= b < e <= limit <= v@.len(),
                    p == v@,
                    forall|k: int| b <= k < e ==> !splits(style, verbatim, #[trigger] p[k]),
                decreases b,
            {
                b -= 1;
            }
            if b > 0 && !verbatim && e - b == 1 && v[b] == '.' {
                assert forall|b2: int, e2: int| #[trigger]
                    is_part(style, p, b2, e2) && e2 <= limit implies e2 <= b - 1 by {
                    if e2 > b {
                        assert(e2 == e) by {
                            if e2 < e {
                                assert(splits(style, verbatim, p[e2]));
                            }
                        }
                        assert(b2 <= b);
                        if b2 < b {
                            assert(splits(style, verbatim, p[b - 1]));
                        }
                    } else if e2 == b {
                        assert(splits(style, verbatim, p[e2 - 1]));
                    }
                }
                e = b - 1;
            } else {
                proof {
                    assert(is_part(style, p, b as int, e as int));
                    assert forall|b2: int, e2: int| #[trigger]
                        is_part(style, p, b2, e2) && e2 <= limit implies b2 <= b by {}
                    lemma_last_part(style, p, limit as int, b as int, e as int);
                }
                return Some((b, e));
            }
        }
    }
    assert forall|b2: int, e2: int| !is_last_part(style, p, limit as int, b2, e2) by {
        if is_last_part(style, p, limit as int, b2, e2) {
            assert(is_part(style, p, b2, e2));
        }
    }
    None
}

/// The name that a path ends with.
pub fn styled_file_name(style: PathStyle, path: &str) -> (r: Option<String>)
    ensures
        text::opt_string(r) == file_name_in(style, path@),
{
    let v = chars_of(path);
    match find_last_part(style, v.as_slice(), v.len()) {
        Some((b, e)) => {
            let dot = e - b == 1 && v[b] == '.';
            let dots = e - b == 2 && v[b] == '.' && v[b + 1] == '.';
            let ghost name = v@.subrange(b as int, e as int);
            assert(name[0] == v@[b as int]);
            assert(e - b == 2 ==> name[1] == v@[b + 1]);
            assert(dot == (name =~= seq!['.']));
            assert(dots == (name =~= seq!['.', '.']));
            if dot || dots {
                None
            } else {
                Some(string_range(v.as_slice(), b, e))
            }
        },
        None => None,
    }
}

/// The path without its last component.
pub fn styled_parent(style: PathStyle, path: &str) -> (r: Option<String>)
    ensures
        text::opt_string(r) == parent_in(style, path@),
{
    let v = chars_of(path);
    match find_last_part(style, v.as_slice(), v.len()) {
        Some((b, e)) => {
            let end: usize = match find_last_part(style, v.as_slice(), b) {
                Some((b2, e2)) => e2,
                None => find_body(style, v.as_slice()).0,
            };
            assert(v@.subrange(0, end as int) =~= v@.take(end as int));
            Some(string_range(v.as_slice(), 0, end))
        },
        None => None,
    }
}

/// The path with `/` without its last component.
pub fn parent_of(path: &str) -> (r: Option<String>)
    ensures
        text::opt_string(r) == parent(path@),
{
    styled_parent(PathStyle::Unix, path)
}

/// Whether a piece between separators stays in the list of components: `.` does where `dots`
/// says so.
pub open spec fn stays(s: Seq<char>, dots: bool) -> bool {
    s.len() > 0 && (dots || s != seq!['.'])
}

/// The components of a path with a verbatim prefix, without the prefix and the root.
pub open spec fn verbatim_names(p: Seq<char>) -> Seq<Seq<char>> {
    text::split(p.skip(body_start(PathStyle::Windows, p)), '\\').filter(
        |s: Seq<char>| stays(s, true),
    )
}

/// The components of a path without a prefix on Windows, without the root and without `.`.
pub open spec fn plain_names(p: Seq<char>) -> Seq<Seq<char>> {
    text::split_either(p, '/', '\\').filter(|s: Seq<char>| stays(s, false))
}

/// Where steps lead from a directory: `..` takes the last name away, unless that is `.` or
/// `..` or there is none, and any other step adds itself.
pub open spec fn walk(names: Seq<Seq<char>>, steps: Seq<Seq<char>>) -> Seq<Seq<char>>
    decreases steps.len(),
{
    if steps.len() == 0 {
        names
    } else {
        let before = walk(names, steps.drop_last());
        if steps.last() != seq!['.', '.'] {
            before.push(steps.last())
        } else if before.len() > 0 && before.last() != seq!['.'] && before.last() != seq!['.', '.'] {
            before.drop_last()
        } else {
            before
        }
    }
}

/// The path `rel`, which has no prefix, as seen from a directory with a verbatim prefix. Below
/// such a prefix the system does not follow `..`, so it is followed here.
pub open spec fn verbatim_join(base: Seq<char>, rel: Seq<char>) -> Seq<char> {
    let anew = is_rooted(PathStyle::Windows, rel);
    let names = walk(
        if anew {
            Seq::empty()
        } else {
            verbatim_names(base)
        },
        plain_names(rel),
    );
    base.take(prefix(PathStyle::Windows, base).1) + (if anew || is_rooted(PathStyle::Windows, base)
        || names.len() > 0 {
        "\\"@
    } else {
        ""@
    }) + text::join(names, "\\"@)
}

/// The path `rel` as seen from the directory `base`. A `rel` with a prefix stands for itself,
/// and one with a root alone keeps the prefix of `base`.
pub open spec fn join_in(style: PathStyle, base: Seq<char>, rel: Seq<char>) -> Seq<char> {
    if style == PathStyle::Unix {
        path_join(base, rel)
    } else if prefix(style, rel).0 != PrefixKind::Absent {
        rel
    } else if is_verbatim(style, base) && rel.len() > 0 {
        verbatim_join(base, rel)
    } else if is_rooted(style, rel) {
        base.take(prefix(style, base).1) + rel
    } else if base.len() == 0 || is_separator(style, base.last()) || prefix(style, base) == (
        PrefixKind::Drive,
        base.len() as int,
    ) {
        base + rel
    } else {
        base.push('\\') + rel
    }
}

/// The pieces that stay in the list of components.
fn staying(pieces: &Vec<String>, dots: bool) -> (r: Vec<String>)
    ensures
        text::views(r@) == text::views(pieces@).filter(|s: Seq<char>| stays(s, dots)),
{
    let ghost all = text::views(pieces@);
    let ghost keep = |s: Seq<char>| stays(s, dots);
    let mut out: Vec<String> = Vec::new();
    let mut i: usize = 0;
    assert(all.take(0) =~= Seq::empty());
    assert(text::views(out@) =~= all.take(0).filter(keep)) by {
        reveal(Seq::filter);
    }
    while i < pieces.len()
        invariant
            i <= pieces@.len(),
            all == text::views(pieces@),
            keep == (|s: Seq<char>| stays(s, dots)),
            text::views(out@) == all.take(i as int).filter(keep),
        decreases pieces@.len() - i,
    {
        let ghost before = text::views(out@);
        let c = chars_of(pieces[i].as_str());
        assert(c@ == all[i as int]);
        let dot = c.len() == 1 && c[0] == '.';
        assert(dot == (c@ =~= seq!['.']));
        assert(all.take(i + 1).drop_last() =~= all.take(i as int));
        reveal(Seq::filter);
        if c.len() > 0 && (dots || !dot) {
            out.push(pieces[i].clone());
            assert(text::views(out@) =~= before.push(c@));
        }
        i += 1;
    }
    assert(all.take(all.len() as int) =~= all);
    out
}

/// Whether a component is `.` or `..`, with `dots` for the number of dots.
fn is_dots(s: &str, dots: usize) -> (r: bool)
    requires
        dots == 1 || dots == 2,
    ensures
        r == (s@ == (if dots == 1 {
            seq!['.']
        } else {
            seq!['.', '.']
        })),
{
    let c = chars_of(s);
    let r = c.len() == dots && c[0] == '.' && c[dots - 1] == '.';
    assert(dots == 1 ==> r == (c@ =~= seq!['.']));
    assert(dots == 2 ==> r == (c@ =~= seq!['.', '.']));
    r
}

/// Where steps lead from a directory.
fn walked(names: Vec<String>, steps: &Vec<String>) -> (r: Vec<String>)
    ensures
        text::views(r@) == walk(text::views(names@), text::views(steps@)),
{
    let ghost from = text::views(names@);
    let ghost all = text::views(steps@);
    let mut out = names;
    let mut i: usize = 0;
    while i < steps.len()
        invariant
            i <= steps@.len(),
            all == text::views(steps@),
            text::views(out@) == walk(from, all.take(i as int)),
        decreases steps@.len() - i,
    {
        let ghost before = text::views(out@);
        let step = steps[i].as_str();
        assert(step@ == all[i as int]);
        assert(all.take(i + 1).drop_last() =~= all.take(i as int));
        if !is_dots(step, 2) {
            out.push(steps[i].clone());
            assert(text::views(out@) =~= before.push(step@));
        } else if out.len() > 0 {
            let last: usize = out.len() - 1;
            assert(out@[last as int]@ == before.last());
            if !is_dots(out[last].as_str(), 1) && !is_dots(out[last].as_str(), 2) {
                out.pop();
                assert(text::views(out@) =~= before.drop_last());
            }
        }
        i += 1;
    }
    assert(all.take(all.len() as int) =~= all);
    out
}

fn join_verbatim(base: &str, rel: &str) -> (r: String)
    ensures
        r@ == verbatim_join(base@, rel@),
{
    let b = chars_of(base);
    let c = chars_of(rel);
    let (_, n) = find_prefix(PathStyle::Windows, b.as_slice());
    let (start, _) = find_body(PathStyle::Windows, b.as_slice());
    let (_, m) = find_prefix(PathStyle::Windows, c.as_slice());
    let rooted = n < b.len() && separates(PathStyle::Windows, b[n]);
    let anew = m < c.len() && separates(PathStyle::Windows, c[m]);
    let names = if anew {
        Vec::new()
    } else {
        let body = string_range(b.as_slice(), start, b.len());
        assert(body@ =~= base@.skip(start as int));
        staying(&split_text(body.as_str(), '\\'), true)
    };
    assert(anew ==> text::views(names@) =~= Seq::empty());
    let steps = staying(&split_text_either(rel, '/', '\\'), false);
    let names = walked(names, &steps);
    let head = string_range(b.as_slice(), 0, n);
    assert(head@ =~= base@.take(n as int));
    assert(text::views(names@).len() == names@.len());
    let gap = if anew || rooted || names.len() > 0 {
        "\\"
    } else {
        ""
    };
    let tail = join_texts(&names, "\\");
    cat3(head.as_str(), gap, tail.as_str())
}

/// The path `rel` as seen from the directory `base`.
pub fn styled_join(style: PathStyle, base: &str, rel: &str) -> (r: String)
    ensures
        r@ == join_in(style, base@, rel@),
{
    if style == PathStyle::Unix {
        return join_path(base, rel);
    }
    let b = chars_of(base);
    let c = chars_of(rel);
    let (base_kind, n) = find_prefix(style, b.as_slice());
    let (rel_kind, m) = find_prefix(style, c.as_slice());
    if rel_kind != PrefixKind::Absent {
        rel.to_owned()
    } else if base_kind == PrefixKind::Verbatim && c.len() > 0 {
        join_verbatim(base, rel)
    } else if m < c.len() && separates(style, c[m]) {
        let head = string_range(b.as_slice(), 0, n);
        assert(head@ =~= base@.take(n as int));
        cat(head.as_str(), rel)
    } else if b.len() == 0 || separates(style, b[b.len() - 1]) || (base_kind == PrefixKind::Drive
        && b.len() == n) {
        cat(base, rel)
    } else {
        let mut out = base.to_owned();
        out.push('\\');
        out.append(rel);
        out
    }
}

/// The components of a path, without the root.
pub open spec fn names(p: Seq<char>) -> Seq<Seq<char>> {
    let pieces = text::split(p, '/');
    (if pieces[0].len() > 0 {
        seq![pieces[0]]
    } else {
        Seq::empty()
    }) + pieces.skip(1).filter(|s: Seq<char>| stays(s, false))
}

/// Whether two texts stand for the same path: both absolute or both relative, and the
/// same components.
pub open spec fn same_path(p: Seq<char>, q: Seq<char>) -> bool {
    is_absolute(p) == is_absolute(q) && names(p) == names(q)
}

/// The components of a path, without the root.
pub(crate) fn names_of(path: &str) -> (r: Vec<String>)
    ensures
        text::views(r@) == names(path@),
{
    let mut pieces = split_text(path, '/');
    let ghost all = text::views(pieces@);
    let first = pieces.remove(0);
    assert(text::views(pieces@) =~= all.skip(1));
    let mut out: Vec<String> = Vec::new();
    if !first.as_str().is_empty() {
        out.push(first);
    }
    let ghost head = text::views(out@);
    assert(head =~= if all[0].len() > 0 {
        seq![all[0]]
    } else {
        Seq::empty()
    });
    let mut rest = staying(&pieces, false);
    let ghost tail = text::views(rest@);
    out.append(&mut rest);
    assert(text::views(out@) =~= head + tail);
    out
}

/// Whether two lists hold the same texts in the same order.
pub(crate) fn same_list(a: &Vec<String>, b: &Vec<String>) -> (r: bool)
    ensures
        r == (text::views(a@) == text::views(b@)),
{
    if a.len() != b.len() {
        assert(text::views(a@).len() != text::views(b@).len());
        return false;
    }
    let mut i: usize = 0;
    while i < a.len()
        invariant
            i <= a@.len() == b@.len(),
            forall|j: int| 0 <= j < i ==> text::views(a@)[j] == text::views(b@)[j],
        decreases a@.len() - i,
    {
        if !same(a[i].as_str(), b[i].as_str()) {
            assert(text::views(a@)[i as int] != text::views(b@)[i as int]);
            return false;
        }
        i += 1;
    }
    assert(text::views(a@) =~= text::views(b@));
    true
}

/// Whether two texts stand for the same path.
pub fn paths_equal(p: &str, q: &str) -> (r: bool)
    ensures
        r == same_path(p@, q@),
{
    let a = chars_of(p);
    let b = chars_of(q);
    let rooted_a = a.len() > 0 && a[0] == '/';
    let rooted_b = b.len() > 0 && b[0] == '/';
    rooted_a == rooted_b && same_list(&names_of(p), &names_of(q))
}

/// A path that starts at the root stands for itself. Any other is put below the directory: the
/// result begins with the directory and ends with the path, and between them stands one slash,
/// unless the directory is empty or ends with one.
pub proof fn path_is_put_below_the_directory(base: Seq<char>, rel: Seq<char>)
    ensures
        rel.len() > 0 && rel[0] == '/' ==> path_join(base, rel) == rel,
        !(rel.len() > 0 && rel[0] == '/') ==> {
            let r = path_join(base, rel);
            let gap: int = if base.len() > 0 && base.last() != '/' {
                1
            } else {
                0
            };
            &&& r.len() == base.len() + gap + rel.len()
            &&& r.take(base.len() as int) == base
            &&& r.skip(base.len() + gap) == rel
            &&& gap == 1 ==> r[base.len() as int] == '/'
        },
{
    if !(rel.len() > 0 && rel[0] == '/') {
        let r = path_join(base, rel);
        let gap: int = if base.len() > 0 && base.last() != '/' {
            1
        } else {
            0
        };
        assert(r.take(base.len() as int) =~= base);
        assert(r.skip(base.len() + gap) =~= rel);
    }
}

/// Whether a text is the name of a file or a directory: not empty, without separators, and
/// neither `.` nor `..`.
pub open spec fn is_plain_name(style: PathStyle, name: Seq<char>) -> bool {
    &&& name.len() > 0
    &&& forall|i: int| 0 <= i < name.len() ==> !is_separator(style, #[trigger] name[i])
    &&& name != seq!['.']
    &&& name != seq!['.', '.']
}

/// Whether a path ends with a separator, or with `.` as a component of its own.
pub open spec fn ends_loosely(style: PathStyle, p: Seq<char>) -> bool {
    ||| p.len() == 0
    ||| is_separator(style, p.last())
    ||| p.last() == '.' && p.len() > 1 && is_separator(style, p[p.len() - 2])
}

proof fn lemma_run_start(style: PathStyle, verbatim: bool, p: Seq<char>, start: int, end: int) -> (b:
    int)
    requires
        0 <= start < end <= p.len(),
        !splits(style, verbatim, p[end - 1]),
    ensures
        start <= b < end,
        forall|k: int| b <= k < end ==> !splits(style, verbatim, #[trigger] p[k]),
        b == start || splits(style, verbatim, p[b - 1]),
    decreases end,
{
    if end - 1 == start || splits(style, verbatim, p[end - 2]) {
        end - 1
    } else {
        lemma_run_start(style, verbatim, p, start, end - 1)
    }
}

proof fn lemma_child(style: PathStyle, dir: Seq<char>, sep: char, name: Seq<char>)
    requires
        is_separator(style, sep),
        is_plain_name(style, name) || name == seq!['.', '.'],
        !ends_loosely(style, dir),
        prefix(style, dir + seq![sep] + name) == (PrefixKind::Absent, 0int) || prefix(
            style,
            dir + seq![sep] + name,
        ) == (PrefixKind::Drive, 2int),
        0 <= body_start(style, dir + seq![sep] + name) < dir.len(),
    ensures
        parent_in(style, dir + seq![sep] + name) == Some(dir),
        name != seq!['.', '.'] ==> file_name_in(style, dir + seq![sep] + name) == Some(name),
        name == seq!['.', '.'] ==> file_name_in(style, dir + seq![sep] + name) is None,
{
    let p = dir + seq![sep] + name;
    let n = dir.len() as int;
    let len = p.len() as int;
    lemma_child_name(style, dir, sep, name);
    let start = body_start(style, p);
    assert(p[n - 1] == dir.last());
    let b = lemma_run_start(style, false, p, start, n);
    if b > 0 && n == b + 1 && p[b] == '.' {
        assert(dir.last() == '.');
        assert(p[b - 1] == dir[n - 2]);
        assert(p[n] == sep);
    }
    assert(p[n] == sep);
    assert(is_part(style, p, b, n));
    assert forall|b2: int, e2: int| #[trigger] is_part(style, p, b2, e2) && e2 <= n + 1 implies b2
        <= b by {
        if e2 == n + 1 {
            assert(splits(style, false, p[n]));
        }
    }
    lemma_last_part(style, p, n + 1, b, n);
    assert(p.take(n) =~= dir);
}

proof fn lemma_child_name(style: PathStyle, dir: Seq<char>, sep: char, name: Seq<char>)
    requires
        is_separator(style, sep),
        is_plain_name(style, name) || name == seq!['.', '.'],
        prefix(style, dir + seq![sep] + name).0 != PrefixKind::Verbatim,
        0 <= body_start(style, dir + seq![sep] + name) <= dir.len() + 1,
    ensures
        last_part(
            style,
            dir + seq![sep] + name,
            (dir + seq![sep] + name).len() as int,
        ) == Some((dir.len() as int + 1, (dir + seq![sep] + name).len() as int)),
        name != seq!['.', '.'] ==> file_name_in(style, dir + seq![sep] + name) == Some(name),
        name == seq!['.', '.'] ==> file_name_in(style, dir + seq![sep] + name) is None,
{
    let p = dir + seq![sep] + name;
    let n = dir.len() as int;
    let len = p.len() as int;
    assert(p[n] == sep);
    assert(p.subrange(n + 1, len) =~= name);
    assert forall|k: int| n + 1 <= k < len implies !splits(style, false, #[trigger] p[k]) by {
        assert(p[k] == name[k - n - 1]);
    }
    if len == n + 2 && p[n + 1] == '.' {
        assert(name =~= seq!['.']);
    }
    assert(is_part(style, p, n + 1, len));
    assert forall|b2: int, e2: int| #[trigger] is_part(style, p, b2, e2) && e2 <= len implies b2 <= n
        + 1 by {
        if b2 > n + 1 {
            assert(splits(style, false, p[b2 - 1]));
        }
    }
    lemma_last_part(style, p, len, n + 1, len);
}

/// A file in a directory has that directory for its parent and its own name for its name.
pub proof fn parent_of_a_child_is_the_directory(dir: Seq<char>, name: Seq<char>)
    requires
        is_plain_name(PathStyle::Unix, name),
        !ends_loosely(PathStyle::Unix, dir),
    ensures
        parent(dir + seq!['/'] + name) == Some(dir),
        file_name_in(PathStyle::Unix, dir + seq!['/'] + name) == Some(name),
        parent(path_join(dir, name)) == Some(dir),
{
    let p = dir + seq!['/'] + name;
    assert(p[0] == dir[0]);
    assert(dir.len() == 1 ==> dir.last() == dir[0]);
    lemma_child(PathStyle::Unix, dir, '/', name);
    assert(name[0] != '/') by {
        assert(!is_separator(PathStyle::Unix, name[0]));
    }
    assert(dir.push('/') + name =~= p);
}

/// A file at the root has the root for its parent, and a bare name the empty path. The root and
/// the empty path have neither parent nor name.
pub proof fn parents_end_at_the_root(name: Seq<char>)
    requires
        is_plain_name(PathStyle::Unix, name),
    ensures
        parent(seq!['/'] + name) == Some(seq!['/']),
        file_name_in(PathStyle::Unix, seq!['/'] + name) == Some(name),
        parent(name) == Some(Seq::<char>::empty()),
        file_name_in(PathStyle::Unix, name) == Some(name),
        parent(seq!['/']) is None,
        parent(Seq::empty()) is None,
{
    let style = PathStyle::Unix;
    let p = seq!['/'] + name;
    let none = Seq::<char>::empty();
    assert(none + seq!['/'] + name =~= p);
    lemma_child_name(style, none, '/', name);
    assert(p[0] == '/');
    assert(last_part(style, p, 1) is None) by {
        assert forall|b: int, e: int| !is_last_part(style, p, 1, b, e) by {}
    }
    assert(p.take(1) =~= seq!['/']);
    let len = name.len() as int;
    assert(!is_separator(style, name[0]));
    assert(is_part(style, name, 0, len));
    assert forall|b2: int, e2: int| #[trigger] is_part(style, name, b2, e2) && e2 <= len implies b2
        <= 0 by {
        if b2 > 0 {
            assert(splits(style, false, name[b2 - 1]));
        }
    }
    lemma_last_part(style, name, len, 0, len);
    assert(name.subrange(0, len) =~= name);
    assert(last_part(style, name, 0) is None) by {
        assert forall|b: int, e: int| !is_last_part(style, name, 0, b, e) by {}
    }
    assert(name.take(0) =~= none);
    assert forall|b: int, e: int| !is_last_part(style, seq!['/'], 1, b, e) by {}
    assert forall|b: int, e: int| !is_last_part(style, none, 0, b, e) by {}
}

/// On Windows, a file in a directory of a drive has that directory for its parent, whichever
/// separator stands between them, and one at the root of a drive has that root.
pub proof fn parent_on_a_drive(letter: char, body: Seq<char>, sep: char, name: Seq<char>)
    requires
        0x41 <= letter as u32 <= 0x5a || 0x61 <= letter as u32 <= 0x7a,
        sep == '\\' || sep == '/',
        is_plain_name(PathStyle::Windows, name),
    ensures
        ({
            let root = seq![letter, ':', sep];
            &&& parent_in(PathStyle::Windows, root + name) == Some(root)
            &&& file_name_in(PathStyle::Windows, root + name) == Some(name)
            &&& parent_in(PathStyle::Windows, root) is None
            &&& !ends_loosely(PathStyle::Windows, root + body) && body.len() > 0 ==> parent_in(
                PathStyle::Windows,
                root + body + seq![sep] + name,
            ) == Some(root + body) && file_name_in(
                PathStyle::Windows,
                root + body + seq![sep] + name,
            ) == Some(name)
        }),
{
    let style = PathStyle::Windows;
    let root = seq![letter, ':', sep];
    let p = root + name;
    let drive = seq![letter, ':'];
    assert(p[0] == letter && p[1] == ':' && p[2] == sep);
    assert(prefix(style, p) == (PrefixKind::Drive, 2int));
    assert(drive + seq![sep] + name =~= p);
    lemma_child_name(style, drive, sep, name);
    assert(last_part(style, p, 3) is None) by {
        assert forall|b: int, e: int| !is_last_part(style, p, 3, b, e) by {}
    }
    assert(p.take(3) =~= root);
    assert(root[0] == letter && root[1] == ':' && root[2] == sep);
    assert(prefix(style, root) == (PrefixKind::Drive, 2int));
    assert forall|b: int, e: int| !is_last_part(style, root, 3, b, e) by {}
    if !ends_loosely(style, root + body) && body.len() > 0 {
        let dir = root + body;
        let q = dir + seq![sep] + name;
        assert(q[0] == letter && q[1] == ':' && q[2] == sep);
        assert(prefix(style, q) == (PrefixKind::Drive, 2int));
        lemma_child(style, dir, sep, name);
    }
}

/// Whether a text is a component of a path with `/`: a name, or the step `..`.
pub open spec fn is_component(s: Seq<char>) -> bool {
    is_plain_name(PathStyle::Unix, s) || s == seq!['.', '.']
}

/// The components of a path that was made of names are these names.
pub proof fn names_are_read_back(list: Seq<Seq<char>>)
    requires
        list.len() > 0,
        forall|i: int| 0 <= i < list.len() ==> is_component(#[trigger] list[i]),
    ensures
        names(text::join(list, seq!['/'])) == list,
        !is_absolute(text::join(list, seq!['/'])),
        names(seq!['/'] + text::join(list, seq!['/'])) == list,
{
    lemma_split_join(list);
    let s = text::join(list, seq!['/']);
    let keep = |x: Seq<char>| stays(x, false);
    assert(list[0].len() > 0);
    lemma_all_stay(list.skip(1));
    assert(seq![list[0]] + list.skip(1) =~= list);
    text::separator_parts_pieces(Seq::empty(), '/', s, '/', '/');
    text::text_without_separators_is_one_piece(Seq::empty(), '/', '/');
    assert(Seq::<char>::empty() + seq!['/'] + s =~= seq!['/'] + s);
    let pieces = text::split(seq!['/'] + s, '/');
    assert(pieces =~= seq![Seq::<char>::empty()] + list);
    assert(pieces.skip(1) =~= list);
    lemma_all_stay(list);
    assert(Seq::<Seq<char>>::empty() + list =~= list);
    assert(s[0] == list[0][0]) by {
        lemma_join_begins(list);
    }
    assert(!is_separator(PathStyle::Unix, list[0][0]));
}

proof fn lemma_join_begins(list: Seq<Seq<char>>)
    requires
        list.len() > 0,
        list[0].len() > 0,
    ensures
        text::join(list, seq!['/']).len() > 0,
        text::join(list, seq!['/'])[0] == list[0][0],
    decreases list.len(),
{
    if list.len() > 1 {
        lemma_join_begins(list.drop_last());
    }
}

proof fn lemma_split_join(list: Seq<Seq<char>>)
    requires
        list.len() > 0,
        forall|i: int| 0 <= i < list.len() ==> is_component(#[trigger] list[i]),
    ensures
        text::split(text::join(list, seq!['/']), '/') == list,
    decreases list.len(),
{
    let last = list.last();
    assert(list[list.len() - 1] == last);
    assert(!last.contains('/')) by {
        if last.contains('/') {
            let k = choose|k: int| 0 <= k < last.len() && last[k] == '/';
            assert(!is_separator(PathStyle::Unix, last[k]));
        }
    }
    text::text_without_separators_is_one_piece(last, '/', '/');
    if list.len() == 1 {
        assert(list =~= seq![last]);
    } else {
        let rest = list.drop_last();
        assert forall|i: int| 0 <= i < rest.len() implies is_component(#[trigger] rest[i]) by {
            assert(rest[i] == list[i]);
        }
        lemma_split_join(rest);
        text::separator_parts_pieces(text::join(rest, seq!['/']), '/', last, '/', '/');
        assert(rest + seq![last] =~= list);
    }
}

proof fn lemma_all_stay(list: Seq<Seq<char>>)
    requires
        forall|i: int| 0 <= i < list.len() ==> is_component(#[trigger] list[i]),
    ensures
        list.filter(|s: Seq<char>| stays(s, false)) == list,
    decreases list.len(),
{
    reveal(Seq::filter);
    if list.len() > 0 {
        let rest = list.drop_last();
        assert(is_component(list[list.len() - 1]));
        assert forall|i: int| 0 <= i < rest.len() implies is_component(#[trigger] rest[i]) by {
            assert(rest[i] == list[i]);
        }
        lemma_all_stay(rest);
        assert(rest.push(list.last()) =~= list);
    }
}

/// Between two parts of a path, doubled slashes and `.` do not matter, and neither does a slash
/// at the end.
pub proof fn loose_slashes_do_not_matter(a: Seq<char>, b: Seq<char>)
    requires
        a.len() > 0,
    ensures
        same_path(a + seq!['/', '/'] + b, a + seq!['/'] + b),
        same_path(a + seq!['/', '.', '/'] + b, a + seq!['/'] + b),
        same_path(a + seq!['/'], a),
{
    let none = Seq::<char>::empty();
    let keep = |x: Seq<char>| stays(x, false);
    let pa = text::split(a, '/');
    let pb = text::split(b, '/');
    text::lemma_split_nonempty(a, '/', '/');
    text::separator_parts_pieces(a, '/', b, '/', '/');
    text::separator_parts_pieces(a, '/', seq!['/'] + b, '/', '/');
    text::separator_parts_pieces(none, '/', b, '/', '/');
    text::text_without_separators_is_one_piece(none, '/', '/');
    assert(none + seq!['/'] + b =~= seq!['/'] + b);
    assert(a + seq!['/'] + (seq!['/'] + b) =~= a + seq!['/', '/'] + b);
    let dot = seq!['.'];
    text::separator_parts_pieces(a, '/', dot + seq!['/'] + b, '/', '/');
    text::separator_parts_pieces(dot, '/', b, '/', '/');
    text::text_without_separators_is_one_piece(dot, '/', '/');
    assert(a + seq!['/'] + (dot + seq!['/'] + b) =~= a + seq!['/', '.', '/'] + b);
    text::separator_parts_pieces(a, '/', none, '/', '/');
    assert(a + seq!['/'] + none =~= a + seq!['/']);
    let plain = pa + pb;
    let doubled = pa + (seq![none] + pb);
    let dotted = pa + (seq![dot] + pb);
    let ended = pa + seq![none];
    assert(plain.skip(1) =~= pa.skip(1) + pb);
    assert(doubled.skip(1) =~= pa.skip(1) + (seq![none] + pb));
    assert(dotted.skip(1) =~= pa.skip(1) + (seq![dot] + pb));
    assert(ended.skip(1) =~= pa.skip(1) + seq![none]);
    Seq::filter_distributes_over_add(pa.skip(1), pb, keep);
    Seq::filter_distributes_over_add(pa.skip(1), seq![none] + pb, keep);
    Seq::filter_distributes_over_add(seq![none], pb, keep);
    Seq::filter_distributes_over_add(pa.skip(1), seq![dot] + pb, keep);
    Seq::filter_distributes_over_add(seq![dot], pb, keep);
    Seq::filter_distributes_over_add(pa.skip(1), seq![none], keep);
    assert(seq![none].filter(keep) =~= Seq::empty() && seq![dot].filter(keep) =~= Seq::empty()) by {
        reveal_with_fuel(Seq::filter, 2);
        assert(seq![none].drop_last() =~= Seq::empty());
        assert(seq![dot].drop_last() =~= Seq::empty());
    }
    assert(Seq::<Seq<char>>::empty() + pb.filter(keep) =~= pb.filter(keep));
    assert(pa.skip(1).filter(keep) + Seq::<Seq<char>>::empty() =~= pa.skip(1).filter(keep));
    assert(plain[0] == pa[0] && doubled[0] == pa[0] && dotted[0] == pa[0] && ended[0] == pa[0]);
    assert(names(a + seq!['/', '/'] + b) =~= names(a + seq!['/'] + b));
    assert(names(a + seq!['/', '.', '/'] + b) =~= names(a + seq!['/'] + b));
    assert(names(a + seq!['/']) =~= names(a));
}

/// Below a directory that is not verbatim, a path without a prefix is put as on other systems,
/// but for the root: one that begins with a separator keeps only the prefix of the directory. A
/// path with a drive of its own stands for itself.
pub proof fn path_is_put_below_the_directory_on_windows(base: Seq<char>, rel: Seq<char>)
    requires
        !(base.len() > 1 && is_separator(PathStyle::Windows, base[0]) && is_separator(
            PathStyle::Windows,
            base[1],
        )),
        !(rel.len() > 1 && is_separator(PathStyle::Windows, rel[0]) && is_separator(
            PathStyle::Windows,
            rel[1],
        )),
    ensures
        ({
            let style = PathStyle::Windows;
            let r = join_in(style, base, rel);
            let drive: int = if drive_at(base, 0) {
                2
            } else {
                0
            };
            if drive_at(rel, 0) {
                r == rel
            } else if rel.len() > 0 && is_separator(style, rel[0]) {
                r == base.take(drive) + rel
            } else if base.len() == drive || is_separator(style, base.last()) {
                r == base + rel
            } else {
                r == base + seq!['\\'] + rel
            }
        }),
{
    assert(base.push('\\') + rel =~= base + seq!['\\'] + rel);
}

/// Steps without `..` are added to a directory one by one, and `..` takes back the step before
/// it.
pub proof fn steps_lead_on_and_back(names: Seq<Seq<char>>, steps: Seq<Seq<char>>, name: Seq<char>)
    requires
        forall|i: int| 0 <= i < steps.len() ==> #[trigger] steps[i] != seq!['.', '.'],
        name != seq!['.'],
        name != seq!['.', '.'],
    ensures
        walk(names, steps) == names + steps,
        walk(names, seq![name, seq!['.', '.']]) == names,
        walk(Seq::empty(), seq![seq!['.', '.']]) == Seq::<Seq<char>>::empty(),
    decreases steps.len(),
{
    let up = seq!['.', '.'];
    reveal_with_fuel(walk, 3);
    if steps.len() > 0 {
        let rest = steps.drop_last();
        assert(steps[steps.len() - 1] == steps.last());
        assert forall|i: int| 0 <= i < rest.len() implies #[trigger] rest[i] != up by {
            assert(rest[i] == steps[i]);
        }
        steps_lead_on_and_back(names, rest, name);
        assert((names + rest).push(steps.last()) =~= names + steps);
    } else {
        assert(names + steps =~= names);
    }
    let both = seq![name, up];
    assert(both.drop_last() =~= seq![name]);
    assert(seq![name].drop_last() =~= Seq::empty());
    assert(names.push(name).drop_last() =~= names);
    assert(seq![up].drop_last() =~= Seq::empty());
}

proof fn lemma_piece(p: Seq<char>, from: int, end: int)
    requires
        0 <= from <= end < p.len(),
        is_separator(PathStyle::Windows, p[end]),
        forall|k: int| from <= k < end ==> !is_separator(PathStyle::Windows, #[trigger] p[k]),
    ensures
        piece_end(p, from, false) == end,
    decreases end - from,
{
    if from < end {
        lemma_piece(p, from + 1, end);
    }
}

/// A share of a server is a root of its own: a file in it has the share, with its separator, for
/// its parent, and the share itself has none.
pub proof fn share_is_a_root(server: Seq<char>, share: Seq<char>, name: Seq<char>)
    requires
        is_plain_name(PathStyle::Windows, server),
        server != seq!['?'],
        is_plain_name(PathStyle::Windows, share),
        is_plain_name(PathStyle::Windows, name),
    ensures
        ({
            let root = seq!['\\', '\\'] + server + seq!['\\'] + share + seq!['\\'];
            &&& parent_in(PathStyle::Windows, root + name) == Some(root)
            &&& file_name_in(PathStyle::Windows, root + name) == Some(name)
            &&& parent_in(PathStyle::Windows, root) is None
        }),
{
    let style = PathStyle::Windows;
    let base = seq!['\\', '\\'] + server + seq!['\\'] + share;
    let root = base + seq!['\\'];
    let p = root + name;
    lemma_share(server, share, Seq::empty());
    lemma_share(server, share, name);
    assert(root + Seq::<char>::empty() =~= root);
    let n = base.len() as int;
    assert(base + seq!['\\'] + name =~= p);
    lemma_child_name(style, base, '\\', name);
    let at: int = n + 1;
    assert forall|b: int, e: int| !#[trigger] is_last_part(style, p, at, b, e) by {}
    assert(p.take(at) =~= root);
    assert forall|b: int, e: int| !#[trigger] is_last_part(style, root, at, b, e) by {}
}

proof fn lemma_share(server: Seq<char>, share: Seq<char>, rest: Seq<char>)
    requires
        is_plain_name(PathStyle::Windows, server),
        server != seq!['?'],
        is_plain_name(PathStyle::Windows, share),
    ensures
        ({
            let base = seq!['\\', '\\'] + server + seq!['\\'] + share;
            let p = base + seq!['\\'] + rest;
            &&& prefix(PathStyle::Windows, p) == (PrefixKind::Named, base.len() as int)
            &&& body_start(PathStyle::Windows, p) == base.len() + 1
        }),
{
    let style = PathStyle::Windows;
    let base = seq!['\\', '\\'] + server + seq!['\\'] + share;
    let p = base + seq!['\\'] + rest;
    let s = 2 + server.len() as int;
    let n = base.len() as int;
    assert(p[0] == '\\' && p[1] == '\\' && p[s] == '\\' && p[n] == '\\');
    assert forall|k: int| 2 <= k < s implies !is_separator(style, #[trigger] p[k]) by {
        assert(p[k] == server[k - 2]);
    }
    assert forall|k: int| s + 1 <= k < n implies !is_separator(style, #[trigger] p[k]) by {
        assert(p[k] == share[k - s - 1]);
    }
    lemma_piece(p, 2, s);
    lemma_piece(p, s + 1, n);
    assert(p[2] == server[0]);
    if marked(p, '?') || marked(p, '.') {
        assert(is_separator(style, p[3]));
        assert(s == 3);
        assert(server =~= seq![p[2]]);
    }
}

proof fn lemma_split_join_at(list: Seq<Seq<char>>, c: char)
    requires
        list.len() > 0,
        forall|i: int| 0 <= i < list.len() ==> !(#[trigger] list[i]).contains(c),
    ensures
        text::split(text::join(list, seq![c]), c) == list,
    decreases list.len(),
{
    let last = list.last();
    assert(list[list.len() - 1] == last);
    text::text_without_separators_is_one_piece(last, c, c);
    if list.len() == 1 {
        assert(list =~= seq![last]);
    } else {
        let rest = list.drop_last();
        assert forall|i: int| 0 <= i < rest.len() implies !(#[trigger] rest[i]).contains(c) by {
            assert(rest[i] == list[i]);
        }
        lemma_split_join_at(rest, c);
        text::separator_parts_pieces(text::join(rest, seq![c]), c, last, c, c);
        assert(rest + seq![last] =~= list);
    }
}

proof fn lemma_none_leaves(list: Seq<Seq<char>>, dots: bool)
    requires
        forall|i: int| 0 <= i < list.len() ==> stays(#[trigger] list[i], dots),
    ensures
        list.filter(|s: Seq<char>| stays(s, dots)) == list,
    decreases list.len(),
{
    reveal(Seq::filter);
    if list.len() > 0 {
        let rest = list.drop_last();
        assert(stays(list[list.len() - 1], dots));
        assert forall|i: int| 0 <= i < rest.len() implies stays(#[trigger] rest[i], dots) by {
            assert(rest[i] == list[i]);
        }
        lemma_none_leaves(rest, dots);
        assert(rest.push(list.last()) =~= list);
    }
}

proof fn lemma_no_separator(name: Seq<char>)
    requires
        is_plain_name(PathStyle::Windows, name),
    ensures
        !name.contains('\\'),
        !name.contains('/'),
{
    if name.contains('\\') {
        let k = choose|k: int| 0 <= k < name.len() && name[k] == '\\';
        assert(!is_separator(PathStyle::Windows, name[k]));
    }
    if name.contains('/') {
        let k = choose|k: int| 0 <= k < name.len() && name[k] == '/';
        assert(!is_separator(PathStyle::Windows, name[k]));
    }
}

proof fn lemma_verbatim_drive(letter: char, rest: Seq<char>)
    requires
        'A' <= letter <= 'Z' || 'a' <= letter <= 'z',
    ensures
        ({
            let root = seq!['\\', '\\', '?', '\\', letter, ':', '\\'];
            &&& prefix(PathStyle::Windows, root + rest) == (PrefixKind::Verbatim, 6int)
            &&& body_start(PathStyle::Windows, root + rest) == 7
            &&& (root + rest).skip(7) == rest
            &&& (root + rest).take(6) + seq!['\\'] == root
            &&& is_rooted(PathStyle::Windows, root + rest)
        }),
{
    let root = seq!['\\', '\\', '?', '\\', letter, ':', '\\'];
    let p = root + rest;
    assert(p[0] == '\\' && p[1] == '\\' && p[2] == '?' && p[3] == '\\');
    assert(p[4] == letter && p[5] == ':' && p[6] == '\\');
    assert(p.skip(7) =~= rest);
    assert(p.take(6) + seq!['\\'] =~= root);
}

proof fn lemma_one_step(name: Seq<char>)
    requires
        !name.contains('/'),
        !name.contains('\\'),
    ensures
        plain_names(name) == (if stays(name, false) {
            seq![name]
        } else {
            Seq::empty()
        }),
{
    let keep = |s: Seq<char>| stays(s, false);
    let one = seq![name];
    text::text_without_separators_is_one_piece(name, '/', '\\');
    reveal(Seq::filter);
    assert(one.drop_last() =~= Seq::empty());
    assert(one.drop_last().filter(keep) =~= Seq::empty());
    assert(one.last() == name);
    assert(one.filter(keep) =~= (if keep(name) {
        Seq::empty().push(name)
    } else {
        Seq::empty()
    }));
    assert(Seq::<Seq<char>>::empty().push(name) =~= one);
}

proof fn lemma_step_from_root(name: Seq<char>)
    requires
        !name.contains('/'),
        !name.contains('\\'),
        stays(name, false),
    ensures
        plain_names(seq!['\\'] + name) == seq![name],
{
    let keep = |s: Seq<char>| stays(s, false);
    let none = Seq::<char>::empty();
    lemma_one_step(name);
    lemma_one_step(none);
    text::separator_parts_pieces(none, '\\', name, '/', '\\');
    assert(none + seq!['\\'] + name =~= seq!['\\'] + name);
    Seq::filter_distributes_over_add(
        text::split_either(none, '/', '\\'),
        text::split_either(name, '/', '\\'),
        keep,
    );
    assert(plain_names(seq!['\\'] + name) =~= seq![name]);
}

proof fn lemma_no_prefix(rel: Seq<char>)
    requires
        rel.len() > 0,
        !rel.contains(':'),
        rel.len() > 1 ==> !is_separator(PathStyle::Windows, rel[1]),
    ensures
        prefix(PathStyle::Windows, rel) == (PrefixKind::Absent, 0int),
{
    if rel.len() > 1 {
        assert(rel.contains(rel[1]));
    }
}

proof fn lemma_walk_one(names: Seq<Seq<char>>, step: Seq<char>)
    ensures
        walk(names, Seq::empty()) == names,
        step != seq!['.', '.'] ==> walk(names, seq![step]) == names.push(step),
        step == seq!['.', '.'] && names.len() > 0 && names.last() != seq!['.'] && names.last()
            != seq!['.', '.'] ==> walk(names, seq![step]) == names.drop_last(),
{
    reveal_with_fuel(walk, 2);
    assert(seq![step].drop_last() =~= Seq::empty());
    assert(seq![step].last() == step);
}

proof fn lemma_verbatim_names(letter: char, list: Seq<Seq<char>>)
    requires
        'A' <= letter <= 'Z' || 'a' <= letter <= 'z',
        list.len() > 0,
        forall|i: int| 0 <= i < list.len() ==> is_plain_name(PathStyle::Windows, #[trigger] list[i]),
    ensures
        verbatim_names(
            seq!['\\', '\\', '?', '\\', letter, ':', '\\'] + text::join(list, seq!['\\']),
        ) == list,
{
    lemma_verbatim_drive(letter, text::join(list, seq!['\\']));
    assert forall|i: int| 0 <= i < list.len() implies !(#[trigger] list[i]).contains('\\') && stays(
        list[i],
        true,
    ) by {
        lemma_no_separator(list[i]);
    }
    lemma_split_join_at(list, '\\');
    lemma_none_leaves(list, true);
}

/// Below a verbatim drive a name is put behind a backslash, `..` leads back to the directory
/// above, `.` leads nowhere, and a path from the root keeps the drive alone.
pub proof fn paths_below_a_verbatim_drive(letter: char, list: Seq<Seq<char>>, name: Seq<char>)
    requires
        'A' <= letter <= 'Z' || 'a' <= letter <= 'z',
        list.len() > 0,
        forall|i: int| 0 <= i < list.len() ==> is_plain_name(PathStyle::Windows, #[trigger] list[i]),
        is_plain_name(PathStyle::Windows, name),
        !name.contains(':'),
    ensures
        ({
            let root = seq!['\\', '\\', '?', '\\', letter, ':', '\\'];
            let dir = root + text::join(list, seq!['\\']);
            let style = PathStyle::Windows;
            &&& join_in(style, dir, name) == dir + seq!['\\'] + name
            &&& join_in(style, dir, seq!['.', '.']) == root + text::join(
                list.drop_last(),
                seq!['\\'],
            )
            &&& join_in(style, dir, seq!['.']) == dir
            &&& join_in(style, dir, seq!['\\'] + name) == root + name
        }),
{
    let style = PathStyle::Windows;
    let root = seq!['\\', '\\', '?', '\\', letter, ':', '\\'];
    let sep = seq!['\\'];
    let dir = root + text::join(list, sep);
    let up = seq!['.', '.'];
    let dot = seq!['.'];
    let anew = sep + name;
    reveal_strlit("\\");
    assert("\\"@ =~= sep);
    lemma_verbatim_drive(letter, text::join(list, sep));
    lemma_verbatim_names(letter, list);
    lemma_no_separator(name);
    assert(!is_separator(style, name[0]));
    assert(join_in(style, dir, name) == dir + sep + name) by {
        if name.len() > 1 {
            assert(!is_separator(style, name[1]));
        }
        lemma_no_prefix(name);
        lemma_one_step(name);
        lemma_walk_one(list, name);
        assert(list.push(name).drop_last() =~= list);
        assert(dir.take(6) + sep + text::join(list.push(name), sep) =~= dir + sep + name);
    }
    assert(join_in(style, dir, up) == root + text::join(list.drop_last(), sep)) by {
        lemma_no_prefix(up);
        lemma_one_step(up);
        assert(is_plain_name(style, list[list.len() - 1]));
        lemma_walk_one(list, up);
    }
    assert(join_in(style, dir, dot) == dir) by {
        lemma_no_prefix(dot);
        lemma_one_step(dot);
        lemma_walk_one(list, dot);
    }
    assert(join_in(style, dir, anew) == root + name) by {
        assert(anew[0] == '\\' && anew[1] == name[0]);
        assert(!anew.contains(':')) by {
            if anew.contains(':') {
                let k = choose|k: int| 0 <= k < anew.len() && anew[k] == ':';
                assert(name[k - 1] == ':');
            }
        }
        lemma_no_prefix(anew);
        lemma_step_from_root(name);
        lemma_walk_one(Seq::empty(), name);
        let one = Seq::<Seq<char>>::empty().push(name);
        assert(text::join(one, sep) == name);
    }
}

/// A device is a root of its own: a file below it has the device, with its separator, for its
/// parent.
pub proof fn device_is_a_root(device: Seq<char>, name: Seq<char>)
    requires
        is_plain_name(PathStyle::Windows, device),
        is_plain_name(PathStyle::Windows, name),
    ensures
        ({
            let root = seq!['\\', '\\', '.', '\\'] + device + seq!['\\'];
            &&& parent_in(PathStyle::Windows, root + name) == Some(root)
            &&& file_name_in(PathStyle::Windows, root + name) == Some(name)
        }),
{
    let style = PathStyle::Windows;
    let base = seq!['\\', '\\', '.', '\\'] + device;
    let root = base + seq!['\\'];
    let p = root + name;
    let n = base.len() as int;
    assert(p[0] == '\\' && p[1] == '\\' && p[2] == '.' && p[3] == '\\' && p[n] == '\\');
    assert forall|k: int| 4 <= k < n implies !is_separator(style, #[trigger] p[k]) by {
        assert(p[k] == device[k - 4]);
    }
    lemma_piece(p, 4, n);
    assert(base + seq!['\\'] + name =~= p);
    lemma_child_name(style, base, '\\', name);
    let at: int = n + 1;
    assert forall|b: int, e: int| !#[trigger] is_last_part(style, p, at, b, e) by {}
    assert(p.take(at) =~= root);
}

/// A path that ends with the step `..` has no name, and its parent is what stands before the
/// step.
pub proof fn step_up_is_no_name(dir: Seq<char>)
    requires
        !ends_loosely(PathStyle::Unix, dir),
    ensures
        file_name_in(PathStyle::Unix, dir + seq!['/', '.', '.']) is None,
        parent(dir + seq!['/', '.', '.']) == Some(dir),
        file_name_in(PathStyle::Unix, seq!['.', '.']) is None,
        file_name_in(PathStyle::Unix, seq!['.']) is None,
{
    let style = PathStyle::Unix;
    let up = seq!['.', '.'];
    let dot = seq!['.'];
    let p = dir + seq!['/'] + up;
    assert(p =~= dir + seq!['/', '.', '.']);
    assert(p[0] == dir[0]);
    assert(dir.len() == 1 ==> dir.last() == dir[0]);
    lemma_child(style, dir, '/', up);
    assert(is_part(style, up, 0, 2));
    assert forall|b: int, e: int| #[trigger] is_part(style, up, b, e) && e <= 2 implies b <= 0 by {
        if b > 0 {
            assert(splits(style, false, up[b - 1]));
        }
    }
    lemma_last_part(style, up, 2, 0, 2);
    assert(up.subrange(0, 2) =~= up);
    assert(is_part(style, dot, 0, 1));
    lemma_last_part(style, dot, 1, 0, 1);
    assert(dot.subrange(0, 1) =~= dot);
}

proof fn lemma_same_last_part(p: Seq<char>, end: int, q: Seq<char>, other: int)
    requires
        forall|b: int, e: int|
            (#[trigger] is_part(PathStyle::Unix, p, b, e) && e <= end) == (is_part(
                PathStyle::Unix,
                q,
                b,
                e,
            ) && e <= other),
        forall|b: int, e: int|
            (#[trigger] is_part(PathStyle::Unix, q, b, e) && e <= other) == (is_part(
                PathStyle::Unix,
                p,
                b,
                e,
            ) && e <= end),
    ensures
        last_part(PathStyle::Unix, p, end) == last_part(PathStyle::Unix, q, other),
{
    let style = PathStyle::Unix;
    if exists|b: int, e: int| is_last_part(style, p, end, b, e) {
        let (b, e) = choose|b: int, e: int| is_last_part(style, p, end, b, e);
        assert(is_part(style, p, b, e));
        assert(is_last_part(style, q, other, b, e));
        lemma_last_part(style, p, end, b, e);
        lemma_last_part(style, q, other, b, e);
    } else if exists|b: int, e: int| is_last_part(style, q, other, b, e) {
        let (b, e) = choose|b: int, e: int| is_last_part(style, q, other, b, e);
        assert(is_part(style, q, b, e));
        assert(is_last_part(style, p, end, b, e));
    }
}

/// A slash at the end of a path changes neither its parent nor its name.
pub proof fn slash_at_the_end_does_not_matter(p: Seq<char>)
    requires
        p.len() > 0,
    ensures
        parent(p + seq!['/']) == parent(p),
        file_name_in(PathStyle::Unix, p + seq!['/']) == file_name_in(PathStyle::Unix, p),
{
    let style = PathStyle::Unix;
    let q = p + seq!['/'];
    let n = p.len() as int;
    assert(q[0] == p[0]);
    assert(q[n] == '/');
    assert forall|b: int, e: int| #[trigger] is_part(style, p, b, e) implies is_part(style, q, b, e) by {
        assert forall|k: int| b <= k < e implies !splits(style, false, #[trigger] q[k]) by {
            assert(q[k] == p[k]);
        }
    }
    assert forall|b: int, e: int| #[trigger] is_part(style, q, b, e) implies is_part(style, p, b, e) by {
        if e == n + 1 {
            assert(!splits(style, false, q[n]));
        }
        assert forall|k: int| b <= k < e implies !splits(style, false, #[trigger] p[k]) by {
            assert(q[k] == p[k]);
        }
    }
    lemma_same_last_part(p, n, q, n + 1);
    match last_part(style, p, n) {
        Some((b, e)) => {
            let (c, d) = choose|c: int, d: int| is_last_part(style, p, n, c, d);
            assert(is_last_part(style, p, n, c, d));
            assert(is_part(style, p, b, e));
            lemma_same_last_part(p, b, q, b);
            assert(q.subrange(b, e) =~= p.subrange(b, e));
            assert(q.take(body_start(style, q)) =~= p.take(body_start(style, p)));
            match last_part(style, p, b) {
                Some((b2, e2)) => {
                    let (c2, d2) = choose|c: int, d: int| is_last_part(style, p, b, c, d);
                    assert(is_last_part(style, p, b, c2, d2));
                    assert(is_part(style, p, b2, e2));
                    assert(q.take(e2) =~= p.take(e2));
                },
                None => {},
            }
        },
        None => {},
    }
}

proof fn lemma_verbatim_piece(p: Seq<char>, from: int, end: int)
    requires
        0 <= from <= end < p.len(),
        p[end] == '\\',
        forall|k: int| from <= k < end ==> #[trigger] p[k] != '\\',
    ensures
        piece_end(p, from, true) == end,
    decreases end - from,
{
    if from < end {
        lemma_verbatim_piece(p, from + 1, end);
    }
}

proof fn lemma_verbatim_child(base: Seq<char>, name: Seq<char>)
    requires
        prefix(PathStyle::Windows, base + seq!['\\'] + name) == (
            PrefixKind::Verbatim,
            base.len() as int,
        ),
        is_plain_name(PathStyle::Windows, name),
    ensures
        parent_in(PathStyle::Windows, base + seq!['\\'] + name) == Some(base + seq!['\\']),
        file_name_in(PathStyle::Windows, base + seq!['\\'] + name) == Some(name),
{
    let style = PathStyle::Windows;
    let p = base + seq!['\\'] + name;
    let n = base.len() as int;
    let at: int = n + 1;
    let len = p.len() as int;
    assert(p[n] == '\\');
    assert(body_start(style, p) == at);
    assert(p.subrange(at, len) =~= name);
    assert forall|k: int| at <= k < len implies !splits(style, true, #[trigger] p[k]) by {
        assert(p[k] == name[k - at]);
        assert(!is_separator(style, name[k - at]));
    }
    assert(is_part(style, p, at, len));
    assert forall|b: int, e: int| #[trigger] is_part(style, p, b, e) && e <= len implies b <= at by {
        if b > at {
            assert(splits(style, true, p[b - 1]));
        }
    }
    lemma_last_part(style, p, len, at, len);
    assert forall|b: int, e: int| !#[trigger] is_last_part(style, p, at, b, e) by {}
    assert(p.take(at) =~= base + seq!['\\']);
}

/// Below `\\?\` a share is a root as it is without it, and so is any other first piece.
pub proof fn verbatim_share_is_a_root(
    server: Seq<char>,
    share: Seq<char>,
    device: Seq<char>,
    name: Seq<char>,
)
    requires
        is_plain_name(PathStyle::Windows, server),
        is_plain_name(PathStyle::Windows, share),
        is_plain_name(PathStyle::Windows, device),
        !device.contains(':'),
        device != seq!['U', 'N', 'C'],
        is_plain_name(PathStyle::Windows, name),
    ensures
        ({
            let root = seq!['\\', '\\', '?', '\\', 'U', 'N', 'C', '\\'] + server + seq!['\\']
                + share + seq!['\\'];
            &&& parent_in(PathStyle::Windows, root + name) == Some(root)
            &&& file_name_in(PathStyle::Windows, root + name) == Some(name)
        }),
        ({
            let root = seq!['\\', '\\', '?', '\\'] + device + seq!['\\'];
            &&& parent_in(PathStyle::Windows, root + name) == Some(root)
            &&& file_name_in(PathStyle::Windows, root + name) == Some(name)
        }),
{
    let style = PathStyle::Windows;
    let base = seq!['\\', '\\', '?', '\\', 'U', 'N', 'C', '\\'] + server + seq!['\\'] + share;
    let p = base + seq!['\\'] + name;
    let s = 8 + server.len() as int;
    let n = base.len() as int;
    lemma_no_separator(server);
    lemma_no_separator(share);
    lemma_no_separator(device);
    assert(p[0] == '\\' && p[1] == '\\' && p[2] == '?' && p[3] == '\\');
    assert(p[4] == 'U' && p[5] == 'N' && p[6] == 'C' && p[7] == '\\');
    assert(p[s] == '\\' && p[n] == '\\');
    assert forall|k: int| 8 <= k < s implies #[trigger] p[k] != '\\' by {
        assert(p[k] == server[k - 8]);
    }
    assert forall|k: int| s + 1 <= k < n implies #[trigger] p[k] != '\\' by {
        assert(p[k] == share[k - s - 1]);
    }
    lemma_verbatim_piece(p, 8, s);
    lemma_verbatim_piece(p, s + 1, n);
    lemma_verbatim_child(base, name);
    let stem = seq!['\\', '\\', '?', '\\'] + device;
    let q = stem + seq!['\\'] + name;
    let m = stem.len() as int;
    assert(q[0] == '\\' && q[1] == '\\' && q[2] == '?' && q[3] == '\\' && q[m] == '\\');
    assert forall|k: int| 4 <= k < m implies #[trigger] q[k] == device[k - 4] && q[k] != '\\' by {
        assert(device.contains(device[k - 4]));
    }
    if names_server(q) {
        assert(q[4] == device[0]);
        if device.len() == 1 {
            assert(q[5] == '\\');
        } else if device.len() == 2 {
            assert(q[6] == '\\');
        } else if device.len() == 3 {
            assert(q[5] == device[1] && q[6] == device[2]);
            assert(device =~= seq!['U', 'N', 'C']);
        } else {
            assert(q[7] == device[3]);
            assert(!is_separator(style, device[3]));
        }
    }
    if drive_at(q, 4) {
        if device.len() == 1 {
            assert(q[5] == '\\');
        } else {
            assert(q[5] == device[1]);
            assert(device.contains(device[1]));
        }
    }
    lemma_verbatim_piece(q, 4, m);
    lemma_verbatim_child(stem, name);
}

/// A server without the name of a share is no prefix.
pub proof fn server_alone_is_no_prefix(server: Seq<char>, rest: Seq<char>)
    requires
        is_plain_name(PathStyle::Windows, server),
        server != seq!['?'],
    ensures
        prefix(PathStyle::Windows, seq!['\\', '\\'] + server + seq!['\\', '\\'] + rest) == (
            PrefixKind::Absent,
            0int,
        ),
{
    let style = PathStyle::Windows;
    let p = seq!['\\', '\\'] + server + seq!['\\', '\\'] + rest;
    let s = 2 + server.len() as int;
    assert(p[0] == '\\' && p[1] == '\\' && p[s] == '\\' && p[s + 1] == '\\');
    assert forall|k: int| 2 <= k < s implies !is_separator(style, #[trigger] p[k]) by {
        assert(p[k] == server[k - 2]);
    }
    lemma_piece(p, 2, s);
    lemma_piece(p, s + 1, s + 1);
    assert(p[2] == server[0]);
    if marked(p, '?') || marked(p, '.') {
        assert(is_separator(style, p[3]));
        assert(s == 3);
        assert(server =~= seq![p[2]]);
    }
}

} // verus!
