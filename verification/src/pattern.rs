//! The regular expressions of the library and what they match.

use regex::Regex;
use vstd::prelude::*;
use vstd::utf8::*;
use crate::text;
use crate::number;

verus! {

/// A PID line of `wine-helper.exe`; group 1 is the PID.
pub const PID_PATTERN: &'static str = "wine-helper: PID (.*)";

/// The directory name of a GE-Proton 10.x install; group 1 is the minor version. Only the
/// 10.x series is picked automatically: later series merge the 32-bit and 64-bit binaries,
/// which the injector cannot handle.
pub const GE_PROTON_10_PATTERN: &'static str = r"^GE-Proton10-(\d+)$";

/// The archive name of a GE-Proton release.
pub const PROTON_PATTERN: &'static str = r"GE-Proton\d+-\d+\.tar\.gz";

/// The request line of an HTTP request; group 2 is the request target.
pub const HTTP_PATTERN: &'static str = r"^([A-Za-z]+) +(.*) +(HTTP/[0-9][.][0-9])";

/// A library path in a Steam `libraryfolders.vdf`; group 1 is the path.
pub const PATH_PATTERN: &'static str = r#""path"\s+"((?:[^"\\]|\\.)*)""#;

/// The install directory in a Steam app manifest; group 1 is the directory.
pub const INSTALLDIR_PATTERN: &'static str = r#""installdir"\s+"((?:[^"\\]|\\.)*)""#;

/// The beginning of `s` up to its first line feed.
pub open spec fn until_newline(s: Seq<char>) -> Seq<char> {
    match text::find_char(s, '\n') {
        Some(i) => s.take(i),
        None => s,
    }
}

/// What `PID_PATTERN` captures: the rest of the line after the first `wine-helper: PID `.
pub open spec fn pid_field(s: Seq<char>) -> Option<Seq<char>> {
    let mark = "wine-helper: PID "@;
    if text::occurs(s, mark) {
        let i = choose|i: int| text::occurs_first(s, mark, i);
        Some(until_newline(s.skip(i + mark.len())))
    } else {
        None
    }
}

/// Whether every ASCII character of `s` is a digit.
pub open spec fn no_ascii_but_digits(s: Seq<char>) -> bool {
    forall|i: int|
        0 <= i < s.len() && (s[i] as u32) < 0x80 ==> number::is_digit(#[trigger] s[i])
}

/// Whether `s` holds a GE-Proton archive name with ASCII digits, at these positions:
/// `GE-Proton` at `i`, digits up to `j`, a hyphen, digits up to `k`, then `.tar.gz`.
pub open spec fn archive_name_at(s: Seq<char>, i: int, j: int, k: int) -> bool {
    &&& text::occurs_at(s, "GE-Proton"@, i)
    &&& i + 9 < j < k <= s.len()
    &&& number::all_digits(s.subrange(i + 9, j))
    &&& s[j] == '-'
    &&& j + 1 < k
    &&& number::all_digits(s.subrange(j + 1, k))
    &&& text::occurs_at(s, ".tar.gz"@, k)
}

/// Whether `s` holds a GE-Proton archive name with ASCII digits.
pub open spec fn has_archive_name(s: Seq<char>) -> bool {
    exists|i: int, j: int, k: int| #[trigger] archive_name_at(s, i, j, k)
}

/// Whether an HTTP version stands in `s` at `p`.
pub open spec fn version_at(s: Seq<char>, p: int) -> bool {
    &&& text::occurs_at(s, "HTTP/"@, p)
    &&& p + 8 <= s.len()
    &&& number::is_digit(s[p + 5])
    &&& s[p + 6] == '.'
    &&& number::is_digit(s[p + 7])
}

/// Whether a character is an ASCII letter.
pub open spec fn is_letter(c: char) -> bool {
    0x41 <= c as u32 <= 0x5a || 0x61 <= c as u32 <= 0x7a
}

/// Whether `s` begins with a request line in these parts: the method up to `m`, spaces up
/// to `a`, the target up to `b`, spaces up to `c`, and the HTTP version from there.
pub open spec fn request_parts(s: Seq<char>, m: int, a: int, b: int, c: int) -> bool {
    &&& 0 < m < a <= b < c <= s.len()
    &&& forall|i: int| 0 <= i < m ==> is_letter(#[trigger] s[i])
    &&& forall|i: int| m <= i < a ==> #[trigger] s[i] == ' '
    &&& forall|i: int| a <= i < b ==> #[trigger] s[i] != '\n'
    &&& forall|i: int| b <= i < c ==> #[trigger] s[i] == ' '
    &&& version_at(s, c)
}

/// Whether the target of the request line is the characters from `a` up to `b`: of all
/// ways to read the line, the spaces before the target reach furthest, and then the target.
pub open spec fn target_at(s: Seq<char>, a: int, b: int) -> bool {
    &&& exists|m: int, c: int| #[trigger] request_parts(s, m, a, b, c)
    &&& forall|m: int, a2: int, b2: int, c: int| #[trigger]
        request_parts(s, m, a2, b2, c) ==> a2 < a || (a2 == a && b2 <= b)
}

/// Where the first character at or after `i` that is not white space stands.
pub open spec fn skip_white_space(s: Seq<char>, i: int) -> int
    decreases s.len() - i,
{
    if 0 <= i < s.len() && text::is_white_space(s[i]) {
        skip_white_space(s, i + 1)
    } else {
        i
    }
}

/// Where the closing quote of a quoted text stands, read from `i`. A backslash and the
/// character after it, which is no line feed, belong to the text.
pub open spec fn closing_quote(s: Seq<char>, i: int) -> Option<int>
    decreases s.len() - i,
{
    if i < 0 || i >= s.len() {
        None
    } else if s[i] == '"' {
        Some(i)
    } else if s[i] == '\\' {
        if i + 1 < s.len() && s[i + 1] != '\n' {
            closing_quote(s, i + 2)
        } else {
            None
        }
    } else {
        closing_quote(s, i + 1)
    }
}

/// The quoted value of the quoted key at `i`, as the positions where it begins and ends:
/// the key, white space, then the value.
pub open spec fn value_at(s: Seq<char>, key: Seq<char>, i: int) -> Option<(int, int)> {
    let after = i + key.len();
    let open = skip_white_space(s, after);
    if text::occurs_at(s, key, i) && after < open < s.len() && s[open] == '"' {
        match closing_quote(s, open + 1) {
            Some(end) => Some((open + 1, end)),
            None => None,
        }
    } else {
        None
    }
}

/// The values of the quoted key, from `i` on, in order.
pub open spec fn values_from(s: Seq<char>, key: Seq<char>, i: int) -> Seq<Seq<char>>
    decreases s.len() - i,
{
    if i < 0 || i >= s.len() {
        Seq::empty()
    } else {
        match value_at(s, key, i) {
            Some((b, e)) => if i < b <= e < s.len() {
                seq![s.subrange(b, e)] + values_from(s, key, e + 1)
            } else {
                Seq::empty()
            },
            None => values_from(s, key, i + 1),
        }
    }
}

/// The values of the quoted key in `s`, in order.
pub open spec fn quoted_values(s: Seq<char>, key: Seq<char>) -> Seq<Seq<char>> {
    values_from(s, key, 0)
}

/// The first of a list.
pub open spec fn first_of(list: Seq<Seq<char>>) -> Option<Seq<char>> {
    if list.len() > 0 {
        Some(list[0])
    } else {
        None
    }
}

/// The group that `Regex::captures` finds in a text.
pub uninterp spec fn regex_captures(
    pattern: Seq<char>,
    haystack: Seq<char>,
    group: nat,
) -> Option<Seq<char>>;

/// Whether a file name is the one of a GE-Proton archive: it holds such a name with ASCII
/// digits, or with other digits that the pattern accepts.
pub open spec fn is_archive_name(s: Seq<char>) -> bool {
    has_archive_name(s) || (!is_ascii_chars(s) && regex_captures(PROTON_PATTERN@, s, 0) is Some)
}

/// The pairs of pattern and group that `capture` is called with. Each of these patterns
/// compiles, and each of these groups takes part in every match of its pattern.
pub open spec fn known_capture(pattern: Seq<char>, group: nat) -> bool {
    ||| pattern == PID_PATTERN@ && group == 1
    ||| pattern == GE_PROTON_10_PATTERN@ && group == 1
    ||| pattern == PROTON_PATTERN@ && group == 0
    ||| pattern == HTTP_PATTERN@ && group == 2
    ||| pattern == INSTALLDIR_PATTERN@ && group == 1
}

/// Compiles a pattern with `Regex::new`, searches a text with `Regex::captures` and hands
/// out one group of the leftmost match. The result is a function of the arguments alone.
///
/// `\d` matches Unicode's decimal digits: of the two GE-Proton patterns it is said what
/// holds of texts with ASCII digits, and what a match tells of the ASCII characters in it;
/// which other digits there are is left unsaid. The other patterns are stated in full.
#[verifier::external_body]
pub(crate) fn capture(pattern: &str, haystack: &str, group: usize) -> (r: Option<String>)
    requires
        known_capture(pattern@, group as nat),
    ensures
        text::opt_string(r) == regex_captures(pattern@, haystack@, group as nat),
        pattern@ == PID_PATTERN@ ==> text::opt_string(r) == pid_field(haystack@),
        pattern@ == GE_PROTON_10_PATTERN@ ==> match r {
            Some(d) => haystack@ == "GE-Proton10-"@ + d@ && d@.len() > 0 && no_ascii_but_digits(d@),
            None => forall|d: Seq<char>|
                d.len() > 0 && number::all_digits(d) ==> haystack@ != #[trigger] ("GE-Proton10-"@ + d),
        },
        pattern@ == PROTON_PATTERN@ && has_archive_name(haystack@) ==> r is Some,
        pattern@ == PROTON_PATTERN@ && is_ascii_chars(haystack@) && r is Some ==> has_archive_name(
            haystack@,
        ),
        pattern@ == HTTP_PATTERN@ ==> match r {
            Some(t) => exists|a: int, b: int|
                #[trigger] target_at(haystack@, a, b) && t@ == haystack@.subrange(a, b),
            None => forall|m: int, a: int, b: int, c: int|
                !#[trigger] request_parts(haystack@, m, a, b, c),
        },
        pattern@ == INSTALLDIR_PATTERN@ ==> text::opt_string(r) == first_of(
            quoted_values(haystack@, "\"installdir\""@),
        ),
{
    Regex::new(pattern).unwrap().captures(haystack).map(|c| c[group].to_string())
}

/// Compiles a pattern with `Regex::new`, walks the matches that do not overlap with
/// `Regex::captures_iter` and hands out one group of each.
#[verifier::external_body]
pub(crate) fn capture_all(pattern: &str, haystack: &str, group: usize) -> (r: Vec<String>)
    requires
        pattern@ == PATH_PATTERN@,
        group == 1,
    ensures
        text::views(r@) == quoted_values(haystack@, "\"path\""@),
{
    Regex::new(pattern).unwrap().captures_iter(haystack).map(|c| c[group].to_string()).collect()
}

} // verus!
