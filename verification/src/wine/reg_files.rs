//! The registry files of a Wine prefix, `user.reg` and `system.reg`, read without Wine.
//!
//! While no wineserver runs, these files are the registry. Asking Wine for a value costs a
//! round trip through the whole runtime; reading the files costs milliseconds.

use vstd::prelude::*;
use crate::text;
use crate::text::{cat3, chars_of, find_in, lines_of, same, string_range, trim};
use crate::unicode;
use crate::unicode::to_lowercase;

verus! {

/// Whether a line is a section header.
pub open spec fn is_header(line: Seq<char>) -> bool {
    line.len() > 0 && line[0] == '['
}

/// The section that a header names: the text up to the first closing bracket.
pub open spec fn header_name(line: Seq<char>) -> Option<Seq<char>> {
    match text::find_char(line, ']') {
        Some(end) => Some(line.subrange(1, end)),
        None => None,
    }
}

/// The section that line `i` stands in: what the last header before it names.
pub open spec fn section_at(lines: Seq<Seq<char>>, i: int) -> Option<Seq<char>>
    decreases i,
{
    if i <= 0 {
        None
    } else if is_header(lines[i - 1]) {
        header_name(lines[i - 1])
    } else {
        section_at(lines, i - 1)
    }
}

/// The line that gives `name` the value `value`.
pub open spec fn value_line(name: Seq<char>, value: Seq<char>) -> Seq<char> {
    "\""@ + name + "\"=\""@ + value + "\""@
}

/// Whether two texts are the same in lower case.
pub open spec fn same_ignoring_case(a: Seq<char>, b: Seq<char>) -> bool {
    unicode::lower_case(a) == unicode::lower_case(b)
}

/// Whether line `i` gives `name` the value `value` in the section.
pub open spec fn line_has_value(
    lines: Seq<Seq<char>>,
    i: int,
    section: Seq<char>,
    name: Seq<char>,
    value: Seq<char>,
) -> bool {
    &&& 0 <= i < lines.len()
    &&& !is_header(lines[i])
    &&& section_at(lines, i) is Some
    &&& same_ignoring_case(section_at(lines, i)->0, section)
    &&& same_ignoring_case(text::trimmed(lines[i]), value_line(name, value))
}

/// Whether a registry file gives `name` the value `value` in the section.
pub open spec fn file_has_value(
    content: Seq<char>,
    section: Seq<char>,
    name: Seq<char>,
    value: Seq<char>,
) -> bool {
    exists|i: int| #[trigger] line_has_value(text::lines(content), i, section, name, value)
}

/// Whether a registry file gives `name` the value `value` in the section. Headers and
/// lines are compared without regard to case: Wine and the launcher spell the 32-bit
/// branch differently, and both spellings mean one section. A header has to match whole.
pub fn reg_file_section_has_value(content: &str, section: &str, name: &str, value: &str) -> (r:
    bool)
    ensures
        r == file_has_value(content@, section@, name@, value@),
{
    let section_lc = to_lowercase(section);
    let needle = cat3("\"", name, "\"=\"");
    let needle = cat3(needle.as_str(), value, "\"");
    assert(needle@ == value_line(name@, value@));
    let needle_lc = to_lowercase(needle.as_str());
    let lines = lines_of(content);
    let ghost all = text::lines(content@);
    let mut in_section = false;
    let mut i: usize = 0;
    while i < lines.len()
        invariant
            i <= lines@.len(),
            all == text::views(lines@),
            all == text::lines(content@),
            section_lc@ == unicode::lower_case(section@),
            needle_lc@ == unicode::lower_case(value_line(name@, value@)),
            in_section == (section_at(all, i as int) is Some && same_ignoring_case(
                section_at(all, i as int)->0,
                section@,
            )),
            forall|j: int| 0 <= j < i ==> !#[trigger] line_has_value(all, j, section@, name@, value@),
        decreases lines@.len() - i,
    {
        let line = lines[i].as_str();
        assert(line@ == all[i as int]);
        let v = chars_of(line);
        if v.len() > 0 && v[0] == '[' {
            in_section = match find_in(v.as_slice(), ']') {
                Some(end) => {
                    let found = string_range(v.as_slice(), 1, end);
                    let found_lc = to_lowercase(found.as_str());
                    same(found_lc.as_str(), section_lc.as_str())
                },
                None => false,
            };
        } else if in_section {
            let t = trim(line);
            let t_lc = to_lowercase(t.as_str());
            if same(t_lc.as_str(), needle_lc.as_str()) {
                assert(line_has_value(all, i as int, section@, name@, value@));
                return true;
            }
        }
        i += 1;
    }
    false
}

/// A value that a registry file has to hold, in one of several sections.
pub struct FileCheck {
    /// Whether the file is `user.reg`; otherwise it is `system.reg`.
    pub user: bool,
    pub sections: Vec<String>,
    pub name: String,
    pub value: String,
}

/// `FileCheck` with texts in place of strings.
pub ghost struct Check {
    pub user: bool,
    pub sections: Seq<Seq<char>>,
    pub name: Seq<char>,
    pub value: Seq<char>,
}

impl View for FileCheck {
    type V = Check;

    open spec fn view(&self) -> Check {
        Check {
            user: self.user,
            sections: text::views(self.sections@),
            name: self.name@,
            value: self.value@,
        }
    }
}

/// A value that `user.reg` has to hold.
pub open spec fn user_check(section: Seq<char>, name: Seq<char>, value: Seq<char>) -> Check {
    Check { user: true, sections: seq![section], name, value }
}

/// A value that `system.reg` has to hold, in the 32-bit branch or in the plain one.
pub open spec fn system_check(
    first: Seq<char>,
    second: Seq<char>,
    name: Seq<char>,
    value: Seq<char>,
) -> Check {
    Check { user: false, sections: seq![first, second], name, value }
}

/// The four values that the game reads when it checks its entitlement.
pub open spec fn locale_checks() -> Seq<Check> {
    seq![
        user_check("Control Panel\\\\International"@, "Locale"@, "00000409"@),
        user_check("Control Panel\\\\International"@, "LocaleName"@, "en-US"@),
        user_check("Control Panel\\\\International"@, "sLanguage"@, "ENU"@),
        user_check("Software\\\\Valve\\\\Steam"@, "language"@, "english"@),
    ]
}

/// The values that the game needs: the locale, then the environment, then what tells it
/// that its client is installed.
pub open spec fn registry_checks() -> Seq<Check> {
    locale_checks() + seq![
        user_check("Environment"@, "LANG"@, "en_US.UTF-8"@),
        user_check("Environment"@, "LC_ALL"@, "en_US.UTF-8"@),
        Check {
            user: false,
            sections: seq!["Software\\\\Electronic Arts\\\\EA Desktop"@],
            name: "InstallSuccessful"@,
            value: "true"@,
        },
        system_check(
            "Software\\\\Wow6432Node\\\\Origin"@,
            "Software\\\\Origin"@,
            "ClientPath"@,
            "C:/Windows/System32/conhost.exe"@,
        ),
        system_check(
            "Software\\\\Wow6432Node\\\\Origin"@,
            "Software\\\\Origin"@,
            "InstallSuccessful"@,
            "true"@,
        ),
        system_check(
            "Software\\\\Wow6432Node\\\\Origin Games\\\\1035052"@,
            "Software\\\\Origin Games\\\\1035052"@,
            "locale"@,
            "en_US"@,
        ),
        system_check(
            "Software\\\\Wow6432Node\\\\Origin Games\\\\1035052"@,
            "Software\\\\Origin Games\\\\1035052"@,
            "displayname"@,
            "STAR WARS Battlefront II"@,
        ),
    ]
}

/// Whether a registry file passes the check.
pub open spec fn check_holds(check: Check, content: Seq<char>) -> bool {
    exists|k: int|
        0 <= k < check.sections.len() && #[trigger] file_has_value(
            content,
            check.sections[k],
            check.name,
            check.value,
        )
}

/// Whether all checks of a list hold.
pub open spec fn checks_hold(checks: Seq<Check>, user: Seq<char>, system: Seq<char>) -> bool {
    forall|i: int|
        0 <= i < checks.len() ==> check_holds(
            #[trigger] checks[i],
            if checks[i].user {
                user
            } else {
                system
            },
        )
}

fn one_section(user: bool, section: &str, name: &str, value: &str) -> (r: FileCheck)
    ensures
        r@ == (Check { user, sections: seq![section@], name: name@, value: value@ }),
{
    let sections = vec![section.to_owned()];
    assert(text::views(sections@) =~= seq![section@]);
    FileCheck { user, sections, name: name.to_owned(), value: value.to_owned() }
}

fn two_sections(first: &str, second: &str, name: &str, value: &str) -> (r: FileCheck)
    ensures
        r@ == system_check(first@, second@, name@, value@),
{
    let sections = vec![first.to_owned(), second.to_owned()];
    assert(text::views(sections@) =~= seq![first@, second@]);
    FileCheck { user: false, sections, name: name.to_owned(), value: value.to_owned() }
}

/// The texts of a list of checks.
pub open spec fn check_views(v: Seq<FileCheck>) -> Seq<Check> {
    v.map_values(|c: FileCheck| c@)
}

fn locale_check_list() -> (r: Vec<FileCheck>)
    ensures
        check_views(r@) == locale_checks(),
{
    let international = "Control Panel\\\\International";
    let r = vec![
        one_section(true, international, "Locale", "00000409"),
        one_section(true, international, "LocaleName", "en-US"),
        one_section(true, international, "sLanguage", "ENU"),
        one_section(true, "Software\\\\Valve\\\\Steam", "language", "english"),
    ];
    assert(check_views(r@) =~= locale_checks());
    r
}

fn registry_check_list() -> (r: Vec<FileCheck>)
    ensures
        check_views(r@) == registry_checks(),
{
    let origin32 = "Software\\\\Wow6432Node\\\\Origin";
    let origin = "Software\\\\Origin";
    let games32 = "Software\\\\Wow6432Node\\\\Origin Games\\\\1035052";
    let games = "Software\\\\Origin Games\\\\1035052";
    let mut r = locale_check_list();
    let ghost start = r@;
    r.push(one_section(true, "Environment", "LANG", "en_US.UTF-8"));
    r.push(one_section(true, "Environment", "LC_ALL", "en_US.UTF-8"));
    r.push(
        one_section(
            false,
            "Software\\\\Electronic Arts\\\\EA Desktop",
            "InstallSuccessful",
            "true",
        ),
    );
    r.push(two_sections(origin32, origin, "ClientPath", "C:/Windows/System32/conhost.exe"));
    r.push(two_sections(origin32, origin, "InstallSuccessful", "true"));
    r.push(two_sections(games32, games, "locale", "en_US"));
    r.push(two_sections(games32, games, "displayname", "STAR WARS Battlefront II"));
    assert(check_views(r@).take(start.len() as int) =~= check_views(start));
    assert(check_views(r@) =~= registry_checks());
    r
}

fn run_check(check: &FileCheck, content: &str) -> (r: bool)
    ensures
        r == check_holds(check@, content@),
{
    let mut k: usize = 0;
    while k < check.sections.len()
        invariant
            k <= check.sections@.len(),
            forall|j: int|
                0 <= j < k ==> !#[trigger] file_has_value(
                    content@,
                    check@.sections[j],
                    check@.name,
                    check@.value,
                ),
        decreases check.sections@.len() - k,
    {
        assert(check@.sections[k as int] == check.sections@[k as int]@);
        if reg_file_section_has_value(
            content,
            check.sections[k].as_str(),
            check.name.as_str(),
            check.value.as_str(),
        ) {
            assert(file_has_value(
                content@,
                check@.sections[k as int],
                check@.name,
                check@.value,
            ));
            return true;
        }
        k += 1;
    }
    false
}

fn run_checks(checks: &Vec<FileCheck>, user: &str, system: &str) -> (r: bool)
    ensures
        r == checks_hold(check_views(checks@), user@, system@),
{
    let ghost all = check_views(checks@);
    let mut i: usize = 0;
    while i < checks.len()
        invariant
            i <= checks@.len(),
            all == check_views(checks@),
            forall|j: int|
                0 <= j < i ==> check_holds(
                    #[trigger] all[j],
                    if all[j].user {
                        user@
                    } else {
                        system@
                    },
                ),
        decreases checks@.len() - i,
    {
        let check = &checks[i];
        assert(all[i as int] == check@);
        let content = if check.user {
            user
        } else {
            system
        };
        if !run_check(check, content) {
            return false;
        }
        i += 1;
    }
    true
}

/// Whether both files (`None` where one cannot be read) already hold every value that the
/// registry setup would write. The 32-bit values are accepted in either branch.
pub fn verify_registry_files_for_bf2(user: Option<&str>, system: Option<&str>) -> (r: bool)
    ensures
        r == (user is Some && system is Some && checks_hold(
            registry_checks(),
            user->0@,
            system->0@,
        )),
{
    match (user, system) {
        (Some(u), Some(s)) => run_checks(&registry_check_list(), u, s),
        _ => false,
    }
}

/// Whether `user.reg` (`None` where it cannot be read) holds the four locale values.
pub fn verify_locale_files_for_bf2(user: Option<&str>) -> (r: bool)
    ensures
        r == (user is Some && checks_hold(locale_checks(), user->0@, user->0@)),
{
    match user {
        Some(u) => run_checks(&locale_check_list(), u, u),
        None => false,
    }
}

/// Where the whole registry is as it should be, so is the locale.
pub proof fn registry_files_cover_locale(user: Seq<char>, system: Seq<char>)
    requires
        checks_hold(registry_checks(), user, system),
    ensures
        checks_hold(locale_checks(), user, user),
{
    let all = registry_checks();
    let locale = locale_checks();
    assert forall|i: int| 0 <= i < locale.len() implies check_holds(
        #[trigger] locale[i],
        if locale[i].user {
            user
        } else {
            user
        },
    ) by {
        assert(all[i] == locale[i]);
        assert(check_holds(all[i], user));
    }
}

/// Sections are found whatever the case of the header that is asked for.
pub proof fn section_case_does_not_matter(
    content: Seq<char>,
    first: Seq<char>,
    second: Seq<char>,
    name: Seq<char>,
    value: Seq<char>,
)
    requires
        same_ignoring_case(first, second),
    ensures
        file_has_value(content, first, name, value) == file_has_value(content, second, name, value),
{
    let lines = text::lines(content);
    if file_has_value(content, first, name, value) {
        let i = choose|i: int| line_has_value(lines, i, first, name, value);
        assert(line_has_value(lines, i, second, name, value));
    }
    if file_has_value(content, second, name, value) {
        let i = choose|i: int| line_has_value(lines, i, second, name, value);
        assert(line_has_value(lines, i, first, name, value));
    }
}

/// A value is found only under a header that names the whole section: the section
/// `Software\\Origin` is not found in `Software\\Origin Games`.
pub proof fn section_header_matches_whole(
    content: Seq<char>,
    section: Seq<char>,
    name: Seq<char>,
    value: Seq<char>,
)
    requires
        file_has_value(content, section, name, value),
    ensures
        exists|h: int|
            0 <= h < text::lines(content).len() && is_header(#[trigger] text::lines(content)[h])
                && header_name(text::lines(content)[h]) is Some && same_ignoring_case(
                header_name(text::lines(content)[h])->0,
                section,
            ),
{
    let lines = text::lines(content);
    let i = choose|i: int| line_has_value(lines, i, section, name, value);
    lemma_section_has_header(lines, i);
}

proof fn lemma_section_has_header(lines: Seq<Seq<char>>, i: int)
    requires
        0 <= i <= lines.len(),
        section_at(lines, i) is Some,
    ensures
        exists|h: int|
            0 <= h < lines.len() && is_header(#[trigger] lines[h]) && header_name(lines[h])
                == section_at(lines, i),
    decreases i,
{
    if is_header(lines[i - 1]) {
        assert(header_name(lines[i - 1]) == section_at(lines, i));
    } else {
        lemma_section_has_header(lines, i - 1);
    }
}

/// Whether a header stands at line `h`, of which the name ends at `e` and is the section in
/// lower case, and the value at line `i` below it, with no line between them that begins with
/// a bracket.
pub open spec fn stands_below(
    lines: Seq<Seq<char>>,
    h: int,
    e: int,
    i: int,
    section: Seq<char>,
    name: Seq<char>,
    value: Seq<char>,
) -> bool {
    &&& 0 <= h < i < lines.len()
    &&& 0 < e < lines[h].len()
    &&& lines[h][0] == '[' && lines[h][e] == ']'
    &&& forall|k: int| 0 < k < e ==> lines[h][k] != ']'
    &&& unicode::lower_case(lines[h].subrange(1, e)) == unicode::lower_case(section)
    &&& forall|j: int| h < j <= i ==> !((#[trigger] lines[j]).len() > 0 && lines[j][0] == '[')
    &&& unicode::lower_case(text::trimmed(lines[i])) == unicode::lower_case(
        seq!['"'] + name + seq!['"', '=', '"'] + value + seq!['"'],
    )
}

proof fn lemma_section_below(lines: Seq<Seq<char>>, h: int, i: int)
    requires
        0 <= h < i <= lines.len(),
        is_header(lines[h]),
        forall|j: int| h < j < i ==> !is_header(#[trigger] lines[j]),
    ensures
        section_at(lines, i) == header_name(lines[h]),
    decreases i,
{
    if h < i - 1 {
        assert(!is_header(lines[i - 1]));
        lemma_section_below(lines, h, i - 1);
    }
}

proof fn lemma_section_from(lines: Seq<Seq<char>>, i: int) -> (h: int)
    requires
        0 <= i <= lines.len(),
        section_at(lines, i) is Some,
    ensures
        0 <= h < i,
        is_header(lines[h]),
        header_name(lines[h]) == section_at(lines, i),
        forall|j: int| h < j < i ==> !is_header(#[trigger] lines[j]),
    decreases i,
{
    if is_header(lines[i - 1]) {
        i - 1
    } else {
        lemma_section_from(lines, i - 1)
    }
}

proof fn lemma_value_line(name: Seq<char>, value: Seq<char>)
    ensures
        value_line(name, value) == seq!['"'] + name + seq!['"', '=', '"'] + value + seq!['"'],
{
    reveal_strlit("\"");
    reveal_strlit("\"=\"");
    assert("\""@ =~= seq!['"']);
    assert("\"=\""@ =~= seq!['"', '=', '"']);
}

/// Only a header ends a section: a file has a value exactly where a line with the name and the
/// value stands below a header of the section, whatever lines that are no headers stand
/// between them.
pub proof fn only_a_header_ends_a_section(
    content: Seq<char>,
    section: Seq<char>,
    name: Seq<char>,
    value: Seq<char>,
)
    ensures
        file_has_value(content, section, name, value) <==> exists|h: int, e: int, i: int| #[trigger]
            stands_below(text::lines(content), h, e, i, section, name, value),
{
    let lines = text::lines(content);
    lemma_value_line(name, value);
    if file_has_value(content, section, name, value) {
        let i = choose|i: int| line_has_value(lines, i, section, name, value);
        let h = lemma_section_from(lines, i);
        let e = text::find_char(lines[h], ']').unwrap();
        let at = choose|k: int| 0 <= k < lines[h].len() && lines[h][k] == ']';
        lemma_first(lines[h], ']', at);
        assert(text::char_first(lines[h], ']', e));
        assert(!is_header(lines[i]));
        assert(stands_below(lines, h, e, i, section, name, value));
    }
    if exists|h: int, e: int, i: int| stands_below(lines, h, e, i, section, name, value) {
        let (h, e, i) = choose|h: int, e: int, i: int|
            stands_below(lines, h, e, i, section, name, value);
        assert(text::char_first(lines[h], ']', e));
        text::lemma_find_char(lines[h], ']', e);
        assert(is_header(lines[h]));
        lemma_section_below(lines, h, i);
        assert(!is_header(lines[i]));
        assert(line_has_value(lines, i, section, name, value));
    }
}

proof fn lemma_first(s: Seq<char>, c: char, at: int)
    requires
        0 <= at < s.len(),
        s[at] == c,
    ensures
        text::find_char(s, c) matches Some(i) && text::char_first(s, c, i),
    decreases at,
{
    if forall|j: int| 0 <= j < at ==> s[j] != c {
        assert(text::char_first(s, c, at));
        text::lemma_find_char(s, c, at);
    } else {
        let j = choose|j: int| 0 <= j < at && s[j] == c;
        lemma_first(s, c, j);
    }
}

/// The files are as they should be only where each of these values stands in its section.
pub proof fn verified_files_hold_the_values(user: Seq<char>, system: Seq<char>)
    requires
        checks_hold(registry_checks(), user, system),
    ensures
        file_has_value(user, "Control Panel\\\\International"@, "Locale"@, "00000409"@),
        file_has_value(user, "Control Panel\\\\International"@, "LocaleName"@, "en-US"@),
        file_has_value(user, "Control Panel\\\\International"@, "sLanguage"@, "ENU"@),
        file_has_value(user, "Software\\\\Valve\\\\Steam"@, "language"@, "english"@),
        file_has_value(user, "Environment"@, "LANG"@, "en_US.UTF-8"@),
        file_has_value(user, "Environment"@, "LC_ALL"@, "en_US.UTF-8"@),
        file_has_value(
            system,
            "Software\\\\Electronic Arts\\\\EA Desktop"@,
            "InstallSuccessful"@,
            "true"@,
        ),
        in_either_branch(
            system,
            "Origin"@,
            "ClientPath"@,
            "C:/Windows/System32/conhost.exe"@,
        ),
        in_either_branch(system, "Origin"@, "InstallSuccessful"@, "true"@),
        in_either_branch(system, "Origin Games\\\\1035052"@, "locale"@, "en_US"@),
        in_either_branch(
            system,
            "Origin Games\\\\1035052"@,
            "displayname"@,
            "STAR WARS Battlefront II"@,
        ),
{
    let all = registry_checks();
    lemma_one_section(all[0], user);
    lemma_one_section(all[1], user);
    lemma_one_section(all[2], user);
    lemma_one_section(all[3], user);
    lemma_one_section(all[4], user);
    lemma_one_section(all[5], user);
    lemma_one_section(all[6], system);
    lemma_two_sections(all[7], system);
    lemma_two_sections(all[8], system);
    lemma_two_sections(all[9], system);
    lemma_two_sections(all[10], system);
    lemma_branches();
}

/// Whether a file gives `name` the value in a section of `Software`, in the 32-bit branch or
/// in the plain one.
pub open spec fn in_either_branch(
    content: Seq<char>,
    section: Seq<char>,
    name: Seq<char>,
    value: Seq<char>,
) -> bool {
    file_has_value(content, "Software\\\\Wow6432Node\\\\"@ + section, name, value)
        || file_has_value(content, "Software\\\\"@ + section, name, value)
}

proof fn lemma_branches()
    ensures
        "Software\\\\Wow6432Node\\\\Origin"@ == "Software\\\\Wow6432Node\\\\"@ + "Origin"@,
        "Software\\\\Origin"@ == "Software\\\\"@ + "Origin"@,
        "Software\\\\Wow6432Node\\\\Origin Games\\\\1035052"@ == "Software\\\\Wow6432Node\\\\"@
            + "Origin Games\\\\1035052"@,
        "Software\\\\Origin Games\\\\1035052"@ == "Software\\\\"@ + "Origin Games\\\\1035052"@,
{
    reveal_strlit("Software\\\\");
    reveal_strlit("Software\\\\Wow6432Node\\\\");
    reveal_strlit("Origin");
    reveal_strlit("Origin Games\\\\1035052");
    reveal_strlit("Software\\\\Origin");
    reveal_strlit("Software\\\\Wow6432Node\\\\Origin");
    reveal_strlit("Software\\\\Origin Games\\\\1035052");
    reveal_strlit("Software\\\\Wow6432Node\\\\Origin Games\\\\1035052");
    assert("Software\\\\Wow6432Node\\\\Origin"@ =~= "Software\\\\Wow6432Node\\\\"@ + "Origin"@);
    assert("Software\\\\Origin"@ =~= "Software\\\\"@ + "Origin"@);
    assert("Software\\\\Wow6432Node\\\\Origin Games\\\\1035052"@ =~= "Software\\\\Wow6432Node\\\\"@
        + "Origin Games\\\\1035052"@);
    assert("Software\\\\Origin Games\\\\1035052"@ =~= "Software\\\\"@ + "Origin Games\\\\1035052"@);
}

proof fn lemma_one_section(check: Check, content: Seq<char>)
    requires
        check_holds(check, content),
        check.sections.len() == 1,
    ensures
        file_has_value(content, check.sections[0], check.name, check.value),
{
}

proof fn lemma_two_sections(check: Check, content: Seq<char>)
    requires
        check_holds(check, content),
        check.sections.len() == 2,
    ensures
        file_has_value(content, check.sections[0], check.name, check.value) || file_has_value(
            content,
            check.sections[1],
            check.name,
            check.value,
        ),
{
}

/// Where the files hold everything that is looked for, they are as they should be: one value
/// of each check is enough, in the first of its sections.
pub proof fn files_with_the_values_are_verified(user: Seq<char>, system: Seq<char>)
    requires
        forall|i: int|
            0 <= i < registry_checks().len() ==> file_has_value(
                if (#[trigger] registry_checks()[i]).user {
                    user
                } else {
                    system
                },
                registry_checks()[i].sections[0],
                registry_checks()[i].name,
                registry_checks()[i].value,
            ),
    ensures
        checks_hold(registry_checks(), user, system),
{
    let all = registry_checks();
    assert forall|i: int| 0 <= i < all.len() implies check_holds(
        #[trigger] all[i],
        if all[i].user {
            user
        } else {
            system
        },
    ) by {
        assert(all[i].sections.len() > 0);
        assert(file_has_value(
            if all[i].user {
                user
            } else {
                system
            },
            all[i].sections[0],
            all[i].name,
            all[i].value,
        ));
    }
}

/// The locale is as it should be only where each of its four values stands in its section.
pub proof fn verified_locale_holds_the_values(user: Seq<char>)
    ensures
        checks_hold(locale_checks(), user, user) <==> {
            &&& file_has_value(user, "Control Panel\\\\International"@, "Locale"@, "00000409"@)
            &&& file_has_value(user, "Control Panel\\\\International"@, "LocaleName"@, "en-US"@)
            &&& file_has_value(user, "Control Panel\\\\International"@, "sLanguage"@, "ENU"@)
            &&& file_has_value(user, "Software\\\\Valve\\\\Steam"@, "language"@, "english"@)
        },
{
    let all = locale_checks();
    assert forall|i: int| 0 <= i < 4 implies check_holds(#[trigger] all[i], user) == file_has_value(
        user,
        all[i].sections[0],
        all[i].name,
        all[i].value,
    ) by {
        if file_has_value(user, all[i].sections[0], all[i].name, all[i].value) {
            assert(check_holds(all[i], user));
        }
    }
    if checks_hold(all, user, user) {
        assert(check_holds(all[0], user) && check_holds(all[1], user) && check_holds(all[2], user)
            && check_holds(all[3], user));
    } else {
        assert(!(check_holds(all[0], user) && check_holds(all[1], user) && check_holds(
            all[2],
            user,
        ) && check_holds(all[3], user)));
    }
}

/// A line below a header gives a name its value exactly where it reads `"name"="value"`, with
/// or without white space around it and in whatever case.
pub proof fn value_is_given_in_quotes(
    lines: Seq<Seq<char>>,
    i: int,
    name: Seq<char>,
    value: Seq<char>,
)
    requires
        0 <= i < lines.len(),
        !is_header(lines[i]),
        section_at(lines, i) is Some,
    ensures
        line_has_value(lines, i, section_at(lines, i)->0, name, value) <==> unicode::lower_case(
            text::trimmed(lines[i]),
        ) == unicode::lower_case(
            seq!['"'] + name + seq!['"', '=', '"'] + value + seq!['"'],
        ),
{
    reveal_strlit("\"");
    reveal_strlit("\"=\"");
    assert("\""@ =~= seq!['"']);
    assert("\"=\""@ =~= seq!['"', '=', '"']);
}

} // verus!
