//! The machine's part of the Wine registry, read from the prefix's `system.reg`.

use vstd::hash_map::StringHashMap;
use vstd::prelude::*;
use vstd::utf8::*;
use crate::path;
use crate::path::join_path;
use crate::text;
use crate::text::{cat3, chars_of, find_in, lines_of, replaced, starts_with, string_range, trim, trim_of};
use crate::unicode;
use crate::unicode::to_lowercase;
use crate::wine::dirs::{default_wine_prefix_dir, wine_prefix_dir};

verus! {

/// The values of the registry by their keys in lower case, each with the path of its section
/// before it.
pub struct WineRegistry {
    entries: StringHashMap<String>,
}

impl View for WineRegistry {
    type V = Map<Seq<char>, Seq<char>>;

    closed spec fn view(&self) -> Map<Seq<char>, Seq<char>> {
        self.entries@.map_values(|s: String| s@)
    }
}

/// The section that a line begins, if it is a header.
pub open spec fn header(line: Seq<char>) -> Option<Seq<char>> {
    match text::find_char(line, ']') {
        Some(end) => if line[0] == '[' {
            Some(line.subrange(1, end))
        } else {
            None
        },
        None => None,
    }
}

/// The name and the value of a line, if it is no header: what stands before and after the
/// first `=`, both without the quotes around it.
pub open spec fn assignment(line: Seq<char>) -> Option<(Seq<char>, Seq<char>)> {
    match text::find_char(line, '=') {
        Some(e) => if header(line) is None && line[0] == '"' {
            Some((text::trimmed_of(line.take(e), '"'), text::trimmed_of(line.skip(e + 1), '"')))
        } else {
            None
        },
        None => None,
    }
}

/// The full key of a name: the section, a backslash and the name. Files double the
/// backslashes.
pub open spec fn full_key(section: Seq<char>, name: Seq<char>) -> Seq<char> {
    text::replace(section + "\\"@ + name, "\\\\"@, "\\"@)
}

/// The section that the lines leave open.
pub open spec fn section_after(lines: Seq<Seq<char>>) -> Seq<char>
    decreases lines.len(),
{
    if lines.len() == 0 {
        Seq::empty()
    } else {
        match header(text::trimmed(lines.last())) {
            Some(s) => s,
            None => section_after(lines.drop_last()),
        }
    }
}

/// The key and the value that the line at `i` gives.
pub open spec fn entry_at(lines: Seq<Seq<char>>, i: int) -> Option<(Seq<char>, Seq<char>)> {
    match assignment(text::trimmed(lines[i])) {
        Some((name, value)) => Some(
            (unicode::lower_case(full_key(section_after(lines.take(i)), name)), value),
        ),
        None => None,
    }
}

/// The registry of some lines: of two values of a key the later one stands.
pub open spec fn registry_of(lines: Seq<Seq<char>>) -> Map<Seq<char>, Seq<char>>
    decreases lines.len(),
{
    if lines.len() == 0 {
        Map::empty()
    } else {
        let before = registry_of(lines.drop_last());
        match entry_at(lines, lines.len() - 1) {
            Some((key, value)) => before.insert(key, value),
            None => before,
        }
    }
}

fn header_of(line: &Vec<char>) -> (r: Option<String>)
    ensures
        text::opt_string(r) == header(line@),
{
    match find_in(line.as_slice(), ']') {
        Some(end) => if line[0] == '[' {
            assert(end > 0);
            Some(string_range(line.as_slice(), 1, end))
        } else {
            None
        },
        None => None,
    }
}

fn assignment_of(line: &Vec<char>) -> (r: Option<(String, String)>)
    requires
        header(line@) is None,
    ensures
        match r {
            Some((name, value)) => assignment(line@) == Some((name@, value@)),
            None => assignment(line@) is None,
        },
{
    match find_in(line.as_slice(), '=') {
        Some(e) => if line[0] == '"' {
            let n: usize = line.len();
            let name = trim_of(line.as_slice(), 0, e, '"');
            let value = trim_of(line.as_slice(), e + 1, n, '"');
            assert(line@.subrange(0, e as int) =~= line@.take(e as int));
            assert(line@.subrange(e + 1, line@.len() as int) =~= line@.skip(e + 1));
            Some((name, value))
        } else {
            None
        },
        None => None,
    }
}

impl WineRegistry {
    /// A registry that has not been read.
    pub fn new() -> (r: Self)
        ensures
            r@ == Map::<Seq<char>, Seq<char>>::empty(),
    {
        let r = WineRegistry { entries: StringHashMap::new() };
        assert(r@ =~= Map::empty());
        r
    }

    /// Whether there is nothing in it.
    pub fn is_empty(&self) -> (r: bool)
        ensures
            r == self@.is_empty(),
    {
        let r = self.entries.is_empty();
        assert(self@.dom() =~= self.entries@.dom());
        assert(self.entries@.is_empty() == (self.entries@ =~= Map::empty()));
        assert(self@.is_empty() == (self@ =~= Map::empty()));
        r
    }

    /// Sets the value of a key, which is in lower case.
    pub fn set(&mut self, key: String, value: String)
        ensures
            final(self)@ == old(self)@.insert(key@, value@),
    {
        self.entries.insert(key, value);
        assert(self@ =~= old(self)@.insert(key@, value@));
    }

    /// The value of a key, which is in lower case.
    pub fn get(&self, key: &str) -> (r: Option<String>)
        ensures
            text::opt_string(r) == (if self@.contains_key(key@) {
                Some(self@[key@])
            } else {
                None
            }),
    {
        match self.entries.get(key) {
            Some(value) => Some(value.clone()),
            None => None,
        }
    }

    /// Reads the registry from the text of a `system.reg`, unless that was done already.
    pub fn parse_wine_registry(&mut self, content: &str)
        ensures
            final(self)@ == (if old(self)@.is_empty() {
                registry_of(text::lines(content@))
            } else {
                old(self)@
            }),
    {
        if !self.is_empty() {
            return;
        }
        assert(self@ =~= Map::empty());
        let lines = lines_of(content);
        let ghost all = text::lines(content@);
        let mut section = String::new();
        let mut i: usize = 0;
        assert(all.take(0) =~= Seq::empty());
        assert(section@ =~= Seq::empty());
        while i < lines.len()
            invariant
                i <= lines@.len(),
                text::views(lines@) == all,
                all == text::lines(content@),
                section@ == section_after(all.take(i as int)),
                self@ == registry_of(all.take(i as int)),
            decreases lines@.len() - i,
        {
            assert(text::views(lines@)[i as int] == lines@[i as int]@);
            let ghost next = all.take(i + 1);
            assert(next.drop_last() =~= all.take(i as int));
            assert(next.take(i as int) =~= all.take(i as int));
            assert(next.last() == all[i as int]);
            let trimmed = trim(lines[i].as_str());
            let line = chars_of(trimmed.as_str());
            match header_of(&line) {
                Some(s) => {
                    section = s;
                },
                None => match assignment_of(&line) {
                    Some((name, value)) => {
                        proof {
                            reveal_strlit("\\\\");
                        }
                        let key = cat3(section.as_str(), "\\", name.as_str());
                        let key = replaced(key.as_str(), "\\\\", "\\");
                        self.set(to_lowercase(key.as_str()), value);
                    },
                    None => {},
                },
            }
            i += 1;
        }
        assert(all.len() == lines@.len());
        assert(all.take(all.len() as int) =~= all);
    }

    /// Forgets the registry, so that it is read again.
    pub fn invalidate_mx_wine_registry(&mut self)
        ensures
            final(self)@ == Map::<Seq<char>, Seq<char>>::empty(),
    {
        self.entries.clear();
        assert(self@ =~= Map::empty());
    }
}

/// The file to read the registry from, if there is one: the `system.reg` of the prefix in
/// use, or else of the managed one.
pub fn parse_mx_wine_registry(maxima_dir: &str, in_use_exists: bool, managed_exists: bool) -> (r:
    Option<String>)
    ensures
        text::opt_string(r) == (if in_use_exists || managed_exists {
            Some(path::path_join(path::path_join(maxima_dir@, "wine/prefix"@), "system.reg"@))
        } else {
            None
        }),
{
    if in_use_exists {
        let prefix = wine_prefix_dir(maxima_dir);
        Some(join_path(prefix.as_str(), "system.reg"))
    } else if managed_exists {
        let prefix = default_wine_prefix_dir(maxima_dir);
        Some(join_path(prefix.as_str(), "system.reg"))
    } else {
        None
    }
}

/// `s` without the text `prefix` that it begins with, however often.
pub open spec fn strip_all(s: Seq<char>, prefix: Seq<char>) -> Seq<char>
    decreases s.len(),
{
    if prefix.len() > 0 && prefix.is_prefix_of(s) {
        strip_all(s.skip(prefix.len() as int), prefix)
    } else {
        s
    }
}

/// A key in lower case without the root that every key of the file is under.
pub open spec fn below_machine(key: Seq<char>) -> Seq<char> {
    strip_all(key, "hkey_local_machine\\"@)
}

/// The key that 32-bit programs are given in place of a key.
pub open spec fn wow_key(key: Seq<char>) -> Seq<char> {
    text::replace(key, "software\\"@, "software\\wow6432node\\"@)
}

/// The value that is found for a key in lower case and below the machine's root.
pub open spec fn found(registry: Map<Seq<char>, Seq<char>>, key: Seq<char>) -> Option<Seq<char>> {
    if registry.contains_key(key) {
        Some(registry[key])
    } else if registry.contains_key(wow_key(key)) {
        Some(registry[wow_key(key)])
    } else {
        None
    }
}

/// A Windows path on drive `Z:`, which is the file system, as a path of the file system.
pub open spec fn unix_path(value: Seq<char>) -> Seq<char> {
    text::replace(text::replace(value, "Z:"@, Seq::empty()), "\\"@, "/"@)
}

fn strip_machine(key: &str) -> (r: String)
    ensures
        r@ == below_machine(key@),
{
    let mut rest = key.to_owned();
    let ghost root = "hkey_local_machine\\"@;
    let n: usize = 19;
    proof {
        reveal_strlit("hkey_local_machine\\");
    }
    assert(root.len() == 19);
    while starts_with(rest.as_str(), "hkey_local_machine\\")
        invariant
            n == 19,
            root == "hkey_local_machine\\"@,
            root.len() == 19,
            below_machine(key@) == below_machine(rest@),
        decreases rest@.len(),
    {
        let v = chars_of(rest.as_str());
        assert(v@ == rest@);
        assert(v@.len() >= 19);
        rest = string_range(v.as_slice(), n, v.len());
        assert(rest@ =~= v@.skip(19));
    }
    rest
}

/// The form in which keys are looked up: lower case, below the machine's root.
pub fn normalize_key(key: &str) -> (r: String)
    ensures
        r@ == below_machine(unicode::lower_case(key@)),
{
    let lower = to_lowercase(key);
    strip_machine(lower.as_str())
}

/// The value of a key that is in the form for looking up, as a path of the file system.
pub fn registry_value(registry: &WineRegistry, key: &str) -> (r: Option<String>)
    ensures
        text::opt_string(r) == (match found(registry@, key@) {
            Some(value) => Some(unix_path(value)),
            None => None,
        }),
{
    proof {
        reveal_strlit("software\\");
        reveal_strlit("Z:");
        reveal_strlit("\\");
        reveal_strlit("");
    }
    assert(""@ =~= Seq::empty());
    let value = match registry.get(key) {
        Some(value) => Some(value),
        None => {
            let wow = replaced(key, "software\\", "software\\wow6432node\\");
            registry.get(wow.as_str())
        },
    };
    match value {
        Some(v) => {
            let v = replaced(v.as_str(), "Z:", "");
            Some(replaced(v.as_str(), "\\", "/"))
        },
        None => None,
    }
}

/// The value of a key, as a path of the file system. Without a file there is none, whatever
/// was read before.
pub fn get_mx_wine_registry_value(
    registry: &WineRegistry,
    file_exists: bool,
    query_key: &str,
) -> (r: Option<String>)
    ensures
        text::opt_string(r) == (match found(
            registry@,
            below_machine(unicode::lower_case(query_key@)),
        ) {
            Some(value) if file_exists => Some(unix_path(value)),
            _ => None,
        }),
{
    if !file_exists {
        return None;
    }
    let key = normalize_key(query_key);
    registry_value(registry, key.as_str())
}

/// A value that the file holds is the one in the registry, unless a later line gives its
/// key another one.
pub proof fn last_value_stands(lines: Seq<Seq<char>>, i: int, key: Seq<char>, value: Seq<char>)
    requires
        0 <= i < lines.len(),
        entry_at(lines, i) == Some((key, value)),
        forall|j: int|
            i < j < lines.len() ==> match #[trigger] entry_at(lines, j) {
                Some((k, _)) => k != key,
                None => true,
            },
    ensures
        registry_of(lines).contains_key(key),
        registry_of(lines)[key] == value,
    decreases lines.len(),
{
    if i < lines.len() - 1 {
        let before = lines.drop_last();
        assert forall|j: int| 0 <= j < before.len() implies #[trigger] entry_at(before, j) == entry_at(
            lines,
            j,
        ) by {
            assert(before.take(j) =~= lines.take(j));
        }
        last_value_stands(before, i, key, value);
        assert(entry_at(lines, lines.len() - 1) is Some ==> entry_at(lines, lines.len() - 1).unwrap().0
            != key);
    }
}

/// The registry holds nothing that no line of the file gives.
pub proof fn registry_holds_lines_only(lines: Seq<Seq<char>>, key: Seq<char>)
    requires
        registry_of(lines).contains_key(key),
    ensures
        exists|i: int|
            0 <= i < lines.len() && #[trigger] entry_at(lines, i) == Some(
                (key, registry_of(lines)[key]),
            ),
    decreases lines.len(),
{
    if lines.len() > 0 {
        let before = lines.drop_last();
        let last = entry_at(lines, lines.len() - 1);
        if last is Some && last.unwrap().0 == key {
        } else {
            registry_holds_lines_only(before, key);
            let i = choose|i: int|
                0 <= i < before.len() && #[trigger] entry_at(before, i) == Some(
                    (key, registry_of(before)[key]),
                );
            assert(before.take(i) =~= lines.take(i));
            assert(entry_at(lines, i) == Some((key, registry_of(lines)[key])));
        }
    }
}

/// A key means the same with and without the machine's root before it.
pub proof fn machine_root_does_not_matter(key: Seq<char>)
    ensures
        below_machine("hkey_local_machine\\"@ + key) == below_machine(key),
{
    reveal_strlit("hkey_local_machine\\");
    let root = "hkey_local_machine\\"@;
    let s = root + key;
    assert(s.subrange(0, root.len() as int) =~= root);
    assert(s.skip(root.len() as int) =~= key);
}

/// An ASCII key means the same with and without the machine's root in capitals before it.
pub proof fn capital_root_does_not_matter(key: Seq<char>)
    requires
        is_ascii_chars(key),
    ensures
        below_machine(unicode::lower_case("HKEY_LOCAL_MACHINE\\"@ + key)) == below_machine(
            unicode::lower_case(key),
        ),
{
    reveal_strlit("HKEY_LOCAL_MACHINE\\");
    reveal_strlit("hkey_local_machine\\");
    let root = "HKEY_LOCAL_MACHINE\\"@;
    let lower = "hkey_local_machine\\"@;
    assert forall|i: int| 0 <= i < (root + key).len() implies '\0' <= #[trigger] (root + key)[i]
        <= '\u{7f}' by {
        if i < root.len() {
            assert((root + key)[i] == root[i]);
        } else {
            assert((root + key)[i] == key[i - root.len()]);
        }
    }
    assert(is_ascii_chars(root + key));
    assert(root.map_values(|c: char| unicode::ascii_lower(c)) =~= lower);
    assert(unicode::lower_case(root + key) =~= lower + unicode::lower_case(key));
    machine_root_does_not_matter(unicode::lower_case(key));
}

proof fn lemma_strip_all(s: Seq<char>, prefix: Seq<char>)
    ensures
        strip_all(strip_all(s, prefix), prefix) == strip_all(s, prefix),
        strip_all(s, prefix).len() <= s.len(),
        strip_all(s, prefix) == s.skip(s.len() - strip_all(s, prefix).len()),
    decreases s.len(),
{
    if prefix.len() > 0 && prefix.is_prefix_of(s) {
        let rest = s.skip(prefix.len() as int);
        lemma_strip_all(rest, prefix);
        let end = strip_all(rest, prefix);
        assert(rest.skip(rest.len() - end.len()) =~= s.skip(s.len() - end.len()));
    } else {
        assert(s.skip(0) =~= s);
    }
}

/// To normalize a key twice is to normalize it once, where lower case leaves the normalized
/// key as it is.
pub proof fn normal_form_is_kept(key: Seq<char>)
    ensures
        unicode::lower_case(below_machine(unicode::lower_case(key))) == below_machine(
            unicode::lower_case(key),
        ) ==> below_machine(unicode::lower_case(below_machine(unicode::lower_case(key))))
            == below_machine(unicode::lower_case(key)),
{
    lemma_strip_all(unicode::lower_case(key), "hkey_local_machine\\"@);
}

/// To normalize an ASCII key twice is to normalize it once.
pub proof fn normalizing_is_idempotent(key: Seq<char>)
    requires
        is_ascii_chars(key),
    ensures
        below_machine(unicode::lower_case(below_machine(unicode::lower_case(key))))
            == below_machine(unicode::lower_case(key)),
{
    let lower = unicode::lower_case(key);
    let form = below_machine(lower);
    lemma_strip_all(lower, "hkey_local_machine\\"@);
    let cut = lower.len() - form.len();
    assert forall|i: int| 0 <= i < form.len() implies '\0' <= #[trigger] form[i] <= '\u{7f}'
        && unicode::ascii_lower(form[i]) == form[i] by {
        assert(form[i] == lower[cut + i]);
        assert(lower[cut + i] == unicode::ascii_lower(key[cut + i]));
        assert('\0' <= key[cut + i] <= '\u{7f}');
    }
    assert(is_ascii_chars(form));
    assert(unicode::lower_case(form) =~= form);
    normal_form_is_kept(key);
}

/// Keys that differ only in case are looked up as one.
pub proof fn key_case_does_not_matter(
    registry: Map<Seq<char>, Seq<char>>,
    first: Seq<char>,
    second: Seq<char>,
)
    requires
        unicode::lower_case(first) == unicode::lower_case(second),
    ensures
        below_machine(unicode::lower_case(first)) == below_machine(unicode::lower_case(second)),
        found(registry, below_machine(unicode::lower_case(first))) == found(
            registry,
            below_machine(unicode::lower_case(second)),
        ),
{
}

/// A value without `Z:` keeps its length: each backslash becomes a slash, and every other
/// character stays as it is.
pub proof fn value_keeps_its_characters(value: Seq<char>)
    requires
        !text::occurs(value, seq!['Z', ':']),
    ensures
        unix_path(value).len() == value.len(),
        forall|i: int|
            0 <= i < value.len() ==> #[trigger] unix_path(value)[i] == (if value[i] == '\\' {
                '/'
            } else {
                value[i]
            }),
{
    lemma_drive_texts();
    text::nothing_is_replaced(value, "Z:"@, Seq::empty());
    text::one_character_is_replaced(value, '\\', '/');
}

proof fn lemma_drive_texts()
    ensures
        "Z:"@ == seq!['Z', ':'],
        "\\"@ == seq!['\\'],
        "/"@ == seq!['/'],
{
    reveal_strlit("Z:");
    reveal_strlit("\\");
    reveal_strlit("/");
    assert("Z:"@ =~= seq!['Z', ':']);
    assert("\\"@ =~= seq!['\\']);
    assert("/"@ =~= seq!['/']);
}

/// A path of the file system that was written with the drive `Z:` before it comes back as it
/// is.
pub proof fn path_on_the_drive_comes_back(p: Seq<char>)
    requires
        !text::occurs(p, seq!['Z', ':']),
        !p.contains('\\'),
    ensures
        unix_path(seq!['Z', ':'] + p) == p,
{
    drive_is_dropped(Seq::empty(), p);
    value_keeps_its_characters(p);
    assert forall|i: int| 0 <= i < p.len() implies #[trigger] unix_path(p)[i] == p[i] by {
        assert(p.contains(p[i]));
    }
    assert(unix_path(p) =~= p);
    assert(unix_path(Seq::empty()) =~= Seq::empty());
    assert(Seq::<char>::empty() + seq!['Z', ':'] + p =~= seq!['Z', ':'] + p);
    assert(Seq::<char>::empty() + p =~= p);
}

/// The drive is dropped wherever it stands, and what is before it and after it is made a path
/// of the file system in the same way.
pub proof fn drive_is_dropped(before: Seq<char>, after: Seq<char>)
    requires
        !text::occurs(before, seq!['Z', ':']),
    ensures
        unix_path(before + seq!['Z', ':'] + after) == unix_path(before) + unix_path(after),
{
    let drive = seq!['Z', ':'];
    let s = before + drive + after;
    lemma_drive_texts();
    text::text_stands_where_it_was_put(before, drive, after);
    assert forall|j: int| 0 <= j < before.len() implies !#[trigger] text::occurs_at(s, drive, j) by {
        if text::occurs_at(s, drive, j) {
            let found = s.subrange(j, j + 2);
            assert(found[0] == 'Z' && found[1] == ':');
            assert(s[j] == 'Z' && s[j + 1] == ':');
            if j + 1 < before.len() {
                assert(before.subrange(j, j + 2) =~= drive);
                assert(text::occurs_at(before, drive, j));
            } else {
                assert(s[j + 1] == drive[0]);
            }
        }
    }
    text::first_occurrence_is_replaced(before, drive, after, Seq::empty());
    text::nothing_is_replaced(before, drive, Seq::empty());
    let rest = text::replace(after, drive, Seq::empty());
    assert(before + Seq::<char>::empty() + rest =~= before + rest);
    text::one_character_is_replaced(before + rest, '\\', '/');
    text::one_character_is_replaced(before, '\\', '/');
    text::one_character_is_replaced(rest, '\\', '/');
    assert(unix_path(s) =~= unix_path(before) + unix_path(after)) by {
        let all = before + rest;
        let whole = text::replace(all, seq!['\\'], seq!['/']);
        let first = text::replace(before, seq!['\\'], seq!['/']);
        let second = text::replace(rest, seq!['\\'], seq!['/']);
        assert forall|i: int| 0 <= i < all.len() implies #[trigger] whole[i] == (first + second)[i] by {
            if i < before.len() {
                assert(all[i] == before[i]);
                assert(first[i] == (first + second)[i]);
            } else {
                assert(all[i] == rest[i - before.len()]);
                assert(second[i - before.len()] == (first + second)[i]);
            }
        }
        assert(whole =~= first + second);
    }
}

/// A header line opens the section between its brackets, and every line after it stands in
/// that section until the next header, whatever the lines are.
pub proof fn header_opens_its_section(
    before: Seq<Seq<char>>,
    line: Seq<char>,
    section: Seq<char>,
    rest: Seq<char>,
    after: Seq<Seq<char>>,
)
    requires
        text::trimmed(line) == seq!['['] + section + seq![']'] + rest,
        !section.contains(']'),
        forall|j: int|
            0 <= j < after.len() ==> {
                let t = text::trimmed(#[trigger] after[j]);
                !(t.len() > 0 && t[0] == '[' && t.contains(']'))
            },
    ensures
        section_after(before + seq![line] + after) == section,
    decreases after.len(),
{
    let lines = before + seq![line] + after;
    if after.len() == 0 {
        let t = seq!['['] + section + seq![']'] + rest;
        let e = section.len() as int + 1;
        assert(lines.last() == line);
        assert(text::char_first(t, ']', e)) by {
            assert forall|j: int| 0 <= j < e implies t[j] != ']' by {
                if j > 0 {
                    assert(section[j - 1] == t[j]);
                }
            }
        }
        text::lemma_find_char(t, ']', e);
        assert(t.subrange(1, e) =~= section);
    } else {
        let fewer = after.drop_last();
        let t = text::trimmed(after[after.len() - 1]);
        assert(lines.drop_last() =~= before + seq![line] + fewer);
        assert(lines.last() == after[after.len() - 1]);
        assert forall|j: int| 0 <= j < fewer.len() implies {
            let t = text::trimmed(#[trigger] fewer[j]);
            !(t.len() > 0 && t[0] == '[' && t.contains(']'))
        } by {
            assert(fewer[j] == after[j]);
        }
        header_opens_its_section(before, line, section, rest, fewer);
        assert(header(t) is None);
    }
}

/// A line with a name and a value in quotes gives the value to the name in its section: the
/// key is the section, a backslash and the name, with one backslash for two and in lower case.
pub proof fn quoted_line_gives_its_value(
    lines: Seq<Seq<char>>,
    i: int,
    name: Seq<char>,
    value: Seq<char>,
)
    requires
        0 <= i < lines.len(),
        text::trimmed(lines[i]) == seq!['"'] + name + seq!['"', '=', '"'] + value + seq!['"'],
        !name.contains('='),
        name.len() > 0 ==> name[0] != '"' && name.last() != '"',
        value.len() > 0 ==> value[0] != '"' && value.last() != '"',
    ensures
        entry_at(lines, i) == Some(
            (
                unicode::lower_case(
                    text::replace(
                        section_after(lines.take(i)) + seq!['\\'] + name,
                        seq!['\\', '\\'],
                        seq!['\\'],
                    ),
                ),
                value,
            ),
        ),
{
    let line = seq!['"'] + name + seq!['"', '=', '"'] + value + seq!['"'];
    let e = name.len() as int + 2;
    lemma_drive_texts();
    reveal_strlit("\\\\");
    assert("\\\\"@ =~= seq!['\\', '\\']);
    assert(text::char_first(line, '=', e)) by {
        assert(line[e] == '=');
        assert forall|j: int| 0 <= j < e implies line[j] != '=' by {
            if 0 < j < e - 1 {
                assert(line[j] == name[j - 1]);
                assert(name.contains(name[j - 1]));
            }
        }
    }
    text::lemma_find_char(line, '=', e);
    assert(line[0] == '"');
    assert(header(line) is None);
    let one = Seq::new(1, |k: int| '"');
    assert(line.take(e) =~= one + name + one);
    assert(line.skip(e + 1) =~= one + value + one);
    text::surrounding_characters_are_trimmed(1, name, 1, '"');
    text::surrounding_characters_are_trimmed(1, value, 1, '"');
}

/// A line that is neither a header nor an assignment of a quoted name gives nothing.
pub proof fn other_lines_give_nothing(lines: Seq<Seq<char>>, i: int)
    requires
        0 <= i < lines.len(),
        text::trimmed(lines[i]).len() == 0 || text::trimmed(lines[i])[0] != '"'
            || !text::trimmed(lines[i]).contains('='),
    ensures
        entry_at(lines, i) is None,
{
    let line = text::trimmed(lines[i]);
    if line.contains('=') {
        let k = choose|k: int| 0 <= k < line.len() && line[k] == '=';
        assert(line.len() > 0);
    }
}

/// A value under the key itself is found before one under the key of 32-bit programs, and
/// without either nothing is found.
pub proof fn plain_key_comes_first(
    registry: Map<Seq<char>, Seq<char>>,
    before: Seq<char>,
    after: Seq<char>,
)
    requires
        !text::occurs(after, "software\\"@),
        text::occurs_first(
            before + "software\\"@ + after,
            "software\\"@,
            before.len() as int,
        ),
    ensures
        ({
            let key = before + "software\\"@ + after;
            let wow = before + "software\\wow6432node\\"@ + after;
            &&& registry.contains_key(key) ==> found(registry, key) == Some(registry[key])
            &&& !registry.contains_key(key) && registry.contains_key(wow) ==> found(registry, key)
                == Some(registry[wow])
            &&& !registry.contains_key(key) && !registry.contains_key(wow) ==> found(
                registry,
                key,
            ) is None
        }),
{
    reveal_strlit("software\\");
    text::first_occurrence_is_replaced(
        before,
        "software\\"@,
        after,
        "software\\wow6432node\\"@,
    );
    text::nothing_is_replaced(after, "software\\"@, "software\\wow6432node\\"@);
}

/// A key outside of `software\` is looked up as it is.
pub proof fn other_keys_have_one_place(registry: Map<Seq<char>, Seq<char>>, key: Seq<char>)
    requires
        !text::occurs(key, "software\\"@),
    ensures
        found(registry, key) == (if registry.contains_key(key) {
            Some(registry[key])
        } else {
            None
        }),
{
    text::nothing_is_replaced(key, "software\\"@, "software\\wow6432node\\"@);
}

/// A key that does not begin with the machine's root is looked up as it is.
pub proof fn other_roots_stay(key: Seq<char>)
    requires
        !"hkey_local_machine\\"@.is_prefix_of(key),
    ensures
        below_machine(key) == key,
{
}

/// A line with a name in quotes and a value without them gives the value as it is.
pub proof fn unquoted_line_gives_its_value(
    lines: Seq<Seq<char>>,
    i: int,
    name: Seq<char>,
    value: Seq<char>,
)
    requires
        0 <= i < lines.len(),
        text::trimmed(lines[i]) == seq!['"'] + name + seq!['"', '='] + value,
        !name.contains('='),
        name.len() > 0 ==> name[0] != '"' && name.last() != '"',
        value.len() > 0 ==> value[0] != '"' && value.last() != '"',
    ensures
        entry_at(lines, i) matches Some((key, v)) && v == value && key == unicode::lower_case(
            text::replace(
                section_after(lines.take(i)) + seq!['\\'] + name,
                seq!['\\', '\\'],
                seq!['\\'],
            ),
        ),
{
    let line = seq!['"'] + name + seq!['"', '='] + value;
    let e = name.len() as int + 2;
    lemma_drive_texts();
    reveal_strlit("\\\\");
    assert("\\\\"@ =~= seq!['\\', '\\']);
    assert(text::char_first(line, '=', e)) by {
        assert(line[e] == '=');
        assert forall|j: int| 0 <= j < e implies line[j] != '=' by {
            if 0 < j < e - 1 {
                assert(line[j] == name[j - 1]);
                assert(name.contains(name[j - 1]));
            }
        }
    }
    text::lemma_find_char(line, '=', e);
    assert(line[0] == '"');
    assert(header(line) is None);
    let one = Seq::new(1, |k: int| '"');
    let none = Seq::new(0, |k: int| '"');
    assert(line.take(e) =~= one + name + one);
    assert(line.skip(e + 1) =~= none + value + none);
    text::surrounding_characters_are_trimmed(1, name, 1, '"');
    text::surrounding_characters_are_trimmed(0, value, 0, '"');
}

/// Before the first header no section is open.
pub proof fn no_section_is_open_at_first(lines: Seq<Seq<char>>)
    requires
        forall|j: int|
            0 <= j < lines.len() ==> {
                let t = text::trimmed(#[trigger] lines[j]);
                !(t.len() > 0 && t[0] == '[' && t.contains(']'))
            },
    ensures
        section_after(lines).len() == 0,
    decreases lines.len(),
{
    if lines.len() > 0 {
        let fewer = lines.drop_last();
        let t = text::trimmed(lines[lines.len() - 1]);
        assert forall|j: int| 0 <= j < fewer.len() implies {
            let t = text::trimmed(#[trigger] fewer[j]);
            !(t.len() > 0 && t[0] == '[' && t.contains(']'))
        } by {
            assert(fewer[j] == lines[j]);
        }
        no_section_is_open_at_first(fewer);
        assert(header(t) is None);
    }
}

/// The first `=` parts a line that begins with a quote into its name and its value; the quotes
/// around each are taken off, and nothing else is.
pub proof fn first_equals_sign_parts_the_line(
    lines: Seq<Seq<char>>,
    i: int,
    left: Seq<char>,
    right: Seq<char>,
)
    requires
        0 <= i < lines.len(),
        text::trimmed(lines[i]) == left + seq!['='] + right,
        left.len() > 0 && left[0] == '"',
        !left.contains('='),
    ensures
        entry_at(lines, i) == Some(
            (
                unicode::lower_case(
                    text::replace(
                        section_after(lines.take(i)) + seq!['\\'] + text::trimmed_of(left, '"'),
                        seq!['\\', '\\'],
                        seq!['\\'],
                    ),
                ),
                text::trimmed_of(right, '"'),
            ),
        ),
{
    let line = left + seq!['='] + right;
    let e = left.len() as int;
    lemma_drive_texts();
    reveal_strlit("\\\\");
    assert("\\\\"@ =~= seq!['\\', '\\']);
    assert(text::char_first(line, '=', e)) by {
        assert(line[e] == '=');
        assert forall|j: int| 0 <= j < e implies line[j] != '=' by {
            assert(line[j] == left[j]);
        }
    }
    text::lemma_find_char(line, '=', e);
    assert(line[0] == '"');
    assert(header(line) is None);
    assert(line.take(e) =~= left);
    assert(line.skip(e + 1) =~= right);
}

/// In the key for 32-bit programs every `software\` is followed by the branch of these programs,
/// and everything else stays.
pub proof fn branch_follows_each_software(before: Seq<char>, after: Seq<char>)
    requires
        !text::occurs(before, "software\\"@),
        text::occurs_first(
            before + "software\\"@ + after,
            "software\\"@,
            before.len() as int,
        ),
    ensures
        wow_key(before) == before,
        wow_key(before + "software\\"@ + after) == before + "software\\wow6432node\\"@ + wow_key(
            after,
        ),
{
    reveal_strlit("software\\");
    text::nothing_is_replaced(before, "software\\"@, "software\\wow6432node\\"@);
    text::first_occurrence_is_replaced(
        before,
        "software\\"@,
        after,
        "software\\wow6432node\\"@,
    );
}

} // verus!
